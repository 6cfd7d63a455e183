use vstd::prelude::*;

verus! {

/// Channel `c` of an image that interleaves `channels` samples per pixel.
pub open spec fn deinterleaved<T>(src: Seq<T>, channels: int, c: int) -> Seq<T> {
    Seq::new(((src.len() as int) / channels) as nat, |i: int| src[channels * i + c])
}

/// `count` pixels whose channels are `chans`, interleaved: sample `j` is
/// pixel `j / channels` of channel `j % channels`.
pub open spec fn interleaved<T>(chans: Seq<Seq<T>>, channels: int, count: int) -> Seq<T> {
    Seq::new((channels * count) as nat, |j: int| chans[j % channels][j / channels])
}

/// How many whole pixels can be interleaved into `dst_len` samples from `chans`:
/// no more than fit, and no more than the shortest channel holds.
pub open spec fn pixel_count<T>(dst_len: int, chans: Seq<Seq<T>>, channels: int) -> int
    decreases chans.len(),
{
    if chans.len() == 0 {
        dst_len / channels
    } else {
        let rest = pixel_count(dst_len, chans.drop_last(), channels);
        if chans.last().len() < rest {
            chans.last().len() as int
        } else {
            rest
        }
    }
}

/// `dst` holds the first `count` pixels of `chans` interleaved, and what `old`
/// held after them.
pub open spec fn interleave_written<T>(
    dst: Seq<T>,
    old: Seq<T>,
    chans: Seq<Seq<T>>,
    channels: int,
    count: int,
) -> bool {
    &&& dst.len() == old.len()
    &&& forall|j: int|
        0 <= j < dst.len() ==> #[trigger] dst[j] == if j < channels * count {
            chans[j % channels][j / channels]
        } else {
            old[j]
        }
}

pub proof fn lemma_interleave_index(channels: int, i: int, c: int)
    requires
        channels >= 1,
        i >= 0,
        0 <= c < channels,
    ensures
        (channels * i + c) % channels == c,
        (channels * i + c) / channels == i,
        channels * i + c < channels * (i + 1),
        channels * i <= channels * i + c,
{
    assert(channels * i == i * channels) by (nonlinear_arith);
    vstd::arithmetic::div_mod::lemma_fundamental_div_mod_converse(channels * i + c, channels, i, c);
    assert(channels * (i + 1) == channels * i + channels) by (nonlinear_arith);
}

pub proof fn lemma_interleave_split(channels: int, j: int)
    requires
        channels >= 1,
        j >= 0,
    ensures
        j == channels * (j / channels) + j % channels,
        0 <= j % channels < channels,
        j / channels >= 0,
{
    vstd::arithmetic::div_mod::lemma_fundamental_div_mod(j, channels);
    assert(0 <= j / channels) by {
        vstd::arithmetic::div_mod::lemma_div_pos_is_pos(j, channels);
    }
}

/// Sample `c` of each of the first `count` pixels of an interleaved image.
pub fn gather_channel<T: Copy>(src: &[T], c: usize, channels: usize, count: usize) -> (v: Vec<T>)
    requires
        c < channels,
        channels * count <= src@.len(),
    ensures
        v@ == Seq::new(count as nat, |i: int| src@[channels * i + c]),
{
    let _n = src.len();
    let mut v: Vec<T> = Vec::new();
    let mut i: usize = 0;
    while i < count
        invariant
            c < channels,
            channels * count <= src@.len(),
            src@.len() <= usize::MAX,
            i <= count,
            v@ == Seq::new(i as nat, |k: int| src@[channels * k + c]),
        decreases count - i,
    {
        assert(channels * i + c < channels * count) by (nonlinear_arith)
            requires
                i < count,
                c < channels,
        ;
        v.push(src[channels * i + c]);
        i = i + 1;
        assert(v@ =~= Seq::new(i as nat, |k: int| src@[channels * k + c]));
    }
    v
}

/// Writes `chan[i]` into sample `c` of pixel `i` of `dst`, for the first
/// `count` pixels; the other samples stay.
pub fn scatter_channel<T: Copy>(dst: &mut [T], chan: &[T], c: usize, channels: usize, count: usize)
    requires
        c < channels,
        channels * count <= old(dst)@.len(),
        count <= chan@.len(),
    ensures
        final(dst)@.len() == old(dst)@.len(),
        forall|j: int|
            0 <= j < final(dst)@.len() ==> #[trigger] final(dst)@[j] == if j < channels * count && j
                % channels as int == c {
                chan@[j / channels as int]
            } else {
                old(dst)@[j]
            },
{
    let ghost ch = channels as int;
    let _n = dst.len();
    let mut i: usize = 0;
    while i < count
        invariant
            ch == channels,
            c < channels,
            channels * count <= dst@.len(),
            dst@.len() <= usize::MAX,
            count <= chan@.len(),
            dst@.len() == old(dst)@.len(),
            i <= count,
            forall|j: int|
                0 <= j < dst@.len() ==> #[trigger] dst@[j] == if j < ch * i && j % ch == c {
                    chan@[j / ch]
                } else {
                    old(dst)@[j]
                },
        decreases count - i,
    {
        proof {
            lemma_interleave_index(ch, i as int, c as int);
            assert(ch * (i + 1) <= ch * count) by (nonlinear_arith)
                requires
                    i < count,
                    ch >= 1,
            ;
        }
        let idx = channels * i + c;
        let ghost before = dst@;
        dst[idx] = chan[i];
        proof {
            assert forall|j: int| 0 <= j < dst@.len() implies #[trigger] dst@[j] == if j < ch * (i
                + 1) && j % ch == c {
                chan@[j / ch]
            } else {
                old(dst)@[j]
            } by {
                if j != idx {
                    assert(dst@[j] == before[j]);
                    if ch * i <= j < ch * (i + 1) && j % ch == c {
                        lemma_interleave_split(ch, j);
                        assert(j / ch == i as int) by (nonlinear_arith)
                            requires
                                j == ch * (j / ch) + j % ch,
                                ch * i <= j < ch * (i + 1),
                                0 <= j % ch < ch,
                                ch >= 1,
                        ;
                    }
                }
            }
        }
        i = i + 1;
    }
}

} // verus!
