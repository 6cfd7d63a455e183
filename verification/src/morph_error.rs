use vstd::prelude::*;

verus! {

/// Errors of the 1D filters.
#[derive(Debug, Copy, Clone, PartialEq, Eq, Structural, Hash)]
pub enum MorphError {
    KernelSizeMustBeOdd,
    SourceAndDestinationMustMatch,
    SamplesMustBeMultipleOfChannels,
}

/// The ASCII digit for `d` (0 to 9).
pub open spec fn digit_char(d: int) -> char {
    (d + 48) as char
}

/// `n` written in decimal, without sign or leading zeros.
pub open spec fn decimal_digits(n: nat) -> Seq<char>
    decreases n,
{
    if n < 10 {
        seq![digit_char(n as int)]
    } else {
        decimal_digits(n / 10).push(digit_char((n % 10) as int))
    }
}

/// The decimal digit `d` (0 to 9) as a string.
fn digit_str(d: usize) -> (s: &'static str)
    requires
        d < 10,
    ensures
        s@ == seq![digit_char(d as int)],
{
    proof {
        reveal_strlit("0");
        reveal_strlit("1");
        reveal_strlit("2");
        reveal_strlit("3");
        reveal_strlit("4");
        reveal_strlit("5");
        reveal_strlit("6");
        reveal_strlit("7");
        reveal_strlit("8");
        reveal_strlit("9");
    }
    match d {
        0 => "0",
        1 => "1",
        2 => "2",
        3 => "3",
        4 => "4",
        5 => "5",
        6 => "6",
        7 => "7",
        8 => "8",
        _ => "9",
    }
}

/// Appends `n` written in decimal to `s`.
fn append_decimal(s: &mut String, n: usize)
    ensures
        final(s)@ == old(s)@ + decimal_digits(n as nat),
    decreases n,
{
    if n < 10 {
        s.append(digit_str(n));
    } else {
        append_decimal(s, n / 10);
        s.append(digit_str(n % 10));
    }
}

/// `n` written in decimal, without sign or leading zeros.
fn usize_to_decimal(n: usize) -> (s: String)
    ensures
        s@ == decimal_digits(n as nat),
{
    let mut s = String::new();
    append_decimal(&mut s, n);
    s
}

/// The text of a size mismatch: `"<subject> expected to be <expected> but it was <actual>"`.
pub open spec fn mismatch_text(subject: Seq<char>, expected: nat, actual: nat) -> Seq<char> {
    subject + " expected to be "@ + decimal_digits(expected) + " but it was "@ + decimal_digits(
        actual,
    )
}

/// Writes `"<subject> expected to be <expected> but it was <actual>"`.
pub fn mismatch_message(subject: &str, expected: usize, actual: usize) -> (s: String)
    ensures
        s@ == mismatch_text(subject@, expected as nat, actual as nat),
{
    let mut s = String::from_str(subject);
    s.append(" expected to be ");
    let e = usize_to_decimal(expected);
    s.append(e.as_str());
    s.append(" but it was ");
    let a = usize_to_decimal(actual);
    s.append(a.as_str());
    s
}

} // verus!

verus! {

/// The text of an interleaved image size mismatch.
pub open spec fn channels_text(expected: nat, src_len: nat, dst_len: nat) -> Seq<char> {
    "Source and Destination image slice expected to be "@ + decimal_digits(expected)
        + " but it was src "@ + decimal_digits(src_len) + ", dst "@ + decimal_digits(dst_len)
}

/// Writes `"Source and Destination image slice expected to be <expected> but it
/// was src <src_len>, dst <dst_len>"`.
pub fn channels_mismatch_message(expected: usize, src_len: usize, dst_len: usize) -> (s: String)
    ensures
        s@ == channels_text(expected as nat, src_len as nat, dst_len as nat),
{
    let mut s = String::from_str("Source and Destination image slice expected to be ");
    let e = usize_to_decimal(expected);
    s.append(e.as_str());
    s.append(" but it was src ");
    let a = usize_to_decimal(src_len);
    s.append(a.as_str());
    s.append(", dst ");
    let b = usize_to_decimal(dst_len);
    s.append(b.as_str());
    s
}

} // verus!
