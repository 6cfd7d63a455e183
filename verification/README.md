# fast_morphology

Flat morphology with arbitrary structuring elements: dilation, erosion and the
operations built from them (opening, closing, gradient, top hat, black hat), on
planar, gray with alpha, RGB and RGBA images and on 1D lines, with five border
modes (clamp, wrap, reflect, reflect 101, constant).

`src/` is the verified library (Verus). Each public function states its result
over a mathematical model of the image:

* `morph_base.rs` defines what a pixel reads under a border mode
  (`plane_sample`) and what dilation or erosion gives at a pixel
  (`morph_pixel`: the maximum or minimum over the points of the element);
* `op_impl.rs` states the planar result (`morph_image`, `morph_ex_image`) and the
  errors (`plane_error`); `morph_interleaved.rs` does the same for interleaved
  images, channel by channel;
* `arena.rs` pads an image of any number of interleaved channels
  (`arena_holds_channels`); the row filters under `ops/` compute one row of a
  padded plane, or of a padded RGB image pixel by pixel
  (`MorphOpFilterRgb2DRow`);
* `filter_1d.rs` treats a line as a plane one row high;
* `laws.rs` proves properties of these models: the documented border rules,
  that dilation and erosion never move a pixel the wrong way when the element
  holds its centre, that the operations keep order, that splitting an image into
  planes and interleaving them back undo each other, that the runs of an
  element stand for its points in order (a last point that starts a run of
  its own gets none), that the RGB row filter computes each channel
  as the planar filters do, that results do not depend on the threading
  policy, that each channel of an interleaved morphology is the planar one,
  that the 1D compound operations are the compositions of single calls, and
  that erosion is the inverted dilation of the inverted image.

`app/` holds what the library does not verify: floating point samples and
border values (through order-preserving integer keys), the `image` crate front
end, and the thread pool of the threading policy.
