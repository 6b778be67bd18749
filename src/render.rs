use vstd::prelude::*;
use crate::image::{Image, Rgba, pixel_index};

verus! {

/// Whether `img` is a frame of `width` by `height` pixels in which each pixel
/// is a color that `shade` may return for its position.
pub open spec fn renders<F: Fn(u32, u32) -> Rgba>(img: Image, width: u32, height: u32, shade: F) -> bool {
    &&& img.wf()
    &&& img.spec_width() == width
    &&& img.spec_height() == height
    &&& forall|x: int, y: int|
        0 <= x < width && 0 <= y < height ==> shade.ensures(
            (x as u32, y as u32),
            #[trigger] img.pixel(x, y),
        )
}

/// Whether `shade` gives one color per position.
pub open spec fn deterministic<F: Fn(u32, u32) -> Rgba>(shade: F) -> bool {
    forall|x: u32, y: u32, p: Rgba, q: Rgba|
        #[trigger] shade.ensures((x, y), p) && #[trigger] shade.ensures((x, y), q) ==> p == q
}

/// Renders a `width` by `height` frame: each pixel is computed by `shade`
/// from its position alone, once, and written once.
pub fn render_frame<F: Fn(u32, u32) -> Rgba>(width: u32, height: u32, shade: F) -> (img: Image)
    requires
        width as nat * height as nat <= usize::MAX,
        forall|x: u32, y: u32| x < width && y < height ==> #[trigger] shade.requires((x, y)),
    ensures
        renders(img, width, height, shade),
{
    let mut img = Image::new(width, height);
    let mut x: u32 = 0;
    while x < width
        invariant
            x <= width,
            img.wf(),
            img.spec_width() == width,
            img.spec_height() == height,
            forall|x: u32, y: u32| x < width && y < height ==> #[trigger] shade.requires((x, y)),
            forall|i: int, j: int|
                0 <= i < x && 0 <= j < height ==> shade.ensures(
                    (i as u32, j as u32),
                    #[trigger] img.pixel(i, j),
                ),
        decreases width - x,
    {
        let mut y: u32 = 0;
        while y < height
            invariant
                x < width,
                y <= height,
                img.wf(),
                img.spec_width() == width,
                img.spec_height() == height,
                forall|x: u32, y: u32| x < width && y < height ==> #[trigger] shade.requires((x, y)),
                forall|i: int, j: int|
                    0 <= j < height && (0 <= i < x || (i == x && 0 <= j < y)) ==> shade.ensures(
                        (i as u32, j as u32),
                        #[trigger] img.pixel(i, j),
                    ),
            decreases height - y,
        {
            let p = shade(x, y);
            img.put_pixel(x, y, p);
            y = y + 1;
        }
        x = x + 1;
    }
    img
}

/// Rendering holds no state of its own: where the shading of a pixel depends
/// on its position alone, any two frames rendered with it are identical.
pub proof fn lemma_render_idempotent<F: Fn(u32, u32) -> Rgba>(
    shade: F,
    width: u32,
    height: u32,
    a: Image,
    b: Image,
)
    requires
        deterministic(shade),
        renders(a, width, height, shade),
        renders(b, width, height, shade),
    ensures
        a@ == b@,
{
    assert forall|k: int| 0 <= k < a@.pixels.len() implies a@.pixels[k] == b@.pixels[k] by {
        let w = width as int;
        let x = k % w;
        let y = k / w;
        assert(0 < w) by (nonlinear_arith)
            requires
                0 <= k < w * height,
                0 <= w,
        ;
        assert(0 <= x < w && 0 <= y && k == y * w + x) by (nonlinear_arith)
            requires
                0 < w,
                0 <= k,
                x == k % w,
                y == k / w,
        ;
        assert(y < height) by (nonlinear_arith)
            requires
                0 <= x < w,
                0 <= y,
                k == y * w + x,
                k < w * height,
        ;
        assert(pixel_index(width as nat, x, y) == k);
        assert(shade.ensures((x as u32, y as u32), a.pixel(x, y)));
        assert(shade.ensures((x as u32, y as u32), b.pixel(x, y)));
    }
    assert(a@.pixels =~= b@.pixels);
}

} // verus!
