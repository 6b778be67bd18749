use vstd::prelude::*;

verus! {

/// The background: fully transparent black.
pub open spec fn background_rgba() -> Rgba {
    Rgba { red: 0, green: 0, blue: 0, alpha: 0 }
}

/// An 8-bit RGBA pixel.
#[derive(Clone, Copy, Debug, PartialEq, Eq, Structural)]
pub struct Rgba {
    pub red: u8,
    pub green: u8,
    pub blue: u8,
    pub alpha: u8,
}

impl Rgba {
    pub fn from_channels(red: u8, green: u8, blue: u8, alpha: u8) -> (r: Rgba)
        ensures
            r == (Rgba { red, green, blue, alpha }),
    {
        Rgba { red, green, blue, alpha }
    }

    /// The pixel of a ray that hits nothing: fully transparent black.
    pub fn background() -> (r: Rgba)
        ensures
            r == background_rgba(),
    {
        Rgba { red: 0, green: 0, blue: 0, alpha: 0 }
    }

    /// The pixel of a ray that hits a surface of the given shaded color:
    /// fully opaque.
    pub fn opaque(red: u8, green: u8, blue: u8) -> (r: Rgba)
        ensures
            r == (Rgba { red, green, blue, alpha: 255 }),
    {
        Rgba { red, green, blue, alpha: 255 }
    }

    /// The pixel for the outcome of one primary ray: the shaded color
    /// `(red, green, blue)` where it hits, the background where it misses.
    pub fn from_hit(shaded: Option<(u8, u8, u8)>) -> (r: Rgba)
        ensures
            shaded matches Some(c) ==> r == (Rgba { red: c.0, green: c.1, blue: c.2, alpha: 255 }),
            shaded is None ==> r == background_rgba(),
    {
        match shaded {
            Some((red, green, blue)) => Rgba::opaque(red, green, blue),
            None => Rgba::background(),
        }
    }
}

/// Where pixel `(x, y)` is stored in a row-major buffer.
pub open spec fn pixel_index(width: nat, x: int, y: int) -> int {
    y * width + x
}

/// What an image is: its size, and its pixels row by row.
pub struct ImageView {
    pub width: nat,
    pub height: nat,
    pub pixels: Seq<Rgba>,
}

/// A raster image of `width` by `height` pixels, stored row by row.
pub struct Image {
    width: u32,
    height: u32,
    pixels: Vec<Rgba>,
}

impl View for Image {
    type V = ImageView;

    closed spec fn view(&self) -> ImageView {
        ImageView { width: self.width as nat, height: self.height as nat, pixels: self.pixels@ }
    }
}

impl Image {
    pub open spec fn spec_width(&self) -> nat {
        self@.width
    }

    pub open spec fn spec_height(&self) -> nat {
        self@.height
    }

    /// The pixel at column `x` and row `y`.
    pub open spec fn pixel(&self, x: int, y: int) -> Rgba {
        self@.pixels[pixel_index(self@.width, x, y)]
    }

    /// The buffer holds exactly one pixel per position.
    pub open spec fn wf(&self) -> bool {
        &&& self@.width * self@.height <= usize::MAX
        &&& self@.pixels.len() == self@.width * self@.height
    }

    /// A `width` by `height` image with every pixel the background.
    pub fn new(width: u32, height: u32) -> (r: Image)
        requires
            width as nat * height as nat <= usize::MAX,
        ensures
            r.wf(),
            r.spec_width() == width,
            r.spec_height() == height,
            forall|x: int, y: int|
                0 <= x < width && 0 <= y < height ==> #[trigger] r.pixel(x, y)
                    == background_rgba(),
    {
        let n: usize = (width as usize) * (height as usize);
        let mut pixels: Vec<Rgba> = Vec::with_capacity(n);
        let mut i: usize = 0;
        while i < n
            invariant
                i <= n,
                pixels@.len() == i,
                forall|j: int| 0 <= j < i ==> #[trigger] pixels@[j] == background_rgba(),
            decreases n - i,
        {
            pixels.push(Rgba::background());
            i = i + 1;
        }
        let r = Image { width, height, pixels };
        assert forall|x: int, y: int| 0 <= x < width && 0 <= y < height implies #[trigger] r.pixel(
            x,
            y,
        ) == background_rgba() by {
            lemma_index_in_bounds(width as nat, height as nat, x, y);
        }
        r
    }

    pub fn width(&self) -> (r: u32)
        ensures
            r == self.spec_width(),
    {
        self.width
    }

    pub fn height(&self) -> (r: u32)
        ensures
            r == self.spec_height(),
    {
        self.height
    }

    pub fn get_pixel(&self, x: u32, y: u32) -> (r: Rgba)
        requires
            self.wf(),
            x < self.spec_width(),
            y < self.spec_height(),
        ensures
            r == self.pixel(x as int, y as int),
    {
        proof {
            lemma_index_in_bounds(self.width as nat, self.height as nat, x as int, y as int);
        }
        self.pixels[(y as usize) * (self.width as usize) + (x as usize)]
    }

    /// Writes pixel `(x, y)` and leaves every other pixel as it was.
    pub fn put_pixel(&mut self, x: u32, y: u32, p: Rgba)
        requires
            old(self).wf(),
            x < old(self).spec_width(),
            y < old(self).spec_height(),
        ensures
            final(self).wf(),
            final(self).spec_width() == old(self).spec_width(),
            final(self).spec_height() == old(self).spec_height(),
            final(self).pixel(x as int, y as int) == p,
            forall|i: int, j: int|
                0 <= i < old(self).spec_width() && 0 <= j < old(self).spec_height() && (i != x
                    || j != y) ==> #[trigger] final(self).pixel(i, j) == old(self).pixel(i, j),
    {
        proof {
            lemma_index_in_bounds(self.width as nat, self.height as nat, x as int, y as int);
        }
        let k: usize = (y as usize) * (self.width as usize) + (x as usize);
        self.pixels.set(k, p);
        proof {
            assert forall|i: int, j: int|
                0 <= i < self.width && 0 <= j < self.height && (i != x || j != y) implies
                #[trigger] self.pixel(i, j) == old(self).pixel(i, j) by {
                lemma_index_in_bounds(self.width as nat, self.height as nat, i, j);
                lemma_index_injective(self.width as nat, i, j, x as int, y as int);
            }
        }
    }
}

proof fn lemma_index_in_bounds(width: nat, height: nat, x: int, y: int)
    requires
        0 <= x < width,
        0 <= y < height,
    ensures
        0 <= y * width <= pixel_index(width, x, y) < width * height,
{
    assert(0 <= y * width) by (nonlinear_arith)
        requires
            0 <= y,
    ;
    assert(y * width + x < width * height) by (nonlinear_arith)
        requires
            0 <= x < width,
            0 <= y < height,
    ;
}

proof fn lemma_index_injective(width: nat, x1: int, y1: int, x2: int, y2: int)
    requires
        0 <= x1 < width,
        0 <= x2 < width,
        0 <= y1,
        0 <= y2,
    ensures
        pixel_index(width, x1, y1) == pixel_index(width, x2, y2) ==> x1 == x2 && y1 == y2,
{
    if pixel_index(width, x1, y1) == pixel_index(width, x2, y2) {
        assert(y1 == y2) by (nonlinear_arith)
            requires
                0 <= x1 < width,
                0 <= x2 < width,
                y1 * width + x1 == y2 * width + x2,
        ;
    }
}

} // verus!
