//! A dense 2D image buffer and its PPM (plain, "P3") encoding.
use crate::ppm::{append_decimal, append_row, ppm_header, ppm_text, rows_text};
use vstd::prelude::*;

verus! {

/// A 2D canvas of `width` × `height` pixels, stored row by row. The (0, 0) coordinate is
/// at the top left.
pub struct Canvas<P> {
    width: usize,
    height: usize,
    pixels: Vec<P>,
}

/// What a canvas holds: its size and its pixels, row by row.
pub struct CanvasView<P> {
    pub width: nat,
    pub height: nat,
    pub pixels: Seq<P>,
}

impl<P> View for Canvas<P> {
    type V = CanvasView<P>;

    closed spec fn view(&self) -> CanvasView<P> {
        CanvasView { width: self.width as nat, height: self.height as nat, pixels: self.pixels@ }
    }
}

/// The position of pixel (x, y) among the pixels of a canvas `width` pixels wide.
pub open spec fn pixel_index(width: nat, x: nat, y: nat) -> nat {
    y * width + x
}

impl<P> Canvas<P> {
    /// A canvas holds exactly one pixel per coordinate.
    pub open spec fn wf(&self) -> bool {
        self@.pixels.len() == self@.width * self@.height
    }

    /// The width of this canvas.
    pub fn width(&self) -> (r: usize)
        ensures
            r == self@.width,
    {
        self.width
    }

    /// The height of this canvas.
    pub fn height(&self) -> (r: usize)
        ensures
            r == self@.height,
    {
        self.height
    }

    /// Writes the color at some pixel. If the specified coordinate is beyond the canvas,
    /// nothing changes.
    pub fn write_to(&mut self, x: usize, y: usize, color: P)
        requires
            old(self).wf(),
        ensures
            final(self).wf(),
            final(self)@.width == old(self)@.width,
            final(self)@.height == old(self)@.height,
            x < old(self)@.width && y < old(self)@.height ==> final(self)@.pixels == old(
                self,
            )@.pixels.update(pixel_index(old(self)@.width, x as nat, y as nat) as int, color),
            !(x < old(self)@.width && y < old(self)@.height) ==> final(self)@.pixels == old(
                self,
            )@.pixels,
    {
        if x >= self.width || y >= self.height {
            return;
        }
        proof {
            lemma_index_in_bounds(self.width as nat, self.height as nat, x as nat, y as nat);
        }
        let len = self.pixels.len();
        assert(y * self.width + x < len);
        let idx = y * self.width + x;
        self.pixels.set(idx, color);
    }

    /// The pixels of this canvas, row by row, to be changed in place. The canvas keeps
    /// its size, so it stays well formed as long as the number of pixels stays the same.
    pub fn pixels_mut(&mut self) -> (r: &mut Vec<P>)
        ensures
            r@ == old(self)@.pixels,
            final(self)@ == (CanvasView {
                width: old(self)@.width,
                height: old(self)@.height,
                pixels: final(r)@,
            }),
    {
        &mut self.pixels
    }
}

proof fn lemma_index_in_bounds(width: nat, height: nat, x: nat, y: nat)
    requires
        x < width,
        y < height,
    ensures
        pixel_index(width, x, y) < width * height,
{
    assert(y * width + x < width * height) by (nonlinear_arith)
        requires
            x < width,
            y < height,
    ;
}

impl<P: Copy> Canvas<P> {
    /// A canvas of `width` × `height` pixels, each of them `background`.
    pub fn new(width: usize, height: usize, background: P) -> (r: Canvas<P>)
        requires
            width * height <= usize::MAX,
        ensures
            r.wf(),
            r@.width == width,
            r@.height == height,
            forall|i: int| 0 <= i < r@.pixels.len() ==> r@.pixels[i] == background,
    {
        let n = width * height;
        let mut pixels: Vec<P> = Vec::new();
        let mut i: usize = 0;
        while i < n
            invariant
                i <= n,
                pixels@.len() == i,
                forall|j: int| 0 <= j < i ==> pixels@[j] == background,
            decreases n - i,
        {
            pixels.push(background);
            i = i + 1;
        }
        Canvas { width, height, pixels }
    }

    /// The color of the pixel at (x, y).
    pub fn pixel_at(&self, x: usize, y: usize) -> (r: P)
        requires
            self.wf(),
            x < self@.width,
            y < self@.height,
        ensures
            r == self@.pixels[pixel_index(self@.width, x as nat, y as nat) as int],
    {
        proof {
            lemma_index_in_bounds(self.width as nat, self.height as nat, x as nat, y as nat);
        }
        let len = self.pixels.len();
        assert(y * self.width + x < len);
        self.pixels[y * self.width + x]
    }

    /// A canvas of the same size whose pixels are `f` applied to the pixels of this one.
    pub fn map_pixels<Q, F: Fn(&P) -> Q>(&self, f: F) -> (r: Canvas<Q>)
        requires
            self.wf(),
            forall|p: &P| #[trigger] f.requires((p,)),
        ensures
            r.wf(),
            r@.width == self@.width,
            r@.height == self@.height,
            forall|i: int|
                0 <= i < self@.pixels.len() ==> f.ensures((&self@.pixels[i],), #[trigger] r@.pixels[i]),
    {
        let mut pixels: Vec<Q> = Vec::new();
        let mut i: usize = 0;
        while i < self.pixels.len()
            invariant
                i <= self.pixels@.len(),
                pixels@.len() == i,
                forall|p: &P| #[trigger] f.requires((p,)),
                forall|j: int|
                    0 <= j < i ==> f.ensures((&self.pixels@[j],), #[trigger] pixels@[j]),
            decreases self.pixels@.len() - i,
        {
            let q = f(&self.pixels[i]);
            pixels.push(q);
            i = i + 1;
        }
        Canvas { width: self.width, height: self.height, pixels }
    }
}

impl Canvas<(u8, u8, u8)> {
    /// Exports this canvas, whose pixels hold their red, green and blue samples as bytes,
    /// as the text of a plain PPM image.
    pub fn to_ppm(&self) -> (r: String)
        requires
            self.wf(),
        ensures
            r@ == ppm_text(self@.width, self@.height, self@.pixels),
    {
        let mut out = String::new();
        out.append("P3\n");
        append_decimal(&mut out, self.width);
        out.append(" ");
        append_decimal(&mut out, self.height);
        out.append("\n255\n");
        assert(out@ =~= ppm_header(self.width as nat, self.height as nat) + rows_text(
            self.pixels@,
            self.width as nat,
            0,
        ));
        let mut y: usize = 0;
        while y < self.height
            invariant
                self.wf(),
                y <= self.height,
                out@ == ppm_header(self.width as nat, self.height as nat) + rows_text(
                    self.pixels@,
                    self.width as nat,
                    y as nat,
                ),
            decreases self.height - y,
        {
            let len = self.pixels.len();
            assert(y * self.width + self.width <= self.width * self.height) by (nonlinear_arith)
                requires
                    y < self.height,
            ;
            assert(y * self.width + self.width == (y + 1) * self.width) by (nonlinear_arith);
            append_row(&mut out, &self.pixels, y * self.width, self.width);
            y = y + 1;
            assert(out@ =~= ppm_header(self.width as nat, self.height as nat) + rows_text(
                self.pixels@,
                self.width as nat,
                y as nat,
            ));
        }
        out
    }
}

} // verus!
