//! The framebuffer: a color grid and a depth grid of equal size, addressed with
//! the vertical flip baked in, and a depth test where the greater depth wins.
//!
//! Depths are 32-bit IEEE-754 values held as their bit patterns; `depth_ge`
//! orders them as the floating-point `>=` does.
use vstd::prelude::*;

verus! {

/// An 8-bit RGB color.
pub type Color = [u8; 3];

pub open spec fn is_black(c: Color) -> bool {
    c@[0] == 0 && c@[1] == 0 && c@[2] == 0
}

/// A write that the framebuffer refused.
#[derive(Clone, Copy, Debug, PartialEq, Eq, Structural)]
pub enum CanvasError {
    /// The pixel lies outside the canvas.
    OutOfBounds,
}

/// The magnitude bits of a 32-bit float.
pub open spec fn depth_magnitude(bits: u32) -> int {
    bits as int % 0x8000_0000
}

/// The bit pattern is a NaN: exponent all ones and a non-zero mantissa.
pub open spec fn depth_is_nan(bits: u32) -> bool {
    depth_magnitude(bits) > 0x7f80_0000
}

/// A rank that orders non-NaN floats as their values are ordered; both zeros
/// have rank 0.
pub open spec fn depth_rank(bits: u32) -> int {
    if bits >= 0x8000_0000 {
        -depth_magnitude(bits)
    } else {
        bits as int
    }
}

/// The float with bits `a` is `>=` the float with bits `b`.
pub open spec fn depth_ge(a: u32, b: u32) -> bool {
    !depth_is_nan(a) && !depth_is_nan(b) && depth_rank(a) >= depth_rank(b)
}

/// `depth_ge` on bit patterns.
pub fn depth_at_least(a: u32, b: u32) -> (r: bool)
    ensures
        r == depth_ge(a, b),
{
    let ma: u32 = a % 0x8000_0000;
    let mb: u32 = b % 0x8000_0000;
    if ma > 0x7f80_0000 || mb > 0x7f80_0000 {
        return false;
    }
    let ra: i64 = if a >= 0x8000_0000 { -(ma as i64) } else { a as i64 };
    let rb: i64 = if b >= 0x8000_0000 { -(mb as i64) } else { b as i64 };
    ra >= rb
}

/// The mathematical content of a canvas.
pub struct CanvasView {
    pub width: nat,
    pub height: nat,
    pub colors: Seq<Color>,
    pub depths: Seq<u32>,
}

impl CanvasView {
    pub open spec fn wf(self) -> bool {
        &&& self.colors.len() == self.width * self.height
        &&& self.depths.len() == self.width * self.height
    }

    pub open spec fn in_bounds(self, x: int, y: int) -> bool {
        0 <= x < self.width && 0 <= y < self.height
    }

    /// Row 0 of the image is the last row of storage.
    pub open spec fn index(self, x: int, y: int) -> int {
        (self.height - 1 - y) * self.width + x
    }

    pub open spec fn color_at(self, x: int, y: int) -> Color {
        self.colors[self.index(x, y)]
    }

    pub open spec fn depth_at(self, x: int, y: int) -> u32 {
        self.depths[self.index(x, y)]
    }

    /// The canvas after storing `color` and `z` at `(x, y)`.
    pub open spec fn written(self, x: int, y: int, z: u32, color: Color) -> CanvasView {
        CanvasView {
            colors: self.colors.update(self.index(x, y), color),
            depths: self.depths.update(self.index(x, y), z),
            ..self
        }
    }

    /// The canvas after a depth-tested write: it is written where `z` is at
    /// least the stored depth, and unchanged otherwise.
    pub open spec fn depth_tested(self, x: int, y: int, z: u32, color: Color) -> CanvasView {
        if depth_ge(z, self.depth_at(x, y)) {
            self.written(x, y, z, color)
        } else {
            self
        }
    }
}

/// The flipped address of an in-bounds pixel lies in the grid.
pub proof fn lemma_index_in_grid(width: int, height: int, x: int, y: int)
    requires
        0 <= x < width,
        0 <= y < height,
    ensures
        0 <= (height - 1 - y) * width + x < width * height,
{
    assert(0 <= (height - 1 - y) * width + x < width * height) by (nonlinear_arith)
        requires
            0 <= x < width,
            0 <= y < height,
    ;
}

/// A color grid and a depth grid of `width * height` cells each.
pub struct Canvas {
    width: usize,
    height: usize,
    data: Vec<Color>,
    z_buffer: Vec<u32>,
}

impl View for Canvas {
    type V = CanvasView;

    closed spec fn view(&self) -> CanvasView {
        CanvasView {
            width: self.width as nat,
            height: self.height as nat,
            colors: self.data@,
            depths: self.z_buffer@,
        }
    }
}

impl Canvas {
    pub open spec fn wf(&self) -> bool {
        self@.wf()
    }

    /// A black canvas with depth 0.0 everywhere.
    pub fn new(width: usize, height: usize) -> (r: Canvas)
        requires
            width * height <= usize::MAX,
        ensures
            r.wf(),
            r@.width == width,
            r@.height == height,
            forall|i: int| 0 <= i < width * height ==> is_black(#[trigger] r@.colors[i]),
            forall|i: int| 0 <= i < width * height ==> #[trigger] r@.depths[i] == 0,
    {
        let n: usize = width * height;
        let mut data: Vec<Color> = Vec::new();
        let mut z_buffer: Vec<u32> = Vec::new();
        let mut i: usize = 0;
        while i < n
            invariant
                i <= n,
                data@.len() == i,
                z_buffer@.len() == i,
                forall|j: int| 0 <= j < i ==> is_black(#[trigger] data@[j]),
                forall|j: int| 0 <= j < i ==> #[trigger] z_buffer@[j] == 0,
            decreases n - i,
        {
            data.push([0u8, 0u8, 0u8]);
            z_buffer.push(0);
            i = i + 1;
        }
        Canvas { width, height, data, z_buffer }
    }

    pub fn width(&self) -> (r: usize)
        ensures
            r == self@.width,
    {
        self.width
    }

    pub fn height(&self) -> (r: usize)
        ensures
            r == self@.height,
    {
        self.height
    }

    fn index(&self, x: usize, y: usize) -> (r: usize)
        requires
            self.wf(),
            self@.in_bounds(x as int, y as int),
        ensures
            r == self@.index(x as int, y as int),
            r < self.data@.len(),
    {
        let cells: usize = self.data.len();
        proof {
            lemma_index_in_grid(self.width as int, self.height as int, x as int, y as int);
            assert(cells == self.width as int * self.height as int);
        }
        let row: usize = self.height - 1 - y;
        (row * self.width) + x
    }

    /// Stores `color` and depth `z` at `(x, y)`, or reports that the pixel lies
    /// outside the canvas.
    pub fn write_pixel(&mut self, x: usize, y: usize, z: u32, color: &Color) -> (r: Result<(), CanvasError>)
        requires
            old(self).wf(),
        ensures
            final(self).wf(),
            old(self)@.in_bounds(x as int, y as int) ==> r is Ok && final(self)@ == old(self)@.written(x as int, y as int, z, *color),
            !old(self)@.in_bounds(x as int, y as int) ==> r == Err::<(), CanvasError>(CanvasError::OutOfBounds) && final(self)@ == old(self)@,
    {
        if x >= self.width || y >= self.height {
            return Err(CanvasError::OutOfBounds);
        }
        let i = self.index(x, y);
        self.data.set(i, *color);
        self.z_buffer.set(i, z);
        Ok(())
    }

    /// The depth stored at `(x, y)`.
    pub fn read_depth(&self, x: usize, y: usize) -> (r: u32)
        requires
            self.wf(),
            self@.in_bounds(x as int, y as int),
        ensures
            r == self@.depth_at(x as int, y as int),
    {
        self.z_buffer[self.index(x, y)]
    }

    /// The color stored at `(x, y)`.
    pub fn read_color(&self, x: usize, y: usize) -> (r: Color)
        requires
            self.wf(),
            self@.in_bounds(x as int, y as int),
        ensures
            r == self@.color_at(x as int, y as int),
    {
        self.data[self.index(x, y)]
    }

    /// The canvas as a binary pixel-map file.
    pub fn to_ppm(&self) -> (r: Vec<u8>)
        requires
            self.wf(),
        ensures
            r@ == ppm_spec(self@),
    {
        let mut out: Vec<u8> = Vec::new();
        out.push(80);
        out.push(54);
        out.push(10);
        push_decimal(&mut out, self.width);
        out.push(32);
        push_decimal(&mut out, self.height);
        out.push(10);
        out.push(50);
        out.push(53);
        out.push(53);
        out.push(10);
        let ghost header = out@;
        assert(header =~= ppm_header(self.width as nat, self.height as nat));
        let mut i: usize = 0;
        while i < self.data.len()
            invariant
                i <= self.data@.len(),
                out@ == header + color_bytes(self.data@.subrange(0, i as int)),
            decreases self.data@.len() - i,
        {
            let c: Color = self.data[i];
            out.push(c[0]);
            out.push(c[1]);
            out.push(c[2]);
            proof {
                let next = self.data@.subrange(0, i + 1);
                assert(next.drop_last() =~= self.data@.subrange(0, i as int));
                assert(c@ =~= seq![c@[0], c@[1], c@[2]]);
                assert(out@ =~= header + color_bytes(next));
            }
            i = i + 1;
        }
        assert(self.data@.subrange(0, self.data@.len() as int) =~= self.data@);
        out
    }

    /// The depth test: writes `color` and `z` at `(x, y)` where `z` is at least
    /// the stored depth (ties go to the newer write), and says whether it did.
    pub fn write_if_closer(&mut self, x: usize, y: usize, z: u32, color: &Color) -> (r: bool)
        requires
            old(self).wf(),
            old(self)@.in_bounds(x as int, y as int),
        ensures
            final(self).wf(),
            r == depth_ge(z, old(self)@.depth_at(x as int, y as int)),
            final(self)@ == old(self)@.depth_tested(x as int, y as int, z, *color),
    {
        let stored = self.read_depth(x, y);
        if depth_at_least(z, stored) {
            let i = self.index(x, y);
            self.data.set(i, *color);
            self.z_buffer.set(i, z);
            true
        } else {
            false
        }
    }
}

/// The decimal digits of `n`, most significant first, in ASCII.
pub open spec fn decimal(n: nat) -> Seq<u8>
    decreases n,
{
    if n < 10 {
        seq![(48 + n) as u8]
    } else {
        decimal(n / 10) + seq![(48 + n % 10) as u8]
    }
}

/// The pixel-map header: the binary RGB magic line, the width and height
/// in decimal on one line, and the largest channel value, 255.
pub open spec fn ppm_header(width: nat, height: nat) -> Seq<u8> {
    seq![80u8, 54u8, 10u8] + decimal(width) + seq![32u8] + decimal(height) + seq![10u8, 50u8, 53u8, 53u8, 10u8]
}

/// The colors' channels one after another.
pub open spec fn color_bytes(colors: Seq<Color>) -> Seq<u8>
    decreases colors.len(),
{
    if colors.len() == 0 {
        Seq::empty()
    } else {
        color_bytes(colors.drop_last()) + colors.last()@
    }
}

/// The binary pixel-map file of a canvas: the header, then the color grid in
/// storage order, so that the file's first row is the image's bottom row.
pub open spec fn ppm_spec(v: CanvasView) -> Seq<u8> {
    ppm_header(v.width, v.height) + color_bytes(v.colors)
}

proof fn lemma_color_bytes_len(colors: Seq<Color>)
    ensures
        color_bytes(colors).len() == 3 * colors.len(),
    decreases colors.len(),
{
    if colors.len() > 0 {
        lemma_color_bytes_len(colors.drop_last());
        assert(colors.last()@.len() == 3);
    }
}

proof fn lemma_color_bytes_index(colors: Seq<Color>, i: int, k: int)
    requires
        0 <= i < colors.len(),
        0 <= k < 3,
    ensures
        color_bytes(colors)[3 * i + k] == colors[i]@[k],
    decreases colors.len(),
{
    let rest = colors.drop_last();
    lemma_color_bytes_len(rest);
    if i < colors.len() - 1 {
        lemma_color_bytes_index(rest, i, k);
    }
}

/// Reading the pixel-map file back gives the canvas: the header states the
/// size, and the color of pixel `(x, y)` stands at its flipped address after it.
pub proof fn lemma_ppm_holds_grid(v: CanvasView, x: int, y: int, k: int)
    requires
        v.wf(),
        v.in_bounds(x, y),
        0 <= k < 3,
    ensures
        ppm_spec(v).subrange(0, ppm_header(v.width, v.height).len() as int) == ppm_header(v.width, v.height),
        ppm_spec(v).len() == ppm_header(v.width, v.height).len() + 3 * v.width * v.height,
        ppm_spec(v)[ppm_header(v.width, v.height).len() + 3 * v.index(x, y) + k] == v.color_at(x, y)@[k],
{
    lemma_index_in_grid(v.width as int, v.height as int, x, y);
    lemma_color_bytes_index(v.colors, v.index(x, y), k);
    lemma_color_bytes_len(v.colors);
    assert(ppm_spec(v).subrange(0, ppm_header(v.width, v.height).len() as int) =~= ppm_header(v.width, v.height));
    assert(3 * v.width * v.height == 3 * (v.width * v.height)) by (nonlinear_arith);
}

/// Appends the decimal digits of `n`.
fn push_decimal(out: &mut Vec<u8>, n: usize)
    ensures
        final(out)@ == old(out)@ + decimal(n as nat),
    decreases n,
{
    if n >= 10 {
        push_decimal(out, n / 10);
    }
    let digit: u8 = (n % 10) as u8;
    out.push(48 + digit);
    proof {
        assert(final(out)@ =~= old(out)@ + decimal(n as nat));
    }
}

/// With two strictly ordered depths at one pixel, the nearer write's color
/// is what remains, in whichever order the two writes come, provided the
/// nearer one passes the depth test against what was stored before.
pub proof fn lemma_depth_order_independent(
    v: CanvasView,
    x: int,
    y: int,
    near: u32,
    near_color: Color,
    far: u32,
    far_color: Color,
)
    requires
        v.wf(),
        v.in_bounds(x, y),
        depth_ge(near, v.depth_at(x, y)),
        !depth_is_nan(far),
        depth_rank(near) > depth_rank(far),
    ensures
        v.depth_tested(x, y, near, near_color).depth_tested(x, y, far, far_color).color_at(x, y) == near_color,
        v.depth_tested(x, y, far, far_color).depth_tested(x, y, near, near_color).color_at(x, y) == near_color,
        v.depth_tested(x, y, near, near_color).depth_tested(x, y, far, far_color)
            == v.depth_tested(x, y, far, far_color).depth_tested(x, y, near, near_color),
{
    lemma_index_in_grid(v.width as int, v.height as int, x, y);
    let i = v.index(x, y);
    let one = v.depth_tested(x, y, near, near_color);
    assert(one == v.written(x, y, near, near_color));
    assert(one.depth_at(x, y) == near);
    assert(one.depth_tested(x, y, far, far_color) == one);
    let two = v.depth_tested(x, y, far, far_color);
    assert(two.depth_at(x, y) == far || two == v);
    assert(two.depth_tested(x, y, near, near_color) == two.written(x, y, near, near_color));
    if depth_ge(far, v.depth_at(x, y)) {
        assert(two.written(x, y, near, near_color).colors =~= one.colors);
        assert(two.written(x, y, near, near_color).depths =~= one.depths);
    }
}

} // verus!
