//! Texture storage and nearest-texel lookup. Texel indices outside the image
//! are clamped to its edge.
use vstd::prelude::*;

verus! {

/// An 8-bit RGBA texel.
pub type Texel = [u8; 4];

/// The mathematical content of a texture: rows from the top, each `width` texels.
pub struct TextureView {
    pub width: nat,
    pub height: nat,
    pub texels: Seq<Texel>,
}

impl TextureView {
    pub open spec fn wf(self) -> bool {
        &&& self.width >= 1
        &&& self.height >= 1
        &&& self.texels.len() == self.width * self.height
    }

    /// The texel at column `x` and row `y`, each clamped to the image.
    pub open spec fn clamped_texel(self, x: int, y: int) -> Texel {
        let cx = if x < self.width { x } else { self.width - 1 };
        let cy = if y < self.height { y } else { self.height - 1 };
        self.texels[cy * self.width + cx]
    }
}

/// A texture of `width * height` RGBA texels, at least one of each.
pub struct Texture {
    width: u32,
    height: u32,
    texels: Vec<Texel>,
}

impl View for Texture {
    type V = TextureView;

    closed spec fn view(&self) -> TextureView {
        TextureView { width: self.width as nat, height: self.height as nat, texels: self.texels@ }
    }
}

/// The four bytes at `4 * i` of `bytes` form texel `t`.
pub open spec fn texel_from_bytes(bytes: Seq<u8>, i: int, t: Texel) -> bool {
    t@ == bytes.subrange(4 * i, 4 * i + 4)
}

impl Texture {
    pub open spec fn wf(&self) -> bool {
        self@.wf()
    }

    /// A texture from RGBA bytes, four per texel, rows from the top. `None`
    /// where the size is empty or the bytes do not fill it exactly.
    pub fn from_rgba(width: u32, height: u32, bytes: &Vec<u8>) -> (r: Option<Texture>)
        ensures
            r is Some <==> (width >= 1 && height >= 1 && bytes@.len() == 4 * (width * height)),
            r matches Some(t) ==> {
                &&& t.wf()
                &&& t@.width == width
                &&& t@.height == height
                &&& forall|i: int| 0 <= i < width * height ==> texel_from_bytes(bytes@, i, #[trigger] t@.texels[i])
            },
    {
        if width == 0 || height == 0 {
            return None;
        }
        let w: u128 = width as u128;
        let h: u128 = height as u128;
        proof {
            assert(w * h <= 0xffff_ffff_ffff_ffff_ffff_ffff) by (nonlinear_arith)
                requires
                    w <= 0xffff_ffff,
                    h <= 0xffff_ffff,
            ;
        }
        if (bytes.len() as u128) != 4 * (w * h) {
            return None;
        }
        let n: usize = bytes.len() / 4;
        let mut texels: Vec<Texel> = Vec::new();
        let mut i: usize = 0;
        let len: usize = bytes.len();
        while i < n
            invariant
                len == bytes@.len(),
                n == width * height,
                bytes@.len() == 4 * n,
                i <= n,
                texels@.len() == i,
                forall|j: int| 0 <= j < i ==> texel_from_bytes(bytes@, j, #[trigger] texels@[j]),
            decreases n - i,
        {
            let t: Texel = [bytes[4 * i], bytes[4 * i + 1], bytes[4 * i + 2], bytes[4 * i + 3]];
            assert(t@ =~= bytes@.subrange(4 * i, 4 * i + 4));
            texels.push(t);
            i = i + 1;
        }
        Some(Texture { width, height, texels })
    }

    pub fn width(&self) -> (r: u32)
        ensures
            r == self@.width,
    {
        self.width
    }

    pub fn height(&self) -> (r: u32)
        ensures
            r == self@.height,
    {
        self.height
    }

    /// The texel at column `x` and row `y`; an index past the edge reads the
    /// edge texel.
    pub fn texel(&self, x: u32, y: u32) -> (r: Texel)
        requires
            self.wf(),
        ensures
            r == self@.clamped_texel(x as int, y as int),
    {
        let cx: u32 = if x < self.width { x } else { self.width - 1 };
        let cy: u32 = if y < self.height { y } else { self.height - 1 };
        let cells: usize = self.texels.len();
        proof {
            assert(0 <= cy * self.width + cx < self.width * self.height) by (nonlinear_arith)
                requires
                    cx < self.width,
                    cy < self.height,
            ;
        }
        self.texels[(cy as usize) * (self.width as usize) + (cx as usize)]
    }
}

} // verus!
