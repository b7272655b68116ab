use vstd::prelude::*;

verus! {

/// One pixel: red, green and blue bytes.
pub type Pixel = [u8; 3];

/// A black pixel.
pub open spec fn black() -> Pixel {
    [0u8, 0u8, 0u8]
}

/// Relies on bytemuck::cast_slice: the pixels seen as their bytes, three per
/// pixel, in the order of the pixels.
#[verifier::external_body]
fn pixel_bytes(pixels: &Vec<Pixel>) -> (r: Vec<u8>)
    ensures
        r@.len() == 3 * pixels@.len(),
        forall|i: int, k: int|
            0 <= i < pixels@.len() && 0 <= k < 3 ==> r@[3 * i + k] == #[trigger] pixels@[i]@[k],
{
    bytemuck::cast_slice::<Pixel, u8>(pixels.as_slice()).to_vec()
}

/// A framebuffer of `width * height` pixels, row by row from the top, and the
/// color that drawing operations paint with.
pub struct ScreenContextManager {
    framebuffer: Vec<Pixel>,
    color: Pixel,
    height: u32,
    width: u32,
}

impl ScreenContextManager {
    /// The buffer holds one pixel per position of the image, and the number
    /// of positions fits in a `u32`.
    pub open spec fn wf(&self) -> bool {
        &&& self.pixels().len() == self.width_spec() * self.height_spec()
        &&& self.width_spec() * self.height_spec() <= u32::MAX
    }

    /// The width of the image, in pixels.
    pub closed spec fn width_spec(&self) -> nat {
        self.width as nat
    }

    /// The height of the image, in pixels.
    pub closed spec fn height_spec(&self) -> nat {
        self.height as nat
    }

    /// The pixels, row by row from the top.
    pub closed spec fn pixels(&self) -> Seq<Pixel> {
        self.framebuffer@
    }

    /// The color that `plot_pixel` paints with.
    pub closed spec fn current_color(&self) -> Pixel {
        self.color
    }

    /// A black framebuffer of `width * height` pixels; drawing starts in black.
    pub fn new(width: u32, height: u32) -> (r: ScreenContextManager)
        requires
            width as int * height as int <= u32::MAX,
        ensures
            r.wf(),
            r.width_spec() == width,
            r.height_spec() == height,
            r.pixels() == Seq::new((width * height) as nat, |i: int| black()),
            r.current_color() == black(),
    {
        let n = width * height;
        let mut framebuffer: Vec<Pixel> = Vec::new();
        let mut i: u32 = 0;
        while i < n
            invariant
                i <= n,
                framebuffer@ == Seq::new(i as nat, |k: int| black()),
            decreases n - i,
        {
            framebuffer.push([0u8, 0u8, 0u8]);
            i = i + 1;
            assert(framebuffer@ =~= Seq::new(i as nat, |k: int| black()));
        }
        ScreenContextManager { framebuffer, color: [0u8, 0u8, 0u8], height, width }
    }

    pub fn get_width(&self) -> (r: u32)
        ensures
            r == self.width_spec(),
    {
        self.width
    }

    pub fn get_height(&self) -> (r: u32)
        ensures
            r == self.height_spec(),
    {
        self.height
    }

    /// Sets the color that drawing operations paint with.
    pub fn set_color(&mut self, r: u8, g: u8, b: u8)
        ensures
            final(self).current_color() == [r, g, b],
            final(self).pixels() == old(self).pixels(),
            final(self).width_spec() == old(self).width_spec(),
            final(self).height_spec() == old(self).height_spec(),
            final(self).wf() == old(self).wf(),
    {
        self.color = [r, g, b];
    }

    /// Paints the pixel in column `x` of row `y` (row 0 at the top) with the
    /// current color.
    pub fn plot_pixel(&mut self, x: u32, y: u32)
        requires
            old(self).wf(),
            y as int * old(self).width_spec() + x < old(self).width_spec()
                * old(self).height_spec(),
        ensures
            final(self).wf(),
            final(self).pixels() == old(self).pixels().update(
                y as int * old(self).width_spec() + x,
                old(self).current_color(),
            ),
            final(self).current_color() == old(self).current_color(),
            final(self).width_spec() == old(self).width_spec(),
            final(self).height_spec() == old(self).height_spec(),
    {
        assert(y as int * self.width as int <= u32::MAX);
        let i = (y * self.width + x) as usize;
        self.framebuffer.set(i, self.color);
    }

    fn fill(&mut self, color: Pixel)
        requires
            old(self).wf(),
        ensures
            final(self).wf(),
            final(self).pixels() == Seq::new(old(self).pixels().len(), |i: int| color),
            final(self).current_color() == old(self).current_color(),
            final(self).width_spec() == old(self).width_spec(),
            final(self).height_spec() == old(self).height_spec(),
    {
        let n = self.framebuffer.len();
        let mut i: usize = 0;
        while i < n
            invariant
                i <= n,
                n == self.framebuffer@.len(),
                self.wf(),
                self.width == old(self).width,
                self.height == old(self).height,
                self.color == old(self).color,
                forall|k: int| 0 <= k < i ==> self.framebuffer@[k] == color,
            decreases n - i,
        {
            self.framebuffer.set(i, color);
            i = i + 1;
        }
        assert(self.framebuffer@ =~= Seq::new(n as nat, |k: int| color));
    }

    /// Paints every pixel with the gray `shade`.
    pub fn clear(&mut self, shade: u8)
        requires
            old(self).wf(),
        ensures
            final(self).wf(),
            final(self).pixels() == Seq::new(old(self).pixels().len(), |i: int| [shade, shade, shade]),
            final(self).current_color() == old(self).current_color(),
            final(self).width_spec() == old(self).width_spec(),
            final(self).height_spec() == old(self).height_spec(),
    {
        self.fill([shade, shade, shade]);
    }

    /// Paints every pixel with the given color.
    pub fn clear_with_rgb(&mut self, r: u8, g: u8, b: u8)
        requires
            old(self).wf(),
        ensures
            final(self).wf(),
            final(self).pixels() == Seq::new(old(self).pixels().len(), |i: int| [r, g, b]),
            final(self).current_color() == old(self).current_color(),
            final(self).width_spec() == old(self).width_spec(),
            final(self).height_spec() == old(self).height_spec(),
    {
        self.fill([r, g, b]);
    }

    /// The pixel in column `x` of row `y` (row 0 at the top).
    pub fn pixel_at(&self, x: u32, y: u32) -> (r: Pixel)
        requires
            self.wf(),
            x < self.width_spec(),
            y < self.height_spec(),
        ensures
            r == self.pixels()[y as int * self.width_spec() + x],
    {
        proof {
            assert(y as int * self.width as int + x < self.width as int * self.height as int)
                by (nonlinear_arith)
                requires
                    x < self.width,
                    y < self.height,
            ;
        }
        assert(y as int * self.width as int <= u32::MAX);
        self.framebuffer[(y * self.width + x) as usize]
    }

    /// The framebuffer as bytes: red, green and blue of each pixel, row by row
    /// from the top, as an RGB8 image encoder takes them.
    pub fn framebuffer_bytes(&self) -> (r: Vec<u8>)
        ensures
            r@.len() == 3 * self.pixels().len(),
            forall|i: int, k: int|
                0 <= i < self.pixels().len() && 0 <= k < 3 ==> r@[3 * i + k]
                    == #[trigger] self.pixels()[i]@[k],
    {
        pixel_bytes(&self.framebuffer)
    }
}

} // verus!
