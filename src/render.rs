use vstd::prelude::*;
use vstd::arithmetic::div_mod::lemma_fundamental_div_mod_converse;

use crate::ppm::{
    header_lines, header_text, image_lines, image_text, lemma_image_layout,
    lemma_terminated_append, lines_of, magic_line, max_value_line, pixel_line, pixel_text,
    terminated, Rgb, NEWLINE, SPACE,
};
use crate::decimal::decimal;

verus! {

/// The integer part of a camera's configuration.
#[derive(Clone, Copy, Debug, PartialEq, Eq, Structural)]
pub struct RenderConfig {
    /// Pixels per row.
    pub image_width: u32,
    /// The aspect ratio is `aspect_width : aspect_height` (width over height).
    pub aspect_width: u32,
    pub aspect_height: u32,
    /// Rays averaged into each pixel.
    pub samples_per_pixel: u32,
    /// Scattering events after which a path is cut off.
    pub max_depth: u32,
}

impl Default for RenderConfig {
    /// 720 pixels wide at 16:9, 10 samples per pixel, paths cut off after 10 scatterings.
    fn default() -> (c: RenderConfig)
        ensures
            c == (RenderConfig {
                image_width: 720,
                aspect_width: 16,
                aspect_height: 9,
                samples_per_pixel: 10,
                max_depth: 10,
            }),
    {
        RenderConfig {
            image_width: 720,
            aspect_width: 16,
            aspect_height: 9,
            samples_per_pixel: 10,
            max_depth: 10,
        }
    }
}

/// Why a configuration cannot be initialized.
#[derive(Clone, Copy, Debug, PartialEq, Eq, Structural)]
pub enum ConfigError {
    /// The aspect ratio's width side is zero.
    ZeroAspectWidth,
    /// The image height that the ratio gives does not fit in 32 bits.
    HeightTooLarge,
}

/// The image height before it is raised to at least one row:
/// `image_width / (aspect_width / aspect_height)`, rounded down.
pub open spec fn raw_height(c: RenderConfig) -> int
    recommends
        c.aspect_width > 0,
{
    (c.image_width * c.aspect_height) as int / c.aspect_width as int
}

/// The image height: the raw height, but at least one row.
pub open spec fn height_of(c: RenderConfig) -> int {
    if raw_height(c) < 1 {
        1
    } else {
        raw_height(c)
    }
}

/// The configuration can be initialized.
pub open spec fn config_ok(c: RenderConfig) -> bool {
    c.aspect_width > 0 && height_of(c) <= u32::MAX
}

/// One thing for the caller of a renderer to do next.
#[derive(Clone, Copy, Debug, PartialEq, Eq, Structural)]
pub enum RenderStep {
    /// Write the image header.
    Header,
    /// A row of pixels starts.
    BeginRow { row: u32 },
    /// Compute the color of the pixel at column `col` of row `row`.
    Pixel { col: u32, row: u32 },
    /// A row of pixels is complete.
    EndRow { row: u32 },
    /// The image is complete.
    Finished,
}

/// The `k`-th step of rendering an image of `width` by `height` pixels: the
/// header, then for each row from the top a row start, its pixels from the
/// left and a row end, and finally the end of the image.
pub open spec fn step_at(width: nat, height: nat, k: nat) -> RenderStep {
    if k == 0 {
        RenderStep::Header
    } else if k - 1 >= height * (width + 2) {
        RenderStep::Finished
    } else {
        let j = (k - 1) as nat;
        let row = j / (width + 2);
        let slot = j % (width + 2);
        if slot == 0 {
            RenderStep::BeginRow { row: row as u32 }
        } else if slot == width + 1 {
            RenderStep::EndRow { row: row as u32 }
        } else {
            RenderStep::Pixel { col: (slot - 1) as u32, row: row as u32 }
        }
    }
}

/// A renderer's progress through an image: configured, initialized, then
/// walking the steps of `step_at` while it accumulates the image text.
pub struct Renderer {
    config: RenderConfig,
    initialized: bool,
    image_height: u32,
    header_done: bool,
    row: u32,
    /// Within a row: 0 before the row start, `1 + c` before pixel `c`,
    /// `image_width + 1` before the row end.
    slot: u64,
    emitted: Ghost<Seq<u8>>,
    pixels: Ghost<Seq<Rgb>>,
}

/// The renderer that initialization makes of one with configuration `c`:
/// it depends on `c` alone.
pub closed spec fn initialized_state(c: RenderConfig) -> Renderer {
    Renderer {
        config: c,
        initialized: true,
        image_height: height_of(c) as u32,
        header_done: false,
        row: 0,
        slot: 0,
        emitted: Ghost(Seq::empty()),
        pixels: Ghost(Seq::empty()),
    }
}

/// Initialization depends on the configuration alone: running it again on an
/// unchanged configuration gives the very same renderer, with the same
/// derived image height.
pub proof fn lemma_initialize_idempotent(c: RenderConfig)
    requires
        config_ok(c),
    ensures
        initialized_state(c).config_spec() == c,
        initialized_state(c).height_spec() == height_of(c),
        initialized_state(initialized_state(c).config_spec()) == initialized_state(c),
{
}

impl Renderer {
    /// The configuration in force.
    pub closed spec fn config_spec(&self) -> RenderConfig {
        self.config
    }

    /// Initialization has run since the configuration was last set.
    pub closed spec fn is_initialized(&self) -> bool {
        self.initialized
    }

    /// The image height derived at initialization.
    pub closed spec fn height_spec(&self) -> nat {
        self.image_height as nat
    }

    /// How many steps of `step_at` are done.
    pub closed spec fn position(&self) -> nat {
        if !self.header_done {
            0
        } else {
            (1 + self.row * (self.config.image_width + 2) + self.slot) as nat
        }
    }

    /// The image text handed out so far, in order.
    pub closed spec fn emitted(&self) -> Seq<u8> {
        self.emitted@
    }

    /// The pixel colors received so far, in order.
    pub closed spec fn pixels(&self) -> Seq<Rgb> {
        self.pixels@
    }

    /// The step that comes next.
    pub open spec fn next_spec(&self) -> RenderStep {
        step_at(self.config_spec().image_width as nat, self.height_spec(), self.position())
    }

    pub closed spec fn wf(&self) -> bool {
        let w = self.config.image_width as nat;
        let h = self.image_height as nat;
        &&& !self.initialized ==> {
            &&& !self.header_done
            &&& self.emitted@ == Seq::<u8>::empty()
            &&& self.pixels@ == Seq::<Rgb>::empty()
        }
        &&& self.initialized ==> {
            &&& config_ok(self.config)
            &&& h == height_of(self.config)
            &&& self.row <= h
            &&& self.slot <= w + 1
            &&& self.row == h ==> self.slot == 0
            &&& !self.header_done ==> self.row == 0 && self.slot == 0
                && self.emitted@ == Seq::<u8>::empty() && self.pixels@ == Seq::<Rgb>::empty()
            &&& self.header_done ==> {
                &&& self.pixels@.len() == self.row * w + if self.slot == 0 {
                    0
                } else {
                    self.slot - 1
                }
                &&& self.emitted@ == terminated(image_lines(w, h, self.pixels@))
            }
        }
    }

    /// A renderer for `config`, not yet initialized.
    pub fn new(config: RenderConfig) -> (r: Renderer)
        ensures
            r.wf(),
            r.config_spec() == config,
            !r.is_initialized(),
            r.emitted() == Seq::<u8>::empty(),
            r.pixels() == Seq::<Rgb>::empty(),
    {
        Renderer {
            config,
            initialized: false,
            image_height: 0,
            header_done: false,
            row: 0,
            slot: 0,
            emitted: Ghost(Seq::empty()),
            pixels: Ghost(Seq::empty()),
        }
    }

    /// Replaces the configuration; initialization must then run again.
    pub fn set_config(&mut self, config: RenderConfig)
        ensures
            final(self).wf(),
            final(self).config_spec() == config,
            !final(self).is_initialized(),
            final(self).emitted() == Seq::<u8>::empty(),
            final(self).pixels() == Seq::<Rgb>::empty(),
    {
        *self = Renderer::new(config);
    }

    /// The configuration in force.
    pub fn config(&self) -> (c: RenderConfig)
        ensures
            c == self.config_spec(),
    {
        self.config
    }

    /// Derives the image height from the configuration and restarts the image.
    /// Fails, leaving the renderer as it was, exactly when the configuration
    /// cannot be initialized.
    pub fn initialize(&mut self) -> (r: Result<(), ConfigError>)
        requires
            old(self).wf(),
        ensures
            final(self).wf(),
            final(self).config_spec() == old(self).config_spec(),
            r is Ok <==> config_ok(old(self).config_spec()),
            old(self).config_spec().aspect_width == 0 ==> r == Err::<(), _>(
                ConfigError::ZeroAspectWidth,
            ),
            old(self).config_spec().aspect_width > 0 && !config_ok(old(self).config_spec())
                ==> r == Err::<(), _>(ConfigError::HeightTooLarge),
            r is Err ==> *final(self) == *old(self),
            r is Ok ==> *final(self) == initialized_state(old(self).config_spec()),
            r is Ok ==> {
                &&& final(self).is_initialized()
                &&& final(self).height_spec() == height_of(old(self).config_spec())
                &&& final(self).position() == 0
                &&& final(self).emitted() == Seq::<u8>::empty()
                &&& final(self).pixels() == Seq::<Rgb>::empty()
            },
    {
        let c = self.config;
        if c.aspect_width == 0 {
            return Err(ConfigError::ZeroAspectWidth);
        }
        proof {
            let (a, b) = (c.image_width as int, c.aspect_height as int);
            assert(a * b <= u32::MAX * u32::MAX) by (nonlinear_arith)
                requires
                    0 <= a <= u32::MAX,
                    0 <= b <= u32::MAX,
            ;
        }
        let product: u64 = c.image_width as u64 * c.aspect_height as u64;
        let raw: u64 = product / c.aspect_width as u64;
        let height: u64 = if raw < 1 { 1 } else { raw };
        if height > u32::MAX as u64 {
            return Err(ConfigError::HeightTooLarge);
        }
        self.initialized = true;
        self.image_height = height as u32;
        self.header_done = false;
        self.row = 0;
        self.slot = 0;
        self.emitted = Ghost(Seq::empty());
        self.pixels = Ghost(Seq::empty());
        Ok(())
    }

    /// The image height derived at initialization.
    pub fn image_height(&self) -> (h: u32)
        requires
            self.wf(),
            self.is_initialized(),
        ensures
            h == self.height_spec(),
    {
        self.image_height
    }

    proof fn lemma_next(&self)
        requires
            self.wf(),
            self.initialized,
            self.header_done,
            self.row < self.image_height,
        ensures
            ({
                let w = self.config.image_width as nat;
                let j = (self.row * (w + 2) + self.slot) as nat;
                &&& j < self.image_height * (w + 2)
                &&& j / (w + 2) == self.row
                &&& j % (w + 2) == self.slot
            }),
    {
        let w = self.config.image_width as nat;
        let h = self.image_height as nat;
        let row = self.row as int;
        let j = row * (w + 2) + self.slot;
        lemma_fundamental_div_mod_converse(j, (w + 2) as int, row, self.slot as int);
        assert(j < h * (w + 2)) by (nonlinear_arith)
            requires
                j == row * (w + 2) + self.slot,
                self.slot < w + 2,
                row + 1 <= h,
        ;
    }

    /// The step that comes next.
    pub fn next_step(&self) -> (s: RenderStep)
        requires
            self.wf(),
            self.is_initialized(),
        ensures
            s == self.next_spec(),
    {
        let w = self.config.image_width;
        if !self.header_done {
            RenderStep::Header
        } else if self.row == self.image_height {
            proof {
                let wn = w as nat;
                assert(self.row * (wn + 2) == self.image_height * (wn + 2));
            }
            RenderStep::Finished
        } else {
            proof {
                self.lemma_next();
            }
            if self.slot == 0 {
                RenderStep::BeginRow { row: self.row }
            } else if self.slot == w as u64 + 1 {
                RenderStep::EndRow { row: self.row }
            } else {
                RenderStep::Pixel { col: (self.slot - 1) as u32, row: self.row }
            }
        }
    }

    /// Completes the next step when it needs no pixel: the header step hands
    /// out the header text, a row start or end hands out nothing.
    pub fn advance(&mut self) -> (out: Vec<u8>)
        requires
            old(self).wf(),
            old(self).is_initialized(),
            !(old(self).next_spec() is Pixel),
            !(old(self).next_spec() is Finished),
        ensures
            final(self).wf(),
            final(self).is_initialized(),
            final(self).config_spec() == old(self).config_spec(),
            final(self).height_spec() == old(self).height_spec(),
            final(self).position() == old(self).position() + 1,
            final(self).pixels() == old(self).pixels(),
            final(self).emitted() == old(self).emitted() + out@,
            old(self).next_spec() is Header ==> out@ == terminated(
                header_lines(
                    old(self).config_spec().image_width as nat,
                    old(self).height_spec(),
                ),
            ),
            !(old(self).next_spec() is Header) ==> out@ == Seq::<u8>::empty(),
    {
        let w = self.config.image_width;
        let h = self.image_height;
        if !self.header_done {
            let out = header_text(w, h);
            proof {
                let wn = w as nat;
                let hn = h as nat;
                assert(image_lines(wn, hn, Seq::<Rgb>::empty()) =~= header_lines(wn, hn));
                assert(self.emitted@ + out@ =~= out@);
            }
            self.header_done = true;
            self.emitted = Ghost(self.emitted@ + out@);
            proof {
                assert(self.row == 0);
                assert(self.slot == 0);
                assert(0 * (w as nat + 2) == 0);
            }
            return out;
        }
        proof {
            self.lemma_next();
        }
        let ghost old_row = self.row as nat;
        if self.slot == 0 {
            self.slot = 1;
        } else {
            self.row = self.row + 1;
            self.slot = 0;
            proof {
                let wn = w as nat;
                assert((old_row + 1) * (wn + 2) == old_row * (wn + 2) + wn + 2) by (nonlinear_arith);
                assert((old_row + 1) * wn == old_row * wn + wn) by (nonlinear_arith);
            }
        }
        let out: Vec<u8> = Vec::new();
        proof {
            assert(self.emitted@ =~= old(self).emitted@ + out@);
        }
        out
    }

    /// Completes a pixel step with the pixel's color, and hands out its line.
    pub fn put_pixel(&mut self, color: Rgb) -> (out: Vec<u8>)
        requires
            old(self).wf(),
            old(self).is_initialized(),
            old(self).next_spec() is Pixel,
        ensures
            final(self).wf(),
            final(self).is_initialized(),
            final(self).config_spec() == old(self).config_spec(),
            final(self).height_spec() == old(self).height_spec(),
            final(self).position() == old(self).position() + 1,
            final(self).pixels() == old(self).pixels().push(color),
            final(self).emitted() == old(self).emitted() + out@,
            out@ == pixel_line(color) + seq![NEWLINE],
    {
        proof {
            self.lemma_next();
        }
        let out = pixel_text(color);
        proof {
            let wn = self.config.image_width as nat;
            let hn = self.image_height as nat;
            let ps = self.pixels@;
            crate::ppm::lemma_terminated_one(pixel_line(color));
            assert(image_lines(wn, hn, ps.push(color)) =~= image_lines(wn, hn, ps) + seq![
                pixel_line(color),
            ]);
            lemma_terminated_append(image_lines(wn, hn, ps), seq![pixel_line(color)]);
        }
        self.slot = self.slot + 1;
        self.pixels = Ghost(self.pixels@.push(color));
        self.emitted = Ghost(self.emitted@ + out@);
        out
    }

    /// Once the last step is reached, the text handed out is the whole image:
    /// `width * height` pixel lines after the header.
    pub proof fn lemma_finished(&self)
        requires
            self.wf(),
            self.is_initialized(),
            self.next_spec() is Finished,
        ensures
            self.pixels().len() == self.config_spec().image_width * self.height_spec(),
            self.emitted() == image_text(
                self.config_spec().image_width as nat,
                self.height_spec(),
                self.pixels(),
            ),
    {
        let w = self.config.image_width as nat;
        let h = self.image_height as nat;
        if self.header_done && self.row < h {
            self.lemma_next();
        }
        assert(self.row * w == w * h) by (nonlinear_arith)
            requires
                self.row == h,
        ;
    }
}

/// Whatever the configuration and the pixel colors, a renderer driven to its
/// last step has handed out the text of exactly `3 + width * height` lines:
/// `P3`, `<width> <height>`, `255`, then one `<red> <green> <blue>` line per
/// pixel, each value a decimal in `0..=255`.
pub proof fn lemma_render_output(r: &Renderer)
    requires
        r.wf(),
        r.is_initialized(),
        r.next_spec() is Finished,
    ensures
        ({
            let w = r.config_spec().image_width as nat;
            let h = r.height_spec();
            let lines = lines_of(r.emitted());
            &&& lines.len() == 3 + w * h
            &&& lines[0] == magic_line()
            &&& lines[1] == decimal(w) + seq![SPACE] + decimal(h)
            &&& lines[2] == max_value_line()
            &&& forall|i: int| 0 <= i < w * h ==> #[trigger] lines[3 + i] == pixel_line(r.pixels()[i])
        }),
{
    r.lemma_finished();
    lemma_image_layout(r.config_spec().image_width as nat, r.height_spec(), r.pixels());
}

} // verus!
