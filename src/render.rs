use vstd::prelude::*;
use crate::framebuffer::{cell_index, lemma_cell_index, ColorMatrix};

verus! {

/// Why a set of render parameters was turned down before any work started.
#[derive(Debug, Clone, Copy, PartialEq, Eq, Structural)]
pub enum SettingsError {
    /// The image would have no pixel: its width or its height is zero.
    EmptyImage,
    /// Each pixel must average at least one sample.
    NoSamples,
    /// The image has more pixels than a buffer on this machine can index.
    TooManyPixels,
}

/// The size of the image and the sampling budget of each pixel, checked on construction.
#[derive(Debug, Clone, Copy, PartialEq, Eq, Structural)]
pub struct RenderSettings {
    output_width: u32,
    output_height: u32,
    samples_per_pixel: u32,
    bounce_depth: u32,
}

/// Which error, if any, the given parameters call for; the first that applies wins.
pub open spec fn settings_error(
    output_width: u32,
    output_height: u32,
    samples_per_pixel: u32,
) -> Option<SettingsError> {
    if output_width == 0 || output_height == 0 {
        Some(SettingsError::EmptyImage)
    } else if samples_per_pixel == 0 {
        Some(SettingsError::NoSamples)
    } else if output_width * output_height > usize::MAX {
        Some(SettingsError::TooManyPixels)
    } else {
        None
    }
}

impl RenderSettings {
    pub closed spec fn spec_output_width(&self) -> u32 {
        self.output_width
    }

    pub closed spec fn spec_output_height(&self) -> u32 {
        self.output_height
    }

    pub closed spec fn spec_samples_per_pixel(&self) -> u32 {
        self.samples_per_pixel
    }

    pub closed spec fn spec_bounce_depth(&self) -> u32 {
        self.bounce_depth
    }

    /// Settings that `new` accepts: no error applies to them.
    pub open spec fn wf(&self) -> bool {
        settings_error(
            self.spec_output_width(),
            self.spec_output_height(),
            self.spec_samples_per_pixel(),
        ) is None
    }

    /// Checks the parameters of a render: a nonempty image that a buffer can hold, and at
    /// least one sample per pixel. Any bounce depth is accepted; zero renders black.
    pub fn new(
        output_width: u32,
        output_height: u32,
        samples_per_pixel: u32,
        bounce_depth: u32,
    ) -> (r: Result<RenderSettings, SettingsError>)
        ensures
            match settings_error(output_width, output_height, samples_per_pixel) {
                Some(e) => r == Err::<RenderSettings, SettingsError>(e),
                None => r matches Ok(s) && s.wf() && s.spec_output_width() == output_width
                    && s.spec_output_height() == output_height && s.spec_samples_per_pixel()
                    == samples_per_pixel && s.spec_bounce_depth() == bounce_depth,
            },
    {
        if output_width == 0 || output_height == 0 {
            return Err(SettingsError::EmptyImage);
        }
        if samples_per_pixel == 0 {
            return Err(SettingsError::NoSamples);
        }
        assert(output_width as u64 * output_height as u64 <= u64::MAX) by (nonlinear_arith)
            requires
                output_width <= u32::MAX,
                output_height <= u32::MAX,
        ;
        let pixels: u64 = output_width as u64 * output_height as u64;
        if pixels > usize::MAX as u64 {
            return Err(SettingsError::TooManyPixels);
        }
        Ok(RenderSettings { output_width, output_height, samples_per_pixel, bounce_depth })
    }

    pub fn output_width(&self) -> (w: u32)
        ensures
            w == self.spec_output_width(),
    {
        self.output_width
    }

    pub fn output_height(&self) -> (h: u32)
        ensures
            h == self.spec_output_height(),
    {
        self.output_height
    }

    pub fn samples_per_pixel(&self) -> (n: u32)
        ensures
            n == self.spec_samples_per_pixel(),
    {
        self.samples_per_pixel
    }

    pub fn bounce_depth(&self) -> (d: u32)
        ensures
            d == self.spec_bounce_depth(),
    {
        self.bounce_depth
    }
}

/// Fills the framebuffer: the cell in row `y` and column `x` holds what `shade_pixel`
/// returned for pixel `(x, y)`, each pixel shaded exactly once, row by row.
pub fn render<C, F>(settings: &RenderSettings, shade_pixel: F) -> (m: ColorMatrix<C>) where
    F: Fn(u32, u32) -> C,

    requires
        settings.wf(),
        forall|x: u32, y: u32|
            x < settings.spec_output_width() && y < settings.spec_output_height()
                ==> #[trigger] shade_pixel.requires((x, y)),
    ensures
        m.wf(),
        m.has_shape(
            settings.spec_output_width() as nat,
            settings.spec_output_height() as nat,
        ),
        forall|y: int, x: int|
            0 <= y < settings.spec_output_height() && 0 <= x < settings.spec_output_width()
                ==> shade_pixel.ensures((x as u32, y as u32), #[trigger] m@[y][x]),
{
    let width = settings.output_width;
    let height = settings.output_height;
    let mut cells: Vec<C> = Vec::new();
    let mut y: u32 = 0;
    while y < height
        invariant
            settings.wf(),
            width == settings.spec_output_width(),
            height == settings.spec_output_height(),
            forall|x: u32, y: u32| x < width && y < height ==> #[trigger] shade_pixel.requires((x, y)),
            y <= height,
            cells@.len() == y * width,
            forall|r: int, c: int|
                0 <= r < y && 0 <= c < width ==> shade_pixel.ensures(
                    (c as u32, r as u32),
                    #[trigger] cells@[cell_index(width as int, r, c)],
                ),
        decreases height - y,
    {
        let mut x: u32 = 0;
        while x < width
            invariant
                settings.wf(),
                width == settings.spec_output_width(),
                height == settings.spec_output_height(),
                forall|x: u32, y: u32| x < width && y < height ==> #[trigger] shade_pixel.requires((x, y)),
                y < height,
                x <= width,
                cells@.len() == y * width + x,
                forall|r: int, c: int|
                    0 <= r < y && 0 <= c < width ==> shade_pixel.ensures(
                        (c as u32, r as u32),
                        #[trigger] cells@[cell_index(width as int, r, c)],
                    ),
                forall|c: int|
                    0 <= c < x ==> shade_pixel.ensures(
                        (c as u32, y as u32),
                        #[trigger] cells@[cell_index(width as int, y as int, c)],
                    ),
            decreases width - x,
        {
            let color = shade_pixel(x, y);
            let ghost before = cells@;
            cells.push(color);
            proof {
                assert forall|r: int, c: int| 0 <= r <= y && 0 <= c < width && (r < y || c < x)
                    implies cells@[cell_index(width as int, r, c)] == before[cell_index(
                    width as int,
                    r,
                    c,
                )] by {
                    lemma_cell_index(width as int, y + 1, r, c, y as int, x as int);
                    if r < y {
                        lemma_cell_index(width as int, y as int, r, c, r, c);
                    }
                }
            }
            x = x + 1;
        }
        assert((y + 1) * width == y * width + width) by (nonlinear_arith);
        y = y + 1;
    }
    assert(height * width == width * height) by (nonlinear_arith);
    ColorMatrix::from_row_major(width as usize, height as usize, cells)
}

} // verus!
