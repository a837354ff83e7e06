use vstd::prelude::*;
use vstd::arithmetic::div_mod::{lemma_fundamental_div_mod_converse, lemma_multiply_divide_lt};
use vstd::utf8::encode_utf8;
use crate::error::LinkError;
use crate::request::QrParams;

verus! {

/// The smallest side that an image is asked to have, in pixels.
pub const MIN_SIZE: u32 = 128;

/// The largest side that an image is asked to have, in pixels.
pub const MAX_SIZE: u32 = 2048;

/// The side that is asked for where a request names none.
pub const DEFAULT_SIZE: u32 = 512;

/// The side of the largest symbol, in modules.
pub const MAX_MODULES: usize = 177;

/// The value of a dark pixel.
pub const DARK: u8 = 0;

/// The value of a light pixel.
pub const LIGHT: u8 = 255;

/// A symbol: a square of modules, each dark or light, row by row.
#[derive(Clone, Debug, PartialEq, Eq)]
pub struct ModuleGrid {
    /// The number of modules on each side.
    pub side: usize,
    /// The modules from the top row down, each row from left to right.
    pub dark: Vec<bool>,
}

impl ModuleGrid {
    /// Whether the grid is a square of at most `MAX_MODULES` on a side.
    pub open spec fn wf(&self) -> bool {
        &&& 1 <= self.side <= MAX_MODULES
        &&& self.dark@.len() == self.side * self.side
    }
}

/// A single-channel image of two tones: a square of pixels, row by row.
#[derive(Clone, Debug, PartialEq, Eq)]
pub struct RasterImage {
    /// The number of pixels on each side.
    pub side: u32,
    /// The pixels from the top row down, each `DARK` or `LIGHT`.
    pub pixels: Vec<u8>,
}

impl RasterImage {
    /// Whether the pixels fill the square.
    pub open spec fn wf(&self) -> bool {
        self.pixels@.len() == self.side * self.side
    }
}

impl View for RasterImage {
    type V = (nat, Seq<u8>);

    open spec fn view(&self) -> (nat, Seq<u8>) {
        (self.side as nat, self.pixels@)
    }
}

impl View for ModuleGrid {
    type V = (nat, Seq<bool>);

    open spec fn view(&self) -> (nat, Seq<bool>) {
        (self.side as nat, self.dark@)
    }
}

/// The pixel value for a module.
pub open spec fn shade(dark: bool) -> u8 {
    if dark {
        DARK
    } else {
        LIGHT
    }
}

/// The side that is asked for, brought into the range from `MIN_SIZE` to
/// `MAX_SIZE`.
pub open spec fn clamped(size: u32) -> u32 {
    if size < MIN_SIZE {
        MIN_SIZE
    } else if size > MAX_SIZE {
        MAX_SIZE
    } else {
        size
    }
}

/// The number of pixels on a module's side: as many whole pixels as fit
/// into `size` for `modules` modules, and at least one.
pub open spec fn pixels_per_module(size: u32, modules: nat) -> nat
    recommends
        modules > 0,
{
    if size as nat / modules >= 1 {
        size as nat / modules
    } else {
        1
    }
}

/// The place in a grid of the module under the pixel in row `y` and column
/// `x`: the module in row `y / scale` and column `x / scale`.
pub open spec fn module_under(modules: nat, scale: nat, x: int, y: int) -> int {
    (y / (scale as int)) * modules + x / (scale as int)
}

/// The pixels of a grid of `modules` on a side at `scale` pixels a module,
/// row by row: each pixel has the shade of the module under it.
pub open spec fn scaled(modules: nat, dark: Seq<bool>, scale: nat) -> Seq<u8> {
    let width = (modules * scale) as int;
    Seq::new(
        (width * width) as nat,
        |k: int| shade(dark[module_under(modules, scale, k % width, k / width)]),
    )
}

/// The image of a symbol at a wanted size: its side in pixels, and its
/// pixels row by row. The wanted size is clamped, and each module takes as
/// many whole pixels as then fit.
pub open spec fn raster_of(symbol: (nat, Seq<bool>), size: u32) -> (nat, Seq<u8>) {
    let scale = pixels_per_module(clamped(size), symbol.0);
    (symbol.0 * scale, scaled(symbol.0, symbol.1, scale))
}

/// What rendering gives, given the symbol that the content was encoded to:
/// the image of the symbol, or the refusal of content that has none.
pub open spec fn render_outcome(symbol: Option<(nat, Seq<bool>)>, size: u32) -> Result<
    (nat, Seq<u8>),
    LinkError,
> {
    match symbol {
        Some(grid) => Ok(raster_of(grid, size)),
        None => Err(LinkError::UnencodableContent),
    }
}

/// The wanted size of a request: its own, or else `DEFAULT_SIZE`.
pub open spec fn wanted_size(size: Option<u32>) -> u32 {
    match size {
        Some(side) => side,
        None => DEFAULT_SIZE,
    }
}

/// What encoding an image as a file gives, given the file's bytes.
pub open spec fn file_outcome(encoded: Option<Seq<u8>>) -> Result<Seq<u8>, LinkError> {
    match encoded {
        Some(bytes) => Ok(bytes),
        None => Err(LinkError::RenderFailure),
    }
}

/// The PNG file of an image: a failure where the pixels do not fill the
/// square, and else what the encoding gives.
pub open spec fn png_file(raster: (nat, Seq<u8>)) -> Result<Seq<u8>, LinkError> {
    if raster.1.len() == raster.0 * raster.0 {
        file_outcome(png_encoding(raster.0, raster.1))
    } else {
        Err(LinkError::RenderFailure)
    }
}

/// What a request for an image leads to, given the symbol of its link: the
/// PNG file of the symbol's image, or the first error on the way.
pub open spec fn png_outcome(symbol: Option<(nat, Seq<bool>)>, size: Option<u32>) -> Result<
    Seq<u8>,
    LinkError,
> {
    match render_outcome(symbol, wanted_size(size)) {
        Ok(raster) => png_file(raster),
        Err(e) => Err(e),
    }
}

/// The modules of the symbol for `data`: the number on a side and the
/// modules row by row, if `data` fits into a symbol.
pub uninterp spec fn qr_symbol(data: Seq<u8>) -> Option<(nat, Seq<bool>)>;

/// The bytes of the PNG file for a gray image of `side` by `side` pixels,
/// if it can be encoded.
pub uninterp spec fn png_encoding(side: nat, pixels: Seq<u8>) -> Option<Seq<u8>>;

/// Encodes with `qrcode::QrCode::new` and reads `width` and `to_colors` off
/// the result. Not proved: that the grid is the symbol for `data`, that it
/// is a square, and that it has at most 177 modules on a side and at least
/// one.
#[verifier::external_body]
fn encode_symbol(data: &[u8]) -> (res: Option<ModuleGrid>)
    ensures
        match res {
            Some(grid) => qr_symbol(data@) == Some(grid@),
            None => qr_symbol(data@) is None,
        },
        res matches Some(grid) ==> grid.wf(),
{
    match qrcode::QrCode::new(data) {
        Ok(code) => Some(
            ModuleGrid {
                side: code.width(),
                dark: code.to_colors().iter().map(|c| *c == qrcode::Color::Dark).collect(),
            },
        ),
        Err(_) => None,
    }
}

/// Encodes with `image`: `GrayImage::from_raw`, then `DynamicImage::write_to`
/// in the PNG format into a vector. The encoder panics on a buffer of
/// another length than the image's, which is left out here. Not proved:
/// that the result is the PNG file of the image.
#[verifier::external_body]
fn encode_png(side: u32, pixels: &Vec<u8>) -> (res: Option<Vec<u8>>)
    requires
        pixels@.len() == side * side,
    ensures
        match res {
            Some(bytes) => png_encoding(side as nat, pixels@) == Some(bytes@),
            None => png_encoding(side as nat, pixels@) is None,
        },
{
    let image = image::GrayImage::from_raw(side, side, pixels.clone())?;
    let mut bytes: Vec<u8> = Vec::new();
    image::DynamicImage::ImageLuma8(image).write_to(
        &mut std::io::Cursor::new(&mut bytes),
        image::ImageFormat::Png,
    ).ok()?;
    Some(bytes)
}

/// Brings the side that is asked for into the accepted range.
pub fn clamp_size(size: u32) -> (res: u32)
    ensures
        res == clamped(size),
        MIN_SIZE <= res <= MAX_SIZE,
{
    if size < MIN_SIZE {
        MIN_SIZE
    } else if size > MAX_SIZE {
        MAX_SIZE
    } else {
        size
    }
}

/// The number of pixels on a module's side for an image of about `size`.
pub fn module_scale(size: u32, modules: usize) -> (scale: u32)
    requires
        1 <= modules <= MAX_MODULES,
    ensures
        scale == pixels_per_module(size, modules as nat),
        1 <= scale,
{
    let whole = size / (modules as u32);
    if whole >= 1 {
        whole
    } else {
        1
    }
}

/// Draws a grid at `scale` pixels a module: every module becomes a square
/// of `scale` by `scale` pixels of its shade.
pub fn scale_grid(grid: &ModuleGrid, scale: u32) -> (image: RasterImage)
    requires
        grid.wf(),
        1 <= scale,
        grid.side * scale <= MAX_SIZE,
    ensures
        image.wf(),
        image.side == grid.side * scale,
        image.pixels@ == scaled(grid.side as nat, grid.dark@, scale as nat),
{
    let modules: usize = grid.side;
    let factor: usize = scale as usize;
    let width: usize = modules * factor;
    let ghost target = scaled(modules as nat, grid.dark@, factor as nat);
    assert(target.len() == width * width);
    let mut pixels: Vec<u8> = Vec::new();
    let mut y: usize = 0;
    while y < width
        invariant
            grid.wf(),
            modules == grid.side,
            1 <= factor,
            width == modules * factor,
            width <= MAX_SIZE,
            y <= width,
            target == scaled(modules as nat, grid.dark@, factor as nat),
            target.len() == width * width,
            pixels@.len() == y * width,
            forall|k: int| 0 <= k < pixels@.len() ==> pixels@[k] == #[trigger] target[k],
        decreases width - y,
    {
        let mut x: usize = 0;
        while x < width
            invariant
                grid.wf(),
                modules == grid.side,
                1 <= factor,
                width == modules * factor,
                width <= MAX_SIZE,
                y < width,
                x <= width,
                target == scaled(modules as nat, grid.dark@, factor as nat),
                target.len() == width * width,
                pixels@.len() == y * width + x,
                forall|k: int| 0 <= k < pixels@.len() ==> pixels@[k] == #[trigger] target[k],
            decreases width - x,
        {
            let row = y / factor;
            let column = x / factor;
            proof {
                assert(factor * modules == modules * factor) by (nonlinear_arith);
                lemma_multiply_divide_lt(y as int, factor as int, modules as int);
                lemma_multiply_divide_lt(x as int, factor as int, modules as int);
                assert(row * modules + column < modules * modules) by (nonlinear_arith)
                    requires
                        0 <= row < modules,
                        0 <= column < modules,
                ;
                assert(row * modules <= modules * modules) by (nonlinear_arith)
                    requires
                        0 <= row < modules,
                ;
                assert(modules * modules <= MAX_MODULES * MAX_MODULES) by (nonlinear_arith)
                    requires
                        0 <= modules <= MAX_MODULES,
                ;
            }
            let dark = grid.dark[row * modules + column];
            let ghost k = y * width + x;
            proof {
                lemma_fundamental_div_mod_converse(k as int, width as int, y as int, x as int);
                assert(k < width * width) by (nonlinear_arith)
                    requires
                        k == y * width + x,
                        0 <= y < width,
                        0 <= x < width,
                ;
                assert(target[k as int] == shade(dark));
            }
            pixels.push(if dark { DARK } else { LIGHT });
            x = x + 1;
        }
        proof {
            assert(y * width + width == (y + 1) * width) by (nonlinear_arith);
        }
        y = y + 1;
    }
    assert(pixels@ =~= target);
    assert(width * width <= MAX_SIZE * MAX_SIZE) by (nonlinear_arith)
        requires
            0 <= width <= MAX_SIZE,
    ;
    RasterImage { side: width as u32, pixels }
}

/// Draws a grid for a wanted size: the size is clamped to the range from
/// `MIN_SIZE` to `MAX_SIZE`, and every module becomes a square of as many
/// whole pixels as fit into it, at least one. The image is never narrower
/// than the grid, and where the grid fits into the clamped size the image
/// does too and is less than one module's worth of pixels short of it.
pub fn render_grid(grid: &ModuleGrid, target_size: u32) -> (image: RasterImage)
    requires
        grid.wf(),
    ensures
        image.wf(),
        image@ == raster_of(grid@, target_size),
        image.side >= grid.side,
        grid.side <= clamped(target_size) ==> clamped(target_size) - grid.side < image.side
            <= clamped(target_size),
{
    let size = clamp_size(target_size);
    let scale = module_scale(size, grid.side);
    proof {
        let m = grid.side as int;
        let q = size as int / m;
        assert(q * m <= size && size < q * m + m && (m <= size ==> q >= 1)) by (nonlinear_arith)
            requires
                q == size as int / m,
                m > 0,
        ;
        assert(m * scale >= m) by (nonlinear_arith)
            requires
                scale >= 1,
                m > 0,
        ;
        if q >= 1 {
            assert(m * scale == q * m) by (nonlinear_arith)
                requires
                    scale == q,
            ;
        }
    }
    scale_grid(grid, scale)
}

/// Renders a link as a symbol of two tones: encodes it at the smallest
/// symbol that holds it and draws that for the wanted size. Content that
/// fits into no symbol is refused.
pub fn render(uri: &str, target_size: u32) -> (res: Result<RasterImage, LinkError>)
    ensures
        match res {
            Ok(image) => image.wf() && render_outcome(qr_symbol(encode_utf8(uri@)), target_size)
                == Ok::<(nat, Seq<u8>), LinkError>(image@),
            Err(e) => render_outcome(qr_symbol(encode_utf8(uri@)), target_size) == Err::<
                (nat, Seq<u8>),
                LinkError,
            >(e),
        },
{
    match encode_symbol(uri.as_bytes()) {
        Some(grid) => Ok(render_grid(&grid, target_size)),
        None => Err(LinkError::UnencodableContent),
    }
}

/// Judges the bytes that encoding an image gave: none is a failure.
pub fn check_file(encoded: Option<Vec<u8>>) -> (res: Result<Vec<u8>, LinkError>)
    ensures
        match res {
            Ok(bytes) => encoded == Some(bytes),
            Err(e) => encoded is None && e == LinkError::RenderFailure,
        },
{
    match encoded {
        Some(bytes) => Ok(bytes),
        None => Err(LinkError::RenderFailure),
    }
}

/// Encodes an image as a PNG file. An image whose pixels do not fill its
/// square is not encoded.
pub fn to_png(image: &RasterImage) -> (res: Result<Vec<u8>, LinkError>)
    ensures
        match res {
            Ok(bytes) => png_file(image@) == Ok::<Seq<u8>, LinkError>(bytes@),
            Err(e) => png_file(image@) == Err::<Seq<u8>, LinkError>(e),
        },
{
    let side = image.side as u64;
    assert(side * side <= u64::MAX) by (nonlinear_arith)
        requires
            0 <= side <= u32::MAX,
    ;
    if image.pixels.len() as u64 != side * side {
        return Err(LinkError::RenderFailure);
    }
    check_file(encode_png(image.side, &image.pixels))
}

/// Renders the link of a request as a PNG file, at the wanted size or at
/// `DEFAULT_SIZE` where the request names none.
pub fn qr_png(params: &QrParams) -> (res: Result<Vec<u8>, LinkError>)
    ensures
        match res {
            Ok(bytes) => png_outcome(qr_symbol(encode_utf8(params.url@)), params.size) == Ok::<
                Seq<u8>,
                LinkError,
            >(bytes@),
            Err(e) => png_outcome(qr_symbol(encode_utf8(params.url@)), params.size) == Err::<
                Seq<u8>,
                LinkError,
            >(e),
        },
{
    let size = match params.size {
        Some(side) => side,
        None => DEFAULT_SIZE,
    };
    match render(params.url.as_str(), size) {
        Ok(image) => to_png(&image),
        Err(e) => Err(e),
    }
}

/// Every module becomes a square of whole pixels of its own tone: in the
/// pixels of a grid at a scale, the pixel in row `y` and column `x` has the
/// shade of the module in row `y / scale` and column `x / scale`, and no
/// other value than `DARK` or `LIGHT` occurs.
pub proof fn lemma_pixel_of_module(modules: nat, dark: Seq<bool>, scale: nat, x: int, y: int)
    requires
        modules > 0,
        scale > 0,
        0 <= x < modules * scale,
        0 <= y < modules * scale,
    ensures
        0 <= x / (scale as int) < modules,
        0 <= y / (scale as int) < modules,
        0 <= y * (modules * scale) + x < scaled(modules, dark, scale).len(),
        scaled(modules, dark, scale)[y * (modules * scale) + x] == shade(
            dark[module_under(modules, scale, x, y)],
        ),
        scaled(modules, dark, scale)[y * (modules * scale) + x] == DARK || scaled(
            modules,
            dark,
            scale,
        )[y * (modules * scale) + x] == LIGHT,
{
    let width = (modules * scale) as int;
    let k = y * width + x;
    assert(scale * modules == modules * scale) by (nonlinear_arith);
    lemma_multiply_divide_lt(x, scale as int, modules as int);
    lemma_multiply_divide_lt(y, scale as int, modules as int);
    lemma_fundamental_div_mod_converse(k, width, y, x);
    assert(0 <= k < width * width) by (nonlinear_arith)
        requires
            k == y * width + x,
            0 <= y < width,
            0 <= x < width,
    ;
    assert(0 <= x / (scale as int) && 0 <= y / (scale as int)) by (nonlinear_arith)
        requires
            0 <= x,
            0 <= y,
            scale > 0,
    ;
}

} // verus!
