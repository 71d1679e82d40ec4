use vstd::prelude::*;
use qrcode::render::Renderer;
use qrcode::{Color, QrCode};

verus! {

/// The modules of a QR code, row by row, `true` for dark.
pub struct QrMatrix {
    /// Modules per side (without the quiet zone).
    pub width: usize,
    pub dark: Vec<bool>,
}

/// A square RGBA picture, row by row.
pub struct QrImage {
    /// Pixels per side.
    pub side: u32,
    pub pixels: Vec<[u8; 4]>,
}

/// The modules (row by row, `true` for dark) of the QR code that `QrCode::new`
/// builds for the UTF-8 bytes of `content`, or `None` when it cannot build one
/// (the data is too long).
pub uninterp spec fn qr_modules(content: Seq<char>) -> Option<Seq<bool>>;

/// The width of the quiet zone (light border) around a QR code, in modules.
pub open spec fn quiet_zone() -> int {
    4
}

/// Whether the pixel at column `x` and row `y` of the rendering of a code
/// `width` modules wide falls on a dark module (one pixel per module).
pub open spec fn pixel_is_dark(width: int, dark: Seq<bool>, x: int, y: int) -> bool {
    &&& quiet_zone() <= x < width + quiet_zone()
    &&& quiet_zone() <= y < width + quiet_zone()
    &&& dark[(y - quiet_zone()) * width + (x - quiet_zone())]
}

/// The pixels, row by row, of a code `width` modules wide drawn one pixel per
/// module inside its quiet zone, in the colours `light` and `dark`.
pub open spec fn rendering(width: int, modules: Seq<bool>, light: [u8; 4], dark: [u8; 4]) -> Seq<[u8; 4]> {
    let side: int = width + 2 * quiet_zone();
    Seq::new(
        (side * side) as nat,
        |i: int|
            if pixel_is_dark(width, modules, i % side, i / side) {
                dark
            } else {
                light
            },
    )
}

/// `QrCode::new` on the bytes of `content`, read back with `width` and
/// `to_colors`. The modules are named by `qr_modules`; the source shows that
/// the code is a normal one (version 1 to 40, so 21 to 177 modules wide) and
/// that it holds width × width modules.
#[verifier::external_body]
fn encode_qr(content: &str) -> (m: Option<QrMatrix>)
    ensures
        m is Some <==> qr_modules(content@) is Some,
        m matches Some(q) ==> {
            &&& q.dark@ == qr_modules(content@)->0
            &&& 21 <= q.width <= 177
            &&& q.width * q.width == q.dark@.len()
        },
{
    match QrCode::new(content.as_bytes()) {
        Ok(code) => Some(QrMatrix {
            width: code.width(),
            dark: code.to_colors().into_iter().map(|c| match c {
                Color::Dark => true,
                Color::Light => false,
            }).collect(),
        }),
        Err(_) => None,
    }
}

/// qrcode's `Renderer` (what `QrCode::render` uses for a normal code: a quiet
/// zone of 4 modules) with `max_dimensions(1, 1)` and the two colours, built
/// into an RGBA image and read back pixel by pixel. Per the source, a module
/// size asked below one pixel becomes one pixel, the canvas starts all light
/// and each dark module is painted dark.
#[verifier::external_body]
fn render_modules(m: &QrMatrix, light: [u8; 4], dark: [u8; 4]) -> (img: QrImage)
    requires
        1 <= m.width <= 177,
        m.width * m.width == m.dark@.len(),
    ensures
        img.side == m.width + 2 * quiet_zone(),
        img.pixels@ == rendering(m.width as int, m.dark@, light, dark),
{
    let colors: Vec<Color> = m.dark.iter().map(|d| match d {
        true => Color::Dark,
        false => Color::Light,
    }).collect();
    let image = Renderer::<image::Rgba<u8>>::new(&colors, m.width, 4)
        .max_dimensions(1, 1)
        .light_color(image::Rgba(light))
        .dark_color(image::Rgba(dark))
        .build();
    QrImage { side: image.width(), pixels: image.pixels().map(|p| p.0).collect() }
}

/// The colour of light modules and of the quiet zone in the terminal picture.
pub fn qr_light() -> (c: [u8; 4])
    ensures
        c == [236u8, 236u8, 236u8, 1u8],
{
    [236, 236, 236, 1]
}

/// The colour of dark modules in the terminal picture.
pub fn qr_dark() -> (c: [u8; 4])
    ensures
        c == [0u8, 0u8, 0u8, 1u8],
{
    [0, 0, 0, 1]
}

/// The picture of the QR code of `content` that is shown in the terminal:
/// one pixel per module, a light quiet zone, light grey and black. `None`
/// when no QR code can hold `content`.
pub fn render_qrcode(content: &str) -> (img: Option<QrImage>)
    ensures
        img is Some <==> qr_modules(content@) is Some,
        img matches Some(i) ==> {
            let modules = qr_modules(content@)->0;
            let width: int = i.side - 2 * quiet_zone();
            &&& 21 <= width <= 177
            &&& width * width == modules.len()
            &&& i.pixels@ == rendering(width, modules, [236u8, 236u8, 236u8, 1u8], [0u8, 0u8, 0u8, 1u8])
        },
{
    match encode_qr(content) {
        Some(m) => Some(render_modules(&m, qr_light(), qr_dark())),
        None => None,
    }
}

proof fn lemma_cell_index(side: int, x: int, y: int)
    requires
        0 <= x < side,
        0 <= y < side,
    ensures
        0 <= y * side + x < side * side,
        (y * side + x) % side == x,
        (y * side + x) / side == y,
{
    assert(0 <= y * side + x < side * side) by (nonlinear_arith)
        requires
            0 <= x < side,
            0 <= y < side,
    ;
    vstd::arithmetic::div_mod::lemma_fundamental_div_mod_converse(y * side + x, side, y, x);
}

/// Law: inside the quiet zone the picture shows the modules one pixel each:
/// the pixel at column `x + 4`, row `y + 4` is dark exactly when module `x` of
/// row `y` is dark.
pub proof fn lemma_module_pixels(
    width: int,
    modules: Seq<bool>,
    light: [u8; 4],
    dark: [u8; 4],
    x: int,
    y: int,
)
    requires
        width >= 1,
        0 <= x < width,
        0 <= y < width,
        modules.len() == width * width,
    ensures
        ({
            let side = width + 8;
            let pixels = rendering(width, modules, light, dark);
            &&& pixels.len() == side * side
            &&& pixels[(y + 4) * side + (x + 4)] == (if modules[y * width + x] {
                dark
            } else {
                light
            })
        }),
{
    let side = width + 8;
    lemma_cell_index(side, x + 4, y + 4);
}

/// Law: the picture is a square of side × side pixels whose quiet zone (the
/// outer four pixels on every side) is entirely in the light colour.
pub proof fn lemma_quiet_zone_is_light(
    width: int,
    modules: Seq<bool>,
    light: [u8; 4],
    dark: [u8; 4],
    x: int,
    y: int,
)
    requires
        width >= 1,
        ({
            let side: int = width + 2 * quiet_zone();
            &&& 0 <= x < side
            &&& 0 <= y < side
            &&& (x < quiet_zone() || y < quiet_zone() || x >= side - quiet_zone() || y >= side
                - quiet_zone())
        }),
    ensures
        ({
            let side: int = width + 2 * quiet_zone();
            let pixels = rendering(width, modules, light, dark);
            &&& pixels.len() == side * side
            &&& pixels[y * side + x] == light
        }),
{
    let side: int = width + 2 * quiet_zone();
    lemma_cell_index(side, x, y);
}

} // verus!
