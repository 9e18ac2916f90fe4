//! Rendering: executes the layout's drawing commands on the canvas (text
//! through the outside rasterizer, rectangles and crosses through the
//! verified primitives), boosts contrast, and encodes the requested output
//! plane as a PNG byte stream. The whole pipeline is a function of its
//! inputs, so rendering the same snapshot twice yields identical bytes.

use vstd::prelude::*;

use crate::canvas::{Canvas, all_extreme, black_plane, invert_plane, lemma_extreme_planes,
    red_plane, rgba_expand, spec_black_plane, spec_cross, spec_fill_rect, spec_invert_plane,
    spec_red_plane, spec_rgba_expand};
use crate::date::LocalDateTime;
use crate::layout::{CmdView, DrawCmd, FontKind, build_page, cmds_view, spec_page_cmds,
    today_flags, spec_is_today_holiday, spec_is_today_event};
use crate::model::{QueryRouteEPaperOutputEnum, RenderError, WeatherInfo};
use crate::store::DateInfo;
use crate::text::{dec_u64, month_abbr, spec_dec, spec_month_abbr};

verus! {

/// The five font files the page is set in, as raw TTF bytes.
pub struct FontSet {
    pub anta: Vec<u8>,
    pub chakra_regular: Vec<u8>,
    pub chakra_bold: Vec<u8>,
    pub chakra_semibold: Vec<u8>,
    pub material: Vec<u8>,
}

pub open spec fn font_bytes(f: FontSet, k: FontKind) -> Seq<u8> {
    match k {
        FontKind::Anta => f.anta@,
        FontKind::ChakraRegular => f.chakra_regular@,
        FontKind::ChakraBold => f.chakra_bold@,
        FontKind::ChakraSemiBold => f.chakra_semibold@,
        FontKind::Material => f.material@,
    }
}

fn font_of<'a>(f: &'a FontSet, k: FontKind) -> (r: &'a Vec<u8>)
    ensures
        r@ == font_bytes(*f, k),
{
    match k {
        FontKind::Anta => &f.anta,
        FontKind::ChakraRegular => &f.chakra_regular,
        FontKind::ChakraBold => &f.chakra_bold,
        FontKind::ChakraSemiBold => &f.chakra_semibold,
        FontKind::Material => &f.material,
    }
}

/// Whether a byte sequence parses as a font.
pub uninterp spec fn font_valid(f: Seq<u8>) -> bool;

/// Whether a parsed font's layout metrics are safe for the rasterizer: its
/// unscaled height (ascender minus descender) is positive, and it carries no
/// legacy horizontal kerning subtable. Under these two conditions the text
/// layout the rasterizer computes is a non-negative sum: the scale factors
/// are positive and finite, every glyph advance is unsigned, and no kerning
/// term exists to subtract from them — so the layout asserts cannot fire.
pub uninterp spec fn font_metrics_ok(f: Seq<u8>) -> bool;

/// All five faces parse with safe layout metrics.
pub open spec fn fonts_valid(f: FontSet) -> bool {
    &&& font_valid(f.anta@) && font_metrics_ok(f.anta@)
    &&& font_valid(f.chakra_regular@) && font_metrics_ok(f.chakra_regular@)
    &&& font_valid(f.chakra_bold@) && font_metrics_ok(f.chakra_bold@)
    &&& font_valid(f.chakra_semibold@) && font_metrics_ok(f.chakra_semibold@)
    &&& font_valid(f.material@) && font_metrics_ok(f.material@)
}

/// Relies on ab_glyph::FontRef::try_from_slice: whether the bytes parse as a
/// font; the outcome depends on the bytes alone.
#[verifier::external_body]
fn font_check(f: &Vec<u8>) -> (r: bool)
    ensures
        r == font_valid(f@),
{
    ab_glyph::FontRef::try_from_slice(f).is_ok()
}

/// Relies on ttf_parser::Face (the parser the rasterizer itself reads the
/// font with, at the same version): checks the two metric conditions of
/// [`font_metrics_ok`] — ascender above descender, and no horizontal
/// non-variable `kern` subtable, which is the only source the rasterizer's
/// kerning lookup consults. A deterministic function of the bytes alone.
#[verifier::external_body]
fn font_metrics_check(f: &Vec<u8>) -> (r: bool)
    ensures
        r == font_metrics_ok(f@),
{
    match ttf_parser::Face::parse(f, 0) {
        Ok(face) => {
            let no_kern = face.tables().kern.map_or(
                true,
                |k| k.subtables.into_iter().all(|st| !st.horizontal || st.variable),
            );
            (face.ascender() as i32) > (face.descender() as i32) && no_kern
        },
        Err(_) => false,
    }
}

/// The pixel size that the rasterizer assigns a text run; a function of the
/// scale, the font bytes and the text alone.
pub uninterp spec fn text_size_of(sx: u16, sy: u16, font: Seq<u8>, text: Seq<char>) -> (u32, u32);

/// Relies on imageproc::drawing::text_size: measures a text run in the given
/// font and scale. The layout asserts that its width and height are
/// non-negative; [`font_metrics_ok`] guarantees both, so those asserts
/// cannot fire.
#[verifier::external_body]
fn measure_text(sx: u16, sy: u16, font: &Vec<u8>, text: &str) -> (r: (u32, u32))
    requires
        font_valid(font@),
        font_metrics_ok(font@),
    ensures
        r == text_size_of(sx, sy, font@, text@),
{
    let f = ab_glyph::FontRef::try_from_slice(font).unwrap();
    imageproc::drawing::text_size(ab_glyph::PxScale { x: sx.into(), y: sy.into() }, &f, text)
}

/// The canvas after the rasterizer draws a text run on it; a function of the
/// old canvas, the color, position, scale, font bytes and text alone.
pub uninterp spec fn draw_text_of(
    c: Seq<u8>,
    red: u8,
    green: u8,
    blue: u8,
    x: u32,
    y: u32,
    sx: u16,
    sy: u16,
    font: Seq<u8>,
    text: Seq<char>,
) -> Seq<u8>;

/// Relies on imageproc::drawing::draw_text_mut: rasterizes a text run onto
/// the canvas; the canvas keeps its size. The layout asserts that its width
/// and height are non-negative; [`font_metrics_ok`] guarantees both, so
/// those asserts cannot fire.
#[verifier::external_body]
fn draw_text(
    canvas: &mut Canvas,
    red: u8,
    green: u8,
    blue: u8,
    x: u32,
    y: u32,
    sx: u16,
    sy: u16,
    font: &Vec<u8>,
    text: &str,
)
    requires
        old(canvas).wf(),
        font_valid(font@),
        font_metrics_ok(font@),
    ensures
        final(canvas).wf(),
        final(canvas).data@ == draw_text_of(
            old(canvas).data@,
            red,
            green,
            blue,
            x,
            y,
            sx,
            sy,
            font@,
            text@,
        ),
{
    let f = ab_glyph::FontRef::try_from_slice(font).unwrap();
    let buf = core::mem::take(&mut canvas.data);
    let mut img = image::RgbImage::from_raw(400, 300, buf).unwrap();
    let scale = ab_glyph::PxScale { x: sx.into(), y: sy.into() };
    imageproc::drawing::draw_text_mut(
        &mut img,
        image::Rgb([red, green, blue]),
        x as i32,
        y as i32,
        scale,
        &f,
        text,
    );
    canvas.data = img.into_raw();
}

/// The canvas after the contrast curve with strength `c` is applied; a
/// function of the strength and the bytes alone.
pub uninterp spec fn contrast_of(c: u8, data: Seq<u8>) -> Seq<u8>;

/// Relies on image's contrast_in_place: applies a per-channel contrast
/// curve. Its formula maps a fully dark channel below the clamp floor and a
/// fully bright one above the clamp ceiling, so 0 and 255 are fixed points;
/// the canvas keeps its size.
#[verifier::external_body]
fn apply_contrast(canvas: &mut Canvas, c: u8)
    requires
        old(canvas).wf(),
    ensures
        final(canvas).wf(),
        final(canvas).data@ == contrast_of(c, old(canvas).data@),
        forall|i: int|
            0 <= i < 360000 ==> ((old(canvas).data@[i] == 0 ==> final(canvas).data@[i] == 0) && (
            old(canvas).data@[i] == 255 ==> final(canvas).data@[i] == 255)),
{
    let buf = core::mem::take(&mut canvas.data);
    let mut img = image::RgbImage::from_raw(400, 300, buf).unwrap();
    image::imageops::colorops::contrast_in_place(&mut img, c.into());
    canvas.data = img.into_raw();
}

/// The plane after deterministic bi-level error diffusion; a function of the
/// input bytes alone.
pub uninterp spec fn dither_of(p: Seq<u8>) -> Seq<u8>;

/// Relies on image's dither with the BiLevel map: Floyd-Steinberg error
/// diffusion, which visits every pixel and maps it to 0 or 255; the plane
/// keeps its size, and the algorithm draws on no randomness. A plane that is
/// already bi-level passes through unchanged: the map sends 0 to 0 and 255
/// to 255, so every per-pixel error is zero and nothing is diffused.
#[verifier::external_body]
fn dither_plane(plane: &mut Vec<u8>)
    requires
        old(plane)@.len() == 120000,
    ensures
        final(plane)@ == dither_of(old(plane)@),
        final(plane)@.len() == 120000,
        forall|i: int| 0 <= i < 120000 ==> final(plane)@[i] == 0 || final(plane)@[i] == 255,
        all_extreme(old(plane)@) ==> final(plane)@ == old(plane)@,
{
    let buf = core::mem::take(plane);
    let mut img = image::GrayImage::from_raw(400, 300, buf).unwrap();
    image::imageops::dither(&mut img, &image::imageops::BiLevel);
    *plane = img.into_raw();
}

/// The PNG encoding of a 400x300 RGB byte buffer, or nothing where the
/// encoder fails; a function of the bytes alone.
pub uninterp spec fn png_rgb_of(data: Seq<u8>) -> Option<Seq<u8>>;

/// Relies on image's ImageBuffer::write_to with the PNG format, on an RGB
/// buffer: deterministic encoding of the pixel bytes.
#[verifier::external_body]
fn png_rgb(data: &Vec<u8>) -> (r: Option<Vec<u8>>)
    requires
        data@.len() == 360000,
    ensures
        r is Some <==> png_rgb_of(data@) is Some,
        r matches Some(v) ==> png_rgb_of(data@) == Some(v@),
{
    let img = image::RgbImage::from_raw(400, 300, data.clone()).unwrap();
    let mut buf = std::io::Cursor::new(Vec::new());
    match img.write_to(&mut buf, image::ImageFormat::Png) {
        Ok(()) => Some(buf.into_inner()),
        Err(_) => None,
    }
}

/// The PNG encoding of a 400x300 gray byte buffer, or nothing where the
/// encoder fails; a function of the bytes alone.
pub uninterp spec fn png_gray_of(data: Seq<u8>) -> Option<Seq<u8>>;

/// Relies on image's ImageBuffer::write_to with the PNG format, on a gray
/// buffer: deterministic encoding of the pixel bytes.
#[verifier::external_body]
fn png_gray(data: &Vec<u8>) -> (r: Option<Vec<u8>>)
    requires
        data@.len() == 120000,
    ensures
        r is Some <==> png_gray_of(data@) is Some,
        r matches Some(v) ==> png_gray_of(data@) == Some(v@),
{
    let img = image::GrayImage::from_raw(400, 300, data.clone()).unwrap();
    let mut buf = std::io::Cursor::new(Vec::new());
    match img.write_to(&mut buf, image::ImageFormat::Png) {
        Ok(()) => Some(buf.into_inner()),
        Err(_) => None,
    }
}

/// The PNG encoding of a 400x300 RGBA byte buffer, or nothing where the
/// encoder fails; a function of the bytes alone.
pub uninterp spec fn png_rgba_of(data: Seq<u8>) -> Option<Seq<u8>>;

/// Relies on image's ImageBuffer::write_to with the PNG format, on an RGBA
/// buffer: deterministic encoding of the pixel bytes.
#[verifier::external_body]
fn png_rgba(data: &Vec<u8>) -> (r: Option<Vec<u8>>)
    requires
        data@.len() == 480000,
    ensures
        r is Some <==> png_rgba_of(data@) is Some,
        r matches Some(v) ==> png_rgba_of(data@) == Some(v@),
{
    let img = image::RgbaImage::from_raw(400, 300, data.clone()).unwrap();
    let mut buf = std::io::Cursor::new(Vec::new());
    match img.write_to(&mut buf, image::ImageFormat::Png) {
        Ok(()) => Some(buf.into_inner()),
        Err(_) => None,
    }
}

/// The canvas after one drawing command.
pub open spec fn apply_cmd(c: Seq<u8>, cv: CmdView, f: FontSet) -> Seq<u8> {
    match cv {
        CmdView::Rect { x, y, w, h, col } => spec_fill_rect(
            c,
            x as int,
            y as int,
            w as int,
            h as int,
            col,
        ),
        CmdView::Cross { x, y, col } => if x < 400 && y < 300 {
            spec_cross(c, x as int, y as int, col)
        } else {
            c
        },
        CmdView::Text { x, y, sx, sy, font, col, text } => draw_text_of(
            c,
            col.0,
            col.1,
            col.2,
            x,
            y,
            sx,
            sy,
            font_bytes(f, font),
            text,
        ),
    }
}

/// The canvas after a whole command list, applied left to right.
pub open spec fn apply_cmds(c: Seq<u8>, s: Seq<CmdView>, f: FontSet) -> Seq<u8>
    decreases s.len(),
{
    if s.len() == 0 {
        c
    } else {
        apply_cmds(apply_cmd(c, s[0], f), s.drop_first(), f)
    }
}

/// Executes a command list on the canvas.
fn apply_commands(canvas: &mut Canvas, cmds: &Vec<DrawCmd>, fonts: &FontSet)
    requires
        old(canvas).wf(),
        fonts_valid(*fonts),
    ensures
        final(canvas).wf(),
        final(canvas).data@ == apply_cmds(old(canvas).data@, cmds_view(cmds@), *fonts),
{
    let ghost c0 = canvas.data@;
    let ghost all = cmds_view(cmds@);
    let n = cmds.len();
    let mut i: usize = 0;
    proof {
        assert(all.skip(0) =~= all);
    }
    while i < n
        invariant
            i <= n,
            n == cmds@.len(),
            all == cmds_view(cmds@),
            canvas.wf(),
            fonts_valid(*fonts),
            apply_cmds(c0, all, *fonts) == apply_cmds(canvas.data@, all.skip(i as int), *fonts),
        decreases n - i,
    {
        let ghost tail = all.skip(i as int);
        proof {
            assert(tail[0] == all[i as int]);
            assert(tail.drop_first() =~= all.skip(i as int + 1));
        }
        match &cmds[i] {
            DrawCmd::Rect { x, y, w, h, col } => {
                canvas.fill_rect(*x, *y, *w, *h, *col);
            },
            DrawCmd::Cross { x, y, col } => {
                if *x < 400 && *y < 300 {
                    canvas.draw_cross(*x, *y, *col);
                }
            },
            DrawCmd::Text { x, y, sx, sy, font, col, text } => {
                let fb = font_of(fonts, *font);
                draw_text(canvas, col.0, col.1, col.2, *x, *y, *sx, *sy, fb, text.as_str());
            },
        }
        i = i + 1;
    }
    proof {
        assert(all.skip(n as int) =~= Seq::<CmdView>::empty());
    }
}

/// The encoded output of a composed canvas in the chosen plane: contrast
/// boost, plane extraction, bi-level dithering and PNG serialization.
pub open spec fn spec_encoded(c: Seq<u8>, output: QueryRouteEPaperOutputEnum) -> Option<Seq<u8>> {
    let boosted = contrast_of(200, c);
    match output {
        QueryRouteEPaperOutputEnum::Full => png_rgb_of(boosted),
        QueryRouteEPaperOutputEnum::Black => png_gray_of(dither_of(spec_black_plane(boosted))),
        QueryRouteEPaperOutputEnum::BlackInvert => png_gray_of(
            spec_invert_plane(dither_of(spec_black_plane(boosted))),
        ),
        QueryRouteEPaperOutputEnum::Red => png_rgba_of(
            spec_rgba_expand(dither_of(spec_red_plane(boosted))),
        ),
    }
}

/// Encodes a composed canvas for the requested output plane; fails only when
/// the PNG encoder does. On a canvas whose bytes are all fully dark or fully
/// bright, the contrast boost and the dithering are identities, so the
/// encoded planes read straight off the pixels: in the black plane a pixel
/// is ink — dark — iff red or blue is clear, and in the red plane a pixel is
/// ink — opaque red in the expanded image — iff red is set and blue is not.
pub fn encode_canvas(canvas: Canvas, output: &QueryRouteEPaperOutputEnum) -> (r: Result<
    Vec<u8>,
    RenderError,
>)
    requires
        canvas.wf(),
    ensures
        r matches Ok(b) ==> spec_encoded(canvas.data@, *output) == Some(b@),
        r is Err ==> spec_encoded(canvas.data@, *output) is None && r == Err::<
            Vec<u8>,
            RenderError,
        >(RenderError::EncodeFailed),
        all_extreme(canvas.data@) ==> (r matches Ok(b) ==> match *output {
            QueryRouteEPaperOutputEnum::Full => png_rgb_of(canvas.data@) == Some(b@),
            QueryRouteEPaperOutputEnum::Black => png_gray_of(spec_black_plane(canvas.data@))
                == Some(b@),
            QueryRouteEPaperOutputEnum::BlackInvert => png_gray_of(
                spec_invert_plane(spec_black_plane(canvas.data@)),
            ) == Some(b@),
            QueryRouteEPaperOutputEnum::Red => png_rgba_of(
                spec_rgba_expand(spec_red_plane(canvas.data@)),
            ) == Some(b@),
        }),
{
    let mut canvas = canvas;
    let ghost c0 = canvas.data@;
    apply_contrast(&mut canvas, 200);
    proof {
        if all_extreme(c0) {
            assert(canvas.data@ =~= c0);
            lemma_extreme_planes(c0);
        }
    }
    let encoded: Option<Vec<u8>> = match output {
        QueryRouteEPaperOutputEnum::Full => png_rgb(&canvas.data),
        QueryRouteEPaperOutputEnum::Black => {
            let mut plane = black_plane(&canvas);
            dither_plane(&mut plane);
            png_gray(&plane)
        },
        QueryRouteEPaperOutputEnum::BlackInvert => {
            let mut plane = black_plane(&canvas);
            dither_plane(&mut plane);
            let inv = invert_plane(&plane);
            png_gray(&inv)
        },
        QueryRouteEPaperOutputEnum::Red => {
            let mut plane = red_plane(&canvas);
            dither_plane(&mut plane);
            let rgba = rgba_expand(&plane);
            png_rgba(&rgba)
        },
    };
    match encoded {
        Some(b) => Ok(b),
        None => Err(RenderError::EncodeFailed),
    }
}

/// The rendered page bytes: the page commands from the measured date block,
/// applied to a blank canvas, then encoded for the chosen plane. Nothing
/// here depends on anything but the arguments, so rendering is
/// deterministic.
pub open spec fn spec_rendered(
    win: Seq<DateInfo>,
    weather: Option<WeatherInfo>,
    now: LocalDateTime,
    output: QueryRouteEPaperOutputEnum,
    fonts: FontSet,
) -> Option<Seq<u8>> {
    let is_holiday = spec_is_today_holiday(win, now.date);
    let is_event = spec_is_today_event(win, now.date);
    let day_w = text_size_of(90, 135, fonts.anta@, spec_dec(now.date.day as int)).0;
    let mth = text_size_of(60, 60, fonts.anta@, spec_month_abbr(now.date.month as int));
    let yr_w = text_size_of(90, 90, fonts.anta@, spec_dec(now.date.year as int % 100)).0;
    let cmds = spec_page_cmds(
        win,
        weather,
        now,
        is_holiday,
        is_event,
        day_w as int,
        mth.0 as int,
        mth.1 as int,
        yr_w as int,
    );
    let blank = Seq::new(360000, |i: int| 0u8);
    let composed = apply_cmds(blank, cmds, fonts);
    spec_encoded(composed, output)
}

/// Renders the page for a bounded window of the snapshot: the date block,
/// weather line, agenda and footer are laid out and drawn, the canvas is
/// contrast-boosted, and the requested plane is encoded as PNG. Fails with
/// `InvalidFont` when a font does not parse or its layout metrics are
/// unsafe for the rasterizer, and with `EncodeFailed` when the PNG encoder
/// fails; stale or missing data never makes it fail.
pub fn render_page(
    win: &Vec<DateInfo>,
    weather: &Option<WeatherInfo>,
    now: &LocalDateTime,
    output: &QueryRouteEPaperOutputEnum,
    fonts: &FontSet,
) -> (r: Result<Vec<u8>, RenderError>)
    requires
        now.valid(),
        forall|a: int| 0 <= a < win@.len() ==> (#[trigger] win@[a]).date.valid(),
        weather matches Some(w) ==> w.attributes.temperature_tenths > i64::MIN,
    ensures
        !fonts_valid(*fonts) ==> r == Err::<Vec<u8>, RenderError>(RenderError::InvalidFont),
        fonts_valid(*fonts) ==> match spec_rendered(win@, *weather, *now, *output, *fonts) {
            Some(b) => r matches Ok(v) && v@ == b,
            None => r == Err::<Vec<u8>, RenderError>(RenderError::EncodeFailed),
        },
{
    if !(font_check(&fonts.anta) && font_metrics_check(&fonts.anta) && font_check(
        &fonts.chakra_regular,
    ) && font_metrics_check(&fonts.chakra_regular) && font_check(&fonts.chakra_bold)
        && font_metrics_check(&fonts.chakra_bold) && font_check(&fonts.chakra_semibold)
        && font_metrics_check(&fonts.chakra_semibold) && font_check(&fonts.material)
        && font_metrics_check(&fonts.material)) {
        return Err(RenderError::InvalidFont);
    }
    let flags = today_flags(win, &now.date);
    let ds = dec_u64(now.date.day as u64);
    let day = measure_text(90, 135, &fonts.anta, ds.as_str());
    let ms = month_abbr(now.date.month);
    let mth = measure_text(60, 60, &fonts.anta, ms.as_str());
    let ys = dec_u64((now.date.year % 100) as u64);
    let yr = measure_text(90, 90, &fonts.anta, ys.as_str());
    let cmds = build_page(win, weather, now, flags.0, flags.1, day.0, mth.0, mth.1, yr.0);
    let mut canvas = Canvas::new();
    proof {
        assert(canvas.data@ =~= Seq::new(360000, |i: int| 0u8));
    }
    apply_commands(&mut canvas, &cmds, fonts);
    encode_canvas(canvas, output)
}

/// Rendering is deterministic: the same window, weather, clock, output
/// plane and fonts yield byte-identical output — the pipeline, dithering
/// included, draws on no hidden randomness.
pub proof fn lemma_render_deterministic(
    win: Seq<DateInfo>,
    weather: Option<WeatherInfo>,
    now: LocalDateTime,
    output: QueryRouteEPaperOutputEnum,
    fonts: FontSet,
    b1: Seq<u8>,
    b2: Seq<u8>,
)
    requires
        spec_rendered(win, weather, now, output, fonts) == Some(b1),
        spec_rendered(win, weather, now, output, fonts) == Some(b2),
    ensures
        b1 == b2,
{
}

} // verus!
