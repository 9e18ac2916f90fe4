use epaper_server::canvas::{black_plane, invert_plane, red_plane, rgba_expand, Canvas};
use epaper_server::date::{CalendarDate, LocalDateTime};
use epaper_server::model::{
    parse_environment, parse_format, parse_output, parse_query_model, parse_weather_state,
    Environment, QueryRouteEPaperFormatEnum, QueryRouteEPaperModel, QueryRouteEPaperOutputEnum,
    RenderError, WeatherInfoState,
};
use epaper_server::render::{encode_canvas, render_page, FontSet};
use epaper_server::store::DateInfo;

fn test_canvas() -> Canvas {
    let mut c = Canvas::new();
    // White background, one pure-red pixel at (0, 0), one pure-black pixel
    // at (1, 0).
    c.fill_rect(0, 0, 400, 300, (255, 255, 255));
    c.set_pixel(0, 0, (255, 0, 0));
    c.set_pixel(1, 0, (0, 0, 0));
    c
}

#[test]
fn plane_bytes_of_red_and_black_pixels() {
    let c = test_canvas();
    let black = black_plane(&c);
    let red = red_plane(&c);
    assert_eq!(black.len(), 120000);
    assert_eq!(red.len(), 120000);

    // Black plane: dark means ink. The red pixel and the black pixel are
    // both ink; only the white background stays bright.
    assert_eq!(black[0], 0); // the red pixel: ink
    assert_eq!(black[1], 0); // the black pixel: ink
    assert_eq!(black[2], 255); // the white background

    // Red plane: only the pure-red pixel is ink.
    assert_eq!(red[0], 255); // the red pixel
    assert_eq!(red[1], 0); // the black pixel
    assert_eq!(red[2], 0); // the white background

    // Inversion flips every byte.
    let inv = invert_plane(&black);
    assert_eq!(inv[0], 255);
    assert_eq!(inv[2], 0);

    // RGBA expansion: red tint with the byte as opacity.
    let rgba = rgba_expand(&red);
    assert_eq!(&rgba[0..4], &[255, 0, 0, 255]);
    assert_eq!(&rgba[4..8], &[0, 0, 0, 0]);
}

#[test]
fn encoding_is_deterministic_per_mode() {
    for mode in [
        QueryRouteEPaperOutputEnum::Full,
        QueryRouteEPaperOutputEnum::Black,
        QueryRouteEPaperOutputEnum::BlackInvert,
        QueryRouteEPaperOutputEnum::Red,
    ] {
        let a = encode_canvas(test_canvas(), &mode).unwrap();
        let b = encode_canvas(test_canvas(), &mode).unwrap();
        assert_eq!(a, b);
        // PNG signature.
        assert_eq!(&a[0..8], &[0x89, 0x50, 0x4E, 0x47, 0x0D, 0x0A, 0x1A, 0x0A]);
    }
}

#[test]
fn modes_produce_distinct_output() {
    let full = encode_canvas(test_canvas(), &QueryRouteEPaperOutputEnum::Full).unwrap();
    let black = encode_canvas(test_canvas(), &QueryRouteEPaperOutputEnum::Black).unwrap();
    let inverted =
        encode_canvas(test_canvas(), &QueryRouteEPaperOutputEnum::BlackInvert).unwrap();
    assert_ne!(full, black);
    assert_ne!(black, inverted);
}

#[test]
fn encoded_black_plane_marks_red_and_black_as_ink() {
    // Decode the PNG and check both pixels of the encoded black plane: on
    // an all-extreme canvas the error diffusion has nothing to diffuse, so
    // the red pixel and the black pixel both come out dark — ink — and the
    // background bright.
    let bytes = encode_canvas(test_canvas(), &QueryRouteEPaperOutputEnum::Black).unwrap();
    let img = image::load_from_memory(&bytes).unwrap().to_luma8();
    assert_eq!(img.dimensions(), (400, 300));
    assert_eq!(img.get_pixel(0, 0).0[0], 0); // the red pixel: ink
    assert_eq!(img.get_pixel(1, 0).0[0], 0); // the black pixel: ink
    assert_eq!(img.get_pixel(5, 5).0[0], 255); // the background
}

#[test]
fn invalid_fonts_fail_the_render_and_nothing_else_does() {
    let fonts = FontSet {
        anta: vec![1, 2, 3],
        chakra_regular: vec![],
        chakra_bold: vec![],
        chakra_semibold: vec![],
        material: vec![],
    };
    let now = LocalDateTime {
        date: CalendarDate { year: 2025, month: 6, day: 15 },
        hour: 12,
        minute: 0,
        second: 0,
    };
    let win: Vec<DateInfo> = Vec::new();
    let r = render_page(
        &win,
        &None,
        &now,
        &QueryRouteEPaperOutputEnum::Full,
        &fonts,
    );
    assert_eq!(r.unwrap_err(), RenderError::InvalidFont);
}

#[test]
fn weather_state_codes_decode() {
    assert_eq!(parse_weather_state("sunny"), Some(WeatherInfoState::Sunny));
    assert_eq!(
        parse_weather_state("clear-night"),
        Some(WeatherInfoState::ClearNight)
    );
    assert_eq!(
        parse_weather_state("lightning-rainy"),
        Some(WeatherInfoState::LightningRainy)
    );
    assert_eq!(
        parse_weather_state("windy-variant"),
        Some(WeatherInfoState::WindyVariant)
    );
    assert_eq!(parse_weather_state("Sunny"), None);
    assert_eq!(parse_weather_state("drizzle"), None);
}

#[test]
fn query_enums_decode() {
    assert_eq!(parse_output("full"), Some(QueryRouteEPaperOutputEnum::Full));
    assert_eq!(
        parse_output("black-invert"),
        Some(QueryRouteEPaperOutputEnum::BlackInvert)
    );
    assert_eq!(parse_output("red"), Some(QueryRouteEPaperOutputEnum::Red));
    assert_eq!(parse_output("green"), None);
    assert_eq!(parse_format("png"), Some(QueryRouteEPaperFormatEnum::Png));
    assert_eq!(parse_format("bmp"), Some(QueryRouteEPaperFormatEnum::Bmp));
    assert_eq!(parse_format("gif"), None);
    assert_eq!(
        parse_environment("development"),
        Some(Environment::Development)
    );
    assert_eq!(
        parse_environment("production"),
        Some(Environment::Production)
    );
    assert_eq!(parse_environment("staging"), None);
}

#[test]
fn default_query_model() {
    let q = epaper_server::model::QueryRouteEPaperModel::default();
    assert_eq!(q.output, QueryRouteEPaperOutputEnum::Full);
    assert_eq!(q.format, QueryRouteEPaperFormatEnum::Png);
}

#[test]
fn contrast_boost_moves_midtones_and_keeps_extremes() {
    // A canvas with a mid-gray region: after the full-color encode, the
    // extremes are untouched and the midtone is shifted by the boost.
    let mut c = Canvas::new();
    c.fill_rect(0, 0, 400, 300, (255, 255, 255));
    c.set_pixel(0, 0, (0, 0, 0));
    c.set_pixel(1, 0, (137, 136, 136));
    let bytes = encode_canvas(c, &QueryRouteEPaperOutputEnum::Full).unwrap();
    let img = image::load_from_memory(&bytes).unwrap().to_rgb8();
    assert_eq!(img.get_pixel(0, 0).0, [0, 0, 0]);
    assert_eq!(img.get_pixel(5, 5).0, [255, 255, 255]);
    assert_ne!(img.get_pixel(1, 0).0[0], 137);
}

#[test]
fn dithering_quantizes_midtones_to_two_levels() {
    // A mid-gray canvas: the encoded black plane must hold only fully dark
    // and fully bright pixels, in a mix.
    let mut c = Canvas::new();
    c.fill_rect(0, 0, 400, 300, (120, 120, 120));
    let bytes = encode_canvas(c, &QueryRouteEPaperOutputEnum::Black).unwrap();
    let img = image::load_from_memory(&bytes).unwrap().to_luma8();
    let mut dark = 0u32;
    let mut bright = 0u32;
    for p in img.pixels() {
        match p.0[0] {
            0 => dark += 1,
            255 => bright += 1,
            other => panic!("byte {other} is neither fully dark nor fully bright"),
        }
    }
    assert!(dark > 0 && bright > 0);
}

#[test]
fn query_model_defaults_and_rejections() {
    assert_eq!(
        parse_query_model(None, None),
        Some(QueryRouteEPaperModel::default())
    );
    let m = parse_query_model(Some("red"), Some("bmp")).unwrap();
    assert_eq!(m.output, QueryRouteEPaperOutputEnum::Red);
    assert_eq!(m.format, QueryRouteEPaperFormatEnum::Bmp);
    assert_eq!(parse_query_model(Some("purple"), None), None);
    assert_eq!(parse_query_model(None, Some("tiff")), None);
}

#[test]
fn black_invert_is_the_complement_of_black() {
    // The inversion flips the bit polarity after dithering, so on any
    // canvas — midtones included — the two decoded planes are exact
    // complements, pixel for pixel.
    let mut a = Canvas::new();
    a.fill_rect(0, 0, 400, 300, (120, 120, 120));
    a.set_pixel(0, 0, (255, 0, 0));
    a.set_pixel(1, 0, (0, 0, 0));
    let mut b = Canvas::new();
    b.fill_rect(0, 0, 400, 300, (120, 120, 120));
    b.set_pixel(0, 0, (255, 0, 0));
    b.set_pixel(1, 0, (0, 0, 0));

    let black = encode_canvas(a, &QueryRouteEPaperOutputEnum::Black).unwrap();
    let inverted = encode_canvas(b, &QueryRouteEPaperOutputEnum::BlackInvert).unwrap();
    let black = image::load_from_memory(&black).unwrap().to_luma8();
    let inverted = image::load_from_memory(&inverted).unwrap().to_luma8();
    for (p, q) in black.pixels().zip(inverted.pixels()) {
        assert_eq!(p.0[0], !q.0[0]);
    }
}

#[test]
fn red_mode_marks_only_the_red_pixel_as_ink() {
    // End to end: the red pixel comes out opaque red, the black pixel and
    // the white background fully transparent.
    let bytes = encode_canvas(test_canvas(), &QueryRouteEPaperOutputEnum::Red).unwrap();
    let img = image::load_from_memory(&bytes).unwrap().to_rgba8();
    assert_eq!(img.get_pixel(0, 0).0, [255, 0, 0, 255]); // the red pixel
    assert_eq!(img.get_pixel(1, 0).0[3], 0); // the black pixel
    assert_eq!(img.get_pixel(5, 5).0[3], 0); // the background
}
