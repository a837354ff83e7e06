use paylink::error::LinkError;
use paylink::qr::{
    check_file, clamp_size, module_scale, qr_png, render, render_grid, scale_grid, to_png,
    ModuleGrid, RasterImage,
};
use paylink::request::QrParams;

const LINK: &str = "solana:So11111111111111111111111111111111111111112?amount=1.5&reference=11111111111111111111111111111111&label=Coffee";

fn chessboard(side: usize) -> ModuleGrid {
    let mut dark = Vec::new();
    for y in 0..side {
        for x in 0..side {
            dark.push((x + y) % 2 == 0);
        }
    }
    ModuleGrid { side, dark }
}

fn assert_is_scaled(image: &RasterImage, grid: &ModuleGrid, scale: usize) {
    let width = grid.side * scale;
    assert_eq!(image.side as usize, width);
    assert_eq!(image.pixels.len(), width * width);
    for y in 0..width {
        for x in 0..width {
            let dark = grid.dark[(y / scale) * grid.side + x / scale];
            assert_eq!(image.pixels[y * width + x], if dark { 0 } else { 255 }, "{} {}", x, y);
        }
    }
}

#[test]
fn clamps_the_wanted_size() {
    assert_eq!(clamp_size(0), 128);
    assert_eq!(clamp_size(64), 128);
    assert_eq!(clamp_size(127), 128);
    assert_eq!(clamp_size(128), 128);
    assert_eq!(clamp_size(512), 512);
    assert_eq!(clamp_size(2048), 2048);
    assert_eq!(clamp_size(2049), 2048);
    assert_eq!(clamp_size(u32::MAX), 2048);
}

#[test]
fn gives_each_module_whole_pixels() {
    assert_eq!(module_scale(128, 21), 6);
    assert_eq!(module_scale(128, 33), 3);
    assert_eq!(module_scale(512, 33), 15);
    assert_eq!(module_scale(2048, 177), 11);
    assert_eq!(module_scale(128, 128), 1);
    assert_eq!(module_scale(128, 129), 1);
    assert_eq!(module_scale(128, 177), 1);
    assert_eq!(module_scale(0, 1), 1);
    assert_eq!(module_scale(7, 1), 7);
}

#[test]
fn draws_a_grid_at_a_scale() {
    let grid = ModuleGrid { side: 2, dark: vec![true, false, false, true] };
    assert_eq!(
        scale_grid(&grid, 1),
        RasterImage { side: 2, pixels: vec![0, 255, 255, 0] }
    );
    assert_eq!(
        scale_grid(&grid, 2),
        RasterImage {
            side: 4,
            pixels: vec![0, 0, 255, 255, 0, 0, 255, 255, 255, 255, 0, 0, 255, 255, 0, 0],
        }
    );
    let grid = ModuleGrid { side: 1, dark: vec![true] };
    assert_eq!(scale_grid(&grid, 3), RasterImage { side: 3, pixels: vec![0; 9] });
    let grid = chessboard(5);
    assert_is_scaled(&scale_grid(&grid, 7), &grid, 7);
}

#[test]
fn draws_a_grid_for_a_wanted_size() {
    let grid = chessboard(21);
    assert_is_scaled(&render_grid(&grid, 128), &grid, 6);
    assert_is_scaled(&render_grid(&grid, 0), &grid, 6);
    assert_is_scaled(&render_grid(&grid, 300), &grid, 14);
    assert_is_scaled(&render_grid(&grid, 1_000_000), &grid, 97);
    let grid = chessboard(177);
    assert_is_scaled(&render_grid(&grid, 128), &grid, 1);
    assert_is_scaled(&render_grid(&grid, 353), &grid, 1);
    assert_is_scaled(&render_grid(&grid, 354), &grid, 2);
}

#[test]
fn renders_the_symbol_of_a_link() {
    let code = qrcode::QrCode::new(LINK.as_bytes()).unwrap();
    let modules = code.width();
    let scale = 512 / modules;
    let image = render(LINK, 512).unwrap();
    assert_eq!(image.side as usize, modules * scale);
    assert!(image.side <= 512 && image.side as usize + modules > 512);
    for y in 0..image.side as usize {
        for x in 0..image.side as usize {
            let dark = code[(x / scale, y / scale)] == qrcode::Color::Dark;
            let pixel = image.pixels[y * image.side as usize + x];
            assert_eq!(pixel, if dark { 0 } else { 255 }, "{} {}", x, y);
        }
    }
    assert!(image.pixels.contains(&0) && image.pixels.contains(&255));
}

#[test]
fn renders_a_small_request_at_the_smallest_size() {
    let modules = qrcode::QrCode::new(LINK.as_bytes()).unwrap().width();
    let image = render(LINK, 64).unwrap();
    assert_eq!(image.side as usize, modules * (128 / modules));
    assert!(image.side as usize + modules > 128);
    assert!(image.side > 64);
    assert_eq!(image, render(LINK, 128).unwrap());
    assert_eq!(image, render(LINK, 0).unwrap());
}

#[test]
fn renders_a_large_request_at_the_largest_size() {
    let modules = qrcode::QrCode::new(LINK.as_bytes()).unwrap().width();
    let image = render(LINK, 100_000).unwrap();
    assert_eq!(image.side as usize, modules * (2048 / modules));
    assert_eq!(image, render(LINK, 2048).unwrap());
}

#[test]
fn renders_short_contents() {
    let image = render("", 128).unwrap();
    assert_eq!(image.side, 21 * 6);
    let image = render("a", 21).unwrap();
    assert_eq!(image.side, 21 * 6);
}

#[test]
fn refuses_content_beyond_the_capacity() {
    let long = "x".repeat(8000);
    assert_eq!(render(&long, 512), Err(LinkError::UnencodableContent));
    assert_eq!(render(&long, 64), Err(LinkError::UnencodableContent));
    assert_eq!(
        qr_png(&QrParams { url: long, size: None }),
        Err(LinkError::UnencodableContent)
    );
    let fits = "x".repeat(2331);
    assert_eq!(render(&fits, 128).unwrap().side, 177);
    let over = "x".repeat(2332);
    assert_eq!(render(&over, 128), Err(LinkError::UnencodableContent));
}

#[test]
fn encodes_an_image_as_a_png_file() {
    let image = render(LINK, 256).unwrap();
    let bytes = to_png(&image).unwrap();
    assert_eq!(&bytes[..8], &[0x89, b'P', b'N', b'G', 0x0d, 0x0a, 0x1a, 0x0a]);
    let decoded = image::load_from_memory(&bytes).unwrap();
    assert_eq!(decoded.color(), image::ColorType::L8);
    let gray = decoded.into_luma8();
    assert_eq!((gray.width(), gray.height()), (image.side, image.side));
    assert_eq!(gray.into_raw(), image.pixels);
}

#[test]
fn renders_a_request_as_a_png_file() {
    let bytes = qr_png(&QrParams { url: LINK.to_string(), size: None }).unwrap();
    assert_eq!(bytes, to_png(&render(LINK, 512).unwrap()).unwrap());
    let gray = image::load_from_memory(&bytes).unwrap().into_luma8();
    assert_eq!(gray.into_raw(), render(LINK, 512).unwrap().pixels);
    let bytes = qr_png(&QrParams { url: LINK.to_string(), size: Some(64) }).unwrap();
    assert_eq!(bytes, to_png(&render(LINK, 128).unwrap()).unwrap());
}

#[test]
fn fails_to_encode_an_image_that_is_not_a_square() {
    let image = RasterImage { side: 4, pixels: vec![0; 3] };
    assert_eq!(to_png(&image), Err(LinkError::RenderFailure));
    let image = RasterImage { side: 2, pixels: vec![0; 5] };
    assert_eq!(to_png(&image), Err(LinkError::RenderFailure));
    let image = RasterImage { side: u32::MAX, pixels: vec![0; 1] };
    assert_eq!(to_png(&image), Err(LinkError::RenderFailure));
}

#[test]
fn fails_to_encode_an_empty_image() {
    let image = RasterImage { side: 0, pixels: Vec::new() };
    assert_eq!(to_png(&image), Err(LinkError::RenderFailure));
}

#[test]
fn encodes_a_small_image() {
    let image = RasterImage { side: 2, pixels: vec![0, 255, 255, 0] };
    let bytes = to_png(&image).unwrap();
    let gray = image::load_from_memory(&bytes).unwrap().into_luma8();
    assert_eq!((gray.width(), gray.height()), (2, 2));
    assert_eq!(gray.into_raw(), vec![0, 255, 255, 0]);
}

#[test]
fn judges_the_bytes_of_a_file() {
    assert_eq!(check_file(None), Err(LinkError::RenderFailure));
    assert_eq!(check_file(Some(vec![1, 2, 3])), Ok(vec![1, 2, 3]));
    assert_eq!(check_file(Some(Vec::new())), Ok(Vec::new()));
}
