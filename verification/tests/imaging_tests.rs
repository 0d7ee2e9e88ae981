use favicon_fetcher::imaging::resize_image;
use favicon_fetcher::orchestrate::{build_reply, IconReply};

fn png_bytes(width: u32, height: u32) -> Vec<u8> {
    let img = image::DynamicImage::new_rgb8(width, height);
    let mut buf: Vec<u8> = Vec::new();
    img.write_to(&mut std::io::Cursor::new(&mut buf), image::ImageFormat::Png)
        .unwrap();
    buf
}

#[test]
fn resizing_a_64_square_png_to_16_yields_a_16_square_png() {
    let input = png_bytes(64, 64);
    let out = resize_image(&input, 16).unwrap();
    assert_eq!(image::guess_format(&out).unwrap(), image::ImageFormat::Png);
    let decoded = image::load_from_memory(&out).unwrap();
    assert_eq!(decoded.width(), 16);
    assert_eq!(decoded.height(), 16);
}

#[test]
fn resizing_ignores_the_aspect_ratio() {
    let input = png_bytes(64, 32);
    let out = resize_image(&input, 16).unwrap();
    let decoded = image::load_from_memory(&out).unwrap();
    assert_eq!(decoded.width(), 16);
    assert_eq!(decoded.height(), 16);
}

#[test]
fn garbage_bytes_do_not_resize() {
    assert!(resize_image(&[0, 1, 2, 3, 4, 5], 32).is_none());
}

#[test]
fn raster_reply_is_resized_png() {
    let input = png_bytes(64, 64);
    let reply = build_reply("image/png", input, 16).unwrap();
    assert_eq!(reply.content_type(), "image/png");
    match reply {
        IconReply::Png(bytes) => {
            let decoded = image::load_from_memory(&bytes).unwrap();
            assert_eq!(decoded.width(), 16);
            assert_eq!(decoded.height(), 16);
        },
        IconReply::Svg(_) => panic!("raster bytes must not come back as SVG"),
    }
}
