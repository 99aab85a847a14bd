use aetheria::assets::Texture;
use std::io::Cursor;

fn png_bytes(width: u32, height: u32, rgba: Vec<u8>) -> Vec<u8> {
    let buffer = image::RgbaImage::from_raw(width, height, rgba).unwrap();
    let mut bytes = Vec::new();
    image::DynamicImage::ImageRgba8(buffer)
        .write_to(&mut Cursor::new(&mut bytes), image::ImageOutputFormat::Png)
        .unwrap();
    bytes
}

#[test]
fn a_png_texture_is_read_as_rgba_pixels() {
    let pixels = vec![255, 0, 0, 255, 0, 255, 0, 128];
    let t = Texture::new("textures/grass.png", &png_bytes(2, 1, pixels.clone()));
    assert_eq!((t.width, t.height), (2, 1));
    assert_eq!(t.rgba, pixels);
    assert_eq!(t.path, "textures/grass.png");
}

#[test]
fn a_texture_compiles_to_qoi_under_out() {
    let pixels = vec![1, 2, 3, 255, 4, 5, 6, 255, 7, 8, 9, 255, 10, 11, 12, 255];
    let t = Texture::new("textures/stone.png", &png_bytes(2, 2, pixels.clone()));
    let (out, bytes) = t.compile();
    assert_eq!(out, "./out/textures/stone.qoi");
    assert_eq!(bytes, qoi::encode_to_vec(&pixels, 2, 2).unwrap());
    assert_eq!(&bytes[..4], b"qoif");
    assert_eq!(t.try_compile(), Some((out, bytes)));
}

#[test]
fn unreadable_bytes_make_no_texture() {
    assert!(Texture::try_new("bad.png", b"not an image").is_none());
    assert!(Texture::try_new("ok.png", &png_bytes(1, 1, vec![0, 0, 0, 0])).is_some());
}

#[test]
fn pixels_that_do_not_fit_the_size_do_not_compile() {
    let t = Texture { path: "x.png".to_owned(), width: 3, height: 3, rgba: vec![0; 8] };
    assert_eq!(t.try_compile(), None);
    let t = Texture { path: "dir/".to_owned(), width: 1, height: 1, rgba: vec![0; 4] };
    assert_eq!(t.try_compile(), None);
}
