use image::ImageEncoder;
use deck::graphics::{ansi_halfblocks, encode_kitty_png, halfblock_cells, kitty_escape};

fn make_image(w: u32, h: u32) -> Vec<u8> {
    vec![0u8; (w * h * 4) as usize]
}

#[test]
fn encode_kitty_png_produces_base64() {
    let img = make_image(4, 4);
    let b64 = encode_kitty_png(&img, 4, 4);
    assert!(b64.is_some());
    let s = b64.unwrap();
    assert!(!s.is_empty());
    assert!(s.chars().all(|c| c.is_ascii_alphanumeric() || c == '+' || c == '/' || c == '='));
    // A PNG always starts with the bytes 89 50 4E 47: "iVBORw" in base64.
    assert!(s.starts_with("iVBORw"));
}

#[test]
fn halfblock_cells_pair_rows() {
    // 2x3 image: row 0 red/green, row 1 blue/yellow, row 2 white/black.
    let mut img = make_image(2, 3);
    let px = |img: &mut Vec<u8>, x: usize, y: usize, c: [u8; 3]| {
        let i = (y * 2 + x) * 4;
        img[i] = c[0];
        img[i + 1] = c[1];
        img[i + 2] = c[2];
        img[i + 3] = 255;
    };
    px(&mut img, 0, 0, [255, 0, 0]);
    px(&mut img, 1, 0, [0, 255, 0]);
    px(&mut img, 0, 1, [0, 0, 255]);
    px(&mut img, 1, 1, [255, 255, 0]);
    px(&mut img, 0, 2, [255, 255, 255]);
    px(&mut img, 1, 2, [0, 0, 0]);
    let cells = halfblock_cells(&img, 2, 3, 10, 10);
    assert_eq!(cells.len(), 2);
    assert_eq!(cells[0][0], ((255, 0, 0), (0, 0, 255)));
    assert_eq!(cells[0][1], ((0, 255, 0), (255, 255, 0)));
    // The last pixel row has no partner: its colour fills both halves.
    assert_eq!(cells[1][0], ((255, 255, 255), (255, 255, 255)));
    let clipped = halfblock_cells(&img, 2, 3, 1, 1);
    assert_eq!(clipped, vec![vec![((255, 0, 0), (0, 0, 255))]]);
}

#[test]
fn ansi_halfblocks_text() {
    let mut img = make_image(1, 2);
    img[0] = 1;
    img[1] = 2;
    img[2] = 3;
    img[4] = 4;
    img[5] = 5;
    img[6] = 6;
    let s = ansi_halfblocks(&img, 1, 2, 4, 9, 80, 24);
    assert_eq!(s, "\x1b[10;5H\x1b[38;2;1;2;3;48;2;4;5;6m▀\x1b[0m");
    assert_eq!(ansi_halfblocks(&img, 1, 2, 0, 0, 80, 0), "\x1b[0m");
}

#[test]
fn kitty_escape_single_and_chunked() {
    let s = kitty_escape("QUJD", 2, 3, 10, 5);
    assert_eq!(s, "\x1b[4;3H\x1b_Ga=T,f=100,c=10,r=5;QUJD\x1b\\");
    let long = "A".repeat(4096 * 2 + 10);
    let s = kitty_escape(&long, 0, 0, 1, 1);
    let expected = format!(
        "\x1b[1;1H\x1b_Ga=T,f=100,c=1,r=1,m=1;{}\x1b\\\x1b_Gm=1;{}\x1b\\\x1b_Gm=0;{}\x1b\\",
        "A".repeat(4096),
        "A".repeat(4096),
        "A".repeat(10)
    );
    assert_eq!(s, expected);
    let exact = "B".repeat(4096);
    assert_eq!(kitty_escape(&exact, 0, 0, 1, 1), format!("\x1b[1;1H\x1b_Ga=T,f=100,c=1,r=1;{exact}\x1b\\"));
}

fn png_bytes(w: u32, h: u32, raw: &[u8]) -> Vec<u8> {
    let mut buf = Vec::new();
    image::codecs::png::PngEncoder::new(&mut buf)
        .write_image(raw, w, h, image::ExtendedColorType::Rgba8)
        .unwrap();
    buf
}

#[test]
fn decode_image_gives_rgba_pixels() {
    let raw = vec![255, 0, 0, 255, 0, 255, 0, 128];
    let png = png_bytes(2, 1, &raw);
    assert_eq!(deck::graphics::decode_image(&png), Some((2, 1, raw)));
}

#[test]
fn decode_image_refuses_oversized_and_garbage() {
    let raw = vec![0u8; (deck::graphics::MAX_IMAGE_DIM as usize + 1) * 4];
    let png = png_bytes(deck::graphics::MAX_IMAGE_DIM + 1, 1, &raw);
    assert_eq!(deck::graphics::decode_image(&png), None);
    assert_eq!(deck::graphics::decode_image(b"not an image"), None);
}
