use meeting_room_display::bmp::{
    blank_canvas, centred_box, draw_border, frame_bmp, generate_hello_world_bmp, ImageConfig, BLACK,
    WHITE,
};

#[test]
fn test_generate_bmp_with_default_config() {
    let result = generate_hello_world_bmp();
    assert!(result.is_ok());
    let bmp_data = result.unwrap();
    assert!(!bmp_data.is_empty());
}

#[test]
fn hello_world_bmp_is_an_800_by_480_bitmap() {
    let data = generate_hello_world_bmp().unwrap();
    assert_eq!(&data[0..2], b"BM");
    let width = i32::from_le_bytes([data[18], data[19], data[20], data[21]]);
    let height = i32::from_le_bytes([data[22], data[23], data[24], data[25]]);
    assert_eq!((width, height), (800, 480));
}

#[test]
fn default_config_values() {
    let c = ImageConfig::default();
    assert_eq!((c.width, c.height, c.font_size, c.border_padding), (800, 480, 50, 20));
    assert_eq!(c.font_path, "assets/fonts/BlockKie.ttf");
    assert_eq!(c.text, "hello world");
}

#[test]
fn border_is_drawn_and_clipped() {
    let (w, h) = (6u32, 5u32);
    let mut img = blank_canvas(w, h);
    assert_eq!(img.len(), 30);
    draw_border(&mut img, 1, 1, 3, 2, w, h);
    let black: Vec<(u32, u32)> = (0..h)
        .flat_map(|y| (0..w).map(move |x| (x, y)))
        .filter(|&(x, y)| img[(y * w + x) as usize] == BLACK)
        .collect();
    // rows 1 and 3 over columns 1..=3, columns 1 and 4 over rows 1..=2
    let expected = vec![(1, 1), (2, 1), (3, 1), (4, 1), (1, 2), (4, 2), (1, 3), (2, 3), (3, 3)];
    assert_eq!(black, expected);

    let mut clipped = blank_canvas(4, 4);
    draw_border(&mut clipped, -2, -2, 4, 10, 4, 4);
    assert!(clipped.iter().enumerate().all(|(i, &p)| (p == BLACK) == (i % 4 == 2)));
    assert!(clipped.iter().all(|&p| p == BLACK || p == WHITE));
}

#[test]
fn framed_bitmap_encodes() {
    let config = ImageConfig { width: 40, height: 20, border_padding: 2, ..ImageConfig::default() };
    let img = blank_canvas(40, 20);
    let text = centred_box(40, 20);
    assert_eq!((text.x, text.y, text.width, text.height), (20, 10, 0, 0));
    let data = frame_bmp(img, &config, text).ok().unwrap();
    assert_eq!(&data[0..2], b"BM");
}

#[test]
fn hello_world_bmp_holds_the_frame() {
    let data = generate_hello_world_bmp().unwrap();
    let offset = u32::from_le_bytes([data[10], data[11], data[12], data[13]]) as usize;
    // rows are stored bottom-up, 800 one-byte pixels each
    let at = |x: usize, y: usize| data[offset + (479 - y) * 800 + x];
    assert_eq!(at(380, 220), BLACK);
    assert_eq!(at(419, 220), BLACK);
    assert_eq!(at(380, 260), BLACK);
    assert_eq!(at(420, 259), BLACK);
    assert_eq!(at(420, 260), WHITE);
    assert_eq!(at(400, 240), WHITE);
    assert_eq!(at(0, 0), WHITE);
    assert_eq!(data.len(), offset + 800 * 480);
}
