use kernel::framebuffer::{init, FrameBufferInfo, PixelFormat, Writer};

fn gray_info(width: usize, height: usize) -> FrameBufferInfo {
    FrameBufferInfo {
        byte_len: width * height,
        width,
        height,
        pixel_format: PixelFormat::U8,
        bytes_per_pixel: 1,
        stride: width,
    }
}

fn gray_writer(width: usize, height: usize) -> Writer {
    init(vec![0xAAu8; width * height], gray_info(width, height))
}

#[test]
fn init_clears_the_screen() {
    let w = gray_writer(20, 40);
    assert!(w.buffer().iter().all(|&b| b == 0));
    assert_eq!(w.cursor(), (0, 0));
}

#[test]
fn question_mark_glyph_is_drawn_at_the_cursor() {
    let mut w = gray_writer(20, 40);
    w.write_char('?');
    let buf = w.buffer();
    // Row 3 of the 16 px regular '?' glyph.
    assert_eq!(&buf[3 * 20..3 * 20 + 7], &[0, 152, 218, 222, 175, 19, 0]);
    // Nothing is drawn right of the glyph cell.
    assert!(buf[7..20].iter().all(|&b| b == 0));
    assert_eq!(w.cursor(), (7, 0));
}

#[test]
fn space_draws_nothing_but_advances() {
    let mut w = gray_writer(20, 40);
    w.write_char(' ');
    assert!(w.buffer().iter().all(|&b| b == 0));
    assert_eq!(w.cursor(), (7, 0));
}

#[test]
fn unknown_char_is_drawn_as_question_mark() {
    let mut a = gray_writer(20, 40);
    let mut b = gray_writer(20, 40);
    a.write_char('é');
    b.write_char('?');
    assert_eq!(a.buffer(), b.buffer());
    assert_eq!(a.cursor(), b.cursor());
}

#[test]
fn carriage_return_is_ignored() {
    let mut w = gray_writer(20, 40);
    w.write_char('x');
    let before = w.buffer().clone();
    w.write_char('\r');
    assert_eq!(w.buffer(), &before);
    assert_eq!(w.cursor(), (7, 0));
}

#[test]
fn newline_moves_down_then_wraps_and_clears() {
    let mut w = gray_writer(20, 40);
    w.write_char('x');
    w.write_char('\n');
    assert_eq!(w.cursor(), (0, 16));
    assert!(w.buffer().iter().any(|&b| b != 0));
    // A third line would not fit below the second: the screen is cleared.
    w.write_char('\n');
    assert_eq!(w.cursor(), (0, 0));
    assert!(w.buffer().iter().all(|&b| b == 0));
}

#[test]
fn character_that_does_not_fit_wraps_to_next_line() {
    let mut w = gray_writer(20, 40);
    w.write_str("ab");
    assert_eq!(w.cursor(), (14, 0));
    w.write_char('c');
    assert_eq!(w.cursor(), (7, 16));
}

#[test]
fn rgb_pixels_get_three_bytes() {
    let info = FrameBufferInfo {
        byte_len: 8 * 16 * 4,
        width: 8,
        height: 16,
        pixel_format: PixelFormat::Bgr,
        bytes_per_pixel: 4,
        stride: 8,
    };
    let mut w = init(vec![0u8; 8 * 16 * 4], info);
    w.write_char('?');
    let buf = w.buffer();
    let px = (3 * 8 + 1) * 4;
    assert_eq!(&buf[px..px + 4], &[152, 152, 152, 0]);
}

#[test]
fn test_println_simple() {
    let mut w = gray_writer(640, 480);
    w.write_str("test_println_simple output\n");
    assert_eq!(w.cursor(), (0, 16));
    assert!(w.buffer().iter().any(|&b| b != 0));
}

#[test]
fn test_println_many() {
    let mut w = gray_writer(320, 64);
    for _ in 0..200 {
        w.write_str("test_println_many output\n");
        let (_, y) = w.cursor();
        assert!(y + 16 <= 64);
    }
    assert_eq!(w.buffer().len(), 320 * 64);
}
