use vga_text::{Buffer, Color, ColorCode, ScreenChar, Writer, BUFFER_HEIGHT, BUFFER_WIDTH};

const ALL: [Color; 16] = [
    Color::Black,
    Color::Blue,
    Color::Green,
    Color::Cyan,
    Color::Red,
    Color::Magenta,
    Color::Brown,
    Color::LightGray,
    Color::DarkGray,
    Color::LightBlue,
    Color::LightGreen,
    Color::LightCyan,
    Color::LightRed,
    Color::Pink,
    Color::Yellow,
    Color::White,
];

fn writer(color: ColorCode) -> Writer {
    let buffer: &'static mut Buffer = Box::leak(Box::new(Buffer::blank(color)));
    Writer::new(buffer, color)
}

fn cell(w: &Writer, row: usize, col: usize) -> (u8, u8) {
    let c: ScreenChar = w.buffer.read(row, col);
    (c.ascii_character, c.color_code.as_byte())
}

fn row_text(w: &Writer, row: usize) -> Vec<u8> {
    (0..BUFFER_WIDTH).map(|c| cell(w, row, c).0).collect()
}

fn row_is_blank(w: &Writer, row: usize, color: u8) -> bool {
    (0..BUFFER_WIDTH).all(|c| cell(w, row, c) == (b' ', color))
}

#[test]
fn color_codes_pack_background_high() {
    assert_eq!(ColorCode::new(Color::Yellow, Color::Black).as_byte(), 0x0e);
    assert_eq!(ColorCode::new(Color::White, Color::Blue).as_byte(), 0x1f);
    assert_eq!(ColorCode::new(Color::Black, Color::White).as_byte(), 0xf0);
}

#[test]
fn color_round_trip_all_pairs() {
    for fg in ALL {
        for bg in ALL {
            let code = ColorCode::new(fg, bg);
            assert_eq!(code.foreground(), fg);
            assert_eq!(code.background(), bg);
        }
    }
}

#[test]
fn color_values_are_hardware_codes() {
    for (i, c) in ALL.iter().enumerate() {
        assert_eq!(c.value() as usize, i);
        assert_eq!(Color::from_code(i as u8), *c);
    }
}

#[test]
fn new_writer_starts_at_last_row() {
    let w = writer(ColorCode::new(Color::Yellow, Color::Black));
    assert_eq!(w.row(), BUFFER_HEIGHT - 1);
    assert_eq!(w.column(), 0);
}

#[test]
fn blank_buffer_holds_spaces_in_color() {
    let color = ColorCode::new(Color::Green, Color::Red);
    let w = writer(color);
    for r in 0..BUFFER_HEIGHT {
        assert!(row_is_blank(&w, r, color.as_byte()));
    }
}

#[test]
fn buffer_write_then_read() {
    let color = ColorCode::new(Color::White, Color::Black);
    let mut b = Buffer::blank(color);
    let c = ScreenChar { ascii_character: b'Z', color_code: ColorCode::new(Color::Red, Color::Blue) };
    b.write(3, 7, c);
    assert_eq!(b.read(3, 7), c);
    assert_eq!(b.read(3, 8).ascii_character, b' ');
}

#[test]
fn printable_bytes_are_kept() {
    let color = ColorCode::new(Color::Yellow, Color::Black);
    let mut w = writer(color);
    let text: String = (0x20u8..=0x4eu8).map(|b| b as char).collect();
    w.write_string(&text);
    for (i, b) in text.bytes().enumerate() {
        assert_eq!(cell(&w, 24, i), (b, color.as_byte()));
    }
    assert_eq!(w.column(), text.len());
    let text2: String = (0x4fu8..=0x7eu8).map(|b| b as char).collect();
    w.write_string("\n");
    w.write_string(&text2);
    for (i, b) in text2.bytes().enumerate() {
        assert_eq!(cell(&w, 24, i), (b, color.as_byte()));
    }
}

#[test]
fn non_printable_bytes_become_placeholder() {
    let color = ColorCode::new(Color::Yellow, Color::Black);
    let mut w = writer(color);
    w.write_string("a\tb\u{7f}\u{e9}");
    let row = row_text(&w, 24);
    assert_eq!(&row[..6], &[b'a', 0xfe, b'b', 0xfe, 0xfe, 0xfe]);
    assert_eq!(w.column(), 6);
}

#[test]
fn control_byte_renders_placeholder() {
    let color = ColorCode::new(Color::Yellow, Color::Black);
    let mut w = writer(color);
    w.write_string("\u{1}");
    assert_eq!(cell(&w, 24, 0), (0xfe, color.as_byte()));
    assert_eq!(w.column(), 1);
}

#[test]
fn hi_newline_scrolls() {
    let color = ColorCode::new(Color::Yellow, Color::Black);
    let mut w = writer(color);
    w.write_string("Hi");
    assert_eq!(cell(&w, 24, 0), (b'H', color.as_byte()));
    assert_eq!(cell(&w, 24, 1), (b'i', color.as_byte()));
    assert_eq!(cell(&w, 24, 2), (b' ', color.as_byte()));
    w.write_string("\n");
    assert_eq!(cell(&w, 23, 0), (b'H', color.as_byte()));
    assert_eq!(cell(&w, 23, 1), (b'i', color.as_byte()));
    for c in 2..BUFFER_WIDTH {
        assert_eq!(cell(&w, 23, c), (b' ', color.as_byte()));
    }
    assert!(row_is_blank(&w, 24, color.as_byte()));
    assert_eq!(w.column(), 0);
    assert_eq!(w.row(), 24);
}

#[test]
fn hi_newline_in_one_call() {
    let color = ColorCode::new(Color::Yellow, Color::Black);
    let mut w = writer(color);
    w.write_string("Hi\n");
    let mut expected = vec![b' '; BUFFER_WIDTH];
    expected[0] = b'H';
    expected[1] = b'i';
    assert_eq!(row_text(&w, 23), expected);
    assert!(row_is_blank(&w, 24, color.as_byte()));
    assert_eq!(w.column(), 0);
}

#[test]
fn full_line_wraps_and_scrolls() {
    let color = ColorCode::new(Color::LightGreen, Color::Black);
    let mut w = writer(color);
    let text: String = (0..BUFFER_WIDTH).map(|i| (b'a' + (i % 26) as u8) as char).collect();
    w.write_string(&text);
    assert_eq!(row_text(&w, 23), text.as_bytes().to_vec());
    assert!(row_is_blank(&w, 24, color.as_byte()));
    assert_eq!(w.column(), 0);
}

#[test]
fn seventy_nine_bytes_do_not_wrap() {
    let color = ColorCode::new(Color::LightGreen, Color::Black);
    let mut w = writer(color);
    let text: String = "x".repeat(BUFFER_WIDTH - 1);
    w.write_string(&text);
    assert_eq!(w.column(), BUFFER_WIDTH - 1);
    assert!(row_is_blank(&w, 23, color.as_byte()));
    assert_eq!(cell(&w, 24, BUFFER_WIDTH - 2), (b'x', color.as_byte()));
    assert_eq!(cell(&w, 24, BUFFER_WIDTH - 1), (b' ', color.as_byte()));
}

#[test]
fn write_byte_stores_and_advances() {
    let color = ColorCode::new(Color::Cyan, Color::Black);
    let mut w = writer(color);
    w.write_byte(b'Q');
    assert_eq!(cell(&w, 24, 0), (b'Q', color.as_byte()));
    assert_eq!(w.column(), 1);
    w.write_byte(b'\n');
    assert_eq!(cell(&w, 23, 0), (b'Q', color.as_byte()));
    assert_eq!(w.column(), 0);
}

#[test]
fn new_line_moves_every_row_up() {
    let color = ColorCode::new(Color::White, Color::Black);
    let mut w = writer(color);
    for r in 0..5u8 {
        w.write_string(&format!("row{}\n", r));
    }
    w.write_string("tail");
    let before: Vec<Vec<(u8, u8)>> = (0..BUFFER_HEIGHT)
        .map(|r| (0..BUFFER_WIDTH).map(|c| cell(&w, r, c)).collect())
        .collect();
    w.color_code = ColorCode::new(Color::Red, Color::Blue);
    w.new_line();
    for r in 0..BUFFER_HEIGHT - 1 {
        for c in 0..BUFFER_WIDTH {
            assert_eq!(cell(&w, r, c), before[r + 1][c]);
        }
    }
    assert!(row_is_blank(&w, 24, w.color_code.as_byte()));
    assert_eq!(w.column(), 0);
}

#[test]
fn new_line_on_blank_grid_is_unchanged() {
    let color = ColorCode::new(Color::Yellow, Color::Black);
    let mut w = writer(color);
    for _ in 0..30 {
        w.new_line();
    }
    for r in 0..BUFFER_HEIGHT {
        assert!(row_is_blank(&w, r, color.as_byte()));
    }
    assert_eq!(w.column(), 0);
}
