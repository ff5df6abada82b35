use blog_os::vga_buffer::{
    Color, ColorCode, ScreenChar, Writer, BUFFER_HEIGHT, BUFFER_WIDTH, UNPRINTABLE,
};

fn row_text(writer: &Writer, row: usize) -> String {
    (0..BUFFER_WIDTH).map(|col| writer.read(row, col).ascii_character as char).collect()
}

#[test]
fn color_numbers() {
    assert_eq!(Color::Black.as_u8(), 0);
    assert_eq!(Color::Blue.as_u8(), 1);
    assert_eq!(Color::LightGray.as_u8(), 7);
    assert_eq!(Color::DarkGray.as_u8(), 8);
    assert_eq!(Color::Yellow.as_u8(), 14);
    assert_eq!(Color::White.as_u8(), 15);
}

#[test]
fn color_code_packs_background_and_foreground() {
    assert_eq!(ColorCode::new(Color::Yellow, Color::Black), ColorCode(0x0e));
    assert_eq!(ColorCode::new(Color::White, Color::Blue), ColorCode(0x1f));
    assert_eq!(ColorCode::new(Color::Black, Color::White), ColorCode(0xf0));
    assert_eq!(ColorCode::new(Color::LightRed, Color::Magenta), ColorCode(0x5c));
}

#[test]
fn new_writer_has_a_blank_screen() {
    let color = ColorCode::new(Color::Yellow, Color::Black);
    let writer = Writer::new(color);
    assert_eq!((BUFFER_HEIGHT, BUFFER_WIDTH), (25, 80));
    assert_eq!(writer.column_position(), 0);
    for row in 0..BUFFER_HEIGHT {
        for col in 0..BUFFER_WIDTH {
            assert_eq!(
                writer.read(row, col),
                ScreenChar { ascii_character: b' ', color_code: color }
            );
        }
    }
}

#[test]
fn write_byte_fills_the_last_row() {
    let color = ColorCode::new(Color::Yellow, Color::Black);
    let mut writer = Writer::new(color);
    writer.write_byte(b'H');
    writer.write_byte(b'i');
    assert_eq!(writer.column_position(), 2);
    assert_eq!(writer.read(24, 0), ScreenChar { ascii_character: b'H', color_code: color });
    assert_eq!(writer.read(24, 1), ScreenChar { ascii_character: b'i', color_code: color });
    assert_eq!(writer.read(24, 2).ascii_character, b' ');
    assert_eq!(writer.read(23, 0).ascii_character, b' ');
}

#[test]
fn newline_moves_the_rows_up() {
    let mut writer = Writer::new(ColorCode::new(Color::White, Color::Blue));
    writer.write_string("one\ntwo\n");
    writer.write_string("three");
    assert_eq!(row_text(&writer, 22).trim_end(), "one");
    assert_eq!(row_text(&writer, 23).trim_end(), "two");
    assert_eq!(row_text(&writer, 24).trim_end(), "three");
    assert_eq!(row_text(&writer, 21).trim_end(), "");
    assert_eq!(writer.column_position(), 5);
    writer.write_byte(b'\n');
    assert_eq!(writer.column_position(), 0);
    assert_eq!(row_text(&writer, 21).trim_end(), "one");
    assert_eq!(row_text(&writer, 24).trim_end(), "");
    assert_eq!(writer.read(24, 0).color_code, ColorCode(0x1f));
}

#[test]
fn a_full_row_breaks_before_the_next_byte() {
    let mut writer = Writer::new(ColorCode::new(Color::Yellow, Color::Black));
    for _ in 0..80 {
        writer.write_byte(b'x');
    }
    assert_eq!(writer.column_position(), 80);
    assert_eq!(row_text(&writer, 24), "x".repeat(80));
    writer.write_byte(b'y');
    assert_eq!(writer.column_position(), 1);
    assert_eq!(row_text(&writer, 23), "x".repeat(80));
    assert_eq!(row_text(&writer, 24).trim_end(), "y");
}

#[test]
fn the_first_row_leaves_the_screen() {
    let mut writer = Writer::new(ColorCode::new(Color::Yellow, Color::Black));
    for line in 0..30 {
        writer.write_string(&format!("line {}\n", line));
    }
    // 30 line breaks: the last 24 lines are on the screen, above a blank row
    assert_eq!(row_text(&writer, 0).trim_end(), "line 6");
    assert_eq!(row_text(&writer, 23).trim_end(), "line 29");
    assert_eq!(row_text(&writer, 24).trim_end(), "");
}

#[test]
fn write_string_marks_what_cannot_be_printed() {
    let mut writer = Writer::new(ColorCode::new(Color::Yellow, Color::Black));
    writer.write_string("Wörld~\t!");
    assert_eq!(UNPRINTABLE, 0xfe);
    let bytes: Vec<u8> = (0..10).map(|col| writer.read(24, col).ascii_character).collect();
    // `ö` is two bytes in UTF-8, the tabulator is a control character
    assert_eq!(bytes, [b'W', 0xfe, 0xfe, b'r', b'l', b'd', b'~', 0xfe, b'!', b' ']);
    assert_eq!(writer.column_position(), 9);
}

#[test]
fn hello_world() {
    let mut writer = Writer::new(ColorCode::new(Color::Yellow, Color::Black));
    writer.write_string("Hello World!\n");
    writer.write_string("It didn't crash");
    assert_eq!(row_text(&writer, 23).trim_end(), "Hello World!");
    assert_eq!(row_text(&writer, 24).trim_end(), "It didn't crash");
}
