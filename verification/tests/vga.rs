use libnedo::vga_buffer::{
    Character, Color, ColorInfo, Writer, BUFFER_HEIGHT, BUFFER_WIDTH,
};

fn all_colors() -> [Color; 16] {
    [
        Color::Black,
        Color::Blue,
        Color::Green,
        Color::Cyan,
        Color::Red,
        Color::Magenta,
        Color::Brown,
        Color::LightGray,
        Color::DarkGray,
        Color::LightBlue,
        Color::LightGreen,
        Color::LightCyan,
        Color::LightRed,
        Color::LightMagenta,
        Color::Yellow,
        Color::White,
    ]
}

#[test]
fn buffer_dimensions() {
    assert_eq!(BUFFER_WIDTH, 80);
    assert_eq!(BUFFER_HEIGHT, 25);
}

#[test]
fn color_pair_round_trip() {
    // every (background, foreground) pair reads back exactly
    for &bg in all_colors().iter() {
        for &fg in all_colors().iter() {
            let c = ColorInfo::pair(bg, fg);
            assert_eq!(c.bg(), bg);
            assert_eq!(c.fg(), fg);
        }
    }
}

#[test]
fn default_color_is_white_on_black() {
    let c = ColorInfo::new();
    assert_eq!(c.bg(), Color::Black);
    assert_eq!(c.fg(), Color::White);
    assert_eq!(ColorInfo::default(), c);
}

#[test]
fn with_bg_clears_stale_bits() {
    // a second background override must not leak bits of the first
    let c = ColorInfo::new().with_bg(Color::LightGray).with_bg(Color::Blue);
    assert_eq!(c.bg(), Color::Blue);
    assert_eq!(c.fg(), Color::White);
}

#[test]
fn with_fg_clears_stale_bits() {
    let c = ColorInfo::pair(Color::Red, Color::LightGray).with_fg(Color::Blue);
    assert_eq!(c.fg(), Color::Blue);
    assert_eq!(c.bg(), Color::Red);
}

#[test]
fn color_code_round_trip_all_sixteen() {
    for &c in all_colors().iter() {
        assert_eq!(Color::from_code(c.code()), c);
    }
}

#[test]
fn character_constructors() {
    let ch = Character::new(b'A');
    assert_eq!(ch.char, b'A');
    assert_eq!(ch.color, ColorInfo::default());
    let red = ColorInfo::pair(Color::Red, Color::White);
    let ch2 = Character::with_color(b'B', red);
    assert_eq!(ch2.char, b'B');
    assert_eq!(ch2.color, red);
}

#[test]
fn new_writer_starts_blank_top_left() {
    let w = Writer::new();
    assert_eq!(w.line, 0);
    assert_eq!(w.column, 0);
    assert_eq!(w.color, ColorInfo::default());
    for line in 0..BUFFER_HEIGHT {
        for column in 0..BUFFER_WIDTH {
            let cell = w.cell(line, column);
            assert_eq!(cell.char, b' ');
            assert_eq!(cell.color, ColorInfo::default());
        }
    }
}

#[test]
fn consecutive_writes_advance_column_only() {
    // N non-newline writes from (0,0) with N < WIDTH-1: column == N, line unchanged
    let mut w = Writer::new();
    let text = b"HELLO";
    w.write_bytes(text);
    assert_eq!(w.column, text.len());
    assert_eq!(w.line, 0);
    for (i, &b) in text.iter().enumerate() {
        assert_eq!(w.cell(0, i).char, b);
        assert_eq!(w.cell(0, i).color, ColorInfo::default());
    }
}

#[test]
fn newline_resets_column_and_advances_line() {
    let mut w = Writer::new();
    w.write_bytes(b"abc");
    assert_eq!((w.line, w.column), (0, 3));
    w.write_byte(b'\n');
    assert_eq!((w.line, w.column), (1, 0));
    // the newline glyph itself is never placed
    assert_eq!(w.cell(0, 3).char, b' ');
}

#[test]
fn newline_on_last_line_wraps_to_first() {
    let mut w = Writer::new();
    w.line = BUFFER_HEIGHT - 1;
    w.column = 5;
    w.write_byte(b'\n');
    assert_eq!((w.line, w.column), (0, 0));
}

#[test]
fn wrap_at_bottom_right_overwrites_first_cell() {
    // writer at (24,79): one more non-newline byte wraps the cursor to (0,0)
    // and overwrites cell (0,0) with the new character
    let mut w = Writer::new();
    w.line = BUFFER_HEIGHT - 1;
    w.column = BUFFER_WIDTH - 1;
    w.write_byte(b'X');
    assert_eq!((w.line, w.column), (0, 0));
    assert_eq!(w.cell(0, 0).char, b'X');
}

#[test]
fn wrap_in_last_column_places_on_next_line() {
    let mut w = Writer::new();
    w.line = 3;
    w.column = BUFFER_WIDTH - 1;
    w.write_byte(b'Z');
    assert_eq!((w.line, w.column), (4, 0));
    assert_eq!(w.cell(4, 0).char, b'Z');
}

#[test]
fn clear_color_fills_every_cell() {
    let mut w = Writer::new();
    w.write_bytes(b"some text\nmore text");
    let alert = ColorInfo::pair(Color::Red, Color::White);
    w.clear_color(alert);
    assert_eq!((w.line, w.column), (0, 0));
    assert_eq!(w.color, alert);
    for line in 0..BUFFER_HEIGHT {
        for column in 0..BUFFER_WIDTH {
            let cell = w.cell(line, column);
            assert_eq!(cell.char, b' ');
            assert_eq!(cell.color, alert);
        }
    }
}

#[test]
fn clear_reuses_cursor_color() {
    let green = ColorInfo::pair(Color::Black, Color::Green);
    let mut w = Writer::new().color(green);
    w.write_bytes(b"log line");
    w.clear();
    assert_eq!(w.color, green);
    assert_eq!((w.line, w.column), (0, 0));
    for column in 0..BUFFER_WIDTH {
        let cell = w.cell(0, column);
        assert_eq!(cell.char, b' ');
        assert_eq!(cell.color, green);
    }
}

#[test]
fn scoped_color_write_restores_previous_color() {
    let base = ColorInfo::pair(Color::Black, Color::Yellow);
    let alert = ColorInfo::pair(Color::Red, Color::White);
    let mut w = Writer::new().color(base);
    w.write_bytes_color(alert, b"hot");
    // the writer's color is back to what it was before the call
    assert_eq!(w.color, base);
    // but the bytes were written in the override color
    assert_eq!((w.line, w.column), (0, 3));
    assert_eq!(w.cell(0, 0).char, b'h');
    assert_eq!(w.cell(0, 0).color, alert);
    assert_eq!(w.cell(0, 2).char, b't');
    assert_eq!(w.cell(0, 2).color, alert);
}

#[test]
fn scenario_write_ab_newline() {
    // writer at (0,0), default color, write "AB\n"
    let mut w = Writer::new();
    w.write_bytes(b"AB\n");
    assert_eq!(w.cell(0, 0).char, b'A');
    assert_eq!(w.cell(0, 0).color, ColorInfo::default());
    assert_eq!(w.cell(0, 1).char, b'B');
    assert_eq!(w.cell(0, 1).color, ColorInfo::default());
    assert_eq!((w.line, w.column), (1, 0));
}

#[test]
fn writer_color_builder_keeps_cursor_and_grid() {
    let mut w = Writer::new();
    w.write_bytes(b"kept");
    let cyan = ColorInfo::pair(Color::Black, Color::Cyan);
    let w = w.color(cyan);
    assert_eq!(w.color, cyan);
    assert_eq!((w.line, w.column), (0, 4));
    assert_eq!(w.cell(0, 0).char, b'k');
}

#[test]
fn write_character_disregards_cursor_color() {
    let mut w = Writer::new();
    let red = ColorInfo::pair(Color::Red, Color::White);
    w.write_character(Character::with_color(b'Q', red));
    assert_eq!(w.cell(0, 0).char, b'Q');
    assert_eq!(w.cell(0, 0).color, red);
    // the cursor color itself is untouched
    assert_eq!(w.color, ColorInfo::default());
}

#[test]
fn write_byte_uses_cursor_color() {
    let blue = ColorInfo::pair(Color::Blue, Color::White);
    let mut w = Writer::new().color(blue);
    w.write_byte(b'#');
    assert_eq!(w.cell(0, 0).char, b'#');
    assert_eq!(w.cell(0, 0).color, blue);
}

#[test]
fn full_screen_of_newlines_returns_to_start() {
    let mut w = Writer::new();
    for _ in 0..BUFFER_HEIGHT {
        w.write_byte(b'\n');
    }
    assert_eq!((w.line, w.column), (0, 0));
}
