use tetris::board::fresh_field;
use tetris::input::{key_map, KeyPress};
use tetris::piece::{KeyMap, Piece};
use tetris::screen::{
    blank_screen, decimal_text, draw_field, draw_piece, glyph_of, lay_out, print, score_text,
    sprite, title_text,
};

#[test]
fn glyphs_of_the_ten_codes() {
    let codes = ['0', '1', '2', '3', '4', '5', '6', '7', '8', '9'];
    let glyphs = [' ', 'A', 'B', 'C', 'D', 'E', 'F', 'G', '=', '#'];
    for (code, glyph) in codes.iter().zip(glyphs.iter()) {
        assert_eq!(glyph_of(*code), *glyph);
    }
}

#[test]
fn sprite_reads_the_cell_at_column_and_row() {
    let mut field = fresh_field();
    field[3 * 12 + 7] = '4';
    field[4 * 12 + 7] = '8';
    assert_eq!(sprite(7, 3, &field), 'D');
    assert_eq!(sprite(7, 4, &field), '=');
    assert_eq!(sprite(3, 7, &field), ' ');
    assert_eq!(sprite(0, 0, &field), '#');
    assert_eq!(sprite(5, 17, &field), '#');
}

#[test]
fn print_overwrites_from_the_position_on() {
    let mut buffer = vec!['.'; 12];
    print(3, "abc", &mut buffer);
    let text: String = buffer.iter().collect();
    assert_eq!(text, "...abc......");
    print(9, "xyz", &mut buffer);
    print(0, "", &mut buffer);
    let text: String = buffer.iter().collect();
    assert_eq!(text, "...abc...xyz");
}

#[test]
fn decimal_text_of_some_numbers() {
    assert_eq!(decimal_text(0), "0");
    assert_eq!(decimal_text(7), "7");
    assert_eq!(decimal_text(10), "10");
    assert_eq!(decimal_text(1625), "1625");
    assert_eq!(decimal_text(u64::MAX), "18446744073709551615");
}

#[test]
fn score_line_has_two_spaces_after_the_colon() {
    assert_eq!(score_text(0), "Score:  0");
    assert_eq!(score_text(225), "Score:  225");
    assert_eq!(title_text(), "TETRIS!");
}

#[test]
fn field_is_drawn_two_columns_and_two_rows_in() {
    let mut field = fresh_field();
    field[16 * 12 + 1] = '2';
    let mut screen = blank_screen();
    assert_eq!(screen.len(), 1250);
    screen[0] = '?';
    draw_field(&field, &mut screen);
    assert_eq!(screen[0], '?');
    assert_eq!(screen[2 * 50 + 2], '#');
    assert_eq!(screen[2 * 50 + 3], ' ');
    assert_eq!(screen[2 * 50 + 13], '#');
    assert_eq!(screen[2 * 50 + 14], ' ');
    assert_eq!(screen[18 * 50 + 3], 'B');
    assert_eq!(screen[19 * 50 + 7], '#');
    assert_eq!(screen[20 * 50 + 7], ' ');
    assert_eq!(screen.iter().filter(|&&c| c == '#').count(), 18 + 18 + 10);
}

#[test]
fn piece_is_drawn_in_the_glyph_of_its_shape() {
    let mut screen = blank_screen();
    draw_piece(Piece { shape: 6, rotation: 0, x: 4, y: 1 }, &mut screen);
    let mut drawn = Vec::new();
    for (k, c) in screen.iter().enumerate() {
        if *c != ' ' {
            assert_eq!(*c, 'G');
            drawn.push((k % 50, k / 50));
        }
    }
    assert_eq!(drawn, vec![(8, 3), (8, 4), (7, 5), (8, 5)]);
}

#[test]
fn frame_text_breaks_after_every_fifty_characters() {
    let mut screen = blank_screen();
    print(5, title_text(), &mut screen);
    print(66, &score_text(25), &mut screen);
    screen[1249] = '$';
    let text: String = lay_out(&screen).iter().collect();
    let lines: Vec<&str> = text.split('\n').collect();
    assert_eq!(lines.len(), 26);
    assert_eq!(lines[25], "");
    for line in &lines[..25] {
        assert_eq!(line.chars().count(), 50);
    }
    assert_eq!(&lines[0][5..12], "TETRIS!");
    assert_eq!(&lines[1][16..25], "Score:  2");
    assert_eq!(&lines[1][25..26], "5");
    assert!(lines[24].ends_with('$'));
}

#[test]
fn each_event_latches_at_most_one_key() {
    let none = KeyMap { rotate: false, left: false, right: false, down: false };
    assert_eq!(key_map(None), none);
    assert_eq!(key_map(Some(KeyPress::Other)), none);
    assert_eq!(key_map(Some(KeyPress::Letter('x'))), none);
    assert_eq!(key_map(Some(KeyPress::Letter('Z'))), none);
    assert_eq!(key_map(Some(KeyPress::Left)), KeyMap { left: true, ..none });
    assert_eq!(key_map(Some(KeyPress::Right)), KeyMap { right: true, ..none });
    assert_eq!(key_map(Some(KeyPress::Down)), KeyMap { down: true, ..none });
    assert_eq!(key_map(Some(KeyPress::Letter('z'))), KeyMap { rotate: true, ..none });
}
