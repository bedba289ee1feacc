use tt_toplike::keyboard::{
    child_args, encode_input, encode_key, resize_to, start_size, InputEvent, Key,
};
use tt_toplike::screen::Screen;
use tt_toplike::terminal::{
    ansi256_color, apply_sgr, brighten, default_fg, transparent, Cell, Pen, Rgba,
};

fn rgb(r: u8, g: u8, b: u8) -> Rgba {
    Rgba { r, g, b, a: 255 }
}

fn text_of(screen: &Screen, row: usize) -> String {
    screen.cells()[row].iter().map(|c| c.ch).collect()
}

fn print_all(screen: &mut Screen, s: &str) {
    for c in s.chars() {
        screen.print(c);
    }
}

#[test]
fn palette_colours() {
    assert_eq!(ansi256_color(0), rgb(0, 0, 0));
    assert_eq!(ansi256_color(1), rgb(170, 0, 0));
    assert_eq!(ansi256_color(7), rgb(170, 170, 170));
    assert_eq!(ansi256_color(8), rgb(85, 85, 85));
    assert_eq!(ansi256_color(12), rgb(85, 85, 255));
    assert_eq!(ansi256_color(16), rgb(0, 0, 0));
    assert_eq!(ansi256_color(196), rgb(255, 0, 0));
    assert_eq!(ansi256_color(67), rgb(95, 135, 175));
    assert_eq!(ansi256_color(232), rgb(8, 8, 8));
    assert_eq!(ansi256_color(255), rgb(238, 238, 238));
    assert_eq!(brighten(rgb(220, 0, 205)), rgb(255, 50, 255));
}

#[test]
fn graphic_renditions_move_the_pen() {
    let mut pen = Pen::default();
    apply_sgr(&mut pen, &[1, 4, 31, 44]);
    assert!(pen.bold && pen.underline);
    assert_eq!(pen.fg(), rgb(170, 0, 0));
    assert_eq!(pen.bg(), rgb(0, 0, 170));
    apply_sgr(&mut pen, &[38, 5, 196, 48, 2, 1, 2, 3, 22]);
    assert_eq!(pen.fg(), rgb(255, 0, 0));
    assert_eq!(pen.bg(), rgb(1, 2, 3));
    assert!(!pen.bold && pen.underline);
    apply_sgr(&mut pen, &[39, 49, 24]);
    assert_eq!((pen.fg(), pen.bg()), (default_fg(), transparent()));
    apply_sgr(&mut pen, &[91]);
    assert_eq!(pen.fg(), rgb(255, 85, 85));
    apply_sgr(&mut pen, &[]);
    assert_eq!(pen.fg(), rgb(255, 85, 85));
    apply_sgr(&mut pen, &[0]);
    assert_eq!(pen, Pen::default());
}

#[test]
fn cells_are_drawn() {
    let mut cell = Cell::default();
    assert_eq!(cell.background(), None);
    assert_eq!(cell.glyph(), None);
    cell.ch = 'x';
    cell.fg = rgb(10, 20, 30);
    cell.bg = rgb(1, 1, 1);
    cell.bold = true;
    cell.underline = true;
    assert_eq!(cell.background(), Some(rgb(1, 1, 1)));
    let g = cell.glyph().unwrap();
    assert_eq!((g.ch, g.color), ('x', rgb(60, 70, 80)));
    assert_eq!(g.underline, Some(rgb(10, 20, 30)));
}

#[test]
fn printing_wraps_and_scrolls() {
    let mut s = Screen::new(3, 2);
    print_all(&mut s, "abc");
    assert_eq!(text_of(&s, 0), "abc");
    assert_eq!(text_of(&s, 1), "   ");
    print_all(&mut s, "de");
    assert_eq!(text_of(&s, 1), "de ");
    print_all(&mut s, "fg");
    assert_eq!(text_of(&s, 0), "def");
    assert_eq!(text_of(&s, 1), "g  ");
    s.scroll_up();
    assert_eq!(text_of(&s, 0), "g  ");
    assert_eq!(text_of(&s, 1), "   ");
}

#[test]
fn control_bytes_move_the_cursor() {
    let mut s = Screen::new(20, 3);
    print_all(&mut s, "ab");
    s.execute(b'\r');
    s.print('X');
    assert_eq!(text_of(&s, 0).trim_end(), "Xb");
    s.execute(b'\n');
    s.print('Y');
    assert_eq!(text_of(&s, 1).trim_end(), " Y");
    s.execute(0x08);
    s.print('Z');
    assert_eq!(text_of(&s, 1).trim_end(), " Z");
    // Other control bytes do nothing.
    s.execute(0x07);
    s.print('T');
    assert_eq!(text_of(&s, 1).trim_end(), " ZT");
    s.execute(b'\n');
    s.execute(b'\n');
    assert_eq!(text_of(&s, 0).trim_end(), " ZT");
    assert_eq!(s.cursor(), (3, 2));
}

#[test]
fn sequences_edit_the_screen() {
    let mut s = Screen::new(5, 3);
    print_all(&mut s, "abcdefghij");
    s.csi_dispatch(&[2, 3], &[], 'H');
    assert_eq!(s.cursor(), (2, 1));
    s.csi_dispatch(&[], &[], 'K');
    assert_eq!(text_of(&s, 1), "fg   ");
    s.csi_dispatch(&[], &[], 'A');
    s.csi_dispatch(&[1], &[], 'K');
    assert_eq!(text_of(&s, 0), "   de");
    s.csi_dispatch(&[2], &[], 'J');
    assert_eq!(text_of(&s, 0), "     ");
    s.csi_dispatch(&[31], &[], 'm');
    s.csi_dispatch(&[99, 99], &[], 'H');
    s.print('!');
    assert_eq!(s.cells()[2][4].fg, rgb(170, 0, 0));
    s.csi_dispatch(&[1, 1], &[], 'H');
    print_all(&mut s, "one");
    s.csi_dispatch(&[2], &[], 'L');
    assert_eq!(text_of(&s, 2), "one  ");
    s.csi_dispatch(&[], &[], 'M');
    assert_eq!(text_of(&s, 1), "one  ");
    s.csi_dispatch(&[], &[], 'S');
    assert_eq!(text_of(&s, 0), "one  ");
    s.esc_dispatch(b'M');
    assert_eq!(text_of(&s, 0), "     ");
    assert_eq!(text_of(&s, 1), "one  ");
}

#[test]
fn the_cursor_is_saved_and_restored() {
    let mut s = Screen::new(10, 10);
    s.csi_dispatch(&[4, 6], &[], 'H');
    s.esc_dispatch(b'7');
    s.csi_dispatch(&[1, 1], &[], 'H');
    s.esc_dispatch(b'8');
    assert_eq!(s.cursor(), (5, 3));
    s.resize(4, 2);
    assert_eq!(s.cells().len(), 2);
    assert!(s.cells().iter().all(|r| r.len() == 4));
    assert_eq!(s.cursor(), (3, 1));
}

#[test]
fn keys_have_their_encodings() {
    assert_eq!(encode_key(Key::Enter, false), Some(vec![0x0d]));
    assert_eq!(encode_key(Key::Tab, false), Some(vec![0x09]));
    assert_eq!(encode_key(Key::Tab, true), Some(b"\x1b[Z".to_vec()));
    assert_eq!(encode_key(Key::ArrowUp, false), Some(b"\x1b[A".to_vec()));
    assert_eq!(encode_key(Key::PageDown, false), Some(b"\x1b[6~".to_vec()));
    assert_eq!(encode_key(Key::F1, false), Some(b"\x1bOP".to_vec()));
    assert_eq!(encode_key(Key::F12, false), Some(b"\x1b[24~".to_vec()));
    assert_eq!(encode_key(Key::Other, false), None);
    let events = vec![
        InputEvent::Text(b"hi".to_vec()),
        InputEvent::Key { key: Key::Other, initial: Some('C'), ctrl: true, shift: false },
        InputEvent::Key { key: Key::Escape, initial: Some('E'), ctrl: false, shift: false },
        InputEvent::Key { key: Key::Other, initial: Some('1'), ctrl: true, shift: false },
    ];
    assert_eq!(encode_input(&events), vec![b'h', b'i', 0x03, 0x1b]);
}

#[test]
fn the_window_has_a_least_size() {
    assert_eq!(start_size(10, 200), (80, 200));
    assert_eq!(start_size(132, 3), (132, 24));
    assert_eq!(resize_to((80, 24), 80, 24), None);
    assert_eq!(resize_to((80, 24), 3, 2), Some((10, 4)));
    assert_eq!(resize_to((10, 4), 0, 0), None);
}

#[test]
fn arguments_after_the_separator_go_to_the_child() {
    let args = |a: &[&str]| -> Vec<String> { a.iter().map(|s| s.to_string()).collect() };
    assert_eq!(child_args(&args(&["app", "--", "--mock"])), args(&["--mock"]));
    assert_eq!(child_args(&args(&["app", "--", "a", "--", "b"])), args(&["a", "--", "b"]));
    assert_eq!(child_args(&args(&["app", "--mock"])), args(&["--mode", "arcade"]));
    assert_eq!(child_args(&args(&["app", "--"])), args(&["--mode", "arcade"]));
}
