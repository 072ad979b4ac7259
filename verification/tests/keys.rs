use fermi_term::keys::{is_quit_key, key_to_bytes, named_key_to_bytes, Key, Modifiers, NamedKey};
use fermi_term::session::{grid_size, key_press, window_resized};
use fermi_term::terminal::Grid;

const NONE: Modifiers = Modifiers { ctrl: false, shift: false };
const CTRL: Modifiers = Modifiers { ctrl: true, shift: false };
const SHIFT: Modifiers = Modifiers { ctrl: false, shift: true };

fn ch(s: &str) -> Key {
    Key::Character(s.to_string())
}

#[test]
fn named_keys_send_xterm_sequences() {
    assert_eq!(key_to_bytes(&Key::Named(NamedKey::Enter), NONE), b"\r".to_vec());
    assert_eq!(key_to_bytes(&Key::Named(NamedKey::Backspace), NONE), vec![0x7f]);
    assert_eq!(key_to_bytes(&Key::Named(NamedKey::Tab), NONE), b"\t".to_vec());
    assert_eq!(key_to_bytes(&Key::Named(NamedKey::ArrowUp), NONE), b"\x1b[A".to_vec());
    assert_eq!(key_to_bytes(&Key::Named(NamedKey::ArrowDown), NONE), b"\x1b[B".to_vec());
    assert_eq!(key_to_bytes(&Key::Named(NamedKey::ArrowRight), NONE), b"\x1b[C".to_vec());
    assert_eq!(key_to_bytes(&Key::Named(NamedKey::ArrowLeft), NONE), b"\x1b[D".to_vec());
    assert_eq!(key_to_bytes(&Key::Named(NamedKey::Home), NONE), b"\x1b[H".to_vec());
    assert_eq!(key_to_bytes(&Key::Named(NamedKey::End), NONE), b"\x1b[F".to_vec());
    assert_eq!(key_to_bytes(&Key::Named(NamedKey::PageUp), NONE), b"\x1b[5~".to_vec());
    assert_eq!(key_to_bytes(&Key::Named(NamedKey::PageDown), NONE), b"\x1b[6~".to_vec());
    assert_eq!(key_to_bytes(&Key::Named(NamedKey::Delete), NONE), b"\x1b[3~".to_vec());
    assert_eq!(key_to_bytes(&Key::Named(NamedKey::Insert), NONE), b"\x1b[2~".to_vec());
    assert!(key_to_bytes(&Key::Named(NamedKey::Escape), NONE).is_empty());
    assert_eq!(key_to_bytes(&Key::Named(NamedKey::F1), NONE), b"\x1bOP".to_vec());
    assert_eq!(key_to_bytes(&Key::Named(NamedKey::F4), NONE), b"\x1bOS".to_vec());
    assert_eq!(key_to_bytes(&Key::Named(NamedKey::F5), NONE), b"\x1b[15~".to_vec());
    assert_eq!(key_to_bytes(&Key::Named(NamedKey::F10), NONE), b"\x1b[21~".to_vec());
    assert_eq!(key_to_bytes(&Key::Named(NamedKey::F11), NONE), b"\x1b[23~".to_vec());
    assert_eq!(key_to_bytes(&Key::Named(NamedKey::F12), NONE), b"\x1b[24~".to_vec());
    assert_eq!(key_to_bytes(&Key::Named(NamedKey::Space), NONE), b" ".to_vec());
    assert!(key_to_bytes(&Key::Named(NamedKey::Other), NONE).is_empty());
    assert!(key_to_bytes(&Key::Unidentified, NONE).is_empty());
    assert_eq!(named_key_to_bytes(NamedKey::F7), b"\x1b[18~".to_vec());
}

#[test]
fn ctrl_letters_send_control_codes() {
    assert_eq!(key_to_bytes(&ch("c"), CTRL), vec![0x03]);
    assert_eq!(key_to_bytes(&ch("C"), CTRL), vec![0x03]);
    assert_eq!(key_to_bytes(&ch("d"), CTRL), vec![0x04]);
    assert_eq!(key_to_bytes(&ch("l"), CTRL), vec![0x0c]);
    assert_eq!(key_to_bytes(&ch("z"), CTRL), vec![0x1a]);
    assert_eq!(key_to_bytes(&ch("a"), CTRL), vec![0x01]);
    assert_eq!(key_to_bytes(&ch("E"), CTRL), vec![0x05]);
    assert_eq!(key_to_bytes(&ch("k"), CTRL), vec![0x0b]);
    assert_eq!(key_to_bytes(&ch("u"), CTRL), vec![0x15]);
    assert_eq!(key_to_bytes(&ch("w"), CTRL), vec![0x17]);
    assert_eq!(key_to_bytes(&ch("R"), CTRL), vec![0x12]);
    // Letters without a mapping, and longer text, send nothing with Ctrl.
    assert!(key_to_bytes(&ch("x"), CTRL).is_empty());
    assert!(key_to_bytes(&ch("cc"), CTRL).is_empty());
    // Ctrl does not change named keys.
    assert_eq!(key_to_bytes(&Key::Named(NamedKey::ArrowUp), CTRL), b"\x1b[A".to_vec());
}

#[test]
fn ctrl_code_is_letter_low_bits() {
    for s in ["a", "c", "d", "e", "k", "l", "r", "u", "w", "z"] {
        let b = s.as_bytes()[0];
        assert_eq!(key_to_bytes(&ch(s), CTRL), vec![b & 0x1f]);
        assert_eq!(key_to_bytes(&ch(&s.to_uppercase()), CTRL), vec![b & 0x1f]);
    }
}

#[test]
fn text_is_sent_as_utf8() {
    assert_eq!(key_to_bytes(&ch("a"), NONE), b"a".to_vec());
    assert_eq!(key_to_bytes(&ch("é"), NONE), vec![0xc3, 0xa9]);
    assert_eq!(key_to_bytes(&ch("€"), NONE), vec![0xe2, 0x82, 0xac]);
}

#[test]
fn shift_upper_cases_text() {
    assert_eq!(key_to_bytes(&ch("a"), SHIFT), b"A".to_vec());
    assert_eq!(key_to_bytes(&ch("é"), SHIFT), "É".as_bytes().to_vec());
    // Upper-casing may lengthen the text.
    assert_eq!(key_to_bytes(&ch("ß"), SHIFT), b"SS".to_vec());
    assert_eq!(key_to_bytes(&ch("1"), SHIFT), b"1".to_vec());
}

#[test]
fn key_press_jumps_to_live_view_when_it_sends() {
    let mut g = Grid::new(2, 1, 5, [1, 1, 1], [2, 2, 2]);
    g.execute(b'\n');
    g.execute(b'\n');
    g.scroll_view(2);
    assert_eq!(g.scroll_offset, 2);
    let sent = key_press(&mut g, &ch("x"), CTRL);
    assert!(sent.bytes.is_empty());
    assert!(!sent.quit);
    assert_eq!(g.scroll_offset, 2);
    let sent = key_press(&mut g, &ch("q"), NONE);
    assert_eq!(sent.bytes, b"q".to_vec());
    assert!(!sent.quit);
    assert_eq!(g.scroll_offset, 0);
}

#[test]
fn escape_quits_and_sends_nothing() {
    let mut g = Grid::new(2, 1, 5, [1, 1, 1], [2, 2, 2]);
    g.execute(b'\n');
    g.scroll_view(1);
    let out = key_press(&mut g, &Key::Named(NamedKey::Escape), NONE);
    assert!(out.quit);
    assert!(out.bytes.is_empty());
    assert_eq!(g.scroll_offset, 1);
    let out = key_press(&mut g, &Key::Named(NamedKey::Escape), CTRL);
    assert!(out.quit);
    assert!(out.bytes.is_empty());
    assert!(is_quit_key(&Key::Named(NamedKey::Escape)));
    assert!(!is_quit_key(&Key::Named(NamedKey::Enter)));
    assert!(!is_quit_key(&ch("q")));
}

#[test]
fn grid_size_counts_whole_cells() {
    assert_eq!(grid_size(1200, 800, 9, 17), (133, 47));
    assert_eq!(grid_size(5, 5, 8, 14), (1, 1));
    assert_eq!(grid_size(0, 0, 8, 14), (1, 1));
    let mut g = Grid::new(80, 24, 100, [1, 1, 1], [2, 2, 2]);
    let dims = window_resized(&mut g, 160, 140, 8, 14);
    assert_eq!(dims, (20, 10));
    assert_eq!((g.cols, g.rows), (20, 10));
    assert!(g.cells.iter().all(|r| r.len() == 20));
}
