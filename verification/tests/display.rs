use honeyos::display::{
    apply_escape_codes, html_escape, Control, Cursor, Display, DisplayError, KeyBuffer, Mode, TextMode,
};

#[test]
fn new_text_mode_is_blank() {
    let text = TextMode::new(80, 32);
    assert_eq!(text.width, 10);
    assert_eq!(text.height, 2);
    assert_eq!(text.cursor, Cursor { position: 0, visible: false });
    assert_eq!(text.buffer, vec![' '; 20]);
}

#[test]
fn new_text_mode_counts_cells_before_it_rounds_the_height() {
    // 10 columns by 24 pixels: 240 / 16 = 15 cells, though only one row shows.
    let text = TextMode::new(80, 24);
    assert_eq!((text.width, text.height), (10, 1));
    assert_eq!(text.buffer.len(), 15);
}

#[test]
fn resize_blanks_the_cells() {
    let mut text = TextMode::new(80, 32);
    text.write(3, 'x');
    text.cursor.position = 4;
    text.resize(16, 48);
    assert_eq!((text.width, text.height), (2, 3));
    assert_eq!(text.buffer, vec![' '; 6]);
    assert_eq!(text.cursor.position, 4);
}

#[test]
fn write_stays_inside_the_grid() {
    let mut text = TextMode::new(16, 32);
    text.write(0, 'a');
    text.write(3, 'd');
    text.write(4, 'e');
    text.write(u32::MAX, 'z');
    assert_eq!(text.buffer, vec!['a', ' ', ' ', 'd']);
}

#[test]
fn write_str_cuts_what_does_not_fit() {
    let mut text = TextMode::new(16, 32);
    text.write_str(2, "xyz");
    assert_eq!(text.buffer, vec![' ', ' ', 'x', 'y']);
    text.write_str(0, "");
    text.write_str(9, "q");
    assert_eq!(text.buffer, vec![' ', ' ', 'x', 'y']);
    text.write_str(0, "\u{e9}b");
    assert_eq!(text.buffer, vec!['\u{e9}', 'b', 'x', 'y']);
}

#[test]
fn append_moves_the_cursor() {
    let mut text = TextMode::new(16, 32);
    text.append('a');
    text.append_str("bcdef");
    assert_eq!(text.buffer, vec!['a', 'b', 'c', 'd']);
    assert_eq!(text.cursor.position, 6);
    text.clear();
    assert_eq!(text.buffer, vec![' '; 4]);
    assert_eq!(text.cursor.position, 0);
}

#[test]
fn html_escape_replaces_each_character_once() {
    assert_eq!(html_escape("a<b>&\"c'"), "a&lt;b&gt;&amp;&quot;c&#39;");
    assert_eq!(html_escape("&lt;"), "&amp;lt;");
    assert_eq!(html_escape(""), "");
    assert_eq!(html_escape("plain \u{e9}"), "plain \u{e9}");
    let direct = "x<&>\"'y"
        .replace("&", "&amp;")
        .replace("<", "&lt;")
        .replace(">", "&gt;")
        .replace("\"", "&quot;")
        .replace("'", "&#39;");
    assert_eq!(html_escape("x<&>\"'y"), direct);
}

#[test]
fn escape_codes_become_spans() {
    assert_eq!(apply_escape_codes("\x1b[1mbold"), "<span style=\"font-weight:bold;;\">bold");
    assert_eq!(
        apply_escape_codes("\x1b[0m"),
        "<span style=\"font-weight:normal;text-decoration:none;background-color:#000;\">"
    );
    assert_eq!(apply_escape_codes("\x1b[4m"), "<span style=\"text-decoration:underline;;\">");
    assert_eq!(
        apply_escape_codes("\x1b[7m"),
        "<span style=\"background-color: #fff;color:#000;;\">"
    );
    assert_eq!(apply_escape_codes("\x1b[31mred"), "<span style=\"color:#aa0000;\">red");
    assert_eq!(apply_escape_codes("\x1b[96m"), "<span style=\"color:#55FFFF;\">");
    assert_eq!(apply_escape_codes("\x1b[97m"), "<span style=\"color:#FFFFFF;\">");
    assert_eq!(apply_escape_codes("\x1b[12m"), "<span style=\"color:#FFFFFF;\">");
    assert_eq!(apply_escape_codes("\x1bm"), "<span style=\"color:#FFFFFF;\">");
    assert_eq!(apply_escape_codes("\x1b[[3[2m"), "<span style=\"color:#00aa00;\">");
}

#[test]
fn escape_codes_edges() {
    assert_eq!(apply_escape_codes("plain m"), "plain m");
    // A blank inside a code goes to the output and not to the code.
    assert_eq!(apply_escape_codes("\x1b[3 1m"), " <span style=\"color:#aa0000;\">");
    // A code that never ends swallows what follows it, blanks apart.
    assert_eq!(apply_escape_codes("a\x1b[31 b c"), "a  ");
    // A second escape character starts the code anew.
    assert_eq!(apply_escape_codes("\x1b[9\x1b[1m"), "<span style=\"font-weight:bold;;\">");
}

#[test]
fn render_marks_the_cursor_and_escapes() {
    let mut text = TextMode::new(24, 16);
    text.write_str(0, "a<b");
    assert_eq!(text.render(), "a&lt;b");
    text.cursor = Cursor { position: 1, visible: true };
    assert_eq!(
        text.render(),
        "a<span style=\"background-color: #fff;color:#000;;\">&lt;\
         <span style=\"font-weight:normal;text-decoration:none;background-color:#000;\">b"
    );
    text.cursor = Cursor { position: 7, visible: true };
    assert_eq!(text.render(), "a&lt;b");
}

#[test]
fn control_of_the_display() {
    let mut display = Display::new(80, 32);
    assert_eq!(display.control, Control::Nobody);
    assert_eq!(display.mode, Mode::Text);
    assert_eq!(display.keybuffer, KeyBuffer { key: -1, shift: false, ctrl: false });
    assert!(!display.has_control(1));
    assert_eq!(display.loosen_control(), Err(DisplayError::CannotLoosen));
    assert_eq!(display.assume_control(1), Ok(()));
    assert!(display.has_control(1));
    assert_eq!(display.assume_control(2), Err(DisplayError::DisplayOccupied));
    assert!(display.has_control(1));
    assert_eq!(display.loosen_control(), Ok(()));
    assert_eq!(display.control, Control::Loose(1));
    assert!(display.has_control(1));
    assert_eq!(display.loosen_control(), Err(DisplayError::AlreadyLoose));
    assert_eq!(display.assume_control(2), Ok(()));
    assert_eq!(display.control, Control::Strict(2));
    display.override_control(3);
    assert!(display.has_control(3));
    assert!(!display.has_control(2));
    display.release_control();
    assert_eq!(display.control, Control::Nobody);
}

#[test]
fn display_renders_only_what_has_changed() {
    let mut display = Display::new(16, 32);
    assert_eq!(display.render(), None);
    display.text_mode_mut().append_str("ok");
    assert_eq!(display.render(), None);
    display.notify_update();
    assert_eq!(display.render(), Some("ok  ".to_string()));
    assert!(!display.updated);
    assert_eq!(display.render(), None);
    assert_eq!(display.text_mode().buffer, vec!['o', 'k', ' ', ' ']);
}

#[test]
fn display_error_messages() {
    assert_eq!(
        DisplayError::DisplayOccupied.message(),
        "The display is currently in control by another process"
    );
    assert_eq!(
        DisplayError::AlreadyLoose.message(),
        "Cannot loosen control over display as the control is already loose"
    );
    assert!(DisplayError::CannotLoosen.message().starts_with("Cannot loosen control"));
}
