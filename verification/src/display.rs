//! The text display: a grid of characters with a cursor, rendered to HTML,
//! and the rule for which process controls the display.

use crate::chars::{extend_chars, from_chars, to_chars};
use crate::ident::ProcessId;
use vstd::prelude::*;

verus! {

/// The width of one character cell in pixels.
pub const FONT_WIDTH: u32 = 8;

/// The height of one character cell in pixels.
pub const FONT_HEIGHT: u32 = 16;

/// The display mode.
#[derive(Debug, Clone, Copy, PartialEq, Eq, Structural)]
pub enum Mode {
    Text,
    FrameBuffer,
}

/// The last key pressed: its code, or -1 for none, and the modifiers held.
#[derive(Debug, Clone, Copy, PartialEq, Eq, Structural)]
pub struct KeyBuffer {
    pub key: i32,
    pub shift: bool,
    pub ctrl: bool,
}

/// Who controls the display.
#[derive(Debug, Clone, Copy, PartialEq, Eq, Structural)]
pub enum Control {
    /// Nobody.
    Nobody,
    /// A process, until it lets go.
    Strict(ProcessId),
    /// A process, until another one takes over.
    Loose(ProcessId),
}

/// Why a change of control was refused.
#[derive(Debug, Clone, Copy, PartialEq, Eq, Structural)]
pub enum DisplayError {
    /// Another process holds the display strictly.
    DisplayOccupied,
    /// Nobody holds the display.
    CannotLoosen,
    /// The display is held loosely already.
    AlreadyLoose,
}

impl DisplayError {
    /// A description of the error.
    pub fn message(&self) -> (r: &'static str)
        ensures
            r@ == (match *self {
                DisplayError::DisplayOccupied => "The display is currently in control by another process"@,
                DisplayError::CannotLoosen => "Cannot loosen control over display as there is not process in control in the first place."@,
                DisplayError::AlreadyLoose => "Cannot loosen control over display as the control is already loose"@,
            }),
    {
        match self {
            DisplayError::DisplayOccupied => "The display is currently in control by another process",
            DisplayError::CannotLoosen => "Cannot loosen control over display as there is not process in control in the first place.",
            DisplayError::AlreadyLoose => "Cannot loosen control over display as the control is already loose",
        }
    }
}

impl Control {
    /// What an attempt of `pid` to take control does: it succeeds unless
    /// the display is held strictly.
    pub open spec fn take(self, pid: ProcessId) -> (Control, Result<(), DisplayError>) {
        match self {
            Control::Strict(_) => (self, Err(DisplayError::DisplayOccupied)),
            _ => (Control::Strict(pid), Ok(())),
        }
    }

    /// What loosening does: a strict hold becomes a loose one.
    pub open spec fn loosen(self) -> (Control, Result<(), DisplayError>) {
        match self {
            Control::Nobody => (self, Err(DisplayError::CannotLoosen)),
            Control::Loose(_) => (self, Err(DisplayError::AlreadyLoose)),
            Control::Strict(pid) => (Control::Loose(pid), Ok(())),
        }
    }

    /// Whether `pid` holds the display, strictly or loosely.
    pub open spec fn held_by(self, pid: ProcessId) -> bool {
        match self {
            Control::Nobody => false,
            Control::Strict(current) => current == pid,
            Control::Loose(current) => current == pid,
        }
    }
}

/// The text cursor.
#[derive(Debug, Clone, Copy, PartialEq, Eq, Structural)]
pub struct Cursor {
    pub position: u32,
    pub visible: bool,
}

/// The text display: `width` by `height` cells, stored row by row.
#[derive(Debug)]
pub struct TextMode {
    pub width: u32,
    pub height: u32,
    pub cursor: Cursor,
    pub buffer: Vec<char>,
}

/// `n` blanks.
pub open spec fn blanks(n: int) -> Seq<char> {
    Seq::new(n as nat, |i: int| ' ')
}

/// The cells after `c` was written at `x`: nothing is written outside the
/// grid or outside the cells that are there.
pub open spec fn written(cells: Seq<char>, width: u32, height: u32, x: int, c: char) -> Seq<char> {
    if 0 <= x < width * height && x < cells.len() {
        cells.update(x, c)
    } else {
        cells
    }
}

/// The cells after the first `k` characters of `s` were written from `x`
/// on.
pub open spec fn written_str(cells: Seq<char>, width: u32, height: u32, x: int, s: Seq<char>, k: int) -> Seq<
    char,
>
    decreases k,
{
    if k <= 0 {
        cells
    } else {
        written(written_str(cells, width, height, x, s, k - 1), width, height, x + k - 1, s[k - 1])
    }
}

/// The first `k` cells as text, the cell under a visible cursor set off by
/// the codes for reverse video and for normal video.
pub open spec fn marked(cells: Seq<char>, cursor: Cursor, k: int) -> Seq<char>
    decreases k,
{
    if k <= 0 {
        Seq::empty()
    } else if cursor.visible && cursor.position == k - 1 {
        marked(cells, cursor, k - 1) + "\x1b[7m"@ + seq![cells[k - 1]] + "\x1b[0m"@
    } else {
        marked(cells, cursor, k - 1).push(cells[k - 1])
    }
}

/// What stands for `c` in HTML.
pub open spec fn html_entity(c: char) -> Seq<char> {
    if c == '&' {
        "&amp;"@
    } else if c == '<' {
        "&lt;"@
    } else if c == '>' {
        "&gt;"@
    } else if c == '"' {
        "&quot;"@
    } else if c == '\'' {
        "&#39;"@
    } else {
        seq![c]
    }
}

/// The first `k` characters of `s` with each one that HTML gives a meaning
/// replaced by its entity.
pub open spec fn html_escaped(s: Seq<char>, k: int) -> Seq<char>
    decreases k,
{
    if k <= 0 {
        Seq::empty()
    } else {
        html_escaped(s, k - 1) + html_entity(s[k - 1])
    }
}

/// The first `k` characters of `code` without the brackets.
pub open spec fn unbracketed(code: Seq<char>, k: int) -> Seq<char>
    decreases k,
{
    if k <= 0 {
        Seq::empty()
    } else if code[k - 1] == '[' {
        unbracketed(code, k - 1)
    } else {
        unbracketed(code, k - 1).push(code[k - 1])
    }
}

/// The style that a code stands for, or nothing where it stands for none.
pub open spec fn style_of(code: Seq<char>) -> Seq<char> {
    if code == "0"@ {
        "font-weight:normal;text-decoration:none;background-color:#000"@
    } else if code == "1"@ {
        "font-weight:bold;"@
    } else if code == "4"@ {
        "text-decoration:underline;"@
    } else if code == "7"@ {
        "background-color: #fff;color:#000;"@
    } else {
        Seq::empty()
    }
}

/// The colour that a code stands for; white where it stands for none.
pub open spec fn color_of(code: Seq<char>) -> Seq<char> {
    if code == "30"@ {
        "#000000"@
    } else if code == "31"@ {
        "#aa0000"@
    } else if code == "32"@ {
        "#00aa00"@
    } else if code == "33"@ {
        "#aa5500"@
    } else if code == "34"@ {
        "#0000aa"@
    } else if code == "35"@ {
        "#aa00aa"@
    } else if code == "36"@ {
        "#00aaaa"@
    } else if code == "37"@ {
        "#aaaaaa"@
    } else if code == "90"@ {
        "#555555"@
    } else if code == "91"@ {
        "#FF5555"@
    } else if code == "92"@ {
        "#55FF55"@
    } else if code == "93"@ {
        "#FFFF55"@
    } else if code == "94"@ {
        "#5555FF"@
    } else if code == "95"@ {
        "#FF55FF"@
    } else if code == "96"@ {
        "#55FFFF"@
    } else {
        "#FFFFFF"@
    }
}

/// The tag that opens the span for a code: its style where it has one, its
/// colour else.
pub open spec fn span_of(code: Seq<char>) -> Seq<char> {
    let plain = unbracketed(code, code.len() as int);
    if style_of(plain).len() == 0 {
        "<span style=\"color:"@ + color_of(plain) + ";\">"@
    } else {
        "<span style=\""@ + style_of(plain) + ";\">"@
    }
}

/// Where the reading of escape codes stands: the HTML so far, whether a
/// code is being read, and the code so far.
pub struct CodeState {
    pub html: Seq<char>,
    pub in_escape: bool,
    pub code: Seq<char>,
}

/// The state after the first `k` characters of `s`. An escape character
/// starts a code. Inside a code an `m` ends it and puts its span, a blank
/// goes to the HTML, and any other character goes to the code. Outside a
/// code every character goes to the HTML.
pub open spec fn codes_read(s: Seq<char>, k: int) -> CodeState
    decreases k,
{
    if k <= 0 {
        CodeState { html: Seq::empty(), in_escape: false, code: Seq::empty() }
    } else {
        let before = codes_read(s, k - 1);
        let c = s[k - 1];
        if c == '\x1b' {
            CodeState { in_escape: true, code: Seq::empty(), ..before }
        } else if c == 'm' && before.in_escape {
            CodeState { html: before.html + span_of(before.code), in_escape: false, ..before }
        } else if c == ' ' || !before.in_escape {
            CodeState { html: before.html.push(c), ..before }
        } else {
            CodeState { code: before.code.push(c), ..before }
        }
    }
}

/// The HTML that shows the cells: the cursor is marked, what HTML gives a
/// meaning is escaped, and the escape codes become spans.
pub open spec fn rendered(cells: Seq<char>, cursor: Cursor) -> Seq<char> {
    let text = marked(cells, cursor, cells.len() as int);
    let safe = html_escaped(text, text.len() as int);
    codes_read(safe, safe.len() as int).html
}

/// Whether `v` is the text `text`.
fn is_text(v: &Vec<char>, text: &str) -> (r: bool)
    ensures
        r == (v@ == text@),
{
    from_chars(v) == text.to_owned()
}

/// Appends `text` to `v`.
fn push_text(v: &mut Vec<char>, text: &str)
    ensures
        final(v)@ == old(v)@ + text@,
{
    let tail = to_chars(text);
    extend_chars(v, &tail);
}

/// Escape the characters that HTML gives a meaning.
pub fn html_escape(input: &str) -> (r: String)
    ensures
        r@ == html_escaped(input@, input@.len() as int),
{
    let text = to_chars(input);
    let mut out: Vec<char> = Vec::new();
    let mut k: usize = 0;
    while k < text.len()
        invariant
            k <= text@.len(),
            out@ == html_escaped(text@, k as int),
        decreases text@.len() - k,
    {
        let c = text[k];
        if c == '&' {
            push_text(&mut out, "&amp;");
        } else if c == '<' {
            push_text(&mut out, "&lt;");
        } else if c == '>' {
            push_text(&mut out, "&gt;");
        } else if c == '"' {
            push_text(&mut out, "&quot;");
        } else if c == '\'' {
            push_text(&mut out, "&#39;");
        } else {
            out.push(c);
            assert(out@ =~= html_escaped(text@, k as int) + seq![c]);
        }
        k += 1;
    }
    from_chars(&out)
}

/// The style that a code stands for.
fn map_style(code: &Vec<char>) -> (r: &'static str)
    ensures
        r@ == style_of(code@),
{
    if is_text(code, "0") {
        "font-weight:normal;text-decoration:none;background-color:#000"
    } else if is_text(code, "1") {
        "font-weight:bold;"
    } else if is_text(code, "4") {
        "text-decoration:underline;"
    } else if is_text(code, "7") {
        "background-color: #fff;color:#000;"
    } else {
        let none = "";
        proof {
            reveal_strlit("");
            assert(none@ =~= Seq::<char>::empty());
        }
        none
    }
}

/// The colour that a code stands for.
fn map_color(code: &Vec<char>) -> (r: &'static str)
    ensures
        r@ == color_of(code@),
{
    if is_text(code, "30") {
        "#000000"
    } else if is_text(code, "31") {
        "#aa0000"
    } else if is_text(code, "32") {
        "#00aa00"
    } else if is_text(code, "33") {
        "#aa5500"
    } else if is_text(code, "34") {
        "#0000aa"
    } else if is_text(code, "35") {
        "#aa00aa"
    } else if is_text(code, "36") {
        "#00aaaa"
    } else if is_text(code, "37") {
        "#aaaaaa"
    } else if is_text(code, "90") {
        "#555555"
    } else if is_text(code, "91") {
        "#FF5555"
    } else if is_text(code, "92") {
        "#55FF55"
    } else if is_text(code, "93") {
        "#FFFF55"
    } else if is_text(code, "94") {
        "#5555FF"
    } else if is_text(code, "95") {
        "#FF55FF"
    } else if is_text(code, "96") {
        "#55FFFF"
    } else {
        "#FFFFFF"
    }
}

/// Appends to `html` the tag that opens the span for `code`.
fn push_span(html: &mut Vec<char>, code: &Vec<char>)
    ensures
        final(html)@ == old(html)@ + span_of(code@),
{
    let mut plain: Vec<char> = Vec::new();
    let mut k: usize = 0;
    while k < code.len()
        invariant
            k <= code@.len(),
            plain@ == unbracketed(code@, k as int),
        decreases code@.len() - k,
    {
        if code[k] != '[' {
            plain.push(code[k]);
        }
        k += 1;
    }
    let style = map_style(&plain);
    if to_chars(style).len() == 0 {
        push_text(html, "<span style=\"color:");
        push_text(html, map_color(&plain));
        push_text(html, ";\">");
        assert(html@ =~= old(html)@ + span_of(code@));
    } else {
        push_text(html, "<span style=\"");
        push_text(html, style);
        push_text(html, ";\">");
        assert(html@ =~= old(html)@ + span_of(code@));
    }
}

/// Turn the escape codes for colours and styles in `input` into HTML
/// spans.
pub fn apply_escape_codes(input: &str) -> (r: String)
    ensures
        r@ == codes_read(input@, input@.len() as int).html,
{
    let text = to_chars(input);
    let mut html: Vec<char> = Vec::new();
    let mut in_escape = false;
    let mut code: Vec<char> = Vec::new();
    let mut k: usize = 0;
    while k < text.len()
        invariant
            k <= text@.len(),
            codes_read(text@, k as int) == (CodeState { html: html@, in_escape, code: code@ }),
        decreases text@.len() - k,
    {
        let c = text[k];
        if c == '\x1b' {
            in_escape = true;
            code = Vec::new();
        } else if c == 'm' && in_escape {
            in_escape = false;
            push_span(&mut html, &code);
        } else if c == ' ' || !in_escape {
            html.push(c);
        } else {
            code.push(c);
        }
        k += 1;
    }
    from_chars(&html)
}

impl TextMode {
    /// Create a text display for a screen of `width` by `height` pixels,
    /// filled with blanks, the cursor hidden in the first cell.
    pub fn new(width: u32, height: u32) -> (r: Self)
        requires
            (width / FONT_WIDTH) * height <= u32::MAX,
        ensures
            r.width == width / FONT_WIDTH,
            r.height == height / FONT_HEIGHT,
            r.cursor == (Cursor { position: 0, visible: false }),
            r.buffer@ == blanks(((width / FONT_WIDTH) * height) / (FONT_HEIGHT as int)),
    {
        let cells: u32 = width / FONT_WIDTH * height / FONT_HEIGHT;
        let mut buffer: Vec<char> = Vec::new();
        let mut i: u32 = 0;
        while i < cells
            invariant
                i <= cells,
                buffer@ == blanks(i as int),
            decreases cells - i,
        {
            buffer.push(' ');
            i += 1;
            assert(buffer@ =~= blanks(i as int));
        }
        TextMode {
            width: width / FONT_WIDTH,
            height: height / FONT_HEIGHT,
            cursor: Cursor { position: 0, visible: false },
            buffer,
        }
    }

    /// Resize the display to a screen of `width` by `height` pixels. The
    /// cells are blank afterwards; the cursor stays.
    pub fn resize(&mut self, width: u32, height: u32)
        requires
            (width / FONT_WIDTH) * (height / FONT_HEIGHT) <= u32::MAX,
        ensures
            final(self).width == width / FONT_WIDTH,
            final(self).height == height / FONT_HEIGHT,
            final(self).cursor == old(self).cursor,
            final(self).buffer@ == blanks((width / FONT_WIDTH) * (height / FONT_HEIGHT)),
    {
        self.width = width / FONT_WIDTH;
        self.height = height / FONT_HEIGHT;
        let cells: u32 = self.width * self.height;
        let mut buffer: Vec<char> = Vec::new();
        let mut i: u32 = 0;
        while i < cells
            invariant
                i <= cells,
                buffer@ == blanks(i as int),
            decreases cells - i,
        {
            buffer.push(' ');
            i += 1;
            assert(buffer@ =~= blanks(i as int));
        }
        self.buffer = buffer;
    }

    /// Write a character to cell `x`. Nothing is written outside the grid.
    pub fn write(&mut self, x: u32, c: char)
        ensures
            final(self).buffer@ == written(old(self).buffer@, old(self).width, old(self).height, x as int, c),
            final(self).width == old(self).width,
            final(self).height == old(self).height,
            final(self).cursor == old(self).cursor,
    {
        assert(self.width * self.height <= u64::MAX) by (nonlinear_arith)
            requires
                self.width <= u32::MAX,
                self.height <= u32::MAX,
        ;
        let cells: u64 = self.width as u64 * self.height as u64;
        if (x as u64) < cells && (x as usize) < self.buffer.len() {
            self.buffer.set(x as usize, c);
        }
    }

    /// Write a string to the cells from `x` on. Nothing is written outside
    /// the grid.
    pub fn write_str(&mut self, x: u32, s: &str)
        ensures
            final(self).buffer@ == written_str(
                old(self).buffer@,
                old(self).width,
                old(self).height,
                x as int,
                s@,
                s@.len() as int,
            ),
            final(self).width == old(self).width,
            final(self).height == old(self).height,
            final(self).cursor == old(self).cursor,
    {
        let text = to_chars(s);
        assert(self.width * self.height <= u64::MAX) by (nonlinear_arith)
            requires
                self.width <= u32::MAX,
                self.height <= u32::MAX,
        ;
        let cells: u64 = self.width as u64 * self.height as u64;
        let mut i: usize = 0;
        while i < text.len()
            invariant
                i <= text@.len(),
                cells == self.width * self.height,
                self.width == old(self).width,
                self.height == old(self).height,
                self.cursor == old(self).cursor,
                self.buffer@ == written_str(
                    old(self).buffer@,
                    old(self).width,
                    old(self).height,
                    x as int,
                    text@,
                    i as int,
                ),
            decreases text@.len() - i,
        {
            if i < self.buffer.len() && (self.buffer.len() - i) > x as usize {
                let at: usize = x as usize + i;
                if (at as u64) < cells {
                    self.buffer.set(at, text[i]);
                }
            }
            i += 1;
        }
    }

    /// Write a character at the cursor and move the cursor on by one cell.
    pub fn append(&mut self, c: char)
        requires
            old(self).cursor.position < u32::MAX,
        ensures
            final(self).buffer@ == written(
                old(self).buffer@,
                old(self).width,
                old(self).height,
                old(self).cursor.position as int,
                c,
            ),
            final(self).width == old(self).width,
            final(self).height == old(self).height,
            final(self).cursor == (Cursor {
                position: (old(self).cursor.position + 1) as u32,
                ..old(self).cursor
            }),
    {
        let x = self.cursor.position;
        self.write(x, c);
        self.cursor.position = x + 1;
    }

    /// Write a string at the cursor and move the cursor behind it.
    pub fn append_str(&mut self, s: &str)
        requires
            old(self).cursor.position + s@.len() <= u32::MAX,
        ensures
            final(self).buffer@ == written_str(
                old(self).buffer@,
                old(self).width,
                old(self).height,
                old(self).cursor.position as int,
                s@,
                s@.len() as int,
            ),
            final(self).width == old(self).width,
            final(self).height == old(self).height,
            final(self).cursor == (Cursor {
                position: (old(self).cursor.position + s@.len()) as u32,
                ..old(self).cursor
            }),
    {
        let text = to_chars(s);
        let mut i: usize = 0;
        while i < text.len()
            invariant
                i <= text@.len(),
                old(self).cursor.position + text@.len() <= u32::MAX,
                self.width == old(self).width,
                self.height == old(self).height,
                self.cursor == (Cursor {
                    position: (old(self).cursor.position + i) as u32,
                    ..old(self).cursor
                }),
                self.buffer@ == written_str(
                    old(self).buffer@,
                    old(self).width,
                    old(self).height,
                    old(self).cursor.position as int,
                    text@,
                    i as int,
                ),
            decreases text@.len() - i,
        {
            self.append(text[i]);
            i += 1;
        }
    }

    /// Blank every cell and put the cursor in the first one.
    pub fn clear(&mut self)
        ensures
            final(self).buffer@ == blanks(old(self).buffer@.len() as int),
            final(self).width == old(self).width,
            final(self).height == old(self).height,
            final(self).cursor == (Cursor { position: 0, ..old(self).cursor }),
    {
        let mut i: usize = 0;
        while i < self.buffer.len()
            invariant
                i <= self.buffer@.len(),
                self.buffer@.len() == old(self).buffer@.len(),
                self.width == old(self).width,
                self.height == old(self).height,
                self.cursor == old(self).cursor,
                forall|j: int| 0 <= j < i ==> self.buffer@[j] == ' ',
            decreases self.buffer@.len() - i,
        {
            self.buffer.set(i, ' ');
            i += 1;
        }
        self.cursor.position = 0;
        assert(self.buffer@ =~= blanks(old(self).buffer@.len() as int));
    }

    /// Render the display to HTML.
    pub fn render(&self) -> (r: String)
        ensures
            r@ == rendered(self.buffer@, self.cursor),
    {
        let mut output: Vec<char> = Vec::new();
        let mut x: usize = 0;
        while x < self.buffer.len()
            invariant
                x <= self.buffer@.len(),
                output@ == marked(self.buffer@, self.cursor, x as int),
            decreases self.buffer@.len() - x,
        {
            if self.cursor.visible && self.cursor.position as usize == x {
                let ghost before = output@;
                push_text(&mut output, "\x1b[7m");
                output.push(self.buffer[x]);
                push_text(&mut output, "\x1b[0m");
                assert(output@ =~= before + "\x1b[7m"@ + seq![self.buffer@[x as int]] + "\x1b[0m"@);
            } else {
                output.push(self.buffer[x]);
            }
            x += 1;
        }
        let text = from_chars(&output);
        let sanitized = html_escape(text.as_str());
        apply_escape_codes(sanitized.as_str())
    }
}

/// The display of the kernel: who controls it, what it shows and whether
/// that has changed since it was last rendered.
#[derive(Debug)]
pub struct Display {
    pub control: Control,
    pub mode: Mode,
    pub keybuffer: KeyBuffer,
    pub updated: bool,
    pub text_mode: TextMode,
}

impl Display {
    /// A display for a screen of `width` by `height` pixels: in text mode,
    /// controlled by nobody, no key pressed, nothing to render.
    pub fn new(width: u32, height: u32) -> (r: Self)
        requires
            (width / FONT_WIDTH) * height <= u32::MAX,
        ensures
            r.control == Control::Nobody,
            r.mode == Mode::Text,
            r.keybuffer == (KeyBuffer { key: -1i32, shift: false, ctrl: false }),
            !r.updated,
            r.text_mode.width == width / FONT_WIDTH,
            r.text_mode.height == height / FONT_HEIGHT,
            r.text_mode.cursor == (Cursor { position: 0, visible: false }),
            r.text_mode.buffer@ == blanks(((width / FONT_WIDTH) * height) / (FONT_HEIGHT as int)),
    {
        Display {
            control: Control::Nobody,
            mode: Mode::Text,
            keybuffer: KeyBuffer { key: -1, shift: false, ctrl: false },
            updated: false,
            text_mode: TextMode::new(width, height),
        }
    }

    /// Attempt to give the control to process `pid`.
    pub fn assume_control(&mut self, pid: ProcessId) -> (r: Result<(), DisplayError>)
        ensures
            (final(self).control, r) == old(self).control.take(pid),
            final(self).mode == old(self).mode,
            final(self).keybuffer == old(self).keybuffer,
            final(self).updated == old(self).updated,
            final(self).text_mode == old(self).text_mode,
    {
        if let Control::Strict(_) = self.control {
            return Err(DisplayError::DisplayOccupied);
        }
        self.control = Control::Strict(pid);
        Ok(())
    }

    /// Loosen the control over the display.
    pub fn loosen_control(&mut self) -> (r: Result<(), DisplayError>)
        ensures
            (final(self).control, r) == old(self).control.loosen(),
            final(self).mode == old(self).mode,
            final(self).keybuffer == old(self).keybuffer,
            final(self).updated == old(self).updated,
            final(self).text_mode == old(self).text_mode,
    {
        match self.control {
            Control::Nobody => Err(DisplayError::CannotLoosen),
            Control::Loose(_) => Err(DisplayError::AlreadyLoose),
            Control::Strict(pid) => {
                self.control = Control::Loose(pid);
                Ok(())
            },
        }
    }

    /// Give the control to process `pid`, whoever holds it.
    pub fn override_control(&mut self, pid: ProcessId)
        ensures
            final(self).control == Control::Strict(pid),
            final(self).mode == old(self).mode,
            final(self).keybuffer == old(self).keybuffer,
            final(self).updated == old(self).updated,
            final(self).text_mode == old(self).text_mode,
    {
        self.control = Control::Strict(pid);
    }

    /// Take the control from whoever holds it.
    pub fn release_control(&mut self)
        ensures
            final(self).control == Control::Nobody,
            final(self).mode == old(self).mode,
            final(self).keybuffer == old(self).keybuffer,
            final(self).updated == old(self).updated,
            final(self).text_mode == old(self).text_mode,
    {
        self.control = Control::Nobody;
    }

    /// Check if process `pid` has control.
    pub fn has_control(&self, pid: ProcessId) -> (r: bool)
        ensures
            r == self.control.held_by(pid),
    {
        match self.control {
            Control::Nobody => false,
            Control::Strict(current) => current == pid,
            Control::Loose(current) => current == pid,
        }
    }

    /// The HTML to show, where the display has changed since it was last
    /// rendered; nothing where it has not. The display counts as rendered
    /// afterwards.
    pub fn render(&mut self) -> (r: Option<String>)
        requires
            old(self).updated ==> old(self).mode == Mode::Text,
        ensures
            !final(self).updated,
            final(self).control == old(self).control,
            final(self).mode == old(self).mode,
            final(self).keybuffer == old(self).keybuffer,
            final(self).text_mode == old(self).text_mode,
            match r {
                Some(html) => old(self).updated && html@ == rendered(
                    old(self).text_mode.buffer@,
                    old(self).text_mode.cursor,
                ),
                None => !old(self).updated,
            },
    {
        if !self.updated {
            return None;
        }
        self.updated = false;
        Some(self.text_mode.render())
    }

    /// The text display.
    pub fn text_mode(&self) -> (r: &TextMode)
        ensures
            *r == self.text_mode,
    {
        &self.text_mode
    }

    /// The text display, to change it. The display holds afterwards what
    /// it was left as.
    pub fn text_mode_mut(&mut self) -> (r: &mut TextMode)
        ensures
            *r == old(self).text_mode,
            final(self).text_mode == *final(r),
            final(self).control == old(self).control,
            final(self).mode == old(self).mode,
            final(self).keybuffer == old(self).keybuffer,
            final(self).updated == old(self).updated,
    {
        &mut self.text_mode
    }

    /// Notify the display that it has changed.
    pub fn notify_update(&mut self)
        ensures
            final(self).updated,
            final(self).control == old(self).control,
            final(self).mode == old(self).mode,
            final(self).keybuffer == old(self).keybuffer,
            final(self).text_mode == old(self).text_mode,
    {
        self.updated = true;
    }
}

} // verus!
