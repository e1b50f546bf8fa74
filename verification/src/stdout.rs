//! The output stream of a process.
//!
//! A process sends messages; the kernel folds them into the text that it
//! shows when it next synchronises.

use crate::chars::{extend_chars, from_chars, to_chars};
use vstd::prelude::*;

verus! {

/// A message sent to the output stream.
#[derive(Debug, PartialEq, Eq)]
pub enum StdoutMessage {
    /// Text to append.
    String(String),
    /// Drop all text.
    Clear,
    /// Drop the last line, if there is one.
    ClearLine,
    /// Drop this many of the last lines.
    ClearLines(u32),
}

/// What a message says.
pub enum MessageView {
    Text(Seq<char>),
    Clear,
    ClearLine,
    ClearLines(u32),
}

impl View for StdoutMessage {
    type V = MessageView;

    open spec fn view(&self) -> MessageView {
        match self {
            StdoutMessage::String(s) => MessageView::Text(s@),
            StdoutMessage::Clear => MessageView::Clear,
            StdoutMessage::ClearLine => MessageView::ClearLine,
            StdoutMessage::ClearLines(n) => MessageView::ClearLines(*n),
        }
    }
}

/// The first `k` characters of `text` read from the left: the lines that a
/// line feed has closed so far, empty ones left out, and the line that is
/// still open.
pub open spec fn scan_lines(text: Seq<char>, k: int) -> (Seq<Seq<char>>, Seq<char>)
    decreases k,
{
    if k <= 0 {
        (Seq::empty(), Seq::empty())
    } else {
        let (closed, open) = scan_lines(text, k - 1);
        if text[k - 1] == '\n' {
            (
                if open.len() > 0 {
                    closed.push(open)
                } else {
                    closed
                },
                Seq::empty(),
            )
        } else {
            (closed, open.push(text[k - 1]))
        }
    }
}

/// The lines of `text`: what stands between its line feeds, empty pieces
/// left out.
pub open spec fn lines(text: Seq<char>) -> Seq<Seq<char>> {
    let (closed, open) = scan_lines(text, text.len() as int);
    if open.len() > 0 {
        closed.push(open)
    } else {
        closed
    }
}

/// The text in which each of `lines` is followed by a line feed.
pub open spec fn unlines(lines: Seq<Seq<char>>) -> Seq<char>
    decreases lines.len(),
{
    if lines.len() == 0 {
        Seq::empty()
    } else {
        unlines(lines.drop_last()) + lines.last() + seq!['\n']
    }
}

/// The text after one message.
pub open spec fn apply(text: Seq<char>, message: MessageView) -> Seq<char> {
    match message {
        MessageView::Text(s) => text + s,
        MessageView::Clear => Seq::empty(),
        MessageView::ClearLine => if lines(text).len() >= 1 {
            unlines(lines(text).drop_last())
        } else {
            text
        },
        MessageView::ClearLines(n) => if n >= lines(text).len() {
            Seq::empty()
        } else {
            unlines(lines(text).take(lines(text).len() - n))
        },
    }
}

/// The text after the first `k` of `messages`, in order.
pub open spec fn apply_all(text: Seq<char>, messages: Seq<MessageView>, k: int) -> Seq<char>
    decreases k,
{
    if k <= 0 {
        text
    } else {
        apply(apply_all(text, messages, k - 1), messages[k - 1])
    }
}

/// The state of an output stream: the messages not yet folded in, oldest
/// first, and the text.
pub struct StdoutView {
    pub pending: Seq<MessageView>,
    pub text: Seq<char>,
}

/// The output stream of a process.
#[derive(Debug)]
pub struct ProcessStdOut {
    process_buffer: Vec<StdoutMessage>,
    eventual_buffer: String,
}

impl View for ProcessStdOut {
    type V = StdoutView;

    closed spec fn view(&self) -> StdoutView {
        StdoutView {
            pending: self.process_buffer@.map_values(|m: StdoutMessage| m@),
            text: self.eventual_buffer@,
        }
    }
}

/// What each of `lines` holds.
pub open spec fn line_views(lines: Seq<Vec<char>>) -> Seq<Seq<char>> {
    lines.map_values(|line: Vec<char>| line@)
}

/// The lines of `text`.
fn split_lines(text: &Vec<char>) -> (r: Vec<Vec<char>>)
    ensures
        line_views(r@) == lines(text@),
{
    let mut closed: Vec<Vec<char>> = Vec::new();
    let mut open: Vec<char> = Vec::new();
    let mut k: usize = 0;
    assert(line_views(closed@) =~= Seq::<Seq<char>>::empty());
    while k < text.len()
        invariant
            k <= text@.len(),
            (line_views(closed@), open@) == scan_lines(text@, k as int),
        decreases text@.len() - k,
    {
        let c = text[k];
        if c == '\n' {
            if open.len() > 0 {
                let ghost before = line_views(closed@);
                closed.push(open);
                assert(line_views(closed@) =~= before.push(open@));
            }
            open = Vec::new();
        } else {
            open.push(c);
        }
        k += 1;
    }
    if open.len() > 0 {
        let ghost before = line_views(closed@);
        closed.push(open);
        assert(line_views(closed@) =~= before.push(open@));
    }
    closed
}

/// The first `count` of `lines`, each followed by a line feed.
fn join_lines(lines: &Vec<Vec<char>>, count: usize) -> (r: Vec<char>)
    requires
        count <= lines@.len(),
    ensures
        r@ == unlines(line_views(lines@).take(count as int)),
{
    let mut out: Vec<char> = Vec::new();
    let mut i: usize = 0;
    while i < count
        invariant
            i <= count <= lines@.len(),
            out@ == unlines(line_views(lines@).take(i as int)),
        decreases count - i,
    {
        extend_chars(&mut out, &lines[i]);
        out.push('\n');
        i += 1;
        proof {
            let taken = line_views(lines@).take(i as int);
            assert(taken.drop_last() =~= line_views(lines@).take(i - 1));
            assert(taken.last() == lines@[i - 1]@);
        }
    }
    out
}

/// The text after one message.
fn apply_message(text: Vec<char>, message: &StdoutMessage) -> (r: Vec<char>)
    ensures
        r@ == apply(text@, message@),
{
    match message {
        StdoutMessage::String(s) => {
            let mut text = text;
            let tail = to_chars(s.as_str());
            extend_chars(&mut text, &tail);
            text
        },
        StdoutMessage::Clear => Vec::new(),
        StdoutMessage::ClearLine => {
            let lines = split_lines(&text);
            if lines.len() >= 1 {
                proof {
                    assert(line_views(lines@).take(lines@.len() - 1) =~= line_views(lines@).drop_last());
                }
                join_lines(&lines, lines.len() - 1)
            } else {
                text
            }
        },
        StdoutMessage::ClearLines(n) => {
            let lines = split_lines(&text);
            if *n as usize >= lines.len() {
                Vec::new()
            } else {
                join_lines(&lines, lines.len() - *n as usize)
            }
        },
    }
}

impl StdoutMessage {
    /// A copy of the message.
    pub fn duplicate(&self) -> (r: StdoutMessage)
        ensures
            r == *self,
    {
        match self {
            StdoutMessage::String(s) => StdoutMessage::String(s.clone()),
            StdoutMessage::Clear => StdoutMessage::Clear,
            StdoutMessage::ClearLine => StdoutMessage::ClearLine,
            StdoutMessage::ClearLines(n) => StdoutMessage::ClearLines(*n),
        }
    }
}

impl ProcessStdOut {
    /// A copy of the stream.
    pub fn duplicate(&self) -> (r: ProcessStdOut)
        ensures
            r@ == self@,
    {
        let mut messages: Vec<StdoutMessage> = Vec::new();
        let mut i: usize = 0;
        while i < self.process_buffer.len()
            invariant
                i <= self.process_buffer@.len(),
                messages@ == self.process_buffer@.take(i as int),
            decreases self.process_buffer@.len() - i,
        {
            messages.push(self.process_buffer[i].duplicate());
            i += 1;
            assert(messages@ =~= self.process_buffer@.take(i as int));
        }
        assert(self.process_buffer@.take(self.process_buffer@.len() as int) =~= self.process_buffer@);
        ProcessStdOut { process_buffer: messages, eventual_buffer: self.eventual_buffer.clone() }
    }

    /// An output stream with no text and no message.
    pub fn new() -> (r: Self)
        ensures
            r@ == (StdoutView { pending: Seq::empty(), text: Seq::empty() }),
    {
        let r = ProcessStdOut { process_buffer: Vec::new(), eventual_buffer: String::new() };
        assert(r@.pending =~= Seq::empty());
        r
    }

    /// Sends `message`.
    pub fn send(&mut self, message: StdoutMessage)
        ensures
            final(self)@ == (StdoutView { pending: old(self)@.pending.push(message@), ..old(self)@ }),
    {
        self.process_buffer.push(message);
        assert(self@.pending =~= old(self)@.pending.push(message@));
    }

    /// Sends `string` as text to append.
    pub fn write(&mut self, string: &str)
        ensures
            final(self)@ == (StdoutView {
                pending: old(self)@.pending.push(MessageView::Text(string@)),
                ..old(self)@
            }),
    {
        self.send(StdoutMessage::String(string.to_owned()));
    }

    /// Sends `string` and a line feed as text to append.
    pub fn writeln(&mut self, string: &str)
        ensures
            final(self)@ == (StdoutView {
                pending: old(self)@.pending.push(MessageView::Text(string@ + seq!['\n'])),
                ..old(self)@
            }),
    {
        let mut line = to_chars(string);
        line.push('\n');
        assert(line@ =~= string@ + seq!['\n']);
        self.send(StdoutMessage::String(from_chars(&line)));
    }

    /// Folds the messages sent so far into the text, oldest first, and
    /// forgets them.
    pub fn sync(&mut self)
        ensures
            final(self)@ == (StdoutView {
                pending: Seq::empty(),
                text: apply_all(old(self)@.text, old(self)@.pending, old(self)@.pending.len() as int),
            }),
    {
        let mut text = to_chars(self.eventual_buffer.as_str());
        let mut i: usize = 0;
        while i < self.process_buffer.len()
            invariant
                i <= self.process_buffer@.len(),
                self.process_buffer == old(self).process_buffer,
                text@ == apply_all(old(self)@.text, old(self)@.pending, i as int),
            decreases self.process_buffer@.len() - i,
        {
            text = apply_message(text, &self.process_buffer[i]);
            i += 1;
        }
        self.eventual_buffer = from_chars(&text);
        self.process_buffer.clear();
        assert(self@.pending =~= Seq::empty());
    }

    /// Drops the text. Messages not yet folded in stay.
    pub fn clear(&mut self)
        ensures
            final(self)@ == (StdoutView { text: Seq::empty(), ..old(self)@ }),
    {
        self.eventual_buffer = String::new();
    }

    /// Sends the request to drop the last `num` lines, or all of them where
    /// there are fewer.
    pub fn clear_lines(&mut self, num: u32)
        ensures
            final(self)@ == (StdoutView {
                pending: old(self)@.pending.push(MessageView::ClearLines(num)),
                ..old(self)@
            }),
    {
        self.send(StdoutMessage::ClearLines(num));
    }

    /// The text as of the last synchronisation.
    pub fn buffer(&self) -> (r: String)
        ensures
            r@ == self@.text,
    {
        self.eventual_buffer.clone()
    }

    /// The messages not yet folded in, oldest first.
    pub fn process_buffer(&self) -> (r: &Vec<StdoutMessage>)
        ensures
            r@.map_values(|m: StdoutMessage| m@) == self@.pending,
    {
        &self.process_buffer
    }
}

} // verus!
