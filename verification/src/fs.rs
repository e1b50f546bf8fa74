//! Paths and file-system labels.

use crate::chars::{extend_chars, from_chars, to_chars};
use vstd::prelude::*;
use vstd::string::StringSliceAdditionalSpecFns;

verus! {

/// The first `k` characters of `text` read from the left and cut at `sep`:
/// the pieces that a separator has closed so far and the piece that is
/// still open.
pub open spec fn scan_pieces(text: Seq<char>, sep: char, k: int) -> (Seq<Seq<char>>, Seq<char>)
    decreases k,
{
    if k <= 0 {
        (Seq::empty(), Seq::empty())
    } else {
        let (closed, open) = scan_pieces(text, sep, k - 1);
        if text[k - 1] == sep {
            (closed.push(open), Seq::empty())
        } else {
            (closed, open.push(text[k - 1]))
        }
    }
}

/// The pieces of `text` between separators, empty ones included: one more
/// than there are separators.
pub open spec fn pieces(text: Seq<char>, sep: char) -> Seq<Seq<char>> {
    let (closed, open) = scan_pieces(text, sep, text.len() as int);
    closed.push(open)
}

/// The parts that are left of the first `k` of `parts` when `.` stands for
/// staying and `..` for dropping the part before it.
pub open spec fn resolve(parts: Seq<Seq<char>>, k: int) -> Seq<Seq<char>>
    decreases k,
{
    if k <= 0 {
        Seq::empty()
    } else {
        let kept = resolve(parts, k - 1);
        let part = parts[k - 1];
        if part == seq!['.'] {
            kept
        } else if part == seq!['.', '.'] {
            if kept.len() > 0 {
                kept.drop_last()
            } else {
                kept
            }
        } else {
            kept.push(part)
        }
    }
}

/// The first `k` of `parts`, empty ones left out, with `sep` between them.
pub open spec fn join_filled(parts: Seq<Seq<char>>, sep: char, k: int) -> Seq<char>
    decreases k,
{
    if k <= 0 {
        Seq::empty()
    } else {
        let joined = join_filled(parts, sep, k - 1);
        let part = parts[k - 1];
        if part.len() == 0 {
            joined
        } else if joined.len() == 0 {
            part
        } else {
            joined + seq![sep] + part
        }
    }
}

/// The shortest form of `path`: its parts resolved and its empty parts
/// dropped.
pub open spec fn normalized(path: Seq<char>) -> Seq<char> {
    let kept = resolve(pieces(path, '/'), pieces(path, '/').len() as int);
    join_filled(kept, '/', kept.len() as int)
}

/// The position of the last `/` among the first `k` characters of `path`,
/// or -1 when there is none.
pub open spec fn last_slash(path: Seq<char>, k: int) -> int
    decreases k,
{
    if k <= 0 {
        -1
    } else if path[k - 1] == '/' {
        k - 1
    } else {
        last_slash(path, k - 1)
    }
}

/// What each of `parts` holds.
pub open spec fn part_views(parts: Seq<Vec<char>>) -> Seq<Seq<char>> {
    parts.map_values(|part: Vec<char>| part@)
}

/// The pieces of `text` between separators.
fn split(text: &Vec<char>, sep: char) -> (r: Vec<Vec<char>>)
    ensures
        part_views(r@) == pieces(text@, sep),
{
    let mut closed: Vec<Vec<char>> = Vec::new();
    let mut open: Vec<char> = Vec::new();
    let mut k: usize = 0;
    assert(part_views(closed@) =~= Seq::<Seq<char>>::empty());
    while k < text.len()
        invariant
            k <= text@.len(),
            (part_views(closed@), open@) == scan_pieces(text@, sep, k as int),
        decreases text@.len() - k,
    {
        let c = text[k];
        if c == sep {
            let ghost before = part_views(closed@);
            closed.push(open);
            assert(part_views(closed@) =~= before.push(open@));
            open = Vec::new();
        } else {
            open.push(c);
        }
        k += 1;
    }
    let ghost before = part_views(closed@);
    closed.push(open);
    assert(part_views(closed@) =~= before.push(open@));
    closed
}

/// Whether `part` is the text `.`.
fn is_dot(part: &Vec<char>) -> (r: bool)
    ensures
        r == (part@ == seq!['.']),
{
    let r = part.len() == 1 && part[0] == '.';
    assert(r ==> part@ =~= seq!['.']);
    assert(part@ == seq!['.'] ==> part@.len() == 1 && part@[0] == '.');
    r
}

/// Whether `part` is the text `..`.
fn is_dot_dot(part: &Vec<char>) -> (r: bool)
    ensures
        r == (part@ == seq!['.', '.']),
{
    let r = part.len() == 2 && part[0] == '.' && part[1] == '.';
    assert(r ==> part@ =~= seq!['.', '.']);
    assert(part@ == seq!['.', '.'] ==> part@.len() == 2 && part@[0] == '.' && part@[1] == '.');
    r
}

/// Convert a path to the smallest possible representation: `.` is dropped,
/// `..` drops the part before it, and empty parts are dropped after that.
pub fn normalize_path(path: &str) -> (r: String)
    ensures
        r@ == normalized(path@),
{
    let text = to_chars(path);
    let parts = split(&text, '/');
    let mut kept: Vec<Vec<char>> = Vec::new();
    let mut k: usize = 0;
    assert(part_views(kept@) =~= Seq::<Seq<char>>::empty());
    while k < parts.len()
        invariant
            k <= parts@.len(),
            part_views(kept@) == resolve(part_views(parts@), k as int),
        decreases parts@.len() - k,
    {
        let ghost before = part_views(kept@);
        if is_dot(&parts[k]) {
        } else if is_dot_dot(&parts[k]) {
            if kept.len() > 0 {
                kept.pop();
                assert(part_views(kept@) =~= before.drop_last());
            }
        } else {
            kept.push(clone_chars(&parts[k]));
            assert(part_views(kept@) =~= before.push(parts@[k as int]@));
        }
        k += 1;
    }
    let mut joined: Vec<char> = Vec::new();
    let mut i: usize = 0;
    while i < kept.len()
        invariant
            i <= kept@.len(),
            joined@ == join_filled(part_views(kept@), '/', i as int),
        decreases kept@.len() - i,
    {
        if kept[i].len() > 0 {
            if joined.len() > 0 {
                joined.push('/');
                assert(joined@ =~= join_filled(part_views(kept@), '/', i as int) + seq!['/']);
            }
            extend_chars(&mut joined, &kept[i]);
        }
        i += 1;
    }
    from_chars(&joined)
}

/// A copy of `v`.
fn clone_chars(v: &Vec<char>) -> (r: Vec<char>)
    ensures
        r@ == v@,
{
    let mut r: Vec<char> = Vec::new();
    extend_chars(&mut r, v);
    assert(r@ =~= v@);
    r
}

/// Split a path at its last `/` into the directory and the name. A path
/// without `/` is all name.
pub fn split_name_path(path: &str) -> (r: (String, String))
    ensures
        r.0@ == path@.subrange(
            0,
            if last_slash(path@, path@.len() as int) < 0 {
                0
            } else {
                last_slash(path@, path@.len() as int)
            },
        ),
        r.1@ == path@.subrange(last_slash(path@, path@.len() as int) + 1, path@.len() as int),
{
    let text = to_chars(path);
    let mut cut: usize = 0;
    let mut found = false;
    let mut k: usize = 0;
    while k < text.len()
        invariant
            k <= text@.len(),
            found ==> cut == last_slash(text@, k as int),
            !found ==> last_slash(text@, k as int) == -1 && cut == 0,
            cut <= k,
        decreases text@.len() - k,
    {
        if text[k] == '/' {
            cut = k;
            found = true;
        }
        k += 1;
    }
    proof {
        lemma_last_slash(text@, text@.len() as int);
    }
    let mut dir: Vec<char> = Vec::new();
    let mut i: usize = 0;
    while i < cut
        invariant
            i <= cut <= text@.len(),
            dir@ == text@.subrange(0, i as int),
        decreases cut - i,
    {
        dir.push(text[i]);
        i += 1;
        assert(dir@ =~= text@.subrange(0, i as int));
    }
    let start: usize = if found {
        cut + 1
    } else {
        0
    };
    let mut name: Vec<char> = Vec::new();
    let mut j: usize = start;
    while j < text.len()
        invariant
            start <= j <= text@.len(),
            name@ == text@.subrange(start as int, j as int),
        decreases text@.len() - j,
    {
        name.push(text[j]);
        j += 1;
        assert(name@ =~= text@.subrange(start as int, j as int));
    }
    (from_chars(&dir), from_chars(&name))
}

/// `last_slash` finds a `/` with none behind it, or -1 where there is none.
pub proof fn lemma_last_slash(path: Seq<char>, k: int)
    requires
        0 <= k <= path.len(),
    ensures
        -1 <= last_slash(path, k) < k,
        last_slash(path, k) >= 0 ==> path[last_slash(path, k)] == '/',
        forall|j: int| last_slash(path, k) < j < k ==> path[j] != '/',
    decreases k,
{
    if k > 0 && path[k - 1] != '/' {
        lemma_last_slash(path, k - 1);
    }
}

/// The label for a mounted file system.
#[derive(Debug, Clone, Copy, PartialEq, Eq, Hash, Structural)]
pub enum FsLabel {
    A,
    B,
    C,
    D,
    E,
    F,
    G,
    H,
    I,
    J,
    K,
    L,
    M,
    N,
    O,
    P,
    Q,
    R,
    S,
    T,
    U,
    V,
    W,
    X,
    Y,
    Z,
}

/// Why a text or a path gave no label.
#[derive(Debug)]
pub enum LabelError {
    /// The text is not a letter from A to Z.
    NotAFsLabel(String),
    /// The path does not start with a label.
    NoFsLabel(String),
}

/// The label that a letter stands for, in either case.
pub open spec fn label_of(c: char) -> Option<FsLabel> {
    if c == 'a' || c == 'A' {
        Some(FsLabel::A)
    } else if c == 'b' || c == 'B' {
        Some(FsLabel::B)
    } else if c == 'c' || c == 'C' {
        Some(FsLabel::C)
    } else if c == 'd' || c == 'D' {
        Some(FsLabel::D)
    } else if c == 'e' || c == 'E' {
        Some(FsLabel::E)
    } else if c == 'f' || c == 'F' {
        Some(FsLabel::F)
    } else if c == 'g' || c == 'G' {
        Some(FsLabel::G)
    } else if c == 'h' || c == 'H' {
        Some(FsLabel::H)
    } else if c == 'i' || c == 'I' {
        Some(FsLabel::I)
    } else if c == 'j' || c == 'J' {
        Some(FsLabel::J)
    } else if c == 'k' || c == 'K' {
        Some(FsLabel::K)
    } else if c == 'l' || c == 'L' {
        Some(FsLabel::L)
    } else if c == 'm' || c == 'M' {
        Some(FsLabel::M)
    } else if c == 'n' || c == 'N' {
        Some(FsLabel::N)
    } else if c == 'o' || c == 'O' {
        Some(FsLabel::O)
    } else if c == 'p' || c == 'P' {
        Some(FsLabel::P)
    } else if c == 'q' || c == 'Q' {
        Some(FsLabel::Q)
    } else if c == 'r' || c == 'R' {
        Some(FsLabel::R)
    } else if c == 's' || c == 'S' {
        Some(FsLabel::S)
    } else if c == 't' || c == 'T' {
        Some(FsLabel::T)
    } else if c == 'u' || c == 'U' {
        Some(FsLabel::U)
    } else if c == 'v' || c == 'V' {
        Some(FsLabel::V)
    } else if c == 'w' || c == 'W' {
        Some(FsLabel::W)
    } else if c == 'x' || c == 'X' {
        Some(FsLabel::X)
    } else if c == 'y' || c == 'Y' {
        Some(FsLabel::Y)
    } else if c == 'z' || c == 'Z' {
        Some(FsLabel::Z)
    } else {
        None
    }
}

/// The label that a text stands for: the text is one letter from A to Z, in
/// either case, or the Kelvin sign U+212A, whose lower case is `k`.
pub open spec fn label_of_text(s: Seq<char>) -> Option<FsLabel> {
    if s.len() != 1 {
        None
    } else if s[0] == '\u{212A}' {
        Some(FsLabel::K)
    } else {
        label_of(s[0])
    }
}

/// The label that starts a path, or the reason why there is none. A path
/// has a label when it holds a colon and starts with a character of one
/// byte; that character then has to be a letter.
pub open spec fn label_of_path(path: Seq<char>) -> Result<FsLabel, Option<char>> {
    if !path.contains(':') || path.len() == 0 || path[0] as u32 >= 128 {
        Err(None)
    } else {
        match label_of(path[0]) {
            Some(label) => Ok(label),
            None => Err(Some(path[0])),
        }
    }
}

/// The label that a letter stands for.
fn letter_label(c: char) -> (r: Option<FsLabel>)
    ensures
        r == label_of(c),
{
    match c {
        'a' | 'A' => Some(FsLabel::A),
        'b' | 'B' => Some(FsLabel::B),
        'c' | 'C' => Some(FsLabel::C),
        'd' | 'D' => Some(FsLabel::D),
        'e' | 'E' => Some(FsLabel::E),
        'f' | 'F' => Some(FsLabel::F),
        'g' | 'G' => Some(FsLabel::G),
        'h' | 'H' => Some(FsLabel::H),
        'i' | 'I' => Some(FsLabel::I),
        'j' | 'J' => Some(FsLabel::J),
        'k' | 'K' => Some(FsLabel::K),
        'l' | 'L' => Some(FsLabel::L),
        'm' | 'M' => Some(FsLabel::M),
        'n' | 'N' => Some(FsLabel::N),
        'o' | 'O' => Some(FsLabel::O),
        'p' | 'P' => Some(FsLabel::P),
        'q' | 'Q' => Some(FsLabel::Q),
        'r' | 'R' => Some(FsLabel::R),
        's' | 'S' => Some(FsLabel::S),
        't' | 'T' => Some(FsLabel::T),
        'u' | 'U' => Some(FsLabel::U),
        'v' | 'V' => Some(FsLabel::V),
        'w' | 'W' => Some(FsLabel::W),
        'x' | 'X' => Some(FsLabel::X),
        'y' | 'Y' => Some(FsLabel::Y),
        'z' | 'Z' => Some(FsLabel::Z),
        _ => None,
    }
}

impl FsLabel {
    /// The label that `s` names: one letter from A to Z in either case.
    pub fn from_str(s: &str) -> (r: Result<FsLabel, LabelError>)
        ensures
            match r {
                Ok(label) => label_of_text(s@) == Some(label),
                Err(LabelError::NotAFsLabel(text)) => label_of_text(s@) is None && text@ == s@,
                Err(LabelError::NoFsLabel(_)) => false,
            },
    {
        let text = to_chars(s);
        if text.len() == 1 {
            if text[0] == '\u{212A}' {
                return Ok(FsLabel::K);
            }
            if let Some(label) = letter_label(text[0]) {
                return Ok(label);
            }
        }
        Err(LabelError::NotAFsLabel(s.to_owned()))
    }

    /// Extract the label from a path such as `c:/dir/file`.
    pub fn extract_from_path(path: &str) -> (r: Result<FsLabel, LabelError>)
        requires
            vstd::utf8::is_char_boundary(path.spec_bytes(), 3),
        ensures
            match r {
                Ok(label) => label_of_path(path@) == Ok::<FsLabel, Option<char>>(label),
                Err(LabelError::NoFsLabel(text)) => label_of_path(path@) == Err::<FsLabel, Option<char>>(None)
                    && text@ == path@,
                Err(LabelError::NotAFsLabel(text)) => label_of_path(path@) == Err::<FsLabel, Option<char>>(
                    Some(text@[0]),
                ) && text@ == seq![path@[0]],
            },
    {
        let text = to_chars(path);
        let mut colon = false;
        let mut k: usize = 0;
        while k < text.len()
            invariant
                k <= text@.len(),
                colon == text@.take(k as int).contains(':'),
            decreases text@.len() - k,
        {
            if text[k] == ':' {
                colon = true;
            }
            k += 1;
            proof {
                let before = text@.take(k - 1);
                let now = text@.take(k as int);
                assert(now =~= before.push(text@[k - 1]));
                if before.contains(':') {
                    let i = choose|i: int| 0 <= i < before.len() && before[i] == ':';
                    assert(now[i] == ':');
                }
                if text@[k - 1] == ':' {
                    assert(now[k - 1] == ':');
                }
            }
        }
        assert(text@.take(text@.len() as int) =~= text@);
        if !colon || text.len() == 0 || text[0] as u32 >= 128 {
            return Err(LabelError::NoFsLabel(path.to_owned()));
        }
        match letter_label(text[0]) {
            Some(label) => Ok(label),
            None => {
                let mut first: Vec<char> = Vec::new();
                first.push(text[0]);
                assert(first@ =~= seq![path@[0]]);
                Err(LabelError::NotAFsLabel(from_chars(&first)))
            },
        }
    }
}

} // verus!
