//! What a module asks of its memory, read from the module's bytes.
//!
//! A module either imports its memory or defines it. The import section is
//! looked at first where both are there; within a section the first memory
//! counts.

use vstd::prelude::*;

verus! {

/// What a module asks of the memory it runs in.
#[derive(Debug, Clone, Copy, PartialEq, Eq, Structural)]
pub struct WasmRequirements {
    /// The size of the memory at the start, in pages.
    pub initial_memory: u32,
    /// The cap on the size of the memory, in pages.
    pub maximum_memory: Option<u32>,
    /// Whether several execution units share the memory.
    pub shared_memory: bool,
}

/// The section that holds the imports.
pub const IMPORT_SECTION: u8 = 2;

/// The section that holds the memories that the module defines.
pub const MEMORY_SECTION: u8 = 5;

/// The number at `at` in the variable-length encoding that gives seven bits
/// per byte, lowest first, and marks every byte but the last with its top
/// bit; at most `n` bytes are read. The result is the number and the place
/// behind it, or nothing where the bytes end too soon or the number has
/// more than `n` bytes.
pub open spec fn varint(bytes: Seq<u8>, at: int, n: int) -> Option<(int, int)>
    decreases n,
{
    if n <= 0 || at < 0 || at >= bytes.len() {
        None
    } else if bytes[at] < 128 {
        Some((bytes[at] as int, at + 1))
    } else {
        match varint(bytes, at + 1, n - 1) {
            Some((rest, next)) => Some((bytes[at] - 128 + 128 * rest, next)),
            None => None,
        }
    }
}

/// The 32-bit number at `at`: at most five bytes, and a value that fits.
pub open spec fn varuint32(bytes: Seq<u8>, at: int) -> Option<(int, int)> {
    match varint(bytes, at, 5) {
        Some((value, next)) => if value <= u32::MAX {
            Some((value, next))
        } else {
            None
        },
        None => None,
    }
}

/// The limits at `at`, as a table has them: a flag byte that says whether
/// a maximum follows, the minimum and, where the flag says so, the maximum.
/// The result is the place behind them.
pub open spec fn table_limits_end(bytes: Seq<u8>, at: int) -> Option<int> {
    if at < 0 || at >= bytes.len() || bytes[at] > 1 {
        None
    } else {
        match varuint32(bytes, at + 1) {
            Some((_, next)) => if bytes[at] == 0 {
                Some(next)
            } else {
                match varuint32(bytes, next) {
                    Some((_, end)) => Some(end),
                    None => None,
                }
            },
            None => None,
        }
    }
}

/// The limits at `at`, as a memory has them: a flag byte whose lowest bit
/// says whether a maximum follows and whose next bit says whether the
/// memory is shared, the minimum and, where the flag says so, the maximum.
/// The result is what the memory asks for and the place behind the limits.
pub open spec fn memory_limits(bytes: Seq<u8>, at: int) -> Option<(WasmRequirements, int)> {
    if at < 0 || at >= bytes.len() || bytes[at] > 3 {
        None
    } else {
        let shared = bytes[at] >= 2;
        match varuint32(bytes, at + 1) {
            Some((initial, next)) => if bytes[at] == 0 || bytes[at] == 2 {
                Some(
                    (
                        WasmRequirements {
                            initial_memory: initial as u32,
                            maximum_memory: None,
                            shared_memory: shared,
                        },
                        next,
                    ),
                )
            } else {
                match varuint32(bytes, next) {
                    Some((maximum, end)) => Some(
                        (
                            WasmRequirements {
                                initial_memory: initial as u32,
                                maximum_memory: Some(maximum as u32),
                                shared_memory: shared,
                            },
                            end,
                        ),
                    ),
                    None => None,
                }
            },
            None => None,
        }
    }
}

/// The place behind the name at `at`: a length and that many bytes, all of
/// them before `end`.
pub open spec fn name_end(bytes: Seq<u8>, at: int, end: int) -> Option<int> {
    match varuint32(bytes, at) {
        Some((len, next)) => if next + len <= end {
            Some(next + len)
        } else {
            None
        },
        None => None,
    }
}

/// What a look through imports gave.
pub enum Found {
    /// The bytes are not what they should be.
    Malformed,
    /// No memory among them; the place behind them.
    Nothing(int),
    /// A memory.
    Memory(WasmRequirements),
}

/// The look through `count` imports from `at` on, none of which may pass
/// `end`. Each import is two names and what is imported: a function with
/// the index of its type, a table with the type of its elements and its
/// limits, a memory with its limits, a global with its type and whether it
/// changes, or a tag with its kind and the index of its type. The first
/// memory ends the look.
pub open spec fn imports(bytes: Seq<u8>, at: int, count: int, end: int) -> Found
    decreases count,
{
    if count <= 0 {
        Found::Nothing(at)
    } else {
        match name_end(bytes, at, end) {
            None => Found::Malformed,
            Some(field) => match name_end(bytes, field, end) {
                None => Found::Malformed,
                Some(kind) => if kind >= end {
                    Found::Malformed
                } else if bytes[kind] == 2 {
                    match memory_limits(bytes, kind + 1) {
                        Some((memory, next)) => if next <= end {
                            Found::Memory(memory)
                        } else {
                            Found::Malformed
                        },
                        None => Found::Malformed,
                    }
                } else {
                    match import_end(bytes, kind) {
                        Some(next) => if next <= end {
                            imports(bytes, next, count - 1, end)
                        } else {
                            Found::Malformed
                        },
                        None => Found::Malformed,
                    }
                },
            },
        }
    }
}

/// The place behind what is imported at `kind`, for an import that is no
/// memory.
pub open spec fn import_end(bytes: Seq<u8>, kind: int) -> Option<int> {
    if bytes[kind] == 0 {
        match varuint32(bytes, kind + 1) {
            Some((_, next)) => Some(next),
            None => None,
        }
    } else if bytes[kind] == 1 {
        table_limits_end(bytes, kind + 2)
    } else if bytes[kind] == 3 {
        if kind + 3 <= bytes.len() {
            Some(kind + 3)
        } else {
            None
        }
    } else if bytes[kind] == 4 {
        match varuint32(bytes, kind + 2) {
            Some((_, next)) => Some(next),
            None => None,
        }
    } else {
        None
    }
}

/// What the section with the id `id` whose content is `[start, end)` says
/// of the memory: the import section by its first imported memory, the
/// memory section by its first memory, any other section nothing.
pub open spec fn section(bytes: Seq<u8>, id: u8, start: int, end: int) -> Found {
    if id == IMPORT_SECTION {
        match varuint32(bytes, start) {
            Some((count, first)) => if first <= end {
                match imports(bytes, first, count, end) {
                    Found::Nothing(_) => Found::Nothing(end),
                    found => found,
                }
            } else {
                Found::Malformed
            },
            None => Found::Malformed,
        }
    } else if id == MEMORY_SECTION {
        match varuint32(bytes, start) {
            Some((count, first)) => if first > end {
                Found::Malformed
            } else if count == 0 {
                Found::Nothing(end)
            } else {
                match memory_limits(bytes, first) {
                    Some((memory, next)) => if next <= end {
                        Found::Memory(memory)
                    } else {
                        Found::Malformed
                    },
                    None => Found::Malformed,
                }
            },
            None => Found::Malformed,
        }
    } else {
        Found::Nothing(end)
    }
}

/// What the sections from `at` on say of the memory: what the first
/// section says that says anything. A section is an id, the length of its
/// content and the content. There is nothing where the bytes are not what
/// they should be, and nothing where no section names a memory.
pub open spec fn sections(bytes: Seq<u8>, at: int) -> Option<WasmRequirements>
    decreases bytes.len() - at,
{
    if at < 0 || at >= bytes.len() {
        None
    } else {
        match varuint32(bytes, at + 1) {
            Some((len, start)) => if start + len > bytes.len() {
                None
            } else {
                match section(bytes, bytes[at], start, start + len) {
                    Found::Malformed => None,
                    Found::Memory(memory) => Some(memory),
                    Found::Nothing(_) => if start + len > at {
                        sections(bytes, start + len)
                    } else {
                        None
                    },
                }
            },
            None => None,
        }
    }
}

/// Whether `bytes` start as a module does: the four bytes that spell
/// `\0asm` and version 1.
pub open spec fn has_header(bytes: Seq<u8>) -> bool {
    &&& bytes.len() >= 8
    &&& bytes[0] == 0x00
    &&& bytes[1] == 0x61
    &&& bytes[2] == 0x73
    &&& bytes[3] == 0x6d
    &&& bytes[4] == 0x01
    &&& bytes[5] == 0x00
    &&& bytes[6] == 0x00
    &&& bytes[7] == 0x00
}

/// What the module `bytes` asks of its memory, or nothing where the bytes
/// are no module or the module names no memory.
pub open spec fn requirements_of(bytes: Seq<u8>) -> Option<WasmRequirements> {
    if has_header(bytes) {
        sections(bytes, 8)
    } else {
        None
    }
}

/// The largest number that `n` bytes encode, plus one.
pub open spec fn varint_bound(n: int) -> int
    decreases n,
{
    if n <= 0 {
        1
    } else {
        128 * varint_bound(n - 1)
    }
}

/// The bound is at least one.
pub proof fn lemma_varint_bound(n: int)
    ensures
        varint_bound(n) >= 1,
    decreases n,
{
    if n > 0 {
        lemma_varint_bound(n - 1);
    }
}

/// A number read from at most `n` bytes is below the bound for `n` bytes,
/// and the place behind it lies behind where it starts and inside the
/// bytes.
pub proof fn lemma_varint(bytes: Seq<u8>, at: int, n: int)
    requires
        varint(bytes, at, n) is Some,
    ensures
        0 <= varint(bytes, at, n).unwrap().0 < varint_bound(n),
        at < varint(bytes, at, n).unwrap().1 <= bytes.len(),
        varint(bytes, at, n).unwrap().1 <= at + n,
    decreases n,
{
    lemma_varint_bound(n - 1);
    if bytes[at] >= 128 {
        lemma_varint(bytes, at + 1, n - 1);
    }
}

/// The number at `at`, read from at most `n` bytes.
fn read_varint(bytes: &[u8], at: usize, n: u8) -> (r: Option<(u64, usize)>)
    requires
        n <= 5,
    ensures
        match r {
            Some((value, next)) => varint(bytes@, at as int, n as int) == Some((value as int, next as int)),
            None => varint(bytes@, at as int, n as int) is None,
        },
    decreases n,
{
    if n == 0 || at >= bytes.len() {
        return None;
    }
    let byte = bytes[at];
    if byte < 128 {
        return Some((byte as u64, at + 1));
    }
    match read_varint(bytes, at + 1, n - 1) {
        Some((rest, next)) => {
            proof {
                lemma_varint(bytes@, at + 1, n - 1);
                reveal_with_fuel(varint_bound, 6);
            }
            Some(((byte - 128) as u64 + 128 * rest, next))
        },
        None => None,
    }
}

/// The 32-bit number at `at`.
fn read_varuint32(bytes: &[u8], at: usize) -> (r: Option<(u32, usize)>)
    ensures
        match r {
            Some((value, next)) => varuint32(bytes@, at as int) == Some((value as int, next as int)) && at
                < next <= bytes@.len(),
            None => varuint32(bytes@, at as int) is None,
        },
{
    match read_varint(bytes, at, 5) {
        Some((value, next)) => {
            proof {
                lemma_varint(bytes@, at as int, 5);
            }
            if value <= u32::MAX as u64 {
                Some((value as u32, next))
            } else {
                None
            }
        },
        None => None,
    }
}

/// The place behind the limits of a table at `at`.
fn read_table_limits(bytes: &[u8], at: usize) -> (r: Option<usize>)
    ensures
        match r {
            Some(end) => table_limits_end(bytes@, at as int) == Some(end as int) && at < end <= bytes@.len(),
            None => table_limits_end(bytes@, at as int) is None,
        },
{
    if at >= bytes.len() || bytes[at] > 1 {
        return None;
    }
    let (_, next) = read_varuint32(bytes, at + 1)?;
    if bytes[at] == 0 {
        return Some(next);
    }
    let (_, end) = read_varuint32(bytes, next)?;
    Some(end)
}

/// The limits of a memory at `at`.
fn read_memory_limits(bytes: &[u8], at: usize) -> (r: Option<(WasmRequirements, usize)>)
    ensures
        match r {
            Some((memory, end)) => memory_limits(bytes@, at as int) == Some((memory, end as int)) && at < end
                <= bytes@.len(),
            None => memory_limits(bytes@, at as int) is None,
        },
{
    if at >= bytes.len() || bytes[at] > 3 {
        return None;
    }
    let flag = bytes[at];
    let shared_memory = flag >= 2;
    let (initial_memory, next) = read_varuint32(bytes, at + 1)?;
    if flag == 0 || flag == 2 {
        return Some((WasmRequirements { initial_memory, maximum_memory: None, shared_memory }, next));
    }
    let (maximum, end) = read_varuint32(bytes, next)?;
    Some((WasmRequirements { initial_memory, maximum_memory: Some(maximum), shared_memory }, end))
}

/// The place behind the name at `at`.
fn read_name(bytes: &[u8], at: usize, end: usize) -> (r: Option<usize>)
    requires
        end <= bytes@.len(),
    ensures
        match r {
            Some(next) => name_end(bytes@, at as int, end as int) == Some(next as int) && at < next <= end,
            None => name_end(bytes@, at as int, end as int) is None,
        },
{
    let (len, next) = read_varuint32(bytes, at)?;
    if next > end || len as usize > end - next {
        return None;
    }
    Some(next + len as usize)
}

/// The place behind what is imported at `kind`.
fn read_import_end(bytes: &[u8], kind: usize) -> (r: Option<usize>)
    requires
        kind < bytes@.len(),
    ensures
        match r {
            Some(next) => import_end(bytes@, kind as int) == Some(next as int) && kind < next
                <= bytes@.len(),
            None => import_end(bytes@, kind as int) is None,
        },
{
    let tag = bytes[kind];
    if tag == 0 {
        let (_, next) = read_varuint32(bytes, kind + 1)?;
        Some(next)
    } else if tag == 1 {
        if bytes.len() - kind <= 2 {
            return None;
        }
        read_table_limits(bytes, kind + 2)
    } else if tag == 3 {
        if bytes.len() - kind < 3 {
            return None;
        }
        Some(kind + 3)
    } else if tag == 4 {
        if bytes.len() - kind <= 2 {
            return None;
        }
        let (_, next) = read_varuint32(bytes, kind + 2)?;
        Some(next)
    } else {
        None
    }
}

/// What a look through imports gave.
enum Look {
    Malformed,
    Nothing(usize),
    Memory(WasmRequirements),
}

impl Look {
    /// The same as a mathematical value.
    spec fn found(self) -> Found {
        match self {
            Look::Malformed => Found::Malformed,
            Look::Nothing(at) => Found::Nothing(at as int),
            Look::Memory(memory) => Found::Memory(memory),
        }
    }
}

/// The look through `count` imports from `at` on.
fn read_imports(bytes: &[u8], first: usize, count: u32, end: usize) -> (r: Look)
    requires
        end <= bytes@.len(),
    ensures
        r.found() == imports(bytes@, first as int, count as int, end as int),
{
    let mut at = first;
    let mut left = count;
    while left > 0
        invariant
            end <= bytes@.len(),
            imports(bytes@, at as int, left as int, end as int) == imports(
                bytes@,
                first as int,
                count as int,
                end as int,
            ),
        decreases left,
    {
        let field = match read_name(bytes, at, end) {
            Some(field) => field,
            None => {
                return Look::Malformed;
            },
        };
        let kind = match read_name(bytes, field, end) {
            Some(kind) => kind,
            None => {
                return Look::Malformed;
            },
        };
        if kind >= end {
            return Look::Malformed;
        }
        if bytes[kind] == 2 {
            return match read_memory_limits(bytes, kind + 1) {
                Some((memory, next)) => if next <= end {
                    Look::Memory(memory)
                } else {
                    Look::Malformed
                },
                None => Look::Malformed,
            };
        }
        match read_import_end(bytes, kind) {
            Some(next) => {
                if next > end {
                    return Look::Malformed;
                }
                at = next;
                left -= 1;
            },
            None => {
                return Look::Malformed;
            },
        }
    }
    Look::Nothing(at)
}

/// What the section with the id `id` and the content `[start, end)` says
/// of the memory.
fn read_section(bytes: &[u8], id: u8, start: usize, end: usize) -> (r: Look)
    requires
        start <= end <= bytes@.len(),
    ensures
        r.found() == section(bytes@, id, start as int, end as int),
{
    if id == IMPORT_SECTION {
        match read_varuint32(bytes, start) {
            Some((count, first)) => {
                if first > end {
                    return Look::Malformed;
                }
                match read_imports(bytes, first, count, end) {
                    Look::Nothing(_) => Look::Nothing(end),
                    found => found,
                }
            },
            None => Look::Malformed,
        }
    } else if id == MEMORY_SECTION {
        match read_varuint32(bytes, start) {
            Some((count, first)) => {
                if first > end {
                    return Look::Malformed;
                }
                if count == 0 {
                    return Look::Nothing(end);
                }
                match read_memory_limits(bytes, first) {
                    Some((memory, next)) => if next <= end {
                        Look::Memory(memory)
                    } else {
                        Look::Malformed
                    },
                    None => Look::Malformed,
                }
            },
            None => Look::Malformed,
        }
    } else {
        Look::Nothing(end)
    }
}

impl WasmRequirements {
    /// Reads what the module `bytes` asks of its memory. There is nothing
    /// where the bytes are no module or the module names no memory.
    pub fn parse(bytes: &[u8]) -> (r: Option<WasmRequirements>)
        ensures
            r == requirements_of(bytes@),
    {
        if bytes.len() < 8 || bytes[0] != 0x00 || bytes[1] != 0x61 || bytes[2] != 0x73 || bytes[3] != 0x6d
            || bytes[4] != 0x01 || bytes[5] != 0x00 || bytes[6] != 0x00 || bytes[7] != 0x00 {
            return None;
        }
        let mut at: usize = 8;
        while at < bytes.len()
            invariant
                sections(bytes@, at as int) == requirements_of(bytes@),
            decreases bytes@.len() - at,
        {
            let id = bytes[at];
            let (len, start) = match read_varuint32(bytes, at + 1) {
                Some(found) => found,
                None => {
                    return None;
                },
            };
            if len as usize > bytes.len() - start {
                return None;
            }
            let end = start + len as usize;
            match read_section(bytes, id, start, end) {
                Look::Malformed => {
                    return None;
                },
                Look::Memory(memory) => {
                    return Some(memory);
                },
                Look::Nothing(_) => {
                    at = end;
                },
            }
        }
        None
    }
}

} // verus!
