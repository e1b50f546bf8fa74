use honeyos::requirements::WasmRequirements;

const HEADER: [u8; 8] = [0x00, 0x61, 0x73, 0x6d, 0x01, 0x00, 0x00, 0x00];

fn module_of(sections: &[&[u8]]) -> Vec<u8> {
    let mut bytes = HEADER.to_vec();
    for section in sections {
        bytes.extend_from_slice(section);
    }
    bytes
}

fn asks(initial: u32, maximum: Option<u32>, shared: bool) -> Option<WasmRequirements> {
    Some(WasmRequirements { initial_memory: initial, maximum_memory: maximum, shared_memory: shared })
}

#[test]
fn defined_memory() {
    assert_eq!(WasmRequirements::parse(&module_of(&[&[5, 3, 1, 0, 2]])), asks(2, None, false));
    assert_eq!(WasmRequirements::parse(&module_of(&[&[5, 4, 1, 1, 2, 9]])), asks(2, Some(9), false));
    assert_eq!(WasmRequirements::parse(&module_of(&[&[5, 4, 1, 3, 1, 4]])), asks(1, Some(4), true));
    assert_eq!(WasmRequirements::parse(&module_of(&[&[5, 3, 1, 2, 7]])), asks(7, None, true));
}

#[test]
fn numbers_of_several_bytes() {
    // 256 is 0x80 0x02; 65536 is 0x80 0x80 0x04.
    assert_eq!(
        WasmRequirements::parse(&module_of(&[&[5, 7, 1, 1, 0x80, 0x02, 0x80, 0x80, 0x04]])),
        asks(256, Some(65536), false)
    );
    // The largest 32-bit number.
    assert_eq!(
        WasmRequirements::parse(&module_of(&[&[5, 7, 1, 0, 0xff, 0xff, 0xff, 0xff, 0x0f]])),
        asks(u32::MAX, None, false)
    );
    // One more than that does not fit.
    assert_eq!(WasmRequirements::parse(&module_of(&[&[5, 7, 1, 0, 0x80, 0x80, 0x80, 0x80, 0x10]])), None);
    // Six bytes are too many.
    assert_eq!(
        WasmRequirements::parse(&module_of(&[&[5, 8, 1, 0, 0x80, 0x80, 0x80, 0x80, 0x80, 0x00]])),
        None
    );
    // A number may be written longer than it needs to be.
    assert_eq!(WasmRequirements::parse(&module_of(&[&[5, 4, 1, 0, 0x83, 0x00]])), asks(3, None, false));
}

#[test]
fn imported_memory() {
    // import "env" "memory" (memory 1 8 shared)
    let import: &[u8] =
        &[2, 16, 1, 3, b'e', b'n', b'v', 6, b'm', b'e', b'm', b'o', b'r', b'y', 2, 3, 1, 8];
    assert_eq!(WasmRequirements::parse(&module_of(&[import])), asks(1, Some(8), true));
    // The import section is looked at before the memory section.
    assert_eq!(WasmRequirements::parse(&module_of(&[import, &[5, 3, 1, 0, 2]])), asks(1, Some(8), true));
}

#[test]
fn imports_before_the_memory_are_passed_over() {
    let imports: &[u8] = &[
        2, 36, 5, //
        1, b'a', 1, b'f', 0, 0x85, 0x01, // a function of type 133
        1, b'a', 1, b't', 1, 0x70, 1, 1, 2, // a table with a maximum
        1, b'a', 1, b'g', 3, 0x7f, 1, // a global
        0, 0, 4, 0, 3, // a tag with empty names
        1, b'a', 1, b'm', 2, 0, 5, // the memory
    ];
    assert_eq!(WasmRequirements::parse(&module_of(&[imports])), asks(5, None, false));
}

#[test]
fn other_sections_are_passed_over() {
    let custom: &[u8] = &[0, 4, 3, b'a', b'b', b'c'];
    let types: &[u8] = &[1, 1, 0];
    let no_memory_imports: &[u8] = &[2, 7, 1, 1, b'a', 1, b'f', 0, 0];
    let memory: &[u8] = &[5, 3, 1, 0, 6];
    assert_eq!(
        WasmRequirements::parse(&module_of(&[custom, types, no_memory_imports, memory])),
        asks(6, None, false)
    );
    // An empty section is passed over too.
    assert_eq!(WasmRequirements::parse(&module_of(&[&[0, 0], memory])), asks(6, None, false));
    // A memory section without a memory says nothing.
    assert_eq!(WasmRequirements::parse(&module_of(&[&[5, 1, 0], memory])), asks(6, None, false));
}

#[test]
fn module_without_memory() {
    assert_eq!(WasmRequirements::parse(&HEADER), None);
    assert_eq!(WasmRequirements::parse(&module_of(&[&[1, 1, 0]])), None);
    assert_eq!(WasmRequirements::parse(&module_of(&[&[5, 1, 0]])), None);
}

#[test]
fn what_is_no_module() {
    assert_eq!(WasmRequirements::parse(&[]), None);
    assert_eq!(WasmRequirements::parse(&[0, 0x61, 0x73, 0x6d]), None);
    assert_eq!(WasmRequirements::parse(&[0, 0x61, 0x73, 0x6d, 2, 0, 0, 0, 5, 3, 1, 0, 2]), None);
    assert_eq!(WasmRequirements::parse(&[1, 0x61, 0x73, 0x6d, 1, 0, 0, 0, 5, 3, 1, 0, 2]), None);
}

#[test]
fn malformed_sections() {
    // The section is longer than the bytes.
    assert_eq!(WasmRequirements::parse(&module_of(&[&[5, 9, 1, 0, 2]])), None);
    // The limits pass the end of the section.
    assert_eq!(WasmRequirements::parse(&module_of(&[&[5, 2, 1, 0, 2]])), None);
    // A flag that is none.
    assert_eq!(WasmRequirements::parse(&module_of(&[&[5, 3, 1, 4, 2]])), None);
    // A maximum is announced and missing.
    assert_eq!(WasmRequirements::parse(&module_of(&[&[5, 3, 1, 1, 2]])), None);
    // The length of the section is cut off.
    assert_eq!(WasmRequirements::parse(&module_of(&[&[5]])), None);
    assert_eq!(WasmRequirements::parse(&module_of(&[&[5, 0x80]])), None);
    // An import of a kind that is none.
    assert_eq!(WasmRequirements::parse(&module_of(&[&[2, 6, 1, 1, b'a', 1, b'f', 9]])), None);
    // A name that passes the end of its section.
    assert_eq!(WasmRequirements::parse(&module_of(&[&[2, 3, 1, 5, b'a'], &[5, 3, 1, 0, 2]])), None);
    // Fewer imports than announced.
    assert_eq!(
        WasmRequirements::parse(&module_of(&[&[2, 7, 2, 1, b'a', 1, b'f', 0, 0], &[5, 3, 1, 0, 2]])),
        None
    );
}
