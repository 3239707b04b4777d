use nrf54_audio::elf::{rtt_symbol, rtt_symbol_address, ElfError, ElfSymbol};

fn symbol(name: Option<&str>, address: u64) -> ElfSymbol {
    ElfSymbol { name: name.map(String::from), address }
}

fn put16(out: &mut Vec<u8>, x: u16) {
    out.extend(x.to_le_bytes());
}

fn put32(out: &mut Vec<u8>, x: u32) {
    out.extend(x.to_le_bytes());
}

fn section(out: &mut Vec<u8>, name: u32, kind: u32, offset: u32, size: u32, link: u32, entsize: u32) {
    for x in [name, kind, 0, 0, offset, size, link, if kind == 2 { 1 } else { 0 }, 1, entsize] {
        put32(out, x);
    }
}

/// A 32-bit ARM object with the given symbols.
fn elf(symbols: &[(&str, u32)]) -> Vec<u8> {
    let mut strings: Vec<u8> = vec![0];
    let mut table: Vec<u8> = vec![0; 16];
    for (name, value) in symbols {
        put32(&mut table, strings.len() as u32);
        put32(&mut table, *value);
        put32(&mut table, 4);
        table.push(0x11);
        table.push(0);
        put16(&mut table, 0xFFF1);
        strings.extend(name.as_bytes());
        strings.push(0);
    }
    let section_names: &[u8] = b"\0.symtab\0.strtab\0.shstrtab\0";
    let symtab_at: u32 = 52;
    let strtab_at = symtab_at + table.len() as u32;
    let shstrtab_at = strtab_at + strings.len() as u32;
    let sections_at = (shstrtab_at + section_names.len() as u32 + 3) / 4 * 4;

    let mut out: Vec<u8> = vec![0x7F, b'E', b'L', b'F', 1, 1, 1, 0, 0, 0, 0, 0, 0, 0, 0, 0];
    put16(&mut out, 2);
    put16(&mut out, 40);
    put32(&mut out, 1);
    put32(&mut out, 0);
    put32(&mut out, 0);
    put32(&mut out, sections_at);
    put32(&mut out, 0);
    for x in [52, 32, 0, 40, 4, 3] {
        put16(&mut out, x);
    }
    out.extend(&table);
    out.extend(&strings);
    out.extend(section_names);
    out.resize(sections_at as usize, 0);
    section(&mut out, 0, 0, 0, 0, 0, 0);
    section(&mut out, 1, 2, symtab_at, table.len() as u32, 2, 16);
    section(&mut out, 9, 3, strtab_at, strings.len() as u32, 0, 0);
    section(&mut out, 17, 3, shstrtab_at, section_names.len() as u32, 0, 0);
    out
}

#[test]
fn the_first_symbol_of_that_name_counts() {
    assert_eq!(rtt_symbol(&vec![]), None);
    assert_eq!(rtt_symbol(&vec![symbol(None, 1), symbol(Some("main"), 2)]), None);
    let list = vec![
        symbol(None, 1),
        symbol(Some("_SEGGER_RTT_"), 2),
        symbol(Some("_SEGGER_RTT"), 3),
        symbol(Some("_SEGGER_RTT"), 4),
    ];
    assert_eq!(rtt_symbol(&list), Some(3));
}

#[test]
fn a_firmware_file_with_a_control_block() {
    let file = elf(&[("main", 0x100), ("_SEGGER_RTT", 0x2000_0040), ("_SEGGER_RTT", 0x2000_0080)]);
    assert_eq!(rtt_symbol_address(&file).ok().unwrap(), Some(0x2000_0040));
}

#[test]
fn a_firmware_file_without_a_control_block() {
    assert_eq!(rtt_symbol_address(&elf(&[("main", 0x100)])).ok().unwrap(), None);
    assert_eq!(rtt_symbol_address(&elf(&[])).ok().unwrap(), None);
}

#[test]
fn not_an_object_file() {
    assert!(matches!(rtt_symbol_address(&[]), Err(ElfError::Parse(_))));
    assert!(matches!(rtt_symbol_address(b"this is not an object file"), Err(ElfError::Parse(_))));
}

#[test]
fn the_reader_agrees_with_the_crate() {
    let file = elf(&[("a", 7), ("_SEGGER_RTT", 9)]);
    let parsed = object::File::parse(&*file).unwrap();
    let found = object::Object::symbols(&parsed)
        .find(|s| object::ObjectSymbol::name(s) == Ok("_SEGGER_RTT"))
        .map(|s| object::ObjectSymbol::address(&s));
    assert_eq!(rtt_symbol_address(&file).ok().unwrap(), found);
    assert_eq!(found, Some(9));
}
