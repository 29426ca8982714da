//! Checks of the line-row decisions and the relocation writer.

use clif_lower::debuginfo::{
    line_rows, DebugAddress, DebugReloc, InstInfo, LineRow, RelocName, SourceLoc, WriterRelocate,
};

fn loc(line: u64) -> SourceLoc {
    SourceLoc { file: 1, line, col: 0 }
}

fn inst(offset: u64, size: u64, srcloc: Option<usize>) -> InstInfo {
    InstInfo { offset, size, srcloc }
}

#[test]
fn rows_follow_location_changes() {
    let fn_loc = loc(10);
    let spans = vec![loc(11), loc(12)];
    let insts = vec![
        inst(0, 4, Some(0)),
        inst(4, 4, Some(0)),  // same location: no row
        inst(8, 2, Some(1)),  // new location: row
        inst(10, 2, None),    // no location: breaks the run
        inst(12, 4, Some(1)), // same location again, but after a break: row
    ];
    let rows = line_rows(&insts, &spans, fn_loc, 16);
    assert_eq!(
        rows,
        vec![
            LineRow { address_offset: 0, loc: loc(11), prologue_end: true },
            LineRow { address_offset: 8, loc: loc(12), prologue_end: false },
            LineRow { address_offset: 12, loc: loc(12), prologue_end: false },
        ]
    );
}

#[test]
fn late_first_location_covers_the_prologue() {
    let fn_loc = loc(10);
    let spans = vec![loc(42)];
    let insts = vec![inst(0, 4, None), inst(4, 4, Some(0))];
    let rows = line_rows(&insts, &spans, fn_loc, 8);
    assert_eq!(
        rows,
        vec![
            LineRow { address_offset: 0, loc: fn_loc, prologue_end: false },
            LineRow { address_offset: 4, loc: loc(42), prologue_end: true },
        ]
    );
}

#[test]
fn trailing_code_gets_a_closing_row() {
    let fn_loc = loc(10);
    let spans = vec![loc(42)];
    let insts = vec![inst(0, 4, Some(0)), inst(4, 4, None)];
    let rows = line_rows(&insts, &spans, fn_loc, 8);
    assert_eq!(
        rows,
        vec![
            LineRow { address_offset: 0, loc: loc(42), prologue_end: true },
            LineRow { address_offset: 4, loc: fn_loc, prologue_end: false },
        ]
    );
}

#[test]
fn no_locations_at_all_yield_one_fallback_row() {
    let fn_loc = loc(10);
    let rows = line_rows(&vec![inst(0, 4, None)], &vec![], fn_loc, 4);
    assert_eq!(rows, vec![LineRow { address_offset: 0, loc: fn_loc, prologue_end: false }]);
}

#[test]
fn absolute_addresses_are_written_symbol_addresses_are_relocated() {
    let mut w = WriterRelocate::new(vec![700, 701]);
    w.write(&[0xAA, 0xBB]);
    assert_eq!(w.len(), 2);
    w.write_address(DebugAddress::Absolute(0x01020304), 4);
    assert_eq!(w.data, vec![0xAA, 0xBB, 0x04, 0x03, 0x02, 0x01]);
    assert_eq!(w.relocs, vec![]);
    w.write_address(DebugAddress::Relative { symbol: 1, addend: 5 }, 8);
    assert_eq!(&w.data[6..], &[0u8; 8]);
    assert_eq!(
        w.relocs,
        vec![DebugReloc { offset: 6, size: 8, name: RelocName::Symbol(701), addend: 5 }]
    );
}

#[test]
fn section_offsets_are_zeroed_and_relocated() {
    let mut w = WriterRelocate::new(vec![]);
    w.write(&[1, 2, 3, 4, 5, 6]);
    w.write_offset(0x30, 9, 4);
    assert_eq!(&w.data[6..], &[0u8; 4]);
    assert_eq!(
        w.relocs,
        vec![DebugReloc { offset: 6, size: 4, name: RelocName::Section(9), addend: 0x30 }]
    );
    w.write_offset_at(1, 0x44, 9, 4);
    assert_eq!(&w.data[..6], &[1, 0, 0, 0, 0, 6]);
    assert_eq!(w.relocs.len(), 2);
    assert_eq!(
        w.relocs[1],
        DebugReloc { offset: 1, size: 4, name: RelocName::Section(9), addend: 0x44 }
    );
}
