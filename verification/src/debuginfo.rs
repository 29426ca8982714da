//! Line-table rows for the debug-information emitter.
//!
//! The debug-information collaborator wants, for one lowered function, a
//! sequence of line-program rows: at which code offset the source
//! location changes, and where the prologue ends. Deciding those rows
//! from the instruction offsets and their source locations is this
//! module's [`line_rows`]; feeding them to the emitter, which writes the
//! actual sections, stays outside.
//!
//! The decisions, instruction by instruction: an instruction without a
//! source location breaks the run and emits nothing; an instruction that
//! repeats the previous location emits nothing; the first located
//! instruction ends the prologue, and when it does not sit at offset
//! zero, a row for the function's own location covers the code before
//! it; and code past the last located instruction gets a closing row at
//! the function's own location again.

use vstd::prelude::*;

verus! {

/// A resolved source location: file, line and column, as the
/// line-program wants them.
#[derive(Clone, Copy, Debug, PartialEq, Eq, Structural)]
pub struct SourceLoc {
    pub file: u64,
    pub line: u64,
    pub col: u64,
}

/// One emitted instruction, as the row decisions see it: its byte offset
/// in the function's code, its encoded size, and which span of the IR it
/// came from — `None` for compiler-synthesized code with no location.
#[derive(Clone, Copy, Debug, PartialEq, Eq, Structural)]
pub struct InstInfo {
    pub offset: u64,
    pub size: u64,
    pub srcloc: Option<usize>,
}

/// One line-program row: from this code offset on, the source location
/// is `loc`; `prologue_end` marks the first row of user code.
#[derive(Clone, Copy, Debug, PartialEq, Eq, Structural)]
pub struct LineRow {
    pub address_offset: u64,
    pub loc: SourceLoc,
    pub prologue_end: bool,
}

/// The row decisions after the first `k` instructions: the rows emitted
/// so far, the location of the last located instruction, whether no
/// located instruction was seen yet, whether the next row ends the
/// prologue, and the code offset just past the last located instruction.
pub open spec fn spec_rows_after(
    insts: Seq<InstInfo>,
    spans: Seq<SourceLoc>,
    fn_loc: SourceLoc,
    k: int,
) -> (Seq<LineRow>, Option<SourceLoc>, bool, bool, u64)
    decreases k,
{
    if k <= 0 {
        (Seq::empty(), None, true, false, 0)
    } else {
        let (rows, prev, first, pending, end) = spec_rows_after(insts, spans, fn_loc, k - 1);
        let inst = insts[k - 1];
        match inst.srcloc {
            None => (rows, None, first, pending, end),
            Some(ix) => {
                let span = spans[ix as int];
                if prev == Some(span) {
                    (rows, prev, first, pending, end)
                } else {
                    let (rows1, pending1) = if first {
                        if inst.offset != 0 {
                            (
                                rows.push(
                                    LineRow { address_offset: 0, loc: fn_loc, prologue_end: false },
                                ),
                                true,
                            )
                        } else {
                            (rows, true)
                        }
                    } else {
                        (rows, pending)
                    };
                    (
                        rows1.push(
                            LineRow {
                                address_offset: inst.offset,
                                loc: span,
                                prologue_end: pending1,
                            },
                        ),
                        Some(span),
                        false,
                        false,
                        (inst.offset + inst.size) as u64,
                    )
                }
            },
        }
    }
}

/// The full row sequence for one function: the rows its instructions
/// demand, and a closing row at the function's own location when code
/// runs past the last located instruction.
pub open spec fn spec_line_rows(
    insts: Seq<InstInfo>,
    spans: Seq<SourceLoc>,
    fn_loc: SourceLoc,
    code_size: u64,
) -> Seq<LineRow> {
    let (rows, _, _, _, end) = spec_rows_after(insts, spans, fn_loc, insts.len() as int);
    if code_size != end {
        rows.push(LineRow { address_offset: end, loc: fn_loc, prologue_end: false })
    } else {
        rows
    }
}

/// Decide the line-program rows of one function from its instructions'
/// offsets and source locations.
pub fn line_rows(
    insts: &Vec<InstInfo>,
    spans: &Vec<SourceLoc>,
    fn_loc: SourceLoc,
    code_size: u64,
) -> (r: Vec<LineRow>)
    requires
        forall|i: int|
            0 <= i < insts@.len() ==> ((#[trigger] insts@[i]).srcloc matches Some(ix) ==> ix
                < spans@.len()),
        forall|i: int|
            0 <= i < insts@.len() ==> (#[trigger] insts@[i]).offset + insts@[i].size
                <= 0x1_0000_0000,
    ensures
        r@ == spec_line_rows(insts@, spans@, fn_loc, code_size),
{
    let n: usize = insts.len();
    let mut rows: Vec<LineRow> = Vec::new();
    let mut prev: Option<SourceLoc> = None;
    let mut first: bool = true;
    let mut pending: bool = false;
    let mut end: u64 = 0;
    let mut i: usize = 0;
    while i < n
        invariant
            i <= n,
            n == insts@.len(),
            forall|j: int|
                0 <= j < insts@.len() ==> ((#[trigger] insts@[j]).srcloc matches Some(ix) ==> ix
                    < spans@.len()),
            forall|j: int|
                0 <= j < insts@.len() ==> (#[trigger] insts@[j]).offset + insts@[j].size
                    <= 0x1_0000_0000,
            (rows@, prev, first, pending, end) == spec_rows_after(
                insts@,
                spans@,
                fn_loc,
                i as int,
            ),
        decreases n - i,
    {
        let inst: InstInfo = insts[i];
        match inst.srcloc {
            Option::None => {
                prev = None;
            },
            Option::Some(ix) => {
                let span: SourceLoc = spans[ix];
                let same: bool = match prev {
                    Option::Some(p) => p == span,
                    Option::None => false,
                };
                if !same {
                    if first {
                        if inst.offset != 0 {
                            rows.push(
                                LineRow { address_offset: 0, loc: fn_loc, prologue_end: false },
                            );
                        }
                        pending = true;
                        first = false;
                    }
                    rows.push(
                        LineRow { address_offset: inst.offset, loc: span, prologue_end: pending },
                    );
                    pending = false;
                    prev = Some(span);
                    end = inst.offset + inst.size;
                }
            },
        }
        i = i + 1;
    }
    if code_size != end {
        rows.push(LineRow { address_offset: end, loc: fn_loc, prologue_end: false });
    }
    rows
}


/// Where a relocation points: a declared function or data symbol, or one
/// of the debug sections being written.
#[derive(Clone, Copy, Debug, PartialEq, Eq, Structural)]
pub enum RelocName {
    Symbol(u64),
    Section(u64),
}

/// One relocation a debug section needs once section and symbol
/// addresses are known: patch `size` bytes at `offset` with the address
/// of `name` plus `addend`.
#[derive(Clone, Copy, Debug, PartialEq, Eq, Structural)]
pub struct DebugReloc {
    pub offset: u64,
    pub size: u8,
    pub name: RelocName,
    pub addend: i64,
}

/// An address the debug writer is given: known outright, or the address
/// a symbol will get, plus an addend.
#[derive(Clone, Copy, Debug, PartialEq, Eq, Structural)]
pub enum DebugAddress {
    Absolute(u64),
    Relative { symbol: usize, addend: i64 },
}

/// The little-endian bytes of `v` were appended to `old`: the data grew
/// by `w` bytes encoding `v`.
pub open spec fn appended_word(old: Seq<u8>, new: Seq<u8>, v: u64, w: nat) -> bool {
    &&& new.len() == old.len() + w
    &&& forall|i: int| 0 <= i < old.len() ==> #[trigger] new[i] == old[i]
    &&& crate::bytes::holds_le(new, old.len() as int, w, v as nat)
}

/// A debug-section writer that records relocations instead of resolving
/// them: addresses and section offsets are written as zero words, and a
/// relocation notes what belongs there once the addresses exist.
pub struct WriterRelocate {
    /// The section bytes written so far.
    pub data: Vec<u8>,
    /// The relocations the section needs.
    pub relocs: Vec<DebugReloc>,
    /// The symbol each relative address refers to, by index.
    pub symbols: Vec<u64>,
}

impl WriterRelocate {
    /// A fresh writer over the given symbol table.
    pub fn new(symbols: Vec<u64>) -> (r: WriterRelocate)
        ensures
            r.data@.len() == 0,
            r.relocs@.len() == 0,
            r.symbols == symbols,
    {
        WriterRelocate { data: Vec::new(), relocs: Vec::new(), symbols }
    }

    /// How many bytes the section holds so far.
    pub fn len(&self) -> (r: usize)
        ensures
            r == self.data@.len(),
    {
        self.data.len()
    }

    /// Append bytes as they are.
    pub fn write(&mut self, bytes: &[u8])
        ensures
            final(self).data@ == old(self).data@ + bytes@,
            final(self).relocs == old(self).relocs,
            final(self).symbols == old(self).symbols,
    {
        self.data.extend_from_slice(bytes);
    }

    /// Overwrite bytes at `offset` with `bytes`.
    pub fn write_at(&mut self, offset: usize, bytes: &[u8])
        requires
            offset + bytes@.len() <= old(self).data@.len(),
        ensures
            final(self).data@.len() == old(self).data@.len(),
            forall|i: int|
                0 <= i < old(self).data@.len() && !(offset <= i < offset + bytes@.len())
                    ==> #[trigger] final(self).data@[i] == old(self).data@[i],
            forall|i: int|
                offset <= i < offset + bytes@.len() ==> #[trigger] final(self).data@[i]
                    == bytes@[i - offset],
            final(self).relocs == old(self).relocs,
            final(self).symbols == old(self).symbols,
    {
        let n: usize = bytes.len();
        let total: usize = self.data.len();
        let mut k: usize = 0;
        while k < n
            invariant
                k <= n,
                n == bytes@.len(),
                offset + n <= total,
                total == self.data@.len(),
                self.data@.len() == old(self).data@.len(),
                forall|i: int|
                    0 <= i < old(self).data@.len() && !(offset <= i < offset + k)
                        ==> #[trigger] self.data@[i] == old(self).data@[i],
                forall|i: int|
                    offset <= i < offset + k ==> #[trigger] self.data@[i] == bytes@[i - offset],
                self.relocs == old(self).relocs,
                self.symbols == old(self).symbols,
            decreases n - k,
        {
            self.data[offset + k] = bytes[k];
            k = k + 1;
        }
    }

    /// Append `v` as a little-endian word of `size` bytes.
    pub fn write_word(&mut self, v: u64, size: u8)
        requires
            size <= 8,
            crate::bytes::fits(v, size as nat),
            old(self).data@.len() + size <= usize::MAX,
        ensures
            appended_word(old(self).data@, final(self).data@, v, size as nat),
            final(self).relocs == old(self).relocs,
            final(self).symbols == old(self).symbols,
    {
        let w: u64 = size as u64;
        let mut cur: u64 = v;
        let mut k: u64 = 0;
        proof {
            assert(crate::bytes::pow256(0) == 1);
            assert((v as nat) / crate::bytes::pow256(0) == v as nat);
        }
        while k < w
            invariant
                0 <= k <= w,
                w <= 8,
                self.data@.len() == old(self).data@.len() + k,
                self.data@.len() + w <= usize::MAX + k,
                cur == (v as nat) / crate::bytes::pow256(k as nat),
                forall|i: int|
                    0 <= i < old(self).data@.len() ==> #[trigger] self.data@[i] == old(
                        self,
                    ).data@[i],
                forall|i: int|
                    old(self).data@.len() <= i < self.data@.len() ==> #[trigger] self.data@[i]
                        == crate::bytes::nth_byte(v as nat, (i - old(self).data@.len()) as nat),
                self.relocs == old(self).relocs,
                self.symbols == old(self).symbols,
            decreases w - k,
        {
            let byte: u8 = (cur % 256) as u8;
            proof {
                assert(byte == crate::bytes::nth_byte(v as nat, k as nat));
                crate::bytes::lemma_pow256_pos(k as nat);
                vstd::arithmetic::div_mod::lemma_div_denominator(
                    v as int,
                    crate::bytes::pow256(k as nat) as int,
                    256,
                );
                assert(crate::bytes::pow256((k + 1) as nat) == 256 * crate::bytes::pow256(
                    k as nat,
                ));
                assert(crate::bytes::pow256(k as nat) * 256 == 256 * crate::bytes::pow256(
                    k as nat,
                ));
            }
            self.data.push(byte);
            cur = cur / 256;
            k = k + 1;
        }
    }

    /// Write an address of `size` bytes: a known address is written as it
    /// is; the address a symbol will get is written as zero, and a
    /// relocation records what to patch in.
    pub fn write_address(&mut self, address: DebugAddress, size: u8)
        requires
            size <= 8,
            address matches DebugAddress::Absolute(v) ==> crate::bytes::fits(v, size as nat),
            address matches DebugAddress::Relative { symbol, .. } ==> symbol < old(
                self,
            ).symbols@.len(),
            old(self).data@.len() + size <= u32::MAX,
        ensures
            final(self).symbols == old(self).symbols,
            match address {
                DebugAddress::Absolute(v) => {
                    &&& appended_word(old(self).data@, final(self).data@, v, size as nat)
                    &&& final(self).relocs == old(self).relocs
                },
                DebugAddress::Relative { symbol, addend } => {
                    &&& appended_word(old(self).data@, final(self).data@, 0, size as nat)
                    &&& final(self).relocs@ == old(self).relocs@.push(
                        DebugReloc {
                            offset: old(self).data@.len() as u64,
                            size,
                            name: RelocName::Symbol(old(self).symbols@[symbol as int]),
                            addend,
                        },
                    )
                },
            },
    {
        match address {
            DebugAddress::Absolute(v) => self.write_word(v, size),
            DebugAddress::Relative { symbol, addend } => {
                let offset: u64 = self.len() as u64;
                let name: u64 = self.symbols[symbol];
                self.relocs.push(
                    DebugReloc { offset, size, name: RelocName::Symbol(name), addend },
                );
                proof {
                    crate::bytes::lemma_pow256_pos(size as nat);
                }
                self.write_word(0, size);
            },
        }
    }

    /// Write an offset into another debug section: a zero word now, a
    /// relocation against that section for later.
    pub fn write_offset(&mut self, val: u64, section: u64, size: u8)
        requires
            size <= 8,
            val <= i64::MAX,
            old(self).data@.len() + size <= u32::MAX,
        ensures
            final(self).symbols == old(self).symbols,
            appended_word(old(self).data@, final(self).data@, 0, size as nat),
            final(self).relocs@ == old(self).relocs@.push(
                DebugReloc {
                    offset: old(self).data@.len() as u64,
                    size,
                    name: RelocName::Section(section),
                    addend: val as i64,
                },
            ),
    {
        let offset: u64 = self.len() as u64;
        self.relocs.push(
            DebugReloc { offset, size, name: RelocName::Section(section), addend: val as i64 },
        );
        proof {
            crate::bytes::lemma_pow256_pos(size as nat);
        }
        self.write_word(0, size);
    }

    /// Patch an offset into another debug section at `offset`: zero bytes
    /// now, a relocation against that section for later.
    pub fn write_offset_at(&mut self, offset: usize, val: u64, section: u64, size: u8)
        requires
            size <= 8,
            val <= i64::MAX,
            offset + size <= old(self).data@.len(),
            offset <= u32::MAX,
        ensures
            final(self).symbols == old(self).symbols,
            final(self).data@.len() == old(self).data@.len(),
            forall|i: int|
                0 <= i < old(self).data@.len() && !(offset <= i < offset + size)
                    ==> #[trigger] final(self).data@[i] == old(self).data@[i],
            forall|i: int|
                offset <= i < offset + size ==> #[trigger] final(self).data@[i] == 0,
            final(self).relocs@ == old(self).relocs@.push(
                DebugReloc {
                    offset: offset as u64,
                    size,
                    name: RelocName::Section(section),
                    addend: val as i64,
                },
            ),
    {
        self.relocs.push(
            DebugReloc {
                offset: offset as u64,
                size,
                name: RelocName::Section(section),
                addend: val as i64,
            },
        );
        let n: usize = size as usize;
        let zeros: Vec<u8> = vec![0u8; n];
        self.write_at(offset, zeros.as_slice());
    }
}

} // verus!
