use vstd::prelude::*;

use crate::error::TranslateError;
use object::{Object, ObjectSection, ObjectSymbol};

verus! {

/// One symbol of the container: its name, address, reported byte size,
/// and whether it names code.
pub struct SymbolRecord {
    pub name: String,
    pub address: u64,
    pub size: u64,
    pub is_code: bool,
}

/// The abstract value of a symbol record.
pub struct SymbolView {
    pub name: Seq<char>,
    pub address: u64,
    pub size: u64,
    pub is_code: bool,
}

impl View for SymbolRecord {
    type V = SymbolView;

    open spec fn view(&self) -> SymbolView {
        SymbolView { name: self.name@, address: self.address, size: self.size, is_code: self.is_code }
    }
}

/// One section of the container: its load address and its bytes.
pub struct SectionRecord {
    pub address: u64,
    pub data: Vec<u8>,
}

/// The abstract value of a section record.
pub struct SectionView {
    pub address: u64,
    pub data: Seq<u8>,
}

impl View for SectionRecord {
    type V = SectionView;

    open spec fn view(&self) -> SectionView {
        SectionView { address: self.address, data: self.data@ }
    }
}

/// Everything the resolver reads out of an object-file container.
pub struct ObjectSummary {
    pub symbols: Vec<SymbolRecord>,
    pub sections: Vec<SectionRecord>,
}

/// The abstract value of a summary.
pub struct ObjectSummaryView {
    pub symbols: Seq<SymbolView>,
    pub sections: Seq<SectionView>,
}

impl View for ObjectSummary {
    type V = ObjectSummaryView;

    open spec fn view(&self) -> ObjectSummaryView {
        ObjectSummaryView {
            symbols: Seq::new(self.symbols@.len(), |i: int| self.symbols@[i]@),
            sections: Seq::new(self.sections@.len(), |i: int| self.sections@[i]@),
        }
    }
}

/// What parsing an object-file container yields: its symbol and section
/// lists, or nothing when the bytes are no recognisable container.
/// Parsing is a pure function of the container bytes.
pub uninterp spec fn parsed_object(data: Seq<u8>) -> Option<ObjectSummaryView>;

/// Relies on `object::File::parse` and the `Object`, `ObjectSymbol` and
/// `ObjectSection` accessors (`symbols`, `name`, `address`, `size`,
/// `kind`; `sections`, `data`): lists every symbol with its name,
/// address, reported size and whether its kind is code, and every
/// section with its address and bytes. A symbol whose name, or a section
/// whose bytes, the container cannot deliver is recorded with an empty
/// name or no bytes.
#[verifier::external_body]
pub(crate) fn parse_object_summary(data: &Vec<u8>) -> (r: Option<ObjectSummary>)
    ensures
        match r {
            Some(s) => parsed_object(data@) == Some(s@),
            None => parsed_object(data@) == None::<ObjectSummaryView>,
        },
{
    let obj = match object::File::parse(data.as_slice()) { Ok(o) => o, Err(_) => return None };
    let mut symbols = Vec::new();
    for s in obj.symbols() {
        let name = s.name().unwrap_or("").to_string();
        let is_code = s.kind() == object::SymbolKind::Text;
        symbols.push(SymbolRecord { name, address: s.address(), size: s.size(), is_code });
    }
    let mut sections = Vec::new();
    for s in obj.sections() {
        sections.push(SectionRecord { address: s.address(), data: s.data().unwrap_or(&[]).to_vec() });
    }
    Some(ObjectSummary { symbols, sections })
}

/// First index at or after `i` of a code symbol named `name`; `-1` when
/// none.
pub open spec fn find_symbol(syms: Seq<SymbolView>, name: Seq<char>, i: int) -> int
    decreases syms.len() - i,
{
    if i < 0 || i >= syms.len() {
        -1
    } else if syms[i].is_code && syms[i].name == name {
        i
    } else {
        find_symbol(syms, name, i + 1)
    }
}

/// First index at or after `i` of a section whose range contains
/// `[addr, addr + size)`; `-1` when none.
pub open spec fn find_section(secs: Seq<SectionView>, addr: u64, size: u64, i: int) -> int
    decreases secs.len() - i,
{
    if i < 0 || i >= secs.len() {
        -1
    } else if secs[i].address <= addr && addr - secs[i].address <= secs[i].data.len()
        && size <= secs[i].data.len() - (addr - secs[i].address) {
        i
    } else {
        find_section(secs, addr, size, i + 1)
    }
}

/// Resolution over a parsed summary: the first code symbol of the exact
/// name gives address and size; the containing section gives the bytes;
/// exactly `size` bytes are sliced out. A missing symbol fails with
/// `SymbolNotFound`, a missing containing section with
/// `SectionNotFound`. A zero-size symbol resolves to the empty byte
/// sequence.
pub open spec fn spec_resolve_summary(s: ObjectSummaryView, name: Seq<char>) -> Result<
    (Seq<u8>, u64),
    TranslateError,
> {
    let si = find_symbol(s.symbols, name, 0);
    if si < 0 {
        Err(TranslateError::SymbolNotFound)
    } else {
        let sym = s.symbols[si];
        let ci = find_section(s.sections, sym.address, sym.size, 0);
        if ci < 0 {
            Err(TranslateError::SectionNotFound)
        } else {
            let sec = s.sections[ci];
            let off = sym.address - sec.address;
            Ok((sec.data.subrange(off, off + sym.size), sym.address))
        }
    }
}

/// Resolution over raw container bytes: an unreadable container resolves
/// no symbol.
pub open spec fn spec_resolve(data: Seq<u8>, name: Seq<char>) -> Result<
    (Seq<u8>, u64),
    TranslateError,
> {
    match parsed_object(data) {
        Some(s) => spec_resolve_summary(s, name),
        None => Err(TranslateError::SymbolNotFound),
    }
}

/// Extracts one function's raw bytes and load address from the parsed
/// container, exactly as `spec_resolve_summary` describes. Read-only; no
/// side effects.
pub fn resolve_function(summary: &ObjectSummary, name: &String) -> (r: Result<
    (Vec<u8>, u64),
    TranslateError,
>)
    ensures
        match r {
            Ok(p) => spec_resolve_summary(summary@, name@) == Ok::<(Seq<u8>, u64), TranslateError>(
                (p.0@, p.1),
            ),
            Err(e) => spec_resolve_summary(summary@, name@) == Err::<(Seq<u8>, u64), TranslateError>(
                e,
            ),
        },
{
    let nsyms = summary.symbols.len();
    let mut i: usize = 0;
    let mut sym_found = false;
    while i < nsyms && !sym_found
        invariant
            i <= nsyms,
            nsyms == summary.symbols@.len(),
            find_symbol(summary@.symbols, name@, 0) == if !sym_found {
                find_symbol(summary@.symbols, name@, i as int)
            } else {
                i as int
            },
            sym_found ==> i < nsyms,
        decreases nsyms - i + (if !sym_found { 1int } else { 0int }),
    {
        let s = &summary.symbols[i];
        if s.is_code && s.name == *name {
            sym_found = true;
        } else {
            i = i + 1;
        }
    }
    if !sym_found {
        return Err(TranslateError::SymbolNotFound);
    }
    let sym = &summary.symbols[i];
    let addr = sym.address;
    let size = sym.size;
    let nsecs = summary.sections.len();
    let mut c: usize = 0;
    let mut sec_found = false;
    while c < nsecs && !sec_found
        invariant
            c <= nsecs,
            nsecs == summary.sections@.len(),
            find_section(summary@.sections, addr, size, 0) == if !sec_found {
                find_section(summary@.sections, addr, size, c as int)
            } else {
                c as int
            },
            sec_found ==> c < nsecs && summary.sections@[c as int].address <= addr && addr
                - summary.sections@[c as int].address <= summary.sections@[c as int].data@.len()
                && size <= summary.sections@[c as int].data@.len() - (addr
                - summary.sections@[c as int].address),
        decreases nsecs - c + (if !sec_found { 1int } else { 0int }),
    {
        let s = &summary.sections[c];
        let dlen = s.data.len() as u64;
        if s.address <= addr && addr - s.address <= dlen && size <= dlen - (addr - s.address) {
            sec_found = true;
        } else {
            c = c + 1;
        }
    }
    if !sec_found {
        return Err(TranslateError::SectionNotFound);
    }
    let sec = &summary.sections[c];
    let off = addr - sec.address;
    let dlen = sec.data.len();
    let mut code: Vec<u8> = Vec::new();
    let mut k: u64 = 0;
    while k < size
        invariant
            k <= size,
            off == addr - sec.address,
            sec == &summary.sections[c as int],
            c < summary.sections@.len(),
            dlen == sec.data@.len(),
            off + size <= dlen,
            code@ == sec.data@.subrange(off as int, off + k),
        decreases size - k,
    {
        code.push(sec.data[(off + k) as usize]);
        proof {
            assert(sec.data@.subrange(off as int, off + k + 1) =~= sec.data@.subrange(
                off as int,
                off + k,
            ).push(sec.data@[off + k]));
        }
        k = k + 1;
    }
    proof {
        assert(code@ =~= summary@.sections[c as int].data.subrange(off as int, off + size));
    }
    Ok((code, addr))
}

} // verus!
