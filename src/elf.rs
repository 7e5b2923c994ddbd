//! An ELF64 (little-endian) reader over an in-memory image.
use vstd::prelude::*;
use vstd::utf8::decode_utf8;
use vstd::utf8::valid_utf8;

use crate::error::Error;
use crate::error::ErrorKind;

pub mod parser;

pub use parser::Elf64Parser;

verus! {

/// The index of the undefined section.
pub const SHN_UNDEF: u16 = 0;

/// Symbol type: unspecified.
pub const STT_NOTYPE: u8 = 0;

/// Symbol type: a data object.
pub const STT_OBJECT: u8 = 1;

/// Symbol type: a function.
pub const STT_FUNC: u8 = 2;

/// Size in bytes of the file header.
pub const EHDR_SIZE: usize = 64;

/// Size in bytes of a section header.
pub const SHDR_SIZE: usize = 64;

/// Size in bytes of a symbol table entry.
pub const SYM_SIZE: usize = 24;

// ---------------------------------------------------------------------------
// Little-endian decoding
// ---------------------------------------------------------------------------

/// The 16-bit little-endian number at `o`.
pub open spec fn le16(d: Seq<u8>, o: int) -> int {
    d[o] as int + d[o + 1] as int * 0x100
}

/// The 32-bit little-endian number at `o`.
pub open spec fn le32(d: Seq<u8>, o: int) -> int {
    le16(d, o) + le16(d, o + 2) * 0x10000
}

/// The 64-bit little-endian number at `o`.
pub open spec fn le64(d: Seq<u8>, o: int) -> int {
    le32(d, o) + le32(d, o + 4) * 0x1_0000_0000
}

fn read_le16(d: &[u8], o: usize) -> (r: u16)
    requires
        o + 2 <= d.len(),
    ensures
        r as int == le16(d@, o as int),
{
    d[o] as u16 + d[o + 1] as u16 * 0x100
}

fn read_le32(d: &[u8], o: usize) -> (r: u32)
    requires
        o + 4 <= d.len(),
    ensures
        r as int == le32(d@, o as int),
{
    let lo = read_le16(d, o);
    let hi = read_le16(d, o + 2);
    lo as u32 + hi as u32 * 0x10000
}

fn read_le64(d: &[u8], o: usize) -> (r: u64)
    requires
        o + 8 <= d.len(),
    ensures
        r as int == le64(d@, o as int),
{
    let lo = read_le32(d, o);
    let hi = read_le32(d, o + 4);
    lo as u64 + hi as u64 * 0x1_0000_0000
}

// ---------------------------------------------------------------------------
// Records
// ---------------------------------------------------------------------------

/// The file header.
#[derive(Clone, Debug)]
pub struct Elf64Ehdr {
    /// The identity block: magic number, class, data encoding, version.
    pub e_ident: Vec<u8>,
    pub e_type: u16,
    pub e_machine: u16,
    pub e_version: u32,
    /// Entry point virtual address.
    pub e_entry: u64,
    /// Program header table file offset.
    pub e_phoff: u64,
    /// Section header table file offset.
    pub e_shoff: u64,
    pub e_flags: u32,
    pub e_ehsize: u16,
    pub e_phentsize: u16,
    pub e_phnum: u16,
    pub e_shentsize: u16,
    pub e_shnum: u16,
    /// Index of the section-header string table.
    pub e_shstrndx: u16,
}

/// A section header.
#[derive(Clone, Copy, Debug, PartialEq, Eq, Structural)]
pub struct Elf64Shdr {
    /// Section name, an offset into the section-header string table.
    pub sh_name: u32,
    pub sh_type: u32,
    pub sh_flags: u64,
    /// Virtual address at execution.
    pub sh_addr: u64,
    /// File offset of the section's bytes.
    pub sh_offset: u64,
    /// Size of the section in bytes.
    pub sh_size: u64,
    pub sh_link: u32,
    pub sh_info: u32,
    pub sh_addralign: u64,
    pub sh_entsize: u64,
}

/// A symbol table entry.
#[allow(non_camel_case_types)]
#[derive(Clone, Copy, Debug, PartialEq, Eq, Structural)]
pub struct Elf64_Sym {
    /// Symbol name, an offset into the string table.
    pub st_name: u32,
    /// Type (low four bits) and binding (high four bits).
    pub st_info: u8,
    pub st_other: u8,
    /// Index of the section the symbol is defined in.
    pub st_shndx: u16,
    /// The value of the symbol, its virtual address.
    pub st_value: u64,
    /// Size of the symbol.
    pub st_size: u64,
}

impl Elf64_Sym {
    /// The symbol's type: the low four bits of `st_info`.
    pub open spec fn spec_type(self) -> u8 {
        self.st_info & 0xf
    }

    /// The symbol's type.
    pub fn get_type(&self) -> (r: u8)
        ensures
            r == self.spec_type(),
    {
        self.st_info & 0xf
    }

    /// Whether the symbol is undefined, i.e. refers to no section.
    pub fn is_undef(&self) -> (r: bool)
        ensures
            r == (self.st_shndx == SHN_UNDEF),
    {
        self.st_shndx == SHN_UNDEF
    }
}

/// Whether the identity block and entry sizes of `d` are those of an ELF64
/// file: magic `0x7f 'E' 'L' 'F'`, class 64-bit, little-endian data,
/// 64-byte section headers.
pub open spec fn valid_ident(d: Seq<u8>) -> bool {
    &&& d.len() >= EHDR_SIZE
    &&& d[0] == 0x7f
    &&& d[1] == 0x45
    &&& d[2] == 0x4c
    &&& d[3] == 0x46
    &&& d[4] == 2
    &&& d[5] == 1
    &&& le16(d, 58) == SHDR_SIZE
}

/// Whether `h` holds the fields of the header at the start of `d`.
pub open spec fn header_of(h: Elf64Ehdr, d: Seq<u8>) -> bool {
    &&& h.e_ident@ == d.subrange(0, 16)
    &&& h.e_type as int == le16(d, 16)
    &&& h.e_machine as int == le16(d, 18)
    &&& h.e_version as int == le32(d, 20)
    &&& h.e_entry as int == le64(d, 24)
    &&& h.e_phoff as int == le64(d, 32)
    &&& h.e_shoff as int == le64(d, 40)
    &&& h.e_flags as int == le32(d, 48)
    &&& h.e_ehsize as int == le16(d, 52)
    &&& h.e_phentsize as int == le16(d, 54)
    &&& h.e_phnum as int == le16(d, 56)
    &&& h.e_shentsize as int == le16(d, 58)
    &&& h.e_shnum as int == le16(d, 60)
    &&& h.e_shstrndx as int == le16(d, 62)
}

/// The section header at offset `o` of `d`.
pub open spec fn shdr_at(d: Seq<u8>, o: int) -> Elf64Shdr {
    Elf64Shdr {
        sh_name: le32(d, o) as u32,
        sh_type: le32(d, o + 4) as u32,
        sh_flags: le64(d, o + 8) as u64,
        sh_addr: le64(d, o + 16) as u64,
        sh_offset: le64(d, o + 24) as u64,
        sh_size: le64(d, o + 32) as u64,
        sh_link: le32(d, o + 40) as u32,
        sh_info: le32(d, o + 44) as u32,
        sh_addralign: le64(d, o + 48) as u64,
        sh_entsize: le64(d, o + 56) as u64,
    }
}

/// Whether `s` holds the fields of the section header at offset `o` of `d`.
pub open spec fn shdr_of(s: Elf64Shdr, d: Seq<u8>, o: int) -> bool {
    s == shdr_at(d, o)
}

/// Whether `s` holds the fields of the symbol entry at offset `o` of `d`.
pub open spec fn sym_of(s: Elf64_Sym, d: Seq<u8>, o: int) -> bool {
    &&& s.st_name as int == le32(d, o)
    &&& s.st_info == d[o + 4]
    &&& s.st_other == d[o + 5]
    &&& s.st_shndx as int == le16(d, o + 6)
    &&& s.st_value as int == le64(d, o + 8)
    &&& s.st_size as int == le64(d, o + 16)
}

/// Read the file header at the start of `d`.
pub fn read_elf_header(d: &[u8]) -> (r: Result<Elf64Ehdr, Error>)
    ensures
        match r {
            Ok(h) => valid_ident(d@) && header_of(h, d@),
            Err(e) => !valid_ident(d@) && e.kind == (if d@.len() < EHDR_SIZE {
                ErrorKind::UnexpectedEof
            } else {
                ErrorKind::InvalidData
            }),
        },
{
    if d.len() < EHDR_SIZE {
        return Err(Error::new(ErrorKind::UnexpectedEof, "the file is too short for a header"));
    }
    if !(d[0] == 0x7f && d[1] == 0x45 && d[2] == 0x4c && d[3] == 0x46 && d[4] == 2 && d[5] == 1) {
        return Err(Error::new(ErrorKind::InvalidData, "not an ELF64 file"));
    }
    let e_shentsize = read_le16(d, 58);
    if e_shentsize as usize != SHDR_SIZE {
        return Err(Error::new(ErrorKind::InvalidData, "unexpected section header size"));
    }
    let mut e_ident: Vec<u8> = Vec::new();
    let mut i: usize = 0;
    while i < 16
        invariant
            i <= 16,
            d@.len() >= EHDR_SIZE,
            e_ident@ == d@.subrange(0, i as int),
        decreases 16 - i,
    {
        e_ident.push(d[i]);
        i += 1;
        assert(e_ident@ =~= d@.subrange(0, i as int));
    }
    Ok(
        Elf64Ehdr {
            e_ident,
            e_type: read_le16(d, 16),
            e_machine: read_le16(d, 18),
            e_version: read_le32(d, 20),
            e_entry: read_le64(d, 24),
            e_phoff: read_le64(d, 32),
            e_shoff: read_le64(d, 40),
            e_flags: read_le32(d, 48),
            e_ehsize: read_le16(d, 52),
            e_phentsize: read_le16(d, 54),
            e_phnum: read_le16(d, 56),
            e_shentsize,
            e_shnum: read_le16(d, 60),
            e_shstrndx: read_le16(d, 62),
        },
    )
}

fn read_shdr(d: &[u8], o: usize) -> (r: Elf64Shdr)
    requires
        o + SHDR_SIZE <= d.len(),
    ensures
        shdr_of(r, d@, o as int),
{
    Elf64Shdr {
        sh_name: read_le32(d, o),
        sh_type: read_le32(d, o + 4),
        sh_flags: read_le64(d, o + 8),
        sh_addr: read_le64(d, o + 16),
        sh_offset: read_le64(d, o + 24),
        sh_size: read_le64(d, o + 32),
        sh_link: read_le32(d, o + 40),
        sh_info: read_le32(d, o + 44),
        sh_addralign: read_le64(d, o + 48),
        sh_entsize: read_le64(d, o + 56),
    }
}

fn read_sym(d: &[u8], o: usize) -> (r: Elf64_Sym)
    requires
        o + SYM_SIZE <= d.len(),
    ensures
        sym_of(r, d@, o as int),
{
    Elf64_Sym {
        st_name: read_le32(d, o),
        st_info: d[o + 4],
        st_other: d[o + 5],
        st_shndx: read_le16(d, o + 6),
        st_value: read_le64(d, o + 8),
        st_size: read_le64(d, o + 16),
    }
}

/// Whether the section header table that `h` describes lies within `d`.
pub open spec fn sections_in_file(d: Seq<u8>, h: Elf64Ehdr) -> bool {
    h.e_shoff + SHDR_SIZE * h.e_shnum <= d.len()
}

/// Whether `v` is the section header table that `h` describes.
pub open spec fn sections_of(v: Seq<Elf64Shdr>, d: Seq<u8>, h: Elf64Ehdr) -> bool {
    &&& v.len() == h.e_shnum
    &&& forall|i: int| 0 <= i < v.len() ==> shdr_of(#[trigger] v[i], d, h.e_shoff + SHDR_SIZE * i)
}

/// Read the section header table that `h` describes.
pub fn read_elf_sections(d: &[u8], h: &Elf64Ehdr) -> (r: Result<Vec<Elf64Shdr>, Error>)
    ensures
        match r {
            Ok(v) => sections_in_file(d@, *h) && sections_of(v@, d@, *h),
            Err(e) => !sections_in_file(d@, *h) && e.kind == ErrorKind::UnexpectedEof,
        },
{
    let len = d.len();
    if h.e_shoff > len as u64 || (h.e_shnum as u64) * (SHDR_SIZE as u64) > len as u64
        - h.e_shoff {
        return Err(Error::new(ErrorKind::UnexpectedEof, "the section headers lie past the end"));
    }
    let off = h.e_shoff as usize;
    let num = h.e_shnum as usize;
    let mut v: Vec<Elf64Shdr> = Vec::new();
    let mut i: usize = 0;
    while i < num
        invariant
            i <= num,
            num == h.e_shnum,
            off == h.e_shoff,
            len == d@.len(),
            off + SHDR_SIZE * num <= len,
            v@.len() == i,
            forall|k: int| 0 <= k < i ==> shdr_of(#[trigger] v@[k], d@, off + SHDR_SIZE * k),
        decreases num - i,
    {
        v.push(read_shdr(d, off + SHDR_SIZE * i));
        i += 1;
    }
    Ok(v)
}

/// Whether the bytes of section `s` lie within `d`.
pub open spec fn section_in_file(d: Seq<u8>, s: Elf64Shdr) -> bool {
    s.sh_offset + s.sh_size <= d.len()
}

/// The bytes of section `s`.
pub open spec fn section_bytes(d: Seq<u8>, s: Elf64Shdr) -> Seq<u8> {
    d.subrange(s.sh_offset as int, s.sh_offset + s.sh_size)
}

/// A copy of `d[off .. off + n]`.
fn copy_range(d: &[u8], off: usize, n: usize) -> (r: Vec<u8>)
    requires
        off + n <= d.len(),
    ensures
        r@ == d@.subrange(off as int, off + n),
{
    let mut v: Vec<u8> = Vec::new();
    let mut i: usize = 0;
    while i < n
        invariant
            i <= n,
            off + n <= d.len(),
            v@ == d@.subrange(off as int, off + i),
        decreases n - i,
    {
        v.push(d[off + i]);
        i += 1;
        assert(v@ =~= d@.subrange(off as int, off + i));
    }
    v
}

/// Read the bytes of section `s`.
pub fn read_elf_section_raw(d: &[u8], s: &Elf64Shdr) -> (r: Result<Vec<u8>, Error>)
    ensures
        match r {
            Ok(v) => section_in_file(d@, *s) && v@ == section_bytes(d@, *s),
            Err(e) => !section_in_file(d@, *s) && e.kind == ErrorKind::UnexpectedEof,
        },
{
    let len = d.len();
    if s.sh_offset > len as u64 || s.sh_size > len as u64 - s.sh_offset {
        return Err(Error::new(ErrorKind::UnexpectedEof, "the section lies past the end"));
    }
    Ok(copy_range(d, s.sh_offset as usize, s.sh_size as usize))
}

// ---------------------------------------------------------------------------
// String tables
// ---------------------------------------------------------------------------

/// Whether `end` is the first NUL at or after `off` in `tab`.
pub open spec fn nul_at(tab: Seq<u8>, off: int, end: int) -> bool {
    &&& 0 <= off <= end < tab.len()
    &&& tab[end] == 0
    &&& forall|k: int| off <= k < end ==> tab[k] != 0
}

/// The bytes of the NUL-terminated string at `off`, if `off` is within
/// `tab` and a NUL follows it.
pub open spec fn cstr_bytes(tab: Seq<u8>, off: int) -> Option<Seq<u8>> {
    if exists|end: int| nul_at(tab, off, end) {
        let end = choose|end: int| nul_at(tab, off, end);
        Some(tab.subrange(off, end))
    } else {
        None
    }
}

/// The string at `off`: its bytes, if they are valid UTF-8, decoded.
pub open spec fn string_at(tab: Seq<u8>, off: int) -> Option<Seq<char>> {
    match cstr_bytes(tab, off) {
        Some(b) => if valid_utf8(b) {
            Some(decode_utf8(b))
        } else {
            None
        },
        None => None,
    }
}

/// The characters of an optional string.
pub open spec fn opt_chars(s: Option<String>) -> Option<Seq<char>> {
    match s {
        Some(t) => Some(t@),
        None => None,
    }
}

/// Relies on `String::from_utf8`: it fails exactly on bytes that are not
/// valid UTF-8, and otherwise holds the characters they encode.
#[verifier::external_body]
fn utf8_to_string(b: Vec<u8>) -> (r: Option<String>)
    ensures
        match r {
            Some(s) => valid_utf8(b@) && s@ == decode_utf8(b@),
            None => !valid_utf8(b@),
        },
{
    String::from_utf8(b).ok()
}

/// The position of the first NUL at or after `off`, if there is one.
fn find_nul(tab: &[u8], off: usize) -> (r: Option<usize>)
    ensures
        match r {
            Some(end) => nul_at(tab@, off as int, end as int),
            None => forall|end: int| !nul_at(tab@, off as int, end),
        },
{
    if off >= tab.len() {
        return None;
    }
    let mut end = off;
    while end < tab.len()
        invariant
            off <= end <= tab@.len(),
            forall|k: int| off <= k < end ==> tab@[k] != 0,
        decreases tab@.len() - end,
    {
        if tab[end] == 0 {
            return Some(end);
        }
        end += 1;
    }
    None
}

pub(crate) proof fn lemma_nul_unique(tab: Seq<u8>, off: int, end: int)
    requires
        nul_at(tab, off, end),
    ensures
        cstr_bytes(tab, off) == Some(tab.subrange(off, end)),
{
    let e = choose|e: int| nul_at(tab, off, e);
    assert(e == end) by {
        if e < end {
            assert(tab[e] != 0);
        } else if e > end {
            assert(tab[end] != 0);
        }
    }
}

/// Extract the NUL-terminated string at `off` of the string table `strtab`.
pub fn extract_string(strtab: &[u8], off: usize) -> (r: Option<String>)
    ensures
        opt_chars(r) == string_at(strtab@, off as int),
{
    match find_nul(strtab, off) {
        None => None,
        Some(end) => {
            proof {
                lemma_nul_unique(strtab@, off as int, end as int);
            }
            utf8_to_string(copy_range(strtab, off, end - off))
        },
    }
}

/// The name of section `sect`, read from the section-header string table.
pub fn get_elf_section_name(sect: &Elf64Shdr, strtab: &[u8]) -> (r: Option<String>)
    ensures
        opt_chars(r) == string_at(strtab@, sect.sh_name as int),
{
    extract_string(strtab, sect.sh_name as usize)
}

// ---------------------------------------------------------------------------
// Symbol tables
// ---------------------------------------------------------------------------

/// Whether `v` holds the symbol entries of the raw table `raw`, in file order.
pub open spec fn symbols_of(v: Seq<Elf64_Sym>, raw: Seq<u8>) -> bool {
    &&& v.len() * SYM_SIZE == raw.len()
    &&& forall|i: int| 0 <= i < v.len() ==> sym_of(#[trigger] v[i], raw, SYM_SIZE * i)
}

/// Decode the raw bytes of a symbol table section, in file order.
pub fn parse_symtab(raw: &[u8]) -> (r: Result<Vec<Elf64_Sym>, Error>)
    ensures
        match r {
            Ok(v) => raw@.len() % (SYM_SIZE as nat) == 0 && symbols_of(v@, raw@),
            Err(e) => raw@.len() % (SYM_SIZE as nat) != 0 && e.kind == ErrorKind::InvalidData,
        },
{
    let len = raw.len();
    if len % SYM_SIZE != 0 {
        return Err(Error::new(ErrorKind::InvalidData, "size of the .symtab section does not match"));
    }
    let mut v: Vec<Elf64_Sym> = Vec::new();
    let mut off: usize = 0;
    while off < len
        invariant
            len == raw@.len(),
            off <= len,
            (len - off) as int % (SYM_SIZE as int) == 0,
            off == SYM_SIZE * v@.len(),
            forall|k: int| 0 <= k < v@.len() ==> sym_of(#[trigger] v@[k], raw@, SYM_SIZE * k),
        decreases len - off,
    {
        v.push(read_sym(raw, off));
        off += SYM_SIZE;
    }
    Ok(v)
}

/// Whether `s` is ordered by `st_value`, smallest first.
pub open spec fn sorted_by_value(s: Seq<Elf64_Sym>) -> bool {
    forall|i: int, j: int| 0 <= i <= j < s.len() ==> s[i].st_value <= s[j].st_value
}

/// Whether `p` maps each position of `s` to the position in `o` that its
/// entry comes from, one to one, keeping the file order of equal values.
pub open spec fn stable_order(p: Seq<int>, s: Seq<Elf64_Sym>, o: Seq<Elf64_Sym>) -> bool {
    &&& p.len() == s.len() == o.len()
    &&& forall|k: int| 0 <= k < s.len() ==> 0 <= #[trigger] p[k] < o.len() && s[k] == o[p[k]]
    &&& forall|a: int, b: int| 0 <= a < s.len() && 0 <= b < s.len() && a != b ==> p[a] != p[b]
    &&& forall|a: int, b: int|
        0 <= a < b < s.len() && s[a].st_value == s[b].st_value ==> p[a] < p[b]
}

/// Whether `s` is `o` sorted by `st_value`, entries of equal value in file
/// order.
pub open spec fn stable_sorted_of(s: Seq<Elf64_Sym>, o: Seq<Elf64_Sym>) -> bool {
    &&& sorted_by_value(s)
    &&& exists|p: Seq<int>| stable_order(p, s, o)
}

/// Relies on `slice::sort_by_key`, a stable sort: the result is ordered by the
/// key and keeps the order of entries with equal keys.
#[verifier::external_body]
fn stable_sort_by_value(v: &mut Vec<Elf64_Sym>)
    ensures
        stable_sorted_of(final(v)@, old(v)@),
{
    v.sort_by_key(|s| s.st_value);
}

/// A copy of `o` sorted by `st_value`; entries of equal value keep their
/// order.
pub fn sort_by_value(o: &Vec<Elf64_Sym>) -> (r: Vec<Elf64_Sym>)
    ensures
        stable_sorted_of(r@, o@),
{
    let mut r: Vec<Elf64_Sym> = Vec::new();
    let mut i: usize = 0;
    while i < o.len()
        invariant
            i <= o@.len(),
            r@ == o@.subrange(0, i as int),
        decreases o@.len() - i,
    {
        r.push(o[i]);
        i += 1;
        assert(r@ =~= o@.subrange(0, i as int));
    }
    assert(r@ =~= o@);
    stable_sort_by_value(&mut r);
    r
}

} // verus!
