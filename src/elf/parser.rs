//! The ELF64 image and its lazily filled caches.
use vstd::prelude::*;
use vstd::slice::SliceAdditionalExecFns;
use vstd::string::StringSliceAdditionalSpecFns;

use crate::elf::EHDR_SIZE;
use crate::elf::Elf64Ehdr;
use crate::elf::Elf64Shdr;
use crate::elf::Elf64_Sym;
use crate::elf::SHDR_SIZE;
use crate::elf::SYM_SIZE;
use crate::elf::cstr_bytes;
use crate::elf::extract_string;
use crate::elf::find_nul;
use crate::elf::lemma_nul_unique;
use crate::elf::get_elf_section_name;
use crate::elf::header_of;
use crate::elf::le16;
use crate::elf::le64;
use crate::elf::nul_at;
use crate::elf::parse_symtab;
use crate::elf::read_elf_header;
use crate::elf::read_elf_section_raw;
use crate::elf::read_elf_sections;
use crate::elf::section_bytes;
use crate::elf::section_in_file;
use crate::elf::shdr_at;
use crate::elf::sort_by_value;
use crate::elf::sorted_by_value;
use crate::elf::stable_order;
use crate::elf::sym_of;
use crate::elf::stable_sorted_of;
use crate::elf::string_at;
use crate::elf::symbols_of;
use crate::elf::valid_ident;
use crate::error::Error;
use crate::error::ErrorKind;
use crate::search::best_match;
use crate::search::lemma_best_match_unique;
use crate::search::lemma_best_match_is_nearest;
use crate::search::selects;
use crate::search::no_match;
use crate::search::search_address_opt_key;

verus! {

// ---------------------------------------------------------------------------
// What an image holds, as functions of its bytes
// ---------------------------------------------------------------------------

/// The number of sections the header announces.
pub open spec fn e_shnum(d: Seq<u8>) -> int {
    le16(d, 60)
}

/// The file offset of the section header table.
pub open spec fn e_shoff(d: Seq<u8>) -> int {
    le64(d, 40)
}

/// The index of the section-header string table.
pub open spec fn e_shstrndx(d: Seq<u8>) -> int {
    le16(d, 62)
}

/// Section header `i`.
#[verifier::opaque]
pub open spec fn section(d: Seq<u8>, i: int) -> Elf64Shdr {
    shdr_at(d, e_shoff(d) + SHDR_SIZE * i)
}

/// Why reading the header fails, if it does.
pub open spec fn header_error(d: Seq<u8>) -> Option<ErrorKind> {
    if d.len() < EHDR_SIZE {
        Some(ErrorKind::UnexpectedEof)
    } else if !valid_ident(d) {
        Some(ErrorKind::InvalidData)
    } else {
        None
    }
}

/// Why reading the section header table fails, if it does.
pub open spec fn shdrs_error(d: Seq<u8>) -> Option<ErrorKind> {
    if header_error(d) is Some {
        header_error(d)
    } else if e_shoff(d) + SHDR_SIZE * e_shnum(d) > d.len() {
        Some(ErrorKind::UnexpectedEof)
    } else {
        None
    }
}

/// Why `i` is refused as a section index, if it is.
pub open spec fn index_error(d: Seq<u8>, i: int) -> Option<ErrorKind> {
    if header_error(d) is Some {
        header_error(d)
    } else if i >= e_shnum(d) {
        Some(ErrorKind::InvalidInput)
    } else {
        None
    }
}

/// Why loading the section-header string table fails, if it does.
pub open spec fn shstrtab_error(d: Seq<u8>) -> Option<ErrorKind> {
    if shdrs_error(d) is Some {
        shdrs_error(d)
    } else if e_shstrndx(d) >= e_shnum(d) {
        Some(ErrorKind::InvalidData)
    } else if !section_in_file(d, section(d, e_shstrndx(d))) {
        Some(ErrorKind::UnexpectedEof)
    } else {
        None
    }
}

/// The bytes of the section-header string table.
pub open spec fn shstrtab(d: Seq<u8>) -> Seq<u8> {
    section_bytes(d, section(d, e_shstrndx(d)))
}

/// The name of section `i`, if it is valid.
pub open spec fn section_name(d: Seq<u8>, i: int) -> Option<Seq<char>> {
    string_at(shstrtab(d), section(d, i).sh_name as int)
}

/// Why looking up the name of section `i` fails, if it does.
pub open spec fn section_name_error(d: Seq<u8>, i: int) -> Option<ErrorKind> {
    if index_error(d, i) is Some {
        index_error(d, i)
    } else if shstrtab_error(d) is Some {
        shstrtab_error(d)
    } else if section_name(d, i) is None {
        Some(ErrorKind::InvalidData)
    } else {
        None
    }
}

/// Whether the name of section `i` is the bytes `name`.
pub open spec fn named(d: Seq<u8>, i: int, name: Seq<u8>) -> bool {
    cstr_bytes(shstrtab(d), section(d, i).sh_name as int) == Some(name)
}

/// Whether `i` is the first section named `name`.
pub open spec fn first_named(d: Seq<u8>, name: Seq<u8>, i: int) -> bool {
    &&& 0 <= i < e_shnum(d)
    &&& named(d, i, name)
    &&& forall|j: int| 0 <= j < i ==> !named(d, j, name)
}

/// Why looking up the section named `name` fails, if it does.
pub open spec fn find_section_error(d: Seq<u8>, name: Seq<u8>) -> Option<ErrorKind> {
    if header_error(d) is Some {
        header_error(d)
    } else if e_shnum(d) == 0 {
        Some(ErrorKind::NotFound)
    } else if shstrtab_error(d) is Some {
        shstrtab_error(d)
    } else if forall|j: int| 0 <= j < e_shnum(d) ==> !named(d, j, name) {
        Some(ErrorKind::NotFound)
    } else {
        None
    }
}

/// The index of the first section named `name`.
pub open spec fn named_index(d: Seq<u8>, name: Seq<u8>) -> int {
    choose|i: int| first_named(d, name, i)
}

/// Why reading the bytes of the section named `name` fails, if it does.
pub open spec fn named_bytes_error(d: Seq<u8>, name: Seq<u8>) -> Option<ErrorKind> {
    if find_section_error(d, name) is Some {
        find_section_error(d, name)
    } else if !section_in_file(d, section(d, named_index(d, name))) {
        Some(ErrorKind::UnexpectedEof)
    } else {
        None
    }
}

/// The bytes of the first section named `name`.
pub open spec fn named_bytes(d: Seq<u8>, name: Seq<u8>) -> Seq<u8> {
    section_bytes(d, section(d, named_index(d, name)))
}

/// The name of the symbol table section.
pub open spec fn symtab_name() -> Seq<u8> {
    seq![0x2eu8, 0x73, 0x79, 0x6d, 0x74, 0x61, 0x62]
}

/// The name of the string table section.
pub open spec fn strtab_name() -> Seq<u8> {
    seq![0x2eu8, 0x73, 0x74, 0x72, 0x74, 0x61, 0x62]
}

/// Why loading the symbol table fails, if it does.
pub open spec fn symtab_error(d: Seq<u8>) -> Option<ErrorKind> {
    if named_bytes_error(d, symtab_name()) is Some {
        named_bytes_error(d, symtab_name())
    } else if named_bytes(d, symtab_name()).len() % (SYM_SIZE as nat) != 0 {
        Some(ErrorKind::InvalidData)
    } else {
        None
    }
}

/// The raw bytes of the symbol table.
pub open spec fn symtab_bytes(d: Seq<u8>) -> Seq<u8> {
    named_bytes(d, symtab_name())
}

/// The number of symbols in the symbol table.
pub open spec fn symbol_count(d: Seq<u8>) -> int {
    symtab_bytes(d).len() as int / (SYM_SIZE as int)
}

/// Why loading the string table fails, if it does.
pub open spec fn strtab_error(d: Seq<u8>) -> Option<ErrorKind> {
    named_bytes_error(d, strtab_name())
}

/// The bytes of the string table.
pub open spec fn strtab_bytes(d: Seq<u8>) -> Seq<u8> {
    named_bytes(d, strtab_name())
}

proof fn lemma_first_named_unique(d: Seq<u8>, name: Seq<u8>, i: int)
    requires
        first_named(d, name, i),
    ensures
        named_index(d, name) == i,
{
    let k = named_index(d, name);
    assert(first_named(d, name, k));
    if k < i {
        assert(!named(d, k, name));
    } else if k > i {
        assert(!named(d, i, name));
    }
}

/// Whether the NUL-terminated string at `off` of `tab` is exactly `name`.
fn cstr_equals(tab: &[u8], off: usize, name: &[u8]) -> (r: bool)
    ensures
        r == (cstr_bytes(tab@, off as int) == Some(name@)),
{
    match find_nul(tab, off) {
        None => false,
        Some(end) => {
            proof {
                lemma_nul_unique(tab@, off as int, end as int);
            }
            if end - off != name.len() {
                return false;
            }
            let mut k: usize = 0;
            while k < name.len()
                invariant
                    off <= end < tab@.len(),
                    end - off == name@.len(),
                    k <= name@.len(),
                    forall|j: int| 0 <= j < k ==> tab@[off + j] == name@[j],
                decreases name@.len() - k,
            {
                if tab[off + k] != name[k] {
                    assert(tab@.subrange(off as int, end as int)[k as int] != name@[k as int]);
                    return false;
                }
                k += 1;
            }
            assert(tab@.subrange(off as int, end as int) =~= name@);
            true
        },
    }
}

/// The index of the first section header in `v` whose name in `tab` is
/// `name`.
fn first_section_named(v: &[Elf64Shdr], tab: &[u8], name: &[u8]) -> (r: Option<usize>)
    ensures
        match r {
            Some(i) => i < v@.len() && cstr_bytes(tab@, v@[i as int].sh_name as int) == Some(name@)
                && forall|j: int| 0 <= j < i ==> cstr_bytes(tab@, #[trigger] v@[j].sh_name as int) != Some(name@),
            None => forall|j: int| 0 <= j < v@.len() ==> cstr_bytes(tab@, #[trigger] v@[j].sh_name as int) != Some(name@),
        },
{
    let mut i: usize = 0;
    while i < v.len()
        invariant
            i <= v@.len(),
            forall|j: int| 0 <= j < i ==> cstr_bytes(tab@, #[trigger] v@[j].sh_name as int) != Some(name@),
        decreases v@.len() - i,
    {
        if cstr_equals(tab, v[i].sh_name as usize, name) {
            return Some(i);
        }
        i += 1;
    }
    None
}

// ---------------------------------------------------------------------------
// The parser
// ---------------------------------------------------------------------------

/// A parser of an ELF64 image held in memory. Each table is read from the
/// image when first needed and kept from then on.
pub struct Elf64Parser {
    data: Vec<u8>,
    pos: u64,
    ehdr: Option<Elf64Ehdr>,
    shdrs: Option<Vec<Elf64Shdr>>,
    shstrtab: Option<Vec<u8>>,
    symtab: Option<Vec<Elf64_Sym>>,
    symtab_origin: Option<Vec<Elf64_Sym>>,
    strtab: Option<Vec<u8>>,
}

impl Elf64Parser {
    /// The bytes of the image.
    pub closed spec fn image(&self) -> Seq<u8> {
        self.data@
    }

    /// The position of the read cursor in the image.
    pub closed spec fn position(&self) -> u64 {
        self.pos
    }

    /// Whether the file header has been read.
    pub closed spec fn header_loaded(&self) -> bool {
        self.ehdr is Some
    }

    /// Whether the section header table has been read.
    pub closed spec fn sections_loaded(&self) -> bool {
        self.shdrs is Some
    }

    /// Whether the section-header string table has been read.
    pub closed spec fn shstrtab_loaded(&self) -> bool {
        self.shstrtab is Some
    }

    /// Whether the string table has been read.
    pub closed spec fn strtab_loaded(&self) -> bool {
        self.strtab is Some
    }

    /// Whether the symbol table has been loaded.
    pub closed spec fn symbols_loaded(&self) -> bool {
        self.symtab is Some
    }

    /// The loaded symbol table, sorted by value.
    pub closed spec fn sorted_symbols(&self) -> Seq<Elf64_Sym> {
        self.symtab.unwrap()@
    }

    /// The loaded symbol table, in file order.
    pub closed spec fn file_symbols(&self) -> Seq<Elf64_Sym> {
        self.symtab_origin.unwrap()@
    }

    /// Each cache that is filled holds what the image determines.
    pub closed spec fn wf(&self) -> bool {
        let d = self.data@;
        &&& self.ehdr matches Some(h) ==> header_error(d) is None && header_of(h, d)
        &&& self.shdrs is Some ==> self.ehdr is Some
        &&& self.shstrtab is Some ==> self.shdrs is Some
        &&& self.shdrs matches Some(v) ==> shdrs_error(d) is None && v@.len() == e_shnum(d)
            && forall|i: int| 0 <= i < v@.len() ==> #[trigger] v@[i] == section(d, i)
        &&& self.shstrtab matches Some(b) ==> shstrtab_error(d) is None && b@ == shstrtab(d)
        &&& (self.symtab is Some <==> self.symtab_origin is Some)
        &&& self.symtab matches Some(s) ==> symtab_error(d) is None && symbols_of(
            self.symtab_origin.unwrap()@,
            symtab_bytes(d),
        ) && stable_sorted_of(s@, self.symtab_origin.unwrap()@) && s@.len() == symbol_count(d)
        &&& self.strtab matches Some(b) ==> strtab_error(d) is None && b@ == strtab_bytes(d)
    }

    /// Whether `next` is this parser after some operations: the same image,
    /// every table that was loaded still loaded, and the symbol tables
    /// unchanged.
    pub open spec fn grows_to(&self, next: &Elf64Parser) -> bool {
        &&& next.image() == self.image()
        &&& self.header_loaded() ==> next.header_loaded()
        &&& self.sections_loaded() ==> next.sections_loaded()
        &&& self.shstrtab_loaded() ==> next.shstrtab_loaded()
        &&& self.strtab_loaded() ==> next.strtab_loaded()
        &&& self.symbols_loaded() ==> next.symbols_loaded() && next.sorted_symbols()
            == self.sorted_symbols() && next.file_symbols() == self.file_symbols()
    }

    /// Whether the symbol table and the string table have both been loaded.
    pub fn symbol_tables_loaded(&self) -> (r: bool)
        ensures
            r == (self.symbols_loaded() && self.strtab_loaded()),
    {
        self.symtab.is_some() && self.strtab.is_some()
    }

    /// A parser over the image `data`, with nothing read yet.
    pub fn new(data: Vec<u8>) -> (r: Elf64Parser)
        ensures
            r.wf(),
            r.image() == data@,
            r.position() == 0,
            !r.symbols_loaded(),
    {
        Elf64Parser {
            data,
            pos: 0,
            ehdr: None,
            shdrs: None,
            shstrtab: None,
            symtab: None,
            symtab_origin: None,
            strtab: None,
        }
    }

    /// Read the file header, unless it has been read already.
    pub fn ensure_ehdr(&mut self) -> (r: Result<(), Error>)
        requires
            old(self).wf(),
        ensures
            final(self).wf(),
            old(self).grows_to(final(self)),
            final(self).position() == old(self).position(),
            old(self).header_loaded() ==> *final(self) == *old(self) && r is Ok,
            match r {
                Ok(_) => header_error(final(self).image()) is None && final(self).header_loaded(),
                Err(e) => header_error(final(self).image()) == Some(e.kind),
            },
    {
        if self.ehdr.is_some() {
            return Ok(());
        }
        let ehdr = read_elf_header(self.data.as_slice())?;
        self.ehdr = Some(ehdr);
        Ok(())
    }

    /// Read the section header table, unless it has been read already.
    pub fn ensure_shdrs(&mut self) -> (r: Result<(), Error>)
        requires
            old(self).wf(),
        ensures
            final(self).wf(),
            old(self).grows_to(final(self)),
            final(self).position() == old(self).position(),
            old(self).sections_loaded() ==> *final(self) == *old(self) && r is Ok,
            match r {
                Ok(_) => shdrs_error(final(self).image()) is None && final(self).sections_loaded()
                    && final(self).header_loaded(),
                Err(e) => shdrs_error(final(self).image()) == Some(e.kind),
            },
    {
        if self.shdrs.is_some() {
            return Ok(());
        }
        self.ensure_ehdr()?;
        let shdrs = match &self.ehdr {
            Some(h) => read_elf_sections(self.data.as_slice(), h),
            None => Err(Error::new(ErrorKind::InvalidData, "missing header")),
        };
        let shdrs = shdrs?;
        proof {
            reveal(section);
        }
        self.shdrs = Some(shdrs);
        Ok(())
    }

    /// Read the section-header string table, unless it has been read already.
    #[verifier::rlimit(40)]
    pub fn ensure_shstrtab(&mut self) -> (r: Result<(), Error>)
        requires
            old(self).wf(),
        ensures
            final(self).wf(),
            old(self).grows_to(final(self)),
            final(self).position() == old(self).position(),
            old(self).shstrtab_loaded() ==> *final(self) == *old(self) && r is Ok,
            match r {
                Ok(_) => shstrtab_error(final(self).image()) is None && final(self).shstrtab_loaded()
                    && final(self).sections_loaded(),
                Err(e) => shstrtab_error(final(self).image()) == Some(e.kind),
            },
    {
        if self.shstrtab.is_some() {
            return Ok(());
        }
        self.ensure_shdrs()?;
        let ghost d = self.data@;
        let ndx = match &self.ehdr {
            Some(h) => h.e_shstrndx as usize,
            None => 0,
        };
        assert(ndx == e_shstrndx(d));
        let raw = match &self.shdrs {
            Some(v) => if ndx < v.len() {
                assert(v@[ndx as int] == section(d, e_shstrndx(d)));
                read_elf_section_raw(self.data.as_slice(), &v[ndx])
            } else {
                Err(Error::new(ErrorKind::InvalidData, "invalid section-header string table index"))
            },
            None => Err(Error::new(ErrorKind::InvalidData, "missing section headers")),
        };
        match raw {
            Ok(b) => {
                assert(b@ == shstrtab(d));
                self.shstrtab = Some(b);
                Ok(())
            },
            Err(e) => Err(e),
        }
    }

    /// The number of sections.
    pub fn get_num_sections(&mut self) -> (r: Result<usize, Error>)
        requires
            old(self).wf(),
        ensures
            final(self).wf(),
            old(self).grows_to(final(self)),
            final(self).position() == old(self).position(),
            match r {
                Ok(n) => header_error(final(self).image()) is None && n == e_shnum(
                    final(self).image(),
                ),
                Err(e) => header_error(final(self).image()) == Some(e.kind),
            },
    {
        self.ensure_ehdr()?;
        match &self.ehdr {
            Some(h) => Ok(h.e_shnum as usize),
            None => Err(Error::new(ErrorKind::InvalidData, "missing header")),
        }
    }

    fn check_section_index(&mut self, sect_idx: usize) -> (r: Result<(), Error>)
        requires
            old(self).wf(),
        ensures
            final(self).wf(),
            old(self).grows_to(final(self)),
            final(self).position() == old(self).position(),
            match r {
                Ok(_) => index_error(final(self).image(), sect_idx as int) is None,
                Err(e) => index_error(final(self).image(), sect_idx as int) == Some(e.kind),
            },
    {
        let nsects = self.get_num_sections()?;
        if nsects <= sect_idx {
            return Err(Error::new(ErrorKind::InvalidInput, "the index is too big"));
        }
        Ok(())
    }

    /// The header of section `sect_idx`, reading the section header table if
    /// needed.
    fn section_header(&mut self, sect_idx: usize) -> (r: Result<Elf64Shdr, Error>)
        requires
            old(self).wf(),
        ensures
            final(self).wf(),
            old(self).grows_to(final(self)),
            final(self).position() == old(self).position(),
            match r {
                Ok(s) => index_error(final(self).image(), sect_idx as int) is None && shdrs_error(
                    final(self).image(),
                ) is None && s == section(final(self).image(), sect_idx as int),
                Err(e) => Some(e.kind) == if index_error(final(self).image(), sect_idx as int) is Some {
                    index_error(final(self).image(), sect_idx as int)
                } else {
                    shdrs_error(final(self).image())
                },
            },
    {
        self.check_section_index(sect_idx)?;
        self.ensure_shdrs()?;
        match &self.shdrs {
            Some(v) => if sect_idx < v.len() {
                Ok(v[sect_idx])
            } else {
                Err(Error::new(ErrorKind::InvalidInput, "the index is too big"))
            },
            None => Err(Error::new(ErrorKind::InvalidData, "missing section headers")),
        }
    }

    /// The name of section `sect_idx`.
    pub fn get_section_name(&mut self, sect_idx: usize) -> (r: Result<String, Error>)
        requires
            old(self).wf(),
        ensures
            final(self).wf(),
            old(self).grows_to(final(self)),
            final(self).position() == old(self).position(),
            match r {
                Ok(s) => section_name_error(final(self).image(), sect_idx as int) is None && Some(
                    s@,
                ) == section_name(final(self).image(), sect_idx as int),
                Err(e) => section_name_error(final(self).image(), sect_idx as int) == Some(e.kind),
            },
    {
        self.check_section_index(sect_idx)?;
        self.ensure_shstrtab()?;
        let name = match (&self.shdrs, &self.shstrtab) {
            (Some(v), Some(tab)) => if sect_idx < v.len() {
                get_elf_section_name(&v[sect_idx], tab.as_slice())
            } else {
                None
            },
            _ => None,
        };
        match name {
            Some(n) => Ok(n),
            None => Err(Error::new(ErrorKind::InvalidData, "invalid section name")),
        }
    }

    /// The size in bytes of section `sect_idx`.
    pub fn get_section_size(&mut self, sect_idx: usize) -> (r: Result<usize, Error>)
        requires
            old(self).wf(),
        ensures
            final(self).wf(),
            old(self).grows_to(final(self)),
            final(self).position() == old(self).position(),
            match r {
                Ok(n) => index_error(final(self).image(), sect_idx as int) is None && shdrs_error(
                    final(self).image(),
                ) is None && n == section(final(self).image(), sect_idx as int).sh_size,
                Err(e) => Some(e.kind) == if index_error(final(self).image(), sect_idx as int) is Some {
                    index_error(final(self).image(), sect_idx as int)
                } else if shdrs_error(final(self).image()) is Some {
                    shdrs_error(final(self).image())
                } else if section(final(self).image(), sect_idx as int).sh_size > usize::MAX {
                    Some(ErrorKind::InvalidData)
                } else {
                    None
                },
            },
    {
        let sect = self.section_header(sect_idx)?;
        if sect.sh_size > usize::MAX as u64 {
            return Err(Error::new(ErrorKind::InvalidData, "the section size does not fit in memory"));
        }
        Ok(sect.sh_size as usize)
    }

    /// Move the read cursor to the start of section `sect_idx`.
    pub fn section_seek(&mut self, sect_idx: usize) -> (r: Result<(), Error>)
        requires
            old(self).wf(),
        ensures
            final(self).wf(),
            old(self).grows_to(final(self)),
            match r {
                Ok(_) => index_error(final(self).image(), sect_idx as int) is None && shdrs_error(
                    final(self).image(),
                ) is None && final(self).position() == section(
                    final(self).image(),
                    sect_idx as int,
                ).sh_offset,
                Err(e) => final(self).position() == old(self).position() && Some(e.kind) == if index_error(
                    final(self).image(),
                    sect_idx as int,
                ) is Some {
                    index_error(final(self).image(), sect_idx as int)
                } else {
                    shdrs_error(final(self).image())
                },
            },
    {
        let sect = self.section_header(sect_idx)?;
        self.pos = sect.sh_offset;
        Ok(())
    }

    /// Move the read cursor to `offset` bytes into section `sect_idx`; the
    /// offset must be below the section's size.
    pub fn section_offset_seek(&mut self, sect_idx: usize, offset: usize) -> (r: Result<(), Error>)
        requires
            old(self).wf(),
        ensures
            final(self).wf(),
            old(self).grows_to(final(self)),
            match r {
                Ok(_) => {
                    let s = section(final(self).image(), sect_idx as int);
                    &&& index_error(final(self).image(), sect_idx as int) is None
                    &&& shdrs_error(final(self).image()) is None
                    &&& offset < s.sh_size
                    &&& final(self).position() == s.sh_offset + offset
                },
                Err(e) => final(self).position() == old(self).position() && Some(e.kind) == if index_error(
                    final(self).image(),
                    sect_idx as int,
                ) is Some {
                    index_error(final(self).image(), sect_idx as int)
                } else if shdrs_error(final(self).image()) is Some {
                    shdrs_error(final(self).image())
                } else if offset >= section(final(self).image(), sect_idx as int).sh_size {
                    Some(ErrorKind::InvalidInput)
                } else if section(final(self).image(), sect_idx as int).sh_offset + offset > u64::MAX {
                    Some(ErrorKind::InvalidData)
                } else {
                    None
                },
            },
    {
        let sect = self.section_header(sect_idx)?;
        if offset as u64 >= sect.sh_size {
            return Err(Error::new(ErrorKind::InvalidInput, "the offset is too big"));
        }
        if sect.sh_offset > u64::MAX - offset as u64 {
            return Err(Error::new(ErrorKind::InvalidData, "the section lies past any file"));
        }
        self.pos = sect.sh_offset + offset as u64;
        Ok(())
    }

    /// The bytes of section `sect_idx`.
    pub fn read_section_raw(&mut self, sect_idx: usize) -> (r: Result<Vec<u8>, Error>)
        requires
            old(self).wf(),
        ensures
            final(self).wf(),
            old(self).grows_to(final(self)),
            final(self).position() == old(self).position(),
            match r {
                Ok(v) => {
                    let s = section(final(self).image(), sect_idx as int);
                    &&& index_error(final(self).image(), sect_idx as int) is None
                    &&& shdrs_error(final(self).image()) is None
                    &&& section_in_file(final(self).image(), s)
                    &&& v@ == section_bytes(final(self).image(), s)
                },
                Err(e) => Some(e.kind) == if index_error(final(self).image(), sect_idx as int) is Some {
                    index_error(final(self).image(), sect_idx as int)
                } else if shdrs_error(final(self).image()) is Some {
                    shdrs_error(final(self).image())
                } else if !section_in_file(
                    final(self).image(),
                    section(final(self).image(), sect_idx as int),
                ) {
                    Some(ErrorKind::UnexpectedEof)
                } else {
                    None
                },
            },
    {
        let sect = self.section_header(sect_idx)?;
        read_elf_section_raw(self.data.as_slice(), &sect)
    }

    fn find_section_bytes(&mut self, name: &[u8]) -> (r: Result<usize, Error>)
        requires
            old(self).wf(),
        ensures
            final(self).wf(),
            old(self).grows_to(final(self)),
            final(self).position() == old(self).position(),
            match r {
                Ok(i) => find_section_error(final(self).image(), name@) is None && first_named(
                    final(self).image(),
                    name@,
                    i as int,
                ),
                Err(e) => find_section_error(final(self).image(), name@) == Some(e.kind),
            },
    {
        let nsects = self.get_num_sections()?;
        if nsects == 0 {
            return Err(Error::new(ErrorKind::NotFound, "Does not found the give section"));
        }
        self.ensure_shstrtab()?;
        let ghost d = self.data@;
        match (&self.shdrs, &self.shstrtab) {
            (Some(v), Some(tab)) => {
                let found = first_section_named(v.as_slice(), tab.as_slice(), name);
                match found {
                    Some(i) => {
                        proof {
                            assert(v@[i as int] == section(d, i as int));
                            assert(named(d, i as int, name@));
                            assert forall|j: int| 0 <= j < i implies !named(d, j, name@) by {
                                assert(v@[j] == section(d, j));
                            }
                        }
                        Ok(i)
                    },
                    None => {
                        proof {
                            assert forall|j: int| 0 <= j < e_shnum(d) implies !named(
                                d,
                                j,
                                name@,
                            ) by {
                                assert(v@[j] == section(d, j));
                            }
                        }
                        Err(Error::new(ErrorKind::NotFound, "Does not found the give section"))
                    },
                }
            },
            _ => Err(Error::new(ErrorKind::InvalidData, "missing section headers")),
        }
    }

    /// The index of the first section named `name`.
    pub fn find_section(&mut self, name: &str) -> (r: Result<usize, Error>)
        requires
            old(self).wf(),
        ensures
            final(self).wf(),
            old(self).grows_to(final(self)),
            final(self).position() == old(self).position(),
            match r {
                Ok(i) => find_section_error(final(self).image(), name.spec_bytes()) is None
                    && first_named(final(self).image(), name.spec_bytes(), i as int),
                Err(e) => find_section_error(final(self).image(), name.spec_bytes()) == Some(e.kind),
            },
    {
        self.find_section_bytes(name.as_bytes())
    }

    /// Read the bytes of the first section named `name`.
    #[verifier::rlimit(60)]
    fn read_named_section(&mut self, name: &[u8]) -> (r: Result<Vec<u8>, Error>)
        requires
            old(self).wf(),
        ensures
            final(self).wf(),
            old(self).grows_to(final(self)),
            final(self).position() == old(self).position(),
            match r {
                Ok(b) => named_bytes_error(final(self).image(), name@) is None && b@ == named_bytes(
                    final(self).image(),
                    name@,
                ),
                Err(e) => named_bytes_error(final(self).image(), name@) == Some(e.kind),
            },
    {
        let idx = self.find_section_bytes(name)?;
        proof {
            lemma_first_named_unique(self.data@, name@, idx as int);
        }
        let r = self.read_section_raw(idx);
        proof {
            let d = self.data@;
            if r is Ok {
                assert(section_in_file(d, section(d, idx as int)));
                assert(r.unwrap()@ == named_bytes(d, name@));
            }
        }
        r
    }

    /// Load the symbol table, in file order and sorted by value, unless it
    /// has been loaded already.
    pub fn ensure_symtab(&mut self) -> (r: Result<(), Error>)
        requires
            old(self).wf(),
        ensures
            final(self).wf(),
            old(self).grows_to(final(self)),
            final(self).position() == old(self).position(),
            old(self).symbols_loaded() ==> *final(self) == *old(self) && r is Ok,
            match r {
                Ok(_) => symtab_error(final(self).image()) is None && final(self).symbols_loaded(),
                Err(e) => symtab_error(final(self).image()) == Some(e.kind),
            },
    {
        if self.symtab.is_some() {
            return Ok(());
        }
        let name: Vec<u8> = vec![0x2eu8, 0x73, 0x79, 0x6d, 0x74, 0x61, 0x62];
        assert(name@ == symtab_name());
        let raw = self.read_named_section(name.as_slice())?;
        let origin = parse_symtab(raw.as_slice())?;
        let sorted = sort_by_value(&origin);
        proof {
            let p = choose|p: Seq<int>| stable_order(p, sorted@, origin@);
            assert(stable_order(p, sorted@, origin@));
            assert(origin@.len() * SYM_SIZE == raw@.len());
        }
        self.symtab = Some(sorted);
        self.symtab_origin = Some(origin);
        Ok(())
    }

    /// Load the string table, unless it has been loaded already.
    pub fn ensure_strtab(&mut self) -> (r: Result<(), Error>)
        requires
            old(self).wf(),
        ensures
            final(self).wf(),
            old(self).grows_to(final(self)),
            final(self).position() == old(self).position(),
            old(self).strtab_loaded() ==> *final(self) == *old(self) && r is Ok,
            match r {
                Ok(_) => strtab_error(final(self).image()) is None && final(self).strtab_loaded(),
                Err(e) => strtab_error(final(self).image()) == Some(e.kind),
            },
    {
        if self.strtab.is_some() {
            return Ok(());
        }
        let name: Vec<u8> = vec![0x2eu8, 0x73, 0x74, 0x72, 0x74, 0x61, 0x62];
        assert(name@ == strtab_name());
        let raw = self.read_named_section(name.as_slice())?;
        self.strtab = Some(raw);
        Ok(())
    }

    /// The nearest symbol at or below `address` of type `st_type` that is
    /// defined in a section: its name and value.
    pub fn find_symbol(&mut self, address: u64, st_type: u8) -> (r: Result<(String, u64), Error>)
        requires
            old(self).wf(),
        ensures
            final(self).wf(),
            old(self).grows_to(final(self)),
            final(self).position() == old(self).position(),
            symtab_error(final(self).image()) is None ==> final(self).symbols_loaded()
                && final(self).sorted_symbols().len() == symbol_count(final(self).image()),
            r is Ok ==> {
                let d = final(self).image();
                let s = final(self).sorted_symbols();
                let name = r.unwrap().0;
                let value = r.unwrap().1;
                &&& symtab_error(d) is None
                &&& strtab_error(d) is None
                &&& final(self).symbols_loaded()
                &&& exists|i: int|
                    best_match(s, address, st_type, i) && value == s[i].st_value && Some(name@)
                        == string_at(strtab_bytes(d), s[i].st_name as int)
            },
            r is Err ==> {
                let d = final(self).image();
                let s = final(self).sorted_symbols();
                let e = r.unwrap_err();
                &&& symtab_error(d) is None ==> final(self).symbols_loaded()
                &&& symtab_error(d) is None && strtab_error(d) is None ==> final(self).strtab_loaded()
                &&& Some(e.kind) == if symtab_error(d) is Some {
                    symtab_error(d)
                } else if strtab_error(d) is Some {
                    strtab_error(d)
                } else if no_match(s, address, st_type) {
                    Some(ErrorKind::NotFound)
                } else {
                    Some(ErrorKind::InvalidData)
                }
                &&& e.kind == ErrorKind::InvalidData && symtab_error(d) is None && strtab_error(d)
                    is None ==> exists|i: int|
                    best_match(s, address, st_type, i) && string_at(
                        strtab_bytes(d),
                        s[i].st_name as int,
                    ) is None
            },
    {
        self.ensure_symtab()?;
        self.ensure_strtab()?;
        match (&self.symtab, &self.strtab) {
            (Some(syms), Some(tab)) => {
                let idx = search_address_opt_key(syms.as_slice(), address, st_type);
                match idx {
                    None => Err(
                        Error::new(
                            ErrorKind::NotFound,
                            "Does not found a symbol for the given address",
                        ),
                    ),
                    Some(i) => {
                        let sym = syms[i];
                        match extract_string(tab.as_slice(), sym.st_name as usize) {
                            Some(name) => {
                                proof {
                                    let d = self.data@;
                                    assert(tab@ == strtab_bytes(d));
                                    assert(self.sorted_symbols() == syms@);
                                    let ss = self.sorted_symbols();
                                    assert(exists|j: int|
                                        best_match(ss, address, st_type, j) && sym.st_value
                                            == ss[j].st_value && Some(name@) == string_at(
                                            strtab_bytes(self.image()),
                                            ss[j].st_name as int,
                                        ));
                                }
                                Ok((name, sym.st_value))
                            },
                            None => {
                                proof {
                                    assert(self.sorted_symbols() == syms@);
                                    assert(tab@ == strtab_bytes(self.image()));
                                    let ss = self.sorted_symbols();
                                    assert(best_match(ss, address, st_type, i as int));
                                    assert(string_at(strtab_bytes(self.image()), ss[i as int].st_name as int) is None);
                                }
                                Err(
                                    Error::new(
                                        ErrorKind::InvalidData,
                                        "invalid symbol name string/offset",
                                    ),
                                )
                            },
                        }
                    },
                }
            },
            _ => Err(Error::new(ErrorKind::InvalidData, "missing symbol tables")),
        }
    }

    /// The number of symbols.
    pub fn get_num_symbols(&mut self) -> (r: Result<usize, Error>)
        requires
            old(self).wf(),
        ensures
            final(self).wf(),
            old(self).grows_to(final(self)),
            final(self).position() == old(self).position(),
            symtab_error(final(self).image()) is None ==> final(self).symbols_loaded()
                && final(self).sorted_symbols().len() == symbol_count(final(self).image()),
            match r {
                Ok(n) => symtab_error(final(self).image()) is None && final(self).symbols_loaded()
                    && n == symbol_count(final(self).image()) && n == final(self).sorted_symbols().len(),
                Err(e) => symtab_error(final(self).image()) == Some(e.kind),
            },
    {
        self.ensure_symtab()?;
        match &self.symtab {
            Some(v) => {
                proof {
                    let o = self.symtab_origin.unwrap()@;
                    let p = choose|p: Seq<int>| stable_order(p, v@, o);
                    assert(stable_order(p, v@, o));
                }
                Ok(v.len())
            },
            None => Err(Error::new(ErrorKind::InvalidData, "missing symbol table")),
        }
    }

    /// Symbol `idx` of the table sorted by value.
    pub fn get_symbol(&mut self, idx: usize) -> (r: Result<Elf64_Sym, Error>)
        requires
            old(self).wf(),
        ensures
            final(self).wf(),
            old(self).grows_to(final(self)),
            final(self).position() == old(self).position(),
            symtab_error(final(self).image()) is None ==> final(self).symbols_loaded()
                && final(self).sorted_symbols().len() == symbol_count(final(self).image()),
            match r {
                Ok(sym) => symtab_error(final(self).image()) is None && final(self).symbols_loaded()
                    && idx < final(self).sorted_symbols().len() && sym == final(self).sorted_symbols()[idx as int],
                Err(e) => Some(e.kind) == if symtab_error(final(self).image()) is Some {
                    symtab_error(final(self).image())
                } else if idx >= final(self).sorted_symbols().len() {
                    Some(ErrorKind::InvalidInput)
                } else {
                    None
                },
            },
    {
        self.ensure_symtab()?;
        match &self.symtab {
            Some(v) => if idx < v.len() {
                Ok(v[idx])
            } else {
                Err(Error::new(ErrorKind::InvalidInput, "the index is too big"))
            },
            None => Err(Error::new(ErrorKind::InvalidData, "missing symbol table")),
        }
    }

    /// Symbol `idx` of the table in file order.
    pub fn get_symbol_origin(&mut self, idx: usize) -> (r: Result<Elf64_Sym, Error>)
        requires
            old(self).wf(),
        ensures
            final(self).wf(),
            old(self).grows_to(final(self)),
            final(self).position() == old(self).position(),
            match r {
                Ok(sym) => symtab_error(final(self).image()) is None && idx < symbol_count(
                    final(self).image(),
                ) && sym_of(sym, symtab_bytes(final(self).image()), SYM_SIZE * idx),
                Err(e) => Some(e.kind) == if symtab_error(final(self).image()) is Some {
                    symtab_error(final(self).image())
                } else if idx >= symbol_count(final(self).image()) {
                    Some(ErrorKind::InvalidInput)
                } else {
                    None
                },
            },
    {
        self.ensure_symtab()?;
        match &self.symtab_origin {
            Some(v) => if idx < v.len() {
                Ok(v[idx])
            } else {
                Err(Error::new(ErrorKind::InvalidInput, "the index is too big"))
            },
            None => Err(Error::new(ErrorKind::InvalidData, "missing symbol table")),
        }
    }

    /// The name of symbol `idx` of the table sorted by value.
    pub fn get_symbol_name(&mut self, idx: usize) -> (r: Result<String, Error>)
        requires
            old(self).wf(),
        ensures
            final(self).wf(),
            old(self).grows_to(final(self)),
            final(self).position() == old(self).position(),
            symtab_error(final(self).image()) is None ==> final(self).symbols_loaded()
                && final(self).sorted_symbols().len() == symbol_count(final(self).image()),
            match r {
                Ok(name) => {
                    let d = final(self).image();
                    &&& symtab_error(d) is None
                    &&& strtab_error(d) is None
                    &&& final(self).symbols_loaded()
                    &&& idx < final(self).sorted_symbols().len()
                    &&& Some(name@) == string_at(
                        strtab_bytes(d),
                        final(self).sorted_symbols()[idx as int].st_name as int,
                    )
                },
                Err(e) => {
                    let d = final(self).image();
                    let s = final(self).sorted_symbols();
                    Some(e.kind) == if symtab_error(d) is Some {
                        symtab_error(d)
                    } else if idx >= s.len() {
                        Some(ErrorKind::InvalidInput)
                    } else if strtab_error(d) is Some {
                        strtab_error(d)
                    } else if string_at(strtab_bytes(d), s[idx as int].st_name as int) is None {
                        Some(ErrorKind::InvalidData)
                    } else {
                        None
                    }
                },
            },
    {
        let sym = self.get_symbol(idx)?;
        self.ensure_strtab()?;
        match &self.strtab {
            Some(tab) => match extract_string(tab.as_slice(), sym.st_name as usize) {
                Some(name) => Ok(name),
                None => Err(Error::new(ErrorKind::InvalidData, "invalid symb name string/offset")),
            },
            None => Err(Error::new(ErrorKind::InvalidData, "missing string table")),
        }
    }

    /// A copy of the symbol table sorted by value.
    pub fn get_all_symbols(&mut self) -> (r: Result<Vec<Elf64_Sym>, Error>)
        requires
            old(self).wf(),
        ensures
            final(self).wf(),
            old(self).grows_to(final(self)),
            final(self).position() == old(self).position(),
            symtab_error(final(self).image()) is None ==> final(self).symbols_loaded()
                && final(self).sorted_symbols().len() == symbol_count(final(self).image()),
            match r {
                Ok(v) => symtab_error(final(self).image()) is None && final(self).symbols_loaded()
                    && v@ == final(self).sorted_symbols() && sorted_by_value(v@),
                Err(e) => symtab_error(final(self).image()) == Some(e.kind),
            },
    {
        self.ensure_symtab()?;
        match &self.symtab {
            Some(v) => {
                let mut out: Vec<Elf64_Sym> = Vec::new();
                let mut i: usize = 0;
                while i < v.len()
                    invariant
                        i <= v@.len(),
                        out@ == v@.subrange(0, i as int),
                    decreases v@.len() - i,
                {
                    out.push(v[i]);
                    i += 1;
                    assert(out@ =~= v@.subrange(0, i as int));
                }
                assert(out@ =~= v@);
                Ok(out)
            },
            None => Err(Error::new(ErrorKind::InvalidData, "missing symbol table")),
        }
    }

    /// Read `buf.len()` bytes at the read cursor into `buf` and move the
    /// cursor past them. Nothing keeps the read within one section.
    pub fn read_raw(&mut self, buf: &mut [u8]) -> (r: Result<(), Error>)
        requires
            old(self).wf(),
        ensures
            final(self).wf(),
            *old(self) == *final(self) || r is Ok,
            old(self).grows_to(final(self)),
            final(buf)@.len() == old(buf)@.len(),
            match r {
                Ok(_) => {
                    let p = old(self).position() as int;
                    &&& p + old(buf)@.len() <= old(self).image().len()
                    &&& final(buf)@ == old(self).image().subrange(p, p + old(buf)@.len())
                    &&& final(self).position() == p + old(buf)@.len()
                },
                Err(e) => {
                    &&& old(self).position() + old(buf)@.len() > old(self).image().len()
                    &&& e.kind == ErrorKind::UnexpectedEof
                    &&& final(buf)@ == old(buf)@
                },
            },
    {
        let n = buf.len();
        let len = self.data.len();
        if self.pos > len as u64 || n as u64 > len as u64 - self.pos {
            return Err(Error::new(ErrorKind::UnexpectedEof, "failed to fill whole buffer"));
        }
        let start = self.pos as usize;
        let mut k: usize = 0;
        while k < n
            invariant
                n == buf@.len(),
                len == self.data@.len(),
                start + n <= len,
                k <= n,
                forall|j: int| 0 <= j < k ==> buf@[j] == self.data@[start + j],
            decreases n - k,
        {
            buf.set(k, self.data[start + k]);
            k += 1;
        }
        assert(buf@ =~= self.data@.subrange(start as int, start + n));
        self.pos = self.pos + n as u64;
        Ok(())
    }
}

/// The symbol table a parser keeps, once loaded, is ordered by value, and it
/// is the file-order table reordered stably.
pub proof fn lemma_sorted_symbols_ordered(p: &Elf64Parser)
    requires
        p.wf(),
        p.symbols_loaded(),
    ensures
        sorted_by_value(p.sorted_symbols()),
        stable_sorted_of(p.sorted_symbols(), p.file_symbols()),
        symbols_of(p.file_symbols(), symtab_bytes(p.image())),
{
}

/// A value that `find_symbol` reports for `address` is at most `address`, and
/// no selected symbol of the table has a value above it and still at most
/// `address`.
pub proof fn lemma_found_symbol_is_nearest(p: &Elf64Parser, address: u64, st_type: u8, value: u64)
    requires
        p.wf(),
        p.symbols_loaded(),
        exists|i: int|
            best_match(p.sorted_symbols(), address, st_type, i) && value == p.sorted_symbols()[i].st_value,
    ensures
        value <= address,
        forall|k: int|
            0 <= k < p.sorted_symbols().len() && selects(p.sorted_symbols()[k], st_type) ==> !(value
                < p.sorted_symbols()[k].st_value <= address),
{
    let i = choose|i: int|
        best_match(p.sorted_symbols(), address, st_type, i) && value == p.sorted_symbols()[i].st_value;
    lemma_best_match_is_nearest(p.sorted_symbols(), address, st_type, i);
}

/// Caches only fill: after any sequence of operations every table that was
/// loaded is still there, unchanged, over the same image.
pub proof fn lemma_grows_to_transitive(a: &Elf64Parser, b: &Elf64Parser, c: &Elf64Parser)
    requires
        a.grows_to(b),
        b.grows_to(c),
    ensures
        a.grows_to(c),
        a.image() == c.image(),
{
}

/// A loaded table is one whose loading succeeds on the parser's image.
pub proof fn lemma_loaded_tables_ok(p: &Elf64Parser)
    requires
        p.wf(),
    ensures
        p.symbols_loaded() ==> symtab_error(p.image()) is None && p.sorted_symbols().len()
            == symbol_count(p.image()),
        p.strtab_loaded() ==> strtab_error(p.image()) is None,
{
}

/// Once the header and the section-header string table load, asking for the
/// name of any section below the announced count either succeeds with its
/// valid UTF-8 name or fails with `InvalidData`.
pub proof fn lemma_section_name_valid_or_invalid_data(d: Seq<u8>, i: int)
    requires
        shstrtab_error(d) is None,
        0 <= i < e_shnum(d),
    ensures
        section_name_error(d, i) is None <==> section_name(d, i) is Some,
        section_name_error(d, i) is Some ==> section_name_error(d, i) == Some(ErrorKind::InvalidData),
{
}

/// Once the symbol and string tables load, the name of any symbol either is
/// valid UTF-8 at an offset inside the string table or its lookup fails with
/// `InvalidData`.
pub proof fn lemma_symbol_name_valid_or_invalid_data(p: &Elf64Parser, i: int)
    requires
        p.wf(),
        p.symbols_loaded(),
        p.strtab_loaded(),
        0 <= i < p.sorted_symbols().len(),
    ensures
        symtab_error(p.image()) is None,
        strtab_error(p.image()) is None,
        string_at(strtab_bytes(p.image()), p.sorted_symbols()[i].st_name as int) is Some
            ==> p.sorted_symbols()[i].st_name < strtab_bytes(p.image()).len(),
{
    let tab = strtab_bytes(p.image());
    let off = p.sorted_symbols()[i].st_name as int;
    if string_at(tab, off) is Some {
        let end = choose|end: int| nul_at(tab, off, end);
    }
}

/// Asking `find_symbol` again, after any operations in between, gives the
/// same answer: two answers for the same address and type, one given before
/// and one after, have the same value and the same name.
pub proof fn lemma_find_symbol_repeatable(
    p: &Elf64Parser,
    q: &Elf64Parser,
    address: u64,
    st_type: u8,
    name1: Seq<char>,
    value1: u64,
    name2: Seq<char>,
    value2: u64,
)
    requires
        p.wf(),
        q.wf(),
        p.symbols_loaded(),
        p.grows_to(q),
        exists|i: int|
            best_match(p.sorted_symbols(), address, st_type, i) && value1
                == p.sorted_symbols()[i].st_value && Some(name1) == string_at(
                strtab_bytes(p.image()),
                p.sorted_symbols()[i].st_name as int,
            ),
        exists|j: int|
            best_match(q.sorted_symbols(), address, st_type, j) && value2
                == q.sorted_symbols()[j].st_value && Some(name2) == string_at(
                strtab_bytes(q.image()),
                q.sorted_symbols()[j].st_name as int,
            ),
    ensures
        value1 == value2,
        name1 == name2,
{
    let i = choose|i: int|
        best_match(p.sorted_symbols(), address, st_type, i) && value1
            == p.sorted_symbols()[i].st_value && Some(name1) == string_at(
            strtab_bytes(p.image()),
            p.sorted_symbols()[i].st_name as int,
        );
    let j = choose|j: int|
        best_match(q.sorted_symbols(), address, st_type, j) && value2
            == q.sorted_symbols()[j].st_value && Some(name2) == string_at(
            strtab_bytes(q.image()),
            q.sorted_symbols()[j].st_name as int,
        );
    lemma_best_match_unique(p.sorted_symbols(), address, st_type, i, j);
}

/// Asking for the name of a section, or for the section of a name, again
/// after any operations in between gives the same answer: both depend on the
/// image alone, which no operation changes.
pub proof fn lemma_section_name_repeatable(p: &Elf64Parser, q: &Elf64Parser, i: int, name: Seq<u8>)
    requires
        p.grows_to(q),
    ensures
        section_name_error(p.image(), i) == section_name_error(q.image(), i),
        section_name(p.image(), i) == section_name(q.image(), i),
        find_section_error(p.image(), name) == find_section_error(q.image(), name),
        first_named(p.image(), name, i) == first_named(q.image(), name, i),
{
}

} // verus!
