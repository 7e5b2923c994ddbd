//! The symbolization data model: input coordinates, symbols, source locations
//! and the reasons a symbolization can miss.
use vstd::prelude::*;

use crate::elf::parser::strtab_bytes;
use crate::elf::parser::strtab_error;
use crate::elf::parser::symtab_error;
use crate::elf::string_at;
use crate::elf::Elf64Parser;
use crate::elf::STT_FUNC;
use crate::error::Error;
use crate::error::ErrorKind;
use crate::normalize;
use crate::search::best_match;
use crate::search::no_match;
use crate::Addr;

verus! {

/// Options determining what "parts" of a symbol to look up.
#[derive(Clone, Copy, Debug, PartialEq, Eq, Structural)]
pub enum FindSymOpts {
    /// Only the basic symbol data (name, address, size).
    Basic,
    /// Symbol data and source code location information.
    CodeInfo,
    /// Symbol data, source code location and inlined function information.
    CodeInfoAndInlined,
}

impl FindSymOpts {
    /// Whether source code location information is requested.
    pub fn code_info(&self) -> (r: bool)
        ensures
            r == (*self != FindSymOpts::Basic),
    {
        match self {
            FindSymOpts::Basic => false,
            FindSymOpts::CodeInfo | FindSymOpts::CodeInfoAndInlined => true,
        }
    }

    /// Whether inlined function information is requested.
    pub fn inlined_fns(&self) -> (r: bool)
        ensures
            r == (*self == FindSymOpts::CodeInfoAndInlined),
    {
        match self {
            FindSymOpts::Basic | FindSymOpts::CodeInfo => false,
            FindSymOpts::CodeInfoAndInlined => true,
        }
    }
}

/// The coordinate system an input address is expressed in.
#[derive(Clone, Copy, Debug)]
pub enum Input<T> {
    /// An address as a process sees it, relocation and randomization included.
    AbsAddr(T),
    /// An address as it appears in a binary or debug symbol file.
    VirtOffset(T),
    /// The linear offset in a file.
    FileOffset(T),
}

impl<T> Input<T> {
    /// The payload, whatever the variant.
    pub open spec fn payload(self) -> T {
        match self {
            Input::AbsAddr(x) => x,
            Input::VirtOffset(x) => x,
            Input::FileOffset(x) => x,
        }
    }

    /// Extract the inner payload.
    pub fn into_inner(self) -> (r: T)
        ensures
            r == self.payload(),
    {
        match self {
            Input::AbsAddr(x) => x,
            Input::VirtOffset(x) => x,
            Input::FileOffset(x) => x,
        }
    }
}

impl<'a, T: Copy> Input<&'a [T]> {
    /// The same variant over the one address of a single-element input.
    pub fn try_to_single(&self) -> (r: Option<Input<T>>)
        ensures
            self.payload()@.len() != 1 ==> r is None,
            self.payload()@.len() == 1 ==> r == Some(match *self {
                Input::AbsAddr(s) => Input::AbsAddr(s@[0]),
                Input::VirtOffset(s) => Input::VirtOffset(s@[0]),
                Input::FileOffset(s) => Input::FileOffset(s@[0]),
            }),
    {
        match self {
            Input::AbsAddr(s) => if s.len() == 1 {
                Some(Input::AbsAddr(s[0]))
            } else {
                None
            },
            Input::VirtOffset(s) => if s.len() == 1 {
                Some(Input::VirtOffset(s[0]))
            } else {
                None
            },
            Input::FileOffset(s) => if s.len() == 1 {
                Some(Input::FileOffset(s[0]))
            } else {
                None
            },
        }
    }
}

/// The path that joining `file` onto `dir` yields.
pub uninterp spec fn joined_path(dir: Seq<char>, file: Seq<char>) -> Seq<char>;

/// Relies on `std::path::Path::join`: the result depends on the two paths
/// alone, and an absolute `file` replaces `dir`.
#[verifier::external_body]
fn join_path(dir: &String, file: &String) -> (r: String)
    ensures
        r@ == joined_path(dir@, file@),
        file@.len() > 0 && file@[0] == '/' ==> r@ == file@,
{
    std::path::Path::new(dir.as_str()).join(file.as_str()).to_string_lossy().into_owned()
}

/// A copy of an optional string.
fn clone_opt_string(s: &Option<String>) -> (r: Option<String>)
    ensures
        match (s, r) {
            (Some(a), Some(b)) => a@ == b@,
            (None, None) => true,
            _ => false,
        },
{
    match s {
        Some(x) => Some(x.clone()),
        None => None,
    }
}

/// Source code location information for a symbol or inlined function.
#[derive(Clone, Debug, PartialEq)]
pub struct CodeInfo {
    /// The directory in which the source file resides.
    pub dir: Option<String>,
    /// The file that defines the symbol.
    pub file: String,
    /// The line of the symbolized instruction.
    pub line: Option<u32>,
    /// The column of the symbolized instruction.
    pub column: Option<u16>,
}

impl CodeInfo {
    /// Whether `other` describes the same location: same directory, file,
    /// line and column.
    pub open spec fn same_as(self, other: CodeInfo) -> bool {
        &&& match (self.dir, other.dir) {
            (Some(a), Some(b)) => a@ == b@,
            (None, None) => true,
            _ => false,
        }
        &&& self.file@ == other.file@
        &&& self.line == other.line
        &&& self.column == other.column
    }

    /// The path of the source file: `file` alone without a directory, else
    /// `file` joined onto `dir`.
    pub open spec fn path(self) -> Seq<char> {
        match self.dir {
            None => self.file@,
            Some(d) => joined_path(d@, self.file@),
        }
    }

    /// The path to the represented source file.
    pub fn to_path(&self) -> (r: String)
        ensures
            r@ == self.path(),
    {
        match &self.dir {
            None => self.file.clone(),
            Some(d) => join_path(d, &self.file),
        }
    }

    /// A deep copy of this location.
    pub fn to_owned(&self) -> (r: CodeInfo)
        ensures
            r.same_as(*self),
    {
        CodeInfo {
            dir: clone_opt_string(&self.dir),
            file: self.file.clone(),
            line: self.line,
            column: self.column,
        }
    }
}

/// An inlined function call.
#[derive(Clone, Debug, PartialEq)]
pub struct InlinedFn {
    /// The symbol name of the inlined function.
    pub name: String,
    /// Source code location of the call to the function.
    pub code_info: Option<CodeInfo>,
}

/// The source code language from which a symbol originates.
#[derive(Clone, Copy, Debug, PartialEq, Eq, Structural)]
pub enum SrcLang {
    /// The language is unknown.
    Unknown,
    /// The language is C++.
    Cpp,
    /// The language is Rust.
    Rust,
}

impl Default for SrcLang {
    fn default() -> (r: SrcLang)
        ensures
            r == SrcLang::Unknown,
    {
        SrcLang::Unknown
    }
}

/// A symbol as a symbolization backend reports it.
#[derive(Debug)]
pub struct IntSym {
    /// The name of the symbol.
    pub name: String,
    /// The symbol's address as recorded in the file.
    pub addr: Addr,
    /// The symbol's size, if available.
    pub size: Option<usize>,
    /// The source code language of the symbol.
    pub lang: SrcLang,
    /// Source code location information.
    pub code_info: Option<CodeInfo>,
    /// Inlined function information.
    pub inlined: Vec<InlinedFn>,
}

/// The result of symbolizing one address.
#[derive(Clone, Debug, PartialEq)]
pub struct Sym {
    /// The name of the symbol that the address belongs to.
    pub name: String,
    /// The address at which the symbol starts, as recorded in the file.
    pub addr: Addr,
    /// The offset of the symbolized address from `addr`.
    pub offset: usize,
    /// The symbol's size, if available.
    pub size: Option<usize>,
    /// Source code location information for the symbol.
    pub code_info: Option<CodeInfo>,
    /// Inlined functions, outermost call first.
    pub inlined: Vec<InlinedFn>,
}

/// The reason why symbolization failed; a hint only.
#[derive(Clone, Copy, Debug, PartialEq, Eq, Structural)]
pub enum Reason {
    /// The absolute address is not in the process' virtual memory map.
    Unmapped,
    /// The file offset does not map to a valid piece of code or data.
    InvalidFileOffset,
    /// The memory map entry of the address has no component.
    MissingComponent,
    /// The symbolization source has no or no relevant symbols.
    MissingSyms,
    /// The address belongs to an entity that is not supported.
    Unsupported,
    /// The address could not be found in the symbolization source.
    UnknownAddr,
}

impl Reason {
    /// The human readable description of each reason.
    pub open spec fn spec_message(self) -> &'static str {
        match self {
            Reason::Unmapped => "absolute address not found in virtual memory map of process",
            Reason::InvalidFileOffset => "file offset does not map to a valid piece of code/data",
            Reason::MissingComponent => "proc maps entry has no component",
            Reason::MissingSyms => "symbolization source has no or no relevant symbols",
            Reason::Unsupported => "address belongs to unsupprted entity",
            Reason::UnknownAddr => "address not found in symbolization source",
        }
    }

    /// A human readable description of the reason.
    pub fn to_string(&self) -> (r: String)
        ensures
            r@ == self.spec_message()@,
    {
        let s = match self {
            Reason::Unmapped => "absolute address not found in virtual memory map of process",
            Reason::InvalidFileOffset => "file offset does not map to a valid piece of code/data",
            Reason::MissingComponent => "proc maps entry has no component",
            Reason::MissingSyms => "symbolization source has no or no relevant symbols",
            Reason::Unsupported => "address belongs to unsupprted entity",
            Reason::UnknownAddr => "address not found in symbolization source",
        };
        s.to_owned()
    }
}

/// The reason a normalization miss becomes when symbolizing.
pub open spec fn reason_of(reason: normalize::Reason) -> Reason {
    match reason {
        normalize::Reason::Unmapped => Reason::Unmapped,
        normalize::Reason::MissingComponent => Reason::MissingComponent,
        normalize::Reason::Unsupported => Reason::Unsupported,
    }
}

impl From<normalize::Reason> for Reason {
    fn from(reason: normalize::Reason) -> (r: Reason)
        ensures
            r == reason_of(reason),
    {
        match reason {
            normalize::Reason::Unmapped => Reason::Unmapped,
            normalize::Reason::MissingComponent => Reason::MissingComponent,
            normalize::Reason::Unsupported => Reason::Unsupported,
        }
    }
}

impl vstd::std_specs::convert::FromSpecImpl<normalize::Reason> for Reason {
    open spec fn obeys_from_spec() -> bool {
        true
    }

    open spec fn from_spec(reason: normalize::Reason) -> Reason {
        reason_of(reason)
    }
}

/// Every normalization miss maps onto exactly one of `Unmapped`,
/// `MissingComponent` and `Unsupported`, and each of these three is reached.
pub proof fn lemma_reason_mapping(reason: normalize::Reason)
    ensures
        reason_of(reason) == Reason::Unmapped || reason_of(reason) == Reason::MissingComponent
            || reason_of(reason) == Reason::Unsupported,
        reason_of(normalize::Reason::Unmapped) == Reason::Unmapped,
        reason_of(normalize::Reason::MissingComponent) == Reason::MissingComponent,
        reason_of(normalize::Reason::Unsupported) == Reason::Unsupported,
{
}

/// The outcome of symbolizing one address.
#[derive(Clone, Debug, PartialEq)]
pub enum Symbolized {
    /// The address was symbolized as the provided symbol.
    Sym(Sym),
    /// The address could not be symbolized; the reason is a hint.
    Unknown(Reason),
}

impl Symbolized {
    /// The symbol, if the corresponding variant is active.
    pub fn as_sym(&self) -> (r: Option<&Sym>)
        ensures
            match *self {
                Symbolized::Sym(s) => r == Some(&s),
                Symbolized::Unknown(_) => r is None,
            },
    {
        match self {
            Symbolized::Sym(sym) => Some(sym),
            Symbolized::Unknown(_) => None,
        }
    }

    /// Convert into the symbol, if the corresponding variant is active.
    pub fn into_sym(self) -> (r: Option<Sym>)
        ensures
            match self {
                Symbolized::Sym(s) => r == Some(s),
                Symbolized::Unknown(_) => r is None,
            },
    {
        match self {
            Symbolized::Sym(sym) => Some(sym),
            Symbolized::Unknown(_) => None,
        }
    }
}

/// Whether `out` is what a backend's answer `found` for `addr` becomes: a
/// symbol with its offset from `addr`, or the miss with its reason.
pub open spec fn lifted(addr: Addr, found: Result<IntSym, Reason>, out: Symbolized) -> bool {
    match (found, out) {
        (Ok(s), Symbolized::Sym(t)) => t.name == s.name && t.addr == s.addr && t.offset == addr
            - s.addr && t.size == s.size && t.code_info == s.code_info && t.inlined == s.inlined,
        (Err(e), Symbolized::Unknown(f)) => e == f,
        _ => false,
    }
}

/// Lift a backend's answer for the address `addr` into the public result: a
/// symbol gets its offset `addr - sym.addr`, a miss keeps its reason.
pub fn to_symbolized(addr: Addr, found: Result<IntSym, Reason>) -> (r: Symbolized)
    requires
        found matches Ok(s) ==> s.addr <= addr && addr - s.addr <= usize::MAX,
    ensures
        lifted(addr, found, r),
{
    match found {
        Ok(s) => Symbolized::Sym(
            Sym {
                name: s.name,
                addr: s.addr,
                offset: (addr - s.addr) as usize,
                size: s.size,
                code_info: s.code_info,
                inlined: s.inlined,
            },
        ),
        Err(e) => Symbolized::Unknown(e),
    }
}

/// Symbolize `addr`, a virtual offset in the ELF image of `parser`, with the
/// image's function symbols: the nearest function at or below `addr` and the
/// offset into it, or `UnknownAddr` where there is none.
pub fn symbolize_elf(parser: &mut Elf64Parser, addr: Addr) -> (r: Result<Symbolized, Error>)
    requires
        old(parser).wf(),
    ensures
        final(parser).wf(),
        old(parser).grows_to(final(parser)),
        final(parser).position() == old(parser).position(),
        r matches Ok(Symbolized::Sym(sym)) ==> {
            let s = final(parser).sorted_symbols();
            &&& final(parser).symbols_loaded()
            &&& sym.addr <= addr
            &&& sym.offset == (addr - sym.addr) as usize
            &&& sym.size is None
            &&& sym.code_info is None
            &&& sym.inlined@.len() == 0
            &&& exists|i: int|
                best_match(s, addr, STT_FUNC, i) && sym.addr == s[i].st_value && Some(sym.name@)
                    == string_at(strtab_bytes(final(parser).image()), s[i].st_name as int)
        },
        r matches Ok(Symbolized::Unknown(reason)) ==> {
            &&& reason == Reason::UnknownAddr
            &&& symtab_error(final(parser).image()) is None
            &&& strtab_error(final(parser).image()) is None
            &&& final(parser).symbols_loaded()
            &&& no_match(final(parser).sorted_symbols(), addr, STT_FUNC)
        },
        r matches Err(e) ==> {
            let d = final(parser).image();
            let s = final(parser).sorted_symbols();
            &&& Some(e.kind) == if symtab_error(d) is Some {
                symtab_error(d)
            } else if strtab_error(d) is Some {
                strtab_error(d)
            } else {
                Some(ErrorKind::InvalidData)
            }
            &&& e.kind == ErrorKind::InvalidData && symtab_error(d) is None && strtab_error(d)
                is None ==> exists|i: int|
                best_match(s, addr, STT_FUNC, i) && string_at(strtab_bytes(d), s[i].st_name as int)
                    is None
        },
{
    match parser.find_symbol(addr, STT_FUNC) {
        Ok((name, value)) => {
            proof {
                crate::elf::parser::lemma_found_symbol_is_nearest(&*parser, addr, STT_FUNC, value);
            }
            Ok(
                Symbolized::Sym(
                    Sym {
                        name,
                        addr: value,
                        offset: #[verifier::truncate] ((addr - value) as usize),
                        size: None,
                        code_info: None,
                        inlined: Vec::new(),
                    },
                ),
            )
        },
        Err(e) => {
            proof {
                crate::elf::parser::lemma_loaded_tables_ok(&*parser);
            }
            match e.kind {
            ErrorKind::NotFound => if parser.symbol_tables_loaded() {
                Ok(Symbolized::Unknown(Reason::UnknownAddr))
            } else {
                Err(e)
            },
            _ => Err(e),
            }
        },
    }
}

/// A source of symbols: given a virtual offset, the symbol that covers it,
/// or the reason there is none.
pub trait Symbolize {
    /// Whether the source is in a state in which it can be asked.
    spec fn ready(&self) -> bool;

    /// Whether `answer` is what the source, in this state, gives for `addr`
    /// asked with `opts`.
    spec fn answers(&self, addr: Addr, opts: FindSymOpts, answer: Result<IntSym, Reason>) -> bool;

    /// Find the symbol that covers `addr`. The outer result reports failures
    /// to read the source, the inner one a miss with its reason.
    fn find_sym(&mut self, addr: Addr, opts: &FindSymOpts) -> (r: Result<Result<IntSym, Reason>, Error>)
        requires
            old(self).ready(),
        ensures
            final(self).ready(),
            r matches Ok(Ok(s)) ==> s.addr <= addr,
            r matches Ok(a) ==> final(self).answers(addr, *opts, a);
}

impl Symbolize for Elf64Parser {
    open spec fn ready(&self) -> bool {
        self.wf()
    }

    /// An ELF image answers with its nearest defined function at or below
    /// the address, without size, source location or inlined functions, and
    /// with `UnknownAddr` where there is none.
    open spec fn answers(&self, addr: Addr, opts: FindSymOpts, answer: Result<IntSym, Reason>) -> bool {
        let s = self.sorted_symbols();
        &&& self.symbols_loaded()
        &&& match answer {
            Ok(sym) => {
                &&& sym.addr <= addr
                &&& sym.size is None
                &&& sym.lang == SrcLang::Unknown
                &&& sym.code_info is None
                &&& sym.inlined@.len() == 0
                &&& exists|i: int|
                    best_match(s, addr, STT_FUNC, i) && sym.addr == s[i].st_value && Some(sym.name@)
                        == string_at(strtab_bytes(self.image()), s[i].st_name as int)
            },
            Err(reason) => reason == Reason::UnknownAddr && no_match(s, addr, STT_FUNC),
        }
    }

    fn find_sym(&mut self, addr: Addr, _opts: &FindSymOpts) -> (r: Result<Result<IntSym, Reason>, Error>) {
        match self.find_symbol(addr, STT_FUNC) {
            Ok((name, value)) => {
                proof {
                    crate::elf::parser::lemma_found_symbol_is_nearest(&*self, addr, STT_FUNC, value);
                }
                Ok(
                    Ok(
                        IntSym {
                            name,
                            addr: value,
                            size: None,
                            lang: SrcLang::Unknown,
                            code_info: None,
                            inlined: Vec::new(),
                        },
                    ),
                )
            },
            Err(e) => {
                proof {
                    crate::elf::parser::lemma_loaded_tables_ok(&*self);
                }
                match e.kind {
                    ErrorKind::NotFound => if self.symbol_tables_loaded() {
                        Ok(Err(Reason::UnknownAddr))
                    } else {
                        Err(e)
                    },
                    _ => Err(e),
                }
            },
        }
    }
}

/// Whether `out` is what the answer `found` for `addr` becomes in a result:
/// the lifted symbol, or `UnknownAddr` where its offset does not fit a
/// `usize`.
pub open spec fn item_of(addr: Addr, found: Result<IntSym, Reason>, out: Symbolized) -> bool {
    match found {
        Ok(s) => if addr - s.addr > usize::MAX {
            out == Symbolized::Unknown(Reason::UnknownAddr)
        } else {
            lifted(addr, found, out)
        },
        Err(_) => lifted(addr, found, out),
    }
}

/// Whether `items` holds, position by position, what the answers of a source
/// (in the states `states`) for `addrs` asked with `opts` become.
pub open spec fn answered_items<S: Symbolize>(
    states: Seq<S>,
    answers: Seq<Result<IntSym, Reason>>,
    addrs: Seq<Addr>,
    opts: FindSymOpts,
    items: Seq<Symbolized>,
) -> bool {
    &&& states.len() == addrs.len()
    &&& answers.len() == addrs.len()
    &&& items.len() == addrs.len()
    &&& forall|i: int|
        0 <= i < addrs.len() ==> #[trigger] states[i].answers(addrs[i], opts, answers[i])
            && item_of(addrs[i], answers[i], items[i])
}

/// Turn a backend's answer for `addr` into a result item.
pub fn lift_answer(addr: Addr, found: Result<IntSym, Reason>) -> (r: Symbolized)
    requires
        found matches Ok(s) ==> s.addr <= addr,
    ensures
        item_of(addr, found, r),
{
    match found {
        Ok(s) => if addr - s.addr <= usize::MAX as u64 {
            to_symbolized(addr, Ok(s))
        } else {
            Symbolized::Unknown(Reason::UnknownAddr)
        },
        Err(reason) => to_symbolized(addr, Err(reason)),
    }
}

/// Symbolize each virtual offset of `addrs` with the source `src`, in order:
/// the source is asked for each address with `opts`, and its answer becomes
/// the item at the same position.
pub fn symbolize_virt_offsets<S: Symbolize>(src: &mut S, addrs: &[Addr], opts: &FindSymOpts) -> (r: Result<Vec<Symbolized>, Error>)
    requires
        old(src).ready(),
    ensures
        final(src).ready(),
        addrs@.len() == 0 ==> (r matches Ok(v) && v@.len() == 0),
        r matches Ok(v) ==> {
            &&& v@.len() == addrs@.len()
            &&& exists|states: Seq<S>, answers: Seq<Result<IntSym, Reason>>|
                #[trigger] answered_items(states, answers, addrs@, *opts, v@)
        },
{
    let mut out: Vec<Symbolized> = Vec::new();
    let ghost mut states: Seq<S> = Seq::empty();
    let ghost mut answers: Seq<Result<IntSym, Reason>> = Seq::empty();
    let mut i: usize = 0;
    while i < addrs.len()
        invariant
            src.ready(),
            i <= addrs@.len(),
            out@.len() == i,
            states.len() == i,
            answers.len() == i,
            forall|k: int|
                0 <= k < i ==> #[trigger] states[k].answers(addrs@[k], *opts, answers[k])
                    && item_of(addrs@[k], answers[k], out@[k]),
        decreases addrs@.len() - i,
    {
        let addr = addrs[i];
        let found = src.find_sym(addr, opts)?;
        proof {
            states = states.push(*src);
            answers = answers.push(found);
        }
        let item = lift_answer(addr, found);
        out.push(item);
        i += 1;
    }
    proof {
        assert(answered_items(states, answers, addrs@, *opts, out@));
        assert(exists|st: Seq<S>, an: Seq<Result<IntSym, Reason>>|
            #[trigger] answered_items(st, an, addrs@, *opts, out@));
    }
    Ok(out)
}

} // verus!
