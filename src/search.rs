//! Looking up the symbol that covers an address in a symbol table sorted by
//! address.
use vstd::prelude::*;

use crate::elf::sorted_by_value;
use crate::elf::Elf64_Sym;
use crate::elf::SHN_UNDEF;

verus! {

/// Whether `s` takes part in a search for symbols of type `st_type`: its type
/// matches and it is defined in some section.
pub open spec fn selects(s: Elf64_Sym, st_type: u8) -> bool {
    s.spec_type() == st_type && s.st_shndx != SHN_UNDEF
}

/// Whether `i` is the answer of a search for `addr`: a selected entry at or
/// below `addr`, and no selected entry after it is at or below `addr`.
pub open spec fn best_match(s: Seq<Elf64_Sym>, addr: u64, st_type: u8, i: int) -> bool {
    &&& 0 <= i < s.len()
    &&& selects(s[i], st_type)
    &&& s[i].st_value <= addr
    &&& forall|j: int| i < j < s.len() && selects(s[j], st_type) ==> s[j].st_value > addr
}

/// Whether no selected entry is at or below `addr`.
pub open spec fn no_match(s: Seq<Elf64_Sym>, addr: u64, st_type: u8) -> bool {
    forall|j: int| 0 <= j < s.len() && selects(s[j], st_type) ==> s[j].st_value > addr
}

/// The number of entries of `s` whose value is at or below `addr`.
fn partition_point(s: &[Elf64_Sym], addr: u64) -> (r: usize)
    requires
        sorted_by_value(s@),
    ensures
        r <= s@.len(),
        forall|j: int| 0 <= j < r ==> s@[j].st_value <= addr,
        forall|j: int| r <= j < s@.len() ==> s@[j].st_value > addr,
{
    let mut lo: usize = 0;
    let mut hi: usize = s.len();
    while lo < hi
        invariant
            lo <= hi <= s@.len(),
            sorted_by_value(s@),
            forall|j: int| 0 <= j < lo ==> s@[j].st_value <= addr,
            forall|j: int| hi <= j < s@.len() ==> s@[j].st_value > addr,
        decreases hi - lo,
    {
        let mid = lo + (hi - lo) / 2;
        if s[mid].st_value <= addr {
            lo = mid + 1;
        } else {
            hi = mid;
        }
    }
    lo
}

/// Find the entry of the sorted table `s` with the greatest value at or below
/// `addr` among those of type `st_type` defined in a section; of several with
/// that value, the last one.
pub fn search_address_opt_key(s: &[Elf64_Sym], addr: u64, st_type: u8) -> (r: Option<usize>)
    requires
        sorted_by_value(s@),
    ensures
        match r {
            Some(i) => best_match(s@, addr, st_type, i as int),
            None => no_match(s@, addr, st_type),
        },
{
    let mut i = partition_point(s, addr);
    let ghost p = i;
    while i > 0
        invariant
            i <= p <= s@.len(),
            forall|j: int| 0 <= j < p ==> s@[j].st_value <= addr,
            forall|j: int| p <= j < s@.len() ==> s@[j].st_value > addr,
            forall|j: int| i <= j < p ==> !selects(#[trigger] s@[j], st_type),
        decreases i,
    {
        let sym = &s[i - 1];
        if sym.get_type() == st_type && !sym.is_undef() {
            return Some(i - 1);
        }
        i -= 1;
    }
    None
}

/// What a search returns is the symbol nearest below the address: its value
/// is at most `addr`, and no selected symbol anywhere in the table has a value
/// above it and still at most `addr`.
pub proof fn lemma_best_match_is_nearest(s: Seq<Elf64_Sym>, addr: u64, st_type: u8, i: int)
    requires
        sorted_by_value(s),
        best_match(s, addr, st_type, i),
    ensures
        s[i].st_value <= addr,
        forall|k: int|
            0 <= k < s.len() && selects(s[k], st_type) ==> !(s[i].st_value < s[k].st_value
                <= addr),
{
    assert forall|k: int| 0 <= k < s.len() && selects(s[k], st_type) implies !(s[i].st_value
        < s[k].st_value <= addr) by {
        if k <= i {
            assert(s[k].st_value <= s[i].st_value);
        }
    }
}

/// Searching for the value of a selected entry `k` always finds an entry, and
/// the one found has that same value: it is `k` itself or a later alias.
pub proof fn lemma_search_own_value(s: Seq<Elf64_Sym>, st_type: u8, k: int, i: int)
    requires
        sorted_by_value(s),
        0 <= k < s.len(),
        selects(s[k], st_type),
    ensures
        !no_match(s, s[k].st_value, st_type),
        best_match(s, s[k].st_value, st_type, i) ==> k <= i && s[i].st_value == s[k].st_value,
{
}

/// A search has at most one answer.
pub proof fn lemma_best_match_unique(s: Seq<Elf64_Sym>, addr: u64, st_type: u8, i: int, j: int)
    requires
        best_match(s, addr, st_type, i),
        best_match(s, addr, st_type, j),
    ensures
        i == j,
{
}

/// Searching one past the value `a` of a selected entry, where no selected
/// entry has value `a + 1`, finds an entry of value `a`: the offset into it
/// is one.
pub proof fn lemma_search_next_address(s: Seq<Elf64_Sym>, st_type: u8, k: int, i: int)
    requires
        sorted_by_value(s),
        0 <= k < s.len(),
        selects(s[k], st_type),
        s[k].st_value < u64::MAX,
        forall|j: int| 0 <= j < s.len() && selects(s[j], st_type) ==> s[j].st_value != s[k].st_value + 1,
    ensures
        !no_match(s, (s[k].st_value + 1) as u64, st_type),
        best_match(s, (s[k].st_value + 1) as u64, st_type, i) ==> s[i].st_value == s[k].st_value,
{
    if best_match(s, (s[k].st_value + 1) as u64, st_type, i) {
        assert(k <= i);
        assert(s[k].st_value <= s[i].st_value);
    }
}

} // verus!
