//! Address-to-module resolution under absolute and relative addressing.

use vstd::prelude::*;

use crate::lookup::{index_present, ModuleEntry, ModuleLookup};
use crate::types::{
    abs_to_rel_addr_spec, rel_to_abs_addr_spec, supports_absolute_addresses_spec, AddrMode,
    CompleteObjectInfo, SymCacheArtifact,
};

verus! {

/// The declared size, with zero or none both read as "extent unknown".
pub open spec fn size_or_zero(sz: Option<u64>) -> u64 {
    match sz {
        Some(s) => s,
        None => 0u64,
    }
}

/// Whether a module may contain the absolute address: it must not start
/// above the address, and — when its extent is known, that is its size is
/// nonzero — its end must not lie below the address.  A module of size zero
/// or none can match any address at or above its start.
pub open spec fn abs_matches(info: CompleteObjectInfo, addr: u64) -> bool {
    &&& info.raw.image_addr <= addr
    &&& (size_or_zero(info.raw.image_size) == 0 || info.raw.image_addr + size_or_zero(
        info.raw.image_size,
    ) >= addr)
}

/// The first position at or after `from` whose module may contain `addr`.
pub open spec fn first_abs_match_from(s: Seq<ModuleEntry>, addr: u64, from: int) -> Option<int>
    decreases s.len() - from,
{
    if from < 0 || from >= s.len() {
        None
    } else if abs_matches(s[from].object_info, addr) {
        Some(from)
    } else {
        first_abs_match_from(s, addr, from + 1)
    }
}

/// The first position at or after `from` carrying the stable index `idx`.
pub open spec fn first_index_match_from(s: Seq<ModuleEntry>, idx: usize, from: int) -> Option<int>
    decreases s.len() - from,
{
    if from < 0 || from >= s.len() {
        None
    } else if s[from].module_index == idx {
        Some(from)
    } else {
        first_index_match_from(s, idx, from + 1)
    }
}

/// The table position `addr` under `mode` resolves to: in absolute mode the
/// first module in ascending-address order whose range test passes; in
/// relative mode the entry carrying the given stable index.
pub open spec fn resolve_pos(s: Seq<ModuleEntry>, addr: u64, mode: AddrMode) -> Option<int> {
    match mode {
        AddrMode::Abs => first_abs_match_from(s, addr, 0),
        AddrMode::Rel(idx) => first_index_match_from(s, idx, 0),
    }
}

/// The module-relative address reported with a resolution: translated in
/// absolute mode, passed through unchanged in relative mode.
pub open spec fn resolved_rel_addr(e: ModuleEntry, addr: u64, mode: AddrMode) -> Option<u64> {
    match mode {
        AddrMode::Abs => abs_to_rel_addr_spec(&e.object_info, addr),
        AddrMode::Rel(_) => Some(addr),
    }
}

/// A successful resolution: the owning module's stable index and info, its
/// fetched symbol cache if any, and the address in the module's space.
pub struct SymCacheLookupResult<'a> {
    pub module_index: usize,
    pub object_info: &'a CompleteObjectInfo,
    pub symcache: Option<&'a SymCacheArtifact>,
    pub relative_addr: Option<u64>,
}

impl<'a> SymCacheLookupResult<'a> {
    /// The preferred addressing for reporting this frame back: absolute where
    /// the module's format has a unified address space, else relative to this
    /// module's stable index (as for WASM images mounted at zero).
    pub fn preferred_addr_mode(&self) -> (r: AddrMode)
        ensures
            supports_absolute_addresses_spec(self.object_info) ==> r == AddrMode::Abs,
            !supports_absolute_addresses_spec(self.object_info) ==> r == AddrMode::Rel(
                self.module_index,
            ),
    {
        if self.object_info.supports_absolute_addresses() {
            AddrMode::Abs
        } else {
            AddrMode::Rel(self.module_index)
        }
    }

    /// An address consistent with `preferred_addr_mode`: a relative address
    /// absolutized where the module supports it (zero when the translation
    /// overflows), and passed through unchanged otherwise.
    pub fn expose_preferred_addr(&self, addr: u64) -> (r: u64)
        ensures
            supports_absolute_addresses_spec(self.object_info) ==> r == (
            match rel_to_abs_addr_spec(self.object_info, addr) {
                Some(a) => a,
                None => 0u64,
            }),
            !supports_absolute_addresses_spec(self.object_info) ==> r == addr,
    {
        if self.object_info.supports_absolute_addresses() {
            match self.object_info.rel_to_abs_addr(addr) {
                Some(a) => a,
                None => 0,
            }
        } else {
            addr
        }
    }
}

/// What `lookup_symcache` returns of the entry at the resolved position.
pub open spec fn lookup_result_matches(
    r: Option<SymCacheLookupResult>,
    s: Seq<ModuleEntry>,
    addr: u64,
    mode: AddrMode,
) -> bool {
    match resolve_pos(s, addr, mode) {
        Some(p) => r matches Some(res) && res.module_index == s[p].module_index
            && *res.object_info == s[p].object_info && (match s[p].symcache {
            Some(a) => res.symcache matches Some(c) && *c == a,
            None => res.symcache is None,
        }) && res.relative_addr == resolved_rel_addr(s[p], addr, mode),
        None => r is None,
    }
}

impl ModuleLookup {
    /// Resolves an instruction address to the owning module and its fetched
    /// symbol cache.  In absolute mode, modules are scanned in ascending
    /// address order and the first whose range may contain the address wins;
    /// in relative mode, the module with the given stable index is returned
    /// with the address passed through.
    pub fn lookup_symcache<'s>(&'s self, addr: u64, addr_mode: AddrMode) -> (r: Option<
        SymCacheLookupResult<'s>,
    >)
        ensures
            lookup_result_matches(r, self@, addr, addr_mode),
    {
        let entries = self.entries();
        match addr_mode {
            AddrMode::Abs => {
                let mut i: usize = 0;
                while i < entries.len()
                    invariant
                        addr_mode is Abs,
                        entries@ == self@,
                        i <= self@.len(),
                        first_abs_match_from(self@, addr, 0) == first_abs_match_from(
                            self@,
                            addr,
                            i as int,
                        ),
                    decreases self@.len() - i,
                {
                    let entry = &entries[i];
                    let start_addr = entry.object_info.raw.image_addr;
                    let size = match entry.object_info.raw.image_size {
                        Some(s) => s,
                        None => 0,
                    };
                    let mut excluded = false;
                    if start_addr > addr {
                        // The image starts at a too high address.
                        excluded = true;
                    } else {
                        match start_addr.checked_add(size) {
                            Some(end_addr) => {
                                if end_addr < addr && size != 0 {
                                    // The image ends at a too low address, and a
                                    // nonzero size means that end is accurate.
                                    excluded = true;
                                }
                            },
                            None => {},
                        }
                    }
                    if !excluded {
                        proof {
                            assert(abs_matches(self@[i as int].object_info, addr));
                            assert(first_abs_match_from(self@, addr, i as int) == Some(i as int));
                            assert(resolve_pos(self@, addr, addr_mode) == Some(i as int));
                        }
                        return Some(
                            SymCacheLookupResult {
                                module_index: entry.module_index,
                                object_info: &entry.object_info,
                                symcache: entry.symcache.as_ref(),
                                relative_addr: entry.object_info.abs_to_rel_addr(addr),
                            },
                        );
                    }
                    proof {
                        assert(!abs_matches(self@[i as int].object_info, addr));
                    }
                    i = i + 1;
                }
                None
            },
            AddrMode::Rel(this_module_index) => {
                let mut i: usize = 0;
                while i < entries.len()
                    invariant
                        addr_mode == AddrMode::Rel(this_module_index),
                        entries@ == self@,
                        i <= self@.len(),
                        first_index_match_from(self@, this_module_index, 0)
                            == first_index_match_from(self@, this_module_index, i as int),
                    decreases self@.len() - i,
                {
                    let entry = &entries[i];
                    if entry.module_index == this_module_index {
                        proof {
                            assert(first_index_match_from(self@, this_module_index, i as int)
                                == Some(i as int));
                            assert(resolve_pos(self@, addr, addr_mode) == Some(i as int));
                        }
                        return Some(
                            SymCacheLookupResult {
                                module_index: entry.module_index,
                                object_info: &entry.object_info,
                                symcache: entry.symcache.as_ref(),
                                relative_addr: Some(addr),
                            },
                        );
                    }
                    i = i + 1;
                }
                None
            },
        }
    }

    /// Resolves an instruction address to the owning module's stable index.
    pub fn get_module_index_by_addr(&self, addr: u64, addr_mode: AddrMode) -> (r: Option<usize>)
        ensures
            r == (match resolve_pos(self@, addr, addr_mode) {
                Some(p) => Some(self@[p].module_index),
                None => None::<usize>,
            }),
    {
        match self.lookup_symcache(addr, addr_mode) {
            Some(res) => Some(res.module_index),
            None => None,
        }
    }
}

proof fn lemma_first_abs_match_is_match(s: Seq<ModuleEntry>, addr: u64, from: int, p: int)
    requires
        first_abs_match_from(s, addr, from) == Some(p),
    ensures
        0 <= p < s.len(),
        abs_matches(s[p].object_info, addr),
    decreases s.len() - from,
{
    if from < 0 || from >= s.len() {
        assert(false);
    } else if abs_matches(s[from].object_info, addr) {
    } else {
        lemma_first_abs_match_is_match(s, addr, from + 1, p);
    }
}

/// Absolute-resolution range law: a module returned for an absolute address
/// never starts above that address, and when its extent is known (nonzero
/// size) its range never ends below that address.
pub proof fn lemma_abs_resolution_in_range(s: Seq<ModuleEntry>, addr: u64, p: int)
    requires
        resolve_pos(s, addr, AddrMode::Abs) == Some(p),
    ensures
        0 <= p < s.len(),
        s[p].object_info.raw.image_addr <= addr,
        size_or_zero(s[p].object_info.raw.image_size) != 0 ==> s[p].object_info.raw.image_addr
            + size_or_zero(s[p].object_info.raw.image_size) >= addr,
{
    lemma_first_abs_match_is_match(s, addr, 0, p);
}

proof fn lemma_first_index_match_finds(s: Seq<ModuleEntry>, idx: usize, from: int)
    requires
        0 <= from,
        exists|p: int| from <= p < s.len() && (#[trigger] s[p]).module_index == idx,
    ensures
        first_index_match_from(s, idx, from) matches Some(p) && from <= p < s.len()
            && s[p].module_index == idx,
    decreases s.len() - from,
{
    if from < s.len() && s[from].module_index == idx {
    } else {
        let w = choose|p: int| from <= p < s.len() && (#[trigger] s[p]).module_index == idx;
        assert(w != from);
        assert(from + 1 <= w < s.len() && s[w].module_index == idx);
        lemma_first_index_match_finds(s, idx, from + 1);
    }
}

/// Relative-resolution round-trip law: for any stable index present in the
/// table and any address, resolving the address relative to that index
/// returns that module's entry, with the relative address passed through
/// unchanged.
pub proof fn lemma_rel_resolution_round_trip(s: Seq<ModuleEntry>, addr: u64, idx: usize)
    requires
        index_present(s, idx as int),
    ensures
        resolve_pos(s, addr, AddrMode::Rel(idx)) matches Some(p) && 0 <= p < s.len()
            && s[p].module_index == idx && resolved_rel_addr(s[p], addr, AddrMode::Rel(idx))
            == Some(addr),
{
    assert(exists|p: int| 0 <= p < s.len() && (#[trigger] s[p]).module_index == idx);
    lemma_first_index_match_finds(s, idx, 0);
}

} // verus!
