//! The module table: a sorted, index-stable collection of module entries.
//!
//! Entries are assigned a stable `module_index` in input order, then kept
//! sorted by ascending image address for range resolution.  At construction a
//! module with no declared size, followed by a neighbour at a strictly higher
//! address, gets the address gap inferred as its size; a declared nonzero
//! size is never overwritten, and the last module keeps its declared size.

use vstd::prelude::*;

use crate::source::SourceObject;
use crate::types::{CompleteObjectInfo, RawObjectInfo, SymCacheArtifact};

verus! {

/// One row of the module table: the stable index assigned at construction,
/// the accumulated module info, and the per-module fetched artifacts.
pub struct ModuleEntry {
    pub module_index: usize,
    pub object_info: CompleteObjectInfo,
    pub symcache: Option<SymCacheArtifact>,
    pub source_object: Option<SourceObject>,
}

/// The image address an entry is sorted by.
pub open spec fn entry_addr(e: ModuleEntry) -> u64 {
    e.object_info.raw.image_addr
}

/// The sort order of the table: ascending image address, with the stable
/// index breaking ties, so that equal addresses keep their input order.
pub open spec fn entry_le(a: ModuleEntry, b: ModuleEntry) -> bool {
    entry_addr(a) < entry_addr(b) || (entry_addr(a) == entry_addr(b)
        && a.module_index <= b.module_index)
}

pub open spec fn sorted_by_addr(s: Seq<ModuleEntry>) -> bool {
    forall|p: int, q: int|
        0 <= p < q < s.len() ==> entry_le(#[trigger] s[p], #[trigger] s[q])
}

pub open spec fn indices_distinct(s: Seq<ModuleEntry>) -> bool {
    forall|p: int, q: int|
        0 <= p < q < s.len() ==> (#[trigger] s[p]).module_index != (#[trigger] s[q]).module_index
}

pub open spec fn indices_in_range(s: Seq<ModuleEntry>) -> bool {
    forall|p: int| 0 <= p < s.len() ==> (#[trigger] s[p]).module_index < s.len()
}

pub open spec fn sources_wf(s: Seq<ModuleEntry>) -> bool {
    forall|p: int|
        0 <= p < s.len() ==> ((#[trigger] s[p]).source_object matches Some(so) ==> so.wf())
}

/// The table invariant: stable indices form a permutation of the positions,
/// entries are sorted by address, and every held source object is valid.
pub open spec fn table_wf(s: Seq<ModuleEntry>) -> bool {
    indices_in_range(s) && indices_distinct(s) && sorted_by_addr(s) && sources_wf(s)
}

/// A declared image size of zero or none means "extent unknown".
pub open spec fn size_unset(sz: Option<u64>) -> bool {
    sz is None || sz == Some(0u64)
}

/// `info` with its image size replaced and every other field kept.
pub open spec fn info_with_size(info: CompleteObjectInfo, sz: Option<u64>) -> CompleteObjectInfo {
    CompleteObjectInfo { raw: RawObjectInfo { image_size: sz, ..info.raw }, ..info }
}

/// The size inferred for position `p` from the gap to its sorted successor,
/// if that successor sits at a strictly higher address.
pub open spec fn gap_to_next(s: Seq<ModuleEntry>, p: int) -> Option<u64> {
    if p + 1 < s.len() && entry_addr(s[p + 1]) > entry_addr(s[p]) {
        Some((entry_addr(s[p + 1]) - entry_addr(s[p])) as u64)
    } else {
        None
    }
}

/// An entry as it leaves construction, before any size inference: the info of
/// the input descriptor at its stable index, and no artifacts.
pub open spec fn raw_entry_of(e: ModuleEntry, input: Seq<CompleteObjectInfo>) -> bool {
    &&& (e.module_index as int) < input.len()
    &&& e.object_info == input[e.module_index as int]
    &&& e.symcache is None
    &&& e.source_object is None
}

/// An entry of the finished table: the input descriptor at its stable index,
/// with a missing size filled from the gap to the sorted successor.
pub open spec fn entry_built_from(s: Seq<ModuleEntry>, p: int, input: Seq<CompleteObjectInfo>) -> bool {
    let e = s[p];
    let orig = input[e.module_index as int];
    &&& (e.module_index as int) < input.len()
    &&& e.symcache is None
    &&& e.source_object is None
    &&& e.object_info == info_with_size(
        orig,
        if size_unset(orig.raw.image_size) && gap_to_next(s, p) is Some {
            gap_to_next(s, p)
        } else {
            orig.raw.image_size
        },
    )
}

/// What `ModuleLookup::new` guarantees of the table it builds from `input`.
pub open spec fn table_built_from(s: Seq<ModuleEntry>, input: Seq<CompleteObjectInfo>) -> bool {
    &&& s.len() == input.len()
    &&& table_wf(s)
    &&& forall|p: int| 0 <= p < s.len() ==> entry_built_from(s, p, input)
}

/// The queryable module table for one symbolication request, together with
/// the request's scope token and its ordered, opaque source locations.
pub struct ModuleLookup {
    pub(crate) modules: Vec<ModuleEntry>,
    pub(crate) scope: String,
    pub(crate) sources: Vec<u64>,
}

impl View for ModuleLookup {
    type V = Seq<ModuleEntry>;

    closed spec fn view(&self) -> Seq<ModuleEntry> {
        self.modules@
    }
}

/// `entry_le(*a, *b)`, decided on the entries' fields.
fn entry_le_exec(a: &ModuleEntry, b: &ModuleEntry) -> (r: bool)
    ensures
        r == entry_le(*a, *b),
{
    let aa = a.object_info.raw.image_addr;
    let ba = b.object_info.raw.image_addr;
    aa < ba || (aa == ba && a.module_index <= b.module_index)
}

/// Swaps the entries at `j - 1` and `j`.
fn swap_adjacent(v: &mut Vec<ModuleEntry>, j: usize)
    requires
        1 <= j < old(v).len(),
    ensures
        final(v)@ == old(v)@.update(j - 1, old(v)@[j as int]).update(j as int, old(v)@[j - 1]),
{
    let e = v.remove(j);
    v.insert(j - 1, e);
    proof {
        let target = old(v)@.update(j - 1, old(v)@[j as int]).update(j as int, old(v)@[j - 1]);
        assert(v@ =~= target);
    }
}

impl ModuleLookup {
    /// The table invariant; established by `new` and kept by every method.
    pub open spec fn wf(&self) -> bool {
        table_wf(self@)
    }

    /// The request's scope token.
    pub closed spec fn scope_spec(&self) -> Seq<char> {
        self.scope@
    }

    /// The request's opaque source-location identifiers.
    pub closed spec fn sources_spec(&self) -> Seq<u64> {
        self.sources@
    }

    /// The sorted entries, for the crate's own resolution and fetch code.
    pub(crate) fn entries(&self) -> (r: &Vec<ModuleEntry>)
        ensures
            r@ == self@,
    {
        &self.modules
    }

    /// Mutable access to the sorted entries, for the crate's own fetch code.
    pub(crate) fn entries_mut(&mut self) -> (r: &mut Vec<ModuleEntry>)
        ensures
            (*r)@ == old(self)@,
            final(self)@ == (*final(r))@,
            final(self).scope_spec() == old(self).scope_spec(),
            final(self).sources_spec() == old(self).sources_spec(),
    {
        &mut self.modules
    }

    /// The number of modules in the table.
    pub fn len(&self) -> (r: usize)
        ensures
            r == self@.len(),
    {
        self.modules.len()
    }

    /// The scope token, for the crate's own fetch code.
    pub(crate) fn scope_str(&self) -> (r: &String)
        ensures
            r@ == self.scope_spec(),
    {
        &self.scope
    }

    /// The source-location identifiers, for the crate's own fetch code.
    pub(crate) fn sources_vec(&self) -> (r: &Vec<u64>)
        ensures
            r@ == self.sources_spec(),
    {
        &self.sources
    }

    /// Builds the table: assigns stable indices in input order, sorts by
    /// image address (ties keep input order), and infers missing sizes from
    /// the address gaps between sorted neighbours.  No descriptor is dropped
    /// and no declared nonzero size is overwritten.
    pub fn new(scope: String, sources: Vec<u64>, infos: Vec<CompleteObjectInfo>) -> (r: ModuleLookup)
        ensures
            r.wf(),
            table_built_from(r@, infos@),
            r.scope_spec() == scope@,
            r.sources_spec() == sources@,
    {
        let ghost input = infos@;
        let mut infos = infos;
        let mut entries: Vec<ModuleEntry> = Vec::new();
        let mut idx: usize = infos.len();

        while idx > 0
            invariant
                idx == infos.len(),
                infos@ == input.take(idx as int),
                entries@.len() == input.len() - idx,
                forall|k: int|
                    0 <= k < entries@.len() ==> (#[trigger] entries@[k]).module_index as int
                        == input.len() - 1 - k,
                forall|k: int|
                    0 <= k < entries@.len() ==> raw_entry_of(#[trigger] entries@[k], input),
            decreases idx,
        {
            let info = infos.pop().unwrap();
            idx = idx - 1;
            proof {
                assert(input.take(idx as int + 1).drop_last() =~= input.take(idx as int));
                assert(info == input[idx as int]);
            }
            entries.push(
                ModuleEntry { module_index: idx, object_info: info, symcache: None, source_object: None },
            );
        }

        proof {
            assert(indices_distinct(entries@));
        }

        // Insertion sort by (image address, stable index).
        let mut i: usize = 1;
        while i < entries.len()
            invariant
                entries@.len() == input.len(),
                i >= 1,
                forall|k: int|
                    0 <= k < entries@.len() ==> raw_entry_of(#[trigger] entries@[k], input),
                indices_distinct(entries@),
                forall|p: int, q: int|
                    0 <= p < q < i && q < entries@.len() ==> entry_le(
                        #[trigger] entries@[p],
                        #[trigger] entries@[q],
                    ),
            decreases entries.len() - i,
        {
            let mut j: usize = i;
            while j > 0 && !entry_le_exec(&entries[j - 1], &entries[j])
                invariant
                    0 < i < entries@.len(),
                    j <= i,
                    entries@.len() == input.len(),
                    forall|k: int|
                        0 <= k < entries@.len() ==> raw_entry_of(#[trigger] entries@[k], input),
                    indices_distinct(entries@),
                    forall|p: int, q: int|
                        0 <= p < q <= i && p != j && q != j ==> entry_le(
                            #[trigger] entries@[p],
                            #[trigger] entries@[q],
                        ),
                    forall|q: int|
                        j < q <= i ==> entry_le(entries@[j as int], #[trigger] entries@[q]),
                decreases j,
            {
                swap_adjacent(&mut entries, j);
                j = j - 1;
            }
            i = i + 1;
        }

        proof {
            assert(sorted_by_addr(entries@));
        }

        // Fill in sizes that the input left unset from the gap to the next
        // sorted module; the last module keeps its declared size.
        let mut p: usize = 0;
        while entries.len() > 0 && p < entries.len() - 1
            invariant
                entries@.len() == input.len(),
                indices_distinct(entries@),
                sorted_by_addr(entries@),
                p <= entries@.len(),
                forall|k: int|
                    p <= k < entries@.len() ==> raw_entry_of(#[trigger] entries@[k], input),
                forall|k: int|
                    0 <= k < p && k < entries@.len() ==> entry_built_from(entries@, k, input),
            decreases entries.len() - p,
        {
            let ghost pre = entries@;
            let this_addr = entries[p].object_info.raw.image_addr;
            let next_addr = entries[p + 1].object_info.raw.image_addr;
            let unset = match entries[p].object_info.raw.image_size {
                None => true,
                Some(s) => s == 0,
            };
            if unset && next_addr > this_addr {
                entries[p].object_info.raw.image_size = Some(next_addr - this_addr);
            }
            proof {
                let e = entries@[p as int];
                let orig = input[e.module_index as int];
                assert(e.module_index == pre[p as int].module_index);
                assert(entry_addr(e) == entry_addr(pre[p as int]));
                assert(forall|k: int|
                    0 <= k < entries@.len() && k != p ==> entries@[k] == pre[k]);
                assert(e.object_info.raw.image_addr == orig.raw.image_addr);
                if size_unset(orig.raw.image_size) && gap_to_next(entries@, p as int) is Some {
                    assert(e.object_info == info_with_size(orig, gap_to_next(entries@, p as int)));
                } else {
                    assert(e.object_info == info_with_size(orig, orig.raw.image_size));
                }
                assert(entry_built_from(entries@, p as int, input));
                assert forall|k: int| 0 <= k < p implies entry_built_from(entries@, k, input) by {
                    assert(entry_built_from(pre, k, input));
                    assert(entries@[k] == pre[k]);
                    assert(entry_addr(entries@[k + 1]) == entry_addr(pre[k + 1]));
                }
            }
            p = p + 1;
        }

        proof {
            assert forall|k: int| 0 <= k < entries@.len() implies entry_built_from(
                entries@,
                k,
                input,
            ) by {
                if k < p as int {
                    assert(entry_built_from(entries@, k, input));
                } else {
                    assert(raw_entry_of(entries@[k], input));
                    assert(gap_to_next(entries@, k) is None);
                }
            }
            assert forall|k: int| 0 <= k < entries@.len() implies ((#[trigger] entries@[k]).source_object
                is None && (entries@[k].module_index as int) < entries@.len()) by {
                assert(entry_built_from(entries@, k, input));
            }
            assert(sources_wf(entries@));
            assert(indices_in_range(entries@));
        }

        ModuleLookup { modules: entries, scope, sources }
    }

    /// Returns the module infos in their original input order, keyed by the
    /// stable index each entry was assigned at construction.
    pub fn into_inner(self) -> (r: Vec<CompleteObjectInfo>)
        requires
            self.wf(),
        ensures
            r@.len() == self@.len(),
            forall|p: int|
                0 <= p < self@.len() ==> r@[(#[trigger] self@[p]).module_index as int]
                    == self@[p].object_info,
    {
        let ModuleLookup { modules: mut modules, .. } = self;
        let ghost s0 = modules@;
        let n = modules.len();

        let mut slots: Vec<Option<CompleteObjectInfo>> = Vec::new();
        let mut k: usize = 0;
        while k < n
            invariant
                k <= n,
                slots@.len() == k,
            decreases n - k,
        {
            slots.push(None);
            k = k + 1;
        }

        proof {
            assert(s0.take(s0.len() as int) =~= s0);
        }
        while modules.len() > 0
            invariant
                table_wf(s0),
                s0.len() == n,
                slots@.len() == n,
                modules@.len() <= n,
                modules@ == s0.take(modules@.len() as int),
                forall|p: int|
                    modules@.len() <= p < n ==> slots@[(#[trigger] s0[p]).module_index as int]
                        == Some(s0[p].object_info),
            decreases modules.len(),
        {
            let ghost pre = modules@;
            let e = modules.pop().unwrap();
            proof {
                assert(s0.take(pre.len() as int).drop_last() =~= s0.take(pre.len() - 1));
                assert(e == s0[pre.len() - 1]);
            }
            let mi = e.module_index;
            assert(mi < n);
            slots[mi] = Some(e.object_info);
        }

        proof {
            lemma_indices_surjective(s0);
        }

        let mut r: Vec<CompleteObjectInfo> = Vec::new();
        let mut j: usize = 0;
        while j < n
            invariant
                table_wf(s0),
                s0.len() == n,
                slots@.len() == n,
                r@.len() == j,
                j <= n,
                forall|i: int| 0 <= i < n ==> #[trigger] index_present(s0, i),
                forall|p: int|
                    0 <= p < n && j <= (#[trigger] s0[p]).module_index as int ==> slots@[s0[p].module_index as int]
                        == Some(s0[p].object_info),
                forall|p: int|
                    0 <= p < n && ((#[trigger] s0[p]).module_index as int) < j ==> r@[s0[p].module_index as int]
                        == s0[p].object_info,
            decreases n - j,
        {
            let mut tmp: Option<CompleteObjectInfo> = None;
            proof {
                assert(index_present(s0, j as int));
                let witness = choose|p: int|
                    0 <= p < s0.len() && (#[trigger] s0[p]).module_index as int == j;
                assert(slots@[j as int] == Some(s0[witness].object_info));
            }
            core::mem::swap(&mut slots[j], &mut tmp);
            r.push(tmp.unwrap());
            j = j + 1;
        }
        r
    }
}

/// Some position of `s` carries the stable index `j`.
pub open spec fn index_present(s: Seq<ModuleEntry>, j: int) -> bool {
    exists|p: int| 0 <= p < s.len() && (#[trigger] s[p]).module_index as int == j
}

/// In a table whose stable indices are distinct and within range, every index
/// below the length occurs: the indices are a permutation of the positions.
pub proof fn lemma_indices_surjective(s: Seq<ModuleEntry>)
    requires
        indices_in_range(s),
        indices_distinct(s),
    ensures
        forall|j: int| 0 <= j < s.len() ==> #[trigger] index_present(s, j),
{
    let idxs = s.map_values(|e: ModuleEntry| e.module_index as int);
    assert(idxs.no_duplicates()) by {
        assert(forall|p: int, q: int|
            0 <= p < q < s.len() ==> idxs[p] != idxs[q]);
    }
    idxs.unique_seq_to_set();
    let range = vstd::set_lib::set_int_range(0, s.len() as int);
    vstd::set_lib::lemma_int_range(0, s.len() as int);
    assert(idxs.to_set().subset_of(range));
    assert forall|j: int| 0 <= j < s.len() implies #[trigger] index_present(s, j) by {
        if !idxs.to_set().contains(j) {
            assert(idxs.to_set().subset_of(range.remove(j)));
            vstd::set_lib::lemma_len_subset(idxs.to_set(), range.remove(j));
            assert(false);
        }
        let p = choose|p: int| 0 <= p < idxs.len() && idxs[p] == j;
        assert((s[p]).module_index as int == j);
    }
}

/// Index round-trip law: building a table from `input` and then restoring
/// input order with `into_inner` yields, at every position, the descriptor
/// that stood there in the input — every field kept, except that an image
/// size the input left unset may have been filled in by inference.
pub proof fn lemma_round_trip(
    table: Seq<ModuleEntry>,
    input: Seq<CompleteObjectInfo>,
    output: Seq<CompleteObjectInfo>,
)
    requires
        table_built_from(table, input),
        output.len() == table.len(),
        forall|p: int|
            0 <= p < table.len() ==> output[(#[trigger] table[p]).module_index as int]
                == table[p].object_info,
    ensures
        output.len() == input.len(),
        forall|j: int|
            0 <= j < input.len() ==> #[trigger] output[j] == info_with_size(
                input[j],
                output[j].raw.image_size,
            ),
        forall|j: int|
            0 <= j < input.len() && !size_unset(input[j].raw.image_size) ==> (#[trigger] output[j]).raw.image_size
                == input[j].raw.image_size,
{
    lemma_indices_surjective(table);
    assert forall|j: int| 0 <= j < input.len() implies #[trigger] output[j] == info_with_size(
        input[j],
        output[j].raw.image_size,
    ) && (!size_unset(input[j].raw.image_size) ==> output[j].raw.image_size
        == input[j].raw.image_size) by {
        assert(index_present(table, j));
        let p = choose|p: int|
            0 <= p < table.len() && (#[trigger] table[p]).module_index as int == j;
        assert(entry_built_from(table, p, input));
        assert(output[j] == table[p].object_info);
    }
}

/// Size-inference law: in a freshly built table, a module whose declared size
/// is zero or absent, followed in sorted order by a module at a strictly
/// higher address, carries the address gap as its size; in every other case —
/// including the last (highest-address) module — the declared size is kept.
pub proof fn lemma_size_inference(
    table: Seq<ModuleEntry>,
    input: Seq<CompleteObjectInfo>,
    p: int,
)
    requires
        table_built_from(table, input),
        0 <= p < table.len(),
    ensures
        size_unset(input[table[p].module_index as int].raw.image_size) && p + 1 < table.len()
            && entry_addr(table[p + 1]) > entry_addr(table[p]) ==> table[p].object_info.raw.image_size
            == Some((entry_addr(table[p + 1]) - entry_addr(table[p])) as u64),
        !(size_unset(input[table[p].module_index as int].raw.image_size) && p + 1 < table.len()
            && entry_addr(table[p + 1]) > entry_addr(table[p])) ==> table[p].object_info.raw.image_size
            == input[table[p].module_index as int].raw.image_size,
{
    assert(entry_built_from(table, p, input));
}

} // verus!
