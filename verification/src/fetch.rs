//! The two batched fetch phases.
//!
//! Each phase runs in three steps.  `referenced_modules` resolves every frame
//! of the batch and collects the stable indices actually touched.  A prepare
//! step marks every untouched module "unused" and hands back one independent
//! fetch request per referenced module; the caller performs the fetches
//! concurrently, isolating failures per request.  An apply step merges each
//! request's outcome — success or failure — back into the table, one entry at
//! a time, so one module's failure can never contaminate another's result.

use vstd::prelude::*;

use crate::lookup::{ModuleEntry, ModuleLookup};
use crate::resolve::resolve_pos;
use crate::source::SourceObject;
use crate::types::{
    copy_source_ids, merge_candidates_spec, merge_features_spec, object_id_from_object_info,
    source_file_types, status_of_error, status_of_error_spec, Arch, CompleteObjectInfo,
    FetchErrorKind, FileType, Frame, ObjectFeatures, ObjectFileStatus, ObjectId, ObjectPurpose,
    ObjectType, Stacktrace, SymCacheArtifact,
};

verus! {

/// The stable index of the module a frame's address resolves into, if any.
pub open spec fn frame_resolves_to(s: Seq<ModuleEntry>, frame: Frame) -> Option<usize> {
    match resolve_pos(s, frame.instruction_addr, frame.addr_mode) {
        Some(p) => Some(s[p].module_index),
        None => None,
    }
}

/// Whether some frame strictly before position (`t`, `f`) — trace-major —
/// resolves into the module with stable index `mi`.
pub open spec fn referenced_before(
    s: Seq<ModuleEntry>,
    traces: Seq<Stacktrace>,
    t: int,
    f: int,
    mi: usize,
) -> bool {
    exists|a: int, b: int|
        0 <= a < traces.len() && 0 <= b < traces[a].frames@.len() && (a < t || (a == t && b < f))
            && frame_resolves_to(s, #[trigger] traces[a].frames@[b]) == Some(mi)
}

/// Whether any frame of the batch resolves into the module with stable
/// index `mi`.
pub open spec fn is_referenced(s: Seq<ModuleEntry>, traces: Seq<Stacktrace>, mi: usize) -> bool {
    referenced_before(s, traces, traces.len() as int, 0, mi)
}

proof fn lemma_referenced_next_frame(
    s: Seq<ModuleEntry>,
    traces: Seq<Stacktrace>,
    t: int,
    f: int,
    mi: usize,
)
    requires
        0 <= t < traces.len(),
        0 <= f < traces[t].frames@.len(),
    ensures
        referenced_before(s, traces, t, f + 1, mi) <==> (referenced_before(s, traces, t, f, mi)
            || frame_resolves_to(s, traces[t].frames@[f]) == Some(mi)),
{
    if referenced_before(s, traces, t, f + 1, mi) {
        let (a, b) = choose|a: int, b: int|
            0 <= a < traces.len() && 0 <= b < traces[a].frames@.len() && (a < t || (a == t && b < f
                + 1)) && frame_resolves_to(s, #[trigger] traces[a].frames@[b]) == Some(mi);
        if a == t && b == f {
        } else {
            assert(referenced_before(s, traces, t, f, mi));
        }
    }
    if frame_resolves_to(s, traces[t].frames@[f]) == Some(mi) {
        assert(referenced_before(s, traces, t, f + 1, mi));
    }
}

proof fn lemma_referenced_next_trace(
    s: Seq<ModuleEntry>,
    traces: Seq<Stacktrace>,
    t: int,
    mi: usize,
)
    requires
        0 <= t < traces.len(),
    ensures
        referenced_before(s, traces, t, traces[t].frames@.len() as int, mi) <==> referenced_before(
            s,
            traces,
            t + 1,
            0,
            mi,
        ),
{
    if referenced_before(s, traces, t, traces[t].frames@.len() as int, mi) {
        assert(referenced_before(s, traces, t + 1, 0, mi));
    }
    if referenced_before(s, traces, t + 1, 0, mi) {
        let (a, b) = choose|a: int, b: int|
            0 <= a < traces.len() && 0 <= b < traces[a].frames@.len() && (a < t + 1 || (a == t + 1
                && b < 0)) && frame_resolves_to(s, #[trigger] traces[a].frames@[b]) == Some(mi);
        assert(a < t || (a == t && b < traces[t].frames@.len()));
        assert(referenced_before(s, traces, t, traces[t].frames@.len() as int, mi));
    }
}

/// Whether the list of stable indices holds `x`.
fn contains_index(v: &Vec<usize>, x: usize) -> (r: bool)
    ensures
        r == v@.contains(x),
{
    let mut i: usize = 0;
    while i < v.len()
        invariant
            i <= v@.len(),
            forall|k: int| 0 <= k < i ==> v@[k] != x,
        decreases v@.len() - i,
    {
        if v[i] == x {
            return true;
        }
        i = i + 1;
    }
    false
}

/// Whether the candidate-provenance list holds `x`.
fn contains_candidate(v: &Vec<u64>, x: u64) -> (r: bool)
    ensures
        r == v@.contains(x),
{
    let mut i: usize = 0;
    while i < v.len()
        invariant
            i <= v@.len(),
            forall|k: int| 0 <= k < i ==> v@[k] != x,
        decreases v@.len() - i,
    {
        if v[i] == x {
            return true;
        }
        i = i + 1;
    }
    false
}

/// Merges candidate provenance: appends, in order, each entry of `new` that
/// `acc` does not already hold.  Nothing is overwritten or dropped.
pub fn merge_candidates(acc: &mut Vec<u64>, new: &Vec<u64>)
    ensures
        final(acc)@ == merge_candidates_spec(old(acc)@, new@),
{
    let mut i: usize = 0;
    while i < new.len()
        invariant
            i <= new@.len(),
            acc@ == merge_candidates_spec(old(acc)@, new@.take(i as int)),
        decreases new@.len() - i,
    {
        let ghost pre = new@.take(i as int);
        proof {
            assert(new@.take(i + 1).drop_last() =~= pre);
            assert(new@.take(i + 1).last() == new@[i as int]);
        }
        if !contains_candidate(acc, new[i]) {
            acc.push(new[i]);
        }
        i = i + 1;
    }
    proof {
        assert(new@.take(new@.len() as int) =~= new@);
    }
}

/// One independent symbol-cache fetch request: the table position and stable
/// index of the module, what to fetch it by, and where to search.
pub struct FetchSymCacheRequest {
    pub position: usize,
    pub module_index: usize,
    pub object_type: ObjectType,
    pub identifier: ObjectId,
    pub scope: String,
    pub sources: Vec<u64>,
}

/// One independent source fetch request, restricted to source artifacts:
/// the find may search source file types only, for the source purpose.
pub struct FetchSourceRequest {
    pub position: usize,
    pub module_index: usize,
    pub filetypes: Vec<FileType>,
    pub purpose: ObjectPurpose,
    pub identifier: ObjectId,
    pub scope: String,
    pub sources: Vec<u64>,
}

/// The outcome of one symbol-cache fetch: a fetched artifact (which either
/// holds data or reports none), or a failure of the given kind.
pub enum SymCacheFetchOutcome {
    Fetched { artifact: SymCacheArtifact, has_data: bool },
    Failed(FetchErrorKind),
}

/// `e` with only its fetch status replaced.
pub open spec fn entry_with_status(e: ModuleEntry, st: ObjectFileStatus) -> ModuleEntry {
    ModuleEntry {
        object_info: CompleteObjectInfo { debug_status: st, ..e.object_info },
        ..e
    }
}

/// `e` marked unused by the source phase: status "unused" and any previously
/// fetched source object cleared.
pub open spec fn entry_unused_cleared(e: ModuleEntry) -> ModuleEntry {
    ModuleEntry {
        source_object: None,
        object_info: CompleteObjectInfo { debug_status: ObjectFileStatus::Unused, ..e.object_info },
        ..e
    }
}

/// How one symbol-cache outcome merges into one entry.  On success with data
/// the artifact is stored, the architecture is overwritten by the artifact's,
/// feature flags are unioned in and candidate provenance appended, and the
/// status is "found".  When the cache reports no data, no artifact is stored,
/// the architecture resets to unknown, and the status is "missing".  On
/// failure no artifact is stored, the architecture resets to unknown, and the
/// status names the error kind.  The raw descriptor, stable index and source
/// object are never touched.
pub open spec fn symcache_merged(
    e0: ModuleEntry,
    outcome: SymCacheFetchOutcome,
    e1: ModuleEntry,
) -> bool {
    &&& e1.module_index == e0.module_index
    &&& e1.source_object == e0.source_object
    &&& e1.object_info.raw == e0.object_info.raw
    &&& match outcome {
        SymCacheFetchOutcome::Fetched { artifact, has_data } => {
            if has_data {
                &&& e1.symcache == Some(artifact)
                &&& e1.object_info.arch == artifact.arch
                &&& e1.object_info.features == merge_features_spec(
                    e0.object_info.features,
                    artifact.features,
                )
                &&& e1.object_info.candidates@ == merge_candidates_spec(
                    e0.object_info.candidates@,
                    artifact.candidates@,
                )
                &&& e1.object_info.debug_status == ObjectFileStatus::Found
            } else {
                &&& e1.symcache is None
                &&& e1.object_info.arch == Arch::Unknown
                &&& e1.object_info.features == e0.object_info.features
                &&& e1.object_info.candidates == e0.object_info.candidates
                &&& e1.object_info.debug_status == ObjectFileStatus::Missing
            }
        },
        SymCacheFetchOutcome::Failed(kind) => {
            &&& e1.symcache is None
            &&& e1.object_info.arch == Arch::Unknown
            &&& e1.object_info.features == e0.object_info.features
            &&& e1.object_info.candidates == e0.object_info.candidates
            &&& e1.object_info.debug_status == status_of_error_spec(kind)
        },
    }
}

/// `e` with a source-fetch result stored: the source object replaced by the
/// outcome, and the "has sources" flag set when one arrived.  Status, stable
/// index, symbol cache and the raw descriptor are never touched here.
pub open spec fn source_merged(e: ModuleEntry, so: Option<SourceObject>) -> ModuleEntry {
    ModuleEntry {
        source_object: so,
        object_info: CompleteObjectInfo {
            features: if so is Some {
                ObjectFeatures { has_sources: true, ..e.object_info.features }
            } else {
                e.object_info.features
            },
            ..e.object_info
        },
        ..e
    }
}

/// What the symbol-cache prepare step leaves behind: referenced entries are
/// untouched, every other entry is only marked "unused".
pub open spec fn symcache_prepared(
    s0: Seq<ModuleEntry>,
    s1: Seq<ModuleEntry>,
    traces: Seq<Stacktrace>,
) -> bool {
    &&& s1.len() == s0.len()
    &&& forall|p: int|
        0 <= p < s0.len() && is_referenced(s0, traces, (#[trigger] s0[p]).module_index) ==> s1[p]
            == s0[p]
    &&& forall|p: int|
        0 <= p < s0.len() && !is_referenced(s0, traces, (#[trigger] s0[p]).module_index) ==> s1[p]
            == entry_with_status(s0[p], ObjectFileStatus::Unused)
}

/// What the source prepare step leaves behind: referenced entries are
/// untouched, every other entry is marked "unused" and its stale source
/// object cleared.
pub open spec fn source_prepared(
    s0: Seq<ModuleEntry>,
    s1: Seq<ModuleEntry>,
    traces: Seq<Stacktrace>,
) -> bool {
    &&& s1.len() == s0.len()
    &&& forall|p: int|
        0 <= p < s0.len() && is_referenced(s0, traces, (#[trigger] s0[p]).module_index) ==> s1[p]
            == s0[p]
    &&& forall|p: int|
        0 <= p < s0.len() && !is_referenced(s0, traces, (#[trigger] s0[p]).module_index) ==> s1[p]
            == entry_unused_cleared(s0[p])
}

/// Some request in the list targets table position `p`.
pub open spec fn symcache_request_for(rs: Seq<FetchSymCacheRequest>, p: int) -> bool {
    exists|k: int| 0 <= k < rs.len() && (#[trigger] rs[k]).position as int == p
}

/// Some request in the list targets table position `p`.
pub open spec fn source_request_for(rs: Seq<FetchSourceRequest>, p: int) -> bool {
    exists|k: int| 0 <= k < rs.len() && (#[trigger] rs[k]).position as int == p
}

/// A symbol-cache request correctly describes the entry it targets.
pub open spec fn symcache_request_matches(
    rq: FetchSymCacheRequest,
    s: Seq<ModuleEntry>,
    scope: Seq<char>,
    sources: Seq<u64>,
) -> bool {
    &&& (rq.position as int) < s.len()
    &&& rq.module_index == s[rq.position as int].module_index
    &&& rq.object_type == s[rq.position as int].object_info.raw.ty
    &&& rq.identifier.code_id == s[rq.position as int].object_info.raw.code_id
    &&& rq.identifier.debug_id == s[rq.position as int].object_info.raw.debug_id
    &&& rq.scope@ == scope
    &&& rq.sources@ == sources
}

/// A source request correctly describes the entry it targets and asks for
/// source artifacts only: source file types, for the source purpose.
pub open spec fn source_request_matches(
    rq: FetchSourceRequest,
    s: Seq<ModuleEntry>,
    scope: Seq<char>,
    sources: Seq<u64>,
) -> bool {
    &&& (rq.position as int) < s.len()
    &&& rq.module_index == s[rq.position as int].module_index
    &&& rq.filetypes@ == seq![FileType::SourceBundle]
    &&& rq.purpose == ObjectPurpose::Source
    &&& rq.identifier.code_id == s[rq.position as int].object_info.raw.code_id
    &&& rq.identifier.debug_id == s[rq.position as int].object_info.raw.debug_id
    &&& rq.scope@ == scope
    &&& rq.sources@ == sources
}

impl ModuleLookup {
    /// The distinct stable indices of the modules that some frame of the
    /// batch resolves into; everything else is a candidate for skipping.
    pub fn referenced_modules(&self, stacktraces: &Vec<Stacktrace>) -> (r: Vec<usize>)
        ensures
            forall|mi: usize| #[trigger]
                r@.contains(mi) <==> is_referenced(self@, stacktraces@, mi),
    {
        let mut refs: Vec<usize> = Vec::new();
        let mut t: usize = 0;
        while t < stacktraces.len()
            invariant
                t <= stacktraces@.len(),
                forall|mi: usize| #[trigger]
                    refs@.contains(mi) <==> referenced_before(
                        self@,
                        stacktraces@,
                        t as int,
                        0,
                        mi,
                    ),
            decreases stacktraces@.len() - t,
        {
            let frames = &stacktraces[t].frames;
            let mut f: usize = 0;
            while f < frames.len()
                invariant
                    t < stacktraces@.len(),
                    f <= frames@.len(),
                    frames@ == stacktraces@[t as int].frames@,
                    forall|mi: usize| #[trigger]
                        refs@.contains(mi) <==> referenced_before(
                            self@,
                            stacktraces@,
                            t as int,
                            f as int,
                            mi,
                        ),
                decreases frames@.len() - f,
            {
                let ghost pre = refs@;
                let frame = frames[f];
                let resolved = self.get_module_index_by_addr(
                    frame.instruction_addr,
                    frame.addr_mode,
                );
                match resolved {
                    Some(mi) => {
                        if !contains_index(&refs, mi) {
                            refs.push(mi);
                        }
                    },
                    None => {},
                }
                proof {
                    assert forall|mi: usize| #[trigger]
                        refs@.contains(mi) <==> (pre.contains(mi) || (resolved == Some(mi))) by {
                        if refs@.contains(mi) {
                            let k = choose|k: int| 0 <= k < refs@.len() && refs@[k] == mi;
                            if k < pre.len() {
                                assert(pre[k] == mi);
                            }
                        }
                        if pre.contains(mi) {
                            let k = choose|k: int| 0 <= k < pre.len() && pre[k] == mi;
                            assert(refs@[k] == mi);
                        }
                        if resolved == Some(mi) && !pre.contains(mi) {
                            assert(refs@[pre.len() as int] == mi);
                        }
                    }
                    assert(frame == stacktraces@[t as int].frames@[f as int]);
                    assert(resolved == frame_resolves_to(self@, frame));
                    assert forall|mi: usize| #[trigger]
                        refs@.contains(mi) <==> referenced_before(
                            self@,
                            stacktraces@,
                            t as int,
                            f + 1,
                            mi,
                        ) by {
                        lemma_referenced_next_frame(
                            self@,
                            stacktraces@,
                            t as int,
                            f as int,
                            mi,
                        );
                    }
                }
                f = f + 1;
            }
            proof {
                assert forall|mi: usize| #[trigger]
                    refs@.contains(mi) <==> referenced_before(
                        self@,
                        stacktraces@,
                        t + 1,
                        0,
                        mi,
                    ) by {
                    lemma_referenced_next_trace(self@, stacktraces@, t as int, mi);
                }
            }
            t = t + 1;
        }
        refs
    }

    /// Begins the symbol-cache phase: marks every module that no frame of the
    /// batch references "unused", and returns one fetch request per
    /// referenced module, in table order.  The caller performs the requests
    /// concurrently — failures isolated per request — and merges each outcome
    /// back with `apply_symcache_result`.
    pub fn fetch_symcaches_prepare(&mut self, stacktraces: &Vec<Stacktrace>) -> (r: Vec<
        FetchSymCacheRequest,
    >)
        ensures
            symcache_prepared(old(self)@, final(self)@, stacktraces@),
            final(self).scope_spec() == old(self).scope_spec(),
            final(self).sources_spec() == old(self).sources_spec(),
            old(self).wf() ==> final(self).wf(),
            forall|k: int|
                0 <= k < r@.len() ==> symcache_request_matches(
                    #[trigger] r@[k],
                    old(self)@,
                    old(self).scope_spec(),
                    old(self).sources_spec(),
                ) && is_referenced(
                    old(self)@,
                    stacktraces@,
                    old(self)@[r@[k].position as int].module_index,
                ),
            forall|k1: int, k2: int|
                0 <= k1 < k2 < r@.len() ==> (#[trigger] r@[k1]).position < (
                #[trigger] r@[k2]).position,
            forall|p: int|
                0 <= p < old(self)@.len() && is_referenced(
                    old(self)@,
                    stacktraces@,
                    (#[trigger] old(self)@[p]).module_index,
                ) ==> symcache_request_for(r@, p),
    {
        let ghost s0 = self@;
        let refs = self.referenced_modules(stacktraces);
        let scope_src = self.scope_str().clone();
        let sources_src = copy_source_ids(self.sources_vec());
        let ghost scope0 = self.scope_spec();
        let ghost sources0 = self.sources_spec();
        let mut requests: Vec<FetchSymCacheRequest> = Vec::new();
        let entries = self.entries_mut();
        let mut p: usize = 0;
        while p < entries.len()
            invariant
                scope_src@ == scope0,
                sources_src@ == sources0,
                p <= s0.len(),
                entries@.len() == s0.len(),
                forall|mi: usize| #[trigger]
                    refs@.contains(mi) <==> is_referenced(s0, stacktraces@, mi),
                forall|k: int| p <= k < s0.len() ==> entries@[k] == s0[k],
                forall|k: int|
                    0 <= k < p && is_referenced(s0, stacktraces@, (#[trigger] s0[k]).module_index)
                        ==> entries@[k] == s0[k],
                forall|k: int|
                    0 <= k < p && !is_referenced(s0, stacktraces@, (#[trigger] s0[k]).module_index)
                        ==> entries@[k] == entry_with_status(s0[k], ObjectFileStatus::Unused),
                forall|k: int|
                    0 <= k < requests@.len() ==> symcache_request_matches(
                        #[trigger] requests@[k],
                        s0,
                        scope0,
                        sources0,
                    ) && is_referenced(
                        s0,
                        stacktraces@,
                        s0[requests@[k].position as int].module_index,
                    ) && (requests@[k].position as int) < p,
                forall|k1: int, k2: int|
                    0 <= k1 < k2 < requests@.len() ==> (#[trigger] requests@[k1]).position < (
                    #[trigger] requests@[k2]).position,
                forall|q: int|
                    0 <= q < p && is_referenced(s0, stacktraces@, (#[trigger] s0[q]).module_index)
                        ==> symcache_request_for(requests@, q),
            decreases entries@.len() - p,
        {
            let ghost pre_requests = requests@;
            let is_used = contains_index(&refs, entries[p].module_index);
            if !is_used {
                entries[p].object_info.debug_status = ObjectFileStatus::Unused;
            } else {
                requests.push(
                    FetchSymCacheRequest {
                        position: p,
                        module_index: entries[p].module_index,
                        object_type: entries[p].object_info.raw.ty,
                        identifier: object_id_from_object_info(&entries[p].object_info.raw),
                        scope: scope_src.clone(),
                        sources: copy_source_ids(&sources_src),
                    },
                );
                proof {
                    assert(requests@[pre_requests.len() as int].position == p);
                }
            }
            proof {
                assert forall|q: int|
                    0 <= q < p + 1 && is_referenced(
                        s0,
                        stacktraces@,
                        (#[trigger] s0[q]).module_index,
                    ) implies symcache_request_for(requests@, q) by {
                    if q < p {
                        let k = choose|k: int|
                            0 <= k < pre_requests.len() && (#[trigger] pre_requests[k]).position
                                as int == q;
                        assert(requests@[k].position as int == q);
                    }
                }
            }
            p = p + 1;
        }
        proof {
            if old(self).wf() {
                assert forall|k: int|
                    0 <= k < s0.len() implies (#[trigger] entries@[k]).module_index
                    == s0[k].module_index && crate::lookup::entry_addr(entries@[k])
                    == crate::lookup::entry_addr(s0[k]) && (entries@[k].source_object matches Some(
                    so,
                ) ==> so.wf()) by {
                    if !is_referenced(s0, stacktraces@, s0[k].module_index) {
                        assert(entries@[k].source_object == s0[k].source_object
                            || entries@[k].source_object is None);
                    }
                }
                lemma_wf_pointwise(s0, entries@);
            }
        }
        requests
    }

    /// Merges one symbol-cache outcome into the entry at `position`, exactly
    /// as `symcache_merged` states; no other entry is touched.
    pub fn apply_symcache_result(&mut self, position: usize, outcome: SymCacheFetchOutcome)
        requires
            (position as int) < old(self)@.len(),
        ensures
            final(self)@.len() == old(self)@.len(),
            symcache_merged(old(self)@[position as int], outcome, final(self)@[position as int]),
            forall|k: int|
                0 <= k < old(self)@.len() && k != position ==> final(self)@[k] == old(self)@[k],
            final(self).scope_spec() == old(self).scope_spec(),
            final(self).sources_spec() == old(self).sources_spec(),
            old(self).wf() ==> final(self).wf(),
    {
        let entries = self.entries_mut();
        match outcome {
            SymCacheFetchOutcome::Fetched { artifact, has_data } => {
                if has_data {
                    entries[position].object_info.arch = artifact.arch;
                    entries[position].object_info.features.merge(artifact.features);
                    merge_candidates(
                        &mut entries[position].object_info.candidates,
                        &artifact.candidates,
                    );
                    entries[position].object_info.debug_status = ObjectFileStatus::Found;
                    entries[position].symcache = Some(artifact);
                } else {
                    entries[position].object_info.arch = Arch::Unknown;
                    entries[position].symcache = None;
                    entries[position].object_info.debug_status = ObjectFileStatus::Missing;
                }
            },
            SymCacheFetchOutcome::Failed(kind) => {
                entries[position].object_info.arch = Arch::Unknown;
                entries[position].symcache = None;
                entries[position].object_info.debug_status = status_of_error(kind);
            },
        }
        proof {
            if old(self).wf() {
                lemma_wf_after_update(old(self)@, entries@, position as int);
            }
        }
    }

    /// Begins the source phase: marks every unreferenced module "unused" and
    /// clears its stale source object, and returns one find-and-fetch request
    /// per referenced module, in table order, restricted to source artifacts.
    pub fn fetch_sources_prepare(&mut self, stacktraces: &Vec<Stacktrace>) -> (r: Vec<
        FetchSourceRequest,
    >)
        ensures
            source_prepared(old(self)@, final(self)@, stacktraces@),
            final(self).scope_spec() == old(self).scope_spec(),
            final(self).sources_spec() == old(self).sources_spec(),
            old(self).wf() ==> final(self).wf(),
            forall|k: int|
                0 <= k < r@.len() ==> source_request_matches(
                    #[trigger] r@[k],
                    old(self)@,
                    old(self).scope_spec(),
                    old(self).sources_spec(),
                ) && is_referenced(
                    old(self)@,
                    stacktraces@,
                    old(self)@[r@[k].position as int].module_index,
                ),
            forall|k1: int, k2: int|
                0 <= k1 < k2 < r@.len() ==> (#[trigger] r@[k1]).position < (
                #[trigger] r@[k2]).position,
            forall|p: int|
                0 <= p < old(self)@.len() && is_referenced(
                    old(self)@,
                    stacktraces@,
                    (#[trigger] old(self)@[p]).module_index,
                ) ==> source_request_for(r@, p),
    {
        let ghost s0 = self@;
        let refs = self.referenced_modules(stacktraces);
        let scope_src = self.scope_str().clone();
        let sources_src = copy_source_ids(self.sources_vec());
        let ghost scope0 = self.scope_spec();
        let ghost sources0 = self.sources_spec();
        let mut requests: Vec<FetchSourceRequest> = Vec::new();
        let entries = self.entries_mut();
        let mut p: usize = 0;
        while p < entries.len()
            invariant
                scope_src@ == scope0,
                sources_src@ == sources0,
                p <= s0.len(),
                entries@.len() == s0.len(),
                forall|mi: usize| #[trigger]
                    refs@.contains(mi) <==> is_referenced(s0, stacktraces@, mi),
                forall|k: int| p <= k < s0.len() ==> entries@[k] == s0[k],
                forall|k: int|
                    0 <= k < p && is_referenced(s0, stacktraces@, (#[trigger] s0[k]).module_index)
                        ==> entries@[k] == s0[k],
                forall|k: int|
                    0 <= k < p && !is_referenced(s0, stacktraces@, (#[trigger] s0[k]).module_index)
                        ==> entries@[k] == entry_unused_cleared(s0[k]),
                forall|k: int|
                    0 <= k < requests@.len() ==> source_request_matches(
                        #[trigger] requests@[k],
                        s0,
                        scope0,
                        sources0,
                    ) && is_referenced(
                        s0,
                        stacktraces@,
                        s0[requests@[k].position as int].module_index,
                    ) && (requests@[k].position as int) < p,
                forall|k1: int, k2: int|
                    0 <= k1 < k2 < requests@.len() ==> (#[trigger] requests@[k1]).position < (
                    #[trigger] requests@[k2]).position,
                forall|q: int|
                    0 <= q < p && is_referenced(s0, stacktraces@, (#[trigger] s0[q]).module_index)
                        ==> source_request_for(requests@, q),
            decreases entries@.len() - p,
        {
            let ghost pre_requests = requests@;
            let is_used = contains_index(&refs, entries[p].module_index);
            if !is_used {
                entries[p].object_info.debug_status = ObjectFileStatus::Unused;
                entries[p].source_object = None;
            } else {
                requests.push(
                    FetchSourceRequest {
                        position: p,
                        module_index: entries[p].module_index,
                        filetypes: source_file_types(),
                        purpose: ObjectPurpose::Source,
                        identifier: object_id_from_object_info(&entries[p].object_info.raw),
                        scope: scope_src.clone(),
                        sources: copy_source_ids(&sources_src),
                    },
                );
                proof {
                    assert(requests@[pre_requests.len() as int].position == p);
                }
            }
            proof {
                assert forall|q: int|
                    0 <= q < p + 1 && is_referenced(
                        s0,
                        stacktraces@,
                        (#[trigger] s0[q]).module_index,
                    ) implies source_request_for(requests@, q) by {
                    if q < p {
                        let k = choose|k: int|
                            0 <= k < pre_requests.len() && (#[trigger] pre_requests[k]).position
                                as int == q;
                        assert(requests@[k].position as int == q);
                    }
                }
            }
            p = p + 1;
        }
        proof {
            if old(self).wf() {
                assert forall|k: int|
                    0 <= k < s0.len() implies (#[trigger] entries@[k]).module_index
                    == s0[k].module_index && crate::lookup::entry_addr(entries@[k])
                    == crate::lookup::entry_addr(s0[k]) && (entries@[k].source_object matches Some(
                    so,
                ) ==> so.wf()) by {
                    if !is_referenced(s0, stacktraces@, s0[k].module_index) {
                        assert(entries@[k].source_object == s0[k].source_object
                            || entries@[k].source_object is None);
                    }
                }
                lemma_wf_pointwise(s0, entries@);
            }
        }
        requests
    }

    /// Stores one source-fetch outcome into the entry at `position`: the
    /// source object (or none, on any find, fetch or parse failure — never an
    /// error), setting the "has sources" flag when one arrived.  No other
    /// entry, and nothing else of this entry, is touched.
    pub fn apply_source_result(&mut self, position: usize, source_object: Option<SourceObject>)
        requires
            (position as int) < old(self)@.len(),
            source_object matches Some(so) ==> so.wf(),
        ensures
            final(self)@.len() == old(self)@.len(),
            final(self)@[position as int] == source_merged(
                old(self)@[position as int],
                source_object,
            ),
            forall|k: int|
                0 <= k < old(self)@.len() && k != position ==> final(self)@[k] == old(self)@[k],
            final(self).scope_spec() == old(self).scope_spec(),
            final(self).sources_spec() == old(self).sources_spec(),
            old(self).wf() ==> final(self).wf(),
    {
        let entries = self.entries_mut();
        let has_source = source_object.is_some();
        entries[position].source_object = source_object;
        if has_source {
            entries[position].object_info.features.has_sources = true;
        }
        proof {
            if old(self).wf() {
                lemma_wf_after_update(old(self)@, entries@, position as int);
            }
        }
    }
}

/// Replacing entries pointwise, keeping each stable index and image address
/// and holding only valid source objects, keeps the table invariant.
proof fn lemma_wf_pointwise(s0: Seq<ModuleEntry>, s1: Seq<ModuleEntry>)
    requires
        crate::lookup::table_wf(s0),
        s1.len() == s0.len(),
        forall|k: int|
            0 <= k < s0.len() ==> (#[trigger] s1[k]).module_index == s0[k].module_index
                && crate::lookup::entry_addr(s1[k]) == crate::lookup::entry_addr(s0[k]) && (
            s1[k].source_object matches Some(so) ==> so.wf()),
    ensures
        crate::lookup::table_wf(s1),
{
    assert forall|p: int, q: int| 0 <= p < q < s1.len() implies crate::lookup::entry_le(
        #[trigger] s1[p],
        #[trigger] s1[q],
    ) && s1[p].module_index != s1[q].module_index by {
        assert(crate::lookup::entry_le(s0[p], s0[q]));
    }
    assert forall|p: int| 0 <= p < s1.len() implies (#[trigger] s1[p]).module_index
        < s1.len() by {
        assert(s0[p].module_index < s0.len());
    }
}

/// Replacing one entry by one with the same stable index and image address,
/// holding only a valid source object, keeps the table invariant.
proof fn lemma_wf_after_update(s0: Seq<ModuleEntry>, s1: Seq<ModuleEntry>, position: int)
    requires
        crate::lookup::table_wf(s0),
        s1.len() == s0.len(),
        0 <= position < s0.len(),
        s1[position].module_index == s0[position].module_index,
        s1[position].object_info.raw.image_addr == s0[position].object_info.raw.image_addr,
        s1[position].source_object matches Some(so) ==> so.wf(),
        forall|k: int| 0 <= k < s0.len() && k != position ==> s1[k] == s0[k],
    ensures
        crate::lookup::table_wf(s1),
{
    assert forall|p: int, q: int| 0 <= p < q < s1.len() implies crate::lookup::entry_le(
        #[trigger] s1[p],
        #[trigger] s1[q],
    ) && s1[p].module_index != s1[q].module_index by {
        assert(crate::lookup::entry_le(s0[p], s0[q]));
        assert(crate::lookup::entry_addr(s1[p]) == crate::lookup::entry_addr(s0[p]));
        assert(crate::lookup::entry_addr(s1[q]) == crate::lookup::entry_addr(s0[q]));
    }
    assert forall|p: int| 0 <= p < s1.len() implies (#[trigger] s1[p]).module_index < s1.len()
        && (s1[p].source_object matches Some(so) ==> so.wf()) by {
        assert(s0[p].module_index < s0.len());
    }
}

/// Unused-module law, symbol-cache phase: a module that no frame references
/// is marked "unused" by the prepare step, and merging any fetched outcome
/// into any referenced module leaves it so; it never gains an artifact it
/// did not already hold.
pub proof fn lemma_unused_module_unaffected_by_symcaches(
    s0: Seq<ModuleEntry>,
    s1: Seq<ModuleEntry>,
    s2: Seq<ModuleEntry>,
    traces: Seq<Stacktrace>,
    q: int,
    position: int,
    outcome: SymCacheFetchOutcome,
)
    requires
        symcache_prepared(s0, s1, traces),
        0 <= q < s0.len(),
        !is_referenced(s0, traces, s0[q].module_index),
        0 <= position < s1.len(),
        is_referenced(s0, traces, s1[position].module_index),
        s2.len() == s1.len(),
        symcache_merged(s1[position], outcome, s2[position]),
        forall|k: int| 0 <= k < s1.len() && k != position ==> s2[k] == s1[k],
    ensures
        s2[q].object_info.debug_status == ObjectFileStatus::Unused,
        s2[q].symcache == s0[q].symcache,
        s2[q].source_object == s0[q].source_object,
{
    assert(s1[q] == entry_with_status(s0[q], ObjectFileStatus::Unused));
    assert(position != q);
}

/// Unused-module law, source phase: a module that no frame references ends
/// with status "unused" and holds no source object — a stale source object
/// from an earlier phase is cleared — and merging any fetched source into
/// any referenced module leaves it so.
pub proof fn lemma_unused_module_stays_cleared(
    s0: Seq<ModuleEntry>,
    s1: Seq<ModuleEntry>,
    s2: Seq<ModuleEntry>,
    traces: Seq<Stacktrace>,
    q: int,
    position: int,
    so: Option<SourceObject>,
)
    requires
        source_prepared(s0, s1, traces),
        0 <= q < s0.len(),
        !is_referenced(s0, traces, s0[q].module_index),
        0 <= position < s1.len(),
        is_referenced(s0, traces, s1[position].module_index),
        s2.len() == s1.len(),
        s2[position] == source_merged(s1[position], so),
        forall|k: int| 0 <= k < s1.len() && k != position ==> s2[k] == s1[k],
    ensures
        s2[q].object_info.debug_status == ObjectFileStatus::Unused,
        s2[q].source_object is None,
{
    assert(s1[q] == entry_unused_cleared(s0[q]));
    assert(position != q);
}

/// Failure-isolation law: when one module's fetch fails and another's
/// succeeds, the successful module's entry reflects its own outcome — the
/// artifact stored and status "found" when it held data, no artifact and
/// status "missing" when the cache reported none — exactly as if the
/// failure had never happened.
pub proof fn lemma_fetch_failure_isolated(
    s0: Seq<ModuleEntry>,
    s1: Seq<ModuleEntry>,
    s2: Seq<ModuleEntry>,
    pa: int,
    pb: int,
    kind: FetchErrorKind,
    artifact: SymCacheArtifact,
    has_data: bool,
)
    requires
        0 <= pa < s0.len(),
        0 <= pb < s0.len(),
        pa != pb,
        s1.len() == s0.len(),
        symcache_merged(s0[pa], SymCacheFetchOutcome::Failed(kind), s1[pa]),
        forall|k: int| 0 <= k < s0.len() && k != pa ==> s1[k] == s0[k],
        s2.len() == s1.len(),
        symcache_merged(
            s1[pb],
            SymCacheFetchOutcome::Fetched { artifact, has_data },
            s2[pb],
        ),
        forall|k: int| 0 <= k < s1.len() && k != pb ==> s2[k] == s1[k],
    ensures
        symcache_merged(
            s0[pb],
            SymCacheFetchOutcome::Fetched { artifact, has_data },
            s2[pb],
        ),
        s2[pb].symcache == (if has_data {
            Some(artifact)
        } else {
            None::<SymCacheArtifact>
        }),
        s2[pb].object_info.debug_status == (if has_data {
            ObjectFileStatus::Found
        } else {
            ObjectFileStatus::Missing
        }),
{
    assert(s1[pb] == s0[pb]);
}

} // verus!
