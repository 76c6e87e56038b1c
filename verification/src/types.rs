//! Plain data types describing modules, addresses and fetch results.

use vstd::prelude::*;

verus! {

/// Whether an instruction address lives in the unified (absolute) address
/// space, or is relative to the module with the given stable index.
#[derive(Clone, Copy, Debug, PartialEq, Eq, Structural)]
pub enum AddrMode {
    Abs,
    Rel(usize),
}

/// The binary/debug format of a module.
#[derive(Clone, Copy, Debug, PartialEq, Eq, Structural)]
pub enum ObjectType {
    Elf,
    Macho,
    Pe,
    Breakpad,
    Wasm,
    Unknown,
}

/// The instruction-set architecture recorded for a module.
#[derive(Clone, Copy, Debug, PartialEq, Eq, Structural)]
pub enum Arch {
    Unknown,
    X86,
    Amd64,
    Arm,
    Arm64,
}

/// The per-module outcome of the artifact fetch phases.
#[derive(Clone, Copy, Debug, PartialEq, Eq, Structural)]
pub enum ObjectFileStatus {
    /// No fetch has been attempted for this module yet.
    Unset,
    /// A symbol cache was fetched and parsed.
    Found,
    /// The cache layer answered, but holds no data for this module.
    Missing,
    /// No frame in the batch resolved into this module, so nothing was fetched.
    Unused,
    /// The artifact could not be downloaded from any source.
    FetchingFailed,
    /// The fetch timed out.
    Timeout,
    /// The fetched bytes could not be parsed.
    Malformed,
    /// Any other failure.
    Other,
}

/// The kind of error an artifact fetch or parse ended with.
#[derive(Clone, Copy, Debug, PartialEq, Eq, Structural)]
pub enum FetchErrorKind {
    Fetching,
    Timeout,
    Malformed,
    Other,
}

/// The status a module is marked with when its fetch fails with `kind`.
pub open spec fn status_of_error_spec(kind: FetchErrorKind) -> ObjectFileStatus {
    match kind {
        FetchErrorKind::Fetching => ObjectFileStatus::FetchingFailed,
        FetchErrorKind::Timeout => ObjectFileStatus::Timeout,
        FetchErrorKind::Malformed => ObjectFileStatus::Malformed,
        FetchErrorKind::Other => ObjectFileStatus::Other,
    }
}

/// Maps a fetch error to the status recorded on the module, for diagnostics.
pub fn status_of_error(kind: FetchErrorKind) -> (r: ObjectFileStatus)
    ensures
        r == status_of_error_spec(kind),
{
    match kind {
        FetchErrorKind::Fetching => ObjectFileStatus::FetchingFailed,
        FetchErrorKind::Timeout => ObjectFileStatus::Timeout,
        FetchErrorKind::Malformed => ObjectFileStatus::Malformed,
        FetchErrorKind::Other => ObjectFileStatus::Other,
    }
}

/// Capability flags of a module's debug artifacts.  Merging is a union: a
/// flag once set by any fetched artifact stays set.
#[derive(Clone, Copy, Debug, PartialEq, Eq, Structural)]
pub struct ObjectFeatures {
    pub has_symbols: bool,
    pub has_debug_info: bool,
    pub has_unwind_info: bool,
    pub has_sources: bool,
}

/// The union of two feature-flag sets.
pub open spec fn merge_features_spec(a: ObjectFeatures, b: ObjectFeatures) -> ObjectFeatures {
    ObjectFeatures {
        has_symbols: a.has_symbols || b.has_symbols,
        has_debug_info: a.has_debug_info || b.has_debug_info,
        has_unwind_info: a.has_unwind_info || b.has_unwind_info,
        has_sources: a.has_sources || b.has_sources,
    }
}

impl ObjectFeatures {
    /// Sets every flag that `other` has; never clears a flag.
    pub fn merge(&mut self, other: ObjectFeatures)
        ensures
            *final(self) == merge_features_spec(*old(self), other),
    {
        self.has_symbols = self.has_symbols || other.has_symbols;
        self.has_debug_info = self.has_debug_info || other.has_debug_info;
        self.has_unwind_info = self.has_unwind_info || other.has_unwind_info;
        self.has_sources = self.has_sources || other.has_sources;
    }
}

/// The candidate-location provenance accumulated for `acc` after merging in
/// `new`, one element at a time in order: an element already present is
/// skipped, a new one is appended.  Existing entries are never overwritten
/// or dropped.
pub open spec fn merge_candidates_spec(acc: Seq<u64>, new: Seq<u64>) -> Seq<u64>
    decreases new.len(),
{
    if new.len() == 0 {
        acc
    } else {
        let prev = merge_candidates_spec(acc, new.drop_last());
        if prev.contains(new.last()) {
            prev
        } else {
            prev.push(new.last())
        }
    }
}

/// The purpose an artifact is looked up for in the external object store.
#[derive(Clone, Copy, Debug, PartialEq, Eq, Structural)]
pub enum ObjectPurpose {
    Unwind,
    Debug,
    Source,
}

/// A file type the external object stores can be searched for.
#[derive(Clone, Copy, Debug, PartialEq, Eq, Structural)]
pub enum FileType {
    Pe,
    Pdb,
    MachCode,
    MachDebug,
    ElfCode,
    ElfDebug,
    Breakpad,
    SourceBundle,
}

/// The file types that hold source code: the restriction every source find
/// is made under.
pub fn source_file_types() -> (r: Vec<FileType>)
    ensures
        r@ == seq![FileType::SourceBundle],
{
    let mut r: Vec<FileType> = Vec::new();
    r.push(FileType::SourceBundle);
    proof {
        assert(r@ =~= seq![FileType::SourceBundle]);
    }
    r
}

/// What a fetched symbol-cache artifact reports about its module: the
/// architecture it was built for, its capability flags and the provenance of
/// the candidate locations that were searched to find it.
#[derive(Debug)]
pub struct SymCacheArtifact {
    pub arch: Arch,
    pub features: ObjectFeatures,
    pub candidates: Vec<u64>,
}

/// The module descriptor as supplied by the client: load address, declared
/// size, identifiers and format.
#[derive(Debug)]
pub struct RawObjectInfo {
    pub ty: ObjectType,
    pub code_id: Option<String>,
    pub debug_id: Option<String>,
    pub image_addr: u64,
    pub image_size: Option<u64>,
}

/// A module descriptor together with the state accumulated over a
/// symbolication request: fetch status, architecture, feature flags and
/// candidate provenance.
#[derive(Debug)]
pub struct CompleteObjectInfo {
    pub raw: RawObjectInfo,
    pub arch: Arch,
    pub features: ObjectFeatures,
    pub candidates: Vec<u64>,
    pub debug_status: ObjectFileStatus,
}

/// Whether the module's format places it in a unified address space.  WASM
/// modules are mounted at address `0` and have no such space.
pub open spec fn supports_absolute_addresses_spec(info: &CompleteObjectInfo) -> bool {
    !(info.raw.ty == ObjectType::Wasm)
}

/// An absolute address translated into the module's relative space: defined
/// when the module supports absolute addressing and the address does not lie
/// below the image start.
pub open spec fn abs_to_rel_addr_spec(info: &CompleteObjectInfo, addr: u64) -> Option<u64> {
    if supports_absolute_addresses_spec(info) && addr >= info.raw.image_addr {
        Some((addr - info.raw.image_addr) as u64)
    } else {
        None
    }
}

/// A module-relative address translated into absolute space: defined when
/// the module supports absolute addressing and the sum does not overflow.
pub open spec fn rel_to_abs_addr_spec(info: &CompleteObjectInfo, addr: u64) -> Option<u64> {
    if supports_absolute_addresses_spec(info) && info.raw.image_addr + addr <= u64::MAX {
        Some((info.raw.image_addr + addr) as u64)
    } else {
        None
    }
}

impl CompleteObjectInfo {
    /// Whether addresses in this module can be reported absolutely.
    pub fn supports_absolute_addresses(&self) -> (r: bool)
        ensures
            r == supports_absolute_addresses_spec(self),
    {
        !matches!(self.raw.ty, ObjectType::Wasm)
    }

    /// Translates an absolute address into this module's relative space.
    pub fn abs_to_rel_addr(&self, addr: u64) -> (r: Option<u64>)
        ensures
            r == abs_to_rel_addr_spec(self, addr),
    {
        if self.supports_absolute_addresses() {
            addr.checked_sub(self.raw.image_addr)
        } else {
            None
        }
    }

    /// Translates an address relative to this module into absolute space.
    pub fn rel_to_abs_addr(&self, addr: u64) -> (r: Option<u64>)
        ensures
            r == rel_to_abs_addr_spec(self, addr),
    {
        if self.supports_absolute_addresses() {
            self.raw.image_addr.checked_add(addr)
        } else {
            None
        }
    }
}

/// One frame of a stack trace: an instruction address and how to read it.
#[derive(Clone, Copy, Debug, PartialEq, Eq, Structural)]
pub struct Frame {
    pub instruction_addr: u64,
    pub addr_mode: AddrMode,
}

/// One stack trace out of the batch driving a fetch phase.
#[derive(Debug)]
pub struct Stacktrace {
    pub frames: Vec<Frame>,
}

/// The identifier under which a module's artifacts are looked up in the
/// external cache and object stores.
#[derive(Debug)]
pub struct ObjectId {
    pub code_id: Option<String>,
    pub debug_id: Option<String>,
}

/// The identifier for the raw module descriptor, copied from its fields.
pub fn object_id_from_object_info(raw: &RawObjectInfo) -> (r: ObjectId)
    ensures
        r.code_id == raw.code_id,
        r.debug_id == raw.debug_id,
{
    let code_id = match &raw.code_id {
        Some(c) => Some(c.clone()),
        None => None,
    };
    let debug_id = match &raw.debug_id {
        Some(d) => Some(d.clone()),
        None => None,
    };
    ObjectId { code_id, debug_id }
}

/// Copies a list of opaque source-location identifiers.
pub fn copy_source_ids(v: &Vec<u64>) -> (r: Vec<u64>)
    ensures
        r@ == v@,
{
    let mut r: Vec<u64> = Vec::new();
    let mut i: usize = 0;
    while i < v.len()
        invariant
            i <= v.len(),
            r@ == v@.take(i as int),
        decreases v.len() - i,
    {
        r.push(v[i]);
        i = i + 1;
    }
    assert(v@.take(v@.len() as int) == v@);
    r
}

} // verus!
