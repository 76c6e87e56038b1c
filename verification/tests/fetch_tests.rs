use module_lookup::fetch::{SymCacheFetchOutcome};
use module_lookup::lookup::ModuleLookup;
use module_lookup::types::{
    AddrMode, Arch, CompleteObjectInfo, FetchErrorKind, FileType, Frame, ObjectFeatures,
    ObjectFileStatus, ObjectPurpose, ObjectType, RawObjectInfo, Stacktrace, SymCacheArtifact,
};

fn info(addr: u64, size: Option<u64>) -> CompleteObjectInfo {
    CompleteObjectInfo {
        raw: RawObjectInfo {
            ty: ObjectType::Elf,
            code_id: Some(String::from("abcd1234")),
            debug_id: Some(String::from("dead-beef")),
            image_addr: addr,
            image_size: size,
        },
        arch: Arch::Unknown,
        features: ObjectFeatures {
            has_symbols: false,
            has_debug_info: false,
            has_unwind_info: false,
            has_sources: false,
        },
        candidates: Vec::new(),
        debug_status: ObjectFileStatus::Unset,
    }
}

fn trace(addrs: &[(u64, AddrMode)]) -> Vec<Stacktrace> {
    vec![Stacktrace {
        frames: addrs
            .iter()
            .map(|&(instruction_addr, addr_mode)| Frame { instruction_addr, addr_mode })
            .collect(),
    }]
}

fn artifact(arch: Arch, candidates: Vec<u64>) -> SymCacheArtifact {
    SymCacheArtifact {
        arch,
        features: ObjectFeatures {
            has_symbols: true,
            has_debug_info: true,
            has_unwind_info: false,
            has_sources: false,
        },
        candidates,
    }
}

#[test]
fn unused_modules_are_marked_and_fetch_nothing() {
    let mut lookup = ModuleLookup::new(
        String::from("scope"),
        vec![7, 8],
        vec![info(0x1000, Some(0x100)), info(0x2000, Some(0x100))],
    );
    let traces = trace(&[(0x1010, AddrMode::Abs)]);
    let requests = lookup.fetch_symcaches_prepare(&traces);

    assert_eq!(requests.len(), 1);
    assert_eq!(requests[0].module_index, 0);
    assert_eq!(requests[0].object_type, ObjectType::Elf);
    assert_eq!(requests[0].identifier.code_id.as_deref(), Some("abcd1234"));
    assert_eq!(requests[0].scope, "scope");
    assert_eq!(requests[0].sources, vec![7, 8]);

    lookup.apply_symcache_result(
        requests[0].position,
        SymCacheFetchOutcome::Fetched { artifact: artifact(Arch::Amd64, vec![1]), has_data: true },
    );

    let used = lookup.lookup_symcache(0, AddrMode::Rel(0)).unwrap();
    assert_eq!(used.object_info.debug_status, ObjectFileStatus::Found);
    assert!(used.symcache.is_some());

    let unused = lookup.lookup_symcache(0, AddrMode::Rel(1)).unwrap();
    assert_eq!(unused.object_info.debug_status, ObjectFileStatus::Unused);
    assert!(unused.symcache.is_none());
}

#[test]
fn one_failure_never_contaminates_another_success() {
    let mut lookup = ModuleLookup::new(
        String::from("scope"),
        Vec::new(),
        vec![info(0x1000, Some(0x100)), info(0x2000, Some(0x100))],
    );
    let traces = trace(&[(0x1010, AddrMode::Abs), (0x2020, AddrMode::Abs)]);
    let requests = lookup.fetch_symcaches_prepare(&traces);
    assert_eq!(requests.len(), 2);

    // Module A's fetch fails; module B's succeeds.
    lookup.apply_symcache_result(
        requests[0].position,
        SymCacheFetchOutcome::Failed(FetchErrorKind::Fetching),
    );
    lookup.apply_symcache_result(
        requests[1].position,
        SymCacheFetchOutcome::Fetched { artifact: artifact(Arch::Arm64, vec![9]), has_data: true },
    );

    let a = lookup.lookup_symcache(0, AddrMode::Rel(0)).unwrap();
    assert_eq!(a.object_info.debug_status, ObjectFileStatus::FetchingFailed);
    assert!(a.symcache.is_none());
    assert_eq!(a.object_info.arch, Arch::Unknown);

    let b = lookup.lookup_symcache(0, AddrMode::Rel(1)).unwrap();
    assert_eq!(b.object_info.debug_status, ObjectFileStatus::Found);
    assert!(b.symcache.is_some());
    assert_eq!(b.object_info.arch, Arch::Arm64);
    assert_eq!(b.object_info.candidates, vec![9]);
}

#[test]
fn cache_without_data_is_missing_and_stores_no_artifact() {
    let mut lookup = ModuleLookup::new(
        String::from("scope"),
        Vec::new(),
        vec![info(0x1000, Some(0x100))],
    );
    let traces = trace(&[(0x1010, AddrMode::Abs)]);
    let requests = lookup.fetch_symcaches_prepare(&traces);
    lookup.apply_symcache_result(
        requests[0].position,
        SymCacheFetchOutcome::Fetched { artifact: artifact(Arch::X86, vec![]), has_data: false },
    );
    let res = lookup.lookup_symcache(0, AddrMode::Rel(0)).unwrap();
    assert_eq!(res.object_info.debug_status, ObjectFileStatus::Missing);
    assert!(res.symcache.is_none());
    assert_eq!(res.object_info.arch, Arch::Unknown);
    assert!(!res.object_info.features.has_symbols);
}

#[test]
fn every_error_kind_maps_to_its_status() {
    let cases = [
        (FetchErrorKind::Fetching, ObjectFileStatus::FetchingFailed),
        (FetchErrorKind::Timeout, ObjectFileStatus::Timeout),
        (FetchErrorKind::Malformed, ObjectFileStatus::Malformed),
        (FetchErrorKind::Other, ObjectFileStatus::Other),
    ];
    for &(kind, status) in cases.iter() {
        let mut lookup = ModuleLookup::new(
            String::from("scope"),
            Vec::new(),
            vec![info(0x1000, Some(0x100))],
        );
        let traces = trace(&[(0x1010, AddrMode::Abs)]);
        let requests = lookup.fetch_symcaches_prepare(&traces);
        lookup.apply_symcache_result(requests[0].position, SymCacheFetchOutcome::Failed(kind));
        let res = lookup.lookup_symcache(0, AddrMode::Rel(0)).unwrap();
        assert_eq!(res.object_info.debug_status, status);
    }
}

#[test]
fn merge_unions_features_and_appends_candidates() {
    let mut base = info(0x1000, Some(0x100));
    base.features.has_unwind_info = true;
    base.candidates = vec![1, 2];
    let mut lookup = ModuleLookup::new(String::from("scope"), Vec::new(), vec![base]);
    let traces = trace(&[(0x1010, AddrMode::Abs)]);
    let requests = lookup.fetch_symcaches_prepare(&traces);
    lookup.apply_symcache_result(
        requests[0].position,
        SymCacheFetchOutcome::Fetched {
            artifact: artifact(Arch::Amd64, vec![2, 3]),
            has_data: true,
        },
    );
    let res = lookup.lookup_symcache(0, AddrMode::Rel(0)).unwrap();
    // Union: the prior flag survives, the artifact's flags come in.
    assert!(res.object_info.features.has_unwind_info);
    assert!(res.object_info.features.has_symbols);
    // Append/union: nothing overwritten, the new entry appended once.
    assert_eq!(res.object_info.candidates, vec![1, 2, 3]);
}

#[test]
fn relative_frames_reference_modules_too() {
    let mut lookup = ModuleLookup::new(
        String::from("scope"),
        Vec::new(),
        vec![info(0x1000, Some(0x100)), info(0x2000, Some(0x100))],
    );
    let traces = trace(&[(0x42, AddrMode::Rel(1))]);
    let requests = lookup.fetch_symcaches_prepare(&traces);
    assert_eq!(requests.len(), 1);
    assert_eq!(requests[0].module_index, 1);
}

#[test]
fn lifecycle_ends_with_annotated_modules_in_input_order() {
    let mut lookup = ModuleLookup::new(
        String::from("scope"),
        Vec::new(),
        vec![info(0x2000, Some(0x100)), info(0x1000, Some(0x100))],
    );
    let traces = trace(&[(0x1010, AddrMode::Abs)]);
    let requests = lookup.fetch_symcaches_prepare(&traces);
    assert_eq!(requests.len(), 1);
    // The referenced module is the one loaded at 0x1000: input position 1.
    assert_eq!(requests[0].module_index, 1);
    lookup.apply_symcache_result(
        requests[0].position,
        SymCacheFetchOutcome::Fetched { artifact: artifact(Arch::Amd64, vec![4]), has_data: true },
    );

    let out = lookup.into_inner();
    assert_eq!(out.len(), 2);
    assert_eq!(out[0].raw.image_addr, 0x2000);
    assert_eq!(out[0].debug_status, ObjectFileStatus::Unused);
    assert_eq!(out[1].raw.image_addr, 0x1000);
    assert_eq!(out[1].debug_status, ObjectFileStatus::Found);
    assert_eq!(out[1].arch, Arch::Amd64);
    assert_eq!(out[1].candidates, vec![4]);
}

#[test]
fn source_prepare_requests_are_restricted_to_source_purpose() {
    let mut lookup = ModuleLookup::new(
        String::from("scope"),
        Vec::new(),
        vec![info(0x1000, Some(0x100)), info(0x2000, Some(0x100))],
    );
    let traces = trace(&[(0x2010, AddrMode::Abs)]);
    let requests = lookup.fetch_sources_prepare(&traces);
    assert_eq!(requests.len(), 1);
    assert_eq!(requests[0].module_index, 1);
    assert_eq!(requests[0].purpose, ObjectPurpose::Source);
    assert_eq!(requests[0].filetypes, vec![FileType::SourceBundle]);

    let unused = lookup.lookup_symcache(0, AddrMode::Rel(0)).unwrap();
    assert_eq!(unused.object_info.debug_status, ObjectFileStatus::Unused);
}
