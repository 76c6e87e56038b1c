use module_lookup::context::context_window;
use module_lookup::lookup::ModuleLookup;
use module_lookup::source::SourceObject;
use module_lookup::types::{
    AddrMode, Arch, CompleteObjectInfo, Frame, ObjectFeatures, ObjectFileStatus, ObjectType,
    RawObjectInfo, Stacktrace,
};
use symbolic::debuginfo::sourcebundle::{SourceBundleWriter, SourceFileInfo, SourceFileType};

fn info(addr: u64, size: Option<u64>) -> CompleteObjectInfo {
    CompleteObjectInfo {
        raw: RawObjectInfo {
            ty: ObjectType::Elf,
            code_id: None,
            debug_id: None,
            image_addr: addr,
            image_size: size,
        },
        arch: Arch::Unknown,
        features: ObjectFeatures {
            has_symbols: false,
            has_debug_info: false,
            has_unwind_info: false,
            has_sources: false,
        },
        candidates: Vec::new(),
        debug_status: ObjectFileStatus::Unset,
    }
}

fn twenty_lines() -> Vec<String> {
    (1..=20).map(|i| format!("line {}", i)).collect()
}

fn source_bundle_with(path: &str, content: &str) -> Vec<u8> {
    let mut buf: Vec<u8> = Vec::new();
    {
        let cursor = std::io::Cursor::new(&mut buf);
        let mut writer = SourceBundleWriter::start(cursor).unwrap();
        let mut file_info = SourceFileInfo::new();
        file_info.set_ty(SourceFileType::Source);
        file_info.set_path(path.to_string());
        writer.add_file(path, content.as_bytes(), file_info).unwrap();
        writer.finish().unwrap();
    }
    buf
}

#[test]
fn context_window_around_a_middle_line() {
    let lines = twenty_lines();
    let (pre, target, post) = context_window(&lines, 10, 2).unwrap();
    // Leading context: the lines strictly between line 8 and line 10.
    assert_eq!(pre, vec![String::from("line 9")]);
    assert_eq!(target, "line 10");
    assert_eq!(post, vec![String::from("line 11"), String::from("line 12")]);
}

#[test]
fn context_window_is_shorter_at_file_end() {
    let lines = twenty_lines();
    let (_, target, post) = context_window(&lines, 19, 2).unwrap();
    assert_eq!(target, "line 19");
    assert_eq!(post, vec![String::from("line 20")]);

    let (_, target, post) = context_window(&lines, 20, 2).unwrap();
    assert_eq!(target, "line 20");
    assert!(post.is_empty());
}

#[test]
fn context_window_with_no_context_returns_exactly_the_target() {
    let lines = twenty_lines();
    let (pre, target, post) = context_window(&lines, 10, 0).unwrap();
    assert!(pre.is_empty());
    assert_eq!(target, "line 10");
    assert!(post.is_empty());
}

#[test]
fn context_window_misses_line_zero() {
    let lines = twenty_lines();
    assert!(context_window(&lines, 0, 2).is_none());
}

#[test]
fn context_window_misses_past_file_end() {
    let lines = twenty_lines();
    assert!(context_window(&lines, 25, 2).is_none());
    let empty: Vec<String> = Vec::new();
    assert!(context_window(&empty, 1, 2).is_none());
}

#[test]
fn context_window_at_file_start() {
    let lines = twenty_lines();
    let (pre, target, post) = context_window(&lines, 1, 2).unwrap();
    assert!(pre.is_empty());
    assert_eq!(target, "line 1");
    assert_eq!(post, vec![String::from("line 2"), String::from("line 3")]);
}

#[test]
fn source_object_rejects_garbage_bytes() {
    assert!(SourceObject::parse(vec![0xde, 0xad, 0xbe, 0xef]).is_none());
}

#[test]
fn source_object_parses_a_real_debug_file() {
    let breakpad = b"MODULE Linux x86_64 492E2DD23CC306CA9C494EEF1533A3810 crash\n".to_vec();
    assert!(SourceObject::parse(breakpad).is_some());
}

#[test]
fn sessions_open_only_over_held_source_objects() {
    let mut lookup = ModuleLookup::new(
        String::from("scope"),
        Vec::new(),
        vec![info(0x1000, Some(0x100)), info(0x2000, Some(0x100))],
    );
    let breakpad = b"MODULE Linux x86_64 492E2DD23CC306CA9C494EEF1533A3810 crash\n".to_vec();
    let so = SourceObject::parse(breakpad).unwrap();
    lookup.apply_source_result(0, Some(so));

    let sessions = lookup.prepare_debug_sessions();
    assert!(sessions.session_for(0).is_some());
    assert!(sessions.session_for(1).is_none());
    assert!(sessions.session_for(9).is_none());

    let with_sources = lookup.lookup_symcache(0, AddrMode::Rel(0)).unwrap();
    assert!(with_sources.object_info.features.has_sources);
}

#[test]
fn get_context_lines_end_to_end() {
    let content = (1..=20).map(|i| format!("line {}\n", i)).collect::<String>();
    let bundle = source_bundle_with("/src/main.rs", &content);

    let mut lookup = ModuleLookup::new(
        String::from("scope"),
        Vec::new(),
        vec![info(0x1000, Some(0x100))],
    );
    let traces = vec![Stacktrace {
        frames: vec![Frame { instruction_addr: 0x1010, addr_mode: AddrMode::Abs }],
    }];
    let requests = lookup.fetch_sources_prepare(&traces);
    assert_eq!(requests.len(), 1);
    lookup.apply_source_result(requests[0].position, SourceObject::parse(bundle));

    let sessions = lookup.prepare_debug_sessions();
    let (pre, target, post) = lookup
        .get_context_lines(&sessions, 0x1010, AddrMode::Abs, "/src/main.rs", 10, 2)
        .unwrap();
    assert_eq!(pre, vec![String::from("line 9")]);
    assert_eq!(target, "line 10");
    assert_eq!(post, vec![String::from("line 11"), String::from("line 12")]);

    // An unknown path, an unknown address and a missing session all miss.
    assert!(lookup
        .get_context_lines(&sessions, 0x1010, AddrMode::Abs, "/src/other.rs", 10, 2)
        .is_none());
    assert!(lookup
        .get_context_lines(&sessions, 0x9999, AddrMode::Abs, "/src/main.rs", 10, 2)
        .is_none());
}

#[test]
fn unused_modules_lose_stale_source_objects() {
    let mut lookup = ModuleLookup::new(
        String::from("scope"),
        Vec::new(),
        vec![info(0x1000, Some(0x100)), info(0x2000, Some(0x100))],
    );
    let breakpad = b"MODULE Linux x86_64 492E2DD23CC306CA9C494EEF1533A3810 crash\n".to_vec();
    lookup.apply_source_result(1, SourceObject::parse(breakpad));
    assert!(lookup.prepare_debug_sessions().session_for(1).is_some());

    // A later batch references only the first module: the second loses its
    // source object and ends "unused".
    let traces = vec![Stacktrace {
        frames: vec![Frame { instruction_addr: 0x1010, addr_mode: AddrMode::Abs }],
    }];
    let requests = lookup.fetch_sources_prepare(&traces);
    assert_eq!(requests.len(), 1);
    assert_eq!(requests[0].module_index, 0);

    assert!(lookup.prepare_debug_sessions().session_for(1).is_none());
    let unused = lookup.lookup_symcache(0, AddrMode::Rel(1)).unwrap();
    assert_eq!(unused.object_info.debug_status, ObjectFileStatus::Unused);
}
