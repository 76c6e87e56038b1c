use module_lookup::lookup::ModuleLookup;
use module_lookup::types::{
    AddrMode, Arch, CompleteObjectInfo, ObjectFeatures, ObjectFileStatus, ObjectType,
    RawObjectInfo,
};

fn info(addr: u64, size: Option<u64>) -> CompleteObjectInfo {
    info_of_type(ObjectType::Elf, addr, size)
}

fn info_of_type(ty: ObjectType, addr: u64, size: Option<u64>) -> CompleteObjectInfo {
    CompleteObjectInfo {
        raw: RawObjectInfo {
            ty,
            code_id: None,
            debug_id: None,
            image_addr: addr,
            image_size: size,
        },
        arch: Arch::Unknown,
        features: ObjectFeatures {
            has_symbols: false,
            has_debug_info: false,
            has_unwind_info: false,
            has_sources: false,
        },
        candidates: Vec::new(),
        debug_status: ObjectFileStatus::Unset,
    }
}

fn table(infos: Vec<CompleteObjectInfo>) -> ModuleLookup {
    ModuleLookup::new(String::from("scope"), Vec::new(), infos)
}

#[test]
fn into_inner_returns_input_order() {
    let lookup = table(vec![
        info(0x3000, Some(0x100)),
        info(0x1000, Some(0x100)),
        info(0x2000, Some(0x100)),
    ]);
    let out = lookup.into_inner();
    assert_eq!(out.len(), 3);
    assert_eq!(out[0].raw.image_addr, 0x3000);
    assert_eq!(out[1].raw.image_addr, 0x1000);
    assert_eq!(out[2].raw.image_addr, 0x2000);
}

#[test]
fn size_inference_fills_missing_size_from_gap() {
    let lookup = table(vec![info(0x2000, Some(0)), info(0x1000, None)]);
    let out = lookup.into_inner();
    // The module at 0x1000 had no size: the gap to 0x2000 is inferred.
    assert_eq!(out[1].raw.image_size, Some(0x1000));
    // The last (highest-address) module keeps its declared size.
    assert_eq!(out[0].raw.image_size, Some(0));
}

#[test]
fn size_inference_never_overwrites_declared_size() {
    let lookup = table(vec![info(0x1000, Some(0x50)), info(0x2000, None)]);
    let out = lookup.into_inner();
    assert_eq!(out[0].raw.image_size, Some(0x50));
    assert_eq!(out[1].raw.image_size, None);
}

#[test]
fn size_inference_skips_equal_addresses() {
    let lookup = table(vec![info(0x1000, None), info(0x1000, Some(0x10))]);
    let out = lookup.into_inner();
    // The next sorted module sits at the same address: nothing is inferred.
    assert_eq!(out[0].raw.image_size, None);
    assert_eq!(out[1].raw.image_size, Some(0x10));
}

#[test]
fn absolute_lookup_finds_containing_module() {
    let lookup = table(vec![info(0x1000, Some(0x100)), info(0x2000, Some(0x100))]);
    let res = lookup.lookup_symcache(0x2050, AddrMode::Abs).unwrap();
    assert_eq!(res.module_index, 1);
    assert_eq!(res.relative_addr, Some(0x50));
    assert!(res.symcache.is_none());
}

#[test]
fn absolute_lookup_misses_below_and_between() {
    let lookup = table(vec![info(0x1000, Some(0x100)), info(0x2000, Some(0x100))]);
    assert!(lookup.lookup_symcache(0x500, AddrMode::Abs).is_none());
    assert!(lookup.lookup_symcache(0x1200, AddrMode::Abs).is_none());
}

#[test]
fn absolute_lookup_zero_size_matches_any_address_above() {
    let lookup = table(vec![info(0x1000, None)]);
    let res = lookup.lookup_symcache(0xFFFF_0000, AddrMode::Abs).unwrap();
    assert_eq!(res.module_index, 0);
    assert_eq!(res.relative_addr, Some(0xFFFF_0000 - 0x1000));
}

#[test]
fn relative_lookup_round_trips() {
    let lookup = table(vec![info(0x3000, Some(0x100)), info(0x1000, Some(0x100))]);
    let res = lookup.lookup_symcache(0x42, AddrMode::Rel(1)).unwrap();
    assert_eq!(res.module_index, 1);
    assert_eq!(res.relative_addr, Some(0x42));
    assert_eq!(res.object_info.raw.image_addr, 0x1000);
    assert!(lookup.lookup_symcache(0x42, AddrMode::Rel(7)).is_none());
}

#[test]
fn preferred_addr_mode_is_absolute_where_supported() {
    let lookup = table(vec![info(0x1000, Some(0x100))]);
    let res = lookup.lookup_symcache(0x1010, AddrMode::Abs).unwrap();
    assert_eq!(res.preferred_addr_mode(), AddrMode::Abs);
    assert_eq!(res.expose_preferred_addr(0x50), 0x1050);
}

#[test]
fn preferred_addr_mode_is_relative_for_wasm() {
    let lookup = table(vec![info_of_type(ObjectType::Wasm, 0, Some(0x100))]);
    let res = lookup.lookup_symcache(0x10, AddrMode::Rel(0)).unwrap();
    assert_eq!(res.preferred_addr_mode(), AddrMode::Rel(0));
    assert_eq!(res.expose_preferred_addr(0x50), 0x50);
}

#[test]
fn expose_preferred_addr_falls_back_to_zero_on_overflow() {
    let lookup = table(vec![info(u64::MAX - 1, Some(0x100))]);
    let res = lookup.lookup_symcache(0x0, AddrMode::Rel(0)).unwrap();
    assert_eq!(res.expose_preferred_addr(0x50), 0);
}
