use component_service::error::GolemError;
use component_service::files::{InitialComponentFile, InitialComponentFilePath};
use component_service::local::{
    extract_version, file_version, find_component_files, ComponentFiles,
};
use component_service::metadata::ComponentMetadata;
use component_service::model::{
    ComponentId, ComponentType, InitialComponentFilePermissions, LinearMemory,
};
use component_service::number::parse_u64;
use component_service::properties::{
    all_fit, analyze_memories_and_exports, get_metadata_from_path, ComponentProperties,
    MemoryLimits, RawComponentFile, RawComponentMetadata, RawComponentProperties,
};

const ID_TEXT: &str = "aaaaaaaa-aaaa-aaaa-aaaa-aaaaaaaaaaaa";

fn id() -> ComponentId {
    ComponentId(0xaaaaaaaa_aaaa_aaaa_aaaa_aaaaaaaaaaaa)
}

fn names(list: &[&str]) -> Vec<String> {
    list.iter().map(|s| s.to_string()).collect()
}

fn directory() -> Vec<String> {
    names(&[
        "aaaaaaaa-aaaa-aaaa-aaaa-aaaaaaaaaaaa-3.wasm",
        "aaaaaaaa-aaaa-aaaa-aaaa-aaaaaaaaaaaa-3.json",
        "aaaaaaaa-aaaa-aaaa-aaaa-aaaaaaaaaaaa-7.wasm",
        "aaaaaaaa-aaaa-aaaa-aaaa-aaaaaaaaaaaa-7.json",
    ])
}

fn not_found(reason: &str) -> GolemError {
    GolemError::GetLatestVersionOfComponentFailed {
        component_id: id(),
        reason: reason.to_string(),
    }
}

#[test]
fn latest_version_is_discovered() {
    let files = find_component_files(&id(), &directory(), None).unwrap();
    assert_eq!(
        files,
        ComponentFiles {
            version: 7,
            wasm_file: format!("{}-7.wasm", ID_TEXT),
            properties_file: format!("{}-7.json", ID_TEXT),
        }
    );
}

#[test]
fn forced_version_is_discovered() {
    let files = find_component_files(&id(), &directory(), Some(3)).unwrap();
    assert_eq!(
        files,
        ComponentFiles {
            version: 3,
            wasm_file: format!("{}-3.wasm", ID_TEXT),
            properties_file: format!("{}-3.json", ID_TEXT),
        }
    );
}

#[test]
fn missing_forced_version_fails() {
    assert_eq!(
        find_component_files(&id(), &directory(), Some(5)),
        Err(not_found("Could not find any component with the given id and version"))
    );
}

#[test]
fn empty_directory_has_no_latest_version() {
    assert_eq!(
        find_component_files(&id(), &vec![], None),
        Err(not_found("Could not find any component with the given id"))
    );
    assert_eq!(
        find_component_files(&id(), &names(&["readme.txt", "other-1.wasm"]), None),
        Err(not_found("Could not find any component with the given id"))
    );
}

#[test]
fn files_of_other_components_and_mismatches_are_passed_over() {
    let listing = names(&[
        "bbbbbbbb-bbbb-bbbb-bbbb-bbbbbbbbbbbb-99.wasm",
        "aaaaaaaa-aaaa-aaaa-aaaa-aaaaaaaaaaaa-12.json",
        "aaaaaaaa-aaaa-aaaa-aaaa-aaaaaaaaaaaa-x.wasm",
        "aaaaaaaa-aaaa-aaaa-aaaa-aaaaaaaaaaaa-.wasm",
        "aaaaaaaa-aaaa-aaaa-aaaa-aaaaaaaaaaaa-4.wasm.bak",
        "aaaaaaaa-aaaa-aaaa-aaaa-aaaaaaaaaaaa-18446744073709551616.wasm",
        "AAAAAAAA-AAAA-AAAA-AAAA-AAAAAAAAAAAA-50.wasm",
        "aaaaaaaa-aaaa-aaaa-aaaa-aaaaaaaaaaaa-2.wasm",
        "xaaaaaaaa-aaaa-aaaa-aaaa-aaaaaaaaaaaa-60.wasm",
    ]);
    let files = find_component_files(&id(), &listing, None).unwrap();
    assert_eq!(files.version, 2);
    assert_eq!(files.wasm_file, format!("{}-2.wasm", ID_TEXT));
}

#[test]
fn highest_version_wins_whatever_the_order() {
    let listing = names(&[
        "aaaaaaaa-aaaa-aaaa-aaaa-aaaaaaaaaaaa-10.wasm",
        "aaaaaaaa-aaaa-aaaa-aaaa-aaaaaaaaaaaa-18446744073709551615.wasm",
        "aaaaaaaa-aaaa-aaaa-aaaa-aaaaaaaaaaaa-9.wasm",
    ]);
    let files = find_component_files(&id(), &listing, None).unwrap();
    assert_eq!(files.version, u64::MAX);
}

#[test]
fn last_of_equal_versions_is_the_latest_and_first_is_the_forced_one() {
    let listing = names(&[
        "aaaaaaaa-aaaa-aaaa-aaaa-aaaaaaaaaaaa-7.wasm",
        "aaaaaaaa-aaaa-aaaa-aaaa-aaaaaaaaaaaa-007.wasm",
        "aaaaaaaa-aaaa-aaaa-aaaa-aaaaaaaaaaaa-+7.wasm",
        "aaaaaaaa-aaaa-aaaa-aaaa-aaaaaaaaaaaa-6.wasm",
    ]);
    let latest = find_component_files(&id(), &listing, None).unwrap();
    assert_eq!(latest.version, 7);
    assert_eq!(latest.wasm_file, format!("{}-+7.wasm", ID_TEXT));
    assert_eq!(latest.properties_file, format!("{}-+7.json", ID_TEXT));
    let forced = find_component_files(&id(), &listing, Some(7)).unwrap();
    assert_eq!(forced.wasm_file, format!("{}-7.wasm", ID_TEXT));
}

#[test]
fn version_is_the_number_after_the_last_hyphen() {
    assert_eq!(extract_version("abc-12"), Some(12));
    assert_eq!(extract_version("abc-1-2-3"), Some(3));
    assert_eq!(extract_version("42"), Some(42));
    assert_eq!(extract_version("abc-"), None);
    assert_eq!(extract_version(""), None);
    assert_eq!(extract_version("abc"), None);
    assert_eq!(extract_version("abc-1x"), None);
    assert_eq!(extract_version("abc- 1"), None);
    assert_eq!(extract_version("abc-0"), Some(0));
    assert_eq!(extract_version("abc-000"), Some(0));
    assert_eq!(extract_version("abc-+5"), Some(5));
    assert_eq!(extract_version("abc-+"), None);
    assert_eq!(extract_version("abc-18446744073709551615"), Some(u64::MAX));
    assert_eq!(extract_version("abc-18446744073709551616"), None);
    assert_eq!(extract_version("abc-99999999999999999999999"), None);
    assert_eq!(extract_version("é-３"), None);
}

#[test]
fn numbers_are_read_as_the_standard_library_reads_them() {
    for text in [
        "", "+", "-", "0", "+0", "-0", "1", "007", "+12", "++1", "1+", "12a", " 1", "1 ",
        "18446744073709551615", "18446744073709551616", "28446744073709551615",
        "184467440737095516150", "٣", "1_000",
    ] {
        let chars: Vec<char> = text.chars().collect();
        assert_eq!(parse_u64(&chars), text.parse::<u64>().ok(), "text {:?}", text);
    }
}

#[test]
fn file_version_needs_prefix_and_ending() {
    assert_eq!(file_version("id-", "id-5.wasm"), Some(5));
    assert_eq!(file_version("id-", "id-5.json"), None);
    assert_eq!(file_version("id-", "xid-5.wasm"), None);
    assert_eq!(file_version("id-", "id-5.wasmx"), None);
    assert_eq!(file_version("id-", "id-.wasm"), None);
    assert_eq!(file_version("id-", ".wasm"), None);
    assert_eq!(file_version("", "9.wasm"), Some(9));
    assert_eq!(file_version("", ".wasm"), None);
    assert_eq!(file_version("id-", "id-a-5.wasm"), Some(5));
    assert_eq!(file_version("x.wasm", "x.wasm"), None);
    assert_eq!(file_version("é-", "é-3.wasm"), Some(3));
}

fn raw_file(key: &str, path: &str, permissions: &str) -> RawComponentFile {
    RawComponentFile {
        key: key.to_string(),
        path: path.to_string(),
        permissions: permissions.to_string(),
    }
}

#[test]
fn properties_are_read_from_their_names() {
    let raw = RawComponentProperties {
        component_type: "Ephemeral".to_string(),
        files: vec![raw_file("a", "/x/y", "ReadOnly"), raw_file("b", "/z", "ReadWrite")],
    };
    let p = ComponentProperties::decode(raw).unwrap();
    assert_eq!(p.component_type, ComponentType::Ephemeral);
    assert_eq!(p.files.len(), 2);
    assert_eq!(p.files[0].key, "a");
    assert_eq!(p.files[0].path.as_str(), "/x/y");
    assert_eq!(p.files[0].permissions, InitialComponentFilePermissions::ReadOnly);
    assert_eq!(p.files[1].permissions, InitialComponentFilePermissions::ReadWrite);
    let durable = ComponentProperties::decode(RawComponentProperties {
        component_type: "Durable".to_string(),
        files: vec![],
    })
    .unwrap();
    assert_eq!(durable.component_type, ComponentType::Durable);
    assert!(durable.files.is_empty());
}

#[test]
fn malformed_properties_are_refused() {
    for (component_type, path, permissions) in [
        ("durable", "/x", "ReadOnly"),
        ("", "/x", "ReadOnly"),
        ("Durable ", "/x", "ReadOnly"),
        ("Durable", "x", "ReadOnly"),
        ("Durable", "/x/..", "ReadOnly"),
        ("Durable", "/x", "read-only"),
        ("Durable", "/x", "ReadOnlyReadWrite"),
        ("Durable", "/x", ""),
    ] {
        let raw = RawComponentProperties {
            component_type: component_type.to_string(),
            files: vec![raw_file("ok", "/fine", "ReadWrite"), raw_file("k", path, permissions)],
        };
        assert_eq!(ComponentProperties::decode(raw), None);
    }
}

#[test]
fn reading_properties_undoes_writing_them() {
    for component_type in [ComponentType::Durable, ComponentType::Ephemeral] {
        let properties = ComponentProperties {
            component_type,
            files: vec![
                InitialComponentFile {
                    key: "k1".to_string(),
                    path: InitialComponentFilePath::from_str("/a/b").unwrap(),
                    permissions: InitialComponentFilePermissions::ReadOnly,
                },
                InitialComponentFile {
                    key: "".to_string(),
                    path: InitialComponentFilePath::from_str("/").unwrap(),
                    permissions: InitialComponentFilePermissions::ReadWrite,
                },
            ],
        };
        let raw = properties.clone().encode();
        assert_eq!(raw.files[0].permissions, "ReadOnly");
        assert_eq!(raw.files[1].permissions, "ReadWrite");
        assert_eq!(raw.files[0].path, "/a/b");
        assert_eq!(ComponentProperties::decode(raw), Some(properties));
    }
    let raw = ComponentProperties { component_type: ComponentType::Durable, files: vec![] }.encode();
    assert_eq!(raw.component_type, "Durable");
    let raw =
        ComponentProperties { component_type: ComponentType::Ephemeral, files: vec![] }.encode();
    assert_eq!(raw.component_type, "Ephemeral");
}

#[test]
fn pages_become_bytes() {
    let limits = MemoryLimits { min: 1, max: Some(2) };
    assert!(limits.fits());
    assert_eq!(limits.to_linear_memory(), LinearMemory { initial: 65536, maximum: Some(131072) });
    let limits = MemoryLimits { min: 17, max: None };
    assert_eq!(limits.to_linear_memory(), LinearMemory { initial: 1_114_112, maximum: None });
    let largest = MemoryLimits { min: 0, max: Some(281_474_976_710_655) };
    assert!(largest.fits());
    assert_eq!(
        largest.to_linear_memory(),
        LinearMemory { initial: 0, maximum: Some(18_446_744_073_709_486_080) }
    );
    assert!(!MemoryLimits { min: 0, max: Some(281_474_976_710_656) }.fits());
    assert!(!MemoryLimits { min: 281_474_976_710_656, max: None }.fits());
    assert!(all_fit(&vec![limits, largest]));
    assert!(!all_fit(&vec![limits, MemoryLimits { min: u64::MAX, max: None }]));
    assert!(all_fit(&vec![]));
}

#[test]
fn analysis_keeps_exports_and_converts_memories() {
    let analysis = RawComponentMetadata {
        memories: vec![MemoryLimits { min: 2, max: None }, MemoryLimits { min: 0, max: Some(1) }],
        exports: vec!["a".to_string(), "b".to_string()],
    };
    let (memories, exports) = analyze_memories_and_exports(analysis);
    assert_eq!(
        memories,
        vec![
            LinearMemory { initial: 131072, maximum: None },
            LinearMemory { initial: 0, maximum: Some(65536) },
        ]
    );
    assert_eq!(exports, vec!["a".to_string(), "b".to_string()]);
}

fn properties() -> ComponentProperties {
    ComponentProperties {
        component_type: ComponentType::Ephemeral,
        files: vec![InitialComponentFile {
            key: "k".to_string(),
            path: InitialComponentFilePath::from_str("/f").unwrap(),
            permissions: InitialComponentFilePermissions::ReadOnly,
        }],
    }
}

#[test]
fn local_metadata_states_version_and_size() {
    let analysis = Some((vec![LinearMemory { initial: 65536, maximum: None }], vec![1u8, 2]));
    let m = get_metadata_from_path(&id(), 7, 4321, analysis, Some(properties())).unwrap();
    assert_eq!(
        m,
        ComponentMetadata {
            version: 7,
            size: 4321,
            memories: vec![LinearMemory { initial: 65536, maximum: None }],
            exports: vec![1, 2],
            component_type: ComponentType::Ephemeral,
            files: properties().files,
        }
    );
}

#[test]
fn failed_analysis_leaves_memories_and_exports_empty() {
    let m = get_metadata_from_path::<u8>(&id(), 3, 10, None, Some(properties())).unwrap();
    assert_eq!(m.version, 3);
    assert_eq!(m.size, 10);
    assert!(m.memories.is_empty());
    assert!(m.exports.is_empty());
    assert_eq!(m.component_type, ComponentType::Ephemeral);
    assert_eq!(m.files.len(), 1);
}

#[test]
fn missing_properties_fail_the_metadata() {
    let analysis = Some((vec![], vec![1u8]));
    assert_eq!(
        get_metadata_from_path(&id(), 3, 10, analysis, None),
        Err(not_found("Failed to read properties of component"))
    );
}
