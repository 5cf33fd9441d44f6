use component_service::download::{assemble_download, DownloadFrame};
use component_service::error::GrpcError;
use component_service::files::{InitialComponentFile, InitialComponentFilePath};
use component_service::metadata::{collect_exports, ComponentMetadata};
use component_service::model::{
    ComponentId, ComponentType, InitialComponentFilePermissions, LinearMemory,
};
use component_service::registry::{
    decode_component_view, decode_file, decode_files, decode_metadata_response,
    encode_component_view, AnalysedMetadata, ComponentFileRecord, ComponentView,
    GetComponentMetadataResponse, VersionedComponentId,
};

fn record(key: &str, path: &str, permissions: i32) -> ComponentFileRecord {
    ComponentFileRecord { key: key.to_string(), path: path.to_string(), permissions }
}

fn view() -> ComponentView<String> {
    ComponentView {
        versioned_component_id: Some(VersionedComponentId {
            component_id: Some(ComponentId(5)),
            version: 7,
        }),
        component_size: 1234,
        component_type: 1,
        metadata: Some(AnalysedMetadata {
            memories: vec![LinearMemory { initial: 65536, maximum: Some(131072) }],
            exports: vec![Ok("run".to_string()), Ok("stop".to_string())],
        }),
        files: vec![record("k1", "/a/b.txt", 0), record("k2", "/c", 1)],
    }
}

fn unexpected(message: &str) -> GrpcError {
    GrpcError::Unexpected(message.to_string())
}

#[test]
fn view_decodes_field_by_field() {
    let m = decode_component_view(view()).unwrap();
    assert_eq!(m.version, 7);
    assert_eq!(m.size, 1234);
    assert_eq!(m.component_type, ComponentType::Ephemeral);
    assert_eq!(m.memories, vec![LinearMemory { initial: 65536, maximum: Some(131072) }]);
    assert_eq!(m.exports, vec!["run".to_string(), "stop".to_string()]);
    assert_eq!(m.files.len(), 2);
    assert_eq!(m.files[0].key, "k1");
    assert_eq!(m.files[0].path.as_str(), "/a/b.txt");
    assert_eq!(m.files[0].permissions, InitialComponentFilePermissions::ReadOnly);
    assert_eq!(m.files[1].key, "k2");
    assert_eq!(m.files[1].path.as_str(), "/c");
    assert_eq!(m.files[1].permissions, InitialComponentFilePermissions::ReadWrite);
}

#[test]
fn missing_version_is_refused() {
    let mut v = view();
    v.versioned_component_id = None;
    assert_eq!(decode_component_view(v), Err(unexpected("Undefined component version")));
}

#[test]
fn missing_version_is_reported_before_anything_else() {
    let mut v = view();
    v.versioned_component_id = None;
    v.metadata.as_mut().unwrap().exports.push(Err("bad".to_string()));
    v.files.push(record("k", "relative", 9));
    assert_eq!(decode_component_view(v), Err(unexpected("Undefined component version")));
}

#[test]
fn failed_export_is_refused() {
    let mut v = view();
    v.metadata.as_mut().unwrap().exports.insert(1, Err("bad export".to_string()));
    v.files.push(record("k", "relative", 9));
    assert_eq!(decode_component_view(v), Err(unexpected("Failed to get the exports")));
}

#[test]
fn permissions_out_of_range_are_refused() {
    let mut v = view();
    v.files.push(record("k3", "not absolute", 2));
    assert_eq!(decode_component_view(v), Err(unexpected("Failed to get the file permissions")));
    let mut v = view();
    v.files.insert(0, record("k3", "/fine", -1));
    assert_eq!(decode_component_view(v), Err(unexpected("Failed to get the file permissions")));
}

#[test]
fn path_outside_the_grammar_is_refused() {
    for bad in ["", "relative/path", "/a/../b", "/a/.", "/.", "/..", "/a/./b", "a"] {
        let mut v = view();
        v.files.push(record("k3", bad, 0));
        assert_eq!(
            decode_component_view(v),
            Err(unexpected("Failed to get the file path")),
            "path {:?}",
            bad
        );
    }
}

#[test]
fn first_bad_file_decides_the_complaint() {
    let mut v = view();
    v.files.push(record("k3", "relative", 0));
    v.files.push(record("k4", "/fine", 5));
    assert_eq!(decode_component_view(v), Err(unexpected("Failed to get the file path")));
}

#[test]
fn paths_of_the_grammar_are_accepted() {
    for good in ["/", "/a", "/a/b/c.txt", "/.hidden", "/..x", "/a..", "/a/.b./c", "//", "/a//b", "/..."] {
        assert!(InitialComponentFilePath::from_str(good).is_some(), "path {:?}", good);
        assert_eq!(InitialComponentFilePath::from_str(good).unwrap().as_str(), good);
    }
}

#[test]
fn unknown_component_type_is_the_default() {
    for (wire, expected) in [
        (0, ComponentType::Durable),
        (1, ComponentType::Ephemeral),
        (2, ComponentType::Durable),
        (-1, ComponentType::Durable),
    ] {
        let mut v = view();
        v.component_type = wire;
        assert_eq!(decode_component_view(v).unwrap().component_type, expected);
    }
    assert_eq!(ComponentType::default(), ComponentType::Durable);
}

#[test]
fn view_without_analysed_part_has_no_memories_and_no_exports() {
    let mut v = view();
    v.metadata = None;
    let m = decode_component_view(v).unwrap();
    assert!(m.memories.is_empty());
    assert!(m.exports.is_empty());
    assert_eq!(m.files.len(), 2);
}

#[test]
fn answers_without_a_view_are_refused() {
    assert_eq!(
        decode_metadata_response::<String>(GetComponentMetadataResponse::Empty),
        Err(unexpected("Empty response"))
    );
    assert_eq!(
        decode_metadata_response::<String>(GetComponentMetadataResponse::Success(None)),
        Err(unexpected("No component information in response"))
    );
    assert_eq!(
        decode_metadata_response::<String>(GetComponentMetadataResponse::Error(
            "not found".to_string()
        )),
        Err(GrpcError::Domain("not found".to_string()))
    );
    let m = decode_metadata_response(GetComponentMetadataResponse::Success(Some(view()))).unwrap();
    assert_eq!(m.version, 7);
}

#[test]
fn decoding_undoes_encoding() {
    let metadata = ComponentMetadata {
        version: 42,
        size: 9_000_000_000,
        memories: vec![
            LinearMemory { initial: 0, maximum: None },
            LinearMemory { initial: 65536, maximum: Some(u64::MAX) },
        ],
        exports: vec![3u32, 1, 2],
        component_type: ComponentType::Ephemeral,
        files: vec![
            InitialComponentFile {
                key: "first".to_string(),
                path: InitialComponentFilePath::from_str("/data/first.bin").unwrap(),
                permissions: InitialComponentFilePermissions::ReadWrite,
            },
            InitialComponentFile {
                key: "second".to_string(),
                path: InitialComponentFilePath::from_str("/").unwrap(),
                permissions: InitialComponentFilePermissions::ReadOnly,
            },
        ],
    };
    let encoded = encode_component_view(metadata.clone(), ComponentId(77));
    assert_eq!(
        encoded.versioned_component_id,
        Some(VersionedComponentId { component_id: Some(ComponentId(77)), version: 42 })
    );
    assert_eq!(encoded.component_type, 1);
    assert_eq!(encoded.files[0].permissions, 1);
    assert_eq!(encoded.files[1].permissions, 0);
    assert_eq!(decode_component_view(encoded), Ok(metadata));

    let durable = ComponentMetadata::<u32> {
        version: 0,
        size: 0,
        memories: vec![],
        exports: vec![],
        component_type: ComponentType::Durable,
        files: vec![],
    };
    let encoded = encode_component_view(durable.clone(), ComponentId(0));
    assert_eq!(encoded.component_type, 0);
    assert_eq!(decode_component_view(encoded), Ok(durable));
}

#[test]
fn single_files_decode() {
    let f = decode_file(record("key", "/x", 1)).unwrap();
    assert_eq!(f.key, "key");
    assert_eq!(f.path.as_str(), "/x");
    assert_eq!(f.permissions, InitialComponentFilePermissions::ReadWrite);
    assert_eq!(decode_file(record("key", "x", 1)), Err(unexpected("Failed to get the file path")));
    assert_eq!(
        decode_file(record("key", "x", 3)),
        Err(unexpected("Failed to get the file permissions"))
    );
    assert_eq!(decode_files(vec![]), Ok(vec![]));
}

#[test]
fn exports_are_collected_in_order() {
    assert_eq!(collect_exports::<u8>(vec![]), Some(vec![]));
    assert_eq!(collect_exports(vec![Ok(1u8), Ok(2), Ok(3)]), Some(vec![1, 2, 3]));
    assert_eq!(collect_exports(vec![Ok(1u8), Err("no".to_string()), Ok(3)]), None);
}

#[test]
fn chunks_are_concatenated_in_order() {
    let frames = vec![
        DownloadFrame::SuccessChunk(vec![1, 2, 3]),
        DownloadFrame::SuccessChunk(vec![]),
        DownloadFrame::SuccessChunk(vec![4]),
        DownloadFrame::SuccessChunk(vec![5, 6]),
    ];
    assert_eq!(assemble_download(frames), Ok(vec![1, 2, 3, 4, 5, 6]));
    assert_eq!(assemble_download(vec![]), Ok(vec![]));
}

#[test]
fn empty_frame_is_a_protocol_error() {
    let frames = vec![
        DownloadFrame::SuccessChunk(vec![1, 2, 3]),
        DownloadFrame::Empty,
        DownloadFrame::SuccessChunk(vec![4]),
    ];
    assert_eq!(assemble_download(frames), Err(unexpected("Empty response")));
}

#[test]
fn first_failing_frame_decides_the_error() {
    let frames = vec![
        DownloadFrame::SuccessChunk(vec![1]),
        DownloadFrame::Error("quota".to_string()),
        DownloadFrame::Empty,
    ];
    assert_eq!(assemble_download(frames), Err(GrpcError::Domain("quota".to_string())));
    let frames = vec![DownloadFrame::Empty, DownloadFrame::Error("quota".to_string())];
    assert_eq!(assemble_download(frames), Err(unexpected("Empty response")));
}
