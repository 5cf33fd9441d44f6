//! Answers of the component registry, and how they become metadata and
//! component bytes.

use vstd::prelude::*;
use vstd::string::*;
use crate::error::{GrpcError, GrpcErrorView};
use crate::files::{
    file_views, valid_path, FileView, InitialComponentFile, InitialComponentFilePath,
};
use crate::metadata::{
    all_converted, collect_exports, converted, result_view, ComponentMetadata,
    ComponentMetadataView,
};
use crate::model::{
    ComponentId, ComponentType, ComponentVersion, InitialComponentFilePermissions, LinearMemory,
};

verus! {

/// Number that stands for a durable component in an answer.
pub const COMPONENT_TYPE_DURABLE: i32 = 0;

/// Number that stands for an ephemeral component in an answer.
pub const COMPONENT_TYPE_EPHEMERAL: i32 = 1;

/// Number that stands for read-only access in an answer.
pub const PERMISSIONS_READ_ONLY: i32 = 0;

/// Number that stands for read-write access in an answer.
pub const PERMISSIONS_READ_WRITE: i32 = 1;

/// A component together with one of its versions, as the registry names it.
#[derive(Debug, Clone, Copy, PartialEq, Eq)]
pub struct VersionedComponentId {
    pub component_id: Option<ComponentId>,
    pub version: ComponentVersion,
}

/// One initial file as the registry reports it, nothing of it checked yet.
#[derive(Debug, Clone, PartialEq, Eq)]
pub struct ComponentFileRecord {
    pub key: String,
    pub path: String,
    pub permissions: i32,
}

/// The analysed part of a component, as the registry reports it. Each export
/// comes as converted by the caller: its summary, or why it could not be
/// read.
#[derive(Debug, Clone, PartialEq, Eq)]
pub struct AnalysedMetadata<E> {
    pub memories: Vec<LinearMemory>,
    pub exports: Vec<Result<E, String>>,
}

/// What the registry reports of one version of a component.
#[derive(Debug, Clone, PartialEq, Eq)]
pub struct ComponentView<E> {
    pub versioned_component_id: Option<VersionedComponentId>,
    pub component_size: u64,
    pub component_type: i32,
    pub metadata: Option<AnalysedMetadata<E>>,
    pub files: Vec<ComponentFileRecord>,
}

/// The answer of the registry to a request for metadata.
#[derive(Debug, Clone, PartialEq, Eq)]
pub enum GetComponentMetadataResponse<E> {
    /// The answer holds no result at all.
    Empty,
    /// The registry found the component; the view itself may be missing.
    Success(Option<ComponentView<E>>),
    /// The registry answered with an error of its own, given as text.
    Error(String),
}

/// The type that a number in an answer stands for. A number that stands for
/// no type gives the default.
pub open spec fn component_type_of(wire: i32) -> ComponentType {
    if wire == COMPONENT_TYPE_EPHEMERAL {
        ComponentType::Ephemeral
    } else {
        ComponentType::Durable
    }
}

/// The access rights that a number in an answer stands for, if any.
pub open spec fn permissions_of(wire: i32) -> Option<InitialComponentFilePermissions> {
    if wire == PERMISSIONS_READ_ONLY {
        Some(InitialComponentFilePermissions::ReadOnly)
    } else if wire == PERMISSIONS_READ_WRITE {
        Some(InitialComponentFilePermissions::ReadWrite)
    } else {
        None
    }
}

/// Why a reported file cannot be accepted; none where it can. The access
/// rights are looked at before the path.
pub open spec fn file_error(f: ComponentFileRecord) -> Option<Seq<char>> {
    if permissions_of(f.permissions) is None {
        Some("Failed to get the file permissions"@)
    } else if !valid_path(f.path@) {
        Some("Failed to get the file path"@)
    } else {
        None
    }
}

/// The value of a reported file that can be accepted.
pub open spec fn decoded_file(f: ComponentFileRecord) -> FileView {
    FileView { key: f.key@, path: f.path@, permissions: permissions_of(f.permissions)->0 }
}

/// The complaint about the first file of a list that cannot be accepted.
pub open spec fn first_file_error(files: Seq<ComponentFileRecord>) -> Option<Seq<char>>
    decreases files.len(),
{
    if files.len() == 0 {
        None
    } else {
        match first_file_error(files.drop_last()) {
            Some(m) => Some(m),
            None => file_error(files.last()),
        }
    }
}

/// The values of a list of reported files, in order.
pub open spec fn decoded_files(files: Seq<ComponentFileRecord>) -> Seq<FileView> {
    files.map_values(|f: ComponentFileRecord| decoded_file(f))
}

/// The memories that a view reports; none where it has no analysed part.
pub open spec fn view_memories<E>(v: ComponentView<E>) -> Seq<LinearMemory> {
    match v.metadata {
        Some(m) => m.memories@,
        None => Seq::empty(),
    }
}

/// The converted exports of a view; none where it has no analysed part.
pub open spec fn view_exports<E>(v: ComponentView<E>) -> Seq<Result<E, String>> {
    match v.metadata {
        Some(m) => m.exports@,
        None => Seq::empty(),
    }
}

/// The metadata that a view of the registry stands for, or the complaint
/// about the first thing wrong with it: the version, then the exports, then
/// the files in order.
pub open spec fn decode_view<E>(v: ComponentView<E>) -> Result<
    ComponentMetadataView<E>,
    GrpcErrorView,
> {
    if v.versioned_component_id is None {
        Err(GrpcErrorView::Unexpected("Undefined component version"@))
    } else if !all_converted(view_exports(v)) {
        Err(GrpcErrorView::Unexpected("Failed to get the exports"@))
    } else {
        match first_file_error(v.files@) {
            Some(m) => Err(GrpcErrorView::Unexpected(m)),
            None => Ok(
                ComponentMetadataView {
                    version: v.versioned_component_id->0.version,
                    size: v.component_size,
                    memories: view_memories(v),
                    exports: converted(view_exports(v)),
                    component_type: component_type_of(v.component_type),
                    files: decoded_files(v.files@),
                },
            ),
        }
    }
}

/// The metadata that an answer of the registry stands for, or why it
/// stands for none.
pub open spec fn decode_response<E>(response: GetComponentMetadataResponse<E>) -> Result<
    ComponentMetadataView<E>,
    GrpcErrorView,
> {
    match response {
        GetComponentMetadataResponse::Empty => Err(GrpcErrorView::Unexpected("Empty response"@)),
        GetComponentMetadataResponse::Success(None) => Err(
            GrpcErrorView::Unexpected("No component information in response"@),
        ),
        GetComponentMetadataResponse::Success(Some(v)) => decode_view(v),
        GetComponentMetadataResponse::Error(e) => Err(GrpcErrorView::Domain(e@)),
    }
}

/// A complaint about a list of files is the complaint about each longer
/// list that starts with it.
pub proof fn lemma_file_error_persists(files: Seq<ComponentFileRecord>, n: int)
    requires
        0 <= n <= files.len(),
        first_file_error(files.take(n)) is Some,
    ensures
        first_file_error(files) == first_file_error(files.take(n)),
    decreases files.len() - n,
{
    if n == files.len() {
        assert(files.take(n) =~= files);
    } else {
        assert(files.drop_last().take(n) =~= files.take(n));
        lemma_file_error_persists(files.drop_last(), n);
    }
}

/// Accepts or refuses one reported file.
pub fn decode_file(f: ComponentFileRecord) -> (r: Result<InitialComponentFile, GrpcError>)
    ensures
        match r {
            Ok(file) => file_error(f) is None && file@ == decoded_file(f),
            Err(e) => file_error(f) matches Some(m) && e@ == GrpcErrorView::Unexpected(m),
        },
{
    let permissions = if f.permissions == PERMISSIONS_READ_ONLY {
        InitialComponentFilePermissions::ReadOnly
    } else if f.permissions == PERMISSIONS_READ_WRITE {
        InitialComponentFilePermissions::ReadWrite
    } else {
        return Err(GrpcError::Unexpected(String::from_str("Failed to get the file permissions")));
    };
    match InitialComponentFilePath::from_str(f.path.as_str()) {
        Some(path) => Ok(InitialComponentFile { key: f.key, path, permissions }),
        None => Err(GrpcError::Unexpected(String::from_str("Failed to get the file path"))),
    }
}

/// Accepts or refuses a list of reported files, in order.
pub fn decode_files(files: Vec<ComponentFileRecord>) -> (r: Result<
    Vec<InitialComponentFile>,
    GrpcError,
>)
    ensures
        match r {
            Ok(out) => first_file_error(files@) is None && file_views(out@) == decoded_files(
                files@,
            ),
            Err(e) => first_file_error(files@) matches Some(m) && e@ == GrpcErrorView::Unexpected(
                m,
            ),
        },
{
    let mut out: Vec<InitialComponentFile> = Vec::new();
    for f in it: files
        invariant
            it.seq() == files@,
            out@.len() == it.index(),
            first_file_error(files@.take(it.index() as int)) is None,
            forall|j: int| 0 <= j < it.index() ==> (#[trigger] out@[j])@ == decoded_file(files@[j]),
    {
        let ghost i = it.index() as int;
        proof {
            assert(files@.take(i + 1).drop_last() =~= files@.take(i));
            assert(files@.take(i + 1).last() == files@[i]);
        }
        match decode_file(f) {
            Ok(file) => {
                out.push(file);
            },
            Err(e) => {
                proof {
                    lemma_file_error_persists(files@, i + 1);
                }
                return Err(e);
            },
        }
    }
    proof {
        assert(files@.take(files@.len() as int) =~= files@);
        assert(file_views(out@) =~= decoded_files(files@));
    }
    Ok(out)
}

/// Turns a view of the registry into metadata.
pub fn decode_component_view<E>(view: ComponentView<E>) -> (r: Result<
    ComponentMetadata<E>,
    GrpcError,
>)
    ensures
        result_view(r) == decode_view(view),
{
    let version = match view.versioned_component_id {
        Some(id) => id.version,
        None => {
            return Err(GrpcError::Unexpected(String::from_str("Undefined component version")));
        },
    };
    let component_type = if view.component_type == COMPONENT_TYPE_EPHEMERAL {
        ComponentType::Ephemeral
    } else {
        ComponentType::Durable
    };
    let (memories, exports) = match view.metadata {
        Some(m) => (m.memories, collect_exports(m.exports)),
        None => (Vec::new(), Some(Vec::new())),
    };
    let exports = match exports {
        Some(e) => e,
        None => {
            return Err(GrpcError::Unexpected(String::from_str("Failed to get the exports")));
        },
    };
    assert(exports@ =~= converted(view_exports(view)));
    let files = decode_files(view.files)?;
    Ok(
        ComponentMetadata {
            version,
            size: view.component_size,
            memories,
            exports,
            component_type,
            files,
        },
    )
}

/// Turns an answer of the registry into metadata.
pub fn decode_metadata_response<E>(response: GetComponentMetadataResponse<E>) -> (r: Result<
    ComponentMetadata<E>,
    GrpcError,
>)
    ensures
        result_view(r) == decode_response(response),
{
    match response {
        GetComponentMetadataResponse::Empty => Err(
            GrpcError::Unexpected(String::from_str("Empty response")),
        ),
        GetComponentMetadataResponse::Success(None) => Err(
            GrpcError::Unexpected(String::from_str("No component information in response")),
        ),
        GetComponentMetadataResponse::Success(Some(view)) => decode_component_view(view),
        GetComponentMetadataResponse::Error(e) => Err(GrpcError::Domain(e)),
    }
}

/// The number that stands for a component type in an answer.
pub open spec fn type_number(t: ComponentType) -> i32 {
    match t {
        ComponentType::Durable => COMPONENT_TYPE_DURABLE,
        ComponentType::Ephemeral => COMPONENT_TYPE_EPHEMERAL,
    }
}

/// The number that stands for access rights in an answer.
pub open spec fn permissions_number(p: InitialComponentFilePermissions) -> i32 {
    match p {
        InitialComponentFilePermissions::ReadOnly => PERMISSIONS_READ_ONLY,
        InitialComponentFilePermissions::ReadWrite => PERMISSIONS_READ_WRITE,
    }
}

/// A reported file says exactly what a file of the metadata says.
pub open spec fn reports_file(r: ComponentFileRecord, f: FileView) -> bool {
    &&& r.key@ == f.key
    &&& r.path@ == f.path
    &&& r.permissions == permissions_number(f.permissions)
}

/// A view says exactly what the metadata of a component says, and names
/// the component.
pub open spec fn reports<E>(
    v: ComponentView<E>,
    m: ComponentMetadataView<E>,
    component_id: ComponentId,
) -> bool {
    &&& v.versioned_component_id == Some(
        VersionedComponentId { component_id: Some(component_id), version: m.version },
    )
    &&& v.component_size == m.size
    &&& v.component_type == type_number(m.component_type)
    &&& v.metadata is Some
    &&& view_memories(v) == m.memories
    &&& view_exports(v).len() == m.exports.len()
    &&& forall|i: int|
        0 <= i < m.exports.len() ==> (#[trigger] view_exports(v)[i]) == Ok::<E, String>(
            m.exports[i],
        )
    &&& v.files@.len() == m.files.len()
    &&& forall|i: int| 0 <= i < m.files.len() ==> reports_file(#[trigger] v.files@[i], m.files[i])
}

/// The view by which the registry would report the given metadata.
pub fn encode_component_view<E>(metadata: ComponentMetadata<E>, component_id: ComponentId) -> (r:
    ComponentView<E>)
    ensures
        reports(r, metadata@, component_id),
{
    let component_type = match metadata.component_type {
        ComponentType::Durable => COMPONENT_TYPE_DURABLE,
        ComponentType::Ephemeral => COMPONENT_TYPE_EPHEMERAL,
    };
    let mut exports: Vec<Result<E, String>> = Vec::new();
    for e in it: metadata.exports
        invariant
            it.seq() == metadata.exports@,
            exports@.len() == it.index(),
            forall|j: int|
                0 <= j < it.index() ==> (#[trigger] exports@[j]) == Ok::<E, String>(
                    metadata.exports@[j],
                ),
    {
        exports.push(Ok(e));
    }
    let mut files: Vec<ComponentFileRecord> = Vec::new();
    for f in it: metadata.files
        invariant
            it.seq() == metadata.files@,
            files@.len() == it.index(),
            forall|j: int|
                0 <= j < it.index() ==> reports_file(#[trigger] files@[j], metadata.files@[j]@),
    {
        let permissions = match f.permissions {
            InitialComponentFilePermissions::ReadOnly => PERMISSIONS_READ_ONLY,
            InitialComponentFilePermissions::ReadWrite => PERMISSIONS_READ_WRITE,
        };
        let path = String::from_str(f.path.as_str());
        files.push(ComponentFileRecord { key: f.key, path, permissions });
    }
    ComponentView {
        versioned_component_id: Some(
            VersionedComponentId { component_id: Some(component_id), version: metadata.version },
        ),
        component_size: metadata.size,
        component_type,
        metadata: Some(AnalysedMetadata { memories: metadata.memories, exports }),
        files,
    }
}

/// A list in which every file can be accepted draws no complaint.
pub proof fn lemma_no_file_error(files: Seq<ComponentFileRecord>)
    requires
        forall|i: int| 0 <= i < files.len() ==> file_error(#[trigger] files[i]) is None,
    ensures
        first_file_error(files) is None,
    decreases files.len(),
{
    if files.len() > 0 {
        lemma_no_file_error(files.drop_last());
    }
}

/// Decoding undoes encoding: a view that reports metadata whose paths are
/// of the grammar decodes to that very metadata.
pub proof fn lemma_decode_inverts_encode<E>(
    v: ComponentView<E>,
    m: ComponentMetadataView<E>,
    component_id: ComponentId,
)
    requires
        reports(v, m, component_id),
        forall|i: int| 0 <= i < m.files.len() ==> valid_path((#[trigger] m.files[i]).path),
    ensures
        decode_view(v) == Ok::<ComponentMetadataView<E>, GrpcErrorView>(m),
{
    assert forall|i: int| 0 <= i < v.files@.len() implies file_error(#[trigger] v.files@[i])
        is None by {
        assert(reports_file(v.files@[i], m.files[i]));
    }
    lemma_no_file_error(v.files@);
    assert(all_converted(view_exports(v)));
    assert(converted(view_exports(v)) =~= m.exports);
    assert forall|i: int| 0 <= i < m.files.len() implies decoded_files(v.files@)[i]
        == m.files[i] by {
        assert(reports_file(v.files@[i], m.files[i]));
    }
    assert(decoded_files(v.files@) =~= m.files);
}

} // verus!
