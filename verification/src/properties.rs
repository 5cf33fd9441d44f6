//! The properties that are stored beside the bytes of a local component,
//! and the metadata of a local component.

use vstd::prelude::*;
use vstd::string::*;
use crate::error::{GolemError, GolemErrorView};
use crate::files::{
    file_views, valid_path, FileView, InitialComponentFile, InitialComponentFilePath,
};
use crate::metadata::{ComponentMetadata, ComponentMetadataView};
use crate::model::{
    ComponentId, ComponentType, ComponentVersion, InitialComponentFilePermissions, LinearMemory,
    WASM_PAGE_SIZE,
};

verus! {

/// One file as the properties document names it, nothing of it checked
/// yet.
#[derive(Debug, Clone, PartialEq, Eq)]
pub struct RawComponentFile {
    pub key: String,
    pub path: String,
    pub permissions: String,
}

/// The fields of a properties document, nothing of them checked yet.
#[derive(Debug, Clone, PartialEq, Eq)]
pub struct RawComponentProperties {
    pub component_type: String,
    pub files: Vec<RawComponentFile>,
}

/// The properties of a local component.
#[derive(Debug, Clone, PartialEq, Eq)]
pub struct ComponentProperties {
    pub component_type: ComponentType,
    pub files: Vec<InitialComponentFile>,
}

/// Mathematical value of a [`ComponentProperties`].
pub struct ComponentPropertiesView {
    pub component_type: ComponentType,
    pub files: Seq<FileView>,
}

impl View for ComponentProperties {
    type V = ComponentPropertiesView;

    open spec fn view(&self) -> ComponentPropertiesView {
        ComponentPropertiesView {
            component_type: self.component_type,
            files: file_views(self.files@),
        }
    }
}

/// The name of a component type in a properties document.
pub open spec fn name_of_type(t: ComponentType) -> Seq<char> {
    match t {
        ComponentType::Durable => "Durable"@,
        ComponentType::Ephemeral => "Ephemeral"@,
    }
}

/// The name of access rights in a properties document.
pub open spec fn name_of_permissions(p: InitialComponentFilePermissions) -> Seq<char> {
    match p {
        InitialComponentFilePermissions::ReadOnly => "ReadOnly"@,
        InitialComponentFilePermissions::ReadWrite => "ReadWrite"@,
    }
}

/// The component type that a name stands for, if any.
pub open spec fn type_of_name(name: Seq<char>) -> Option<ComponentType> {
    if name == "Durable"@ {
        Some(ComponentType::Durable)
    } else if name == "Ephemeral"@ {
        Some(ComponentType::Ephemeral)
    } else {
        None
    }
}

/// The access rights that a name stands for, if any.
pub open spec fn permissions_of_name(name: Seq<char>) -> Option<InitialComponentFilePermissions> {
    if name == "ReadOnly"@ {
        Some(InitialComponentFilePermissions::ReadOnly)
    } else if name == "ReadWrite"@ {
        Some(InitialComponentFilePermissions::ReadWrite)
    } else {
        None
    }
}

/// A named file can be accepted: its access rights have a name and its
/// path is of the grammar.
pub open spec fn file_accepted(f: RawComponentFile) -> bool {
    permissions_of_name(f.permissions@) is Some && valid_path(f.path@)
}

/// The value of a named file that can be accepted.
pub open spec fn accepted_file(f: RawComponentFile) -> FileView {
    FileView {
        key: f.key@,
        path: f.path@,
        permissions: permissions_of_name(f.permissions@)->0,
    }
}

/// The properties that a document states; none where the component type
/// has no name or one of the files cannot be accepted.
pub open spec fn decode_properties(raw: RawComponentProperties) -> Option<ComponentPropertiesView> {
    if type_of_name(raw.component_type@) is Some && forall|i: int|
        0 <= i < raw.files@.len() ==> file_accepted(#[trigger] raw.files@[i]) {
        Some(
            ComponentPropertiesView {
                component_type: type_of_name(raw.component_type@)->0,
                files: raw.files@.map_values(|f: RawComponentFile| accepted_file(f)),
            },
        )
    } else {
        None
    }
}

/// A named file says exactly what a file of the properties says.
pub open spec fn names_file(r: RawComponentFile, f: FileView) -> bool {
    &&& r.key@ == f.key
    &&& r.path@ == f.path
    &&& r.permissions@ == name_of_permissions(f.permissions)
}

/// A document states exactly the given properties.
pub open spec fn states(raw: RawComponentProperties, p: ComponentPropertiesView) -> bool {
    &&& raw.component_type@ == name_of_type(p.component_type)
    &&& raw.files@.len() == p.files.len()
    &&& forall|i: int| 0 <= i < p.files.len() ==> names_file(#[trigger] raw.files@[i], p.files[i])
}

/// The names of the component types and of the access rights are told
/// apart: each name stands for what it names.
pub proof fn lemma_names_invert()
    ensures
        forall|t: ComponentType| #[trigger] type_of_name(name_of_type(t)) == Some(t),
        forall|p: InitialComponentFilePermissions| #[trigger]
            permissions_of_name(name_of_permissions(p)) == Some(p),
{
    reveal_strlit("Durable");
    reveal_strlit("Ephemeral");
    reveal_strlit("ReadOnly");
    reveal_strlit("ReadWrite");
    assert("Durable"@.len() != "Ephemeral"@.len());
    assert("ReadOnly"@.len() != "ReadWrite"@.len());
}

/// Reading undoes writing: a document that states properties whose paths
/// are of the grammar is read as those very properties.
pub proof fn lemma_decode_inverts_encode(raw: RawComponentProperties, p: ComponentPropertiesView)
    requires
        states(raw, p),
        forall|i: int| 0 <= i < p.files.len() ==> valid_path((#[trigger] p.files[i]).path),
    ensures
        decode_properties(raw) == Some(p),
{
    lemma_names_invert();
    assert forall|i: int| 0 <= i < raw.files@.len() implies file_accepted(
        #[trigger] raw.files@[i],
    ) by {
        assert(names_file(raw.files@[i], p.files[i]));
    }
    assert forall|i: int| 0 <= i < p.files.len() implies raw.files@.map_values(
        |f: RawComponentFile| accepted_file(f),
    )[i] == p.files[i] by {
        assert(names_file(raw.files@[i], p.files[i]));
    }
    assert(raw.files@.map_values(|f: RawComponentFile| accepted_file(f)) =~= p.files);
}

fn text_equals(a: &str, b: &str) -> (r: bool)
    ensures
        r == (a@ == b@),
{
    let x = String::from_str(a);
    let y = String::from_str(b);
    x == y
}

fn decode_type(name: &str) -> (r: Option<ComponentType>)
    ensures
        r == type_of_name(name@),
{
    if text_equals(name, "Durable") {
        Some(ComponentType::Durable)
    } else if text_equals(name, "Ephemeral") {
        Some(ComponentType::Ephemeral)
    } else {
        None
    }
}

fn decode_permissions(name: &str) -> (r: Option<InitialComponentFilePermissions>)
    ensures
        r == permissions_of_name(name@),
{
    if text_equals(name, "ReadOnly") {
        Some(InitialComponentFilePermissions::ReadOnly)
    } else if text_equals(name, "ReadWrite") {
        Some(InitialComponentFilePermissions::ReadWrite)
    } else {
        None
    }
}

impl ComponentProperties {
    /// Reads the properties that a document states.
    pub fn decode(raw: RawComponentProperties) -> (r: Option<ComponentProperties>)
        ensures
            match r {
                Some(p) => decode_properties(raw) == Some(p@),
                None => decode_properties(raw) is None,
            },
    {
        let component_type = match decode_type(raw.component_type.as_str()) {
            Some(t) => t,
            None => {
                return None;
            },
        };
        let mut files: Vec<InitialComponentFile> = Vec::new();
        for f in it: raw.files
            invariant
                it.seq() == raw.files@,
                files@.len() == it.index(),
                forall|j: int| 0 <= j < it.index() ==> file_accepted(#[trigger] raw.files@[j]),
                forall|j: int|
                    0 <= j < it.index() ==> (#[trigger] files@[j])@ == accepted_file(
                        raw.files@[j],
                    ),
        {
            let permissions = match decode_permissions(f.permissions.as_str()) {
                Some(p) => p,
                None => {
                    return None;
                },
            };
            let path = match InitialComponentFilePath::from_str(f.path.as_str()) {
                Some(p) => p,
                None => {
                    return None;
                },
            };
            files.push(InitialComponentFile { key: f.key, path, permissions });
        }
        proof {
            assert(file_views(files@) =~= raw.files@.map_values(
                |f: RawComponentFile| accepted_file(f),
            ));
        }
        Some(ComponentProperties { component_type, files })
    }

    /// The document that states these properties.
    pub fn encode(self) -> (r: RawComponentProperties)
        ensures
            states(r, self@),
    {
        let component_type = match self.component_type {
            ComponentType::Durable => String::from_str("Durable"),
            ComponentType::Ephemeral => String::from_str("Ephemeral"),
        };
        let mut files: Vec<RawComponentFile> = Vec::new();
        for f in it: self.files
            invariant
                it.seq() == self.files@,
                files@.len() == it.index(),
                forall|j: int|
                    0 <= j < it.index() ==> names_file(#[trigger] files@[j], self.files@[j]@),
        {
            let permissions = match f.permissions {
                InitialComponentFilePermissions::ReadOnly => String::from_str("ReadOnly"),
                InitialComponentFilePermissions::ReadWrite => String::from_str("ReadWrite"),
            };
            let path = String::from_str(f.path.as_str());
            files.push(RawComponentFile { key: f.key, path, permissions });
        }
        RawComponentProperties { component_type, files }
    }
}

/// The limits of one linear memory, in pages.
#[derive(Clone, Copy, Debug, PartialEq, Eq, Structural)]
pub struct MemoryLimits {
    pub min: u64,
    pub max: Option<u64>,
}

/// What the static analysis of a component's bytes finds: its memories
/// and the summaries of its exports.
#[derive(Debug, Clone, PartialEq, Eq)]
pub struct RawComponentMetadata<E> {
    pub memories: Vec<MemoryLimits>,
    pub exports: Vec<E>,
}

/// The sizes of a memory in bytes fit into 64 bits.
pub open spec fn pages_fit(limits: MemoryLimits) -> bool {
    &&& limits.min * WASM_PAGE_SIZE <= u64::MAX
    &&& limits.max matches Some(m) ==> m * WASM_PAGE_SIZE <= u64::MAX
}

/// A memory in bytes: each of its limits times the size of a page.
pub open spec fn memory_in_bytes(limits: MemoryLimits) -> LinearMemory {
    LinearMemory {
        initial: (limits.min * WASM_PAGE_SIZE) as u64,
        maximum: match limits.max {
            Some(m) => Some((m * WASM_PAGE_SIZE) as u64),
            None => None,
        },
    }
}

impl MemoryLimits {
    /// Whether the sizes of the memory in bytes fit into 64 bits.
    pub fn fits(&self) -> (r: bool)
        ensures
            r == pages_fit(*self),
    {
        let highest: u64 = u64::MAX / WASM_PAGE_SIZE;
        self.min <= highest && match self.max {
            Some(m) => m <= highest,
            None => true,
        }
    }

    /// The memory in bytes.
    pub fn to_linear_memory(&self) -> (r: LinearMemory)
        requires
            pages_fit(*self),
        ensures
            r == memory_in_bytes(*self),
    {
        LinearMemory {
            initial: self.min * WASM_PAGE_SIZE,
            maximum: match self.max {
                Some(m) => Some(m * WASM_PAGE_SIZE),
                None => None,
            },
        }
    }
}

/// Whether the sizes of all memories in bytes fit into 64 bits.
pub fn all_fit(memories: &Vec<MemoryLimits>) -> (r: bool)
    ensures
        r == forall|i: int| 0 <= i < memories@.len() ==> pages_fit(#[trigger] memories@[i]),
{
    let mut i: usize = 0;
    while i < memories.len()
        invariant
            i <= memories.len(),
            forall|j: int| 0 <= j < i ==> pages_fit(#[trigger] memories@[j]),
        decreases memories.len() - i,
    {
        if !memories[i].fits() {
            return false;
        }
        i = i + 1;
    }
    true
}

/// The memories and exports of an analysed component, the memories in
/// bytes.
pub fn analyze_memories_and_exports<E>(analysis: RawComponentMetadata<E>) -> (r: (
    Vec<LinearMemory>,
    Vec<E>,
))
    requires
        forall|i: int|
            0 <= i < analysis.memories@.len() ==> pages_fit(#[trigger] analysis.memories@[i]),
    ensures
        r.0@ == analysis.memories@.map_values(|l: MemoryLimits| memory_in_bytes(l)),
        r.1@ == analysis.exports@,
{
    let mut memories: Vec<LinearMemory> = Vec::new();
    let mut i: usize = 0;
    while i < analysis.memories.len()
        invariant
            i <= analysis.memories.len(),
            memories@.len() == i,
            forall|j: int|
                0 <= j < analysis.memories@.len() ==> pages_fit(#[trigger] analysis.memories@[j]),
            forall|j: int|
                0 <= j < i ==> (#[trigger] memories@[j]) == memory_in_bytes(analysis.memories@[j]),
        decreases analysis.memories.len() - i,
    {
        memories.push(analysis.memories[i].to_linear_memory());
        i = i + 1;
    }
    assert(memories@ =~= analysis.memories@.map_values(|l: MemoryLimits| memory_in_bytes(l)));
    (memories, analysis.exports)
}

/// The metadata of a local component: the version that was picked, the
/// size of the file of bytes, what the analysis of the bytes found (nothing
/// where the analysis failed), and the stored properties. Without
/// properties there is no metadata.
pub open spec fn local_metadata<E>(
    component_id: ComponentId,
    component_version: ComponentVersion,
    size: u64,
    analysis: Option<(Vec<LinearMemory>, Vec<E>)>,
    properties: Option<ComponentProperties>,
) -> Result<ComponentMetadataView<E>, GolemErrorView> {
    match properties {
        None => Err(
            GolemErrorView::GetLatestVersionOfComponentFailed {
                component_id,
                reason: "Failed to read properties of component"@,
            },
        ),
        Some(p) => Ok(
            ComponentMetadataView {
                version: component_version,
                size,
                memories: match analysis {
                    Some(a) => a.0@,
                    None => Seq::empty(),
                },
                exports: match analysis {
                    Some(a) => a.1@,
                    None => Seq::empty(),
                },
                component_type: p.component_type,
                files: file_views(p.files@),
            },
        ),
    }
}

/// Puts the metadata of a local component together.
pub fn get_metadata_from_path<E>(
    component_id: &ComponentId,
    component_version: ComponentVersion,
    size: u64,
    analysis: Option<(Vec<LinearMemory>, Vec<E>)>,
    properties: Option<ComponentProperties>,
) -> (r: Result<ComponentMetadata<E>, GolemError>)
    ensures
        crate::metadata::result_view(r) == local_metadata(
            *component_id,
            component_version,
            size,
            analysis,
            properties,
        ),
{
    let (memories, exports) = match analysis {
        Some(a) => a,
        None => (Vec::new(), Vec::new()),
    };
    match properties {
        Some(p) => Ok(
            ComponentMetadata {
                version: component_version,
                size,
                memories,
                exports,
                component_type: p.component_type,
                files: p.files,
            },
        ),
        None => Err(
            GolemError::GetLatestVersionOfComponentFailed {
                component_id: *component_id,
                reason: String::from_str("Failed to read properties of component"),
            },
        ),
    }
}

} // verus!
