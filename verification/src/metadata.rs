//! The metadata record of a component.

use vstd::prelude::*;
use crate::files::{file_views, FileView, InitialComponentFile};
use crate::model::{ComponentType, ComponentVersion, LinearMemory};

verus! {

/// What the service knows of one version of a component. `E` is the
/// summary of one export, which the service carries and never reads.
#[derive(Debug, Clone, PartialEq, Eq)]
pub struct ComponentMetadata<E> {
    pub version: ComponentVersion,
    pub size: u64,
    pub memories: Vec<LinearMemory>,
    pub exports: Vec<E>,
    pub component_type: ComponentType,
    pub files: Vec<InitialComponentFile>,
}

/// Mathematical value of a [`ComponentMetadata`].
pub struct ComponentMetadataView<E> {
    pub version: ComponentVersion,
    pub size: u64,
    pub memories: Seq<LinearMemory>,
    pub exports: Seq<E>,
    pub component_type: ComponentType,
    pub files: Seq<FileView>,
}

impl<E> View for ComponentMetadata<E> {
    type V = ComponentMetadataView<E>;

    open spec fn view(&self) -> ComponentMetadataView<E> {
        ComponentMetadataView {
            version: self.version,
            size: self.size,
            memories: self.memories@,
            exports: self.exports@,
            component_type: self.component_type,
            files: file_views(self.files@),
        }
    }
}

/// The values inside the two cases of a result.
pub open spec fn result_view<T: View, X: View>(r: Result<T, X>) -> Result<T::V, X::V> {
    match r {
        Ok(t) => Ok(t@),
        Err(x) => Err(x@),
    }
}

/// The exports of a list in which every conversion succeeded.
pub open spec fn converted<E>(items: Seq<Result<E, String>>) -> Seq<E> {
    items.map_values(
        |r: Result<E, String>|
            match r {
                Ok(e) => e,
                Err(_) => arbitrary(),
            },
    )
}

/// Whether every conversion in a list succeeded.
pub open spec fn all_converted<E>(items: Seq<Result<E, String>>) -> bool {
    forall|i: int| 0 <= i < items.len() ==> (#[trigger] items[i]) is Ok
}

/// The exports of a list of conversions, in order; none where one failed.
pub fn collect_exports<E>(items: Vec<Result<E, String>>) -> (r: Option<Vec<E>>)
    ensures
        r is Some <==> all_converted(items@),
        r matches Some(v) ==> v@ == converted(items@),
{
    let mut out: Vec<E> = Vec::new();
    for item in it: items
        invariant
            it.seq() == items@,
            out@.len() == it.index(),
            forall|j: int|
                0 <= j < it.index() ==> (#[trigger] items@[j]) == Ok::<E, String>(out@[j]),
    {
        match item {
            Ok(e) => {
                out.push(e);
            },
            Err(_) => {
                return None;
            },
        }
    }
    assert(out@ =~= converted(items@));
    Some(out)
}

} // verus!
