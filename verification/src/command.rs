//! The component-type flags of the command line.

use vstd::prelude::*;
use crate::model::ComponentType;

verus! {

/// The flags that pick the type of a new component. At most one of them is
/// meant to be set; without either the component is durable.
#[derive(Clone, Copy, Debug)]
pub struct ComponentTypeArg {
    ephemeral: bool,
    durable: bool,
}

impl ComponentTypeArg {
    pub closed spec fn ephemeral_flag(&self) -> bool {
        self.ephemeral
    }

    pub closed spec fn durable_flag(&self) -> bool {
        self.durable
    }

    pub fn new(ephemeral: bool, durable: bool) -> (r: Self)
        ensures
            r.ephemeral_flag() == ephemeral,
            r.durable_flag() == durable,
    {
        ComponentTypeArg { ephemeral, durable }
    }

    /// Ephemeral when that flag is set, durable in every other case.
    pub fn component_type(&self) -> (r: ComponentType)
        ensures
            r == (if self.ephemeral_flag() {
                ComponentType::Ephemeral
            } else {
                ComponentType::Durable
            }),
    {
        if self.ephemeral {
            ComponentType::Ephemeral
        } else {
            ComponentType::Durable
        }
    }
}

/// The flags that pick the type of an updated component. Without either the
/// type of the previous version is kept.
#[derive(Clone, Copy, Debug)]
pub struct UpdatedComponentTypeArg {
    ephemeral: bool,
    durable: bool,
}

impl UpdatedComponentTypeArg {
    pub closed spec fn ephemeral_flag(&self) -> bool {
        self.ephemeral
    }

    pub closed spec fn durable_flag(&self) -> bool {
        self.durable
    }

    pub fn new(ephemeral: bool, durable: bool) -> (r: Self)
        ensures
            r.ephemeral_flag() == ephemeral,
            r.durable_flag() == durable,
    {
        UpdatedComponentTypeArg { ephemeral, durable }
    }

    /// The type that the flags ask for, the ephemeral flag first; `None`
    /// when neither is set.
    pub fn optional_component_type(&self) -> (r: Option<ComponentType>)
        ensures
            r == (if self.ephemeral_flag() {
                Some(ComponentType::Ephemeral)
            } else if self.durable_flag() {
                Some(ComponentType::Durable)
            } else {
                None
            }),
    {
        if self.ephemeral {
            Some(ComponentType::Ephemeral)
        } else if self.durable {
            Some(ComponentType::Durable)
        } else {
            None
        }
    }
}

} // verus!
