//! The contexts in which names are resolved.

use crate::kernel::types::UID;
use vstd::prelude::*;
use vstd::std_specs::cmp::PartialEqSpecImpl;

verus! {

/// The namespace in which a name is resolved.
#[derive(Debug, Hash)]
pub enum Context {
    /// The context of names that mean the same everywhere.
    Global,
    /// A field of knowledge, by its name.
    Domain(String),
    /// A context of the user's own, by its identifier.
    Custom(UID),
    /// A context that is never stored.
    Temporary,
}

/// A context as contracts see it: a domain by the characters of its name.
pub enum ContextView {
    Global,
    Domain(Seq<char>),
    Custom(UID),
    Temporary,
}

impl View for Context {
    type V = ContextView;

    open spec fn view(&self) -> ContextView {
        match self {
            Context::Global => ContextView::Global,
            Context::Domain(name) => ContextView::Domain(name@),
            Context::Custom(uid) => ContextView::Custom(*uid),
            Context::Temporary => ContextView::Temporary,
        }
    }
}

impl Clone for Context {
    fn clone(&self) -> (copy: Self)
        ensures
            copy == *self,
    {
        match self {
            Context::Global => Context::Global,
            Context::Domain(name) => Context::Domain(name.clone()),
            Context::Custom(uid) => Context::Custom(*uid),
            Context::Temporary => Context::Temporary,
        }
    }
}

impl PartialEq for Context {
    fn eq(&self, other: &Context) -> (equal: bool) {
        match self {
            Context::Global => match other {
                Context::Global => true,
                _ => false,
            },
            Context::Domain(mine) => match other {
                Context::Domain(theirs) => *mine == *theirs,
                _ => false,
            },
            Context::Custom(mine) => match other {
                Context::Custom(theirs) => mine.0 == theirs.0,
                _ => false,
            },
            Context::Temporary => match other {
                Context::Temporary => true,
                _ => false,
            },
        }
    }
}

impl PartialEqSpecImpl for Context {
    open spec fn obeys_eq_spec() -> bool {
        true
    }

    open spec fn eq_spec(&self, other: &Context) -> bool {
        self@ == other@
    }
}

impl Eq for Context {

}

impl Default for Context {
    fn default() -> (context: Self)
        ensures
            context == Context::Global,
    {
        Context::Global
    }
}

} // verus!
