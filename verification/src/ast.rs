//! The data model of a parsed query document.
//!
//! A document is a sequence of top-level definitions; every definition,
//! whatever its kind, carries a root selection set. A selection is a named
//! field with nested selections, an inline fragment, or a spread of a named
//! fragment. These types hold plain values only, so the matcher over them can
//! be specified and verified; the surrounding program fills them from
//! whatever parser it uses.

use vstd::prelude::*;

verus! {

/// One selection inside a selection set.
pub enum Selection {
    /// A named field carrying its nested selection set (empty for a leaf).
    Field { name: String, children: Vec<Selection> },
    /// A type-conditioned group of selections that has no name of its own
    /// and is transparent to field-path matching.
    InlineFragment { type_condition: Option<String>, children: Vec<Selection> },
    /// A reference to a fragment defined elsewhere; never resolved here.
    FragmentSpread { name: String },
}

/// The kind of an operation definition. The matcher treats all kinds alike;
/// the kind is kept only so that a document can be represented faithfully.
pub enum OperationKind {
    /// A bare selection set with no keyword.
    SelectionSet,
    Query,
    Mutation,
    Subscription,
}

/// A top-level definition of a document.
pub enum Definition {
    /// An operation of any kind with its root selection set.
    Operation { kind: OperationKind, root: Vec<Selection> },
    /// A named fragment definition with its selection set.
    Fragment { name: String, root: Vec<Selection> },
}

/// A parsed query document: its top-level definitions in order.
pub struct Document {
    pub definitions: Vec<Definition>,
}

impl Definition {
    /// The root selection set, uniform over every kind of definition.
    pub open spec fn spec_root(self) -> Seq<Selection> {
        match self {
            Definition::Operation { root, .. } => root@,
            Definition::Fragment { root, .. } => root@,
        }
    }

    /// The root selection set, uniform over every kind of definition.
    pub fn root_selections(&self) -> (r: &Vec<Selection>)
        ensures
            r@ == self.spec_root(),
    {
        match self {
            Definition::Operation { root, .. } => root,
            Definition::Fragment { root, .. } => root,
        }
    }
}

} // verus!
