//! The structured description of an implementation block that the
//! generator works on: a self type, generic parameters, and an ordered
//! sequence of method definitions, each carrying its visibility, its
//! markers, and its source text.

use vstd::prelude::*;

verus! {

/// The self type of an implementation block: either a plain named path,
/// of which only the terminal segment matters for trait naming, or any
/// other shape of type (a tuple, a reference, ...), from which no trait
/// name can be derived.
pub enum SelfType {
    Named { name: String },
    Other,
}

/// One method definition of an implementation block: its name, its
/// visibility, the two recognized markers, and its source text. `attrs`
/// holds the attribute lines verbatim (possibly empty), `signature` the
/// signature without the trailing body.
pub struct MethodDef {
    pub name: String,
    pub is_public: bool,
    pub has_skip: bool,
    pub has_overwrite: bool,
    pub attrs: String,
    pub signature: String,
}

/// An implementation block: the self type, the block's generic
/// parameters and where-clause verbatim, the methods in declaration
/// order, and the whole block's source text verbatim.
pub struct ImplBlock {
    pub self_ty: SelfType,
    pub generics: String,
    pub where_clause: String,
    pub methods: Vec<MethodDef>,
    pub source: String,
}

/// The selection policy: under `all` (the default), a method is selected
/// iff it is public and not marked `skip`; otherwise iff it is public
/// and marked `overwrite`. Non-public methods are never selected.
pub open spec fn selected(m: MethodDef, all: bool) -> bool {
    m.is_public && (if all {
        !m.has_skip
    } else {
        m.has_overwrite
    })
}

/// Law: under the default policy a method is selected iff it
/// is public and not marked `skip`, whatever its other markers.
pub proof fn lemma_select_by_default(m: MethodDef)
    ensures
        selected(m, true) <==> (m.is_public && !m.has_skip),
{
}

/// Law: under the opt-in policy a method is selected iff it is public
/// and marked `overwrite`, whatever its other markers.
pub proof fn lemma_select_opt_in(m: MethodDef)
    ensures
        selected(m, false) <==> (m.is_public && m.has_overwrite),
{
}

/// Law: a non-public method is never selected, under either policy and
/// whatever its markers.
pub proof fn lemma_non_public_never_selected(m: MethodDef, all: bool)
    ensures
        !m.is_public ==> !selected(m, all),
{
}

} // verus!
