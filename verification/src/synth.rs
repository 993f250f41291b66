//! Trait synthesis: derives the companion trait's name from the self
//! type, renders a signature-only stub for each selected method, and
//! emits the trait declaration (when one is owed) followed by the
//! input implementation block verbatim.

use vstd::prelude::*;
use crate::config::{ConfigError, GenerateArgs, parse_config};
use crate::model::{ImplBlock, MethodDef, SelfType, selected};

verus! {

/// The companion trait's name: the terminal segment of a plain named
/// self type with `Overwrites` appended, and no name for any other shape
/// of self type.
pub open spec fn trait_name_of(t: SelfType) -> Option<Seq<char>> {
    match t {
        SelfType::Named { name } => Some(name@ + "Overwrites"@),
        SelfType::Other => None,
    }
}

/// The stub rendered for one selected method: its attribute lines, if
/// any, then its signature with a trailing semicolon, indented one level.
pub open spec fn stub_text(m: MethodDef) -> Seq<char> {
    "    "@ + (if m.attrs@.len() > 0 {
        m.attrs@ + "\n    "@
    } else {
        Seq::<char>::empty()
    }) + m.signature@ + ";\n"@
}

/// The stubs of the methods selected from position `i` on, concatenated
/// in declaration order.
pub open spec fn stubs_from(ms: Seq<MethodDef>, i: int, all: bool) -> Seq<char>
    decreases ms.len() - i,
{
    if i < 0 || i >= ms.len() {
        Seq::<char>::empty()
    } else if selected(ms[i], all) {
        stub_text(ms[i]) + stubs_from(ms, i + 1, all)
    } else {
        stubs_from(ms, i + 1, all)
    }
}

/// Whether the policy selects any method at all.
pub open spec fn any_selected(ms: Seq<MethodDef>, all: bool) -> bool {
    exists|i: int| 0 <= i < ms.len() && selected(ms[i], all)
}

/// The head of the generated trait declaration: its name, the block's
/// generic parameters, and the block's where-clause if it has one.
pub open spec fn header_text(name: Seq<char>, generics: Seq<char>, where_clause: Seq<char>) -> Seq<
    char,
> {
    "pub trait "@ + name + generics + (if where_clause.len() > 0 {
        " "@ + where_clause
    } else {
        Seq::<char>::empty()
    }) + " {\n"@
}

/// The whole generated trait declaration for a derived name.
pub open spec fn trait_text(name: Seq<char>, b: ImplBlock, all: bool) -> Seq<char> {
    header_text(name, b.generics@, b.where_clause@) + stubs_from(b.methods@, 0, all) + "}"@
}

/// The generator's whole output for one implementation block under one
/// policy: the generated trait declaration followed by the input
/// block verbatim, when a trait name can be derived and at least one
/// method is selected; the input block alone, verbatim, otherwise.
pub open spec fn output_text(b: ImplBlock, all: bool) -> Seq<char> {
    match trait_name_of(b.self_ty) {
        Some(name) => {
            if any_selected(b.methods@, all) {
                trait_text(name, b, all) + "\n\n"@ + b.source@
            } else {
                b.source@
            }
        },
        None => b.source@,
    }
}

/// Derives the companion trait's name from the self type, or nothing
/// when the self type is not a plain named path.
pub fn derive_trait_name(t: &SelfType) -> (r: Option<String>)
    ensures
        r is Some <==> trait_name_of(*t) is Some,
        r is Some ==> r->0@ == trait_name_of(*t)->0,
{
    match t {
        SelfType::Named { name } => {
            let mut out = name.clone();
            out.append("Overwrites");
            Some(out)
        },
        SelfType::Other => None,
    }
}

fn is_selected(m: &MethodDef, all: bool) -> (r: bool)
    ensures
        r == selected(*m, all),
{
    m.is_public && (if all {
        !m.has_skip
    } else {
        m.has_overwrite
    })
}

fn has_selected(ms: &Vec<MethodDef>, all: bool) -> (r: bool)
    ensures
        r == any_selected(ms@, all),
{
    let mut q: usize = 0;
    while q < ms.len()
        invariant
            q <= ms@.len(),
            forall|t: int| 0 <= t < q ==> !selected(ms@[t], all),
        decreases ms@.len() - q,
    {
        if is_selected(&ms[q], all) {
            return true;
        }
        q += 1;
    }
    false
}

fn append_stubs(out: &mut String, ms: &Vec<MethodDef>, i: usize, all: bool)
    requires
        i <= ms@.len(),
    ensures
        final(out)@ == old(out)@ + stubs_from(ms@, i as int, all),
    decreases ms@.len() - i,
{
    if i < ms.len() {
        let ghost entry = out@;
        let m = &ms[i];
        if is_selected(m, all) {
            out.append("    ");
            if !m.attrs.as_str().is_empty() {
                out.append(m.attrs.as_str());
                out.append("\n    ");
            }
            out.append(m.signature.as_str());
            out.append(";\n");
            assert(out@ =~= entry + stub_text(ms@[i as int]));
        }
        append_stubs(out, ms, i + 1, all);
        assert(out@ =~= entry + stubs_from(ms@, i as int, all));
    } else {
        assert(out@ =~= old(out)@ + stubs_from(ms@, i as int, all));
    }
}

/// Emits the generator's output for one implementation block under an
/// already resolved policy: the companion trait declaration, when one is
/// owed, followed by the input block verbatim.
pub fn generate(b: &ImplBlock, args: &GenerateArgs) -> (r: String)
    ensures
        r@ == output_text(*b, args.all),
{
    let name_opt = derive_trait_name(&b.self_ty);
    match name_opt {
        None => b.source.clone(),
        Some(name) => {
            if !has_selected(&b.methods, args.all) {
                b.source.clone()
            } else {
                let mut out = String::new();
                out.append("pub trait ");
                out.append(name.as_str());
                out.append(b.generics.as_str());
                if !b.where_clause.as_str().is_empty() {
                    out.append(" ");
                    out.append(b.where_clause.as_str());
                }
                out.append(" {\n");
                assert(out@ =~= header_text(name@, b.generics@, b.where_clause@));
                append_stubs(&mut out, &b.methods, 0, args.all);
                out.append("}");
                out.append("\n\n");
                out.append(b.source.as_str());
                assert(out@ =~= output_text(*b, args.all));
                out
            }
        },
    }
}

/// The stubs of a whole method sequence, concatenated in order.
pub open spec fn stubs_of(ms: Seq<MethodDef>) -> Seq<char>
    decreases ms.len(),
{
    if ms.len() == 0 {
        Seq::<char>::empty()
    } else {
        stub_text(ms[0]) + stubs_of(ms.drop_first())
    }
}

proof fn lemma_filter_singleton(m: MethodDef, pred: spec_fn(MethodDef) -> bool)
    ensures
        seq![m].filter(pred) == if pred(m) {
            seq![m]
        } else {
            Seq::<MethodDef>::empty()
        },
{
    reveal(Seq::filter);
    let s = seq![m];
    assert(s.drop_last() =~= Seq::<MethodDef>::empty());
    assert(Seq::<MethodDef>::empty().filter(pred) =~= Seq::<MethodDef>::empty());
    if pred(m) {
        assert(s.filter(pred) =~= seq![m]);
    } else {
        assert(s.filter(pred) =~= Seq::<MethodDef>::empty());
    }
}

proof fn lemma_stubs_from_filtered(
    ms: Seq<MethodDef>,
    i: int,
    all: bool,
    pred: spec_fn(MethodDef) -> bool,
)
    requires
        0 <= i <= ms.len(),
        forall|m: MethodDef| #[trigger] pred(m) <==> selected(m, all),
    ensures
        stubs_from(ms, i, all) == stubs_of(ms.subrange(i, ms.len() as int).filter(pred)),
    decreases ms.len() - i,
{
    reveal(Seq::filter);
    let tail = ms.subrange(i, ms.len() as int);
    if i == ms.len() {
        assert(tail =~= Seq::<MethodDef>::empty());
    } else {
        lemma_stubs_from_filtered(ms, i + 1, all, pred);
        let rest = ms.subrange(i + 1, ms.len() as int);
        assert(tail =~= seq![ms[i]] + rest);
        Seq::filter_distributes_over_add(seq![ms[i]], rest, pred);
        lemma_filter_singleton(ms[i], pred);
        let f = rest.filter(pred);
        if pred(ms[i]) {
            assert(tail.filter(pred) == seq![ms[i]] + f);
            assert((seq![ms[i]] + f)[0] == ms[i]);
            assert((seq![ms[i]] + f).drop_first() =~= f);
            assert(stubs_of(tail.filter(pred)) == stub_text(ms[i]) + stubs_of(f));
        } else {
            assert(tail.filter(pred) =~= f);
        }
    }
}

/// Law: with `all` omitted or true, the generated trait body holds
/// exactly the stubs of the public methods not marked `skip`, in
/// declaration order, and nothing of any non-public method whatever its
/// markers.
pub proof fn lemma_trait_body_under_default_policy(ms: Seq<MethodDef>)
    ensures
        stubs_from(ms, 0, true) == stubs_of(
            ms.filter(|m: MethodDef| m.is_public && !m.has_skip),
        ),
{
    let pred = |m: MethodDef| m.is_public && !m.has_skip;
    lemma_stubs_from_filtered(ms, 0, true, pred);
    assert(ms.subrange(0, ms.len() as int) =~= ms);
}

/// Law: with `all = false`, the generated trait body holds exactly the
/// stubs of the public methods marked `overwrite`, in declaration order,
/// and nothing else.
pub proof fn lemma_trait_body_under_opt_in_policy(ms: Seq<MethodDef>)
    ensures
        stubs_from(ms, 0, false) == stubs_of(
            ms.filter(|m: MethodDef| m.is_public && m.has_overwrite),
        ),
{
    let pred = |m: MethodDef| m.is_public && m.has_overwrite;
    lemma_stubs_from_filtered(ms, 0, false, pred);
    assert(ms.subrange(0, ms.len() as int) =~= ms);
}

/// Law: the policy selects some method exactly when the filtered method
/// sequence is non-empty.
pub proof fn lemma_any_selected_iff_filter_nonempty(
    ms: Seq<MethodDef>,
    all: bool,
    pred: spec_fn(MethodDef) -> bool,
)
    requires
        forall|m: MethodDef| #[trigger] pred(m) <==> selected(m, all),
    ensures
        any_selected(ms, all) <==> ms.filter(pred).len() > 0,
{
    if any_selected(ms, all) {
        let i = choose|i: int| 0 <= i < ms.len() && selected(ms[i], all);
        ms.lemma_filter_contains(pred, i);
    }
    if ms.filter(pred).len() > 0 {
        ms.lemma_filter_pred(pred, 0);
        ms.lemma_filter_contains_rev(pred, ms.filter(pred)[0]);
        let i = choose|i: int| 0 <= i < ms.len() && ms[i] == ms.filter(pred)[0];
        assert(selected(ms[i], all));
    }
}

/// Law: if the policy selects no method, no trait declaration appears in
/// the output at all: the output is the input block alone.
pub proof fn lemma_empty_selection_emits_block_alone(b: ImplBlock, all: bool)
    requires
        !any_selected(b.methods@, all),
    ensures
        output_text(b, all) == b.source@,
{
}

/// Law: if the filtered method sequence is empty, no trait declaration
/// appears in the output at all: the output is the input block alone.
pub proof fn lemma_empty_filter_emits_block_alone(
    b: ImplBlock,
    all: bool,
    pred: spec_fn(MethodDef) -> bool,
)
    requires
        forall|m: MethodDef| #[trigger] pred(m) <==> selected(m, all),
        b.methods@.filter(pred).len() == 0,
    ensures
        output_text(b, all) == b.source@,
{
    lemma_any_selected_iff_filter_nonempty(b.methods@, all, pred);
}

/// Law: if the self type is not a plain named path, no trait declaration
/// appears in the output: the output is the input block alone.
pub proof fn lemma_unnamed_self_type_emits_block_alone(b: ImplBlock, all: bool)
    requires
        b.self_ty is Other,
    ensures
        output_text(b, all) == b.source@,
{
}

/// Law: whatever the policy and the markers, the output ends with the
/// input implementation block, verbatim.
pub proof fn lemma_block_always_reemitted(b: ImplBlock, all: bool)
    ensures
        exists|prefix: Seq<char>| output_text(b, all) == prefix + b.source@,
{
    match trait_name_of(b.self_ty) {
        Some(name) => {
            if any_selected(b.methods@, all) {
                let prefix = trait_text(name, b, all) + "\n\n"@;
                assert(output_text(b, all) == prefix + b.source@);
            } else {
                assert(output_text(b, all) =~= Seq::<char>::empty() + b.source@);
            }
        },
        None => {
            assert(output_text(b, all) =~= Seq::<char>::empty() + b.source@);
        },
    }
}

/// The generator's whole work for one invocation: resolves the
/// configuration text to a policy, and either rejects the invocation
/// before emitting anything, or emits the output for that policy.
pub fn generate_overwrites(config: &str, block: &ImplBlock) -> (r: Result<String, ConfigError>)
    ensures
        parse_config(config@) is Ok ==> r is Ok && r->Ok_0@ == output_text(
            *block,
            parse_config(config@)->Ok_0.all,
        ),
        parse_config(config@) is Err ==> r is Err && r->Err_0 == parse_config(config@)->Err_0,
{
    match GenerateArgs::parse(config) {
        Ok(args) => Ok(generate(block, &args)),
        Err(e) => Err(e),
    }
}

} // verus!
