//! The laws the serializer obeys, stated and proved once over the spec-level
//! rendering functions that every `tree` method's contract is pinned to.

use vstd::prelude::*;

use crate::ast::{Ast, Expression, Recipe, Thunk};
use crate::node::{
    ast_tree, body_children, dep_tree, deps_children, expr_tree, params_children, recipe_children,
    sups_children, thunk_children,
};
use crate::tree::TreeView;

verus! {

broadcast use vstd::std_specs::vec::group_vec_axioms, vstd::seq::group_seq_axioms;

/// Determinism: the canonical tree of a program is a function of the
/// program alone, so rendering the same program twice yields structurally
/// identical trees.
pub proof fn lemma_render_deterministic(p: Ast, t1: TreeView, t2: TreeView)
    requires
        t1 == ast_tree(p),
        t2 == ast_tree(p),
    ensures
        t1 == t2,
{
}

/// Order preservation: with `k` prior dependencies out of `n`, the `deps`
/// node is present exactly when `k > 0` and then holds the first `k`
/// dependency trees in source order, and the `sups` node is present exactly
/// when `k < n` and then holds the remaining `n - k` in source order.
pub proof fn lemma_order_preservation(r: Recipe)
    requires
        r.wf(),
    ensures
        r.priors == 0 ==> deps_children(r) == Seq::<TreeView>::empty(),
        r.priors > 0 ==> deps_children(r).len() == 1,
        r.priors > 0 ==> deps_children(r)[0]->List_0.len() == r.priors + 1,
        r.priors > 0 ==> deps_children(r)[0]->List_0[0] == TreeView::Atom("deps"@),
        forall|i: int|
            0 <= i < r.priors ==> r.priors > 0 && deps_children(r)[0]->List_0[i + 1] == dep_tree(
                #[trigger] r.dependencies@[i],
            ),
        r.priors == r.dependencies@.len() ==> sups_children(r) == Seq::<TreeView>::empty(),
        r.priors < r.dependencies@.len() ==> sups_children(r).len() == 1,
        r.priors < r.dependencies@.len() ==> sups_children(r)[0]->List_0.len()
            == r.dependencies@.len() - r.priors + 1,
        r.priors < r.dependencies@.len() ==> sups_children(r)[0]->List_0[0] == TreeView::Atom(
            "sups"@,
        ),
        forall|i: int|
            r.priors <= i < r.dependencies@.len() ==> sups_children(r)[0]->List_0[i - r.priors + 1]
                == dep_tree(#[trigger] r.dependencies@[i]),
{
}

/// Omission correctness: a recipe with zero parameters renders no `params`
/// node, one with zero dependencies renders neither `deps` nor `sups`, one
/// with an empty body renders no `body` node; the children of the rendered
/// tree are exactly those the present parts account for.
pub proof fn lemma_omission_correctness(r: Recipe)
    requires
        r.wf(),
    ensures
        r.parameters@.len() == 0 ==> params_children(r.parameters@) == Seq::<TreeView>::empty(),
        r.dependencies@.len() == 0 ==> deps_children(r) == Seq::<TreeView>::empty()
            && sups_children(r) == Seq::<TreeView>::empty(),
        r.body@.len() == 0 ==> body_children(r.body@) == Seq::<TreeView>::empty(),
        recipe_children(r).len() == 2 + (if r.quiet {
            2int
        } else {
            0int
        }) + (if r.doc is Some {
            1int
        } else {
            0int
        }) + (if r.parameters@.len() > 0 {
            1int
        } else {
            0int
        }) + (if r.priors > 0 {
            1int
        } else {
            0int
        }) + (if r.dependencies@.len() > r.priors {
            1int
        } else {
            0int
        }) + (if r.body@.len() > 0 {
            1int
        } else {
            0int
        }),
{
}

/// Call-shape fidelity: a `UnaryOpt` call renders exactly two children
/// after the `call` atom when its optional argument is absent, and exactly
/// three when it is present.
pub proof fn lemma_unary_opt_arity(t: Thunk)
    requires
        t is UnaryOpt,
    ensures
        t->UnaryOpt_opt is None ==> thunk_children(t).len() == 2,
        t->UnaryOpt_opt is Some ==> thunk_children(t).len() == 3,
        expr_tree(Expression::Call { thunk: t })->List_0.len() == (if t->UnaryOpt_opt is Some {
            4int
        } else {
            3int
        }),
{
    assert(expr_tree(Expression::Call { thunk: t })->List_0 == seq![TreeView::Atom("call"@)]
        + thunk_children(t));
}

} // verus!
