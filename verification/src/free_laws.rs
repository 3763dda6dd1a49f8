//! The free names of a function, in general: with functions nested in it.

use crate::node::{Ast, Param};
use crate::scope_laws::{
    grown, lemma_grown_chain, lemma_grows, lemma_grows_decls, lemma_grows_each,
    lemma_grows_function, lemma_grows_hoist, lemma_grows_plain, lemma_grows_target,
    scope_at_leave,
};
use crate::scopes::{
    analyzable, analyzable_each, analyzable_option, analyze, analyze_body, analyze_decls,
    analyze_each, analyze_function, analyze_option, analyze_plain, analyze_target, assignable,
    hoist, hoist_each, Scopes,
};
use crate::shape_laws::{
    lemma_analyzable_at, lemma_analyzable_fewer, lemma_decls_length, lemma_hoist_length,
    lemma_plain_length, lemma_shape_decls,
};
use vstd::prelude::*;

verus! {

/// The names that a tree uses where it stands: the identifiers that it
/// refers to or assigns to outside the functions that it declares, and the
/// free names that are written on those functions.
pub open spec fn uses(node: Ast) -> Set<Seq<char>>
    decreases node, 0nat,
{
    match node {
        Ast::StatementList(nodes) => uses_each(nodes, nodes.len()),
        Ast::FunctionDecl(_, _, fv, _, _) => fv,
        Ast::Call(callee, args) => uses(*callee).union(uses_each(args, args.len())),
        Ast::VarDecl(_, init) => uses_option(init),
        Ast::Return(val) => uses_option(val),
        Ast::Member(parent, _) => uses(*parent),
        Ast::Identifier(name) => set![name],
        Ast::If(cond, then_, else_) => uses(*cond).union(uses(*then_)).union(uses(*else_)),
        Ast::While(cond, body) => uses(*cond).union(uses(*body)),
        Ast::Assign(dst, src) => uses(*dst).union(uses(*src)),
        Ast::UnaryOp(expr, _) => uses(*expr),
        Ast::BinaryOp(left, right, _) => uses(*left).union(uses(*right)),
        Ast::TernaryOp(cond, then_, else_) => uses(*cond).union(uses(*then_)).union(
            uses(*else_),
        ),
        _ => Set::empty(),
    }
}

/// The names that the first `n` trees of `nodes` use.
pub open spec fn uses_each(nodes: Seq<Ast>, n: nat) -> Set<Seq<char>>
    decreases nodes, n,
{
    if n == 0 || n > nodes.len() {
        Set::empty()
    } else {
        uses_each(nodes, (n - 1) as nat).union(uses(nodes[n - 1]))
    }
}

/// The names that an optional tree uses.
pub open spec fn uses_option(node: Option<Box<Ast>>) -> Set<Seq<char>>
    decreases node, 1nat,
{
    match node {
        Some(e) => uses(*e),
        None => Set::empty(),
    }
}

/// The names that those of the first `n` trees of `nodes` use that stand
/// where `kinds` has a function declaration, if `decls` says so, and where
/// it has none, if not.
spec fn uses_where(nodes: Seq<Ast>, kinds: Seq<Ast>, n: nat, decls: bool) -> Set<
    Seq<char>,
>
    decreases n,
{
    if n == 0 || n > nodes.len() || n > kinds.len() {
        Set::empty()
    } else if (kinds[n - 1] is FunctionDecl) == decls {
        uses_where(nodes, kinds, (n - 1) as nat, decls).union(uses(nodes[n - 1]))
    } else {
        uses_where(nodes, kinds, (n - 1) as nat, decls)
    }
}

proof fn lemma_uses_where_same(a: Seq<Ast>, b: Seq<Ast>, kinds: Seq<Ast>, n: nat, decls: bool)
    requires
        n <= a.len(),
        n <= b.len(),
        n <= kinds.len(),
        forall|i: int| 0 <= i < n && (kinds[i] is FunctionDecl) == decls ==> a[i] == b[i],
    ensures
        uses_where(a, kinds, n, decls) == uses_where(b, kinds, n, decls),
    decreases n,
{
    if n > 0 {
        lemma_uses_where_same(a, b, kinds, (n - 1) as nat, decls);
    }
}

proof fn lemma_uses_split(nodes: Seq<Ast>, kinds: Seq<Ast>, n: nat)
    requires
        n <= nodes.len(),
        n <= kinds.len(),
    ensures
        uses_each(nodes, n) == uses_where(nodes, kinds, n, false).union(
            uses_where(nodes, kinds, n, true),
        ),
    decreases n,
{
    if n > 0 {
        lemma_uses_split(nodes, kinds, (n - 1) as nat);
    }
    assert(uses_each(nodes, n) =~= uses_where(nodes, kinds, n, false).union(
        uses_where(nodes, kinds, n, true),
    ));
}

proof fn lemma_uses_each_same(a: Seq<Ast>, b: Seq<Ast>, n: nat)
    requires
        n <= a.len(),
        n <= b.len(),
        forall|i: int| 0 <= i < n ==> a[i] == b[i],
    ensures
        uses_each(a, n) == uses_each(b, n),
    decreases n,
{
    if n > 0 {
        lemma_uses_each_same(a, b, (n - 1) as nat);
    }
}

/// Whether the state `after` is the state `before` after the analysis,
/// inside a function and without a new global, of trees that then use the
/// names `refs`: only the innermost scope has changed, and it has grown; the
/// free names have grown, by used names that are not global only, and by
/// every used name that by now is neither global nor declared.
spec fn follows(before: Scopes, refs: Set<Seq<char>>, after: Scopes) -> bool {
    &&& after.varmap.len() == before.varmap.len()
    &&& forall|i: int| 0 <= i < before.varmap.len() - 1 ==> after.varmap[i] == before.varmap[i]
    &&& before.varmap.last().subset_of(after.varmap.last())
    &&& before.cur_fv.subset_of(after.cur_fv)
    &&& after.cur_fv.subset_of(before.cur_fv.union(refs.difference(before.varmap[0])))
    &&& refs.difference(before.varmap[0]).difference(after.varmap.last()).subset_of(after.cur_fv)
}

proof fn lemma_follows_chain(
    a: Scopes,
    r1: Set<Seq<char>>,
    b: Scopes,
    r2: Set<Seq<char>>,
    c: Scopes,
)
    requires
        a.varmap.len() >= 2,
        follows(a, r1, b),
        follows(b, r2, c),
    ensures
        follows(a, r1.union(r2), c),
{
    assert(b.varmap[0] == a.varmap[0]);
}

/// Of three states of which each has the scopes of the one before, grown:
/// if the last has the global scope of the first, so has the second.
proof fn lemma_between(a: Scopes, b: Scopes, c: Scopes)
    requires
        a.varmap.len() >= 1,
        grown(a, b),
        grown(b, c),
        c.varmap[0] == a.varmap[0],
    ensures
        b.varmap[0] == a.varmap[0],
        c.varmap[0] == b.varmap[0],
        b.varmap.len() == a.varmap.len(),
{
    assert(a.varmap[0].subset_of(b.varmap[0]));
    assert(b.varmap[0].subset_of(c.varmap[0]));
    assert(b.varmap[0] =~= a.varmap[0]);
}

proof fn lemma_follows(st: Scopes, node: Ast)
    requires
        analyzable(node),
        st.varmap.len() >= 2,
        analyze(st, node).0.varmap[0] == st.varmap[0],
    ensures
        follows(st, uses(analyze(st, node).1), analyze(st, node).0),
    decreases node, 0nat,
{
    match node {
        Ast::StatementList(nodes) => {
            lemma_follows_each(st, nodes, nodes.len());
            lemma_each_length(st, nodes, nodes.len());
        },
        Ast::FunctionDecl(name, _, _, params, body) => match *body {
            Ast::StatementList(stmts) => {
                assert(analyzable(*body));
                lemma_follows_function(st, name, params, stmts);
                },
            _ => {
                },
        },
        Ast::Call(callee, args) => {
            let c = analyze(st, *callee);
            let a = analyze_each(c.0, args, args.len());
            lemma_grows(st, *callee);
            lemma_grows_each(c.0, args, args.len());
            lemma_between(st, c.0, a.0);
            lemma_follows(st, *callee);
            lemma_follows_each(c.0, args, args.len());
            lemma_follows_chain(st, uses(c.1), c.0, uses_each(a.1, args.len()), a.0);
            lemma_each_length(c.0, args, args.len());
        },
        Ast::VarDecl(name, init) => {
            let d = st.declare(name);
            let i = analyze_option(d, init);
            assert(d.varmap[0] == st.varmap[0]);
            assert(follows(st, Set::empty(), d));
            lemma_follows_option(d, init);
            lemma_follows_chain(st, Set::empty(), d, uses_option(i.1), i.0);
            assert(Set::<Seq<char>>::empty().union(uses_option(i.1)) =~= uses_option(i.1));
        },
        Ast::Return(val) => {
            lemma_follows_option(st, val);
        },
        Ast::Member(parent, _) => {
            lemma_follows(st, *parent);
        },
        Ast::Identifier(name) => {},
        Ast::If(cond, then_, else_) => {
            let c = analyze(st, *cond);
            let t = analyze(c.0, *then_);
            let e = analyze(t.0, *else_);
            lemma_grows(st, *cond);
            lemma_grows(c.0, *then_);
            lemma_grows(t.0, *else_);
            lemma_grown_chain(c.0, t.0, e.0);
            lemma_between(st, c.0, e.0);
            lemma_between(c.0, t.0, e.0);
            lemma_follows(st, *cond);
            lemma_follows(c.0, *then_);
            lemma_follows(t.0, *else_);
            lemma_follows_chain(st, uses(c.1), c.0, uses(t.1), t.0);
            lemma_follows_chain(st, uses(c.1).union(uses(t.1)), t.0, uses(e.1), e.0);
        },
        Ast::While(cond, body) => {
            let c = analyze(st, *cond);
            let b = analyze(c.0, *body);
            lemma_grows(st, *cond);
            lemma_grows(c.0, *body);
            lemma_between(st, c.0, b.0);
            lemma_follows(st, *cond);
            lemma_follows(c.0, *body);
            lemma_follows_chain(st, uses(c.1), c.0, uses(b.1), b.0);
        },
        Ast::Assign(dst, src) => {
            let d = analyze_target(st, *dst);
            let s = analyze(d.0, *src);
            lemma_grows_target(st, *dst);
            lemma_grows(d.0, *src);
            lemma_between(st, d.0, s.0);
            lemma_follows_target(st, *dst);
            lemma_follows(d.0, *src);
            lemma_follows_chain(st, uses(d.1), d.0, uses(s.1), s.0);
        },
        Ast::UnaryOp(expr, _) => {
            lemma_follows(st, *expr);
        },
        Ast::BinaryOp(left, right, _) => {
            let l = analyze(st, *left);
            let r = analyze(l.0, *right);
            lemma_grows(st, *left);
            lemma_grows(l.0, *right);
            lemma_between(st, l.0, r.0);
            lemma_follows(st, *left);
            lemma_follows(l.0, *right);
            lemma_follows_chain(st, uses(l.1), l.0, uses(r.1), r.0);
        },
        Ast::TernaryOp(cond, then_, else_) => {
            let c = analyze(st, *cond);
            let t = analyze(c.0, *then_);
            let e = analyze(t.0, *else_);
            lemma_grows(st, *cond);
            lemma_grows(c.0, *then_);
            lemma_grows(t.0, *else_);
            lemma_grown_chain(c.0, t.0, e.0);
            lemma_between(st, c.0, e.0);
            lemma_between(c.0, t.0, e.0);
            lemma_follows(st, *cond);
            lemma_follows(c.0, *then_);
            lemma_follows(t.0, *else_);
            lemma_follows_chain(st, uses(c.1), c.0, uses(t.1), t.0);
            lemma_follows_chain(st, uses(c.1).union(uses(t.1)), t.0, uses(e.1), e.0);
        },
        _ => {},
    }
}

proof fn lemma_each_length(st: Scopes, nodes: Seq<Ast>, n: nat)
    requires
        n <= nodes.len(),
    ensures
        analyze_each(st, nodes, n).1.len() == n,
    decreases n,
{
    if n > 0 {
        lemma_each_length(st, nodes, (n - 1) as nat);
    }
}

proof fn lemma_follows_option(st: Scopes, node: Option<Box<Ast>>)
    requires
        analyzable_option(node),
        st.varmap.len() >= 2,
        analyze_option(st, node).0.varmap[0] == st.varmap[0],
    ensures
        follows(st, uses_option(analyze_option(st, node).1), analyze_option(st, node).0),
    decreases node, 1nat,
{
    match node {
        Some(e) => {
            lemma_follows(st, *e);
        },
        None => {},
    }
}

proof fn lemma_follows_target(st: Scopes, dst: Ast)
    requires
        assignable(dst),
        st.varmap.len() >= 2,
        analyze_target(st, dst).0.varmap[0] == st.varmap[0],
    ensures
        follows(st, uses(analyze_target(st, dst).1), analyze_target(st, dst).0),
    decreases dst, 1nat,
{
    match dst {
        Ast::Member(parent, _) => {
            lemma_follows(st, *parent);
        },
        Ast::Identifier(name) => {
            if !st.sees(name) {
                assert(!st.varmap[0].contains(name));
                assert(st.declare_global(name).varmap[0].contains(name));
            }
        },
        _ => {},
    }
}

proof fn lemma_follows_each(st: Scopes, nodes: Seq<Ast>, n: nat)
    requires
        n <= nodes.len(),
        analyzable_each(nodes, n),
        st.varmap.len() >= 2,
        analyze_each(st, nodes, n).0.varmap[0] == st.varmap[0],
    ensures
        follows(st, uses_each(analyze_each(st, nodes, n).1, n), analyze_each(st, nodes, n).0),
    decreases nodes, n,
{
    if n > 0 {
        let r = analyze_each(st, nodes, (n - 1) as nat);
        let a = analyze(r.0, nodes[n - 1]);
        let all = analyze_each(st, nodes, n);
        lemma_grows_each(st, nodes, (n - 1) as nat);
        lemma_grows(r.0, nodes[n - 1]);
        lemma_between(st, r.0, a.0);
        lemma_follows_each(st, nodes, (n - 1) as nat);
        lemma_follows(r.0, nodes[n - 1]);
        lemma_each_length(st, nodes, (n - 1) as nat);
        lemma_uses_each_same(r.1, all.1, (n - 1) as nat);
        lemma_follows_chain(st, uses_each(r.1, (n - 1) as nat), r.0, uses(a.1), a.0);
    }
}

proof fn lemma_follows_function(st: Scopes, name: Seq<char>, params: Seq<Param>, stmts: Seq<Ast>)
    requires
        analyzable_each(stmts, stmts.len()),
        st.varmap.len() >= 2,
        analyze_function(st, name, params, stmts).0.leave(st, name).varmap[0] == st.varmap[0],
    ensures
        follows(
            st,
            analyze_function(st, name, params, stmts).0.free(),
            analyze_function(st, name, params, stmts).0.leave(st, name),
        ),
        analyze_function(st, name, params, stmts).0.free() == uses_each(
            analyze_function(st, name, params, stmts).1,
            stmts.len(),
        ).difference(st.varmap[0]).difference(
            analyze_function(st, name, params, stmts).0.varmap.last(),
        ),
    decreases stmts, stmts.len() + 2,
{
    let e = st.enter(name, params);
    let b = analyze_body(e, stmts);
    lemma_grows_function(st, name, params, stmts);
    assert(b.0.varmap.len() == e.varmap.len());
    let left = b.0.leave(st, name);
    assert(left.varmap[0] == b.0.varmap[0]);
    assert(e.varmap[0] == st.varmap[0]);
    lemma_follows_body(e, stmts);
    let used = uses_each(b.1, stmts.len());
    assert(b.0.free() =~= used.difference(st.varmap[0]).difference(b.0.varmap.last()));
    assert forall|i: int| 0 <= i < st.varmap.len() - 1 implies left.varmap[i]
        == st.varmap[i] by {
        assert(b.0.varmap[i] == e.varmap[i]);
    }
    assert(b.0.varmap[st.varmap.len() - 1] == e.varmap[st.varmap.len() - 1]);
}

proof fn lemma_follows_body(st: Scopes, stmts: Seq<Ast>)
    requires
        analyzable_each(stmts, stmts.len()),
        st.varmap.len() >= 2,
        analyze_body(st, stmts).0.varmap[0] == st.varmap[0],
    ensures
        follows(st, uses_each(analyze_body(st, stmts).1, stmts.len()), analyze_body(st, stmts).0),
    decreases stmts, stmts.len() + 1,
{
    let n = stmts.len();
    let h = hoist_each(st, stmts, n);
    let p = analyze_plain(h.0, stmts, h.1, n);
    let d = analyze_decls(p.0, stmts, p.1, n);
    lemma_grows_hoist(st, stmts, n);
    lemma_grows_plain(h.0, stmts, h.1, n);
    lemma_grows_decls(p.0, stmts, p.1, n);
    lemma_grown_chain(h.0, p.0, d.0);
    lemma_between(st, h.0, d.0);
    lemma_between(h.0, p.0, d.0);
    lemma_hoist_length(st, stmts, n);
    lemma_plain_length(h.0, stmts, h.1, n);
    lemma_decls_length(p.0, stmts, p.1, n);
    lemma_follows_hoist(st, stmts, n);
    lemma_follows_plain(h.0, stmts, h.1, n);
    lemma_follows_decls(p.0, stmts, p.1, n);
    let plain = uses_where(p.1, stmts, n, false);
    let decls = uses_where(d.1, stmts, n, true);
    lemma_follows_chain(st, Set::empty(), h.0, plain, p.0);
    lemma_follows_chain(st, Set::<Seq<char>>::empty().union(plain), p.0, decls, d.0);
    assert forall|i: int| 0 <= i < n && !(stmts[i] is FunctionDecl) implies d.1[i] == p.1[i] by {
        lemma_shape_decls(p.0, stmts, p.1, n, i);
    }
    lemma_uses_where_same(d.1, p.1, stmts, n, false);
    lemma_uses_split(d.1, stmts, n);
    assert(Set::<Seq<char>>::empty().union(plain).union(decls) =~= uses_each(d.1, n));
}

proof fn lemma_follows_hoist(st: Scopes, stmts: Seq<Ast>, n: nat)
    requires
        st.varmap.len() >= 2,
    ensures
        follows(st, Set::empty(), hoist_each(st, stmts, n).0),
    decreases n,
{
    if n == 0 || n > stmts.len() {
    } else {
        lemma_follows_hoist(st, stmts, (n - 1) as nat);
        let r = hoist_each(st, stmts, (n - 1) as nat);
        let h = hoist(r.0, stmts[n - 1]);
        assert(follows(r.0, Set::empty(), h.0));
        lemma_follows_chain(st, Set::empty(), r.0, Set::empty(), h.0);
        assert(Set::<Seq<char>>::empty().union(Set::empty()) =~= Set::<Seq<char>>::empty());
    }
}

proof fn lemma_follows_plain(st: Scopes, stmts: Seq<Ast>, cur: Seq<Ast>, n: nat)
    requires
        n <= stmts.len(),
        n <= cur.len(),
        analyzable_each(stmts, n),
        st.varmap.len() >= 2,
        analyze_plain(st, stmts, cur, n).0.varmap[0] == st.varmap[0],
    ensures
        follows(
            st,
            uses_where(analyze_plain(st, stmts, cur, n).1, stmts, n, false),
            analyze_plain(st, stmts, cur, n).0,
        ),
    decreases stmts, n,
{
    if n > 0 {
        let r = analyze_plain(st, stmts, cur, (n - 1) as nat);
        let all = analyze_plain(st, stmts, cur, n);
        lemma_analyzable_at(stmts, n, n - 1);
        lemma_analyzable_fewer(stmts, n, (n - 1) as nat);
        lemma_grows_plain(st, stmts, cur, (n - 1) as nat);
        lemma_plain_length(st, stmts, cur, (n - 1) as nat);
        lemma_plain_length(st, stmts, cur, n);
        if stmts[n - 1] is FunctionDecl {
            lemma_follows_plain(st, stmts, cur, (n - 1) as nat);
            lemma_uses_where_same(r.1, all.1, stmts, (n - 1) as nat, false);
        } else {
            let a = analyze(r.0, stmts[n - 1]);
            lemma_grows(r.0, stmts[n - 1]);
            lemma_between(st, r.0, a.0);
            lemma_follows_plain(st, stmts, cur, (n - 1) as nat);
            lemma_follows(r.0, stmts[n - 1]);
            lemma_uses_where_same(r.1, all.1, stmts, (n - 1) as nat, false);
            lemma_follows_chain(
                st,
                uses_where(r.1, stmts, (n - 1) as nat, false),
                r.0,
                uses(a.1),
                a.0,
            );
        }
    }
}

proof fn lemma_follows_decls(st: Scopes, stmts: Seq<Ast>, cur: Seq<Ast>, n: nat)
    requires
        n <= stmts.len(),
        n <= cur.len(),
        analyzable_each(stmts, n),
        st.varmap.len() >= 2,
        analyze_decls(st, stmts, cur, n).0.varmap[0] == st.varmap[0],
    ensures
        follows(
            st,
            uses_where(analyze_decls(st, stmts, cur, n).1, stmts, n, true),
            analyze_decls(st, stmts, cur, n).0,
        ),
    decreases stmts, n,
{
    if n > 0 {
        let r = analyze_decls(st, stmts, cur, (n - 1) as nat);
        let all = analyze_decls(st, stmts, cur, n);
        lemma_analyzable_at(stmts, n, n - 1);
        lemma_analyzable_fewer(stmts, n, (n - 1) as nat);
        lemma_grows_decls(st, stmts, cur, (n - 1) as nat);
        lemma_grows_decls(st, stmts, cur, n);
        lemma_decls_length(st, stmts, cur, (n - 1) as nat);
        lemma_decls_length(st, stmts, cur, n);
        match stmts[n - 1] {
            Ast::FunctionDecl(_, _, _, params, body) => match *body {
                Ast::StatementList(inner) => {
                    let name = cur[n - 1]->FunctionDecl_0;
                    let f = analyze_function(r.0, name, params, inner);
                    let left = f.0.leave(r.0, name);
                    assert(analyzable(*body));
                    assert(all.0 == left);
                    lemma_grows_function(r.0, name, params, inner);
                    lemma_between(st, r.0, left);
                    lemma_follows_decls(st, stmts, cur, (n - 1) as nat);
                    lemma_follows_function(r.0, name, params, inner);
                    lemma_uses_where_same(r.1, all.1, stmts, (n - 1) as nat, true);
                    assert(uses(all.1[n - 1]) == f.0.free());
                    lemma_follows_chain(
                        st,
                        uses_where(r.1, stmts, (n - 1) as nat, true),
                        r.0,
                        f.0.free(),
                        left,
                    );
                },
                _ => {},
            },
            _ => {
                lemma_follows_decls(st, stmts, cur, (n - 1) as nat);
                lemma_uses_where_same(r.1, all.1, stmts, (n - 1) as nat, true);
            },
        }
    }
}

/// Free variables of a function, in general.
///
/// Let the analysis of a function declare no global (an assignment to a
/// name that no scope declares would). Then the free-variable set that the
/// analysis records for the function is the set of the names that its body
/// then uses and that are neither global nor declared in the function: the
/// identifiers that the body refers to or assigns to outside the functions
/// nested in it, as they are after the renaming, and the free names of the
/// functions nested in it. What the function declares are its own name, its
/// parameters, its variables and the functions declared in it, as
/// `law_free_variables_are_not_declared` says.
pub proof fn law_free_variables_in_general(
    st: Scopes,
    name: Seq<char>,
    params: Seq<Param>,
    stmts: Seq<Ast>,
)
    requires
        st.varmap.len() >= 1,
        analyzable_each(stmts, stmts.len()),
        analyze_function(st, name, params, stmts).0.varmap[0] == st.varmap[0],
    ensures
        analyze_function(st, name, params, stmts).0.free() == uses_each(
            analyze_function(st, name, params, stmts).1,
            stmts.len(),
        ).difference(st.varmap[0]).difference(scope_at_leave(st, name, params, stmts)),
{
    let e = st.enter(name, params);
    let b = analyze_body(e, stmts);
    assert(e.varmap[0] == st.varmap[0]);
    lemma_follows_body(e, stmts);
    assert(b.0.free() =~= uses_each(b.1, stmts.len()).difference(st.varmap[0]).difference(
        b.0.varmap.last(),
    ));
}

} // verus!
