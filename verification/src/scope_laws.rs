//! Laws of the scope analysis.

use crate::node::{Ast, Param};
use crate::scopes::{
    analyze, analyze_body, analyze_decls, analyze_each, analyze_function, analyze_option,
    analyze_plain, analyze_target, hoist, hoist_each, Scopes,
};
use crate::text::mangled;
use vstd::prelude::*;

verus! {

/// Hoisting changes only the renaming map of the innermost function.
proof fn lemma_hoist_keeps_outer(st: Scopes, stmts: Seq<Ast>, n: nat)
    requires
        st.mangled.len() >= 1,
    ensures
        hoist_each(st, stmts, n).0.mangled.len() == st.mangled.len(),
        hoist_each(st, stmts, n).0.mangled.drop_last() == st.mangled.drop_last(),
    decreases n,
{
    if n == 0 || n > stmts.len() {
    } else {
        lemma_hoist_keeps_outer(st, stmts, (n - 1) as nat);
        let r = hoist_each(st, stmts, (n - 1) as nat);
        let h = hoist(r.0, stmts[n - 1]);
        assert(h.0.mangled.len() == r.0.mangled.len());
        assert(h.0.mangled.drop_last() =~= r.0.mangled.drop_last());
    }
}

proof fn lemma_stable(st: Scopes, node: Ast)
    ensures
        analyze(st, node).0.mangled == st.mangled,
    decreases node, 0nat,
{
    match node {
        Ast::StatementList(nodes) => {
            lemma_stable_each(st, nodes, nodes.len());
        },
        Ast::FunctionDecl(name, _, _, params, body) => match *body {
            Ast::StatementList(stmts) => {
                lemma_stable_function(st, name, params, stmts);
            },
            _ => {},
        },
        Ast::Call(callee, args) => {
            lemma_stable(st, *callee);
            lemma_stable_each(analyze(st, *callee).0, args, args.len());
        },
        Ast::VarDecl(name, init) => {
            lemma_stable_option(st.declare(name), init);
        },
        Ast::Return(val) => {
            lemma_stable_option(st, val);
        },
        Ast::Member(parent, _) => {
            lemma_stable(st, *parent);
        },
        Ast::If(cond, then_, else_) => {
            lemma_stable(st, *cond);
            let c = analyze(st, *cond);
            lemma_stable(c.0, *then_);
            let t = analyze(c.0, *then_);
            lemma_stable(t.0, *else_);
        },
        Ast::While(cond, body) => {
            lemma_stable(st, *cond);
            lemma_stable(analyze(st, *cond).0, *body);
        },
        Ast::Assign(dst, src) => {
            lemma_stable_target(st, *dst);
            lemma_stable(analyze_target(st, *dst).0, *src);
        },
        Ast::UnaryOp(expr, _) => {
            lemma_stable(st, *expr);
        },
        Ast::BinaryOp(left, right, _) => {
            lemma_stable(st, *left);
            lemma_stable(analyze(st, *left).0, *right);
        },
        Ast::TernaryOp(cond, then_, else_) => {
            lemma_stable(st, *cond);
            let c = analyze(st, *cond);
            lemma_stable(c.0, *then_);
            let t = analyze(c.0, *then_);
            lemma_stable(t.0, *else_);
        },
        _ => {},
    }
}

proof fn lemma_stable_option(st: Scopes, node: Option<Box<Ast>>)
    ensures
        analyze_option(st, node).0.mangled == st.mangled,
    decreases node, 1nat,
{
    match node {
        Some(e) => {
            lemma_stable(st, *e);
        },
        None => {},
    }
}

proof fn lemma_stable_target(st: Scopes, dst: Ast)
    ensures
        analyze_target(st, dst).0.mangled == st.mangled,
    decreases dst, 1nat,
{
    match dst {
        Ast::Member(parent, _) => {
            lemma_stable(st, *parent);
        },
        _ => {},
    }
}

proof fn lemma_stable_each(st: Scopes, nodes: Seq<Ast>, n: nat)
    ensures
        analyze_each(st, nodes, n).0.mangled == st.mangled,
    decreases nodes, n,
{
    if n == 0 || n > nodes.len() {
    } else {
        lemma_stable_each(st, nodes, (n - 1) as nat);
        lemma_stable(analyze_each(st, nodes, (n - 1) as nat).0, nodes[n - 1]);
    }
}

proof fn lemma_stable_function(
    st: Scopes,
    name: Seq<char>,
    params: Seq<Param>,
    stmts: Seq<Ast>,
)
    ensures
        analyze_function(st, name, params, stmts).0.mangled.len() == st.mangled.len() + 1,
        analyze_function(st, name, params, stmts).0.mangled.drop_last() == st.mangled,
    decreases stmts, stmts.len() + 2,
{
    let e = st.enter(name, params);
    lemma_stable_body(e, stmts);
    assert(e.mangled.drop_last() =~= st.mangled);
}

proof fn lemma_stable_body(st: Scopes, stmts: Seq<Ast>)
    requires
        st.mangled.len() >= 1,
    ensures
        analyze_body(st, stmts).0.mangled.len() == st.mangled.len(),
        analyze_body(st, stmts).0.mangled.drop_last() == st.mangled.drop_last(),
    decreases stmts, stmts.len() + 1,
{
    lemma_hoist_keeps_outer(st, stmts, stmts.len());
    let h = hoist_each(st, stmts, stmts.len());
    lemma_stable_plain(h.0, stmts, h.1, stmts.len());
    let p = analyze_plain(h.0, stmts, h.1, stmts.len());
    lemma_stable_decls(p.0, stmts, p.1, stmts.len());
}

proof fn lemma_stable_plain(st: Scopes, stmts: Seq<Ast>, cur: Seq<Ast>, n: nat)
    ensures
        analyze_plain(st, stmts, cur, n).0.mangled == st.mangled,
    decreases stmts, n,
{
    if n == 0 || n > stmts.len() {
    } else {
        lemma_stable_plain(st, stmts, cur, (n - 1) as nat);
        if !(stmts[n - 1] is FunctionDecl) {
            lemma_stable(
                analyze_plain(st, stmts, cur, (n - 1) as nat).0,
                stmts[n - 1],
            );
        }
    }
}

proof fn lemma_stable_decls(st: Scopes, stmts: Seq<Ast>, cur: Seq<Ast>, n: nat)
    ensures
        analyze_decls(st, stmts, cur, n).0.mangled == st.mangled,
    decreases stmts, n,
{
    if n == 0 || n > stmts.len() {
    } else {
        lemma_stable_decls(st, stmts, cur, (n - 1) as nat);
        let r = analyze_decls(st, stmts, cur, (n - 1) as nat);
        match stmts[n - 1] {
            Ast::FunctionDecl(_, _, _, params, body) => match *body {
                Ast::StatementList(inner) => {
                    lemma_stable_function(r.0, cur[n - 1]->FunctionDecl_0, params, inner);
                },
                _ => {},
            },
            _ => {},
        }
    }
}

/// What a reference is rewritten to depends only on the renaming maps and
/// on which scopes declare the name.
proof fn lemma_resolve_same(a: Scopes, b: Scopes, name: Seq<char>, depth: nat)
    requires
        depth <= a.mangled.len(),
        depth <= b.mangled.len(),
        depth < a.varmap.len(),
        depth < b.varmap.len(),
        forall|i: int| 0 <= i < depth ==> a.mangled[i] == b.mangled[i],
        forall|i: int| 1 <= i <= depth ==> a.varmap[i].contains(name) == b.varmap[i].contains(name),
    ensures
        a.resolve_from(name, depth) == b.resolve_from(name, depth),
    decreases depth,
{
    if depth > 0 {
        lemma_resolve_same(a, b, name, (depth - 1) as nat);
        assert(a.mangled[depth - 1] == b.mangled[depth - 1]);
        assert(a.varmap[depth as int].contains(name) == b.varmap[depth as int].contains(name));
    }
}

/// Whether no enclosing function has given a new name to any function.
pub open spec fn unrenamed(st: Scopes) -> bool {
    forall|i: int, name: Seq<char>|
        0 <= i < st.mangled.len() ==> !(#[trigger] st.mangled[i].contains_key(name))
}

proof fn lemma_resolve_unrenamed(st: Scopes, name: Seq<char>, depth: nat)
    requires
        unrenamed(st),
    ensures
        st.resolve_from(name, depth) == name,
    decreases depth,
{
    if depth > 0 && depth <= st.mangled.len() {
        assert(!st.mangled[depth - 1].contains_key(name));
        lemma_resolve_unrenamed(st, name, (depth - 1) as nat);
    }
}

/// Hoisting gives a nested function its new name: inside a function, a
/// declaration called `name` gets the name `<name>.<number>`, with the next
/// number of the generator, and from then on references to `name` are
/// rewritten to that name; what references to other names are rewritten to
/// does not change.
pub proof fn law_hoisting_renames(st: Scopes, node: Ast, other: Seq<char>)
    requires
        node is FunctionDecl,
        st.varmap.len() >= 2,
        st.mangled.len() + 1 == st.varmap.len(),
    ensures
        hoist(st, node).1 is FunctionDecl,
        hoist(st, node).1->FunctionDecl_0 == mangled(node->FunctionDecl_0, st.rng.output()),
        hoist(st, node).0.resolve(node->FunctionDecl_0) == hoist(st, node).1->FunctionDecl_0,
        other != node->FunctionDecl_0 ==> hoist(st, node).0.resolve(other) == st.resolve(other),
{
    let h = hoist(st, node).0;
    let name = node->FunctionDecl_0;
    let depth = st.mangled.len();
    assert(h.mangled[depth - 1].contains_key(name));
    if other != name {
        lemma_resolve_same(h, st, other, (depth - 1) as nat);
        assert(h.mangled[depth - 1].contains_key(other) == st.mangled[depth - 1].contains_key(
            other,
        ));
        assert(h.varmap[depth as int].contains(other) == st.varmap[depth as int].contains(other));
    }
}

/// A nested function sees the renaming of the functions around it: on entry
/// to a function, a name that is neither the function's own nor one of its
/// parameters is rewritten as it is outside the function. So a reference to
/// a renamed function follows the renaming from inside its siblings too.
pub proof fn law_renaming_reaches_nested_functions(
    st: Scopes,
    name: Seq<char>,
    params: Seq<Param>,
    other: Seq<char>,
)
    requires
        st.mangled.len() + 1 == st.varmap.len(),
        other != name,
        !crate::scopes::param_names(params).contains(other),
    ensures
        st.enter(name, params).resolve(other) == st.resolve(other),
{
    let e = st.enter(name, params);
    let depth = st.mangled.len();
    assert(!e.mangled[depth as int].contains_key(other));
    assert(!e.varmap[depth as int + 1].contains(other));
    lemma_resolve_same(e, st, other, depth);
}

/// References follow the renaming, and nothing else rewrites them: a
/// reference to `name`, and a bare assignment to it, become a reference and
/// an assignment to the name that the renaming gives for `name`.
pub proof fn law_references_follow_renaming(st: Scopes, name: Seq<char>)
    ensures
        analyze(st, Ast::Identifier(name)).1 == Ast::Identifier(st.resolve(name)),
        analyze_target(st, Ast::Identifier(name)).1 == Ast::Identifier(st.resolve(name)),
        unrenamed(st) ==> st.resolve(name) == name,
{
    if unrenamed(st) {
        lemma_resolve_unrenamed(st, name, st.mangled.len());
    }
}

/// The renaming maps are the same after the analysis of any tree as before
/// it: every reference in the body of a function, to whatever depth of
/// statements it stands, is rewritten by the map that hoisting made for that
/// body, so that all references to one function get the same new name.
pub proof fn law_renaming_is_stable(st: Scopes, node: Ast)
    ensures
        analyze(st, node).0.mangled == st.mangled,
{
    lemma_stable(st, node);
}

/// The same for the statements of a body: each statement that is no
/// declaration is analyzed under the renaming maps that hoisting left.
pub proof fn law_body_sees_one_renaming(
    st: Scopes,
    stmts: Seq<Ast>,
    cur: Seq<Ast>,
    n: nat,
)
    ensures
        analyze_plain(st, stmts, cur, n).0.mangled == st.mangled,
{
    lemma_stable_plain(st, stmts, cur, n);
}

/// Whether no part of `node` declares a function, and every bare identifier
/// that a part of it assigns to is one of `seen`.
pub open spec fn simple(node: Ast, seen: Set<Seq<char>>) -> bool
    decreases node, 0nat,
{
    match node {
        Ast::StatementList(nodes) => simple_each(nodes, nodes.len(), seen),
        Ast::FunctionDecl(_, _, _, _, _) => false,
        Ast::Call(callee, args) => simple(*callee, seen) && simple_each(args, args.len(), seen),
        Ast::VarDecl(_, init) => simple_option(init, seen),
        Ast::Return(val) => simple_option(val, seen),
        Ast::Member(parent, _) => simple(*parent, seen),
        Ast::If(cond, then_, else_) => simple(*cond, seen) && simple(*then_, seen) && simple(*else_, seen),
        Ast::While(cond, body) => simple(*cond, seen) && simple(*body, seen),
        Ast::Assign(dst, src) => (match *dst {
            Ast::Member(parent, _) => simple(*parent, seen),
            Ast::Identifier(name) => seen.contains(name),
            _ => false,
        }) && simple(*src, seen),
        Ast::UnaryOp(expr, _) => simple(*expr, seen),
        Ast::BinaryOp(left, right, _) => simple(*left, seen) && simple(*right, seen),
        Ast::TernaryOp(cond, then_, else_) => simple(*cond, seen) && simple(*then_, seen) && simple(*else_, seen),
        _ => true,
    }
}

/// Whether the first `n` trees of `nodes` are all simple.
pub open spec fn simple_each(nodes: Seq<Ast>, n: nat, seen: Set<Seq<char>>) -> bool
    decreases nodes, n,
{
    if n == 0 || n > nodes.len() {
        true
    } else {
        simple_each(nodes, (n - 1) as nat, seen) && simple(nodes[n - 1], seen)
    }
}

/// Whether an optional tree is absent or simple.
pub open spec fn simple_option(node: Option<Box<Ast>>, seen: Set<Seq<char>>) -> bool
    decreases node, 1nat,
{
    match node {
        Some(e) => simple(*e, seen),
        None => true,
    }
}

/// The identifiers that `node` refers to or assigns to.
pub open spec fn refers(node: Ast) -> Set<Seq<char>>
    decreases node, 0nat,
{
    match node {
        Ast::StatementList(nodes) => refers_each(nodes, nodes.len()),
        Ast::Call(callee, args) => refers(*callee).union(refers_each(args, args.len())),
        Ast::VarDecl(_, init) => refers_option(init),
        Ast::Return(val) => refers_option(val),
        Ast::Member(parent, _) => refers(*parent),
        Ast::Identifier(name) => set![name],
        Ast::If(cond, then_, else_) => refers(*cond).union(refers(*then_)).union(refers(*else_)),
        Ast::While(cond, body) => refers(*cond).union(refers(*body)),
        Ast::Assign(dst, src) => (match *dst {
            Ast::Member(parent, _) => refers(*parent),
            Ast::Identifier(name) => set![name],
            _ => Set::empty(),
        }).union(refers(*src)),
        Ast::UnaryOp(expr, _) => refers(*expr),
        Ast::BinaryOp(left, right, _) => refers(*left).union(refers(*right)),
        Ast::TernaryOp(cond, then_, else_) => refers(*cond).union(refers(*then_)).union(
            refers(*else_),
        ),
        _ => Set::empty(),
    }
}

/// The identifiers that the first `n` trees of `nodes` refer to.
pub open spec fn refers_each(nodes: Seq<Ast>, n: nat) -> Set<Seq<char>>
    decreases nodes, n,
{
    if n == 0 || n > nodes.len() {
        Set::empty()
    } else {
        refers_each(nodes, (n - 1) as nat).union(refers(nodes[n - 1]))
    }
}

/// The identifiers that an optional tree refers to.
pub open spec fn refers_option(node: Option<Box<Ast>>) -> Set<Seq<char>>
    decreases node, 1nat,
{
    match node {
        Some(e) => refers(*e),
        None => Set::empty(),
    }
}

/// The names that `node` declares as variables.
pub open spec fn declares(node: Ast) -> Set<Seq<char>>
    decreases node, 0nat,
{
    match node {
        Ast::StatementList(nodes) => declares_each(nodes, nodes.len()),
        Ast::Call(callee, args) => declares(*callee).union(declares_each(args, args.len())),
        Ast::VarDecl(name, init) => declares_option(init).insert(name),
        Ast::Return(val) => declares_option(val),
        Ast::Member(parent, _) => declares(*parent),
        Ast::If(cond, then_, else_) => declares(*cond).union(declares(*then_)).union(
            declares(*else_),
        ),
        Ast::While(cond, body) => declares(*cond).union(declares(*body)),
        Ast::Assign(dst, src) => (match *dst {
            Ast::Member(parent, _) => declares(*parent),
            _ => Set::empty(),
        }).union(declares(*src)),
        Ast::UnaryOp(expr, _) => declares(*expr),
        Ast::BinaryOp(left, right, _) => declares(*left).union(declares(*right)),
        Ast::TernaryOp(cond, then_, else_) => declares(*cond).union(declares(*then_)).union(
            declares(*else_),
        ),
        _ => Set::empty(),
    }
}

/// The names that the first `n` trees of `nodes` declare as variables.
pub open spec fn declares_each(nodes: Seq<Ast>, n: nat) -> Set<Seq<char>>
    decreases nodes, n,
{
    if n == 0 || n > nodes.len() {
        Set::empty()
    } else {
        declares_each(nodes, (n - 1) as nat).union(declares(nodes[n - 1]))
    }
}

/// The names that an optional tree declares as variables.
pub open spec fn declares_option(node: Option<Box<Ast>>) -> Set<Seq<char>>
    decreases node, 1nat,
{
    match node {
        Some(e) => declares(*e),
        None => Set::empty(),
    }
}

/// Whether the state `after` is the state `before` after the analysis,
/// inside a function without nested functions, of trees that refer to the
/// identifiers `refs` and declare the variables `decls`:
/// the declared variables have joined the innermost scope; the free names
/// have grown, by references to names that are not global only, and by every
/// reference to a name that by now is neither global nor declared.
pub open spec fn tracks(
    before: Scopes,
    refs: Set<Seq<char>>,
    decls: Set<Seq<char>>,
    after: Scopes,
) -> bool {
    &&& after.varmap.len() == before.varmap.len()
    &&& forall|i: int| 0 <= i < before.varmap.len() - 1 ==> after.varmap[i] == before.varmap[i]
    &&& after.varmap.last() == before.varmap.last().union(decls)
    &&& after.mangled == before.mangled
    &&& after.rng == before.rng
    &&& before.cur_fv.subset_of(after.cur_fv)
    &&& after.cur_fv.subset_of(before.cur_fv.union(refs.difference(before.varmap[0])))
    &&& refs.difference(before.varmap[0]).difference(after.varmap.last()).subset_of(after.cur_fv)
}

/// Whether `st` is a state inside a function that has given no function a
/// new name.
pub open spec fn inside_plain_function(st: Scopes) -> bool {
    &&& st.varmap.len() >= 2
    &&& st.mangled.len() + 1 == st.varmap.len()
    &&& unrenamed(st)
}

/// Whether some scope of `st` declares each of the names `seen`.
pub open spec fn seen_in(st: Scopes, seen: Set<Seq<char>>) -> bool {
    forall|name: Seq<char>| seen.contains(name) ==> #[trigger] st.sees(name)
}

proof fn lemma_tracks_sees(
    a: Scopes,
    refs: Set<Seq<char>>,
    decls: Set<Seq<char>>,
    b: Scopes,
    seen: Set<Seq<char>>,
)
    requires
        a.varmap.len() >= 1,
        tracks(a, refs, decls, b),
        seen_in(a, seen),
    ensures
        seen_in(b, seen),
{
    assert forall|name: Seq<char>| seen.contains(name) implies #[trigger] b.sees(name) by {
        assert(a.sees(name));
        let i = choose|i: int| 0 <= i < a.varmap.len() && #[trigger] a.varmap[i].contains(name);
        if i < a.varmap.len() - 1 {
            assert(b.varmap[i] == a.varmap[i]);
            assert(b.varmap[i].contains(name));
        } else {
            assert(b.varmap[i].contains(name));
        }
    }
}

proof fn lemma_tracks_chain(
    a: Scopes,
    r1: Set<Seq<char>>,
    d1: Set<Seq<char>>,
    b: Scopes,
    r2: Set<Seq<char>>,
    d2: Set<Seq<char>>,
    c: Scopes,
)
    requires
        a.varmap.len() >= 2,
        tracks(a, r1, d1, b),
        tracks(b, r2, d2, c),
    ensures
        tracks(a, r1.union(r2), d1.union(d2), c),
{
    assert(b.varmap[0] == a.varmap[0]);
    assert(c.varmap.last() =~= a.varmap.last().union(d1.union(d2)));
}

proof fn lemma_tracks_nothing(a: Scopes, b: Scopes)
    requires
        b.varmap == a.varmap,
        b.mangled == a.mangled,
        b.rng == a.rng,
        b.cur_fv == a.cur_fv,
    ensures
        tracks(a, Set::empty(), Set::empty(), b),
{
    assert(a.varmap.last().union(Set::<Seq<char>>::empty()) =~= a.varmap.last());
}

proof fn lemma_simple(st: Scopes, node: Ast, seen: Set<Seq<char>>)
    requires
        simple(node, seen),
        inside_plain_function(st),
        seen_in(st, seen),
    ensures
        seen_in(analyze(st, node).0, seen),
        analyze(st, node).1 == node,
        tracks(st, refers(node), declares(node), analyze(st, node).0),
    decreases node, 0nat,
{
    let r = analyze(st, node);
    match node {
        Ast::StatementList(nodes) => {
            lemma_simple_each(st, nodes, nodes.len(), seen);
            assert(nodes.take(nodes.len() as int) =~= nodes);
        },
        Ast::Call(callee, args) => {
            lemma_simple(st, *callee, seen);
            let c = analyze(st, *callee);
            lemma_simple_each(c.0, args, args.len(), seen);
            let a = analyze_each(c.0, args, args.len());
            lemma_tracks_chain(
                st,
                refers(*callee),
                declares(*callee),
                c.0,
                refers_each(args, args.len()),
                declares_each(args, args.len()),
                a.0,
            );
            assert(args.take(args.len() as int) =~= args);
        },
        Ast::VarDecl(name, init) => {
            let d = st.declare(name);
            assert(d.varmap.last() =~= st.varmap.last().union(set![name]));
            assert(tracks(st, Set::empty(), set![name], d));
            lemma_tracks_sees(st, Set::empty(), set![name], d, seen);
            lemma_simple_option(d, init, seen);
            let i = analyze_option(d, init);
            lemma_tracks_chain(
                st,
                Set::empty(),
                set![name],
                d,
                refers_option(init),
                declares_option(init),
                i.0,
            );
            assert(Set::<Seq<char>>::empty().union(refers_option(init)) =~= refers_option(init));
            assert(set![name].union(declares_option(init)) =~= declares_option(init).insert(name));
        },
        Ast::Return(val) => {
            lemma_simple_option(st, val, seen);
        },
        Ast::Member(parent, _) => {
            lemma_simple(st, *parent, seen);
        },
        Ast::This => {
            lemma_tracks_nothing(st, r.0);
        },
        Ast::Identifier(name) => {
            lemma_resolve_unrenamed(st, name, st.mangled.len());
            assert(st.resolve(name) == name);
            assert(st.varmap.last().union(Set::<Seq<char>>::empty()) =~= st.varmap.last());
        },
        Ast::If(cond, then_, else_) => {
            lemma_simple(st, *cond, seen);
            let a = analyze(st, *cond);
            lemma_simple(a.0, *then_, seen);
            let b = analyze(a.0, *then_);
            lemma_tracks_chain(
                st,
                refers(*cond),
                declares(*cond),
                a.0,
                refers(*then_),
                declares(*then_),
                b.0,
            );
            lemma_simple(b.0, *else_, seen);
            let c = analyze(b.0, *else_);
            lemma_tracks_chain(
                st,
                refers(*cond).union(refers(*then_)),
                declares(*cond).union(declares(*then_)),
                b.0,
                refers(*else_),
                declares(*else_),
                c.0,
            );
        },
        Ast::While(cond, body) => {
            lemma_simple(st, *cond, seen);
            let a = analyze(st, *cond);
            lemma_simple(a.0, *body, seen);
            let b = analyze(a.0, *body);
            lemma_tracks_chain(
                st,
                refers(*cond),
                declares(*cond),
                a.0,
                refers(*body),
                declares(*body),
                b.0,
            );
        },
        Ast::Assign(dst, src) => {
            match *dst {
                Ast::Member(parent, member) => {
                    lemma_simple(st, *parent, seen);
                    let p = analyze(st, *parent);
                    assert(analyze_target(st, *dst) == (p.0, *dst));
                    lemma_simple(p.0, *src, seen);
                    let s = analyze(p.0, *src);
                    lemma_tracks_chain(
                        st,
                        refers(*parent),
                        declares(*parent),
                        p.0,
                        refers(*src),
                        declares(*src),
                        s.0,
                    );
                },
                Ast::Identifier(name) => {
                    lemma_resolve_unrenamed(st, name, st.mangled.len());
                    assert(st.resolve(name) == name);
                    assert(st.sees(name));
                    let t = analyze_target(st, *dst);
                    assert(t.1 == *dst);
                    assert(st.varmap.last().union(Set::<Seq<char>>::empty()) =~= st.varmap.last());
                    assert(tracks(st, set![name], Set::empty(), t.0));
                    lemma_tracks_sees(st, set![name], Set::empty(), t.0, seen);
                    lemma_simple(t.0, *src, seen);
                    let s = analyze(t.0, *src);
                    lemma_tracks_chain(
                        st,
                        set![name],
                        Set::empty(),
                        t.0,
                        refers(*src),
                        declares(*src),
                        s.0,
                    );
                    assert(Set::<Seq<char>>::empty().union(declares(*src)) =~= declares(*src));
                },
                _ => {},
            }
        },
        Ast::UnaryOp(expr, _) => {
            lemma_simple(st, *expr, seen);
        },
        Ast::BinaryOp(left, right, _) => {
            lemma_simple(st, *left, seen);
            let a = analyze(st, *left);
            lemma_simple(a.0, *right, seen);
            let b = analyze(a.0, *right);
            lemma_tracks_chain(
                st,
                refers(*left),
                declares(*left),
                a.0,
                refers(*right),
                declares(*right),
                b.0,
            );
        },
        Ast::TernaryOp(cond, then_, else_) => {
            lemma_simple(st, *cond, seen);
            let a = analyze(st, *cond);
            lemma_simple(a.0, *then_, seen);
            let b = analyze(a.0, *then_);
            lemma_tracks_chain(
                st,
                refers(*cond),
                declares(*cond),
                a.0,
                refers(*then_),
                declares(*then_),
                b.0,
            );
            lemma_simple(b.0, *else_, seen);
            let c = analyze(b.0, *else_);
            lemma_tracks_chain(
                st,
                refers(*cond).union(refers(*then_)),
                declares(*cond).union(declares(*then_)),
                b.0,
                refers(*else_),
                declares(*else_),
                c.0,
            );
        },
        _ => {
            lemma_tracks_nothing(st, r.0);
        },
    }
    lemma_tracks_sees(st, refers(node), declares(node), r.0, seen);
}

proof fn lemma_simple_option(st: Scopes, node: Option<Box<Ast>>, seen: Set<Seq<char>>)
    requires
        simple_option(node, seen),
        inside_plain_function(st),
        seen_in(st, seen),
    ensures
        seen_in(analyze_option(st, node).0, seen),
        analyze_option(st, node).1 == node,
        tracks(st, refers_option(node), declares_option(node), analyze_option(st, node).0),
    decreases node, 1nat,
{
    match node {
        Some(e) => {
            lemma_simple(st, *e, seen);
        },
        None => {
            lemma_tracks_nothing(st, st);
        },
    }
    lemma_tracks_sees(
        st,
        refers_option(node),
        declares_option(node),
        analyze_option(st, node).0,
        seen,
    );
}

proof fn lemma_simple_each(st: Scopes, nodes: Seq<Ast>, n: nat, seen: Set<Seq<char>>)
    requires
        n <= nodes.len(),
        simple_each(nodes, n, seen),
        inside_plain_function(st),
        seen_in(st, seen),
    ensures
        seen_in(analyze_each(st, nodes, n).0, seen),
        analyze_each(st, nodes, n).1 == nodes.take(n as int),
        tracks(
            st,
            refers_each(nodes, n),
            declares_each(nodes, n),
            analyze_each(st, nodes, n).0,
        ),
    decreases nodes, n,
{
    if n == 0 {
        lemma_tracks_nothing(st, st);
        assert(nodes.take(0) =~= Seq::<Ast>::empty());
    } else {
        lemma_simple_each(st, nodes, (n - 1) as nat, seen);
        let r = analyze_each(st, nodes, (n - 1) as nat);
        lemma_simple(r.0, nodes[n - 1], seen);
        let a = analyze(r.0, nodes[n - 1]);
        lemma_tracks_chain(
            st,
            refers_each(nodes, (n - 1) as nat),
            declares_each(nodes, (n - 1) as nat),
            r.0,
            refers(nodes[n - 1]),
            declares(nodes[n - 1]),
            a.0,
        );
        assert(nodes.take(n as int) =~= nodes.take(n - 1).push(nodes[n - 1]));
    }
    lemma_tracks_sees(
        st,
        refers_each(nodes, n),
        declares_each(nodes, n),
        analyze_each(st, nodes, n).0,
        seen,
    );
}

proof fn lemma_hoist_nothing(st: Scopes, stmts: Seq<Ast>, n: nat, seen: Set<Seq<char>>)
    requires
        n <= stmts.len(),
        simple_each(stmts, n, seen),
    ensures
        hoist_each(st, stmts, n) == (st, stmts.take(n as int)),
    decreases n,
{
    if n == 0 {
        assert(stmts.take(0) =~= Seq::<Ast>::empty());
    } else {
        lemma_hoist_nothing(st, stmts, (n - 1) as nat, seen);
        assert(simple(stmts[n - 1], seen));
        assert(!(stmts[n - 1] is FunctionDecl));
        assert(stmts.take(n as int) =~= stmts.take(n - 1).push(stmts[n - 1]));
    }
}

proof fn lemma_plain_is_each(st: Scopes, stmts: Seq<Ast>, cur: Seq<Ast>, n: nat, seen: Set<Seq<char>>)
    requires
        n <= stmts.len(),
        simple_each(stmts, n, seen),
    ensures
        analyze_plain(st, stmts, cur, n) == analyze_each(st, stmts, n),
    decreases n,
{
    if n > 0 {
        lemma_plain_is_each(st, stmts, cur, (n - 1) as nat, seen);
        assert(simple(stmts[n - 1], seen));
        assert(!(stmts[n - 1] is FunctionDecl));
    }
}

proof fn lemma_decls_nothing(st: Scopes, stmts: Seq<Ast>, cur: Seq<Ast>, n: nat, seen: Set<Seq<char>>)
    requires
        n <= stmts.len(),
        n <= cur.len(),
        simple_each(stmts, n, seen),
    ensures
        analyze_decls(st, stmts, cur, n) == (st, cur.take(n as int)),
    decreases n,
{
    if n == 0 {
        assert(cur.take(0) =~= Seq::<Ast>::empty());
    } else {
        lemma_decls_nothing(st, stmts, cur, (n - 1) as nat, seen);
        assert(simple(stmts[n - 1], seen));
        assert(!(stmts[n - 1] is FunctionDecl));
        assert(cur.take(n as int) =~= cur.take(n - 1).push(cur[n - 1]));
    }
}

/// Free variables of a function without nested functions.
///
/// Let a function that is not nested in a function that renames one have a
/// body that declares no function, and that assigns to a bare identifier
/// only where some scope declares it when the function is entered (an
/// assignment to an undeclared name declares a global). Then the
/// free-variable set that the analysis records for it, whatever
/// was analyzed before it, is the set of the identifiers that its body
/// refers to and that are neither its own name, nor one of its parameters,
/// nor a variable that its body declares, nor global; and the analysis
/// leaves its statements as they are.
pub proof fn law_free_variables(
    st: Scopes,
    name: Seq<char>,
    params: Seq<Param>,
    stmts: Seq<Ast>,
    seen: Set<Seq<char>>,
)
    requires
        st.varmap.len() >= 1,
        st.mangled.len() + 1 == st.varmap.len(),
        unrenamed(st),
        seen_in(st.enter(name, params), seen),
        simple_each(stmts, stmts.len(), seen),
    ensures
        analyze_function(st, name, params, stmts).0.free() == refers_each(
            stmts,
            stmts.len(),
        ).difference(crate::scopes::param_names(params).insert(name)).difference(
            declares_each(stmts, stmts.len()),
        ).difference(st.varmap[0]),
        analyze_function(st, name, params, stmts).1 == stmts,
        analyze(
            st,
            Ast::FunctionDecl(name, false, Set::empty(), params, Box::new(Ast::StatementList(stmts))),
        ).1 == Ast::FunctionDecl(
            name,
            analyze_function(st, name, params, stmts).0.use_this,
            analyze_function(st, name, params, stmts).0.free(),
            params,
            Box::new(Ast::StatementList(stmts)),
        ),
{
    let n = stmts.len();
    let e = st.enter(name, params);
    assert(e.varmap[0] == st.varmap[0]);
    assert(unrenamed(e)) by {
        assert forall|i: int, x: Seq<char>| 0 <= i < e.mangled.len() implies !(
        #[trigger] e.mangled[i].contains_key(x)) by {
            if i < st.mangled.len() {
                assert(!st.mangled[i].contains_key(x));
            }
        }
    }
    lemma_hoist_nothing(e, stmts, n, seen);
    assert(stmts.take(n as int) =~= stmts);
    lemma_plain_is_each(e, stmts, stmts, n, seen);
    lemma_simple_each(e, stmts, n, seen);
    let p = analyze_each(e, stmts, n);
    lemma_decls_nothing(p.0, stmts, stmts, n, seen);
    let fv = analyze_function(st, name, params, stmts).0.free();
    assert(fv == p.0.cur_fv.difference(p.0.varmap.last()));
    assert(fv =~= refers_each(stmts, n).difference(
        crate::scopes::param_names(params).insert(name),
    ).difference(declares_each(stmts, n)).difference(st.varmap[0]));
}

/// Whether the scopes of `after` are those of `before`, each with the names
/// it had and possibly more.
pub open spec fn grown(before: Scopes, after: Scopes) -> bool {
    &&& after.varmap.len() == before.varmap.len()
    &&& forall|i: int|
        0 <= i < before.varmap.len() ==> (#[trigger] before.varmap[i]).subset_of(after.varmap[i])
}

pub(crate) proof fn lemma_grown_chain(a: Scopes, b: Scopes, c: Scopes)
    requires
        grown(a, b),
        grown(b, c),
    ensures
        grown(a, c),
{
    assert forall|i: int| 0 <= i < a.varmap.len() implies (#[trigger] a.varmap[i]).subset_of(
        c.varmap[i],
    ) by {
        assert(a.varmap[i].subset_of(b.varmap[i]));
        assert(b.varmap[i].subset_of(c.varmap[i]));
    }
}

pub(crate) proof fn lemma_grows(st: Scopes, node: Ast)
    requires
        st.varmap.len() >= 1,
    ensures
        grown(st, analyze(st, node).0),
    decreases node, 0nat,
{
    match node {
        Ast::StatementList(nodes) => {
            lemma_grows_each(st, nodes, nodes.len());
        },
        Ast::FunctionDecl(name, _, _, params, body) => match *body {
            Ast::StatementList(stmts) => {
                lemma_grows_function(st, name, params, stmts);
            },
            _ => {},
        },
        Ast::Call(callee, args) => {
            lemma_grows(st, *callee);
            let c = analyze(st, *callee);
            lemma_grows_each(c.0, args, args.len());
            lemma_grown_chain(st, c.0, analyze_each(c.0, args, args.len()).0);
        },
        Ast::VarDecl(name, init) => {
            let d = st.declare(name);
            lemma_grows_option(d, init);
            lemma_grown_chain(st, d, analyze_option(d, init).0);
        },
        Ast::Return(val) => {
            lemma_grows_option(st, val);
        },
        Ast::Member(parent, _) => {
            lemma_grows(st, *parent);
        },
        Ast::If(cond, then_, else_) => {
            lemma_grows(st, *cond);
            let c = analyze(st, *cond);
            lemma_grows(c.0, *then_);
            let t = analyze(c.0, *then_);
            lemma_grows(t.0, *else_);
            lemma_grown_chain(st, c.0, t.0);
            lemma_grown_chain(st, t.0, analyze(t.0, *else_).0);
        },
        Ast::While(cond, body) => {
            lemma_grows(st, *cond);
            let c = analyze(st, *cond);
            lemma_grows(c.0, *body);
            lemma_grown_chain(st, c.0, analyze(c.0, *body).0);
        },
        Ast::Assign(dst, src) => {
            lemma_grows_target(st, *dst);
            let d = analyze_target(st, *dst);
            lemma_grows(d.0, *src);
            lemma_grown_chain(st, d.0, analyze(d.0, *src).0);
        },
        Ast::UnaryOp(expr, _) => {
            lemma_grows(st, *expr);
        },
        Ast::BinaryOp(left, right, _) => {
            lemma_grows(st, *left);
            let l = analyze(st, *left);
            lemma_grows(l.0, *right);
            lemma_grown_chain(st, l.0, analyze(l.0, *right).0);
        },
        Ast::TernaryOp(cond, then_, else_) => {
            lemma_grows(st, *cond);
            let c = analyze(st, *cond);
            lemma_grows(c.0, *then_);
            let t = analyze(c.0, *then_);
            lemma_grows(t.0, *else_);
            lemma_grown_chain(st, c.0, t.0);
            lemma_grown_chain(st, t.0, analyze(t.0, *else_).0);
        },
        _ => {},
    }
}

proof fn lemma_grows_option(st: Scopes, node: Option<Box<Ast>>)
    requires
        st.varmap.len() >= 1,
    ensures
        grown(st, analyze_option(st, node).0),
    decreases node, 1nat,
{
    match node {
        Some(e) => {
            lemma_grows(st, *e);
        },
        None => {},
    }
}

pub(crate) proof fn lemma_grows_target(st: Scopes, dst: Ast)
    requires
        st.varmap.len() >= 1,
    ensures
        grown(st, analyze_target(st, dst).0),
    decreases dst, 1nat,
{
    match dst {
        Ast::Member(parent, _) => {
            lemma_grows(st, *parent);
        },
        _ => {},
    }
}

pub(crate) proof fn lemma_grows_each(st: Scopes, nodes: Seq<Ast>, n: nat)
    requires
        st.varmap.len() >= 1,
    ensures
        grown(st, analyze_each(st, nodes, n).0),
    decreases nodes, n,
{
    if n == 0 || n > nodes.len() {
    } else {
        lemma_grows_each(st, nodes, (n - 1) as nat);
        let r = analyze_each(st, nodes, (n - 1) as nat);
        lemma_grows(r.0, nodes[n - 1]);
        lemma_grown_chain(st, r.0, analyze(r.0, nodes[n - 1]).0);
    }
}

pub(crate) proof fn lemma_grows_hoist(st: Scopes, stmts: Seq<Ast>, n: nat)
    requires
        st.varmap.len() >= 1,
    ensures
        grown(st, hoist_each(st, stmts, n).0),
    decreases n,
{
    if n == 0 || n > stmts.len() {
    } else {
        lemma_grows_hoist(st, stmts, (n - 1) as nat);
        let r = hoist_each(st, stmts, (n - 1) as nat);
        lemma_grown_chain(st, r.0, hoist(r.0, stmts[n - 1]).0);
    }
}

pub(crate) proof fn lemma_grows_plain(st: Scopes, stmts: Seq<Ast>, cur: Seq<Ast>, n: nat)
    requires
        st.varmap.len() >= 1,
    ensures
        grown(st, analyze_plain(st, stmts, cur, n).0),
    decreases stmts, n,
{
    if n == 0 || n > stmts.len() {
    } else {
        lemma_grows_plain(st, stmts, cur, (n - 1) as nat);
        let r = analyze_plain(st, stmts, cur, (n - 1) as nat);
        if !(stmts[n - 1] is FunctionDecl) {
            lemma_grows(r.0, stmts[n - 1]);
            lemma_grown_chain(st, r.0, analyze(r.0, stmts[n - 1]).0);
        }
    }
}

pub(crate) proof fn lemma_grows_decls(st: Scopes, stmts: Seq<Ast>, cur: Seq<Ast>, n: nat)
    requires
        st.varmap.len() >= 1,
    ensures
        grown(st, analyze_decls(st, stmts, cur, n).0),
    decreases stmts, n,
{
    if n == 0 || n > stmts.len() {
    } else {
        lemma_grows_decls(st, stmts, cur, (n - 1) as nat);
        let r = analyze_decls(st, stmts, cur, (n - 1) as nat);
        match stmts[n - 1] {
            Ast::FunctionDecl(_, _, _, params, body) => match *body {
                Ast::StatementList(inner) => {
                    let name = cur[n - 1]->FunctionDecl_0;
                    lemma_grows_function(r.0, name, params, inner);
                    lemma_grown_chain(
                        st,
                        r.0,
                        analyze_function(r.0, name, params, inner).0.leave(r.0, name),
                    );
                },
                _ => {},
            },
            _ => {},
        }
    }
}

proof fn lemma_grows_body(st: Scopes, stmts: Seq<Ast>)
    requires
        st.varmap.len() >= 1,
    ensures
        grown(st, analyze_body(st, stmts).0),
    decreases stmts, stmts.len() + 1,
{
    let n = stmts.len();
    lemma_grows_hoist(st, stmts, n);
    let h = hoist_each(st, stmts, n);
    lemma_grows_plain(h.0, stmts, h.1, n);
    let p = analyze_plain(h.0, stmts, h.1, n);
    lemma_grows_decls(p.0, stmts, p.1, n);
    lemma_grown_chain(st, h.0, p.0);
    lemma_grown_chain(st, p.0, analyze_decls(p.0, stmts, p.1, n).0);
}

pub(crate) proof fn lemma_grows_function(
    st: Scopes,
    name: Seq<char>,
    params: Seq<Param>,
    stmts: Seq<Ast>,
)
    requires
        st.varmap.len() >= 1,
    ensures
        grown(st.enter(name, params), analyze_function(st, name, params, stmts).0),
        grown(st, analyze_function(st, name, params, stmts).0.leave(st, name)),
    decreases stmts, stmts.len() + 2,
{
    let e = st.enter(name, params);
    lemma_grows_body(e, stmts);
    let b = analyze_body(e, stmts).0;
    let r = b.leave(st, name);
    assert forall|i: int| 0 <= i < st.varmap.len() implies (#[trigger] st.varmap[i]).subset_of(
        r.varmap[i],
    ) by {
        assert(e.varmap[i] == st.varmap[i]);
        assert(e.varmap[i].subset_of(b.varmap[i]));
    }
}

/// The scope of a function, as it is when the function is left: the names
/// that the analysis of the function's body has declared in the function.
pub open spec fn scope_at_leave(
    st: Scopes,
    name: Seq<char>,
    params: Seq<Param>,
    stmts: Seq<Ast>,
) -> Set<Seq<char>> {
    analyze_body(st.enter(name, params), stmts).0.varmap.last()
}

/// No free variable of a function is declared in the function.
///
/// The free-variable set that the analysis records for a function holds no
/// name of the function's scope; and that scope holds the function's own
/// name, its parameters, the functions that its body declares and the
/// variables that the statements of its body declare.
pub proof fn law_free_variables_are_not_declared(
    st: Scopes,
    name: Seq<char>,
    params: Seq<Param>,
    stmts: Seq<Ast>,
)
    requires
        st.varmap.len() >= 1,
    ensures
        analyze_function(st, name, params, stmts).0.free().disjoint(
            scope_at_leave(st, name, params, stmts),
        ),
        scope_at_leave(st, name, params, stmts).contains(name),
        forall|i: int|
            0 <= i < params.len() ==> scope_at_leave(st, name, params, stmts).contains(
                (#[trigger] params[i]).name,
            ),
        forall|k: int|
            0 <= k < stmts.len() && (#[trigger] stmts[k]) is FunctionDecl ==> scope_at_leave(
                st,
                name,
                params,
                stmts,
            ).contains(stmts[k]->FunctionDecl_0),
        forall|k: int|
            0 <= k < stmts.len() && (#[trigger] stmts[k]) is VarDecl ==> scope_at_leave(
                st,
                name,
                params,
                stmts,
            ).contains(stmts[k]->VarDecl_0),
{
    let n = stmts.len();
    let e = st.enter(name, params);
    let h = hoist_each(e, stmts, n);
    let p = analyze_plain(h.0, stmts, h.1, n);
    let d = analyze_decls(p.0, stmts, p.1, n);
    lemma_grows_hoist(e, stmts, n);
    lemma_grows_plain(h.0, stmts, h.1, n);
    lemma_grows_decls(p.0, stmts, p.1, n);
    let last = e.varmap.len() - 1;
    assert(e.varmap[last].subset_of(h.0.varmap[last]));
    assert(h.0.varmap[last].subset_of(p.0.varmap[last]));
    assert(p.0.varmap[last].subset_of(d.0.varmap[last]));
    assert(e.varmap[last].contains(name));
    assert forall|i: int| 0 <= i < params.len() implies d.0.varmap.last().contains(
        (#[trigger] params[i]).name,
    ) by {
        assert(crate::scopes::param_names(params).contains(params[i].name));
    }
    assert forall|k: int|
        0 <= k < n && (#[trigger] stmts[k]) is FunctionDecl implies d.0.varmap.last().contains(
        stmts[k]->FunctionDecl_0,
    ) by {
        lemma_hoist_declares(e, stmts, n, k);
    }
    assert forall|k: int|
        0 <= k < n && (#[trigger] stmts[k]) is VarDecl implies d.0.varmap.last().contains(
        stmts[k]->VarDecl_0,
    ) by {
        lemma_plain_declares(h.0, stmts, h.1, n, k);
    }
}

/// Hoisting declares each function that the statements declare.
proof fn lemma_hoist_declares(st: Scopes, stmts: Seq<Ast>, n: nat, k: int)
    requires
        st.varmap.len() >= 1,
        0 <= k < n <= stmts.len(),
        stmts[k] is FunctionDecl,
    ensures
        hoist_each(st, stmts, n).0.varmap.last().contains(stmts[k]->FunctionDecl_0),
    decreases n,
{
    let r = hoist_each(st, stmts, (n - 1) as nat);
    lemma_grows_hoist(st, stmts, (n - 1) as nat);
    let h = hoist(r.0, stmts[n - 1]);
    if k < n - 1 {
        lemma_hoist_declares(st, stmts, (n - 1) as nat, k);
        lemma_grown_chain(r.0, h.0, h.0);
        assert(r.0.varmap[r.0.varmap.len() - 1].subset_of(h.0.varmap[r.0.varmap.len() - 1]));
    }
}

/// The second pass declares each variable that a statement declares.
proof fn lemma_plain_declares(st: Scopes, stmts: Seq<Ast>, cur: Seq<Ast>, n: nat, k: int)
    requires
        st.varmap.len() >= 1,
        0 <= k < n <= stmts.len(),
        stmts[k] is VarDecl,
    ensures
        analyze_plain(st, stmts, cur, n).0.varmap.last().contains(stmts[k]->VarDecl_0),
    decreases n,
{
    let r = analyze_plain(st, stmts, cur, (n - 1) as nat);
    lemma_grows_plain(st, stmts, cur, (n - 1) as nat);
    lemma_grows_plain(st, stmts, cur, n);
    let last = st.varmap.len() - 1;
    let end = analyze_plain(st, stmts, cur, n).0;
    assert(r.0.varmap.len() == st.varmap.len());
    assert(end.varmap.len() == st.varmap.len());
    if k < n - 1 {
        lemma_plain_declares(st, stmts, cur, (n - 1) as nat, k);
        assert(r.0.varmap[last].contains(stmts[k]->VarDecl_0));
        if !(stmts[n - 1] is FunctionDecl) {
            lemma_grows(r.0, stmts[n - 1]);
            assert(end == analyze(r.0, stmts[n - 1]).0);
            assert(r.0.varmap[last].subset_of(end.varmap[last]));
        } else {
            assert(end == r.0);
        }
    } else {
        match stmts[k] {
            Ast::VarDecl(name, init) => {
                let d = r.0.declare(name);
                lemma_grows_option(d, init);
                assert(d.varmap.len() == r.0.varmap.len());
                assert(d.varmap[last].contains(name));
                assert(analyze(r.0, stmts[k]).0 == analyze_option(d, init).0);
                assert(end == analyze(r.0, stmts[k]).0);
                assert(d.varmap[last].subset_of(end.varmap[last]));
            },
            _ => {},
        }
    }
}

/// Whether `this` occurs in `node` outside the functions that `node`
/// declares.
pub open spec fn mentions_this(node: Ast) -> bool
    decreases node, 0nat,
{
    match node {
        Ast::StatementList(nodes) => this_each(nodes, nodes.len()),
        Ast::Call(callee, args) => mentions_this(*callee) || this_each(args, args.len()),
        Ast::VarDecl(_, init) => this_option(init),
        Ast::Return(val) => this_option(val),
        Ast::Member(parent, _) => mentions_this(*parent),
        Ast::This => true,
        Ast::If(cond, then_, else_) => mentions_this(*cond) || mentions_this(*then_)
            || mentions_this(*else_),
        Ast::While(cond, body) => mentions_this(*cond) || mentions_this(*body),
        Ast::Assign(dst, src) => (match *dst {
            Ast::Member(parent, _) => mentions_this(*parent),
            _ => false,
        }) || mentions_this(*src),
        Ast::UnaryOp(expr, _) => mentions_this(*expr),
        Ast::BinaryOp(left, right, _) => mentions_this(*left) || mentions_this(*right),
        Ast::TernaryOp(cond, then_, else_) => mentions_this(*cond) || mentions_this(*then_)
            || mentions_this(*else_),
        _ => false,
    }
}

/// Whether `this` occurs in one of the first `n` trees of `nodes`, outside
/// the functions that they declare.
pub open spec fn this_each(nodes: Seq<Ast>, n: nat) -> bool
    decreases nodes, n,
{
    if n == 0 || n > nodes.len() {
        false
    } else {
        this_each(nodes, (n - 1) as nat) || mentions_this(nodes[n - 1])
    }
}

/// Whether `this` occurs in an optional tree, outside the functions that it
/// declares.
pub open spec fn this_option(node: Option<Box<Ast>>) -> bool
    decreases node, 1nat,
{
    match node {
        Some(e) => mentions_this(*e),
        None => false,
    }
}

proof fn lemma_flag(st: Scopes, node: Ast)
    ensures
        analyze(st, node).0.use_this == (st.use_this || mentions_this(node)),
    decreases node, 0nat,
{
    match node {
        Ast::StatementList(nodes) => {
            lemma_flag_each(st, nodes, nodes.len());
        },
        Ast::Call(callee, args) => {
            lemma_flag(st, *callee);
            lemma_flag_each(analyze(st, *callee).0, args, args.len());
        },
        Ast::VarDecl(name, init) => {
            lemma_flag_option(st.declare(name), init);
        },
        Ast::Return(val) => {
            lemma_flag_option(st, val);
        },
        Ast::Member(parent, _) => {
            lemma_flag(st, *parent);
        },
        Ast::If(cond, then_, else_) => {
            lemma_flag(st, *cond);
            let c = analyze(st, *cond);
            lemma_flag(c.0, *then_);
            lemma_flag(analyze(c.0, *then_).0, *else_);
        },
        Ast::While(cond, body) => {
            lemma_flag(st, *cond);
            lemma_flag(analyze(st, *cond).0, *body);
        },
        Ast::Assign(dst, src) => {
            match *dst {
                Ast::Member(parent, _) => {
                    lemma_flag(st, *parent);
                },
                _ => {},
            }
            lemma_flag(analyze_target(st, *dst).0, *src);
        },
        Ast::UnaryOp(expr, _) => {
            lemma_flag(st, *expr);
        },
        Ast::BinaryOp(left, right, _) => {
            lemma_flag(st, *left);
            lemma_flag(analyze(st, *left).0, *right);
        },
        Ast::TernaryOp(cond, then_, else_) => {
            lemma_flag(st, *cond);
            let c = analyze(st, *cond);
            lemma_flag(c.0, *then_);
            lemma_flag(analyze(c.0, *then_).0, *else_);
        },
        _ => {},
    }
}

proof fn lemma_flag_option(st: Scopes, node: Option<Box<Ast>>)
    ensures
        analyze_option(st, node).0.use_this == (st.use_this || this_option(node)),
    decreases node, 1nat,
{
    match node {
        Some(e) => {
            lemma_flag(st, *e);
        },
        None => {},
    }
}

proof fn lemma_flag_each(st: Scopes, nodes: Seq<Ast>, n: nat)
    ensures
        analyze_each(st, nodes, n).0.use_this == (st.use_this || this_each(nodes, n)),
    decreases nodes, n,
{
    if n == 0 || n > nodes.len() {
    } else {
        lemma_flag_each(st, nodes, (n - 1) as nat);
        lemma_flag(analyze_each(st, nodes, (n - 1) as nat).0, nodes[n - 1]);
    }
}

proof fn lemma_flag_hoist(st: Scopes, stmts: Seq<Ast>, n: nat)
    ensures
        hoist_each(st, stmts, n).0.use_this == st.use_this,
    decreases n,
{
    if n == 0 || n > stmts.len() {
    } else {
        lemma_flag_hoist(st, stmts, (n - 1) as nat);
    }
}

proof fn lemma_flag_plain(st: Scopes, stmts: Seq<Ast>, cur: Seq<Ast>, n: nat)
    ensures
        analyze_plain(st, stmts, cur, n).0.use_this == (st.use_this || this_each(stmts, n)),
    decreases stmts, n,
{
    if n == 0 || n > stmts.len() {
    } else {
        lemma_flag_plain(st, stmts, cur, (n - 1) as nat);
        if !(stmts[n - 1] is FunctionDecl) {
            lemma_flag(analyze_plain(st, stmts, cur, (n - 1) as nat).0, stmts[n - 1]);
        } else {
            assert(!mentions_this(stmts[n - 1]));
        }
    }
}

proof fn lemma_flag_decls(st: Scopes, stmts: Seq<Ast>, cur: Seq<Ast>, n: nat)
    ensures
        analyze_decls(st, stmts, cur, n).0.use_this == st.use_this,
    decreases n,
{
    if n == 0 || n > stmts.len() {
    } else {
        lemma_flag_decls(st, stmts, cur, (n - 1) as nat);
    }
}

/// The flag for `this` of a function says whether `this` occurs in its body
/// outside the functions nested in it, whatever was analyzed before; and the
/// analysis of a function leaves the flag of the enclosing function as it
/// was.
pub proof fn law_this_flag(
    st: Scopes,
    name: Seq<char>,
    use_this: bool,
    fv: Set<Seq<char>>,
    params: Seq<Param>,
    stmts: Seq<Ast>,
)
    ensures
        analyze_function(st, name, params, stmts).0.use_this == this_each(stmts, stmts.len()),
        analyze(
            st,
            Ast::FunctionDecl(name, use_this, fv, params, Box::new(Ast::StatementList(stmts))),
        ).1->FunctionDecl_1 == this_each(stmts, stmts.len()),
        analyze(
            st,
            Ast::FunctionDecl(name, use_this, fv, params, Box::new(Ast::StatementList(stmts))),
        ).0.use_this == st.use_this,
{
    let n = stmts.len();
    let e = st.enter(name, params);
    lemma_flag_hoist(e, stmts, n);
    let h = hoist_each(e, stmts, n);
    lemma_flag_plain(h.0, stmts, h.1, n);
    let p = analyze_plain(h.0, stmts, h.1, n);
    lemma_flag_decls(p.0, stmts, p.1, n);
    let d = analyze_decls(p.0, stmts, p.1, n);
    assert(analyze_body(e, stmts) == d);
    assert(analyze_function(st, name, params, stmts) == d);
    assert(!e.use_this);
}

} // verus!
