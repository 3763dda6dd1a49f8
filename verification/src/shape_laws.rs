//! The analysis keeps the shape of a tree: it writes the annotations of
//! functions and gives new names to nested functions and to the references
//! to them, and changes nothing else.

use crate::node::Ast;
use crate::scopes::{
    analyzable, analyzable_each, analyzable_option, analyze, analyze_body, analyze_decls,
    analyze_each, analyze_function, analyze_option, analyze_plain, analyze_target, assignable,
    hoist_each, Scopes,
};
use vstd::prelude::*;

verus! {

/// Whether `b` is `a` up to the names of identifiers, the names of function
/// declarations and the annotations of function declarations: the kinds of
/// the nodes, their order, their children, the names of variables,
/// parameters and members, the operators and the literals are the same.
pub open spec fn same_shape(a: Ast, b: Ast) -> bool
    decreases a, 0nat,
{
    match a {
        Ast::StatementList(x) => b is StatementList && shape_each(x, b->StatementList_0, x.len())
            && b->StatementList_0.len() == x.len(),
        Ast::FunctionDecl(_, _, _, params, body) => b is FunctionDecl && b->FunctionDecl_3
            == params && same_shape(*body, *b->FunctionDecl_4),
        Ast::Call(callee, args) => b is Call && same_shape(*callee, *b->Call_0) && shape_each(
            args,
            b->Call_1,
            args.len(),
        ) && b->Call_1.len() == args.len(),
        Ast::VarDecl(name, init) => b is VarDecl && b->VarDecl_0 == name && shape_option(
            init,
            b->VarDecl_1,
        ),
        Ast::Return(val) => b is Return && shape_option(val, b->Return_0),
        Ast::Member(parent, member) => b is Member && b->Member_1 == member && same_shape(
            *parent,
            *b->Member_0,
        ),
        Ast::This => b is This,
        Ast::Identifier(_) => b is Identifier,
        Ast::If(cond, then_, else_) => b is If && same_shape(*cond, *b->If_0) && same_shape(
            *then_,
            *b->If_1,
        ) && same_shape(*else_, *b->If_2),
        Ast::While(cond, body) => b is While && same_shape(*cond, *b->While_0) && same_shape(
            *body,
            *b->While_1,
        ),
        Ast::Assign(dst, src) => b is Assign && same_shape(*dst, *b->Assign_0) && same_shape(
            *src,
            *b->Assign_1,
        ),
        Ast::UnaryOp(expr, op) => b is UnaryOp && b->UnaryOp_1 == op && same_shape(
            *expr,
            *b->UnaryOp_0,
        ),
        Ast::BinaryOp(left, right, op) => b is BinaryOp && b->BinaryOp_2 == op && same_shape(
            *left,
            *b->BinaryOp_0,
        ) && same_shape(*right, *b->BinaryOp_1),
        Ast::TernaryOp(cond, then_, else_) => b is TernaryOp && same_shape(
            *cond,
            *b->TernaryOp_0,
        ) && same_shape(*then_, *b->TernaryOp_1) && same_shape(*else_, *b->TernaryOp_2),
        _ => b == a,
    }
}

/// Whether the first `n` trees of `b` are those of `a` up to names and
/// annotations.
pub open spec fn shape_each(a: Seq<Ast>, b: Seq<Ast>, n: nat) -> bool
    decreases a, n,
{
    if n == 0 {
        true
    } else if n > a.len() || n > b.len() {
        false
    } else {
        shape_each(a, b, (n - 1) as nat) && same_shape(a[n - 1], b[n - 1])
    }
}

/// Whether `b` is there where `a` is, and is `a` up to names and annotations.
pub open spec fn shape_option(a: Option<Box<Ast>>, b: Option<Box<Ast>>) -> bool
    decreases a, 1nat,
{
    match a {
        Some(e) => b is Some && same_shape(*e, *b->Some_0),
        None => b is None,
    }
}

proof fn lemma_shape_prefix(a: Seq<Ast>, b: Seq<Ast>, c: Seq<Ast>, n: nat)
    requires
        shape_each(a, b, n),
        n <= c.len(),
        forall|i: int| 0 <= i < n ==> b[i] == c[i],
    ensures
        shape_each(a, c, n),
    decreases n,
{
    if n > 0 {
        lemma_shape_prefix(a, b, c, (n - 1) as nat);
    }
}

pub(crate) proof fn lemma_analyzable_at(nodes: Seq<Ast>, n: nat, i: int)
    requires
        0 <= i < n <= nodes.len(),
        analyzable_each(nodes, n),
    ensures
        analyzable(nodes[i]),
        analyzable_each(nodes, i as nat),
    decreases n,
{
    if i < n - 1 {
        lemma_analyzable_at(nodes, (n - 1) as nat, i);
    }
}

pub(crate) proof fn lemma_analyzable_fewer(nodes: Seq<Ast>, n: nat, m: nat)
    requires
        m <= n <= nodes.len(),
        analyzable_each(nodes, n),
    ensures
        analyzable_each(nodes, m),
    decreases n,
{
    if m < n {
        lemma_analyzable_fewer(nodes, (n - 1) as nat, m);
    }
}

proof fn lemma_shape(st: Scopes, node: Ast)
    requires
        analyzable(node),
    ensures
        same_shape(node, analyze(st, node).1),
    decreases node, 0nat,
{
    match node {
        Ast::StatementList(nodes) => {
            lemma_shape_each(st, nodes, nodes.len());
        },
        Ast::FunctionDecl(name, _, _, params, body) => match *body {
            Ast::StatementList(stmts) => {
                assert(analyzable(*body));
                assert(analyzable_each(stmts, stmts.len()));
                lemma_shape_body(st.enter(name, params), stmts);
                let r = analyze_function(st, name, params, stmts);
                assert(r == analyze_body(st.enter(name, params), stmts));
                assert(same_shape(*body, Ast::StatementList(r.1)));
            },
            _ => {},
        },
        Ast::Call(callee, args) => {
            lemma_shape(st, *callee);
            lemma_shape_each(analyze(st, *callee).0, args, args.len());
        },
        Ast::VarDecl(name, init) => {
            lemma_shape_option(st.declare(name), init);
        },
        Ast::Return(val) => {
            lemma_shape_option(st, val);
        },
        Ast::Member(parent, _) => {
            lemma_shape(st, *parent);
        },
        Ast::If(cond, then_, else_) => {
            lemma_shape(st, *cond);
            let c = analyze(st, *cond);
            lemma_shape(c.0, *then_);
            lemma_shape(analyze(c.0, *then_).0, *else_);
        },
        Ast::While(cond, body) => {
            lemma_shape(st, *cond);
            lemma_shape(analyze(st, *cond).0, *body);
        },
        Ast::Assign(dst, src) => {
            lemma_shape_target(st, *dst);
            lemma_shape(analyze_target(st, *dst).0, *src);
        },
        Ast::UnaryOp(expr, _) => {
            lemma_shape(st, *expr);
        },
        Ast::BinaryOp(left, right, _) => {
            lemma_shape(st, *left);
            lemma_shape(analyze(st, *left).0, *right);
        },
        Ast::TernaryOp(cond, then_, else_) => {
            lemma_shape(st, *cond);
            let c = analyze(st, *cond);
            lemma_shape(c.0, *then_);
            lemma_shape(analyze(c.0, *then_).0, *else_);
        },
        _ => {},
    }
}

proof fn lemma_shape_option(st: Scopes, node: Option<Box<Ast>>)
    requires
        analyzable_option(node),
    ensures
        shape_option(node, analyze_option(st, node).1),
    decreases node, 1nat,
{
    match node {
        Some(e) => {
            lemma_shape(st, *e);
        },
        None => {},
    }
}

proof fn lemma_shape_target(st: Scopes, dst: Ast)
    requires
        assignable(dst),
    ensures
        same_shape(dst, analyze_target(st, dst).1),
    decreases dst, 1nat,
{
    match dst {
        Ast::Member(parent, _) => {
            lemma_shape(st, *parent);
        },
        _ => {},
    }
}

proof fn lemma_shape_each(st: Scopes, nodes: Seq<Ast>, n: nat)
    requires
        n <= nodes.len(),
        analyzable_each(nodes, n),
    ensures
        analyze_each(st, nodes, n).1.len() == n,
        shape_each(nodes, analyze_each(st, nodes, n).1, n),
    decreases nodes, n,
{
    if n > 0 {
        lemma_shape_each(st, nodes, (n - 1) as nat);
        let r = analyze_each(st, nodes, (n - 1) as nat);
        lemma_shape(r.0, nodes[n - 1]);
        lemma_shape_prefix(nodes, r.1, analyze_each(st, nodes, n).1, (n - 1) as nat);
    }
}

pub(crate) proof fn lemma_hoist_length(st: Scopes, stmts: Seq<Ast>, n: nat)
    requires
        n <= stmts.len(),
    ensures
        hoist_each(st, stmts, n).1.len() == n,
        forall|i: int|
            0 <= i < n && (#[trigger] stmts[i]) is FunctionDecl ==> hoist_each(
                st,
                stmts,
                n,
            ).1[i] is FunctionDecl,
    decreases n,
{
    if n > 0 {
        lemma_hoist_length(st, stmts, (n - 1) as nat);
    }
}

/// After the second pass the statements that are no declarations have the
/// shape that they had.
proof fn lemma_shape_plain(st: Scopes, stmts: Seq<Ast>, cur: Seq<Ast>, n: nat, i: int)
    requires
        0 <= i < n <= stmts.len(),
        n <= cur.len(),
        analyzable_each(stmts, n),
    ensures
        analyze_plain(st, stmts, cur, n).1.len() == n,
        stmts[i] is FunctionDecl ==> analyze_plain(st, stmts, cur, n).1[i] == cur[i],
        !(stmts[i] is FunctionDecl) ==> same_shape(stmts[i], analyze_plain(st, stmts, cur, n).1[i]),
    decreases stmts, n,
{
    let r = analyze_plain(st, stmts, cur, (n - 1) as nat);
    lemma_plain_length(st, stmts, cur, (n - 1) as nat);
    lemma_analyzable_at(stmts, n, i);
    lemma_analyzable_fewer(stmts, n, (n - 1) as nat);
    if i < n - 1 {
        lemma_shape_plain(st, stmts, cur, (n - 1) as nat, i);
    } else if !(stmts[i] is FunctionDecl) {
        lemma_shape(r.0, stmts[i]);
    }
}

pub(crate) proof fn lemma_plain_length(st: Scopes, stmts: Seq<Ast>, cur: Seq<Ast>, n: nat)
    requires
        n <= stmts.len(),
    ensures
        analyze_plain(st, stmts, cur, n).1.len() == n,
    decreases n,
{
    if n > 0 {
        lemma_plain_length(st, stmts, cur, (n - 1) as nat);
    }
}

pub(crate) proof fn lemma_decls_length(st: Scopes, stmts: Seq<Ast>, cur: Seq<Ast>, n: nat)
    requires
        n <= stmts.len(),
    ensures
        analyze_decls(st, stmts, cur, n).1.len() == n,
    decreases n,
{
    if n > 0 {
        lemma_decls_length(st, stmts, cur, (n - 1) as nat);
    }
}

/// After the third pass the declarations have the shape that they had, and
/// the other statements are as the second pass left them.
pub(crate) proof fn lemma_shape_decls(st: Scopes, stmts: Seq<Ast>, cur: Seq<Ast>, n: nat, i: int)
    requires
        0 <= i < n <= stmts.len(),
        n <= cur.len(),
        analyzable_each(stmts, n),
    ensures
        analyze_decls(st, stmts, cur, n).1.len() == n,
        stmts[i] is FunctionDecl ==> same_shape(stmts[i], analyze_decls(st, stmts, cur, n).1[i]),
        !(stmts[i] is FunctionDecl) ==> analyze_decls(st, stmts, cur, n).1[i] == cur[i],
    decreases stmts, n,
{
    let r = analyze_decls(st, stmts, cur, (n - 1) as nat);
    lemma_decls_length(st, stmts, cur, (n - 1) as nat);
    lemma_analyzable_at(stmts, n, i);
    lemma_analyzable_fewer(stmts, n, (n - 1) as nat);
    if i < n - 1 {
        lemma_shape_decls(st, stmts, cur, (n - 1) as nat, i);
    } else {
        match stmts[i] {
            Ast::FunctionDecl(_, _, _, params, body) => match *body {
                Ast::StatementList(inner) => {
                    let name = cur[i]->FunctionDecl_0;
                    assert(analyzable(*body));
                    assert(analyzable_each(inner, inner.len()));
                    lemma_shape_body(r.0.enter(name, params), inner);
                    let f = analyze_function(r.0, name, params, inner);
                    assert(f == analyze_body(r.0.enter(name, params), inner));
                    assert(same_shape(*body, Ast::StatementList(f.1)));
                    let made = Ast::FunctionDecl(
                        name,
                        f.0.use_this,
                        f.0.free(),
                        params,
                        Box::new(Ast::StatementList(f.1)),
                    );
                    assert(analyze_decls(st, stmts, cur, n).1[i] == made);
                    assert(same_shape(stmts[i], made));
                },
                _ => {},
            },
            _ => {},
        }
    }
}

proof fn lemma_shape_body(st: Scopes, stmts: Seq<Ast>)
    requires
        analyzable_each(stmts, stmts.len()),
    ensures
        analyze_body(st, stmts).1.len() == stmts.len(),
        shape_each(stmts, analyze_body(st, stmts).1, stmts.len()),
    decreases stmts, 2 * stmts.len() + 2,
{
    let n = stmts.len();
    let h = hoist_each(st, stmts, n);
    let p = analyze_plain(h.0, stmts, h.1, n);
    lemma_plain_length(h.0, stmts, h.1, n);
    lemma_decls_length(p.0, stmts, p.1, n);
    lemma_shape_elements(st, stmts, n);
}

/// The first `m` statements of a body have the shape that they had.
proof fn lemma_shape_elements(st: Scopes, stmts: Seq<Ast>, m: nat)
    requires
        m <= stmts.len(),
        analyzable_each(stmts, stmts.len()),
    ensures
        shape_each(stmts, analyze_body(st, stmts).1, m),
    decreases stmts, stmts.len() + 1 + m,
{
    let n = stmts.len();
    let h = hoist_each(st, stmts, n);
    let p = analyze_plain(h.0, stmts, h.1, n);
    lemma_hoist_length(st, stmts, n);
    lemma_plain_length(h.0, stmts, h.1, n);
    lemma_decls_length(p.0, stmts, p.1, n);
    if m > 0 {
        lemma_shape_elements(st, stmts, (m - 1) as nat);
        lemma_shape_plain(h.0, stmts, h.1, n, m - 1);
        lemma_shape_decls(p.0, stmts, p.1, n, m - 1);
    }
}

/// The analysis keeps the shape of a tree.
///
/// After the analysis of a tree that the analysis can handle, the tree has
/// the nodes that it had, of the same kinds and in the same order; the names
/// of variables, parameters and members, the operators and the literals are
/// as they were. What may differ are the annotations of function
/// declarations, the names of identifiers, which follow the renaming, and
/// the names of the functions declared in function bodies, which hoisting
/// renames. A function declaration that is analyzed keeps the name that it
/// has.
pub proof fn law_shape_is_kept(st: Scopes, node: Ast)
    requires
        analyzable(node),
    ensures
        same_shape(node, analyze(st, node).1),
        node is FunctionDecl ==> analyze(st, node).1 is FunctionDecl && analyze(
            st,
            node,
        ).1->FunctionDecl_0 == node->FunctionDecl_0,
{
    lemma_shape(st, node);
}

/// An identifier keeps its name unless an enclosing function has given a
/// new name to a function of that name: a name that no renaming map holds
/// is rewritten to itself.
pub proof fn law_other_names_are_kept(st: Scopes, name: Seq<char>, depth: nat)
    requires
        forall|i: int| 0 <= i < st.mangled.len() ==> !(#[trigger] st.mangled[i]).contains_key(name),
    ensures
        st.resolve_from(name, depth) == name,
        depth == st.mangled.len() ==> analyze(st, Ast::Identifier(name)).1 == Ast::Identifier(
            name,
        ) && analyze_target(st, Ast::Identifier(name)).1 == Ast::Identifier(name),
    decreases depth,
{
    if depth > 0 && depth <= st.mangled.len() {
        assert(!st.mangled[depth - 1].contains_key(name));
        law_other_names_are_kept(st, name, (depth - 1) as nat);
    }
}

} // verus!
