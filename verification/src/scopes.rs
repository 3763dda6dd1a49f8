//! The scope analysis as a mathematical function on syntax trees.
//!
//! The analysis walks a tree once. It keeps a stack of declared-name sets (the
//! global set first, then one set per enclosing function), the free names
//! collected so far, a stack of renaming maps for nested functions, and a flag
//! for uses of `this`. The free names and the flag are those of the function
//! that is being analyzed: they start empty on entry to a function, and on
//! leaving it they are written on its declaration. Fresh names take their
//! numbers from a generator whose state is part of the state.

use crate::node::{Ast, Param};
use crate::text::mangled;
use crate::xorshift::XorShift;
use vstd::prelude::*;

verus! {

/// The state of the analysis.
pub struct Scopes {
    /// Declared names: the global set, then one set for each enclosing function.
    pub varmap: Seq<Set<Seq<char>>>,
    /// The free names collected so far in the innermost function.
    pub cur_fv: Set<Seq<char>>,
    /// For each enclosing function, the new names of the functions nested in it.
    pub mangled: Seq<Map<Seq<char>, Seq<char>>>,
    /// Whether `this` has been seen in the innermost function.
    pub use_this: bool,
    /// The generator of the numbers in fresh names.
    pub rng: XorShift,
}

/// The names of the parameters `params`.
pub open spec fn param_names(params: Seq<Param>) -> Set<Seq<char>> {
    Set::new(|name: Seq<char>| exists|i: int| 0 <= i < params.len()
        && #[trigger] params[i].name == name)
}

impl Scopes {
    /// `name` is declared in the innermost scope.
    pub open spec fn declare(self, name: Seq<char>) -> Scopes {
        Scopes {
            varmap: self.varmap.update(self.varmap.len() - 1, self.varmap.last().insert(name)),
            ..self
        }
    }

    /// `name` is declared in the global scope.
    pub open spec fn declare_global(self, name: Seq<char>) -> Scopes {
        Scopes { varmap: self.varmap.update(0, self.varmap[0].insert(name)), ..self }
    }

    /// `name` is recorded as free.
    pub open spec fn capture(self, name: Seq<char>) -> Scopes {
        Scopes { cur_fv: self.cur_fv.insert(name), ..self }
    }

    /// Whether `name` is declared globally or in the innermost scope.
    pub open spec fn knows(self, name: Seq<char>) -> bool {
        self.varmap[0].contains(name) || self.varmap.last().contains(name)
    }

    /// Whether `name` is declared in any scope of the chain.
    pub open spec fn sees(self, name: Seq<char>) -> bool {
        exists|i: int| 0 <= i < self.varmap.len() && #[trigger] self.varmap[i].contains(name)
    }

    /// The name that a reference to `name` is rewritten to, as the innermost
    /// `depth` functions have it: the new name that the nearest of them
    /// gives for `name`, unless a nearer one declares `name` itself.
    pub open spec fn resolve_from(self, name: Seq<char>, depth: nat) -> Seq<char>
        decreases depth,
    {
        if depth == 0 || depth > self.mangled.len() || depth >= self.varmap.len() {
            name
        } else if self.mangled[depth - 1].contains_key(name) {
            self.mangled[depth - 1][name]
        } else if self.varmap[depth as int].contains(name) {
            name
        } else {
            self.resolve_from(name, (depth - 1) as nat)
        }
    }

    /// The name that a reference to `name` is rewritten to: the new name of
    /// the nested function that `name` names here. The renaming maps of the
    /// enclosing functions are asked, the innermost first, up to a function
    /// that declares `name` itself.
    pub open spec fn resolve(self, name: Seq<char>) -> Seq<char> {
        self.resolve_from(name, self.mangled.len())
    }

    /// The state after a reference to the identifier `name`: the name is
    /// rewritten first; if then neither the global nor the innermost scope
    /// declares it, it becomes global at top level and free inside a
    /// function.
    pub open spec fn refer(self, name: Seq<char>) -> Scopes {
        if self.knows(self.resolve(name)) {
            self
        } else if self.varmap.len() == 1 {
            self.declare_global(self.resolve(name))
        } else {
            self.capture(self.resolve(name))
        }
    }

    /// The state after an assignment to the bare identifier `name`: a name
    /// that no scope declares becomes global; any other name is rewritten
    /// and is free if then neither the global nor the innermost scope
    /// declares it.
    pub open spec fn assign_to(self, name: Seq<char>) -> Scopes {
        if !self.sees(name) {
            self.declare_global(name)
        } else if !self.knows(self.resolve(name)) {
            self.capture(self.resolve(name))
        } else {
            self
        }
    }

    /// The state on entry to a function called `name` with parameters
    /// `params`: the function has a scope of its own with its name and its
    /// parameters, no free names yet, and has not seen `this`.
    pub open spec fn enter(self, name: Seq<char>, params: Seq<Param>) -> Scopes {
        Scopes {
            varmap: self.varmap.push(param_names(params).insert(name)),
            cur_fv: Set::empty(),
            mangled: self.mangled.push(Map::empty()),
            use_this: false,
            ..self
        }
    }

    /// The free names of the innermost function: those collected in it that
    /// it does not declare.
    pub open spec fn free(self) -> Set<Seq<char>> {
        self.cur_fv.difference(self.varmap.last())
    }

    /// The state on leaving the function called `name`, where `outer` was the
    /// state on entry to it: the scope of the function is dropped, and its
    /// name is declared in the enclosing scope; the enclosing function has
    /// the free names that it had, and those of the function that it does
    /// not declare, and its own flag for `this`.
    pub open spec fn leave(self, outer: Scopes, name: Seq<char>) -> Scopes {
        let scopes = self.varmap.drop_last();
        let scope = scopes.last().insert(name);
        Scopes {
            varmap: scopes.update(scopes.len() - 1, scope),
            cur_fv: outer.cur_fv.union(self.free().difference(scope)),
            mangled: self.mangled.drop_last(),
            use_this: outer.use_this,
            rng: self.rng,
        }
    }

    /// The state after the nested function `name` was given the new name `to`.
    pub open spec fn rename(self, name: Seq<char>, to: Seq<char>) -> Scopes {
        Scopes {
            mangled: self.mangled.update(
                self.mangled.len() - 1,
                self.mangled.last().insert(name, to),
            ),
            rng: self.rng.stepped(),
            ..self
        }
    }
}

/// Whether the analysis can handle the shape of `node`: the body of every
/// function declaration is a statement list, and every assignment goes to an
/// identifier or to a member.
pub open spec fn analyzable(node: Ast) -> bool
    decreases node, 0nat,
{
    match node {
        Ast::StatementList(nodes) => analyzable_each(nodes, nodes.len()),
        Ast::FunctionDecl(_, _, _, _, body) => *body is StatementList && analyzable(*body),
        Ast::Call(callee, args) => analyzable(*callee) && analyzable_each(args, args.len()),
        Ast::VarDecl(_, init) => analyzable_option(init),
        Ast::Return(val) => analyzable_option(val),
        Ast::Member(parent, _) => analyzable(*parent),
        Ast::If(cond, then_, else_) => analyzable(*cond) && analyzable(*then_) && analyzable(
            *else_,
        ),
        Ast::While(cond, body) => analyzable(*cond) && analyzable(*body),
        Ast::Assign(dst, src) => assignable(*dst) && analyzable(*src),
        Ast::UnaryOp(expr, _) => analyzable(*expr),
        Ast::BinaryOp(left, right, _) => analyzable(*left) && analyzable(*right),
        Ast::TernaryOp(cond, then_, else_) => analyzable(*cond) && analyzable(*then_)
            && analyzable(*else_),
        _ => true,
    }
}

/// Whether an optional tree is absent or analyzable.
pub open spec fn analyzable_option(node: Option<Box<Ast>>) -> bool
    decreases node, 1nat,
{
    match node {
        Some(e) => analyzable(*e),
        None => true,
    }
}

/// Whether `dst` can be the target of an assignment: an identifier, or a
/// member of something analyzable.
pub open spec fn assignable(dst: Ast) -> bool
    decreases dst, 1nat,
{
    match dst {
        Ast::Identifier(_) => true,
        Ast::Member(parent, _) => analyzable(*parent),
        _ => false,
    }
}

/// Whether the first `n` trees of `nodes` are all analyzable.
pub open spec fn analyzable_each(nodes: Seq<Ast>, n: nat) -> bool
    decreases nodes, n,
{
    if n == 0 || n > nodes.len() {
        true
    } else {
        analyzable_each(nodes, (n - 1) as nat) && analyzable(nodes[n - 1])
    }
}

/// The analysis of one tree: the state and the tree after it.
pub open spec fn analyze(st: Scopes, node: Ast) -> (Scopes, Ast)
    decreases node, 0nat,
{
    match node {
        Ast::StatementList(nodes) => {
            let r = analyze_each(st, nodes, nodes.len());
            (r.0, Ast::StatementList(r.1))
        },
        Ast::FunctionDecl(name, _, _, params, body) => match *body {
            Ast::StatementList(stmts) => {
                let r = analyze_function(st, name, params, stmts);
                (
                    r.0.leave(st, name),
                    Ast::FunctionDecl(
                        name,
                        r.0.use_this,
                        r.0.free(),
                        params,
                        Box::new(Ast::StatementList(r.1)),
                    ),
                )
            },
            _ => (st, node),
        },
        Ast::Call(callee, args) => {
            let c = analyze(st, *callee);
            let a = analyze_each(c.0, args, args.len());
            (a.0, Ast::Call(Box::new(c.1), a.1))
        },
        Ast::VarDecl(name, init) => {
            let r = analyze_option(st.declare(name), init);
            (r.0, Ast::VarDecl(name, r.1))
        },
        Ast::Return(val) => {
            let r = analyze_option(st, val);
            (r.0, Ast::Return(r.1))
        },
        Ast::Member(parent, member) => {
            let r = analyze(st, *parent);
            (r.0, Ast::Member(Box::new(r.1), member))
        },
        Ast::This => (Scopes { use_this: true, ..st }, node),
        Ast::Identifier(name) => (st.refer(name), Ast::Identifier(st.resolve(name))),
        Ast::If(cond, then_, else_) => {
            let c = analyze(st, *cond);
            let t = analyze(c.0, *then_);
            let e = analyze(t.0, *else_);
            (e.0, Ast::If(Box::new(c.1), Box::new(t.1), Box::new(e.1)))
        },
        Ast::While(cond, body) => {
            let c = analyze(st, *cond);
            let b = analyze(c.0, *body);
            (b.0, Ast::While(Box::new(c.1), Box::new(b.1)))
        },
        Ast::Assign(dst, src) => {
            let d = analyze_target(st, *dst);
            let s = analyze(d.0, *src);
            (s.0, Ast::Assign(Box::new(d.1), Box::new(s.1)))
        },
        Ast::UnaryOp(expr, op) => {
            let r = analyze(st, *expr);
            (r.0, Ast::UnaryOp(Box::new(r.1), op))
        },
        Ast::BinaryOp(left, right, op) => {
            let l = analyze(st, *left);
            let r = analyze(l.0, *right);
            (r.0, Ast::BinaryOp(Box::new(l.1), Box::new(r.1), op))
        },
        Ast::TernaryOp(cond, then_, else_) => {
            let c = analyze(st, *cond);
            let t = analyze(c.0, *then_);
            let e = analyze(t.0, *else_);
            (e.0, Ast::TernaryOp(Box::new(c.1), Box::new(t.1), Box::new(e.1)))
        },
        _ => (st, node),
    }
}

/// The analysis of an optional tree.
pub open spec fn analyze_option(st: Scopes, node: Option<Box<Ast>>) -> (
    Scopes,
    Option<Box<Ast>>,
)
    decreases node, 1nat,
{
    match node {
        Some(e) => {
            let r = analyze(st, *e);
            (r.0, Some(Box::new(r.1)))
        },
        None => (st, None),
    }
}

/// The analysis of the target of an assignment. A bare identifier is
/// rewritten as a reference is; it is declared globally if no scope declares
/// it, and captured if neither the global nor the innermost scope does.
pub open spec fn analyze_target(st: Scopes, dst: Ast) -> (Scopes, Ast)
    decreases dst, 1nat,
{
    match dst {
        Ast::Identifier(name) => (st.assign_to(name), Ast::Identifier(st.resolve(name))),
        Ast::Member(parent, member) => {
            let p = analyze(st, *parent);
            (p.0, Ast::Member(Box::new(p.1), member))
        },
        _ => (st, dst),
    }
}

/// The analysis of the first `n` trees of `nodes`, in order.
pub open spec fn analyze_each(st: Scopes, nodes: Seq<Ast>, n: nat) -> (
    Scopes,
    Seq<Ast>,
)
    decreases nodes, n,
{
    if n == 0 || n > nodes.len() {
        (st, Seq::empty())
    } else {
        let r = analyze_each(st, nodes, (n - 1) as nat);
        let a = analyze(r.0, nodes[n - 1]);
        (a.0, r.1.push(a.1))
    }
}

/// The analysis of the body of a function called `name` with the parameters
/// `params` and the statements `stmts`: the state at the end of the body,
/// before the function is left, and its statements.
pub open spec fn analyze_function(
    st: Scopes,
    name: Seq<char>,
    params: Seq<Param>,
    stmts: Seq<Ast>,
) -> (Scopes, Seq<Ast>)
    decreases stmts, stmts.len() + 2,
{
    analyze_body(st.enter(name, params), stmts)
}

/// The analysis of the statements of a function body, in three passes over
/// them: the declarations among them are hoisted, then the other statements
/// are analyzed, then the bodies of the declarations.
pub open spec fn analyze_body(st: Scopes, stmts: Seq<Ast>) -> (Scopes, Seq<Ast>)
    decreases stmts, stmts.len() + 1,
{
    let h = hoist_each(st, stmts, stmts.len());
    let p = analyze_plain(h.0, stmts, h.1, stmts.len());
    analyze_decls(p.0, stmts, p.1, stmts.len())
}

/// Hoisting of one statement: a function declaration is declared in the
/// innermost scope and, inside another function, given a fresh name.
pub open spec fn hoist(st: Scopes, node: Ast) -> (Scopes, Ast) {
    match node {
        Ast::FunctionDecl(name, use_this, fv, params, body) => {
            if st.varmap.len() + 1 > 2 {
                let to = mangled(name, st.rng.output());
                (st.declare(name).rename(name, to), Ast::FunctionDecl(to, use_this, fv, params, body))
            } else {
                (st.declare(name), node)
            }
        },
        _ => (st, node),
    }
}

/// Hoisting of the first `n` statements of `stmts`, in order.
pub open spec fn hoist_each(st: Scopes, stmts: Seq<Ast>, n: nat) -> (
    Scopes,
    Seq<Ast>,
)
    decreases n,
{
    if n == 0 || n > stmts.len() {
        (st, Seq::empty())
    } else {
        let r = hoist_each(st, stmts, (n - 1) as nat);
        let h = hoist(r.0, stmts[n - 1]);
        (h.0, r.1.push(h.1))
    }
}

/// The analysis of those of the first `n` statements of `stmts` that are no
/// function declarations; `cur` holds the statements after hoisting, and the
/// declarations are taken from it unchanged.
pub open spec fn analyze_plain(
    st: Scopes,
    stmts: Seq<Ast>,
    cur: Seq<Ast>,
    n: nat,
) -> (Scopes, Seq<Ast>)
    decreases stmts, n,
{
    if n == 0 || n > stmts.len() {
        (st, Seq::empty())
    } else {
        let r = analyze_plain(st, stmts, cur, (n - 1) as nat);
        if stmts[n - 1] is FunctionDecl {
            (r.0, r.1.push(cur[n - 1]))
        } else {
            let a = analyze(r.0, stmts[n - 1]);
            (a.0, r.1.push(a.1))
        }
    }
}

/// The analysis of the function declarations among the first `n` statements
/// of `stmts`, each under the name that it has in `cur`; the other statements
/// are taken from `cur` unchanged.
pub open spec fn analyze_decls(
    st: Scopes,
    stmts: Seq<Ast>,
    cur: Seq<Ast>,
    n: nat,
) -> (Scopes, Seq<Ast>)
    decreases stmts, n,
{
    if n == 0 || n > stmts.len() {
        (st, Seq::empty())
    } else {
        let r = analyze_decls(st, stmts, cur, (n - 1) as nat);
        match stmts[n - 1] {
            Ast::FunctionDecl(_, _, _, params, body) => match *body {
                Ast::StatementList(inner) => {
                    let name = cur[n - 1]->FunctionDecl_0;
                    let f = analyze_function(r.0, name, params, inner);
                    (
                        f.0.leave(r.0, name),
                        r.1.push(
                            Ast::FunctionDecl(
                                name,
                                f.0.use_this,
                                f.0.free(),
                                params,
                                Box::new(Ast::StatementList(f.1)),
                            ),
                        ),
                    )
                },
                _ => (r.0, r.1.push(cur[n - 1])),
            },
            _ => (r.0, r.1.push(cur[n - 1])),
        }
    }
}

/// The first pass over the statements of a program: the name of every
/// function declaration among the first `n` is declared globally, and every
/// other statement is analyzed, all in order.
pub open spec fn toplevel_plain(st: Scopes, nodes: Seq<Ast>, n: nat) -> (
    Scopes,
    Seq<Ast>,
)
    decreases n,
{
    if n == 0 || n > nodes.len() {
        (st, Seq::empty())
    } else {
        let r = toplevel_plain(st, nodes, (n - 1) as nat);
        match nodes[n - 1] {
            Ast::FunctionDecl(name, _, _, _, _) => (
                r.0.declare_global(name),
                r.1.push(nodes[n - 1]),
            ),
            _ => {
                let a = analyze(r.0, nodes[n - 1]);
                (a.0, r.1.push(a.1))
            },
        }
    }
}

/// The second pass over the statements of a program: every function
/// declaration among the first `n` is analyzed, in order; `cur` holds the
/// statements after the first pass, and the others are taken from it
/// unchanged.
pub open spec fn toplevel_decls(
    st: Scopes,
    nodes: Seq<Ast>,
    cur: Seq<Ast>,
    n: nat,
) -> (Scopes, Seq<Ast>)
    decreases n,
{
    if n == 0 || n > nodes.len() {
        (st, Seq::empty())
    } else {
        let r = toplevel_decls(st, nodes, cur, (n - 1) as nat);
        if nodes[n - 1] is FunctionDecl {
            let a = analyze(r.0, nodes[n - 1]);
            (a.0, r.1.push(a.1))
        } else {
            (r.0, r.1.push(cur[n - 1]))
        }
    }
}

/// The analysis of a whole program, given by its statements.
pub open spec fn analyze_toplevel(st: Scopes, nodes: Seq<Ast>) -> (
    Scopes,
    Seq<Ast>,
) {
    let p = toplevel_plain(st, nodes, nodes.len());
    toplevel_decls(p.0, nodes, p.1, nodes.len())
}

} // verus!
