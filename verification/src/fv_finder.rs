//! The scope and closure analyzer.
//!
//! Before emission the analyzer walks the syntax tree once. On every function
//! declaration it records the names that the function captures and whether it
//! uses `this`, and it gives every function declared inside another function a
//! fresh name, rewriting the references to it in the enclosing body.

use crate::name_set::NameSet;
use crate::node::{nodes_view, option_view, params_view, Ast, FormalParameter, Node};
use crate::scopes::{
    analyzable, analyzable_each, analyzable_option, analyze, analyze_body, analyze_decls,
    analyze_each, analyze_function, analyze_option, analyze_plain, analyze_target,
    analyze_toplevel, assignable, hoist, hoist_each, param_names, toplevel_decls,
    toplevel_plain, Scopes,
};
use crate::text::mangle;
use crate::xorshift::XorShift;
use vstd::hash_map::StringHashMap;
use vstd::prelude::*;
use vstd::string::*;

verus! {

/// The reason why a syntax tree cannot be analyzed.
#[derive(Clone, Copy, Debug, PartialEq, Eq, Structural)]
pub enum AnalysisError {
    /// The tree handed to the analyzer is not a statement list.
    NotAStatementList,
    /// The body of a function is not a statement list, or an assignment goes
    /// to something that is neither an identifier nor a member.
    MalformedTree,
}

/// The state of the analyzer.
pub struct FreeVariableFinder {
    /// Declared names: the global set, then one set for each enclosing function.
    pub varmap: Vec<NameSet>,
    /// The free names collected so far in the innermost function.
    pub cur_fv: NameSet,
    /// For each enclosing function, the new names of the functions nested in it.
    pub mangled_function_name: Vec<StringHashMap<String>>,
    /// Whether `this` has been seen in the innermost function.
    pub use_this: bool,
    /// The source of the numbers in fresh names.
    pub xorshift: XorShift,
}

/// A size of trees that renaming a declaration does not change and that
/// every child is smaller in.
pub open spec fn weight(node: Ast) -> nat
    decreases node, 0nat,
{
    match node {
        Ast::StatementList(nodes) => 2 + weight_each(nodes, nodes.len()),
        Ast::FunctionDecl(_, _, _, _, body) => 1 + weight(*body),
        Ast::Call(callee, args) => 2 + weight(*callee) + weight_each(args, args.len()),
        Ast::VarDecl(_, init) => 1 + weight_option(init),
        Ast::Return(val) => 1 + weight_option(val),
        Ast::Member(parent, _) => 1 + weight(*parent),
        Ast::If(cond, then_, else_) => 1 + weight(*cond) + weight(*then_) + weight(*else_),
        Ast::While(cond, body) => 1 + weight(*cond) + weight(*body),
        Ast::Assign(dst, src) => 1 + weight(*dst) + weight(*src),
        Ast::UnaryOp(expr, _) => 1 + weight(*expr),
        Ast::BinaryOp(left, right, _) => 1 + weight(*left) + weight(*right),
        Ast::TernaryOp(cond, then_, else_) => 1 + weight(*cond) + weight(*then_) + weight(*else_),
        _ => 1,
    }
}

/// The size of an optional tree.
pub open spec fn weight_option(node: Option<Box<Ast>>) -> nat
    decreases node, 1nat,
{
    match node {
        Some(e) => weight(*e),
        None => 0,
    }
}

/// The sizes of the first `n` trees of `nodes`, added up.
pub open spec fn weight_each(nodes: Seq<Ast>, n: nat) -> nat
    decreases nodes, n,
{
    if n == 0 || n > nodes.len() {
        0
    } else {
        weight_each(nodes, (n - 1) as nat) + weight(nodes[n - 1])
    }
}

proof fn lemma_weight_index(nodes: Seq<Ast>, n: nat, i: int)
    requires
        0 <= i < n <= nodes.len(),
    ensures
        weight(nodes[i]) <= weight_each(nodes, n),
    decreases n,
{
    if i < n - 1 {
        lemma_weight_index(nodes, (n - 1) as nat, i);
    }
}

impl FreeVariableFinder {
    /// The state as a mathematical value.
    pub open spec fn view(&self) -> Scopes {
        Scopes {
            varmap: Seq::new(self.varmap@.len(), |i: int| self.varmap@[i]@),
            cur_fv: self.cur_fv@,
            mangled: Seq::new(
                self.mangled_function_name@.len(),
                |i: int| self.mangled_function_name@[i]@.map_values(|s: String| s@),
            ),
            use_this: self.use_this,
            rng: self.xorshift,
        }
    }

    /// The global scope is there.
    pub open spec fn wf(&self) -> bool {
        self.varmap@.len() >= 1
    }

    /// An analyzer whose only scope is the global one, in which `console` is declared.
    pub fn new() -> (r: FreeVariableFinder)
        ensures
            r.wf(),
            r@.varmap == seq![set!["console"@]],
            r@.cur_fv == Set::<Seq<char>>::empty(),
            r@.mangled == Seq::<Map<Seq<char>, Seq<char>>>::empty(),
            !r@.use_this,
            r@.rng == XorShift::unseeded(),
    {
        let mut globals = NameSet::new();
        globals.insert(String::from_str("console"));
        let mut varmap: Vec<NameSet> = Vec::new();
        varmap.push(globals);
        let r = FreeVariableFinder {
            varmap,
            cur_fv: NameSet::new(),
            mangled_function_name: Vec::new(),
            use_this: false,
            xorshift: XorShift::new_unseeded(),
        };
        assert(r@.varmap =~= seq![set!["console"@]]);
        assert(r@.mangled =~= Seq::<Map<Seq<char>, Seq<char>>>::empty());
        r
    }

    /// Declares `name` in the innermost scope.
    fn declare(&mut self, name: String)
        requires
            old(self).wf(),
        ensures
            final(self).wf(),
            final(self)@ == old(self)@.declare(name@),
            final(self).same_depth(old(self)),
    {
        let n = self.varmap.len();
        self.varmap[n - 1].insert(name);
        assert(self@.varmap =~= old(self)@.declare(name@).varmap);
        assert(self@.mangled =~= old(self)@.mangled);
    }

    /// Declares `name` in the global scope.
    fn declare_global(&mut self, name: String)
        requires
            old(self).wf(),
        ensures
            final(self).wf(),
            final(self)@ == old(self)@.declare_global(name@),
            final(self).same_depth(old(self)),
    {
        self.varmap[0].insert(name);
        assert(self@.varmap =~= old(self)@.declare_global(name@).varmap);
        assert(self@.mangled =~= old(self)@.mangled);
    }

    /// Records `name` as free.
    fn capture(&mut self, name: String)
        ensures
            final(self).wf() == old(self).wf(),
            final(self)@ == old(self)@.capture(name@),
            final(self).same_depth(old(self)),
    {
        self.cur_fv.insert(name);
        assert(self@.varmap =~= old(self)@.varmap);
        assert(self@.mangled =~= old(self)@.mangled);
    }

    /// Whether `name` is declared globally or in the innermost scope.
    fn knows(&self, name: &String) -> (r: bool)
        requires
            self.wf(),
        ensures
            r == self@.knows(name@),
    {
        let n = self.varmap.len();
        self.varmap[0].contains(name) || self.varmap[n - 1].contains(name)
    }

    /// Whether `name` is declared in any scope of the chain.
    fn sees(&self, name: &String) -> (r: bool)
        ensures
            r == self@.sees(name@),
    {
        let mut i: usize = 0;
        while i < self.varmap.len()
            invariant
                i <= self.varmap@.len(),
                forall|k: int| 0 <= k < i ==> !(#[trigger] self@.varmap[k]).contains(name@),
            decreases self.varmap@.len() - i,
        {
            if self.varmap[i].contains(name) {
                assert(self@.varmap[i as int].contains(name@));
                return true;
            }
            i += 1;
        }
        false
    }

    /// Whether both analyzers are inside the same number of functions.
    pub open spec fn same_depth(&self, other: &FreeVariableFinder) -> bool {
        &&& self.varmap@.len() == other.varmap@.len()
        &&& self.mangled_function_name@.len() == other.mangled_function_name@.len()
    }

    /// Rewrites a reference to `name` to the new name of the nested function
    /// that it names here, if it names one.
    fn resolve(&self, name: &mut String)
        ensures
            final(name)@ == self@.resolve(old(name)@),
    {
        let mut depth = self.mangled_function_name.len();
        loop
            invariant
                depth <= self.mangled_function_name@.len(),
                name@ == old(name)@,
                self@.resolve(old(name)@) == self@.resolve_from(old(name)@, depth as nat),
            decreases depth,
        {
            if depth == 0 || depth >= self.varmap.len() {
                return ;
            }
            match self.mangled_function_name[depth - 1].get(name.as_str()) {
                Some(to) => {
                    *name = to.clone();
                    return ;
                },
                None => {},
            }
            if self.varmap[depth].contains(name) {
                return ;
            }
            depth = depth - 1;
        }
    }

    /// Draws the number for the new name of the nested function `name` and
    /// builds that name.
    fn fresh_name(&mut self, name: &String) -> (to: String)
        ensures
            final(self).wf() == old(self).wf(),
            final(self).same_depth(old(self)),
            to@ == crate::text::mangled(name@, old(self)@.rng.output()),
            final(self)@ == (Scopes { rng: old(self)@.rng.stepped(), ..old(self)@ }),
    {
        let number = self.xorshift.next_u32();
        assert(self@.varmap =~= old(self)@.varmap);
        assert(self@.mangled =~= old(self)@.mangled);
        mangle(name, number)
    }

    /// Records that the nested function `name` is now called `to`.
    fn record_rename(&mut self, name: String, to: String)
        requires
            old(self).mangled_function_name@.len() >= 1,
        ensures
            final(self).wf() == old(self).wf(),
            final(self).same_depth(old(self)),
            final(self)@ == (Scopes {
                mangled: old(self)@.mangled.update(
                    old(self)@.mangled.len() - 1,
                    old(self)@.mangled.last().insert(name@, to@),
                ),
                ..old(self)@
            }),
    {
        let m = self.mangled_function_name.len();
        self.mangled_function_name[m - 1].insert(name, to);
        assert(self@.varmap =~= old(self)@.varmap);
        assert(self@.mangled[m - 1] =~= old(self)@.mangled.last().insert(name@, to@));
        assert(self@.mangled =~= old(self)@.mangled.update(
            old(self)@.mangled.len() - 1,
            old(self)@.mangled.last().insert(name@, to@),
        ));
    }

    /// Opens the scope of a function called `name` with the parameters
    /// `params`; the function starts without free names and without `this`.
    fn enter(&mut self, name: &String, params: &Vec<FormalParameter>)
        requires
            old(self).wf(),
        ensures
            final(self).wf(),
            final(self).varmap@.len() == old(self).varmap@.len() + 1,
            final(self).mangled_function_name@.len() == old(self).mangled_function_name@.len()
                + 1,
            final(self)@ == old(self)@.enter(name@, params_view(params@)),
    {
        let mut declared = NameSet::new();
        declared.insert(name.clone());
        let mut i: usize = 0;
        while i < params.len()
            invariant
                i <= params@.len(),
                forall|s: Seq<char>|
                    declared@.contains(s) <==> (s == name@ || exists|k: int|
                        0 <= k < i && #[trigger] params_view(params@)[k].name == s),
            decreases params@.len() - i,
        {
            let ghost before = declared@;
            declared.insert(params[i].name.clone());
            proof {
                let ghost added = params@[i as int].name@;
                assert(params_view(params@)[i as int].name == added);
                assert forall|s: Seq<char>|
                    declared@.contains(s) <==> (s == name@ || exists|k: int|
                        0 <= k < i + 1 && #[trigger] params_view(params@)[k].name == s) by {
                    if before.contains(s) && s != name@ {
                        let k = choose|k: int|
                            0 <= k < i && #[trigger] params_view(params@)[k].name == s;
                        assert(0 <= k < i + 1 && params_view(params@)[k].name == s);
                    }
                    if exists|k: int|
                        0 <= k < i + 1 && #[trigger] params_view(params@)[k].name == s {
                        let k = choose|k: int|
                            0 <= k < i + 1 && #[trigger] params_view(params@)[k].name == s;
                        if k < i {
                            assert(before.contains(s));
                        }
                    }
                }
            }
            i += 1;
        }
        assert(declared@ =~= param_names(params_view(params@)).insert(name@));
        self.varmap.push(declared);
        self.mangled_function_name.push(StringHashMap::new());
        self.cur_fv = NameSet::new();
        self.use_this = false;
        assert(self@.varmap =~= old(self)@.enter(name@, params_view(params@)).varmap);
        assert(self@.mangled.last() =~= Map::<Seq<char>, Seq<char>>::empty());
        assert(self@.mangled =~= old(self)@.enter(name@, params_view(params@)).mangled);
    }

    /// Closes the scope of the function called `name`; the enclosing function
    /// had the free names `outer_fv` and the flag `outer_this` when the
    /// function was entered.
    fn leave(&mut self, name: &String, outer_fv: NameSet, outer_this: bool)
        requires
            old(self).varmap@.len() >= 2,
            old(self).mangled_function_name@.len() >= 1,
        ensures
            final(self).wf(),
            final(self).varmap@.len() == old(self).varmap@.len() - 1,
            final(self).mangled_function_name@.len() == old(self).mangled_function_name@.len()
                - 1,
            final(self)@ == old(self)@.leave(
                Scopes { cur_fv: outer_fv@, use_this: outer_this, ..old(self)@ },
                name@,
            ),
    {
        self.mangled_function_name.pop();
        let n = self.varmap.len();
        self.cur_fv.remove_all(&self.varmap[n - 1]);
        self.varmap.pop();
        self.varmap[n - 2].insert(name.clone());
        self.cur_fv.remove_all(&self.varmap[n - 2]);
        let mut joined = outer_fv;
        joined.insert_all(&self.cur_fv);
        self.cur_fv = joined;
        self.use_this = outer_this;
        let ghost expected = old(self)@.leave(
            Scopes { cur_fv: outer_fv@, use_this: outer_this, ..old(self)@ },
            name@,
        );
        assert(self@.varmap =~= expected.varmap);
        assert(self@.mangled =~= expected.mangled);
        assert(self@.cur_fv =~= expected.cur_fv);
    }

    /// Analyzes a whole program in place.
    ///
    /// The program must be a statement list, and its shape must be one that
    /// the analysis can handle; otherwise nothing is changed. The analyzer
    /// and the program end as `analyze_toplevel` says.
    pub fn run_toplevel(&mut self, node: &mut Node) -> (r: Result<(), AnalysisError>)
        requires
            old(self).wf(),
        ensures
            final(self).wf(),
            final(self).same_depth(old(self)),
            r == Err::<(), AnalysisError>(AnalysisError::NotAStatementList)
                <==> !(old(node)@ is StatementList),
            r == Err::<(), AnalysisError>(AnalysisError::MalformedTree)
                <==> old(node)@ is StatementList
                && !analyzable(old(node)@),
            r is Err ==> final(self)@ == old(self)@ && final(node)@ == old(node)@,
            r is Ok ==> ({
                let t = analyze_toplevel(old(self)@, old(node)@->StatementList_0);
                &&& t.0 == final(self)@
                &&& final(node)@ == Ast::StatementList(t.1)
            }),
    {
        if !node.is_analyzable() {
            return match node {
                Node::StatementList(_) => Err(AnalysisError::MalformedTree),
                _ => Err(AnalysisError::NotAStatementList),
            };
        }
        match node {
            Node::StatementList(nodes) => {
                self.toplevel_first(nodes);
                let ghost st1 = self@;
                let ghost cur1 = nodes_view(nodes@);
                self.toplevel_second(nodes, Ghost(nodes_view(old(node)->StatementList_0@)));
                Ok(())
            },
            _ => Err(AnalysisError::NotAStatementList),
        }
    }

    /// The first pass over a program: declares the functions globally and
    /// analyzes the other statements.
    fn toplevel_first(&mut self, nodes: &mut Vec<Node>)
        requires
            old(self).wf(),
            analyzable_each(nodes_view(old(nodes)@), old(nodes)@.len() as nat),
        ensures
            final(self).wf(),
            final(self).same_depth(old(self)),
            final(nodes)@.len() == old(nodes)@.len(),
            forall|k: int|
                0 <= k < old(nodes)@.len() && old(nodes)@[k] is FunctionDecl
                    ==> #[trigger] final(nodes)@[k] == old(nodes)@[k],
            forall|k: int|
                0 <= k < old(nodes)@.len() ==> ((#[trigger] final(nodes)@[k]) is FunctionDecl
                    <==> old(nodes)@[k] is FunctionDecl),
            toplevel_plain(
                    old(self)@,
                    nodes_view(old(nodes)@),
                    old(nodes)@.len() as nat,
                ) == (final(self)@, nodes_view(final(nodes)@)),
    {
        let n = nodes.len();
        let ghost orig = nodes_view(nodes@);
        let mut i: usize = 0;
        while i < n
            invariant
                i <= n,
                nodes@.len() == n,
                old(nodes)@.len() == n,
                orig == nodes_view(old(nodes)@),
                analyzable_each(orig, n as nat),
                self.wf(),
                self.same_depth(old(self)),
                forall|k: int| i <= k < n ==> nodes@[k] == old(nodes)@[k],
                forall|k: int|
                    0 <= k < n && old(nodes)@[k] is FunctionDecl
                        ==> #[trigger] nodes@[k] == old(nodes)@[k],
                forall|k: int|
                    0 <= k < n
                        ==> ((#[trigger] nodes@[k]) is FunctionDecl <==> old(nodes)@[k] is FunctionDecl),
                toplevel_plain(old(self)@, orig, i as nat)
                        == (self@, nodes_view(nodes@).take(i as int)),
            decreases n - i,
        {
            let ghost st1 = self@;
            let ghost done = nodes_view(nodes@).take(i as int);
            proof {
                lemma_analyzable_index(orig, n as nat, i as int);
                assert(nodes@[i as int]@ == orig[i as int]);
            }
            match &nodes[i] {
                Node::FunctionDecl(name, _, _, _, _) => {
                    self.declare_global(name.clone());
                },
                _ => {
                    self.run(&mut nodes[i]);
                    proof {
                        lemma_keeps_kind(st1, orig[i as int]);
                    }
                },
            }
            proof {
                assert(nodes_view(nodes@).take(i + 1) =~= done.push(nodes@[i as int]@));
                assert(toplevel_plain(
                    old(self)@,
                    orig,
                    (i + 1) as nat,
                ) == (self@, nodes_view(nodes@).take(i + 1))) by {
                    assert(toplevel_plain(old(self)@, orig, i as nat) == (st1, done));
                }
            }
            i += 1;
        }
        assert(nodes_view(nodes@).take(n as int) =~= nodes_view(nodes@));
    }

    /// The second pass over a program: analyzes the function declarations.
    fn toplevel_second(&mut self, nodes: &mut Vec<Node>, orig: Ghost<Seq<Ast>>)
        requires
            old(self).wf(),
            orig@.len() == old(nodes)@.len(),
            analyzable_each(orig@, old(nodes)@.len() as nat),
            forall|k: int|
                0 <= k < old(nodes)@.len() && (#[trigger] orig@[k]) is FunctionDecl
                    ==> old(nodes)@[k]@
                    == orig@[k],
            forall|k: int|
                0 <= k < old(nodes)@.len()
                    ==> ((#[trigger] orig@[k]) is FunctionDecl <==> old(nodes)@[k]@ is FunctionDecl),
        ensures
            final(self).wf(),
            final(self).same_depth(old(self)),
            final(nodes)@.len() == old(nodes)@.len(),
            toplevel_decls(
                    old(self)@,
                    orig@,
                    nodes_view(old(nodes)@),
                    old(nodes)@.len() as nat,
                ) == (final(self)@, nodes_view(final(nodes)@)),
    {
        let n = nodes.len();
        let ghost cur = nodes_view(nodes@);
        let mut i: usize = 0;
        while i < n
            invariant
                i <= n,
                nodes@.len() == n,
                old(nodes)@.len() == n,
                orig@.len() == n,
                cur == nodes_view(old(nodes)@),
                analyzable_each(orig@, n as nat),
                forall|k: int|
                    0 <= k < n && (#[trigger] orig@[k]) is FunctionDecl ==> cur[k] == orig@[k],
                forall|k: int|
                    0 <= k < n
                        ==> ((#[trigger] orig@[k]) is FunctionDecl <==> cur[k] is FunctionDecl),
                self.wf(),
                self.same_depth(old(self)),
                forall|k: int| i <= k < n ==> nodes@[k] == old(nodes)@[k],
                toplevel_decls(
                        old(self)@,
                        orig@,
                        cur,
                        i as nat,
                    ) == (self@, nodes_view(nodes@).take(i as int)),
            decreases n - i,
        {
            let ghost st1 = self@;
            let ghost done = nodes_view(nodes@).take(i as int);
            proof {
                lemma_analyzable_index(orig@, n as nat, i as int);
                assert(nodes@[i as int]@ == cur[i as int]);
            }
            match &nodes[i] {
                Node::FunctionDecl(_, _, _, _, _) => {
                    assert(orig@[i as int] is FunctionDecl);
                    self.run(&mut nodes[i]);
                },
                _ => {},
            }
            proof {
                assert(nodes_view(nodes@).take(i + 1) =~= done.push(nodes@[i as int]@));
                assert(toplevel_decls(
                    old(self)@,
                    orig@,
                    cur,
                    (i + 1) as nat,
                ) == (self@, nodes_view(nodes@).take(i + 1))) by {
                    assert(toplevel_decls(old(self)@, orig@, cur, i as nat) == (st1, done));
                    if orig@[i as int] is FunctionDecl {
                        let a = analyze(st1, orig@[i as int]);
                        assert(self@.varmap =~= a.0.varmap);
                        assert(self@.mangled =~= a.0.mangled);
                    }
                }
            }
            i += 1;
        }
        assert(nodes_view(nodes@).take(n as int) =~= nodes_view(nodes@));
    }

    /// Analyzes one tree in place.
    ///
    /// The analyzer and the tree end as `analyze` says.
    pub fn run(&mut self, node: &mut Node)
        requires
            old(self).wf(),
            analyzable(old(node)@),
        ensures
            final(self).wf(),
            final(self).same_depth(old(self)),
            analyze(old(self)@, old(node)@) == (
                    final(self)@,
                    final(node)@,
                ),
        decreases weight(old(node)@), 0nat,
    {
        match node {
            Node::StatementList(nodes) => {
                self.run_each(nodes);
            },
            Node::FunctionDecl(name, use_this, fv, params, body) => {
                self.run_function(name, use_this, fv, params, &mut **body);
            },
            Node::Call(callee, args) => {
                self.run_call(&mut *callee, args);
            },
            Node::VarDecl(name, init) => {
                self.declare(name.clone());
                self.run_option(init);
            },
            Node::Return(val) => {
                self.run_option(val);
            },
            Node::Member(parent, _) => {
                self.run(&mut *parent);
            },
            Node::This => {
                self.use_this = true;
                assert(self@.varmap =~= old(self)@.varmap);
                assert(self@.mangled =~= old(self)@.mangled);
            },
            Node::Identifier(name) => {
                self.run_identifier(name);
            },
            Node::If(cond, then_, else_) => {
                self.run_three(&mut *cond, &mut *then_, &mut *else_);
            },
            Node::While(cond, body) => {
                self.run_pair(&mut *cond, &mut *body);
            },
            Node::Assign(dst, src) => {
                self.run_assign(&mut *dst, &mut *src);
            },
            Node::UnaryOp(expr, _) => {
                self.run(&mut *expr);
            },
            Node::BinaryOp(left, right, _) => {
                self.run_pair(&mut *left, &mut *right);
            },
            Node::TernaryOp(cond, then_, else_) => {
                self.run_three(&mut *cond, &mut *then_, &mut *else_);
            },
            _ => {},
        }
    }

    /// Analyzes a reference to an identifier in place: the reference is
    /// rewritten if it names a renamed function; if then neither the global
    /// nor the innermost scope declares the name, it becomes global at top
    /// level and free inside a function.
    fn run_identifier(&mut self, name: &mut String)
        requires
            old(self).wf(),
        ensures
            final(self).wf(),
            final(self).same_depth(old(self)),
            final(self)@ == old(self)@.refer(old(name)@),
            final(name)@ == old(self)@.resolve(old(name)@),
    {
        self.resolve(name);
        let free = !self.knows(name);
        if free {
            if self.varmap.len() == 1 {
                self.declare_global(name.clone());
            } else {
                self.capture(name.clone());
            }
        }
    }

    /// Analyzes an optional tree in place.
    fn run_option(&mut self, node: &mut Option<Box<Node>>)
        requires
            old(self).wf(),
            analyzable_option(option_view(*old(node))),
        ensures
            final(self).wf(),
            final(self).same_depth(old(self)),
            analyze_option(
                    old(self)@,
                    option_view(*old(node)),
                ) == (final(self)@, option_view(*final(node))),
        decreases weight_option(option_view(*old(node))), 1nat,
    {
        match node {
            Some(e) => {
                self.run(&mut *e);
            },
            None => {},
        }
    }

    /// Analyzes a call in place: the callee, then the arguments in order.
    fn run_call(&mut self, callee: &mut Node, args: &mut Vec<Node>)
        requires
            old(self).wf(),
            analyzable(old(callee)@),
            analyzable_each(nodes_view(old(args)@), old(args)@.len() as nat),
        ensures
            final(self).wf(),
            final(self).same_depth(old(self)),
            ({
                let c = analyze(old(self)@, old(callee)@);
                &&& c.1 == final(callee)@
                &&& analyze_each(c.0, nodes_view(old(args)@), old(args)@.len() as nat)
                    == (final(self)@, nodes_view(final(args)@))
            }),
        decreases
                weight(old(callee)@) + weight_each(
                    nodes_view(old(args)@),
                    old(args)@.len() as nat,
                ) + 1,
                1nat,
    {
        self.run(callee);
        let ghost st1 = self@;
        self.run_each(args);
    }

    /// Analyzes three trees in place, one after the other.
    fn run_three(&mut self, first: &mut Node, second: &mut Node, third: &mut Node)
        requires
            old(self).wf(),
            analyzable(old(first)@),
            analyzable(old(second)@),
            analyzable(old(third)@),
        ensures
            final(self).wf(),
            final(self).same_depth(old(self)),
            ({
                let a = analyze(old(self)@, old(first)@);
                let b = analyze(a.0, old(second)@);
                &&& a.1 == final(first)@
                &&& b.1 == final(second)@
                &&& analyze(b.0, old(third)@) == (final(self)@, final(third)@)
            }),
        decreases weight(old(first)@) + weight(old(second)@) + weight(old(third)@), 1nat,
    {
        self.run(first);
        let ghost st1 = self@;
        self.run_pair(second, third);
    }

    /// Analyzes an assignment in place: the target, then the source.
    fn run_assign(&mut self, dst: &mut Node, src: &mut Node)
        requires
            old(self).wf(),
            assignable(old(dst)@),
            analyzable(old(src)@),
        ensures
            final(self).wf(),
            final(self).same_depth(old(self)),
            ({
                let d = analyze_target(old(self)@, old(dst)@);
                &&& d.1 == final(dst)@
                &&& analyze(d.0, old(src)@) == (final(self)@, final(src)@)
            }),
        decreases weight(old(dst)@) + weight(old(src)@), 2nat,
    {
        self.run_target(dst);
        let ghost st1 = self@;
        self.run(src);
    }

    /// Analyzes two trees in place, one after the other.
    fn run_pair(&mut self, first: &mut Node, second: &mut Node)
        requires
            old(self).wf(),
            analyzable(old(first)@),
            analyzable(old(second)@),
        ensures
            final(self).wf(),
            final(self).same_depth(old(self)),
            ({
                let a = analyze(old(self)@, old(first)@);
                &&& a.1 == final(first)@
                &&& analyze(a.0, old(second)@) == (final(self)@, final(second)@)
            }),
        decreases weight(old(first)@) + weight(old(second)@), 1nat,
    {
        self.run(first);
        let ghost st1 = self@;
        self.run(second);
    }

    /// Analyzes the target of an assignment in place: a bare identifier is
    /// rewritten as a reference is, declared globally if no scope declares
    /// it, and captured if neither the global nor the innermost scope does;
    /// the parent of a member is analyzed.
    fn run_target(&mut self, dst: &mut Node)
        requires
            old(self).wf(),
            assignable(old(dst)@),
        ensures
            final(self).wf(),
            final(self).same_depth(old(self)),
            analyze_target(old(self)@, old(dst)@) == (
                    final(self)@,
                    final(dst)@,
                ),
        decreases weight(old(dst)@), 1nat,
    {
        match dst {
            Node::Identifier(name) => {
                let seen = self.sees(name);
                let given = name.clone();
                self.resolve(name);
                let known = self.knows(name);
                if !seen {
                    self.declare_global(given);
                } else if !known {
                    self.capture(name.clone());
                }
            },
            Node::Member(parent, _) => {
                self.run(&mut *parent);
            },
            _ => {},
        }
    }

    /// Analyzes a function declaration, given by its fields, in place: its
    /// free names and its flag for `this` are written on it, and the
    /// enclosing function gets back its own.
    fn run_function(
        &mut self,
        name: &String,
        use_this: &mut bool,
        fv: &mut NameSet,
        params: &Vec<FormalParameter>,
        body: &mut Node,
    )
        requires
            old(self).wf(),
            old(body)@ is StatementList,
            analyzable(old(body)@),
        ensures
            final(self).wf(),
            final(self).same_depth(old(self)),
            ({
                let r = analyze_function(
                    old(self)@,
                    name@,
                    params_view(params@),
                    old(body)@->StatementList_0,
                );
                &&& final(self)@ == r.0.leave(old(self)@, name@)
                &&& final(body)@ == Ast::StatementList(r.1)
                &&& *final(use_this) == r.0.use_this
                &&& final(fv)@ == r.0.free()
            }),
        decreases weight(old(body)@), 1nat,
    {
        let outer_fv = self.cur_fv.copy();
        let outer_this = self.use_this;
        self.enter(name, params);
        match body {
            Node::StatementList(stmts) => {
                self.run_body(stmts);
            },
            _ => {},
        }
        let n = self.varmap.len();
        let mut free = self.cur_fv.copy();
        free.remove_all(&self.varmap[n - 1]);
        *fv = free;
        *use_this = self.use_this;
        self.leave(name, outer_fv, outer_this);
    }

    /// Analyzes the statements of a function body in place, in three passes:
    /// hoisting, the statements that are no declarations, the declarations.
    fn run_body(&mut self, stmts: &mut Vec<Node>)
        requires
            old(self).wf(),
            old(self).mangled_function_name@.len() >= 1,
            analyzable_each(nodes_view(old(stmts)@), old(stmts)@.len() as nat),
        ensures
            final(self).wf(),
            final(self).same_depth(old(self)),
            final(stmts)@.len() == old(stmts)@.len(),
            analyze_body(
                    old(self)@,
                    nodes_view(old(stmts)@),
                ) == (final(self)@, nodes_view(final(stmts)@)),
        decreases weight_each(nodes_view(old(stmts)@), old(stmts)@.len() as nat) + 2, 0nat,
    {
        let ghost orig = nodes_view(stmts@);
        let ghost n = orig.len();
        self.hoist_all(stmts);
        let ghost st1 = self@;
        let ghost cur1 = nodes_view(stmts@);
        proof {
            assert forall|k: int| 0 <= k < n implies like_hoisted(#[trigger] cur1[k], orig[k]) by {
                assert(renamed(stmts@[k], old(stmts)@[k]));
            }
            lemma_hoisted_same(orig, cur1, n);
        }
        self.run_plain(stmts);
        let ghost st2 = self@;
        let ghost cur2 = nodes_view(stmts@);
        self.run_decls(stmts, Ghost(cur1));
        proof {
            assert(analyze_body(
                old(self)@,
                orig,
            ) == (self@, nodes_view(stmts@))) by {
                assert(hoist_each(old(self)@, orig, n) == (st1, cur1));
                lemma_passes_agree(st1, orig, cur1, n);
                assert(analyze_plain(st1, cur1, cur1, n) == (st2, cur2));
                lemma_decls_agree(st2, orig, cur1, cur2, n);
            }
        }
    }

    /// Analyzes the trees of a list in place, in order.
    fn run_each(&mut self, nodes: &mut Vec<Node>)
        requires
            old(self).wf(),
            analyzable_each(nodes_view(old(nodes)@), old(nodes)@.len() as nat),
        ensures
            final(self).wf(),
            final(self).same_depth(old(self)),
            final(nodes)@.len() == old(nodes)@.len(),
            analyze_each(
                    old(self)@,
                    nodes_view(old(nodes)@),
                    old(nodes)@.len() as nat,
                ) == (final(self)@, nodes_view(final(nodes)@)),
        decreases weight_each(nodes_view(old(nodes)@), old(nodes)@.len() as nat) + 1, 0nat,
    {
        let n = nodes.len();
        let ghost orig = nodes_view(nodes@);
        let mut i: usize = 0;
        while i < n
            invariant
                i <= n,
                nodes@.len() == n,
                old(nodes)@.len() == n,
                orig == nodes_view(old(nodes)@),
                analyzable_each(orig, n as nat),
                self.wf(),
                self.same_depth(old(self)),
                forall|k: int| i <= k < n ==> nodes@[k] == old(nodes)@[k],
                analyze_each(old(self)@, orig, i as nat)
                        == (self@, nodes_view(nodes@).take(i as int)),
            decreases n - i,
        {
            let ghost st1 = self@;
            let ghost done = nodes_view(nodes@).take(i as int);
            proof {
                lemma_weight_index(orig, n as nat, i as int);
                lemma_analyzable_index(orig, n as nat, i as int);
                assert(nodes@[i as int]@ == orig[i as int]);
            }
            self.run(&mut nodes[i]);
            proof {
                assert(nodes_view(nodes@).take(i + 1) =~= done.push(nodes@[i as int]@));
                assert(analyze_each(
                    old(self)@,
                    orig,
                    (i + 1) as nat,
                ) == (self@, nodes_view(nodes@).take(i + 1))) by {
                    assert(analyze_each(old(self)@, orig, i as nat) == (st1, done));
                }
            }
            i += 1;
        }
        assert(nodes_view(nodes@).take(n as int) =~= nodes_view(nodes@));
    }

    /// Hoists the function declarations among `stmts`: each is declared in the
    /// innermost scope and, inside another function, given a fresh name.
    fn hoist_all(&mut self, stmts: &mut Vec<Node>)
        requires
            old(self).wf(),
            old(self).mangled_function_name@.len() >= 1,
        ensures
            final(self).wf(),
            final(self).same_depth(old(self)),
            final(stmts)@.len() == old(stmts)@.len(),
            forall|k: int|
                0 <= k < old(stmts)@.len() ==> renamed(#[trigger] final(stmts)@[k], old(stmts)@[k]),
            hoist_each(
                    old(self)@,
                    nodes_view(old(stmts)@),
                    old(stmts)@.len() as nat,
                ) == (final(self)@, nodes_view(final(stmts)@)),
    {
        let n = stmts.len();
        let ghost orig = nodes_view(stmts@);
        let mut i: usize = 0;
        while i < n
            invariant
                i <= n,
                stmts@.len() == n,
                old(stmts)@.len() == n,
                orig == nodes_view(old(stmts)@),
                self.wf(),
                self.mangled_function_name@.len() >= 1,
                self.same_depth(old(self)),
                forall|k: int| i <= k < n ==> stmts@[k] == old(stmts)@[k],
                forall|k: int| 0 <= k < n ==> renamed(#[trigger] stmts@[k], old(stmts)@[k]),
                hoist_each(old(self)@, orig, i as nat) == (
                        self@,
                        nodes_view(stmts@).take(i as int),
                    ),
            decreases n - i,
        {
            let ghost st1 = self@;
            let ghost done = nodes_view(stmts@).take(i as int);
            let ghost before = stmts@;
            assert(stmts@[i as int]@ == orig[i as int]);
            match &mut stmts[i] {
                Node::FunctionDecl(name, _, _, _, _) => {
                    if self.varmap.len() >= 2 {
                        let to = self.fresh_name(name);
                        self.declare(name.clone());
                        self.record_rename(name.clone(), to.clone());
                        *name = to;
                    } else {
                        self.declare(name.clone());
                    }
                },
                _ => {},
            }
            proof {
                assert(renamed(stmts@[i as int], before[i as int]));
                assert(nodes_view(stmts@).take(i + 1) =~= done.push(stmts@[i as int]@));
                assert(hoist_each(
                    old(self)@,
                    orig,
                    (i + 1) as nat,
                ) == (self@, nodes_view(stmts@).take(i + 1))) by {
                    assert(hoist_each(old(self)@, orig, i as nat) == (st1, done));
                    let h = hoist(st1, orig[i as int]);
                    assert(h.0.varmap =~= self@.varmap);
                    assert(h.0.mangled =~= self@.mangled);
                    assert(h.0 == self@);
                    assert(h.1 == stmts@[i as int]@);
                }
            }
            i += 1;
        }
        assert(nodes_view(stmts@).take(n as int) =~= nodes_view(stmts@));
    }

    /// Analyzes, in order, the statements among `stmts` that are no function
    /// declarations.
    fn run_plain(&mut self, stmts: &mut Vec<Node>)
        requires
            old(self).wf(),
            analyzable_each(nodes_view(old(stmts)@), old(stmts)@.len() as nat),
        ensures
            final(self).wf(),
            final(self).same_depth(old(self)),
            final(stmts)@.len() == old(stmts)@.len(),
            forall|k: int|
                0 <= k < old(stmts)@.len() && old(stmts)@[k] is FunctionDecl
                    ==> #[trigger] final(stmts)@[k] == old(stmts)@[k],
            forall|k: int|
                0 <= k < old(stmts)@.len() ==> ((#[trigger] final(stmts)@[k]) is FunctionDecl
                    <==> old(stmts)@[k] is FunctionDecl),
            analyze_plain(
                    old(self)@,
                    nodes_view(old(stmts)@),
                    nodes_view(old(stmts)@),
                    old(stmts)@.len() as nat,
                ) == (final(self)@, nodes_view(final(stmts)@)),
        decreases weight_each(nodes_view(old(stmts)@), old(stmts)@.len() as nat) + 1, 0nat,
    {
        let n = stmts.len();
        let ghost orig = nodes_view(stmts@);
        let mut i: usize = 0;
        while i < n
            invariant
                i <= n,
                stmts@.len() == n,
                old(stmts)@.len() == n,
                orig == nodes_view(old(stmts)@),
                analyzable_each(orig, n as nat),
                self.wf(),
                self.same_depth(old(self)),
                forall|k: int| i <= k < n ==> stmts@[k] == old(stmts)@[k],
                forall|k: int|
                    0 <= k < n && old(stmts)@[k] is FunctionDecl
                        ==> #[trigger] stmts@[k] == old(stmts)@[k],
                forall|k: int|
                    0 <= k < n
                        ==> ((#[trigger] stmts@[k]) is FunctionDecl <==> old(stmts)@[k] is FunctionDecl),
                analyze_plain(
                        old(self)@,
                        orig,
                        orig,
                        i as nat,
                    ) == (self@, nodes_view(stmts@).take(i as int)),
            decreases n - i,
        {
            let ghost st1 = self@;
            let ghost done = nodes_view(stmts@).take(i as int);
            proof {
                lemma_weight_index(orig, n as nat, i as int);
                lemma_analyzable_index(orig, n as nat, i as int);
                assert(stmts@[i as int]@ == orig[i as int]);
            }
            match &stmts[i] {
                Node::FunctionDecl(_, _, _, _, _) => {},
                _ => {
                    self.run(&mut stmts[i]);
                    proof {
                        lemma_keeps_kind(st1, orig[i as int]);
                    }
                },
            }
            proof {
                assert(nodes_view(stmts@).take(i + 1) =~= done.push(stmts@[i as int]@));
                assert(analyze_plain(
                    old(self)@,
                    orig,
                    orig,
                    (i + 1) as nat,
                ) == (self@, nodes_view(stmts@).take(i + 1))) by {
                    assert(analyze_plain(old(self)@, orig, orig, i as nat) == (st1, done));
                }
            }
            i += 1;
        }
        assert(nodes_view(stmts@).take(n as int) =~= nodes_view(stmts@));
    }

    /// Analyzes, in order, the function declarations among `stmts`.
    fn run_decls(&mut self, stmts: &mut Vec<Node>, hoisted: Ghost<Seq<Ast>>)
        requires
            old(self).wf(),
            hoisted@.len() == old(stmts)@.len(),
            analyzable_each(hoisted@, old(stmts)@.len() as nat),
            forall|k: int|
                0 <= k < old(stmts)@.len() && (#[trigger] hoisted@[k]) is FunctionDecl
                    ==> old(stmts)@[k]@ == hoisted@[k],
            forall|k: int|
                0 <= k < old(stmts)@.len()
                    ==> ((#[trigger] hoisted@[k]) is FunctionDecl <==> old(stmts)@[k]@ is FunctionDecl),
        ensures
            final(self).wf(),
            final(self).same_depth(old(self)),
            final(stmts)@.len() == old(stmts)@.len(),
            analyze_decls(
                    old(self)@,
                    hoisted@,
                    nodes_view(old(stmts)@),
                    old(stmts)@.len() as nat,
                ) == (final(self)@, nodes_view(final(stmts)@)),
        decreases weight_each(hoisted@, old(stmts)@.len() as nat) + 1, 0nat,
    {
        let n = stmts.len();
        let ghost cur = nodes_view(stmts@);
        let mut i: usize = 0;
        while i < n
            invariant
                i <= n,
                stmts@.len() == n,
                old(stmts)@.len() == n,
                hoisted@.len() == n,
                cur == nodes_view(old(stmts)@),
                analyzable_each(hoisted@, n as nat),
                forall|k: int|
                    0 <= k < n && (#[trigger] hoisted@[k]) is FunctionDecl
                        ==> cur[k] == hoisted@[k],
                forall|k: int|
                    0 <= k < n
                        ==> ((#[trigger] hoisted@[k]) is FunctionDecl <==> cur[k] is FunctionDecl),
                self.wf(),
                self.same_depth(old(self)),
                forall|k: int| i <= k < n ==> stmts@[k] == old(stmts)@[k],
                analyze_decls(
                        old(self)@,
                        hoisted@,
                        cur,
                        i as nat,
                    ) == (self@, nodes_view(stmts@).take(i as int)),
            decreases n - i,
        {
            let ghost st1 = self@;
            let ghost done = nodes_view(stmts@).take(i as int);
            proof {
                lemma_weight_index(hoisted@, n as nat, i as int);
                lemma_analyzable_index(hoisted@, n as nat, i as int);
                assert(stmts@[i as int]@ == cur[i as int]);
            }
            match &stmts[i] {
                Node::FunctionDecl(_, _, _, _, _) => {
                    assert(hoisted@[i as int] is FunctionDecl);
                    self.run(&mut stmts[i]);
                },
                _ => {},
            }
            proof {
                assert(nodes_view(stmts@).take(i + 1) =~= done.push(stmts@[i as int]@));
                assert(analyze_decls(
                    old(self)@,
                    hoisted@,
                    cur,
                    (i + 1) as nat,
                ) == (self@, nodes_view(stmts@).take(i + 1))) by {
                    assert(analyze_decls(old(self)@, hoisted@, cur, i as nat) == (st1, done));
                }
            }
            i += 1;
        }
        assert(nodes_view(stmts@).take(n as int) =~= nodes_view(stmts@));
    }
}

impl Node {
    /// Whether the analysis can handle the shape of this tree.
    pub fn is_analyzable(&self) -> (r: bool)
        ensures
            r == analyzable(self@),
        decreases self, 0nat,
    {
        match self {
            Node::StatementList(nodes) => all_analyzable(nodes),
            Node::FunctionDecl(_, _, _, _, body) => {
                let listed = match &**body {
                    Node::StatementList(_) => true,
                    _ => false,
                };
                listed && body.is_analyzable()
            },
            Node::Call(callee, args) => callee.is_analyzable() && all_analyzable(args),
            Node::VarDecl(_, init) => option_analyzable(init),
            Node::Return(val) => option_analyzable(val),
            Node::Member(parent, _) => parent.is_analyzable(),
            Node::If(cond, then_, else_) => cond.is_analyzable() && then_.is_analyzable()
                && else_.is_analyzable(),
            Node::While(cond, body) => cond.is_analyzable() && body.is_analyzable(),
            Node::Assign(dst, src) => dst.is_assignable() && src.is_analyzable(),
            Node::UnaryOp(expr, _) => expr.is_analyzable(),
            Node::BinaryOp(left, right, _) => left.is_analyzable() && right.is_analyzable(),
            Node::TernaryOp(cond, then_, else_) => cond.is_analyzable() && then_.is_analyzable()
                && else_.is_analyzable(),
            _ => true,
        }
    }

    /// Whether this tree can be the target of an assignment.
    pub fn is_assignable(&self) -> (r: bool)
        ensures
            r == assignable(self@),
        decreases self, 1nat,
    {
        match self {
            Node::Identifier(_) => true,
            Node::Member(parent, _) => parent.is_analyzable(),
            _ => false,
        }
    }
}

/// Whether an optional tree is absent or has a shape that the analysis can handle.
pub fn option_analyzable(node: &Option<Box<Node>>) -> (r: bool)
    ensures
        r == analyzable_option(option_view(*node)),
    decreases node, 1nat,
{
    match node {
        Some(e) => e.is_analyzable(),
        None => true,
    }
}

/// Whether the analysis can handle the shape of every tree of `nodes`.
pub fn all_analyzable(nodes: &Vec<Node>) -> (r: bool)
    ensures
        r == analyzable_each(nodes_view(nodes@), nodes@.len() as nat),
    decreases nodes, 1nat,
{
    let mut i: usize = 0;
    while i < nodes.len()
        invariant
            i <= nodes@.len(),
            analyzable_each(nodes_view(nodes@), i as nat),
        decreases nodes@.len() - i,
    {
        if !nodes[i].is_analyzable() {
            proof {
                lemma_not_analyzable(nodes_view(nodes@), nodes@.len() as nat, i as int);
            }
            return false;
        }
        i += 1;
    }
    true
}

proof fn lemma_not_analyzable(nodes: Seq<Ast>, n: nat, i: int)
    requires
        0 <= i < n <= nodes.len(),
        !analyzable(nodes[i]),
    ensures
        !analyzable_each(nodes, n),
    decreases n,
{
    if i < n - 1 {
        lemma_not_analyzable(nodes, (n - 1) as nat, i);
    }
}

/// Whether `new` is `old` up to the name of a function declaration.
pub open spec fn renamed(new: Node, old: Node) -> bool {
    match old {
        Node::FunctionDecl(_, use_this, fv, params, body) => {
            &&& new is FunctionDecl
            &&& new->FunctionDecl_1 == use_this
            &&& new->FunctionDecl_2 == fv
            &&& new->FunctionDecl_3 == params
            &&& new->FunctionDecl_4 == body
        },
        _ => new == old,
    }
}

proof fn lemma_analyzable_index(nodes: Seq<Ast>, n: nat, i: int)
    requires
        0 <= i < n <= nodes.len(),
        analyzable_each(nodes, n),
    ensures
        analyzable(nodes[i]),
    decreases n,
{
    if i < n - 1 {
        lemma_analyzable_index(nodes, (n - 1) as nat, i);
    }
}

/// The analysis turns a function declaration into one, and nothing else.
proof fn lemma_keeps_kind(st: Scopes, node: Ast)
    ensures
        analyze(st, node).1 is FunctionDecl <==> node is FunctionDecl,
{
}

/// Hoisting changes neither the size of a statement nor whether it can be
/// analyzed.
proof fn lemma_hoisted_same(orig: Seq<Ast>, cur: Seq<Ast>, n: nat)
    requires
        n <= orig.len(),
        orig.len() == cur.len(),
        forall|k: int| 0 <= k < orig.len() ==> like_hoisted(#[trigger] cur[k], orig[k]),
    ensures
        weight_each(cur, n) == weight_each(orig, n),
        analyzable_each(cur, n) == analyzable_each(orig, n),
    decreases n,
{
    if n > 0 {
        lemma_hoisted_same(orig, cur, (n - 1) as nat);
        lemma_like_hoisted(cur[n - 1], orig[n - 1]);
    }
}

/// A tree keeps its size, and whether it can be analyzed, when it is hoisted.
proof fn lemma_like_hoisted(new: Ast, old: Ast)
    requires
        like_hoisted(new, old),
    ensures
        weight(new) == weight(old),
        analyzable(new) == analyzable(old),
{
    match old {
        Ast::FunctionDecl(_, _, _, _, body) => {
            assert(new->FunctionDecl_4 == body);
            assert(weight(new) == 1 + weight(*body));
            assert(weight(old) == 1 + weight(*body));
            assert(analyzable(new) == (*body is StatementList && analyzable(*body)));
            assert(analyzable(old) == (*body is StatementList && analyzable(*body)));
        },
        _ => {},
    }
}

/// The second pass gives the same result whether it reads the statements
/// before or after hoisting: hoisting changes function declarations only.
proof fn lemma_passes_agree(st: Scopes, orig: Seq<Ast>, cur: Seq<Ast>, n: nat)
    requires
        n <= orig.len(),
        orig.len() == cur.len(),
        forall|k: int| 0 <= k < orig.len() ==> like_hoisted(#[trigger] cur[k], orig[k]),
    ensures
        analyze_plain(st, orig, cur, n) == analyze_plain(st, cur, cur, n),
    decreases n,
{
    if n > 0 {
        lemma_passes_agree(st, orig, cur, (n - 1) as nat);
        assert(like_hoisted(cur[n - 1], orig[n - 1]));
    }
}

/// The third pass gives the same result whether it reads the bodies of the
/// declarations before or after hoisting, and whether it takes the other
/// statements before or after the second pass.
proof fn lemma_decls_agree(
    st: Scopes,
    orig: Seq<Ast>,
    cur1: Seq<Ast>,
    cur2: Seq<Ast>,
    n: nat,
)
    requires
        n <= orig.len(),
        orig.len() == cur1.len(),
        orig.len() == cur2.len(),
        forall|k: int| 0 <= k < orig.len() ==> like_hoisted(#[trigger] cur1[k], orig[k]),
        forall|k: int|
            0 <= k < orig.len() && (#[trigger] cur1[k]) is FunctionDecl ==> cur2[k] == cur1[k],
    ensures
        analyze_decls(st, orig, cur2, n) == analyze_decls(st, cur1, cur2, n),
    decreases n,
{
    if n > 0 {
        lemma_decls_agree(st, orig, cur1, cur2, (n - 1) as nat);
        assert(like_hoisted(cur1[n - 1], orig[n - 1]));
    }
}

/// Whether the tree `new` is `old` up to the name of a function declaration.
pub open spec fn like_hoisted(new: Ast, old: Ast) -> bool {
    match old {
        Ast::FunctionDecl(_, use_this, fv, params, body) => {
            &&& new is FunctionDecl
            &&& new->FunctionDecl_1 == use_this
            &&& new->FunctionDecl_2 == fv
            &&& new->FunctionDecl_3 == params
            &&& new->FunctionDecl_4 == body
        },
        _ => new == old,
    }
}

} // verus!
