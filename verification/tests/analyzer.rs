use rand::RngCore;
use rand::XorShiftRng;
use rapidus_core::fv_finder::{all_analyzable, AnalysisError, FreeVariableFinder};
use rapidus_core::name_set::NameSet;
use rapidus_core::node::{BinOp, FormalParameter, Node};
use rapidus_core::xorshift::XorShift;

fn ident(name: &str) -> Node {
    Node::Identifier(name.to_string())
}

fn boxed(name: &str) -> Box<Node> {
    Box::new(ident(name))
}

fn function(name: &str, params: &[&str], body: Vec<Node>) -> Node {
    Node::FunctionDecl(
        name.to_string(),
        false,
        NameSet::new(),
        params
            .iter()
            .map(|p| FormalParameter { name: p.to_string(), is_rest_param: false })
            .collect(),
        Box::new(Node::StatementList(body)),
    )
}

fn sorted(set: &NameSet) -> Vec<String> {
    let mut names = set.names.clone();
    names.sort();
    names
}

fn parts(node: &Node) -> (&String, bool, Vec<String>, &Vec<Node>) {
    match node {
        Node::FunctionDecl(name, use_this, fv, _, body) => match &**body {
            Node::StatementList(stmts) => (name, *use_this, sorted(fv), stmts),
            other => panic!("body is {:?}", other),
        },
        other => panic!("not a function: {:?}", other),
    }
}

#[allow(deprecated)]
fn numbers(n: usize) -> Vec<u32> {
    let mut rng = XorShiftRng::new_unseeded();
    (0..n).map(|_| rng.next_u32()).collect()
}

// function outer(){ var a = 1; function inner(){ return a; } return inner(); }
// console.log(outer());
#[test]
fn scenario_inner_function_is_renamed_and_captures_a() {
    let mut program = Node::StatementList(vec![
        function(
            "outer",
            &[],
            vec![
                Node::VarDecl("a".to_string(), Some(Box::new(Node::Number(1f64.to_bits())))),
                function("inner", &[], vec![Node::Return(Some(boxed("a")))]),
                Node::Return(Some(Box::new(Node::Call(boxed("inner"), vec![])))),
            ],
        ),
        Node::Call(
            Box::new(Node::Member(boxed("console"), "log".to_string())),
            vec![Node::Call(boxed("outer"), vec![])],
        ),
    ]);
    let mut finder = FreeVariableFinder::new();
    assert_eq!(finder.run_toplevel(&mut program), Ok(()));

    let expected = format!("inner.{}", numbers(1)[0]);
    let stmts = match &program {
        Node::StatementList(stmts) => stmts,
        _ => unreachable!(),
    };
    let (outer_name, outer_this, outer_fv, outer_body) = parts(&stmts[0]);
    assert_eq!(outer_name, "outer");
    assert!(!outer_this);
    assert_eq!(outer_fv, Vec::<String>::new());
    let (inner_name, inner_this, inner_fv, inner_body) = parts(&outer_body[1]);
    assert_eq!(inner_name, &expected);
    assert!(!inner_this);
    assert_eq!(inner_fv, vec!["a".to_string()]);
    match &inner_body[0] {
        Node::Return(Some(e)) => match &**e {
            Node::Identifier(a) => assert_eq!(a, "a"),
            other => panic!("{:?}", other),
        },
        other => panic!("{:?}", other),
    }
    // the reference in the enclosing body is rewritten to the same name
    match &outer_body[2] {
        Node::Return(Some(e)) => match &**e {
            Node::Call(callee, _) => match &**callee {
                Node::Identifier(callee) => assert_eq!(callee, &expected),
                other => panic!("{:?}", other),
            },
            other => panic!("{:?}", other),
        },
        other => panic!("{:?}", other),
    }
    // the reference at top level is not
    match &stmts[1] {
        Node::Call(_, args) => match &args[0] {
            Node::Call(callee, _) => match &**callee {
                Node::Identifier(callee) => assert_eq!(callee, "outer"),
                other => panic!("{:?}", other),
            },
            other => panic!("{:?}", other),
        },
        other => panic!("{:?}", other),
    }
    // the analyzer is back at top level and knows the functions
    assert_eq!(finder.varmap.len(), 1);
    assert_eq!(finder.mangled_function_name.len(), 0);
    assert!(finder.varmap[0].contains(&"outer".to_string()));
    assert!(finder.varmap[0].contains(&"console".to_string()));
}

#[test]
fn new_analyzer_knows_console_only() {
    let finder = FreeVariableFinder::new();
    assert_eq!(finder.varmap.len(), 1);
    assert_eq!(sorted(&finder.varmap[0]), vec!["console".to_string()]);
    assert_eq!(finder.cur_fv.names.len(), 0);
    assert_eq!(finder.mangled_function_name.len(), 0);
    assert!(!finder.use_this);
}

#[test]
fn free_variables_exclude_name_parameters_locals_and_globals() {
    // function g(){}  function f(p){ var v = 1; return g + p + v + w + f; }
    let sum = |a: Node, b: Node| Node::BinaryOp(Box::new(a), Box::new(b), BinOp::Add);
    let mut program = Node::StatementList(vec![
        function("g", &[], vec![]),
        function(
            "f",
            &["p"],
            vec![
                Node::VarDecl("v".to_string(), Some(Box::new(Node::Number(0)))),
                Node::Return(Some(Box::new(sum(
                    sum(sum(sum(ident("g"), ident("p")), ident("v")), ident("w")),
                    ident("f"),
                )))),
            ],
        ),
    ]);
    let mut finder = FreeVariableFinder::new();
    assert_eq!(finder.run_toplevel(&mut program), Ok(()));
    let stmts = match &program {
        Node::StatementList(stmts) => stmts,
        _ => unreachable!(),
    };
    let (_, _, g_fv, _) = parts(&stmts[0]);
    let (_, _, f_fv, _) = parts(&stmts[1]);
    assert_eq!(g_fv, Vec::<String>::new());
    assert_eq!(f_fv, vec!["w".to_string()]);
}

#[test]
fn variable_used_before_its_declaration_is_not_free() {
    // function f(){ return v; var v; }
    let mut program = Node::StatementList(vec![function(
        "f",
        &[],
        vec![Node::Return(Some(boxed("v"))), Node::VarDecl("v".to_string(), None)],
    )]);
    let mut finder = FreeVariableFinder::new();
    assert_eq!(finder.run_toplevel(&mut program), Ok(()));
    let stmts = match &program {
        Node::StatementList(stmts) => stmts,
        _ => unreachable!(),
    };
    assert_eq!(parts(&stmts[0]).2, Vec::<String>::new());
}

#[test]
fn free_names_of_one_function_do_not_reach_the_next() {
    // function f(){ return a; }  function g(){ return 1; }
    let mut program = Node::StatementList(vec![
        function("f", &[], vec![Node::Return(Some(boxed("a")))]),
        function("g", &[], vec![Node::Return(Some(Box::new(Node::Number(0))))]),
    ]);
    let mut finder = FreeVariableFinder::new();
    assert_eq!(finder.run_toplevel(&mut program), Ok(()));
    let stmts = match &program {
        Node::StatementList(stmts) => stmts,
        _ => unreachable!(),
    };
    assert_eq!(parts(&stmts[0]).2, vec!["a".to_string()]);
    assert_eq!(parts(&stmts[1]).2, Vec::<String>::new());
    assert!(!parts(&stmts[0]).1 && !parts(&stmts[1]).1);
    assert_eq!(parts(&stmts[0]).0, "f");
    assert_eq!(parts(&stmts[1]).0, "g");
}

#[test]
fn this_is_recorded_per_toplevel_function() {
    // function f(){ this; }  function g(){ }
    let mut program = Node::StatementList(vec![
        function("f", &[], vec![Node::This]),
        function("g", &[], vec![]),
    ]);
    let mut finder = FreeVariableFinder::new();
    assert_eq!(finder.run_toplevel(&mut program), Ok(()));
    let stmts = match &program {
        Node::StatementList(stmts) => stmts,
        _ => unreachable!(),
    };
    assert!(parts(&stmts[0]).1);
    assert!(!parts(&stmts[1]).1);
    assert!(!finder.use_this);
}

#[test]
fn assignment_to_unknown_name_declares_a_global() {
    // x = 1;  function f(){ y = x; z; }
    let mut program = Node::StatementList(vec![
        Node::Assign(boxed("x"), Box::new(Node::Number(0))),
        function(
            "f",
            &[],
            vec![Node::Assign(boxed("y"), boxed("x")), ident("z")],
        ),
    ]);
    let mut finder = FreeVariableFinder::new();
    assert_eq!(finder.run_toplevel(&mut program), Ok(()));
    assert!(finder.varmap[0].contains(&"x".to_string()));
    assert!(finder.varmap[0].contains(&"y".to_string()));
    let stmts = match &program {
        Node::StatementList(stmts) => stmts,
        _ => unreachable!(),
    };
    assert_eq!(parts(&stmts[1]).2, vec!["z".to_string()]);
}

#[test]
fn assignment_to_variable_of_enclosing_function_captures_it() {
    // function outer(){ var a; function inner(){ a = 1; } }
    let mut program = Node::StatementList(vec![function(
        "outer",
        &[],
        vec![
            Node::VarDecl("a".to_string(), None),
            function("inner", &[], vec![Node::Assign(boxed("a"), Box::new(Node::Number(0)))]),
        ],
    )]);
    let mut finder = FreeVariableFinder::new();
    assert_eq!(finder.run_toplevel(&mut program), Ok(()));
    let stmts = match &program {
        Node::StatementList(stmts) => stmts,
        _ => unreachable!(),
    };
    let (_, _, outer_fv, outer_body) = parts(&stmts[0]);
    assert_eq!(outer_fv, Vec::<String>::new());
    assert_eq!(parts(&outer_body[1]).2, vec!["a".to_string()]);
}

#[test]
fn nested_functions_take_the_numbers_of_the_generator_in_order() {
    // function outer(){ function a(){} function b(){} a; b; c; }
    let mut program = Node::StatementList(vec![function(
        "outer",
        &[],
        vec![
            function("a", &[], vec![]),
            function("b", &[], vec![]),
            ident("a"),
            ident("b"),
            ident("c"),
        ],
    )]);
    let mut finder = FreeVariableFinder::new();
    assert_eq!(finder.run_toplevel(&mut program), Ok(()));
    let drawn = numbers(2);
    assert_ne!(drawn[0], drawn[1]);
    let stmts = match &program {
        Node::StatementList(stmts) => stmts,
        _ => unreachable!(),
    };
    let (_, _, fv, body) = parts(&stmts[0]);
    assert_eq!(parts(&body[0]).0, &format!("a.{}", drawn[0]));
    assert_eq!(parts(&body[1]).0, &format!("b.{}", drawn[1]));
    match (&body[2], &body[3], &body[4]) {
        (Node::Identifier(a), Node::Identifier(b), Node::Identifier(c)) => {
            assert_eq!(a, &format!("a.{}", drawn[0]));
            assert_eq!(b, &format!("b.{}", drawn[1]));
            assert_eq!(c, "c");
        }
        other => panic!("{:?}", other),
    }
    assert_eq!(fv, vec!["c".to_string()]);
}

#[test]
fn toplevel_functions_keep_their_names() {
    let mut program = Node::StatementList(vec![function("f", &[], vec![]), ident("f")]);
    let mut finder = FreeVariableFinder::new();
    assert_eq!(finder.run_toplevel(&mut program), Ok(()));
    let stmts = match &program {
        Node::StatementList(stmts) => stmts,
        _ => unreachable!(),
    };
    assert_eq!(parts(&stmts[0]).0, "f");
}

#[test]
fn toplevel_reference_to_unknown_name_becomes_global() {
    let mut program = Node::StatementList(vec![ident("later")]);
    let mut finder = FreeVariableFinder::new();
    assert_eq!(finder.run_toplevel(&mut program), Ok(()));
    assert!(finder.varmap[0].contains(&"later".to_string()));
    assert_eq!(finder.cur_fv.names.len(), 0);
}

#[test]
fn program_that_is_no_statement_list_is_rejected() {
    let mut program = ident("x");
    let mut finder = FreeVariableFinder::new();
    assert_eq!(finder.run_toplevel(&mut program), Err(AnalysisError::NotAStatementList));
    match &program {
        Node::Identifier(x) => assert_eq!(x, "x"),
        other => panic!("{:?}", other),
    }
}

#[test]
fn assignment_to_a_literal_is_rejected() {
    let mut program = Node::StatementList(vec![
        ident("seen"),
        Node::Assign(Box::new(Node::Number(0)), boxed("x")),
    ]);
    let mut finder = FreeVariableFinder::new();
    assert_eq!(finder.run_toplevel(&mut program), Err(AnalysisError::MalformedTree));
    // nothing was analyzed
    assert!(!finder.varmap[0].contains(&"seen".to_string()));
}

#[test]
fn function_whose_body_is_no_list_is_rejected() {
    let mut program = Node::StatementList(vec![Node::FunctionDecl(
        "f".to_string(),
        false,
        NameSet::new(),
        vec![],
        Box::new(Node::Nope),
    )]);
    let mut finder = FreeVariableFinder::new();
    assert_eq!(finder.run_toplevel(&mut program), Err(AnalysisError::MalformedTree));
}

#[test]
fn shape_check_looks_into_every_child() {
    let bad = Node::Assign(Box::new(Node::This), boxed("x"));
    assert!(!bad.is_analyzable());
    assert!(!bad.is_assignable());
    assert!(ident("x").is_assignable());
    assert!(Node::Member(boxed("o"), "m".to_string()).is_assignable());
    let nested = Node::If(
        boxed("c"),
        Box::new(Node::While(boxed("c"), Box::new(Node::Return(Some(Box::new(bad)))))),
        Box::new(Node::Nope),
    );
    assert!(!nested.is_analyzable());
    assert!(all_analyzable(&vec![ident("a"), Node::This]));
    assert!(!all_analyzable(&vec![ident("a"), nested]));
}

#[test]
fn analysis_of_an_expression_walks_all_operands() {
    // f(a, o.m, c ? d : e, -g) inside a function: all but the member name are references
    let mut program = Node::StatementList(vec![function(
        "h",
        &[],
        vec![Node::Call(
            boxed("f"),
            vec![
                ident("a"),
                Node::Member(boxed("o"), "m".to_string()),
                Node::TernaryOp(boxed("c"), boxed("d"), boxed("e")),
                Node::UnaryOp(boxed("g"), rapidus_core::node::UnaryOp::Minus),
                Node::While(boxed("w"), Box::new(Node::If(boxed("i"), boxed("t"), boxed("u")))),
            ],
        )],
    )]);
    let mut finder = FreeVariableFinder::new();
    assert_eq!(finder.run_toplevel(&mut program), Ok(()));
    let stmts = match &program {
        Node::StatementList(stmts) => stmts,
        _ => unreachable!(),
    };
    let expected: Vec<String> =
        ["a", "c", "d", "e", "f", "g", "i", "o", "t", "u", "w"].iter().map(|s| s.to_string()).collect();
    assert_eq!(parts(&stmts[0]).2, expected);
}

#[test]
fn name_set_behaves_as_a_set() {
    let mut set = NameSet::new();
    set.insert("a".to_string());
    set.insert("b".to_string());
    set.insert("a".to_string());
    assert_eq!(sorted(&set), vec!["a".to_string(), "b".to_string()]);
    assert!(set.contains(&"a".to_string()));
    assert!(!set.contains(&"c".to_string()));
    let copy = set.copy();
    set.remove(&"a".to_string());
    assert_eq!(sorted(&set), vec!["b".to_string()]);
    assert_eq!(sorted(&copy), vec!["a".to_string(), "b".to_string()]);
    let mut other = NameSet::new();
    other.insert("b".to_string());
    other.insert("z".to_string());
    let mut rest = copy.copy();
    rest.remove_all(&other);
    assert_eq!(sorted(&rest), vec!["a".to_string()]);
}

#[test]
fn a_single_tree_can_be_analyzed_on_its_own() {
    let mut finder = FreeVariableFinder::new();
    let mut tree = Node::If(
        boxed("console"),
        Box::new(Node::VarDecl("v".to_string(), Some(boxed("w")))),
        Box::new(Node::This),
    );
    assert!(tree.is_analyzable());
    finder.run(&mut tree);
    // at top level a name that is referred to becomes global, and so does a variable
    assert_eq!(
        sorted(&finder.varmap[0]),
        vec!["console".to_string(), "v".to_string(), "w".to_string()]
    );
    assert!(finder.use_this);
    assert_eq!(finder.cur_fv.names.len(), 0);
}

#[test]
fn this_outside_a_function_does_not_reach_it() {
    // this;  function f(){ function g(){ this; } }  function h(){ }
    let mut program = Node::StatementList(vec![
        Node::This,
        function("f", &[], vec![function("g", &[], vec![Node::This])]),
        function("h", &[], vec![Node::If(boxed("c"), Box::new(Node::This), Box::new(Node::Nope))]),
    ]);
    let mut finder = FreeVariableFinder::new();
    assert_eq!(finder.run_toplevel(&mut program), Ok(()));
    let stmts = match &program {
        Node::StatementList(stmts) => stmts,
        _ => unreachable!(),
    };
    let (_, f_this, _, f_body) = parts(&stmts[1]);
    assert!(!f_this);
    assert!(parts(&f_body[0]).1);
    assert!(parts(&stmts[2]).1);
    // the program itself has seen `this`
    assert!(finder.use_this);
}

#[test]
fn references_in_sibling_functions_and_assignments_follow_the_renaming() {
    // function o(){ function n(){ return n; } function b(p){ return n + p; } n = 0; function c(n){ return n; } }
    let mut program = Node::StatementList(vec![function(
        "o",
        &[],
        vec![
            function("n", &[], vec![Node::Return(Some(boxed("n")))]),
            function(
                "b",
                &["p"],
                vec![Node::Return(Some(Box::new(Node::BinaryOp(
                    boxed("n"),
                    boxed("p"),
                    BinOp::Add,
                ))))],
            ),
            Node::Assign(boxed("n"), Box::new(Node::Number(0))),
            function("c", &["n"], vec![Node::Return(Some(boxed("n")))]),
        ],
    )]);
    let mut finder = FreeVariableFinder::new();
    assert_eq!(finder.run_toplevel(&mut program), Ok(()));
    let drawn = numbers(3);
    let renamed = format!("n.{}", drawn[0]);
    let stmts = match &program {
        Node::StatementList(stmts) => stmts,
        _ => unreachable!(),
    };
    let (_, _, o_fv, o_body) = parts(&stmts[0]);
    assert_eq!(o_fv, Vec::<String>::new());
    let reference = |node: &Node| match node {
        Node::Return(Some(e)) => match &**e {
            Node::Identifier(x) => x.clone(),
            Node::BinaryOp(l, _, _) => match &**l {
                Node::Identifier(x) => x.clone(),
                other => panic!("{:?}", other),
            },
            other => panic!("{:?}", other),
        },
        other => panic!("{:?}", other),
    };
    // the declaration, the reference inside itself, inside its sibling, and the assignment
    let (n_name, _, n_fv, n_body) = parts(&o_body[0]);
    assert_eq!(n_name, &renamed);
    assert_eq!(reference(&n_body[0]), renamed);
    assert_eq!(n_fv, Vec::<String>::new());
    let (b_name, _, b_fv, b_body) = parts(&o_body[1]);
    assert_eq!(b_name, &format!("b.{}", drawn[1]));
    assert_eq!(reference(&b_body[0]), renamed);
    assert_eq!(b_fv, vec![renamed.clone()]);
    match &o_body[2] {
        Node::Assign(dst, _) => match &**dst {
            Node::Identifier(x) => assert_eq!(x, &renamed),
            other => panic!("{:?}", other),
        },
        other => panic!("{:?}", other),
    }
    // a function that declares the name itself keeps it
    let (_, _, c_fv, c_body) = parts(&o_body[3]);
    assert_eq!(reference(&c_body[0]), "n");
    assert_eq!(c_fv, Vec::<String>::new());
}

#[test]
fn equal_programs_are_analyzed_equally() {
    let build = || {
        Node::StatementList(vec![function(
            "o",
            &[],
            vec![function("a", &[], vec![]), function("b", &[], vec![]), ident("a")],
        )])
    };
    let mut first = build();
    let mut second = build();
    assert_eq!(FreeVariableFinder::new().run_toplevel(&mut first), Ok(()));
    assert_eq!(FreeVariableFinder::new().run_toplevel(&mut second), Ok(()));
    assert_eq!(format!("{:?}", first), format!("{:?}", second));
}

#[test]
fn generator_gives_the_numbers_of_the_unseeded_xorshift() {
    let mut ours = XorShift::new_unseeded();
    assert_eq!(ours, XorShift { x: 0x193a6754, y: 0xa8a7d469, z: 0x97830e05, w: 0x113ba7bb });
    let theirs = numbers(1000);
    for expected in theirs {
        assert_eq!(ours.next_u32(), expected);
    }
    let mut one = XorShift { x: 1, y: 0, z: 0, w: 0 };
    assert_eq!(one.next_u32(), 1 ^ (1 << 11) ^ ((1 ^ (1 << 11)) >> 8));
    assert_eq!(one, XorShift { x: 0, y: 0, z: 0, w: 2057 });
}

#[test]
fn free_names_of_a_nested_function_pass_to_the_enclosing_one() {
    // function o(a){ function i(){ return a + g; } return i; }
    let mut program = Node::StatementList(vec![function(
        "o",
        &["a"],
        vec![
            function(
                "i",
                &[],
                vec![Node::Return(Some(Box::new(Node::BinaryOp(
                    boxed("a"),
                    boxed("g"),
                    BinOp::Add,
                ))))],
            ),
            Node::Return(Some(boxed("i"))),
        ],
    )]);
    let mut finder = FreeVariableFinder::new();
    assert_eq!(finder.run_toplevel(&mut program), Ok(()));
    let renamed = format!("i.{}", numbers(1)[0]);
    let stmts = match &program {
        Node::StatementList(stmts) => stmts,
        _ => unreachable!(),
    };
    let (_, _, o_fv, o_body) = parts(&stmts[0]);
    let (i_name, _, i_fv, _) = parts(&o_body[0]);
    assert_eq!(i_name, &renamed);
    assert_eq!(i_fv, vec!["a".to_string(), "g".to_string()]);
    // of what the body uses (a, g, the renamed function) only g is
    // neither global nor declared in o
    assert_eq!(
        format!("{:?}", o_body[1]),
        format!("{:?}", Node::Return(Some(Box::new(Node::Identifier(renamed)))))
    );
    assert_eq!(o_fv, vec!["g".to_string()]);
}

#[test]
fn a_nested_function_named_like_a_global_is_captured_under_its_new_name() {
    // var i; function o(){ function i(){} function j(){ return i; } }
    let mut program = Node::StatementList(vec![
        Node::VarDecl("i".to_string(), None),
        function(
            "o",
            &[],
            vec![
                function("i", &[], vec![]),
                function("j", &[], vec![Node::Return(Some(boxed("i")))]),
            ],
        ),
    ]);
    let mut finder = FreeVariableFinder::new();
    assert_eq!(finder.run_toplevel(&mut program), Ok(()));
    let renamed = format!("i.{}", numbers(1)[0]);
    let stmts = match &program {
        Node::StatementList(stmts) => stmts,
        _ => unreachable!(),
    };
    let (_, _, o_fv, o_body) = parts(&stmts[1]);
    let (i_name, _, _, _) = parts(&o_body[0]);
    assert_eq!(i_name, &renamed);
    let (_, _, j_fv, j_body) = parts(&o_body[1]);
    assert_eq!(
        format!("{:?}", j_body[0]),
        format!("{:?}", Node::Return(Some(Box::new(Node::Identifier(renamed.clone())))))
    );
    assert_eq!(j_fv, vec![renamed]);
    assert_eq!(o_fv, Vec::<String>::new());
}
