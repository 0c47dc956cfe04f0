use sol_ranges::analyzer::{Analyzer, AnalyzerLike, GraphLike};
use sol_ranges::ast::{
    ContractDefinition, ContractPart, ContractTy, Expression, FunctionDefinition, FunctionTy,
    Identifier, Loc, Parameter, SourceUnit, SourceUnitPart, Statement, Type,
    VariableDeclaration, VariableDefinition,
};
use sol_ranges::bound::{ArithOp, Bound};
use sol_ranges::range::{Domain, Range, Relation};
use sol_ranges::report::{Report, ReportConfig, Step};
use sol_ranges::types::{Branch, ContextEdge, Edge, Node, Origin};
use sol_ranges::word::Word;

fn loc(start: usize) -> Loc {
    Loc::File(0, start, start + 1)
}

fn ident(name: &str) -> Identifier {
    Identifier { loc: loc(0), name: name.to_string() }
}

fn var(name: &str) -> Expression {
    Expression::Variable(ident(name))
}

fn num(digits: &str) -> Expression {
    Expression::NumberLiteral(loc(0), digits.to_string(), String::new())
}

fn uint(bits: u16) -> Expression {
    Expression::Type(loc(0), Type::Uint(bits))
}

fn param(ty: Expression, name: &str) -> Option<Parameter> {
    Some(Parameter { loc: loc(0), ty, name: Some(ident(name)) })
}

fn assign(name: &str, value: Expression) -> Statement {
    Statement::Expression(
        loc(0),
        Expression::Assign(loc(0), None, Box::new(var(name)), Box::new(value)),
    )
}

fn less(l: Expression, r: Expression) -> Expression {
    Expression::Comparison(loc(0), Relation::Lt, Box::new(l), Box::new(r))
}

fn declare(ty: Expression, name: &str, init: Option<Expression>) -> Statement {
    Statement::VariableDefinition(
        loc(0),
        VariableDeclaration { loc: loc(0), ty, name: Some(ident(name)) },
        init,
    )
}

fn call(name: &str, args: Vec<Expression>) -> Statement {
    Statement::Expression(loc(0), Expression::FunctionCall(loc(0), Box::new(var(name)), args))
}

fn function(name: &str, params: Vec<Option<Parameter>>, body: Vec<Statement>) -> FunctionDefinition {
    FunctionDefinition {
        loc: loc(0),
        ty: FunctionTy::Function,
        name: Some(ident(name)),
        params,
        outputs: Vec::new(),
        body: Some(Statement::Block(loc(0), body)),
    }
}

fn config() -> ReportConfig {
    ReportConfig {
        eval_bounds: true,
        show_tmps: false,
        show_consts: true,
        show_subctxs: true,
        show_initial_bounds: true,
    }
}

fn exact(v: u64) -> Range {
    Range::Exact(Bound::from_u64(v))
}

fn uint_domain(bits: u16) -> Domain {
    Domain::new(false, bits).unwrap()
}

fn storage_unit() -> SourceUnit {
    let c = VariableDefinition { loc: loc(0), ty: uint(256), name: Some(ident("c")), initializer: None };
    let body = vec![Statement::Expression(
        loc(0),
        Expression::Assign(loc(0), Some(ArithOp::Add), Box::new(var("c")), Box::new(var("s"))),
    )];
    let b5 = function("b5", vec![param(uint(128), "s")], body);
    SourceUnit(vec![SourceUnitPart::ContractDefinition(Box::new(ContractDefinition {
        loc: loc(0),
        ty: ContractTy::Contract,
        name: Some(ident("Storage")),
        parts: vec![
            ContractPart::VariableDefinition(Box::new(c)),
            ContractPart::FunctionDefinition(Box::new(b5)),
        ],
    }))])
}

fn bounds(r: &Report) -> (Bound, Bound, bool) {
    let i = r.bounds.unwrap();
    (i.min, i.max, i.flagged)
}

#[test]
fn compound_assignment_to_a_state_variable_sums_the_ranges() {
    let mut analyzer = Analyzer::new();
    analyzer.parse(&storage_unit(), 0);
    assert_eq!(analyzer.entry_contexts(), vec![8]);
    assert_eq!(analyzer.node_count(), 10);
    let reports = analyzer.bounds_for(8, &"c".to_string(), config());
    assert_eq!(reports.len(), 1);
    let r = &reports[0];
    assert_eq!((r.ctx, r.var), (8, 9));
    assert_eq!(r.origin, Origin::Assigned);
    assert_eq!(
        r.range,
        Some(Range::Arith(
            ArithOp::Add,
            uint_domain(256),
            Box::new(Range::Top(uint_domain(256))),
            Box::new(Range::Top(uint_domain(128))),
        ))
    );
    assert_eq!(bounds(r), (Bound::zero(), Bound::from_word(Word::max()), true));
    match analyzer.node(9) {
        Node::ContextVar(v) => {
            assert_eq!(v.name, Some("c".to_string()));
            assert_eq!(v.prev, None);
            assert_eq!(v.ctx, 8);
        }
        other => panic!("not a variable: {:?}", other),
    }
    let all = analyzer.bounds_for_all(8, config());
    assert_eq!(all.iter().map(|r| r.var).collect::<Vec<usize>>(), vec![9]);
    assert!(analyzer.bounds_for(8, &"s".to_string(), config()).is_empty());
    assert_eq!(analyzer.param_of(5, &"s".to_string()), Some(7));
    let s = analyzer.read_var(8, &"s".to_string());
    assert_eq!(s.range, Some(Range::Top(uint_domain(128))));
    assert_eq!(s.domain, Some(uint_domain(128)));
    let versions = (0..analyzer.node_count())
        .filter(|i| matches!(analyzer.node(*i), Node::ContextVar(_)))
        .count();
    assert_eq!(versions, 1);
}

#[test]
fn lowering_a_contract_ties_its_parts_by_edges() {
    let mut analyzer = Analyzer::new();
    analyzer.parse(&storage_unit(), 0);
    assert_eq!(*analyzer.node(0), Node::SourceUnit(0));
    assert_eq!(*analyzer.node(1), Node::SourceUnitPart(0, 0));
    assert!(matches!(analyzer.node(2), Node::Contract(_)));
    assert!(matches!(analyzer.node(4), Node::Var(_)));
    assert!(matches!(analyzer.node(5), Node::Function(_)));
    assert!(matches!(analyzer.node(7), Node::FunctionParam(_)));
    let edges: Vec<(usize, usize, Edge)> = (0..analyzer.edge_count()).map(|i| analyzer.edge(i)).collect();
    assert_eq!(
        edges,
        vec![
            (1, 0, Edge::Part),
            (4, 2, Edge::Var),
            (7, 5, Edge::FunctionParam),
            (8, 5, Edge::Context(ContextEdge::Context)),
            (9, 8, Edge::Context(ContextEdge::Variable)),
            (5, 2, Edge::Func),
            (2, 1, Edge::Contract),
        ]
    );
    assert_eq!(analyzer.user_types().get(&"c".to_string()), Some(4));
    assert_eq!(analyzer.user_types().get(&"b5".to_string()), Some(5));
    assert_eq!(analyzer.user_types().get(&"Storage".to_string()), Some(2));
}

fn branching_function() -> FunctionDefinition {
    function(
        "f",
        vec![param(uint(256), "s")],
        vec![
            declare(uint(256), "a", None),
            Statement::If(
                loc(0),
                less(var("s"), num("5")),
                Box::new(Statement::Block(loc(0), vec![assign("a", num("1"))])),
                Some(Box::new(Statement::Block(loc(0), vec![assign("a", num("2"))]))),
            ),
            Statement::Expression(loc(0), var("a")),
        ],
    )
}

#[test]
fn branches_fork_and_merge_by_union() {
    let mut analyzer = Analyzer::new();
    let f = analyzer.parse_func_def(&branching_function());
    assert_eq!(f.0, 0);
    assert_eq!(analyzer.entry_contexts(), vec![3]);
    let kinds: Vec<(usize, Branch, Option<usize>)> = (0..analyzer.node_count())
        .filter_map(|i| match analyzer.node(i) {
            Node::Context(c) => Some((i, c.branch, c.parent)),
            _ => None,
        })
        .collect();
    assert_eq!(
        kinds,
        vec![
            (3, Branch::Entry, None),
            (7, Branch::True, Some(3)),
            (9, Branch::False, Some(3)),
            (15, Branch::Join, Some(3)),
        ]
    );
    assert_eq!(*analyzer.node(6), Node::ContextFork);
    let reports = analyzer.bounds_for(3, &"a".to_string(), config());
    assert_eq!(
        reports.iter().map(|r| (r.ctx, r.var)).collect::<Vec<_>>(),
        vec![(3, 4), (7, 12), (9, 14), (15, 16)]
    );
    assert_eq!(reports[1].range, Some(exact(1)));
    assert_eq!(reports[2].range, Some(exact(2)));
    assert_eq!(reports[3].range, Some(Range::Union(Box::new(exact(1)), Box::new(exact(2)))));
    assert_eq!(bounds(&reports[3]), (Bound::from_u64(1), Bound::from_u64(2), false));
    assert_eq!(reports[3].origin, Origin::Merged);
    assert_eq!(bounds(&reports[0]), (Bound::zero(), Bound::from_word(Word::max()), false));
}

#[test]
fn the_two_arms_of_a_fork_narrow_by_a_condition_and_its_negation() {
    let mut analyzer = Analyzer::new();
    analyzer.parse_func_def(&branching_function());
    let on_true = match analyzer.node(7) {
        Node::Context(c) => c.condition.as_ref().unwrap().relation,
        _ => panic!("no context"),
    };
    let on_false = match analyzer.node(9) {
        Node::Context(c) => c.condition.as_ref().unwrap().relation,
        _ => panic!("no context"),
    };
    assert_eq!(on_true, Relation::Lt);
    assert_eq!(on_false, Relation::Ge);
    let reports = analyzer.bounds_for(3, &"s".to_string(), config());
    assert_eq!(
        reports.iter().map(|r| (r.ctx, r.var)).collect::<Vec<_>>(),
        vec![(7, 8), (9, 10), (15, 17)]
    );
    assert_eq!(bounds(&reports[0]), (Bound::zero(), Bound::from_u64(4), false));
    assert_eq!(bounds(&reports[1]), (Bound::from_u64(5), Bound::from_word(Word::max()), false));
    assert_eq!(bounds(&reports[2]), (Bound::zero(), Bound::from_word(Word::max()), false));
    assert_eq!(reports[0].origin, Origin::Branch);
    assert_eq!(reports[0].first, None);
    assert_eq!(
        reports[0].steps,
        vec![Step { version: 8, origin: Origin::Branch, loc: loc(0) }]
    );
    assert_eq!(reports[0].initial, Some(Range::Top(uint_domain(256))));
    assert_eq!(reports[0].initial_bounds.unwrap().max, Bound::from_word(Word::max()));
    assert_eq!(reports[2].steps.len(), 0);
    for v in 0u64..10 {
        let in_true = Bound::from_u64(v).le(&reports[0].bounds.unwrap().max);
        let in_false = reports[1].bounds.unwrap().min.le(&Bound::from_u64(v));
        assert!(in_true != in_false);
    }
}

#[test]
fn a_variable_untouched_by_a_branch_keeps_its_version() {
    let mut analyzer = Analyzer::new();
    let f = function(
        "g",
        vec![param(uint(8), "s")],
        vec![
            declare(uint(8), "t", Some(num("7"))),
            Statement::If(
                loc(0),
                less(var("s"), num("5")),
                Box::new(Statement::Block(loc(0), vec![])),
                None,
            ),
        ],
    );
    analyzer.parse_func_def(&f);
    let entry = analyzer.entry_contexts()[0];
    let t = "t".to_string();
    let live = analyzer.resolve(entry, &t).unwrap();
    let reports = analyzer.bounds_for(entry, &t, config());
    assert_eq!(reports.len(), 4);
    for r in reports.iter() {
        assert_eq!(r.var, live);
        assert_eq!(r.range, Some(exact(7)));
    }
    let merged = analyzer.bounds_for(entry, &"s".to_string(), config());
    assert_eq!(merged.len(), 3);
    assert_eq!(bounds(&merged[2]), (Bound::zero(), Bound::from_u64(255), false));
}

#[test]
fn an_assertion_narrows_without_forking() {
    let mut analyzer = Analyzer::new();
    let f = function(
        "h",
        vec![param(uint(8), "a")],
        vec![call("require", vec![less(var("a"), num("10"))]), call("assert", vec![less(num("3"), var("a"))])],
    );
    analyzer.parse_func_def(&f);
    let entry = analyzer.entry_contexts()[0];
    assert_eq!(
        (0..analyzer.node_count()).filter(|i| matches!(analyzer.node(*i), Node::Context(_))).count(),
        1
    );
    let reports = analyzer.bounds_for(entry, &"a".to_string(), config());
    assert_eq!(reports.len(), 1);
    let r = &reports[0];
    assert_eq!(r.origin, Origin::Assertion);
    assert_eq!(r.steps.iter().map(|s| s.origin).collect::<Vec<_>>(), vec![Origin::Assertion; 2]);
    assert_eq!(r.steps[0].version, r.var);
    assert!(r.steps[1].version < r.steps[0].version);
    assert_eq!(bounds(r), (Bound::from_u64(4), Bound::from_u64(9), false));
    assert_eq!(r.initial, Some(Range::Top(uint_domain(8))));
    let hidden = ReportConfig { show_initial_bounds: false, eval_bounds: false, ..config() };
    let plain = analyzer.bounds_for(entry, &"a".to_string(), hidden);
    assert_eq!(plain[0].initial, None);
    assert_eq!(plain[0].bounds, None);
    assert_eq!(plain[0].initial_bounds, None);
}

#[test]
fn constants_and_temporaries_are_shown_on_request() {
    let mut analyzer = Analyzer::new();
    let ternary = Expression::Ternary(
        loc(0),
        Box::new(less(var("s"), num("5"))),
        Box::new(num("1")),
        Box::new(num("2")),
    );
    let f = function(
        "k",
        vec![param(uint(8), "s")],
        vec![declare(uint(8), "x", Some(num("7"))), declare(uint(8), "y", Some(ternary))],
    );
    analyzer.parse_func_def(&f);
    let entry = analyzer.entry_contexts()[0];
    let x = "x".to_string();
    assert_eq!(analyzer.bounds_for(entry, &x, ReportConfig { show_subctxs: false, ..config() }).len(), 1);
    let no_consts = ReportConfig { show_consts: false, ..config() };
    assert_eq!(analyzer.bounds_for(entry, &x, no_consts).len(), 0);
    let y = analyzer.bounds_for(entry, &"y".to_string(), config());
    assert_eq!(y.len(), 1);
    assert_eq!(bounds(&y[0]), (Bound::from_u64(1), Bound::from_u64(2), false));
    let join = y[0].ctx;
    let with_tmps = ReportConfig { show_tmps: true, ..config() };
    let shown: Vec<Option<String>> =
        analyzer.bounds_for_all(join, with_tmps).into_iter().map(|r| r.name).collect();
    let hidden: Vec<Option<String>> =
        analyzer.bounds_for_all(join, config()).into_iter().map(|r| r.name).collect();
    assert!(shown.contains(&None));
    assert!(!hidden.contains(&None));
    assert_eq!(shown.len(), hidden.len() + 1);
    let dot = analyzer.dot_str();
    let dot_no_tmps = analyzer.dot_str_no_tmps();
    assert!(dot.contains("tmp_of: Some("));
    assert!(!dot_no_tmps.contains("tmp_of: Some("));
    assert!(dot_no_tmps.contains("ContextFork"));
    assert!(dot.starts_with("digraph {"));
}

#[test]
fn a_name_bound_nowhere_gives_no_report() {
    let mut analyzer = Analyzer::new();
    analyzer.parse_func_def(&branching_function());
    assert!(analyzer.bounds_for(3, &"zzz".to_string(), config()).is_empty());
    assert!(analyzer.bounds_for(3, &"f".to_string(), config()).is_empty());
}

#[test]
fn asking_twice_gives_the_same_reports() {
    let mut analyzer = Analyzer::new();
    analyzer.parse_func_def(&branching_function());
    let first = analyzer.bounds_for_all(3, config());
    let second = analyzer.bounds_for_all(3, config());
    assert_eq!(first, second);
    assert_eq!(first.len(), 1 + 2 + 2 + 2);
    let only_entry = analyzer.bounds_for_all(3, ReportConfig { show_subctxs: false, ..config() });
    assert_eq!(only_entry.iter().map(|r| r.var).collect::<Vec<_>>(), vec![4]);
}

#[test]
fn a_loop_widens_what_its_body_writes() {
    let mut analyzer = Analyzer::new();
    let f = function(
        "l",
        vec![],
        vec![
            declare(uint(8), "i", Some(num("0"))),
            Statement::While(
                loc(0),
                less(var("i"), num("10")),
                Box::new(Statement::Block(loc(0), vec![assign("i", num("9"))])),
            ),
        ],
    );
    analyzer.parse_func_def(&f);
    let entry = analyzer.entry_contexts()[0];
    let reports = analyzer.bounds_for(entry, &"i".to_string(), config());
    assert_eq!(reports.len(), 3);
    assert_eq!(bounds(&reports[0]), (Bound::zero(), Bound::zero(), false));
    assert_eq!(bounds(&reports[1]), (Bound::from_u64(9), Bound::from_u64(9), false));
    assert_eq!(bounds(&reports[2]), (Bound::zero(), Bound::from_u64(9), false));
    match analyzer.node(reports[1].ctx) {
        Node::Context(c) => assert_eq!(c.branch, Branch::Loop),
        _ => panic!("no context"),
    }
}

#[test]
fn a_returning_arm_leaves_the_other_to_go_on() {
    let mut analyzer = Analyzer::new();
    let f = function(
        "r",
        vec![param(uint(8), "s")],
        vec![
            Statement::If(
                loc(0),
                less(var("s"), num("5")),
                Box::new(Statement::Return(loc(0), None)),
                None,
            ),
            declare(uint(8), "after", Some(var("s"))),
        ],
    );
    analyzer.parse_func_def(&f);
    let entry = analyzer.entry_contexts()[0];
    let reports = analyzer.bounds_for(entry, &"after".to_string(), config());
    assert_eq!(reports.len(), 1);
    match analyzer.node(reports[0].ctx) {
        Node::Context(c) => assert_eq!(c.branch, Branch::False),
        _ => panic!("no context"),
    }
    assert_eq!(bounds(&reports[0]), (Bound::from_u64(5), Bound::from_u64(255), false));
    assert!(analyzer.descends_from(reports[0].ctx, entry));
    assert!(!analyzer.descends_from(entry, reports[0].ctx));
}

#[test]
fn an_empty_body_yields_the_entry_context_alone() {
    let mut analyzer = Analyzer::new();
    analyzer.parse_func_def(&function("e", vec![param(uint(8), "p")], vec![]));
    assert_eq!(analyzer.node_count(), 4);
    assert_eq!(analyzer.entry_contexts(), vec![3]);
    match analyzer.node(3) {
        Node::Context(c) => assert_eq!((c.function, c.parent, c.branch), (0, None, Branch::Entry)),
        other => panic!("no context: {:?}", other),
    }
    let others = (0..analyzer.node_count())
        .filter(|i| {
            matches!(analyzer.node(*i), Node::ContextVar(_) | Node::ContextFork)
        })
        .count();
    assert_eq!(others, 0);
    assert!(analyzer.bounds_for_all(3, config()).is_empty());
    let mut bodiless = Analyzer::new();
    let mut f = function("e", vec![], vec![]);
    f.body = None;
    bodiless.parse_func_def(&f);
    assert!(bodiless.entry_contexts().is_empty());
}

#[test]
fn an_overflowing_sum_is_flagged_in_the_report() {
    let mut analyzer = Analyzer::new();
    let f = function(
        "o",
        vec![param(uint(8), "a")],
        vec![
            call("require", vec![Expression::Comparison(loc(0), Relation::Ge, Box::new(var("a")), Box::new(num("250")))]),
            declare(
                uint(8),
                "b",
                Some(Expression::Arithmetic(loc(0), ArithOp::Add, Box::new(var("a")), Box::new(num("10")))),
            ),
            declare(
                uint(8),
                "c",
                Some(Expression::Arithmetic(loc(0), ArithOp::Sub, Box::new(var("a")), Box::new(num("3")))),
            ),
        ],
    );
    analyzer.parse_func_def(&f);
    let entry = analyzer.entry_contexts()[0];
    let b = analyzer.bounds_for(entry, &"b".to_string(), config());
    assert_eq!(bounds(&b[0]), (Bound::from_u64(255), Bound::from_u64(255), true));
    let c = analyzer.bounds_for(entry, &"c".to_string(), config());
    assert_eq!(bounds(&c[0]), (Bound::from_u64(247), Bound::from_u64(252), false));
}

#[test]
fn a_call_of_a_declared_function_is_recorded() {
    let mut analyzer = Analyzer::new();
    analyzer.parse_func_def(&function("callee", vec![], vec![]));
    analyzer.parse_func_def(&function("caller", vec![], vec![call("callee", vec![]), call("nobody", vec![])]));
    let entry = analyzer.entry_contexts()[1];
    let edges: Vec<(usize, usize, Edge)> = (0..analyzer.edge_count()).map(|i| analyzer.edge(i)).collect();
    assert!(edges.contains(&(entry, 0, Edge::Func)));
    assert_eq!(edges.iter().filter(|e| e.2 == Edge::Func).count(), 1);
}

#[test]
fn nested_branches_merge_from_the_inside_out() {
    let mut analyzer = Analyzer::new();
    let inner = Statement::If(
        loc(0),
        less(var("s"), num("3")),
        Box::new(Statement::Block(loc(0), vec![assign("a", num("1"))])),
        Some(Box::new(Statement::Block(loc(0), vec![assign("a", num("2"))]))),
    );
    let f = function(
        "n",
        vec![param(uint(8), "s")],
        vec![
            declare(uint(8), "a", Some(num("0"))),
            Statement::If(
                loc(0),
                less(var("s"), num("5")),
                Box::new(Statement::Block(loc(0), vec![inner])),
                Some(Box::new(Statement::Block(loc(0), vec![assign("a", num("9"))]))),
            ),
        ],
    );
    analyzer.parse_func_def(&f);
    let entry = analyzer.entry_contexts()[0];
    let a = analyzer.bounds_for(entry, &"a".to_string(), config());
    let shape: Vec<(Branch, u64, u64)> = a
        .iter()
        .map(|r| {
            let branch = match analyzer.node(r.ctx) {
                Node::Context(c) => c.branch,
                _ => panic!("no context"),
            };
            let i = r.bounds.unwrap();
            (branch, i.min.magnitude.limbs[0], i.max.magnitude.limbs[0])
        })
        .collect();
    assert_eq!(
        shape,
        vec![
            (Branch::Entry, 0, 0),
            (Branch::True, 0, 0),
            (Branch::False, 9, 9),
            (Branch::True, 1, 1),
            (Branch::False, 2, 2),
            (Branch::Join, 1, 2),
            (Branch::Join, 1, 9),
        ]
    );
    let s = analyzer.bounds_for(entry, &"s".to_string(), config());
    assert_eq!(s.len(), 6);
    let inner_true = &s[2];
    assert_eq!(bounds(inner_true), (Bound::zero(), Bound::from_u64(2), false));
    assert_eq!(inner_true.steps.len(), 2);
    assert_eq!(inner_true.initial, Some(Range::Top(uint_domain(8))));
    let outer_join = s.last().unwrap();
    assert_eq!(bounds(outer_join), (Bound::zero(), Bound::from_u64(255), false));
}

#[test]
fn a_query_from_a_child_reports_what_it_inherits() {
    let mut analyzer = Analyzer::new();
    analyzer.parse_func_def(&branching_function());
    let from_true = analyzer.bounds_for_all(7, config());
    assert_eq!(from_true.iter().map(|r| (r.ctx, r.var)).collect::<Vec<_>>(), vec![(7, 8), (7, 12)]);
    let a = analyzer.bounds_for(9, &"a".to_string(), config());
    assert_eq!(a.iter().map(|r| (r.ctx, r.var)).collect::<Vec<_>>(), vec![(9, 14)]);
    assert_eq!(analyzer.resolve(7, &"a".to_string()), Some(12));
    assert_eq!(analyzer.resolve(3, &"a".to_string()), Some(4));
    assert_eq!(analyzer.resolve(3, &"s".to_string()), None);
    assert_eq!(analyzer.latest_version(15, &"s".to_string()), Some(17));
    assert_eq!(analyzer.latest_version(3, &"zzz".to_string()), None);
    assert_eq!(analyzer.parent(7), Some(3));
    assert_eq!(analyzer.parent(3), None);
    assert_eq!(analyzer.function_of(15), 0);
    assert!(analyzer.counts(15, 16));
    assert!(!analyzer.counts(15, 12));
    assert_eq!(analyzer.narrowing_chain(8).0, None);
    assert_eq!(analyzer.narrowing_chain(12).0, Some(12));
    assert_eq!(analyzer.declared_type(7, &"s".to_string()), Some(1));
    assert_eq!(analyzer.declared_type(7, &"a".to_string()), None);
}

#[test]
fn a_declaration_after_an_assignment_replaces_the_live_version() {
    let mut analyzer = Analyzer::new();
    let mut unit_analyzer = Analyzer::new();
    let f = function(
        "d",
        vec![],
        vec![
            assign("c", num("1")),
            declare(uint(256), "c", Some(num("2"))),
            declare(uint(8), "c", None),
        ],
    );
    analyzer.parse_func_def(&f);
    let entry = analyzer.entry_contexts()[0];
    let versions: Vec<(usize, Option<usize>, Origin, Option<Range>)> = (0..analyzer.node_count())
        .filter_map(|i| match analyzer.node(i) {
            Node::ContextVar(v) => Some((i, v.prev, v.origin, v.range.clone())),
            _ => None,
        })
        .collect();
    assert_eq!(
        versions,
        vec![
            (3, None, Origin::Assigned, Some(exact(1))),
            (5, Some(3), Origin::Declared, Some(exact(2))),
            (6, Some(5), Origin::Declared, Some(Range::Top(uint_domain(8)))),
        ]
    );
    assert_eq!(analyzer.resolve(entry, &"c".to_string()), Some(6));
    let edges: Vec<(usize, usize, Edge)> = (0..analyzer.edge_count()).map(|i| analyzer.edge(i)).collect();
    assert!(edges.contains(&(5, 3, Edge::Context(ContextEdge::Prev))));
    assert!(edges.contains(&(6, 5, Edge::Context(ContextEdge::Prev))));
    let reports = analyzer.bounds_for(entry, &"c".to_string(), config());
    assert_eq!(reports.len(), 1);
    assert_eq!(reports[0].var, 6);
    let c = VariableDefinition { loc: loc(0), ty: uint(256), name: Some(ident("c")), initializer: None };
    unit_analyzer.parse_var_def(&c, true);
    let shadow = function("s", vec![], vec![assign("c", num("1")), declare(uint(256), "c", Some(num("2")))]);
    unit_analyzer.parse_func_def(&shadow);
    let ctx = unit_analyzer.entry_contexts()[0];
    let live = unit_analyzer.resolve(ctx, &"c".to_string()).unwrap();
    match unit_analyzer.node(live) {
        Node::ContextVar(v) => {
            assert_eq!(v.origin, Origin::Declared);
            assert_eq!(v.range, Some(exact(2)));
            let before = v.prev.unwrap();
            match unit_analyzer.node(before) {
                Node::ContextVar(p) => {
                    assert_eq!((p.origin, p.prev), (Origin::Assigned, None));
                    assert_eq!(p.range, Some(exact(1)));
                }
                other => panic!("not a version: {:?}", other),
            }
        }
        other => panic!("not a version: {:?}", other),
    }
}
