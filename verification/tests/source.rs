use sol_ranges::analyzer::{Analyzer, GraphLike};
use sol_ranges::ast;
use sol_ranges::bound::{ArithOp, Bound};
use sol_ranges::range::{Domain, Range, Relation};
use sol_ranges::report::{Report, ReportConfig};
use sol_ranges::types::{Branch, Node, Origin};
use sol_ranges::word::Word;
use solang_parser::pt;

fn loc(l: &pt::Loc) -> ast::Loc {
    match l {
        pt::Loc::Builtin => ast::Loc::Builtin,
        pt::Loc::CommandLine => ast::Loc::CommandLine,
        pt::Loc::Implicit => ast::Loc::Implicit,
        pt::Loc::Codegen => ast::Loc::Codegen,
        pt::Loc::File(file_no, start, end) => ast::Loc::File(*file_no, *start, *end),
    }
}

fn identifier(id: &pt::Identifier) -> ast::Identifier {
    ast::Identifier { loc: loc(&id.loc), name: id.name.clone() }
}

fn name(id: &Option<pt::Identifier>) -> Option<ast::Identifier> {
    id.as_ref().map(identifier)
}

fn boxed(e: &pt::Expression) -> Box<ast::Expression> {
    Box::new(expression(e))
}

fn ty(t: &pt::Type) -> ast::Type {
    match t {
        pt::Type::Address => ast::Type::Address,
        pt::Type::AddressPayable => ast::Type::AddressPayable,
        pt::Type::Payable => ast::Type::Payable,
        pt::Type::Bool => ast::Type::Bool,
        pt::Type::String => ast::Type::String,
        pt::Type::Int(n) => ast::Type::Int(*n),
        pt::Type::Uint(n) => ast::Type::Uint(*n),
        pt::Type::Bytes(n) => ast::Type::Bytes(*n),
        pt::Type::Rational => ast::Type::Rational,
        pt::Type::DynamicBytes => ast::Type::DynamicBytes,
        pt::Type::Mapping { key, value, .. } => ast::Type::Mapping(boxed(key), boxed(value)),
        pt::Type::Function { .. } => ast::Type::Function,
    }
}

fn arithmetic(l: &pt::Loc, op: ArithOp, a: &pt::Expression, b: &pt::Expression) -> ast::Expression {
    ast::Expression::Arithmetic(loc(l), op, boxed(a), boxed(b))
}

fn comparison(l: &pt::Loc, r: Relation, a: &pt::Expression, b: &pt::Expression) -> ast::Expression {
    ast::Expression::Comparison(loc(l), r, boxed(a), boxed(b))
}

fn assign(l: &pt::Loc, op: Option<ArithOp>, a: &pt::Expression, b: &pt::Expression) -> ast::Expression {
    ast::Expression::Assign(loc(l), op, boxed(a), boxed(b))
}

fn expression(e: &pt::Expression) -> ast::Expression {
    match e {
        pt::Expression::Type(l, t) => ast::Expression::Type(loc(l), ty(t)),
        pt::Expression::Variable(id) => ast::Expression::Variable(identifier(id)),
        pt::Expression::ArraySubscript(l, a, i) => {
            ast::Expression::ArraySubscript(loc(l), boxed(a), i.as_ref().map(|x| boxed(x)))
        }
        pt::Expression::NumberLiteral(l, digits, exponent, _unit) => {
            ast::Expression::NumberLiteral(loc(l), digits.clone(), exponent.clone())
        }
        pt::Expression::BoolLiteral(l, b) => ast::Expression::BoolLiteral(loc(l), *b),
        pt::Expression::Parenthesis(_, inner) => expression(inner),
        pt::Expression::Add(l, a, b) => arithmetic(l, ArithOp::Add, a, b),
        pt::Expression::Subtract(l, a, b) => arithmetic(l, ArithOp::Sub, a, b),
        pt::Expression::Multiply(l, a, b) => arithmetic(l, ArithOp::Mul, a, b),
        pt::Expression::Divide(l, a, b) => arithmetic(l, ArithOp::Div, a, b),
        pt::Expression::Modulo(l, a, b) => arithmetic(l, ArithOp::Rem, a, b),
        pt::Expression::Less(l, a, b) => comparison(l, Relation::Lt, a, b),
        pt::Expression::LessEqual(l, a, b) => comparison(l, Relation::Le, a, b),
        pt::Expression::More(l, a, b) => comparison(l, Relation::Gt, a, b),
        pt::Expression::MoreEqual(l, a, b) => comparison(l, Relation::Ge, a, b),
        pt::Expression::Equal(l, a, b) => comparison(l, Relation::Eq, a, b),
        pt::Expression::NotEqual(l, a, b) => comparison(l, Relation::Ne, a, b),
        pt::Expression::Assign(l, a, b) => assign(l, None, a, b),
        pt::Expression::AssignAdd(l, a, b) => assign(l, Some(ArithOp::Add), a, b),
        pt::Expression::AssignSubtract(l, a, b) => assign(l, Some(ArithOp::Sub), a, b),
        pt::Expression::AssignMultiply(l, a, b) => assign(l, Some(ArithOp::Mul), a, b),
        pt::Expression::AssignDivide(l, a, b) => assign(l, Some(ArithOp::Div), a, b),
        pt::Expression::AssignModulo(l, a, b) => assign(l, Some(ArithOp::Rem), a, b),
        pt::Expression::Not(l, inner) => ast::Expression::Not(loc(l), boxed(inner)),
        pt::Expression::ConditionalOperator(l, c, a, b) => {
            ast::Expression::Ternary(loc(l), boxed(c), boxed(a), boxed(b))
        }
        pt::Expression::FunctionCall(l, callee, args) => ast::Expression::FunctionCall(
            loc(l),
            boxed(callee),
            args.iter().map(expression).collect(),
        ),
        other => ast::Expression::Unsupported(loc(&pt::CodeLocation::loc(other))),
    }
}

fn declaration(d: &pt::VariableDeclaration) -> ast::VariableDeclaration {
    ast::VariableDeclaration { loc: loc(&d.loc), ty: expression(&d.ty), name: name(&d.name) }
}

fn evaluated(l: &pt::Loc, e: &pt::Expression) -> ast::Statement {
    ast::Statement::Expression(loc(l), expression(e))
}

fn statement(s: &pt::Statement) -> ast::Statement {
    match s {
        pt::Statement::Block { loc: l, statements, .. } => {
            ast::Statement::Block(loc(l), statements.iter().map(statement).collect())
        }
        pt::Statement::Expression(l, e) => evaluated(l, e),
        pt::Statement::VariableDefinition(l, d, init) => ast::Statement::VariableDefinition(
            loc(l),
            declaration(d),
            init.as_ref().map(expression),
        ),
        pt::Statement::If(l, c, then, otherwise) => ast::Statement::If(
            loc(l),
            expression(c),
            Box::new(statement(then)),
            otherwise.as_ref().map(|o| Box::new(statement(o))),
        ),
        pt::Statement::While(l, c, body) => {
            ast::Statement::While(loc(l), expression(c), Box::new(statement(body)))
        }
        pt::Statement::DoWhile(l, body, c) => {
            ast::Statement::DoWhile(loc(l), Box::new(statement(body)), expression(c))
        }
        pt::Statement::For(l, init, c, update, body) => ast::Statement::For(
            loc(l),
            init.as_ref().map(|s| Box::new(statement(s))),
            c.as_ref().map(|e| boxed(e)),
            update.as_ref().map(|s| Box::new(statement(s))),
            body.as_ref().map(|s| Box::new(statement(s))),
        ),
        pt::Statement::Return(l, value) => ast::Statement::Return(loc(l), value.as_ref().map(expression)),
        other => ast::Statement::Unsupported(loc(&pt::CodeLocation::loc(other))),
    }
}

fn parameter(p: &pt::Parameter) -> ast::Parameter {
    ast::Parameter { loc: loc(&p.loc), ty: expression(&p.ty), name: name(&p.name) }
}

fn parameters(list: &pt::ParameterList) -> Vec<Option<ast::Parameter>> {
    list.iter().map(|(_, p)| p.as_ref().map(parameter)).collect()
}

fn struct_definition(d: &pt::StructDefinition) -> ast::StructDefinition {
    ast::StructDefinition {
        loc: loc(&d.loc),
        name: name(&d.name),
        fields: d.fields.iter().map(declaration).collect(),
    }
}

fn enum_definition(d: &pt::EnumDefinition) -> ast::EnumDefinition {
    ast::EnumDefinition {
        loc: loc(&d.loc),
        name: name(&d.name),
        values: d.values.iter().map(name).collect(),
    }
}

fn error_definition(d: &pt::ErrorDefinition) -> ast::ErrorDefinition {
    ast::ErrorDefinition {
        loc: loc(&d.loc),
        name: name(&d.name),
        fields: d
            .fields
            .iter()
            .map(|f| ast::ErrorParameter {
                loc: loc(&f.loc),
                ty: expression(&f.ty),
                name: name(&f.name),
            })
            .collect(),
    }
}

fn variable_definition(d: &pt::VariableDefinition) -> ast::VariableDefinition {
    ast::VariableDefinition {
        loc: loc(&d.loc),
        ty: expression(&d.ty),
        name: name(&d.name),
        initializer: d.initializer.as_ref().map(expression),
    }
}

fn type_definition(d: &pt::TypeDefinition) -> ast::TypeDefinition {
    ast::TypeDefinition { loc: loc(&d.loc), name: identifier(&d.name), ty: expression(&d.ty) }
}

fn function_definition(d: &pt::FunctionDefinition) -> ast::FunctionDefinition {
    ast::FunctionDefinition {
        loc: loc(&d.loc),
        ty: match d.ty {
            pt::FunctionTy::Constructor => ast::FunctionTy::Constructor,
            pt::FunctionTy::Function => ast::FunctionTy::Function,
            pt::FunctionTy::Fallback => ast::FunctionTy::Fallback,
            pt::FunctionTy::Receive => ast::FunctionTy::Receive,
            pt::FunctionTy::Modifier => ast::FunctionTy::Modifier,
        },
        name: name(&d.name),
        params: parameters(&d.params),
        outputs: parameters(&d.returns),
        body: d.body.as_ref().map(statement),
    }
}

fn contract_part(p: &pt::ContractPart) -> ast::ContractPart {
    match p {
        pt::ContractPart::StructDefinition(d) => ast::ContractPart::StructDefinition(Box::new(struct_definition(d))),
        pt::ContractPart::EnumDefinition(d) => ast::ContractPart::EnumDefinition(Box::new(enum_definition(d))),
        pt::ContractPart::ErrorDefinition(d) => ast::ContractPart::ErrorDefinition(Box::new(error_definition(d))),
        pt::ContractPart::VariableDefinition(d) => {
            ast::ContractPart::VariableDefinition(Box::new(variable_definition(d)))
        }
        pt::ContractPart::FunctionDefinition(d) => {
            ast::ContractPart::FunctionDefinition(Box::new(function_definition(d)))
        }
        pt::ContractPart::TypeDefinition(d) => ast::ContractPart::TypeDefinition(Box::new(type_definition(d))),
        pt::ContractPart::EventDefinition(_) => ast::ContractPart::EventDefinition,
        pt::ContractPart::Annotation(_) => ast::ContractPart::Annotation,
        pt::ContractPart::Using(_) => ast::ContractPart::Using,
        pt::ContractPart::StraySemicolon(_) => ast::ContractPart::StraySemicolon,
    }
}

fn contract_definition(d: &pt::ContractDefinition) -> ast::ContractDefinition {
    ast::ContractDefinition {
        loc: loc(&d.loc),
        ty: match d.ty {
            pt::ContractTy::Abstract(_) => ast::ContractTy::Abstract,
            pt::ContractTy::Contract(_) => ast::ContractTy::Contract,
            pt::ContractTy::Interface(_) => ast::ContractTy::Interface,
            pt::ContractTy::Library(_) => ast::ContractTy::Library,
        },
        name: name(&d.name),
        parts: d.parts.iter().map(contract_part).collect(),
    }
}

fn source_unit_part(p: &pt::SourceUnitPart) -> ast::SourceUnitPart {
    match p {
        pt::SourceUnitPart::ContractDefinition(d) => {
            ast::SourceUnitPart::ContractDefinition(Box::new(contract_definition(d)))
        }
        pt::SourceUnitPart::StructDefinition(d) => ast::SourceUnitPart::StructDefinition(Box::new(struct_definition(d))),
        pt::SourceUnitPart::EnumDefinition(d) => ast::SourceUnitPart::EnumDefinition(Box::new(enum_definition(d))),
        pt::SourceUnitPart::ErrorDefinition(d) => ast::SourceUnitPart::ErrorDefinition(Box::new(error_definition(d))),
        pt::SourceUnitPart::VariableDefinition(d) => {
            ast::SourceUnitPart::VariableDefinition(Box::new(variable_definition(d)))
        }
        pt::SourceUnitPart::FunctionDefinition(d) => {
            ast::SourceUnitPart::FunctionDefinition(Box::new(function_definition(d)))
        }
        pt::SourceUnitPart::TypeDefinition(d) => ast::SourceUnitPart::TypeDefinition(Box::new(type_definition(d))),
        pt::SourceUnitPart::EventDefinition(_) => ast::SourceUnitPart::EventDefinition,
        pt::SourceUnitPart::Annotation(_) => ast::SourceUnitPart::Annotation,
        pt::SourceUnitPart::Using(_) => ast::SourceUnitPart::Using,
        pt::SourceUnitPart::StraySemicolon(_) => ast::SourceUnitPart::StraySemicolon,
        pt::SourceUnitPart::PragmaDirective(_, _, _) => ast::SourceUnitPart::PragmaDirective,
        pt::SourceUnitPart::ImportDirective(_) => ast::SourceUnitPart::ImportDirective,
    }
}

fn source_unit(unit: &pt::SourceUnit) -> ast::SourceUnit {
    ast::SourceUnit(unit.0.iter().map(source_unit_part).collect())
}

fn parse(analyzer: &mut Analyzer, src: &str, file_no: usize) -> Option<usize> {
    match solang_parser::parse(src, file_no) {
        Ok((unit, _comments)) => analyzer.parse(&source_unit(&unit), file_no),
        Err(e) => panic!("FAIL to parse, {:?}", e),
    }
}

fn evaluating() -> ReportConfig {
    ReportConfig {
        eval_bounds: true,
        show_tmps: false,
        show_consts: true,
        show_subctxs: true,
        show_initial_bounds: true,
    }
}

fn ends(r: &Report) -> (Bound, Bound, bool) {
    let i = r.bounds.unwrap();
    (i.min, i.max, i.flagged)
}

#[test]
fn it_works() {
    let sol = r###"
contract Storage {
    uint256 c;

    function b5(uint128 s) public  {
        c += s;
        // (uint256 a, uint256 b) = s < 5 ? (1 + 2, 5) : (3 + 4, 6);
        // a += 1;
        // require(a < 10);
        // require(b < 8);
        // if (s < 7) {
        //     c += 1;
        // } else {
        //     c += 2;
        // }
    }
}"###;
    let mut analyzer = Analyzer::default();
    let t0 = std::time::Instant::now();
    let entry = parse(&mut analyzer, &sol, 0).unwrap();
    println!("parse time: {:?}", t0.elapsed().as_nanos());
    println!("{}", analyzer.dot_str_no_tmps());
    assert_eq!(*analyzer.node(entry), Node::SourceUnit(0));
    let contexts = analyzer.entry_contexts();
    assert_eq!(contexts.len(), 1);
    let mut t = std::time::Instant::now();
    for context in contexts.into_iter() {
        let config = ReportConfig {
            eval_bounds: false,
            show_tmps: false,
            show_consts: true,
            show_subctxs: true,
            show_initial_bounds: true,
        };
        let analysis = analyzer.bounds_for_all(context, config);
        println!("analysis time: {:?}", t.elapsed().as_nanos());
        for report in analysis.iter() {
            println!("{:?}", report);
        }
        assert_eq!(
            analysis.iter().map(|r| r.name.clone().unwrap()).collect::<Vec<_>>(),
            vec!["c".to_string()]
        );
        t = std::time::Instant::now();
    }
    println!("total analyze time: {:?}", t0.elapsed().as_nanos());
}

#[test]
fn adding_a_parameter_to_a_state_variable_from_source() {
    let sol = "contract Storage { uint256 c; function b5(uint128 s) public { c += s; } }";
    let mut analyzer = Analyzer::new();
    parse(&mut analyzer, sol, 0);
    let contexts = analyzer.entry_contexts();
    assert_eq!(contexts.len(), 1);
    let entry = contexts[0];
    let count = (0..analyzer.node_count())
        .filter(|i| matches!(analyzer.node(*i), Node::Context(_)))
        .count();
    assert_eq!(count, 1);
    let versions_of_c = (0..analyzer.node_count())
        .filter(|i| match analyzer.node(*i) {
            Node::ContextVar(v) => v.name == Some("c".to_string()),
            _ => false,
        })
        .count();
    assert_eq!(versions_of_c, 1);
    let reports = analyzer.bounds_for(entry, &"c".to_string(), evaluating());
    assert_eq!(reports.len(), 1);
    assert_eq!(reports[0].ctx, entry);
    let uint256 = Domain::new(false, 256).unwrap();
    let uint128 = Domain::new(false, 128).unwrap();
    assert_eq!(
        reports[0].range,
        Some(Range::Arith(
            ArithOp::Add,
            uint256,
            Box::new(Range::Top(uint256)),
            Box::new(Range::Top(uint128)),
        ))
    );
    assert_eq!(ends(&reports[0]), (Bound::zero(), Bound::from_word(Word::max()), true));
}

#[test]
fn a_branch_on_a_parameter_from_source() {
    let sol = "contract T { function f(uint256 s) public returns (uint256) { uint256 a; \
               if (s < 5) { a = 1; } else { a = 2; } return a; } }";
    let mut analyzer = Analyzer::new();
    parse(&mut analyzer, sol, 0);
    let entry = analyzer.entry_contexts()[0];
    let branches: Vec<Branch> = (0..analyzer.node_count())
        .filter_map(|i| match analyzer.node(i) {
            Node::Context(c) => Some(c.branch),
            _ => None,
        })
        .collect();
    assert_eq!(branches, vec![Branch::Entry, Branch::True, Branch::False, Branch::Join]);
    let a = analyzer.bounds_for(entry, &"a".to_string(), evaluating());
    assert_eq!(a.len(), 4);
    assert_eq!(a[1].range, Some(Range::Exact(Bound::from_u64(1))));
    assert_eq!(a[2].range, Some(Range::Exact(Bound::from_u64(2))));
    assert_eq!(ends(&a[3]), (Bound::from_u64(1), Bound::from_u64(2), false));
    assert_eq!(a[3].origin, Origin::Merged);
    let s = analyzer.bounds_for(entry, &"s".to_string(), evaluating());
    assert_eq!(s.len(), 3);
    assert_eq!(ends(&s[0]), (Bound::zero(), Bound::from_u64(4), false));
    assert_eq!(ends(&s[1]).0, Bound::from_u64(5));
}

#[test]
fn loops_and_calls_from_source() {
    let sol = "contract L { uint8 n; function g(uint8 k) public { require(k <= 10); \
               for (uint8 i = 0; i < k; i += 1) { n = k; } while (n > 3) { n -= 1; } } }";
    let mut analyzer = Analyzer::new();
    parse(&mut analyzer, sol, 0);
    let entry = analyzer.entry_contexts()[0];
    let k = analyzer.bounds_for(entry, &"k".to_string(), evaluating());
    assert_eq!(ends(&k[0]), (Bound::zero(), Bound::from_u64(10), false));
    assert_eq!(k[0].origin, Origin::Assertion);
    let loops = (0..analyzer.node_count())
        .filter(|i| matches!(analyzer.node(*i), Node::Context(c) if c.branch == Branch::Loop))
        .count();
    assert_eq!(loops, 2);
    let n = analyzer.bounds_for(entry, &"n".to_string(), evaluating());
    assert!(!n.is_empty());
    let last = n.last().unwrap();
    assert_eq!(last.origin, Origin::Merged);
    assert_eq!(ends(last).0, Bound::zero());
}

#[test]
fn a_state_variable_written_in_one_arm_is_merged_with_its_declared_range() {
    let sol = "contract M { uint8 c; function f(uint8 s) public { if (s < 5) { c = 1; } c; } }";
    let mut analyzer = Analyzer::new();
    parse(&mut analyzer, sol, 0);
    let entry = analyzer.entry_contexts()[0];
    let c = analyzer.bounds_for(entry, &"c".to_string(), evaluating());
    assert_eq!(c.len(), 2);
    assert_eq!(c[0].origin, Origin::Assigned);
    assert_eq!(ends(&c[0]), (Bound::from_u64(1), Bound::from_u64(1), false));
    let uint8 = Domain::new(false, 8).unwrap();
    assert_eq!(c[1].origin, Origin::Merged);
    assert_eq!(
        c[1].range,
        Some(Range::Union(
            Box::new(Range::Exact(Bound::from_u64(1))),
            Box::new(Range::Top(uint8)),
        ))
    );
    assert_eq!(ends(&c[1]), (Bound::zero(), Bound::from_u64(255), false));
    match analyzer.node(c[1].ctx) {
        Node::Context(ctx) => assert_eq!(ctx.branch, Branch::Join),
        _ => panic!("no context"),
    }
}

#[test]
fn constants_are_reported_only_on_request() {
    let sol = "contract K { function f(uint256 s) public { uint256 a = 1; uint256 b = s; } }";
    let mut analyzer = Analyzer::new();
    parse(&mut analyzer, sol, 0);
    let entry = analyzer.entry_contexts()[0];
    let with = evaluating();
    let without = ReportConfig { show_consts: false, ..with };
    let shown = analyzer.bounds_for_all(entry, with);
    let hidden = analyzer.bounds_for_all(entry, without);
    let names = |rs: &Vec<Report>| rs.iter().map(|r| r.name.clone().unwrap()).collect::<Vec<_>>();
    assert_eq!(names(&shown), vec!["a".to_string(), "b".to_string()]);
    assert_eq!(names(&hidden), vec!["b".to_string()]);
    assert_eq!(ends(&shown[0]), (Bound::from_u64(1), Bound::from_u64(1), false));
    assert_eq!(shown[1], hidden[0]);
    assert_eq!(ends(&hidden[0]), (Bound::zero(), Bound::from_word(Word::max()), false));
}

#[test]
fn a_literal_with_an_exponent_from_source() {
    let sol = "contract X { function f() public { uint256 a = 2e3; } }";
    let mut analyzer = Analyzer::new();
    parse(&mut analyzer, sol, 0);
    let entry = analyzer.entry_contexts()[0];
    let a = analyzer.bounds_for(entry, &"a".to_string(), evaluating());
    assert_eq!(ends(&a[0]), (Bound::from_u64(2000), Bound::from_u64(2000), false));
}

#[test]
fn every_loop_form_forks_one_turn() {
    let sol = "contract W { function f(uint8 k) public { uint8 n = 0; \
               do { n = 4; } while (n < k); for (;;) { n = 6; } } }";
    let mut analyzer = Analyzer::new();
    parse(&mut analyzer, sol, 0);
    let entry = analyzer.entry_contexts()[0];
    let n = analyzer.bounds_for(entry, &"n".to_string(), evaluating());
    let seen: Vec<(Branch, u64, u64)> = n
        .iter()
        .map(|r| {
            let branch = match analyzer.node(r.ctx) {
                Node::Context(c) => c.branch,
                _ => panic!("no context"),
            };
            let i = r.bounds.unwrap();
            (branch, i.min.magnitude.limbs[0], i.max.magnitude.limbs[0])
        })
        .collect();
    assert_eq!(
        seen,
        vec![
            (Branch::Entry, 0, 0),
            (Branch::Loop, 4, 4),
            (Branch::Join, 0, 4),
            (Branch::Loop, 6, 6),
            (Branch::Join, 0, 6),
        ]
    );
}
