use sol_ranges::analyzer::{Analyzer, AnalyzerLike, GraphLike};
use sol_ranges::ast::{
    ContractDefinition, ContractPart, ContractTy, EnumDefinition, ErrorDefinition,
    ErrorParameter, Expression, FunctionDefinition, FunctionTy, Identifier, Loc, Parameter,
    SourceUnit, SourceUnitPart, StructDefinition, Type, TypeDefinition, VariableDeclaration,
    VariableDefinition,
};
use sol_ranges::concrete::Concrete;
use sol_ranges::lower::{is_decimal_text, literal_word};
use sol_ranges::range::Domain;
use sol_ranges::signed::Int256;
use sol_ranges::store::shown_node;
use sol_ranges::tables::Table;
use sol_ranges::types::{
    Branch, Builtin, ConcreteNode, Context, ContextEdge, ContextVar, DynBuiltin, Edge, Enum,
    Field, FunctionParam, FunctionReturn, Node, Origin, Struct, VarType,
};
use sol_ranges::word::Word;

fn at(start: usize) -> Loc {
    Loc::File(0, start, start + 1)
}

fn ident(name: &str) -> Identifier {
    Identifier { loc: at(0), name: name.to_string() }
}

fn ty(t: Type) -> Expression {
    Expression::Type(at(0), t)
}

fn field(t: Expression, name: &str) -> VariableDeclaration {
    VariableDeclaration { loc: at(1), ty: t, name: Some(ident(name)) }
}

fn edges(analyzer: &Analyzer) -> Vec<(usize, usize, Edge)> {
    (0..analyzer.edge_count()).map(|i| analyzer.edge(i)).collect()
}

#[test]
fn a_primitive_type_has_one_node() {
    let mut analyzer = Analyzer::new();
    let a = analyzer.parse_expr(&ty(Type::Uint(256)));
    let b = analyzer.parse_expr(&ty(Type::Bool));
    let c = analyzer.parse_expr(&ty(Type::Uint(256)));
    assert_eq!((a, b, c), (0, 1, 0));
    assert_eq!(analyzer.node_count(), 2);
    assert_eq!(*analyzer.node(0), Node::Builtin(Builtin::Uint(256)));
    assert_eq!(analyzer.builtins().get(&Builtin::Bool), Some(1));
    assert_eq!(analyzer.builtin_or_add(Builtin::Bool), 1);
    assert_eq!(analyzer.builtin_or_add(Builtin::Address), 2);
    assert_eq!(analyzer.try_node(3), None);
}

#[test]
fn a_name_used_before_its_declaration_is_a_placeholder_that_the_declaration_rewrites() {
    let mut analyzer = Analyzer::new();
    let holder = StructDefinition {
        loc: at(0),
        name: Some(ident("Holder")),
        fields: vec![field(Expression::Variable(ident("Later")), "item")],
    };
    let h = analyzer.parse_struct_def(&holder);
    assert_eq!(h.0, 0);
    assert_eq!(*analyzer.node(1), Node::Unresolved(ident("Later")));
    assert_eq!(*analyzer.node(2), Node::Field(Field { loc: at(1), ty: 1, name: Some(ident("item")) }));
    let later = EnumDefinition {
        loc: at(7),
        name: Some(ident("Later")),
        values: vec![Some(ident("A")), Some(ident("B"))],
    };
    let e = analyzer.parse_enum_def(&later);
    assert_eq!(e.0, 1);
    assert_eq!(analyzer.node_count(), 3);
    assert_eq!(*analyzer.node(1), Node::Enum(Enum { loc: at(7), name: Some(ident("Later")), values: 2 }));
    assert_eq!(edges(&analyzer), vec![(2, 0, Edge::Field)]);
    let again = analyzer.parse_enum_def(&later);
    assert_eq!(again.0, 3);
    assert_eq!(analyzer.user_types().get(&"Later".to_string()), Some(3));
}

#[test]
fn struct_fields_are_lowered_in_the_order_of_the_declaration() {
    let mut analyzer = Analyzer::new();
    let def = StructDefinition {
        loc: at(0),
        name: Some(ident("Pair")),
        fields: vec![field(ty(Type::Uint(8)), "first"), field(ty(Type::Address), "second"), field(ty(Type::Uint(8)), "third")],
    };
    let s = analyzer.parse_struct_def(&def);
    assert_eq!(*analyzer.node(s.0), Node::Struct(Struct { loc: at(0), name: Some(ident("Pair")) }));
    let names: Vec<(usize, usize, String)> = (0..analyzer.node_count())
        .filter_map(|i| match analyzer.node(i) {
            Node::Field(f) => Some((i, f.ty, f.name.as_ref().unwrap().name.clone())),
            _ => None,
        })
        .collect();
    assert_eq!(
        names,
        vec![(2, 1, "first".to_string()), (4, 3, "second".to_string()), (5, 1, "third".to_string())]
    );
    assert_eq!(edges(&analyzer), vec![(2, 0, Edge::Field), (4, 0, Edge::Field), (5, 0, Edge::Field)]);
}

#[test]
fn an_error_and_a_function_tie_their_parameters() {
    let mut analyzer = Analyzer::new();
    let err = ErrorDefinition {
        loc: at(0),
        name: Some(ident("Bad")),
        fields: vec![ErrorParameter { loc: at(2), ty: ty(Type::Bool), name: None }],
    };
    let e = analyzer.parse_err_def(&err);
    assert_eq!(e.0, 0);
    assert_eq!(edges(&analyzer), vec![(2, 0, Edge::ErrorParam)]);
    assert_eq!(analyzer.user_types().get(&"Bad".to_string()), Some(0));
    let f = FunctionDefinition {
        loc: at(3),
        ty: FunctionTy::Function,
        name: Some(ident("f")),
        params: vec![Some(Parameter { loc: at(4), ty: ty(Type::Bool), name: Some(ident("p")) }), None],
        outputs: vec![Some(Parameter { loc: at(5), ty: ty(Type::Uint(8)), name: None })],
        body: None,
    };
    let fnode = analyzer.parse_func_def(&f);
    assert_eq!(fnode.0, 3);
    assert_eq!(*analyzer.node(4), Node::FunctionParam(FunctionParam {
            loc: at(4),
            function: 3,
            ty: 1,
            name: Some(ident("p"))
        }));
    assert_eq!(*analyzer.node(6), Node::FunctionReturn(FunctionReturn { loc: at(5), ty: 5, name: None }));
    assert_eq!(
        edges(&analyzer),
        vec![(2, 0, Edge::ErrorParam), (4, 3, Edge::FunctionParam), (6, 3, Edge::FunctionReturn)]
    );
    assert!(analyzer.entry_contexts().is_empty());
    let unnamed = FunctionDefinition {
        loc: at(6),
        ty: FunctionTy::Constructor,
        name: None,
        params: vec![],
        outputs: vec![],
        body: None,
    };
    assert_eq!(analyzer.parse_func_def(&unnamed).0, 7);
}

#[test]
fn an_array_type_has_one_node_for_each_element_type() {
    let mut analyzer = Analyzer::new();
    let array = Expression::ArraySubscript(at(0), Box::new(ty(Type::Uint(8))), None);
    let a = analyzer.parse_expr(&array);
    let b = analyzer.parse_expr(&array);
    assert_eq!((a, b), (1, 1));
    assert_eq!(*analyzer.node(1), Node::DynBuiltin(DynBuiltin::Array(VarType::BuiltIn(0))));
    assert_eq!(analyzer.dyn_builtins().get(&DynBuiltin::Array(VarType::BuiltIn(0))), Some(1));
    let nested = Expression::ArraySubscript(at(0), Box::new(array), None);
    assert_eq!(analyzer.parse_expr(&nested), 2);
    assert_eq!(*analyzer.node(2), Node::DynBuiltin(DynBuiltin::Array(VarType::DynamicBuiltIn(1))));
    let of_unknown = Expression::ArraySubscript(at(0), Box::new(Expression::Variable(ident("T"))), None);
    assert_eq!(analyzer.parse_expr(&of_unknown), 4);
    assert_eq!(*analyzer.node(4), Node::DynBuiltin(DynBuiltin::Array(VarType::User(3))));
    assert_eq!(VarType::try_from_idx(&analyzer, 0), Some(VarType::BuiltIn(0)));
    assert_eq!(VarType::try_from_idx(&analyzer, 99), None);
    let indexed = Expression::ArraySubscript(
        at(0),
        Box::new(Expression::Variable(ident("xs"))),
        Some(Box::new(Expression::NumberLiteral(at(0), "3".to_string(), String::new()))),
    );
    assert_eq!(analyzer.parse_expr(&indexed), 7);
    assert_eq!(*analyzer.node(7), Node::Deferred(at(0)));
    assert_eq!(analyzer.node_count(), 8);
    let of_literal = Expression::ArraySubscript(
        at(9),
        Box::new(Expression::BoolLiteral(at(8), true)),
        None,
    );
    assert_eq!(analyzer.parse_expr(&of_literal), 9);
    assert_eq!(*analyzer.node(8), Node::Deferred(at(8)));
    assert_eq!(*analyzer.node(9), Node::Deferred(at(9)));
}

#[test]
fn a_number_literal_is_its_digits_times_ten_to_its_exponent() {
    let mut analyzer = Analyzer::new();
    let plain = analyzer.parse_expr(&Expression::NumberLiteral(at(0), "42".to_string(), String::new()));
    assert_eq!(*analyzer.node(plain), Node::Concrete(Concrete::Uint(256, Word::from_u64(42))));
    let scaled = analyzer.parse_expr(&Expression::NumberLiteral(
        Loc::File(0, 0, 3),
        "2".to_string(),
        "3".to_string(),
    ));
    assert_eq!(scaled, 1);
    assert_eq!(*analyzer.node(scaled), Node::Concrete(Concrete::Uint(256, Word::from_u64(2000))));
    assert_eq!(analyzer.edge_count(), 0);
    assert_eq!(ConcreteNode(scaled).underlying(&analyzer).uint_val(), Some(Word::from_u64(2000)));
    assert_eq!(ConcreteNode(99).try_underlying(&analyzer), None);
    assert_eq!(literal_word("2", "10"), Some(Word::from_u64(20_000_000_000)));
    assert_eq!(literal_word("1", "77"), Word::from_dec_str(&format!("1{}", "0".repeat(77))));
    assert!(literal_word("1", "77").is_some());
    assert_eq!(literal_word("2", "77"), None);
    assert_eq!(literal_word("1", "78"), None);
    assert_eq!(literal_word("0", "1000"), Some(Word::zero()));
    assert_eq!(literal_word("0", &"9".repeat(100)), Some(Word::zero()));
    assert_eq!(literal_word("1", &"9".repeat(100)), None);
    assert_eq!(literal_word("007", "01"), Some(Word::from_u64(70)));
    assert_eq!(literal_word("1x", ""), None);
    assert_eq!(literal_word("1", "x"), None);
    assert_eq!(literal_word("0", "x"), None);
    assert_eq!(literal_word("", ""), Some(Word::zero()));
    assert_eq!(literal_word("5", ""), Some(Word::from_u64(5)));
    assert!(is_decimal_text("0123456789"));
    assert!(!is_decimal_text("12٣"));
    assert!(is_decimal_text(""));
}

#[test]
fn an_expression_without_a_node_of_its_own_is_deferred() {
    let mut analyzer = Analyzer::new();
    let file = analyzer.add_node(Node::SourceUnit(0));
    assert_eq!(file, 0);
    let bad = analyzer.parse_expr(&Expression::NumberLiteral(at(3), "12ab".to_string(), String::new()));
    assert_eq!(bad, 1);
    assert_eq!(*analyzer.node(bad), Node::Deferred(at(3)));
    let truth = analyzer.parse_expr(&Expression::BoolLiteral(at(4), true));
    assert_eq!(truth, 2);
    assert_eq!(*analyzer.node(truth), Node::Deferred(at(4)));
    let other = analyzer.parse_expr(&Expression::Unsupported(at(5)));
    assert_eq!(*analyzer.node(other), Node::Deferred(at(5)));
    let function_type = analyzer.parse_expr(&ty(Type::Function));
    assert_eq!(*analyzer.node(function_type), Node::Deferred(at(0)));
    assert_eq!(function_type, 4);
    assert_eq!(analyzer.node_count(), 5);
    assert_eq!(*analyzer.node(0), Node::SourceUnit(0));
    assert_eq!(analyzer.edge_count(), 0);
    assert_eq!(VarType::try_from_idx(&analyzer, truth), None);
    assert_eq!(Expression::BoolLiteral(at(4), true).loc(), at(4));
    assert_eq!(Expression::Variable(ident("v")).loc(), at(0));
}

#[test]
fn every_declaration_rewrites_the_placeholder_of_its_name() {
    let mut analyzer = Analyzer::new();
    let names = ["C", "v", "E", "T"];
    for (i, name) in names.iter().enumerate() {
        assert_eq!(analyzer.parse_expr(&Expression::Variable(ident(name))), i);
    }
    analyzer.add_edge(1, 0, Edge::Part);
    let contract = ContractDefinition {
        loc: at(1),
        ty: ContractTy::Contract,
        name: Some(ident("C")),
        parts: vec![],
    };
    assert_eq!(analyzer.parse_contract_def(&contract).0, 0);
    assert!(matches!(analyzer.node(0), Node::Contract(_)));
    let var = VariableDefinition {
        loc: at(2),
        ty: ty(Type::Bool),
        name: Some(ident("v")),
        initializer: None,
    };
    assert_eq!(analyzer.parse_var_def(&var, false).0, 1);
    match analyzer.node(1) {
        Node::Var(v) => assert_eq!((v.ty, v.in_contract), (4, false)),
        other => panic!("not a variable: {:?}", other),
    }
    let error = ErrorDefinition { loc: at(3), name: Some(ident("E")), fields: vec![] };
    assert_eq!(analyzer.parse_err_def(&error).0, 2);
    assert!(matches!(analyzer.node(2), Node::Error(_)));
    let alias = TypeDefinition { loc: at(4), name: ident("T"), ty: ty(Type::Bool) };
    assert_eq!(analyzer.parse_ty_def(&alias).0, 3);
    assert!(matches!(analyzer.node(3), Node::Ty(_)));
    assert_eq!(analyzer.node_count(), 5);
    assert_eq!(edges(&analyzer), vec![(1, 0, Edge::Part)]);
    for (i, name) in names.iter().enumerate() {
        assert_eq!(analyzer.user_types().get(&name.to_string()), Some(i));
    }
    assert_eq!(analyzer.parse_contract_def(&contract).0, 5);
    assert_eq!(analyzer.user_types().get(&"C".to_string()), Some(5));
    assert_eq!(analyzer.parse_var_def(&var, true).0, 6);
    assert_eq!(analyzer.user_types().get(&"v".to_string()), Some(6));
}

#[test]
fn a_variable_and_a_type_alias_register_their_names() {
    let mut analyzer = Analyzer::new();
    let v = VariableDefinition {
        loc: at(0),
        ty: ty(Type::Uint(64)),
        name: Some(ident("total")),
        initializer: Some(Expression::NumberLiteral(at(0), "5".to_string(), String::new())),
    };
    let node = analyzer.parse_var_def(&v, true);
    assert_eq!(node.0, 2);
    match analyzer.node(2) {
        Node::Var(var) => {
            assert_eq!((var.ty, var.initializer, var.in_contract), (0, Some(1), true));
        }
        other => panic!("not a variable: {:?}", other),
    }
    assert_eq!(analyzer.user_types().get(&"total".to_string()), Some(2));
    assert_eq!(analyzer.parse_expr(&Expression::Variable(ident("total"))), 2);
    let alias = TypeDefinition { loc: at(0), name: ident("Price"), ty: ty(Type::Uint(64)) };
    let t = analyzer.parse_ty_def(&alias);
    assert_eq!(t.0, 3);
    assert_eq!(analyzer.user_types().get(&"Price".to_string()), Some(3));
}

#[test]
fn declarations_that_are_not_modelled_leave_only_their_place() {
    let mut analyzer = Analyzer::new();
    let unit = SourceUnit(vec![
        SourceUnitPart::PragmaDirective,
        SourceUnitPart::ImportDirective,
        SourceUnitPart::ContractDefinition(Box::new(ContractDefinition {
            loc: at(0),
            ty: ContractTy::Library,
            name: Some(ident("L")),
            parts: vec![ContractPart::EventDefinition, ContractPart::Using, ContractPart::StraySemicolon],
        })),
    ]);
    let root = analyzer.parse(&unit, 3).unwrap();
    assert_eq!(root, 0);
    assert_eq!(*analyzer.node(0), Node::SourceUnit(3));
    assert_eq!(*analyzer.node(1), Node::SourceUnitPart(3, 0));
    assert_eq!(*analyzer.node(2), Node::SourceUnitPart(3, 1));
    assert_eq!(*analyzer.node(3), Node::SourceUnitPart(3, 2));
    assert!(matches!(analyzer.node(4), Node::Contract(_)));
    assert_eq!(analyzer.node_count(), 5);
    assert_eq!(
        edges(&analyzer),
        vec![(1, 0, Edge::Part), (2, 0, Edge::Part), (3, 0, Edge::Part), (4, 3, Edge::Contract)]
    );
    let second = analyzer.parse(&SourceUnit(vec![]), 4).unwrap();
    assert_eq!(second, 5);
}

#[test]
fn a_node_can_be_rewritten_in_place() {
    let mut analyzer = Analyzer::default();
    let a = analyzer.add_node(Node::SourceUnit(1));
    let b = analyzer.add_node(Node::ContextFork);
    analyzer.add_edge(b, a, Edge::Part);
    *analyzer.node_mut(a) = Node::SourceUnit(9);
    assert_eq!(*analyzer.node(a), Node::SourceUnit(9));
    assert_eq!(*analyzer.node(b), Node::ContextFork);
    assert_eq!(analyzer.edge(0), (1, 0, Edge::Part));
    assert_eq!(analyzer.try_node(b), Some(&Node::ContextFork));
    let dot = analyzer.dot_str();
    assert!(dot.contains("SourceUnit(9)"));
    assert!(dot.contains("0 [ label = "));
    assert!(dot.contains("1 -> 0 [ label = \"Part\" ]"));
    let unresolved = analyzer.declare(&Some(ident("x")), Node::Unresolved(ident("x")));
    assert_eq!(analyzer.declare(&Some(ident("x")), Node::ContextFork), unresolved);
    assert_eq!(analyzer.declare(&None, Node::ContextFork), unresolved + 1);
}

#[test]
fn tables_give_the_latest_handle_of_a_key() {
    let mut names: Table<String> = Table::new();
    assert_eq!(names.get(&"a".to_string()), None);
    names.insert("a".to_string(), 1);
    names.insert("b".to_string(), 2);
    names.insert("a".to_string(), 3);
    assert_eq!(names.get(&"a".to_string()), Some(3));
    assert_eq!(names.get(&"b".to_string()), Some(2));
    assert_eq!(names.get(&"".to_string()), None);
}

#[test]
fn literals_render_as_text() {
    assert_eq!(Concrete::Uint(8, Word::from_u64(255)).as_string(), "255");
    assert_eq!(Concrete::Int(8, Int256::from_raw(Word::max())).as_string(), "-1");
    assert_eq!(Concrete::String("hi".to_string()).as_string(), "hi");
    let mut bytes = [0u8; 32];
    bytes[0] = 0xab;
    bytes[31] = 0x0f;
    let hex = Concrete::Bytes(2, bytes).as_string();
    assert_eq!(hex.len(), 66);
    assert!(hex.starts_with("0xab00"));
    assert!(hex.ends_with("000f"));
    assert_eq!(Concrete::Uint(8, Word::from_u64(7)).uint_val(), Some(Word::from_u64(7)));
    assert_eq!(Concrete::Bool(true).uint_val(), None);
    assert_eq!(Concrete::Int(8, Int256::from_raw(Word::one())).int_val(), Some(Int256::from_raw(Word::one())));
    assert_eq!(Concrete::Uint(8, Word::one()).int_val(), None);
}

#[test]
fn a_literal_has_exactly_its_value_as_range() {
    let five = Concrete::Uint(8, Word::from_u64(5)).range().unwrap();
    assert!(five.exact());
    let i = five.eval();
    assert_eq!((i.min, i.max, i.flagged), (sol_ranges::bound::Bound::from_u64(5), sol_ranges::bound::Bound::from_u64(5), false));
    let minus = Concrete::Int(8, Int256::from_raw(Word::max())).range().unwrap().eval();
    assert!(minus.min.negative);
    assert_eq!(minus.min.magnitude, Word::one());
    assert_eq!(minus.min, minus.max);
    let yes = Concrete::Bool(true).range().unwrap().eval();
    assert_eq!(yes.min, sol_ranges::bound::Bound::one());
    assert_eq!(Concrete::String("x".to_string()).range(), None);
    assert_eq!(Concrete::Address([0u8; 20]).range(), None);
}

#[test]
fn primitive_types_have_the_numbers_of_their_width() {
    assert_eq!(Builtin::Uint(8).domain(), Domain::new(false, 8));
    assert_eq!(Builtin::Int(256).domain(), Domain::new(true, 256));
    assert_eq!(Builtin::Uint(0).domain(), None);
    assert_eq!(Builtin::Uint(257).domain(), None);
    assert_eq!(Builtin::Bool.domain(), Domain::new(false, 1));
    assert_eq!(Builtin::Address.domain(), Domain::new(false, 160));
    assert_eq!(Builtin::Bytes(32).domain(), Domain::new(false, 256));
    assert_eq!(Builtin::Bytes(33).domain(), None);
    assert_eq!(Builtin::String.domain(), None);
    assert_eq!(Builtin::try_from_ty(&Type::Payable), Some(Builtin::Payable));
    assert_eq!(Builtin::try_from_ty(&Type::Function), None);
}

#[test]
fn a_new_analyzer_is_empty() {
    let analyzer = Analyzer::new();
    assert_eq!(analyzer.node_count(), 0);
    assert_eq!(analyzer.edge_count(), 0);
    assert_eq!(analyzer.try_node(0), None);
    assert_eq!(analyzer.user_types().get(&"x".to_string()), None);
    assert!(analyzer.entry_contexts().is_empty());
    assert_eq!(Analyzer::default().node_count(), 0);
}

#[test]
fn the_export_without_temporaries_renumbers_what_it_keeps() {
    let mut analyzer = Analyzer::new();
    let unit = analyzer.add_node(Node::SourceUnit(0));
    let ctx = analyzer.add_node(Node::Context(Context {
        function: 0,
        parent: None,
        fork: None,
        branch: Branch::Entry,
        condition: None,
    }));
    let tmp = analyzer.bind(ContextVar {
        loc: at(0),
        name: None,
        ctx,
        tmp_of: Some(unit),
        prev: None,
        domain: None,
        range: None,
        origin: Origin::Merged,
    });
    let kept = analyzer.bind(ContextVar {
        loc: at(0),
        name: Some("x".to_string()),
        ctx,
        tmp_of: None,
        prev: Some(tmp),
        domain: None,
        range: None,
        origin: Origin::Assigned,
    });
    assert_eq!((tmp, kept), (2, 3));
    assert_eq!(
        edges(&analyzer),
        vec![
            (2, 1, Edge::Context(ContextEdge::Variable)),
            (3, 1, Edge::Context(ContextEdge::Variable)),
            (3, 2, Edge::Context(ContextEdge::Prev)),
        ]
    );
    let all = analyzer.dot_str();
    assert!(all.contains("3 -> 1 "));
    assert!(all.contains("3 -> 2 "));
    assert!(all.contains("    3 [ label"));
    let shown = analyzer.dot_str_no_tmps();
    assert!(shown.contains("2 -> 1 "));
    assert!(!shown.contains("3 -> "));
    assert!(!shown.contains("    3 [ label"));
    assert!(shown.contains("    2 [ label"));
    assert!(!shown.contains("Prev"));
    assert_eq!(shown_node(analyzer.node(tmp)), None);
    assert_eq!(shown_node(analyzer.node(kept)), Some(analyzer.node(kept)));
}
