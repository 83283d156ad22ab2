use fzn2lp::model::{
    AnnArg, Annotation, ArrayInit, ConstraintDecl, Direction, Domain, Element, Expr, FlatZincError,
    Goal, Literal, OrderCheck, ParDecl, ParamType, PredIndex, PredParam, PredicateDecl, Scalar,
    SetExpr, Statement, VarDecl,
};
use fzn2lp::stream::{finish_run, write_fz_stmt};
use fzn2lp::text::{int_to_text, quote, usize_to_text};

fn int_value(n: i128) -> Scalar {
    Scalar::Value(Literal::Int(n))
}

fn int_param(id: &str, n: i128) -> Statement {
    Statement::Parameter(ParDecl { id: id.to_string(), value: Expr::Single(Element::Scalar(int_value(n))) })
}

fn int_var(id: &str) -> Statement {
    Statement::Variable(VarDecl::Scalar {
        id: id.to_string(),
        domain: Domain::Int,
        init: None,
        annos: vec![],
    })
}

fn constraint(id: &str) -> Statement {
    Statement::Constraint(ConstraintDecl {
        id: id.to_string(),
        args: vec![Expr::Single(Element::Scalar(Scalar::Var("x".to_string())))],
    })
}

fn predicate(id: &str) -> Statement {
    Statement::Predicate(PredicateDecl {
        id: id.to_string(),
        params: vec![PredParam { id: "a".to_string(), ty: ParamType::Basic(Domain::Int) }],
    })
}

struct Outcome {
    lines: Vec<String>,
    orders: Vec<OrderCheck>,
    end: Result<(), FlatZincError>,
}

/// Runs statements as the command-line driver does: stop at the first error,
/// else check for a solve item at the end.
fn run(stmts: Vec<Statement>) -> Outcome {
    let mut lines = Vec::new();
    let mut orders = Vec::new();
    let mut counter = 0;
    let mut level = 1;
    for stmt in &stmts {
        match write_fz_stmt(&mut lines, stmt, &mut counter, &mut level) {
            Ok(order) => orders.push(order),
            Err(e) => return Outcome { lines, orders, end: Err(e) },
        }
    }
    Outcome { lines, orders, end: finish_run(level) }
}

fn single_lines(stmt: Statement) -> Vec<String> {
    let mut lines = Vec::new();
    let mut counter = 0;
    let mut level = 1;
    write_fz_stmt(&mut lines, &stmt, &mut counter, &mut level).unwrap();
    lines
}

#[test]
fn integer_text_reads_back() {
    for n in [0i128, 7, -7, 10, 42, -100, 1234567890, i128::MAX, i128::MIN] {
        let text = int_to_text(n);
        assert_eq!(text.parse::<i128>().unwrap(), n);
        assert_eq!(text, n.to_string());
    }
    assert_eq!(usize_to_text(0), "0");
    assert_eq!(usize_to_text(usize::MAX), usize::MAX.to_string());
}

#[test]
fn quote_encloses_text() {
    assert_eq!(quote("abc"), "\"abc\"");
    assert_eq!(quote(""), "\"\"");
}

#[test]
fn float_literal_is_quoted_text() {
    for x in [1.0f64, 0.5, -2.25, 1e21, 3.0e-7] {
        let text = format!("{}", x);
        let stmt = Statement::Parameter(ParDecl {
            id: "p".to_string(),
            value: Expr::Single(Element::Scalar(Scalar::Value(Literal::Float(text.clone())))),
        });
        assert_eq!(single_lines(stmt), vec![format!("parameter_value(\"p\",value,\"{}\").", text)]);
    }
}

#[test]
fn enumerated_set_gives_one_line_per_element() {
    let stmt = Statement::Parameter(ParDecl {
        id: "s".to_string(),
        value: Expr::Single(Element::SetExpr(SetExpr::Elements(vec![int_value(3), int_value(1), int_value(2)]))),
    });
    assert_eq!(
        single_lines(stmt),
        vec![
            "parameter_value(\"s\",set,(value,3)).",
            "parameter_value(\"s\",set,(value,1)).",
            "parameter_value(\"s\",set,(value,2)).",
        ]
    );
}

#[test]
fn empty_set_gives_one_empty_set_line() {
    let stmt = Statement::Parameter(ParDecl {
        id: "s".to_string(),
        value: Expr::Single(Element::SetExpr(SetExpr::Elements(vec![]))),
    });
    assert_eq!(single_lines(stmt), vec!["parameter_value(\"s\",empty_set)."]);
}

#[test]
fn constraint_ids_count_constraints_only() {
    let out = run(vec![
        int_var("x"),
        constraint("first"),
        Statement::Comment(" note".to_string()),
        int_var("y"),
        constraint("second"),
        int_param("p", 1),
        constraint("third"),
        Statement::Solve(Goal::Satisfy),
    ]);
    let heads: Vec<&String> = out.lines.iter().filter(|l| l.starts_with("constraint(")).collect();
    assert_eq!(heads, vec!["constraint(c1,\"first\").", "constraint(c2,\"second\").", "constraint(c3,\"third\")."]);
    assert!(out.lines.contains(&"constraint_value(c3,0,var,\"x\").".to_string()));
    assert_eq!(out.end, Ok(()));
}

#[test]
fn ordered_input_is_in_order() {
    let out = run(vec![
        predicate("p"),
        Statement::Comment("c".to_string()),
        int_param("a", 1),
        int_var("x"),
        constraint("q"),
        Statement::Solve(Goal::Satisfy),
    ]);
    assert!(out.orders.iter().all(|o| *o == OrderCheck::InOrder));
    assert_eq!(out.orders.len(), 6);
    assert_eq!(out.end, Ok(()));
}

#[test]
fn out_of_order_statement_is_reported_and_translated() {
    let out = run(vec![
        int_var("x"),
        int_param("a", 5),
        predicate("p"),
        Statement::Solve(Goal::Satisfy),
    ]);
    assert_eq!(
        out.orders,
        vec![OrderCheck::InOrder, OrderCheck::OutOfOrder, OrderCheck::OutOfOrder, OrderCheck::InOrder]
    );
    assert_eq!(
        out.lines,
        vec![
            "variable_type(\"x\",int).",
            "parameter_value(\"a\",value,5).",
            "predicate(\"p\").",
            "predicate_parameter(\"p\",0,\"a\",int).",
            "solve(satisfy).",
        ]
    );
}

#[test]
fn second_solve_item_fails() {
    let out = run(vec![
        int_var("x"),
        Statement::Solve(Goal::Optimize(Direction::Minimize, Element::Scalar(Scalar::Var("x".to_string())))),
        constraint("late"),
        Statement::Solve(Goal::Satisfy),
        int_var("never"),
    ]);
    assert_eq!(out.end, Err(FlatZincError::MultipleSolveItems));
    assert_eq!(
        out.lines,
        vec![
            "variable_type(\"x\",int).",
            "solve(minimize,var,\"x\").",
            "constraint(c1,\"late\").",
            "constraint_value(c1,0,var,\"x\").",
        ]
    );
    assert_eq!(out.orders[2], OrderCheck::OutOfOrder);
}

#[test]
fn second_solve_item_changes_nothing() {
    let mut lines = Vec::new();
    let mut counter = 3;
    let mut level = 5;
    let r = write_fz_stmt(&mut lines, &Statement::Solve(Goal::Satisfy), &mut counter, &mut level);
    assert_eq!(r, Err(FlatZincError::MultipleSolveItems));
    assert!(lines.is_empty());
    assert_eq!((counter, level), (3, 5));
}

#[test]
fn missing_solve_item_fails_at_end() {
    let out = run(vec![int_param("a", 1), int_var("x"), constraint("q")]);
    assert_eq!(out.end, Err(FlatZincError::NoSolveItem));
    assert_eq!(out.lines.len(), 4);
    assert_eq!(finish_run(1), Err(FlatZincError::NoSolveItem));
    assert_eq!(finish_run(4), Err(FlatZincError::NoSolveItem));
    assert_eq!(finish_run(5), Ok(()));
}

#[test]
fn output_var_scenario() {
    // var int : a :: output_var = 1;
    let stmt = Statement::Variable(VarDecl::Scalar {
        id: "a".to_string(),
        domain: Domain::Int,
        init: Some(Element::Scalar(int_value(1))),
        annos: vec![Annotation { id: "output_var".to_string(), args: vec![] }],
    });
    assert_eq!(
        single_lines(stmt),
        vec!["variable_type(\"a\",int).", "variable_value(\"a\",value,1).", "output_var(\"a\")."]
    );
}

#[test]
fn set_variable_scenario() {
    // var set of 17..42: f = {17,23};
    let stmt = Statement::Variable(VarDecl::Scalar {
        id: "f".to_string(),
        domain: Domain::SetOfIntRange(17, 42),
        init: Some(Element::SetExpr(SetExpr::Elements(vec![int_value(17), int_value(23)]))),
        annos: vec![],
    });
    assert_eq!(
        single_lines(stmt),
        vec![
            "variable_type(\"f\",set_of_int,range,(value,17,value,42)).",
            "variable_value(\"f\",set,(value,17)).",
            "variable_value(\"f\",set,(value,23)).",
        ]
    );
}

#[test]
fn int_array_parameter_scenario() {
    // array [1..2] of int : d = [42,23];
    let stmt = Statement::Parameter(ParDecl {
        id: "d".to_string(),
        value: Expr::Array(vec![Element::Scalar(int_value(42)), Element::Scalar(int_value(23))]),
    });
    assert_eq!(
        single_lines(stmt),
        vec!["parameter_value(\"d\",array,(0,value,42)).", "parameter_value(\"d\",array,(1,value,23))."]
    );
}

#[test]
fn unknown_annotations_are_ignored() {
    let stmt = Statement::Variable(VarDecl::Scalar {
        id: "a".to_string(),
        domain: Domain::Bool,
        init: None,
        annos: vec![
            Annotation { id: "is_defined_var".to_string(), args: vec![AnnArg::Other] },
            Annotation { id: "output_var".to_string(), args: vec![] },
            Annotation { id: "output_var".to_string(), args: vec![] },
        ],
    });
    assert_eq!(single_lines(stmt), vec!["variable_type(\"a\",bool).", "output_var(\"a\")."]);
}

#[test]
fn malformed_output_array_is_a_structural_defect() {
    let bad = Annotation {
        id: "output_array".to_string(),
        args: vec![AnnArg::Expr(Expr::Array(vec![Element::SetExpr(SetExpr::Range(
            int_value(1),
            Scalar::Var("n".to_string()),
        ))]))],
    };
    let stmt = Statement::Variable(VarDecl::Array {
        id: "v".to_string(),
        size: 1,
        domain: Domain::Int,
        init: None,
        annos: vec![bad],
    });
    let mut lines = vec!["kept".to_string()];
    let mut counter = 0;
    let mut level = 1;
    let r = write_fz_stmt(&mut lines, &stmt, &mut counter, &mut level);
    assert_eq!(r, Err(FlatZincError::StructuralDefect));
    assert_eq!(lines, vec!["kept"]);
    assert_eq!(level, 1);
    let missing = Annotation { id: "output_array".to_string(), args: vec![AnnArg::Other] };
    let stmt = Statement::Variable(VarDecl::Array {
        id: "v".to_string(),
        size: 1,
        domain: Domain::Int,
        init: None,
        annos: vec![missing],
    });
    let r = write_fz_stmt(&mut lines, &stmt, &mut counter, &mut level);
    assert_eq!(r, Err(FlatZincError::StructuralDefect));
}

#[test]
fn array_variable_alias_and_set_elements() {
    let stmt = Statement::Variable(VarDecl::Array {
        id: "d".to_string(),
        size: 4,
        domain: Domain::SetOfInt,
        init: Some(ArrayInit::Alias("other".to_string())),
        annos: vec![],
    });
    assert_eq!(
        single_lines(stmt),
        vec!["variable_type(\"d\",array(4,set)).", "variable_value(\"d\",var,\"other\")."]
    );
}

#[test]
fn set_objective_gives_one_solve_line_per_element() {
    let goal = Goal::Optimize(
        Direction::Maximize,
        Element::SetExpr(SetExpr::Elements(vec![int_value(1), Scalar::Var("y".to_string())])),
    );
    assert_eq!(
        single_lines(Statement::Solve(goal)),
        vec!["solve(maximize,set,(value,1)).", "solve(maximize,set,(var,\"y\"))."]
    );
}

#[test]
fn comment_line_keeps_text() {
    assert_eq!(single_lines(Statement::Comment(" a remark".to_string())), vec!["% a remark"]);
}

#[test]
fn predicate_with_index_bound_and_float_domains() {
    let stmt = Statement::Predicate(PredicateDecl {
        id: "q".to_string(),
        params: vec![
            PredParam {
                id: "xs".to_string(),
                ty: ParamType::Array(PredIndex::Upto(3), Domain::FloatBounds("0.5".to_string(), "2".to_string())),
            },
            PredParam {
                id: "f".to_string(),
                ty: ParamType::Basic(Domain::FloatSet(vec!["1.5".to_string(), "-3".to_string()])),
            },
        ],
    });
    assert_eq!(
        single_lines(stmt),
        vec![
            "predicate(\"q\").",
            "predicate_parameter(\"q\",0,\"xs\",array(3,float,(bounds,value,\"0.5\",value,\"2\"))).",
            "predicate_parameter(\"q\",1,\"f\",float_in_set(\"1.5\")).",
            "predicate_parameter(\"q\",1,\"f\",float_in_set(\"-3\")).",
        ]
    );
}

#[test]
fn negative_and_bounded_values() {
    let stmt = Statement::Parameter(ParDecl {
        id: "b".to_string(),
        value: Expr::Single(Element::SetExpr(SetExpr::Bounds(
            Scalar::Value(Literal::Float("-1.5".to_string())),
            Scalar::Value(Literal::Float("2.5".to_string())),
        ))),
    });
    assert_eq!(single_lines(stmt), vec!["parameter_value(\"b\",bounds,(value,\"-1.5\",value,\"2.5\"))."]);
    let stmt = Statement::Variable(VarDecl::Scalar {
        id: "n".to_string(),
        domain: Domain::IntRange(-5, -1),
        init: Some(Element::Scalar(int_value(-3))),
        annos: vec![],
    });
    assert_eq!(
        single_lines(stmt),
        vec!["variable_type(\"n\",int,range,(value,-5,value,-1)).", "variable_value(\"n\",value,-3)."]
    );
}

#[test]
fn non_constraint_statements_keep_counter() {
    let mut lines = Vec::new();
    let mut counter = usize::MAX;
    let mut level = 1;
    for stmt in [int_param("a", 1), int_var("x"), Statement::Solve(Goal::Satisfy)] {
        write_fz_stmt(&mut lines, &stmt, &mut counter, &mut level).unwrap();
        assert_eq!(counter, usize::MAX);
    }
    assert_eq!(level, 5);
}
