use recalc::ast::{Builtin, Node, Op, Val};
use recalc::context::Context;
use recalc::eval::eval;
use recalc::parser::{ErrorKind, Parser, Token};
use recalc::reduce::{reduce, reduce_step};
use recalc::render::{number_leaves, render, with_leaf_texts};
use recalc::session::{update_context, ContextUpdate};

/// Realises a symbolic numeric value as a machine number.
fn fold(v: &Val) -> f64 {
    match v {
        Val::Lit(s) => s.parse::<f64>().unwrap(),
        Val::Pi => std::f64::consts::PI,
        Val::E => std::f64::consts::E,
        Val::Bin(op, a, b) => {
            let x = fold(a);
            let y = fold(b);
            match op {
                Op::Add => x + y,
                Op::Subtract => x - y,
                Op::Multiply => x * y,
                Op::Divide => x / y,
                Op::Power => x.powf(y),
            }
        }
        Val::App(f, a) => {
            let x = fold(a);
            match f {
                Builtin::Sin => x.sin(),
                Builtin::Cos => x.cos(),
                Builtin::Tan => x.tan(),
            }
        }
    }
}

fn fmt_num(x: f64, prec: Option<usize>) -> String {
    match prec {
        Some(p) => format!("{:.*}", p, x),
        None => x.to_string(),
    }
}

/// Renders a tree the way the session prints it: every numeric leaf realised
/// at the current precision.
fn display(n: &Node, prec: Option<usize>) -> String {
    let leaves = number_leaves(n);
    let texts: Vec<String> = leaves.iter().map(|v| fmt_num(fold(v), prec)).collect();
    let filled = with_leaf_texts(n, &texts);
    render(&filled)
}

/// One interaction: parse, update the context, reduce, print.
fn run_line(p: &Parser, ctx: &mut Context, line: &str) -> String {
    let node = p.parse_string(line).unwrap();
    match update_context(&node, ctx) {
        ContextUpdate::Precision(v) => {
            let x = fold(&v);
            ctx.set_precision(x as usize);
        }
        ContextUpdate::PrecisionUnresolved => {}
        _ => {}
    }
    let reduced = reduce(&node, ctx);
    display(&reduced, ctx.precision())
}

fn reduce_line(line: &str) -> Node {
    let p = Parser::new();
    let ctx = Context::new();
    let node = p.parse_string(line).unwrap();
    reduce(&node, &ctx)
}

fn value_of(line: &str) -> f64 {
    match reduce_line(line) {
        Node::Number(v) => fold(&v),
        other => panic!("expected a number, got {}", render(&other)),
    }
}

#[test]
fn precedence_mul_binds_tighter() {
    assert_eq!(value_of("1 + 2 * 3"), 7.0);
}

#[test]
fn precedence_parens_override() {
    assert_eq!(value_of("(1 + 2) * 3"), 9.0);
}

#[test]
fn power_is_right_associative() {
    assert_eq!(value_of("2 ^ 3 ^ 2"), 512.0);
}

#[test]
fn subtraction_is_left_associative() {
    assert_eq!(value_of("8 - 3 - 2"), 3.0);
}

#[test]
fn division_is_left_associative() {
    assert_eq!(value_of("8 / 4 / 2"), 1.0);
}

#[test]
fn fractional_literals() {
    assert_eq!(value_of("1.5 + 2.25"), 3.75);
}

#[test]
fn constants_substituted_at_parse_time() {
    assert_eq!(value_of("pi"), std::f64::consts::PI);
    assert_eq!(value_of("2 * e"), 2.0 * std::f64::consts::E);
}

#[test]
fn builtin_functions_apply() {
    assert_eq!(value_of("sin(0)"), 0.0);
    assert_eq!(value_of("cos(0)"), 1.0);
    assert_eq!(value_of("tan(0)"), 0.0);
}

#[test]
fn division_by_zero_gives_infinity() {
    assert_eq!(value_of("1 / 0"), f64::INFINITY);
}

#[test]
fn forward_reference_is_preserved() {
    let ctx = Context::new();
    let node = Node::Variable("x".to_string());
    let reduced = reduce(&node, &ctx);
    match reduced {
        Node::Variable(name) => assert_eq!(name, "x"),
        other => panic!("expected the variable back, got {}", render(&other)),
    }
    let (again, changed) = reduce_step(&node, &ctx);
    assert!(!changed);
    assert!(matches!(again, Node::Variable(_)));
}

#[test]
fn assignment_has_no_value_but_binds() {
    let p = Parser::new();
    let mut ctx = Context::new();
    let node = p.parse_string("x = 5").unwrap();
    assert!(eval(&node, &ctx).is_none());
    update_context(&node, &mut ctx);
    let out = run_line(&p, &mut ctx, "x");
    assert_eq!(out, "5");
}

#[test]
fn assignment_line_prints_itself_reduced() {
    let p = Parser::new();
    let mut ctx = Context::new();
    let out = run_line(&p, &mut ctx, "y = 2 + 3");
    assert_eq!(out, "y = 5");
}

#[test]
fn rebinding_shadows() {
    let p = Parser::new();
    let mut ctx = Context::new();
    run_line(&p, &mut ctx, "x = 1");
    run_line(&p, &mut ctx, "x = 2");
    assert_eq!(run_line(&p, &mut ctx, "x + 0"), "2");
}

#[test]
fn forward_reference_resolves_when_defined() {
    let p = Parser::new();
    let mut ctx = Context::new();
    run_line(&p, &mut ctx, "a = b + 1");
    assert_eq!(run_line(&p, &mut ctx, "a"), "a");
    run_line(&p, &mut ctx, "b = 2");
    assert_eq!(run_line(&p, &mut ctx, "a"), "3");
}

#[test]
fn cyclic_binding_stays_symbolic() {
    let p = Parser::new();
    let mut ctx = Context::new();
    run_line(&p, &mut ctx, "x = x + 1");
    assert_eq!(run_line(&p, &mut ctx, "x"), "x");
}

#[test]
fn precision_formats_numeric_leaves() {
    let p = Parser::new();
    let mut ctx = Context::new();
    assert_eq!(run_line(&p, &mut ctx, "1 / 3"), "0.3333333333333333");
    run_line(&p, &mut ctx, "precision = 2");
    assert_eq!(run_line(&p, &mut ctx, "1 / 3"), "0.33");
}

#[test]
fn precision_assignment_needs_a_value() {
    let p = Parser::new();
    let mut ctx = Context::new();
    let node = p.parse_string("precision = q").unwrap();
    let r = update_context(&node, &mut ctx);
    assert!(matches!(r, ContextUpdate::PrecisionUnresolved));
    assert_eq!(ctx.precision(), None);
}

#[test]
fn non_assignment_leaves_context_alone() {
    let p = Parser::new();
    let mut ctx = Context::new();
    let node = p.parse_string("1 + 1").unwrap();
    assert!(matches!(update_context(&node, &mut ctx), ContextUpdate::NotAssignment));
}

#[test]
fn unknown_function_wrapper_is_preserved() {
    let p = Parser::new();
    let mut ctx = Context::new();
    assert_eq!(run_line(&p, &mut ctx, "foo(2)"), "foo(2)");
    let reduced = reduce_line("foo(1 + 1)");
    match &reduced {
        Node::Function { name, arg } => {
            assert_eq!(name, "foo");
            assert!(matches!(&**arg, Node::Number(_)));
        }
        other => panic!("expected the wrapper back, got {}", render(other)),
    }
}

#[test]
fn unknown_function_evaluates_to_nothing() {
    let p = Parser::new();
    let ctx = Context::new();
    let node = p.parse_string("foo(2)").unwrap();
    assert!(eval(&node, &ctx).is_none());
}

#[test]
fn reduction_reaches_a_fixed_point() {
    let p = Parser::new();
    let mut ctx = Context::new();
    run_line(&p, &mut ctx, "k = 3");
    let node = p.parse_string("k * (1 + 2) + unknown").unwrap();
    let once = reduce(&node, &ctx);
    let (twice, changed) = reduce_step(&once, &ctx);
    assert!(!changed);
    assert_eq!(display(&twice, None), display(&once, None));
}

#[test]
fn rendering_uses_minimal_parentheses() {
    let p = Parser::new();
    let ctx = Context::new();
    let n1 = p.parse_string("(1 + 2) * x").unwrap();
    assert_eq!(display(&n1, None), "(1 + 2) * x");
    let n2 = p.parse_string("1 + 2 * x").unwrap();
    assert_eq!(display(&n2, None), "1 + 2 * x");
    let n4 = p.parse_string("x - 2").unwrap();
    assert_eq!(display(&reduce(&n4, &ctx), None), "x - 2");
    let n3 = p.parse_string("2 ^ 3 ^ x").unwrap();
    assert_eq!(display(&n3, None), "2 ^ 3 ^ x");
}

#[test]
fn render_reparse_round_trip() {
    let p = Parser::new();
    let mut ctx = Context::new();
    run_line(&p, &mut ctx, "y = 4");
    for line in ["1 + 2 * 3", "(1 + 2) * 3", "2 ^ 3 ^ 2", "y * (q + 1.5) - sin(2)"] {
        let node = p.parse_string(line).unwrap();
        let printed = display(&node, None);
        let back = p.parse_string(&printed).unwrap();
        let a = display(&reduce(&node, &ctx), None);
        let b = display(&reduce(&back, &ctx), None);
        assert_eq!(a, b, "round trip changed {line}");
    }
}

#[test]
fn syntax_errors_identify_the_position() {
    let p = Parser::new();
    match p.parse_string("1 + $") {
        Err(e) => {
            assert_eq!(e.kind, ErrorKind::BadChar);
            assert_eq!(e.pos, 4);
        }
        Ok(_) => panic!("accepted a bad character"),
    }
    assert!(matches!(
        p.parse_string("1 +"),
        Err(recalc::parser::ParseError { kind: ErrorKind::UnexpectedEnd, .. })
    ));
    assert!(matches!(
        p.parse_string("1 2"),
        Err(recalc::parser::ParseError { kind: ErrorKind::Trailing, .. })
    ));
    assert!(matches!(
        p.parse_string("()"),
        Err(recalc::parser::ParseError { kind: ErrorKind::BadToken, .. })
    ));
    assert!(p.parse_string("").is_err());
    assert!(p.parse_string("(x = 5)").is_err());
    assert!(p.parse_string("12.").is_err());
}

#[test]
fn tokenizer_splits_a_line() {
    let ts = recalc::parser::tokenize("x = 1.5 + (pi)").unwrap();
    assert_eq!(ts.len(), 7);
    assert!(matches!(&ts[0], Token::Ident(s) if s == "x"));
    assert!(matches!(&ts[1], Token::Equals));
    assert!(matches!(&ts[2], Token::Num(s) if s == "1.5"));
    assert!(matches!(&ts[3], Token::Plus));
    assert!(matches!(&ts[4], Token::LParen));
    assert!(matches!(&ts[5], Token::Ident(s) if s == "pi"));
    assert!(matches!(&ts[6], Token::RParen));
}

#[test]
fn builder_accepts_a_token_stream() {
    let p = Parser::new();
    let ts = vec![
        Token::Num("2".to_string()),
        Token::Star,
        Token::Num("3".to_string()),
    ];
    let node = p.parse(&ts).unwrap();
    let ctx = Context::new();
    match reduce(&node, &ctx) {
        Node::Number(v) => assert_eq!(fold(&v), 6.0),
        other => panic!("expected a number, got {}", render(&other)),
    }
}

#[test]
fn operator_table() {
    assert_eq!(recalc::ast::op_precedence(&Op::Add), 1);
    assert_eq!(recalc::ast::op_precedence(&Op::Subtract), 1);
    assert_eq!(recalc::ast::op_precedence(&Op::Multiply), 2);
    assert_eq!(recalc::ast::op_precedence(&Op::Divide), 2);
    assert_eq!(recalc::ast::op_precedence(&Op::Power), 3);
    assert!(matches!(recalc::ast::op_assoc(&Op::Power), recalc::ast::Assoc::Right));
    assert!(matches!(recalc::ast::op_assoc(&Op::Add), recalc::ast::Assoc::Left));
}

#[test]
fn whitespace_is_insignificant() {
    assert_eq!(value_of("1+2*3"), 7.0);
    assert_eq!(value_of("  1 +\t2  "), 3.0);
}
