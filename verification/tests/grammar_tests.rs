use llamac::ast::{AstNodeKind, Expr, ExprKind, Literal, Program, TypeAnnotationKind};
use llamac::lexer::tokens::TokenType;
use llamac::lexer::Lexer;
use llamac::parser::{Parser, Result};

fn parse_text(text: &str) -> Result<Program> {
    let tokens = Lexer::tokenize(text).unwrap();
    Parser::new(tokens, "grammar".to_string()).parse()
}

fn parse_expr(text: &str) -> Result<Expr> {
    let tokens = Lexer::tokenize(text).unwrap();
    Parser::new(tokens, "grammar".to_string()).parse_expression()
}

fn variable(e: &Expr) -> &str {
    match &e.kind {
        ExprKind::Variable(name) => name.as_str(),
        _ => panic!("expected a variable"),
    }
}

fn binary(e: &Expr) -> (&Expr, &str, &Expr) {
    match &e.kind {
        ExprKind::BinaryOp { left, operator, right } => (left, operator.as_str(), right),
        _ => panic!("expected a binary operation"),
    }
}

#[test]
fn subtraction_groups_from_the_left() {
    let e = parse_expr("a - b - c").unwrap();
    let (left, op, right) = binary(&e);
    assert_eq!(op, "-");
    assert_eq!(variable(right), "c");
    let (ll, lop, lr) = binary(left);
    assert_eq!((variable(ll), lop, variable(lr)), ("a", "-", "b"));
}

#[test]
fn multiplication_binds_tighter_than_addition() {
    let e = parse_expr("a + b * c").unwrap();
    let (left, op, right) = binary(&e);
    assert_eq!((variable(left), op), ("a", "+"));
    let (rl, rop, rr) = binary(right);
    assert_eq!((variable(rl), rop, variable(rr)), ("b", "*", "c"));
}

#[test]
fn comparison_binds_looser_than_addition() {
    let e = parse_expr("a + 1 < b").unwrap();
    let (left, op, right) = binary(&e);
    assert_eq!(op, "<");
    assert_eq!(variable(right), "b");
    assert_eq!(binary(left).1, "+");
}

#[test]
fn assignment_groups_from_the_right() {
    let e = parse_expr("a = b = c").unwrap();
    match &e.kind {
        ExprKind::Assign { target, value } => {
            assert_eq!(variable(target), "a");
            match &value.kind {
                ExprKind::Assign { target, value } => {
                    assert_eq!((variable(target), variable(value)), ("b", "c"));
                }
                _ => panic!("expected an inner assignment"),
            }
        }
        _ => panic!("expected an assignment"),
    }
}

#[test]
fn augmented_assignment_is_a_binary_operation() {
    let e = parse_expr("x += 1").unwrap();
    let (left, op, right) = binary(&e);
    assert_eq!((variable(left), op), ("x", "+="));
    assert!(matches!(right.kind, ExprKind::Literal(Literal::Integer(1))));
}

#[test]
fn pipeline_groups_from_the_left() {
    let e = parse_expr("x |> f |> g").unwrap();
    let (left, op, right) = binary(&e);
    assert_eq!((op, variable(right)), ("|>", "g"));
    let (ll, lop, lr) = binary(left);
    assert_eq!((variable(ll), lop, variable(lr)), ("x", "|>", "f"));
}

#[test]
fn prefix_operators_nest() {
    let e = parse_expr("-!x").unwrap();
    match &e.kind {
        ExprKind::UnaryOp { operator, operand } => {
            assert_eq!(operator, "-");
            match &operand.kind {
                ExprKind::UnaryOp { operator, operand } => {
                    assert_eq!(operator, "!");
                    assert_eq!(variable(operand), "x");
                }
                _ => panic!("expected an inner prefix operation"),
            }
        }
        _ => panic!("expected a prefix operation"),
    }
}

#[test]
fn postfix_operations_apply_in_order() {
    let e = parse_expr("a.b(1)[2] as i64").unwrap();
    match &e.kind {
        ExprKind::Cast(inner, ta) => {
            assert!(matches!(&ta.kind, TypeAnnotationKind::Constructor { name, .. } if name == "i64"));
            match &inner.kind {
                ExprKind::Index { value, .. } => match &value.kind {
                    ExprKind::FunctionCall { function, args } => {
                        assert_eq!(args.len(), 1);
                        assert!(matches!(&function.kind, ExprKind::DotAccess { field, .. } if field == "b"));
                    }
                    _ => panic!("expected a call"),
                },
                _ => panic!("expected an index"),
            }
        }
        _ => panic!("expected a cast"),
    }
}

#[test]
fn range_of_two_terms() {
    let e = parse_expr("0..n + 1").unwrap();
    match &e.kind {
        ExprKind::Range { start, end, inclusive } => {
            assert!(!inclusive);
            assert!(matches!(start.kind, ExprKind::Literal(Literal::Integer(0))));
            assert_eq!(binary(end).1, "+");
        }
        _ => panic!("expected a range"),
    }
}

#[test]
fn attributes_are_kept_on_the_expression() {
    let e = parse_expr("@inline x").unwrap();
    assert_eq!(e.meta.attributes.len(), 1);
    assert_eq!(e.meta.attributes[0].name, "inline");
    assert_eq!(variable(&e), "x");
}

#[test]
fn no_tokens_is_no_expression() {
    assert_eq!(parse_expr("").unwrap_err().message, "Expected expression");
}

#[test]
fn closing_token_cannot_start_an_expression() {
    assert_eq!(parse_expr(")").unwrap_err().message, "Unexpected token in expression: RParen");
}

#[test]
fn tuple_of_three() {
    let e = parse_expr("(a, b, c)").unwrap();
    match &e.kind {
        ExprKind::Tuple(items) => {
            let names: Vec<&str> = items.iter().map(variable).collect();
            assert_eq!(names, vec!["a", "b", "c"]);
        }
        _ => panic!("expected a tuple"),
    }
}

#[test]
fn parentheses_only_group() {
    let e = parse_expr("(a)").unwrap();
    assert_eq!(variable(&e), "a");
}

#[test]
fn row_literal_value_may_be_cast() {
    let e = parse_expr("{x: 1 i64, y: b}").unwrap();
    match &e.kind {
        ExprKind::Row(fields) => {
            assert_eq!(fields.len(), 2);
            match &fields[0] {
                llamac::ast::RowField::Field { name, value } => {
                    assert_eq!(name, "x");
                    assert!(matches!(&value.kind, ExprKind::Cast(_, ta)
                        if matches!(&ta.kind, TypeAnnotationKind::Constructor { name, .. } if name == "i64")));
                }
                _ => panic!("expected a field"),
            }
        }
        _ => panic!("expected a row"),
    }
}

#[test]
fn impl_without_for_is_an_error() {
    assert_eq!(parse_text("impl Show end").unwrap_err().message, "Expected 'for' after trait name in impl");
    assert_eq!(parse_text("impl end").unwrap_err().message, "Expected trait name or type in impl");
}

#[test]
fn top_level_must_be_a_declaration() {
    assert_eq!(
        parse_text("42").unwrap_err().message,
        "Expected top-level declaration, found Integer(42)"
    );
    assert_eq!(parse_text("@doc").unwrap_err().message, "Expected a top-level declaration");
}

#[test]
fn import_with_alias() {
    let program = parse_text("import \"std\".{a as b, c}").unwrap();
    match &program[0].kind {
        AstNodeKind::Import { path, items } => {
            assert_eq!(path, "std");
            assert_eq!(items.len(), 2);
            assert_eq!(items[0].name, "a");
            assert_eq!(items[0].alias.as_deref(), Some("b"));
            assert_eq!(items[1].name, "c");
            assert!(items[1].alias.is_none());
        }
        _ => panic!("expected an import"),
    }
}

#[test]
fn declaration_attributes_are_kept() {
    let program = parse_text("@test fn f() end").unwrap();
    assert_eq!(program[0].meta.attributes.len(), 1);
    assert_eq!(program[0].meta.attributes[0].name, "test");
}

#[test]
fn lambda_parameter_without_type_is_unknown() {
    let e = parse_expr("fn(x) x end").unwrap();
    match &e.kind {
        ExprKind::Lambda { params, return_type, body } => {
            assert_eq!(params.len(), 1);
            assert_eq!(params[0].name, "x");
            assert!(matches!(&params[0].type_annotation.kind,
                TypeAnnotationKind::Constructor { name, .. } if name == "unknown"));
            assert!(return_type.is_none());
            assert!(matches!(&body.kind, ExprKind::Block { expressions } if expressions.len() == 1));
        }
        _ => panic!("expected a lambda"),
    }
}

fn check_text(text: &str) -> std::result::Result<llamac::typed_ast::TypedProgram, String> {
    let program = parse_text(text).unwrap();
    llamac::typechecker::TypeChecker::new().typecheck(program)
}

#[test]
fn bound_on_a_trait_without_impls_is_an_error() {
    assert_eq!(check_text("trait Show end fn f<T: Show>() end").unwrap_err(), "trait Show not defined");
}

#[test]
fn bound_on_a_type_variable_is_checked_as_is() {
    assert_eq!(
        check_text("trait Show end impl Show for i32 end fn f<T: Show>() end").unwrap_err(),
        "class constraint on non-con type"
    );
}

#[test]
fn generic_function_without_bounds_checks() {
    assert!(check_text("fn f<T>(x: T) -> T x end").is_ok());
}

#[test]
fn let_without_assignment_is_an_error() {
    assert_eq!(parse_expr("let x 1").unwrap_err().message, "Expected Assign, found Integer(1)");
}

#[test]
fn let_at_the_end_is_an_error() {
    assert_eq!(parse_expr("let").unwrap_err().message, "Unexpected end of input");
}

#[test]
fn let_needs_a_name() {
    assert_eq!(parse_expr("let 1 = 2").unwrap_err().message, "Expected identifier, found Integer(1)");
}

#[test]
fn import_needs_a_path() {
    assert_eq!(
        parse_text("import x").unwrap_err().message,
        "Expected string literal for import path, found Identifier(\"x\")"
    );
}

#[test]
fn attribute_value_must_be_a_name_or_string() {
    assert_eq!(
        parse_text("@doc(key = 1) fn f() end").unwrap_err().message,
        "Invalid attribute value: Integer(1)"
    );
}

#[test]
fn block_must_be_closed() {
    assert_eq!(parse_text("fn f() 1").unwrap_err().message, "Unexpected end of input");
}

#[test]
fn sync_stops_after_a_semicolon_or_before_a_let() {
    let mut parser = Parser::new(Lexer::tokenize("x y ; z").unwrap(), "grammar".to_string());
    parser.sync();
    assert!(matches!(parser.peek_type(), Some(TokenType::Identifier(name)) if name == "z"));
    let mut parser = Parser::new(Lexer::tokenize("a b let c").unwrap(), "grammar".to_string());
    parser.sync();
    assert!(matches!(parser.peek_type(), Some(TokenType::Let)));
    let mut parser = Parser::new(Lexer::tokenize("a b").unwrap(), "grammar".to_string());
    parser.sync();
    assert!(parser.is_at_end());
}
