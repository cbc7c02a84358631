use llamac::ast;
use llamac::lexer::tokens::TokenType;
use llamac::lexer::Lexer;
use llamac::meta;
use llamac::typechecker::substitution::{occurs_check, Substitution};
use llamac::typechecker::TypeChecker;
use llamac::typed_ast::{Type, TypeVar};
use llamac::{Symbol, SymbolTable};

fn meta0() -> meta::Meta {
    meta::Meta { filename: "test".to_string(), range: 0..0, attributes: vec![] }
}

fn expr(kind: ast::ExprKind) -> ast::Expr {
    ast::Expr { meta: meta0(), kind }
}

fn con_annotation(name: &str) -> ast::TypeAnnotation {
    ast::TypeAnnotation {
        meta: meta0(),
        kind: ast::TypeAnnotationKind::Constructor { name: name.to_string(), generic_args: vec![] },
    }
}

fn function(name: &str, body: Vec<ast::Expr>) -> ast::AstNode {
    ast::AstNode {
        meta: meta0(),
        kind: ast::AstNodeKind::Function {
            name: name.to_string(),
            args: vec![],
            return_type: None,
            generic_params: vec![],
            body,
        },
    }
}

fn con(name: &str) -> Type {
    Type::Con { name: name.to_string(), args: vec![] }
}

fn types_of(text: &str) -> Vec<TokenType> {
    Lexer::tokenize(text).unwrap().into_iter().map(|t| t.type_).collect()
}

#[test]
fn symbol_table_lookup_after_insert() {
    let mut table = SymbolTable::new();
    assert!(table.lookup("x".to_string()).is_none());
    assert_eq!(table.insert("x".to_string(), Symbol::new("i32".to_string(), "global".to_string())), 0);
    assert_eq!(table.insert("y".to_string(), Symbol::new("bool".to_string(), "main".to_string())), 0);
    let x = format!("{:?}", table.lookup("x".to_string()).unwrap());
    assert!(x.contains("\"i32\"") && x.contains("\"global\""));
    assert_eq!(table.insert("x".to_string(), Symbol::new("f32".to_string(), "global".to_string())), 0);
    let x = format!("{:?}", table.lookup("x".to_string()).unwrap());
    assert!(x.contains("\"f32\""));
    let y = format!("{:?}", table.lookup("y".to_string()).unwrap());
    assert!(y.contains("\"bool\"") && y.contains("\"main\""));
    assert!(table.lookup("z".to_string()).is_none());
}

#[test]
fn comment_line_has_no_tokens() {
    assert!(types_of("# only a comment").is_empty());
    assert!(types_of("#").is_empty());
}

#[test]
fn comment_runs_to_end_of_line() {
    assert_eq!(
        types_of("x # y z\nw"),
        vec![TokenType::Identifier("x".to_string()), TokenType::Identifier("w".to_string())]
    );
}

#[test]
fn blanks_only_move_the_position() {
    assert_eq!(types_of(" \t\n  let"), vec![TokenType::Let]);
    let tokens = Lexer::tokenize("  x").unwrap();
    assert_eq!(tokens[0].range, 3..3);
}

#[test]
fn unicode_digit_starts_a_number() {
    let result = Lexer::tokenize("\u{0663}");
    assert_eq!(result.unwrap_err(), "Integer literal \u{0663} is invalid");
}

#[test]
fn too_large_integer_is_an_error() {
    let result = Lexer::tokenize("99999999999999999999");
    assert_eq!(result.unwrap_err(), "Integer literal 99999999999999999999 is invalid");
}

#[test]
fn largest_integer_is_read() {
    assert_eq!(types_of("9223372036854775807"), vec![TokenType::Integer(i64::MAX)]);
}

#[test]
fn compose_applies_the_second_then_the_first() {
    let mut s1 = Substitution::new();
    s1.insert(TypeVar(1), con("i32"));
    let mut s2 = Substitution::new();
    s2.insert(TypeVar(0), Type::Var(TypeVar(1)));
    let c = s1.compose(&s2);
    let t = Type::Tuple(vec![Type::Var(TypeVar(0)), Type::Var(TypeVar(2))]);
    assert_eq!(c.apply(&t), s1.apply(&s2.apply(&t)));
    assert_eq!(c.apply(&t), Type::Tuple(vec![con("i32"), Type::Var(TypeVar(2))]));
}

#[test]
fn empty_substitution_changes_nothing() {
    let s = Substitution::new();
    let t = Type::Fun { args: vec![Type::Var(TypeVar(3))], ret: Box::new(con("bool")) };
    assert_eq!(s.apply(&t), t);
}

#[test]
fn unify_binds_a_variable() {
    let mut s = Substitution::new();
    assert!(s.unify(&Type::Var(TypeVar(0)), &con("i32")).is_ok());
    assert_eq!(s.apply(&Type::Var(TypeVar(0))), con("i32"));
}

#[test]
fn unify_refuses_a_cyclic_binding() {
    let mut s = Substitution::new();
    let t = Type::Tuple(vec![Type::Var(TypeVar(0))]);
    assert!(occurs_check(&TypeVar(0), &t));
    assert_eq!(s.unify(&Type::Var(TypeVar(0)), &t).unwrap_err(), "occurs check failed");
}

#[test]
fn unify_reports_both_types() {
    let mut s = Substitution::new();
    let err = s.unify(&con("i32"), &con("bool")).unwrap_err();
    assert_eq!(
        err,
        "cannot unify Con { name: \"i32\", args: [] } and Con { name: \"bool\", args: [] }"
    );
}

#[test]
fn unify_rows_of_different_lengths() {
    let mut s = Substitution::new();
    let a = Type::Row(vec![("x".to_string(), con("i32"))]);
    let b = Type::Row(vec![]);
    assert_eq!(s.unify(&a, &b).unwrap_err(), "row length mismatch");
}

#[test]
fn unbound_variable_is_an_error() {
    let program = vec![function("f", vec![expr(ast::ExprKind::Variable("nowhere".to_string()))])];
    let result = TypeChecker::new().typecheck(program);
    assert_eq!(result.unwrap_err(), "unbound variable");
}

#[test]
fn impl_of_unknown_trait_is_an_error() {
    let program = vec![ast::AstNode {
        meta: meta0(),
        kind: ast::AstNodeKind::Impl {
            trait_name: Some("Show".to_string()),
            for_type: con_annotation("Point"),
            methods: vec![],
        },
    }];
    let result = TypeChecker::new().typecheck(program);
    assert_eq!(result.unwrap_err(), "trait Show not found");
}

#[test]
fn impl_for_a_tuple_is_an_error() {
    let program = vec![ast::AstNode {
        meta: meta0(),
        kind: ast::AstNodeKind::Impl {
            trait_name: None,
            for_type: ast::TypeAnnotation {
                meta: meta0(),
                kind: ast::TypeAnnotationKind::Tuple(vec![]),
            },
            methods: vec![],
        },
    }];
    let result = TypeChecker::new().typecheck(program);
    assert_eq!(result.unwrap_err(), "impl for_type must be a constructor");
}

#[test]
fn undefined_trait_bound_is_an_error() {
    let program = vec![ast::AstNode {
        meta: meta0(),
        kind: ast::AstNodeKind::Struct {
            name: "Box".to_string(),
            generic_params: vec![ast::GenericParam {
                name: "T".to_string(),
                constraints: vec![con_annotation("Printable")],
            }],
            fields: vec![],
        },
    }];
    let result = TypeChecker::new().typecheck(program);
    assert_eq!(result.unwrap_err(), "trait 'Printable' not defined");
}

#[test]
fn mismatched_branches_are_an_error() {
    let condition = expr(ast::ExprKind::Literal(ast::Literal::Integer(1)));
    let body = vec![expr(ast::ExprKind::If {
        condition: Box::new(condition),
        then_branch: vec![],
        else_branch: None,
    })];
    let result = TypeChecker::new().typecheck(vec![function("f", body)]);
    assert_eq!(
        result.unwrap_err(),
        "unification error: cannot unify Con { name: \"i32\", args: [] } and Con { name: \"bool\", args: [] }"
    );
}

#[test]
fn typed_program_keeps_the_shape() {
    let body = vec![
        expr(ast::ExprKind::Let {
            name: "x".to_string(),
            type_annotation: Some(con_annotation("i32")),
            value: Box::new(expr(ast::ExprKind::Literal(ast::Literal::Integer(7)))),
        }),
        expr(ast::ExprKind::BinaryOp {
            left: Box::new(expr(ast::ExprKind::Variable("x".to_string()))),
            operator: "<".to_string(),
            right: Box::new(expr(ast::ExprKind::Literal(ast::Literal::Integer(9)))),
        }),
    ];
    let typed = TypeChecker::new().typecheck(vec![function("f", body)]).unwrap();
    assert_eq!(typed.len(), 1);
    match &typed[0].kind {
        llamac::typed_ast::TypedAstNodeKind::Function { name, body, .. } => {
            assert_eq!(name, "f");
            assert_eq!(body.len(), 2);
            assert!(matches!(&body[0].kind, llamac::typed_ast::TypedExprKind::Let { name, .. } if name == "x"));
            match &body[1].kind {
                llamac::typed_ast::TypedExprKind::BinaryOp { operator, left, .. } => {
                    assert_eq!(operator, "<");
                    assert_eq!(left.typ, con("i32"));
                }
                _ => panic!("expected a binary operation"),
            }
            assert_eq!(body[1].typ, con("bool"));
        }
        _ => panic!("expected a function"),
    }
}

#[test]
fn empty_program_checks() {
    assert!(TypeChecker::new().typecheck(vec![]).unwrap().is_empty());
}

#[test]
fn literals_and_jumps_have_their_types() {
    let body = vec![
        expr(ast::ExprKind::Literal(ast::Literal::Integer(1))),
        expr(ast::ExprKind::Literal(ast::Literal::Float("2.5".to_string()))),
        expr(ast::ExprKind::Literal(ast::Literal::String("s".to_string()))),
        expr(ast::ExprKind::Literal(ast::Literal::Boolean(true))),
        expr(ast::ExprKind::Break),
        expr(ast::ExprKind::Continue),
    ];
    let typed = TypeChecker::new().typecheck(vec![function("f", body)]).unwrap();
    match &typed[0].kind {
        llamac::typed_ast::TypedAstNodeKind::Function { body, .. } => {
            let types: Vec<Type> = body.iter().map(|e| e.typ.clone()).collect();
            assert_eq!(types, vec![con("i32"), con("f32"), con("String"), con("bool"), con("void"), con("void")]);
        }
        _ => panic!("expected a function"),
    }
}

#[test]
fn a_variable_has_the_type_it_was_bound_to() {
    let body = vec![
        expr(ast::ExprKind::Let {
            name: "flag".to_string(),
            type_annotation: None,
            value: Box::new(expr(ast::ExprKind::Literal(ast::Literal::Boolean(false)))),
        }),
        expr(ast::ExprKind::Variable("flag".to_string())),
    ];
    let typed = TypeChecker::new().typecheck(vec![function("f", body)]).unwrap();
    match &typed[0].kind {
        llamac::typed_ast::TypedAstNodeKind::Function { body, .. } => {
            assert_eq!(body[1].typ, con("bool"));
        }
        _ => panic!("expected a function"),
    }
}
