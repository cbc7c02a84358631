use llamac::ast;
use llamac::meta;
use llamac::typechecker;
use llamac::typed_ast::{Type, TypeVar};

fn con_type(name: &str) -> Type {
    Type::Con { name: name.to_string(), args: vec![] }
}

#[test]
fn test_validate_constraint_messages() {
    let mut tc = typechecker::TypeChecker::new();
    assert_eq!(tc.validate_constraint("Show"), Err("trait 'Show' not defined".to_string()));
    let node = ast::AstNode {
        meta: meta::Meta { filename: "t".to_string(), range: 0..0, attributes: vec![] },
        kind: ast::AstNodeKind::Trait { name: "Show".to_string(), generic_params: vec![], methods: vec![] },
    };
    tc.typecheck_node(&node).unwrap();
    assert_eq!(tc.validate_constraint("Show"), Ok(()));
}

#[test]
fn test_infer_literal_types() {
    let mut tc = typechecker::TypeChecker::new();
    assert_eq!(tc.infer_literal(&ast::Literal::Integer(7)), con_type("i32"));
    assert_eq!(tc.infer_literal(&ast::Literal::Float("1.5".to_string())), con_type("f32"));
    assert_eq!(tc.infer_literal(&ast::Literal::String("s".to_string())), con_type("String"));
    assert_eq!(tc.infer_literal(&ast::Literal::Boolean(true)), con_type("bool"));
    assert_eq!(tc.next_var, 0);
}

#[test]
fn test_convert_type_with_empty_mapping_is_identity() {
    let tc = typechecker::TypeChecker::new();
    let t = Type::Fun { args: vec![Type::Var(TypeVar(4)), con_type("T")], ret: Box::new(con_type("bool")) };
    assert_eq!(tc.convert_type_with_mapping(&t), t);
}

#[test]
fn test_fresh_vars_count_up() {
    let mut tc = typechecker::TypeChecker::new();
    assert_eq!(tc.fresh_var(), Type::Var(TypeVar(0)));
    assert_eq!(tc.fresh_var(), Type::Var(TypeVar(1)));
    assert_eq!(tc.next_var, 2);
}
