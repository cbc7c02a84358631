use llamac::ast;
use llamac::meta;
use llamac::typechecker;
use llamac::typed_ast::{Type, TypeVar, TypedAstNodeKind, TypedFunctionParam};

fn meta_at(start: usize) -> meta::Meta {
    meta::Meta { filename: "t.llama".to_string(), range: start..start + 1, attributes: vec![] }
}

fn con(name: &str) -> ast::TypeAnnotation {
    ast::TypeAnnotation {
        meta: meta_at(0),
        kind: ast::TypeAnnotationKind::Constructor { name: name.to_string(), generic_args: vec![] },
    }
}

fn con_type(name: &str) -> Type {
    Type::Con { name: name.to_string(), args: vec![] }
}

fn bound(name: &str, trait_name: &str) -> ast::GenericParam {
    ast::GenericParam { name: name.to_string(), constraints: vec![con(trait_name)] }
}

fn equal_trait(generic_params: Vec<ast::GenericParam>) -> ast::AstNode {
    ast::AstNode {
        meta: meta_at(3),
        kind: ast::AstNodeKind::Trait {
            name: "Equal".to_string(),
            generic_params: vec![],
            methods: vec![
                ast::MethodSignature {
                    name: "equals".to_string(),
                    args: vec![
                        ast::MethodParam::SelfParam,
                        ast::MethodParam::TypedParam { name: "other".to_string(), type_annotation: con("i32") },
                    ],
                    return_type: Some(con("bool")),
                    generic_params: vec![],
                    meta: meta_at(4),
                },
                ast::MethodSignature {
                    name: "pick".to_string(),
                    args: vec![ast::MethodParam::TypedParam { name: "x".to_string(), type_annotation: con("T") }],
                    return_type: None,
                    generic_params,
                    meta: meta_at(5),
                },
            ],
        },
    }
}

#[test]
fn test_trait_methods_get_their_types() {
    let mut tc = typechecker::TypeChecker::new();
    let node = equal_trait(vec![ast::GenericParam { name: "T".to_string(), constraints: vec![] }]);
    let typed = tc.typecheck_node(&node).unwrap();
    // The declaration takes 0, `Self` takes 1, the method `pick` enters `T` as 2
    // and gets a fresh return variable 3; one more variable is taken at the end.
    let equals = Type::Fun { args: vec![Type::Var(TypeVar(1)), con_type("i32")], ret: Box::new(con_type("bool")) };
    let pick = Type::Fun { args: vec![Type::Var(TypeVar(2))], ret: Box::new(Type::Var(TypeVar(3))) };
    let table = tc.trait_env.get("Equal").unwrap();
    assert_eq!(table.get("equals"), Some(&equals));
    assert_eq!(table.get("pick"), Some(&pick));
    assert_eq!(tc.next_var, 5);
    match typed.kind {
        TypedAstNodeKind::Trait { methods, .. } => {
            assert_eq!(methods.len(), 2);
            assert_eq!(methods[0].typ, equals);
            assert_eq!(methods[1].typ, pick);
        },
        _ => panic!("expected a trait"),
    }
}

#[test]
fn test_trait_method_with_undeclared_bound_keeps_its_variable() {
    let mut tc = typechecker::TypeChecker::new();
    // `T: Missing` names no trait: the method's generic parameters are not in
    // scope, so `T` is read as a type constructor; the variable that `T`
    // took is still used up.
    let node = equal_trait(vec![bound("T", "Missing")]);
    let typed = tc.typecheck_node(&node).unwrap();
    let pick = Type::Fun { args: vec![con_type("T")], ret: Box::new(Type::Var(TypeVar(3))) };
    assert_eq!(tc.trait_env.get("Equal").unwrap().get("pick"), Some(&pick));
    assert!(tc.constraints.is_empty());
    match typed.kind {
        TypedAstNodeKind::Trait { methods, .. } => assert_eq!(methods[1].typ, pick),
        _ => panic!("expected a trait"),
    }
}

#[test]
fn test_process_generic_params_error_keeps_partial_effects() {
    let mut tc = typechecker::TypeChecker::new();
    tc.typecheck_node(&equal_trait(vec![])).unwrap();
    let start = tc.next_var;
    let before = tc.constraints.len();
    let gps = vec![bound("A", "Equal"), bound("B", "Missing"), bound("C", "Equal")];
    let r = tc.process_generic_params(&gps);
    assert_eq!(r.err(), Some("trait 'Missing' not defined".to_string()));
    // `A` and `B` took a variable each; only `A: Equal` was recorded.
    assert_eq!(tc.next_var, start + 2);
    assert_eq!(tc.constraints.len(), before + 1);
}

#[test]
fn test_extern_params_get_types() {
    let mut tc = typechecker::TypeChecker::new();
    let node = ast::AstNode {
        meta: meta_at(7),
        kind: ast::AstNodeKind::Extern {
            name: "puts".to_string(),
            args: vec![ast::FunctionParam { name: "s".to_string(), type_annotation: con("String") }],
            return_type: Some(con("i32")),
        },
    };
    let typed = tc.typecheck_node(&node).unwrap();
    match typed.kind {
        TypedAstNodeKind::Extern { args, .. } => {
            let types: Vec<&Type> = args.iter().map(|p: &TypedFunctionParam| &p.typ).collect();
            assert_eq!(types, vec![&con_type("String")]);
        },
        _ => panic!("expected an extern"),
    }
}

#[test]
fn test_typed_program_keeps_attributes() {
    let mut node = equal_trait(vec![]);
    node.meta.attributes = vec![meta::Attribute {
        name: "doc".to_string(),
        args: vec![
            meta::AttributeArg::Literal("text".to_string()),
            meta::AttributeArg::KeyValue("k".to_string(), "v".to_string()),
        ],
    }];
    let tp = typechecker::TypeChecker::new().typecheck(vec![node]).unwrap();
    let m = &tp[0].meta;
    assert_eq!(m.filename, "t.llama");
    assert_eq!(m.range, 3..4);
    assert_eq!(m.attributes.len(), 1);
    assert_eq!(m.attributes[0].name, "doc");
    assert!(matches!(&m.attributes[0].args[0], meta::AttributeArg::Literal(s) if s == "text"));
    assert!(matches!(&m.attributes[0].args[1], meta::AttributeArg::KeyValue(k, v) if k == "k" && v == "v"));
}
