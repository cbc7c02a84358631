use llamac::ast::{
    ArrayElement, AstNodeKind, EnumInitFields, EnumVariant, Expr, ExprKind, ImportItem, Literal,
    MatchArm, MethodParam, Pattern, Program, RowField, StructInitField, StructPatternField,
    TypeAnnotationKind,
};
use llamac::lexer::tokens::Token;
use llamac::lexer::Lexer;
use llamac::parser::{Parser, Result};

fn lex(text: &str) -> Vec<Token> {
    let mut lexer = Lexer::from_text(text);
    let mut out = Vec::new();
    while let Some(t) = lexer.next_token() {
        if let Ok(t) = t {
            out.push(t);
        }
    }
    out
}

fn parse_program(text: &str) -> Result<Program> {
    let tokens: Vec<Token> = lex(text);
    let mut parser = Parser::new(tokens, "test".to_string());
    parser.parse()
}

fn parse_expression(text: &str) -> Result<Expr> {
    let tokens: Vec<Token> = lex(text);
    let mut parser = Parser::new(tokens, "test".to_string());
    parser.parse_expression()
}

#[test]
fn test_function_parsing() {
    let program = parse_program("fn add(x: i32, y: i32) -> i32 end");
    assert!(program.is_ok());
    let program = program.unwrap();
    assert_eq!(program.len(), 1);
    match &program[0].kind {
        AstNodeKind::Function {
            name,
            args,
            return_type,
            ..
        } => {
            assert_eq!(name, "add");
            assert_eq!(args.len(), 2);
            assert_eq!(args[0].name, "x");
            assert_eq!(args[1].name, "y");
            assert!(return_type.is_some());
        }
        _ => panic!("Expected function"),
    }
}

#[test]
fn test_function_with_body() {
    let program = parse_program("fn add(x: i32, y: i32) -> i32 return x + y end");
    assert!(program.is_ok());
    let program = program.unwrap();
    match &program[0].kind {
        AstNodeKind::Function { body, .. } => {
            assert_eq!(body.len(), 1);
            match &body[0].kind {
                ExprKind::Return(Some(expr)) => match &expr.kind {
                    ExprKind::BinaryOp { operator, .. } => {
                        assert_eq!(operator, "+");
                    }
                    _ => panic!("Expected binary op"),
                },
                _ => panic!("Expected return"),
            }
        }
        _ => panic!("Expected function"),
    }
}

#[test]
fn test_struct_parsing() {
    let program = parse_program("struct Point a: i32 b: f32 end");
    assert!(program.is_ok());
    let program = program.unwrap();
    assert_eq!(program.len(), 1);
    match &program[0].kind {
        AstNodeKind::Struct { name, fields, .. } => {
            assert_eq!(name, "Point");
            assert_eq!(fields.len(), 2);
            assert_eq!(fields[0].name, "a");
            assert_eq!(fields[1].name, "b");
        }
        _ => panic!("Expected struct"),
    }
}

#[test]
fn test_enum_parsing() {
    let program = parse_program("enum Option Some(T) None end");
    assert!(program.is_ok());
    let program = program.unwrap();
    assert_eq!(program.len(), 1);
    match &program[0].kind {
        AstNodeKind::Enum { name, variants, .. } => {
            assert_eq!(name, "Option");
            assert_eq!(variants.len(), 2);
        }
        _ => panic!("Expected enum"),
    }
}

#[test]
fn test_const_parsing() {
    let program = parse_program("const MAX: i32 = 100");
    assert!(program.is_ok());
    let program = program.unwrap();
    assert_eq!(program.len(), 1);
    match &program[0].kind {
        AstNodeKind::Const {
            name,
            type_annotation,
            value,
        } => {
            assert_eq!(name, "MAX");
            assert!(type_annotation.is_some());
            match &value.kind {
                ExprKind::Literal(Literal::Integer(100)) => {}
                _ => panic!("Expected integer literal"),
            }
        }
        _ => panic!("Expected const"),
    }
}

#[test]
fn test_extern_parsing() {
    let program = parse_program("extern fn printf(format: i32) -> i32");
    assert!(program.is_ok());
    let program = program.unwrap();
    assert_eq!(program.len(), 1);
    match &program[0].kind {
        AstNodeKind::Extern {
            name,
            args,
            return_type,
        } => {
            assert_eq!(name, "printf");
            assert_eq!(args.len(), 1);
            assert_eq!(args[0].name, "format");
            assert!(return_type.is_some());
        }
        _ => panic!("Expected extern"),
    }
}

#[test]
fn test_import_all() {
    let program = parse_program("import \"std/abc\"");
    assert!(program.is_ok());
    let program = program.unwrap();
    assert_eq!(program.len(), 1);
    match &program[0].kind {
        AstNodeKind::Import { path, items } => {
            assert_eq!(path, "std/abc");
            assert_eq!(items.len(), 0);
        }
        _ => panic!("Expected import"),
    }
}

#[test]
fn test_import_selective() {
    let program = parse_program("import \"std/abc\".{A, B}");
    assert!(program.is_ok());
    let program = program.unwrap();
    assert_eq!(program.len(), 1);
    match &program[0].kind {
        AstNodeKind::Import { path, items } => {
            assert_eq!(path, "std/abc");
            assert_eq!(items.len(), 2);
            assert_eq!(items[0].name, "A");
            assert_eq!(items[0].alias, None);
            assert_eq!(items[1].name, "B");
            assert_eq!(items[1].alias, None);
        }
        _ => panic!("Expected import"),
    }
}

#[test]
fn test_import_with_alias() {
    let program = parse_program("import \"std/abc\".{A as B}");
    assert!(program.is_ok());
    let program = program.unwrap();
    assert_eq!(program.len(), 1);
    match &program[0].kind {
        AstNodeKind::Import { path, items } => {
            assert_eq!(path, "std/abc");
            assert_eq!(items.len(), 1);
            assert_eq!(items[0].name, "A");
            assert_eq!(items[0].alias, Some("B".to_string()));
        }
        _ => panic!("Expected import"),
    }
}

#[test]
fn test_import_mixed() {
    let program = parse_program("import \"std/abc\".{A, B as C, D}");
    assert!(program.is_ok());
    let program = program.unwrap();
    assert_eq!(program.len(), 1);
    match &program[0].kind {
        AstNodeKind::Import { path, items } => {
            assert_eq!(path, "std/abc");
            assert_eq!(items.len(), 3);
            assert_eq!(items[0].name, "A");
            assert_eq!(items[0].alias, None);
            assert_eq!(items[1].name, "B");
            assert_eq!(items[1].alias, Some("C".to_string()));
            assert_eq!(items[2].name, "D");
            assert_eq!(items[2].alias, None);
        }
        _ => panic!("Expected import"),
    }
}

#[test]
fn test_literal_expressions() {
    let expr = parse_expression("42");
    assert!(expr.is_ok());
    let expr = expr.unwrap();
    match expr.kind {
        ExprKind::Literal(Literal::Integer(42)) => {}
        _ => panic!("Expected integer literal"),
    }

    let expr = parse_expression("3.14");
    assert!(expr.is_ok());
    let expr = expr.unwrap();
    match expr.kind {
        ExprKind::Literal(Literal::Float(f)) => {
            let f: f64 = f.parse().unwrap();
            assert!((f - 3.14).abs() < 0.001);
        }
        _ => panic!("Expected float literal"),
    }

    let expr = parse_expression("\"hello\"");
    assert!(expr.is_ok());
    let expr = expr.unwrap();
    match expr.kind {
        ExprKind::Literal(Literal::String(s)) => {
            assert_eq!(s, "hello");
        }
        _ => panic!("Expected string literal"),
    }

    let expr = parse_expression("true");
    assert!(expr.is_ok());
    let expr = expr.unwrap();
    match expr.kind {
        ExprKind::Literal(Literal::Boolean(true)) => {}
        _ => panic!("Expected boolean literal"),
    }
}

#[test]
fn test_binary_expressions() {
    let expr = parse_expression("1 + 2");
    assert!(expr.is_ok());
    let expr = expr.unwrap();
    match expr.kind {
        ExprKind::BinaryOp {
            operator,
            left,
            right,
        } => {
            assert_eq!(operator, "+");
            match (&left.kind, &right.kind) {
                (
                    ExprKind::Literal(Literal::Integer(1)),
                    ExprKind::Literal(Literal::Integer(2)),
                ) => {}
                _ => panic!("Expected integer literals"),
            }
        }
        _ => panic!("Expected binary operation"),
    }

    let expr = parse_expression("x == y");
    assert!(expr.is_ok());
    let expr = expr.unwrap();
    match expr.kind {
        ExprKind::BinaryOp { operator, .. } => {
            assert_eq!(operator, "==");
        }
        _ => panic!("Expected binary operation"),
    }
}

#[test]
fn test_unary_expressions() {
    let expr = parse_expression("-42");
    assert!(expr.is_ok());
    let expr = expr.unwrap();
    match expr.kind {
        ExprKind::UnaryOp { operator, operand } => {
            assert_eq!(operator, "-");
            match operand.kind {
                ExprKind::Literal(Literal::Integer(42)) => {}
                _ => panic!("Expected integer literal"),
            }
        }
        _ => panic!("Expected unary operation"),
    }

    let expr = parse_expression("!true");
    assert!(expr.is_ok());
    let expr = expr.unwrap();
    match expr.kind {
        ExprKind::UnaryOp { operator, .. } => {
            assert_eq!(operator, "!");
        }
        _ => panic!("Expected unary operation"),
    }
}

#[test]
fn test_variable_expression() {
    let expr = parse_expression("x");
    assert!(expr.is_ok());
    let expr = expr.unwrap();
    match expr.kind {
        ExprKind::Variable(name) => {
            assert_eq!(name, "x");
        }
        _ => panic!("Expected variable"),
    }
}

#[test]
fn parser_test_function_call() {
    let expr = parse_expression("add(1, 2)");
    assert!(expr.is_ok());
    let expr = expr.unwrap();
    match expr.kind {
        ExprKind::FunctionCall { function, args } => {
            match function.kind {
                ExprKind::Variable(name) => assert_eq!(name, "add"),
                _ => panic!("Expected variable"),
            }
            assert_eq!(args.len(), 2);
        }
        _ => panic!("Expected function call"),
    }
}

#[test]
fn test_dot_access() {
    let expr = parse_expression("obj.field");
    assert!(expr.is_ok());
    let expr = expr.unwrap();
    match expr.kind {
        ExprKind::DotAccess { value, field } => {
            match value.kind {
                ExprKind::Variable(name) => assert_eq!(name, "obj"),
                _ => panic!("Expected variable"),
            }
            assert_eq!(field, "field");
        }
        _ => panic!("Expected dot access"),
    }
}

#[test]
fn parser_test_lambda_expression() {
    let expr = parse_expression("fn(x: i32) -> i32 x + 1 end");
    assert!(expr.is_ok());
    let expr = expr.unwrap();
    match expr.kind {
        ExprKind::Lambda {
            params,
            return_type,
            body,
        } => {
            assert_eq!(params.len(), 1);
            assert_eq!(params[0].name, "x");
            assert!(return_type.is_some());
            match body.kind {
                ExprKind::Block { expressions } => {
                    assert_eq!(expressions.len(), 1);
                    match &expressions[0].kind {
                        ExprKind::BinaryOp {
                            left,
                            operator,
                            right,
                        } => {
                            assert_eq!(operator, "+");
                            match &left.kind {
                                ExprKind::Variable(var) => assert_eq!(var, "x"),
                                _ => panic!("Expected variable x"),
                            }
                            match right.kind {
                                ExprKind::Literal(Literal::Integer(1)) => {}
                                _ => panic!("Expected literal 1"),
                            }
                        }
                        _ => panic!("Expected binary operation"),
                    }
                }
                _ => panic!("Expected block"),
            }
        }
        _ => panic!("Expected lambda"),
    }
}

#[test]
fn parser_test_row_expression() {
    let expr = parse_expression("{x: 1, y: 2}");
    assert!(expr.is_ok());
    let expr = expr.unwrap();
    match expr.kind {
        ExprKind::Row(fields) => {
            assert_eq!(fields.len(), 2);
        }
        _ => panic!("Expected row"),
    }
}

#[test]
fn parser_test_let_expression() {
    let expr = parse_expression("let x = 42");
    assert!(expr.is_ok());
    let expr = expr.unwrap();
    match expr.kind {
        ExprKind::Let {
            name,
            type_annotation,
            value,
        } => {
            assert_eq!(name, "x");
            assert!(type_annotation.is_none());
            match value.kind {
                ExprKind::Literal(Literal::Integer(42)) => {}
                _ => panic!("Expected integer literal"),
            }
        }
        _ => panic!("Expected let expression"),
    }
}

#[test]
fn test_let_with_type() {
    let expr = parse_expression("let x: i32 = 42");
    assert!(expr.is_ok());
    let expr = expr.unwrap();
    match expr.kind {
        ExprKind::Let {
            type_annotation, ..
        } => {
            assert!(type_annotation.is_some());
        }
        _ => panic!("Expected let expression"),
    }
}

#[test]
fn test_assignment_expression() {
    let expr = parse_expression("x = 42");
    assert!(expr.is_ok());
    let expr = expr.unwrap();
    match expr.kind {
        ExprKind::Assign { target, value } => {
            match target.kind {
                ExprKind::Variable(name) => assert_eq!(name, "x"),
                _ => panic!("Expected variable"),
            }
            match value.kind {
                ExprKind::Literal(Literal::Integer(42)) => {}
                _ => panic!("Expected integer literal"),
            }
        }
        _ => panic!("Expected assignment"),
    }
}

#[test]
fn test_augmented_assignment() {
    let expr = parse_expression("x += 1");
    assert!(expr.is_ok());
    let expr = expr.unwrap();
    match expr.kind {
        ExprKind::BinaryOp { operator, .. } => {
            assert_eq!(operator, "+=");
        }
        _ => panic!("Expected binary operation"),
    }

    let expr = parse_expression("x -= 1");
    assert!(expr.is_ok());
    let expr = expr.unwrap();
    match expr.kind {
        ExprKind::BinaryOp { operator, .. } => {
            assert_eq!(operator, "-=");
        }
        _ => panic!("Expected binary operation"),
    }
}

#[test]
fn parser_test_while_expression() {
    let expr = parse_expression("while x < 10 x = x + 1 end");
    assert!(expr.is_ok());
    let expr = expr.unwrap();
    match expr.kind {
        ExprKind::While { condition: _, body } => {
            assert!(!body.is_empty());
        }
        _ => panic!("Expected while expression"),
    }
}

#[test]
fn parser_test_for_expression() {
    let expr = parse_expression("for i in 0..10 println(i) end");
    assert!(expr.is_ok());
    let expr = expr.unwrap();
    match expr.kind {
        ExprKind::For {
            iterator,
            iterable: _,
            body,
        } => {
            assert_eq!(iterator, "i");
            assert!(!body.is_empty());
        }
        _ => panic!("Expected for expression"),
    }
}

#[test]
fn parser_test_return_expression() {
    let expr = parse_expression("return 42");
    assert!(expr.is_ok());
    let expr = expr.unwrap();
    match expr.kind {
        ExprKind::Return(Some(value)) => match value.kind {
            ExprKind::Literal(Literal::Integer(42)) => {}
            _ => panic!("Expected integer literal"),
        },
        _ => panic!("Expected return expression"),
    }
}

#[test]
fn test_break_continue() {
    let expr = parse_expression("break");
    assert!(expr.is_ok());
    let expr = expr.unwrap();
    match expr.kind {
        ExprKind::Break => {}
        _ => panic!("Expected break"),
    }

    let expr = parse_expression("continue");
    assert!(expr.is_ok());
    let expr = expr.unwrap();
    match expr.kind {
        ExprKind::Continue => {}
        _ => panic!("Expected continue"),
    }
}

#[test]
fn parser_test_range_expression() {
    let expr = parse_expression("1..10");
    assert!(expr.is_ok());
    let expr = expr.unwrap();
    match expr.kind {
        ExprKind::Range { inclusive, .. } => {
            assert!(!inclusive);
        }
        _ => panic!("Expected range expression"),
    }
}

#[test]
fn parser_test_cast_expression() {
    let expr = parse_expression("x as i32");
    assert!(expr.is_ok());
    let expr = expr.unwrap();
    match expr.kind {
        ExprKind::Cast(expr, type_annotation) => {
            match expr.kind {
                ExprKind::Variable(name) => assert_eq!(name, "x"),
                _ => panic!("Expected variable"),
            }
            match type_annotation.kind {
                TypeAnnotationKind::Constructor { name, .. } => assert_eq!(name, "i32"),
                _ => panic!("Expected type name"),
            }
        }
        _ => panic!("Expected cast expression"),
    }
}

#[test]
fn test_generic_params() {
    let program = parse_program("fn identity<T>(x: T) -> T end");
    assert!(program.is_ok());
    let program = program.unwrap();
    match &program[0].kind {
        AstNodeKind::Function { generic_params, .. } => {
            assert_eq!(generic_params.len(), 1);
            assert_eq!(generic_params[0].name, "T");
        }
        _ => panic!("Expected function"),
    }
}

#[test]
fn test_generic_with_constraints() {
    let program = parse_program("fn compare<T: Comparable>(a: T, b: T) -> i32 end");
    assert!(program.is_ok());
    let program = program.unwrap();
    match &program[0].kind {
        AstNodeKind::Function { generic_params, .. } => {
            assert_eq!(generic_params.len(), 1);
            assert_eq!(generic_params[0].name, "T");
            assert_eq!(generic_params[0].constraints.len(), 1);
        }
        _ => panic!("Expected function"),
    }
}

#[test]
fn test_type_annotation() {
    let program = parse_program("fn process(data: Vec<i32>) -> Option<i32> end");
    assert!(program.is_ok());
    let program = program.unwrap();
    match &program[0].kind {
        AstNodeKind::Function {
            args, return_type, ..
        } => {
            assert_eq!(args.len(), 1);
            match &args[0].type_annotation.kind {
                TypeAnnotationKind::Constructor { name, generic_args } => {
                    assert_eq!(name, "Vec");
                    assert_eq!(generic_args.len(), 1);
                }
                _ => panic!("Expected type constructor"),
            }
            assert!(return_type.is_some());
            match &return_type.as_ref().unwrap().kind {
                TypeAnnotationKind::Constructor { name, .. } => {
                    assert_eq!(name, "Option");
                }
                _ => panic!("Expected type constructor"),
            }
        }
        _ => panic!("Expected function"),
    }
}

#[test]
fn parser_test_attributes() {
    let program = parse_program("@test fn example() end");
    assert!(program.is_ok());
    let program = program.unwrap();
    assert_eq!(program.len(), 1);
    assert_eq!(program[0].meta.attributes.len(), 1);
    assert_eq!(program[0].meta.attributes[0].name, "test");
}

#[test]
fn test_attribute_with_args() {
    let program = parse_program("@doc(\"test\") fn example() end");
    assert!(program.is_ok());
    let program = program.unwrap();
    assert_eq!(program[0].meta.attributes.len(), 1);
    assert_eq!(program[0].meta.attributes[0].name, "doc");
    assert_eq!(program[0].meta.attributes[0].args.len(), 1);
}

#[test]
fn test_multiple_attributes() {
    let program = parse_program("@test @doc(\"example\") fn example() end");
    assert!(program.is_ok());
    let program = program.unwrap();
    assert_eq!(program[0].meta.attributes.len(), 2);
}

#[test]
fn parser_test_pipeline_operator() {
    let expr = parse_expression("x |> f() |> g()");
    assert!(expr.is_ok());
    let expr = expr.unwrap();
    match expr.kind {
        ExprKind::BinaryOp {
            operator,
            left,
            right,
        } => {
            assert_eq!(operator, "|>");
            match right.kind {
                ExprKind::FunctionCall { .. } => {}
                _ => panic!("Expected function call"),
            }
        }
        _ => panic!("Expected binary operation"),
    }
}

#[test]
fn parser_test_index_expression() {
    let expr = parse_expression("arr[0]");
    assert!(expr.is_ok());
    let expr = expr.unwrap();
    match expr.kind {
        ExprKind::Index { value, index } => {
            match value.kind {
                ExprKind::Variable(name) => assert_eq!(name, "arr"),
                _ => panic!("Expected variable"),
            }
            match index.kind {
                ExprKind::Literal(Literal::Integer(0)) => {}
                _ => panic!("Expected integer literal"),
            }
        }
        _ => panic!("Expected index expression"),
    }
}

#[test]
fn test_nested_expressions() {
    let expr = parse_expression("(1 + 2) * 3");
    assert!(expr.is_ok());
    let expr = expr.unwrap();
    match expr.kind {
        ExprKind::BinaryOp { operator, .. } => {
            assert_eq!(operator, "*");
        }
        _ => panic!("Expected binary operation"),
    }
}

#[test]
fn test_do_block() {
    let expr = parse_expression("do x = 1 y = 2 end");
    assert!(expr.is_ok());
    let expr = expr.unwrap();
    match expr.kind {
        ExprKind::Do(expressions) => {
            assert_eq!(expressions.len(), 2);
        }
        _ => panic!("Expected do block"),
    }
}

#[test]
fn test_spread_in_array() {
    let expr = parse_expression("[1, ..rest, 3]");
    assert!(expr.is_ok());
    let expr = expr.unwrap();
    match expr.kind {
        ExprKind::Array(elements) => {
            assert_eq!(elements.len(), 3);
        }
        _ => panic!("Expected array"),
    }
}

#[test]
fn test_spread_in_row() {
    let expr = parse_expression("{x: 1, ..rest}");
    assert!(expr.is_ok());
    let expr = expr.unwrap();
    match expr.kind {
        ExprKind::Row(fields) => {
            assert_eq!(fields.len(), 2);
        }
        _ => panic!("Expected row"),
    }
}

#[test]
fn test_parse_error() {
    let result = parse_program("fn");
    assert!(result.is_err());
}

#[test]
fn test_multiple_top_level_declarations() {
    let program = parse_program("fn foo() end fn bar() end const X = 1");
    assert!(program.is_ok());
    let program = program.unwrap();
    assert_eq!(program.len(), 3);
}

#[test]
fn test_struct_init() {
    let expr = parse_expression("Point { x: 1, y: 2 }");
    assert!(expr.is_ok());
    let expr = expr.unwrap();
    match expr.kind {
        ExprKind::StructInit { name, fields } => {
            assert_eq!(name, "Point");
            assert_eq!(fields.len(), 2);
            match &fields[0] {
                StructInitField::Field { name, value } => {
                    assert_eq!(name, "x");
                    match value.kind {
                        ExprKind::Literal(Literal::Integer(1)) => {}
                        _ => panic!("Expected integer literal 1"),
                    }
                }
                _ => panic!("Expected field"),
            }
            match &fields[1] {
                StructInitField::Field { name, value } => {
                    assert_eq!(name, "y");
                    match value.kind {
                        ExprKind::Literal(Literal::Integer(2)) => {}
                        _ => panic!("Expected integer literal 2"),
                    }
                }
                _ => panic!("Expected field"),
            }
        }
        _ => panic!("Expected struct init"),
    }
}

#[test]
fn test_struct_init_with_spread() {
    let expr = parse_expression("Point { x: 10, ..other }");
    assert!(expr.is_ok());
    let expr = expr.unwrap();
    match expr.kind {
        ExprKind::StructInit { name, fields } => {
            assert_eq!(name, "Point");
            assert_eq!(fields.len(), 2);
            match &fields[0] {
                StructInitField::Field { name, value } => {
                    assert_eq!(name, "x");
                    match value.kind {
                        ExprKind::Literal(Literal::Integer(10)) => {}
                        _ => panic!("Expected integer literal 10"),
                    }
                }
                _ => panic!("Expected field"),
            }
            match &fields[1] {
                StructInitField::Spread(expr) => match &expr.kind {
                    ExprKind::Variable(var) => assert_eq!(var, "other"),
                    _ => panic!("Expected variable"),
                },
                _ => panic!("Expected spread"),
            }
        }
        _ => panic!("Expected struct init"),
    }
}

#[test]
fn test_enum_init_tuple() {
    let expr = parse_expression("Option::Some(42)");
    assert!(expr.is_ok());
    let expr = expr.unwrap();
    match expr.kind {
        ExprKind::EnumInit {
            enum_name,
            variant_name,
            fields,
        } => {
            assert_eq!(enum_name, "Option");
            assert_eq!(variant_name, "Some");
            match fields {
                EnumInitFields::Tuple(exprs) => {
                    assert_eq!(exprs.len(), 1);
                    match exprs[0].kind {
                        ExprKind::Literal(Literal::Integer(42)) => {}
                        _ => panic!("Expected integer literal 42"),
                    }
                }
                _ => panic!("Expected tuple fields"),
            }
        }
        _ => panic!("Expected enum init"),
    }
}

#[test]
fn test_enum_init_struct() {
    let expr = parse_expression("Color::Rgb { r: 255, g: 0, b: 128 }");
    assert!(expr.is_ok());
    let expr = expr.unwrap();
    match expr.kind {
        ExprKind::EnumInit {
            enum_name,
            variant_name,
            fields,
        } => {
            assert_eq!(enum_name, "Color");
            assert_eq!(variant_name, "Rgb");
            match fields {
                EnumInitFields::Struct(fields) => {
                    assert_eq!(fields.len(), 3);
                    match &fields[0] {
                        StructInitField::Field { name, value } => {
                            assert_eq!(name, "r");
                            match value.kind {
                                ExprKind::Literal(Literal::Integer(255)) => {}
                                _ => panic!("Expected integer literal 255"),
                            }
                        }
                        _ => panic!("Expected field"),
                    }
                }
                _ => panic!("Expected struct fields"),
            }
        }
        _ => panic!("Expected enum init"),
    }
}

#[test]
fn test_enum_variant_reference() {
    let expr = parse_expression("Option::None");
    assert!(expr.is_ok());
    let expr = expr.unwrap();
    match expr.kind {
        ExprKind::Variable(var) => {
            assert_eq!(var, "Option::None");
        }
        _ => panic!("Expected variable"),
    }
}

#[test]
fn parser_test_match_expression() {
    let program = parse_program("fn f() match x 1 => 42, _ => 0 end end");
    assert!(program.is_ok());
    let program = program.unwrap();
    assert_eq!(program.len(), 1);
    match &program[0].kind {
        AstNodeKind::Function { body, .. } => {
            match &body[0].kind {
                ExprKind::Match { value, arms } => {
                    match &value.kind {
                        ExprKind::Variable(var) => assert_eq!(var, "x"),
                        _ => panic!("Expected variable x"),
                    }
                    assert_eq!(arms.len(), 2);
                    // First arm: 1 => 42
                    match &arms[0].pattern {
                        Pattern::Literal(Literal::Integer(1)) => {}
                        _ => panic!("Expected literal pattern 1"),
                    }
                    match &arms[0].body[0].kind {
                        ExprKind::Literal(Literal::Integer(42)) => {}
                        _ => panic!("Expected literal 42"),
                    }
                    // Second arm: _ => 0
                    match &arms[1].pattern {
                        Pattern::Wildcard => {}
                        _ => panic!("Expected wildcard pattern"),
                    }
                    match &arms[1].body[0].kind {
                        ExprKind::Literal(Literal::Integer(0)) => {}
                        _ => panic!("Expected literal 0"),
                    }
                }
                _ => panic!("Expected match expression"),
            }
        }
        _ => panic!("Expected function"),
    }
}

#[test]
fn parser_test_tuple_expression() {
    let expr = parse_expression("(1, \"hello\", true)");
    assert!(expr.is_ok());
    let expr = expr.unwrap();
    match expr.kind {
        ExprKind::Tuple(elements) => {
            assert_eq!(elements.len(), 3);
            match &elements[0].kind {
                ExprKind::Literal(Literal::Integer(1)) => {}
                _ => panic!("Expected integer 1"),
            }
            match &elements[1].kind {
                ExprKind::Literal(Literal::String(s)) => assert_eq!(s, "hello"),
                _ => panic!("Expected string hello"),
            }
            match &elements[2].kind {
                ExprKind::Literal(Literal::Boolean(true)) => {}
                _ => panic!("Expected boolean true"),
            }
        }
        _ => panic!("Expected tuple"),
    }
}

#[test]
fn test_empty_struct_init() {
    let expr = parse_expression("Empty {}");
    assert!(expr.is_ok());
    let expr = expr.unwrap();
    match expr.kind {
        ExprKind::StructInit { name, fields } => {
            assert_eq!(name, "Empty");
            assert_eq!(fields.len(), 0);
        }
        _ => panic!("Expected struct init"),
    }
}
