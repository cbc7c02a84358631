use llamac::lexer::tokens::TokenType;
use llamac::lexer::Lexer;
fn tokenize(text: &str) -> Vec<TokenType> {
    let mut lexer = Lexer::from_text(text);
    let mut out = Vec::new();
    while let Some(t) = lexer.next_token() {
        out.push(t.unwrap().type_);
    }
    out
}

#[test]
fn is_in_identifier() {
    for &i in &['a', 'z', '_', '0', '9'] {
        assert!(Lexer::is_in_identifier(i));
    }

    for &s in &['+', '*', '@', ';'] {
        assert!(!Lexer::is_in_identifier(s));
    }
}

#[test]
fn test_keywords() {
    let tokens = tokenize(
        "if else let fn extern return true false const struct enum trait impl match for while end as in bool self Self do break continue import",
    );
    assert!(matches!(&tokens[0], TokenType::If));
    assert!(matches!(&tokens[1], TokenType::Else));
    assert!(matches!(&tokens[2], TokenType::Let));
    assert!(matches!(&tokens[3], TokenType::Fn));
    assert!(matches!(&tokens[4], TokenType::Extern));
    assert!(matches!(&tokens[5], TokenType::Return));
    assert!(matches!(&tokens[6], TokenType::True));
    assert!(matches!(&tokens[7], TokenType::False));
    assert!(matches!(&tokens[8], TokenType::Const));
    assert!(matches!(&tokens[9], TokenType::Struct));
    assert!(matches!(&tokens[10], TokenType::Enum));
    assert!(matches!(&tokens[11], TokenType::Trait));
    assert!(matches!(&tokens[12], TokenType::Impl));
    assert!(matches!(&tokens[13], TokenType::Match));
    assert!(matches!(&tokens[14], TokenType::For));
    assert!(matches!(&tokens[15], TokenType::While));
    assert!(matches!(&tokens[16], TokenType::End));
    assert!(matches!(&tokens[17], TokenType::As));
    assert!(matches!(&tokens[18], TokenType::In));
    assert!(matches!(&tokens[19], TokenType::Bool));
    assert!(matches!(&tokens[20], TokenType::SelfKeyword));
    assert!(matches!(&tokens[21], TokenType::SelfType));
    assert!(matches!(&tokens[22], TokenType::Do));
    assert!(matches!(&tokens[23], TokenType::Break));
    assert!(matches!(&tokens[24], TokenType::Continue));
    assert!(matches!(&tokens[25], TokenType::Import));
}

#[test]
fn test_identifiers() {
    let tokens = tokenize("x y_z someVar123 _private");
    assert!(matches!(&tokens[0], TokenType::Identifier(s) if s == "x"));
    assert!(matches!(&tokens[1], TokenType::Identifier(s) if s == "y_z"));
    assert!(matches!(&tokens[2], TokenType::Identifier(s) if s == "someVar123"));
    assert!(matches!(&tokens[3], TokenType::Identifier(s) if s == "_private"));
}

#[test]
fn test_integer_literals() {
    let tokens = tokenize("0 42 100");
    assert!(matches!(&tokens[0], TokenType::Integer(0)));
    assert!(matches!(&tokens[1], TokenType::Integer(42)));
    assert!(matches!(&tokens[2], TokenType::Integer(100)));
}

#[test]
fn test_float_literals() {
    let tokens = tokenize("3.14 0.5 1.0 100.0");
    assert!(matches!(&tokens[0], TokenType::Float(f) if (f.parse::<f64>().unwrap() - 3.14).abs() < 0.001));
    assert!(matches!(&tokens[1], TokenType::Float(f) if (f.parse::<f64>().unwrap() - 0.5).abs() < 0.001));
    assert!(matches!(&tokens[2], TokenType::Float(f) if (f.parse::<f64>().unwrap() - 1.0).abs() < 0.001));
    assert!(matches!(&tokens[3], TokenType::Float(f) if (f.parse::<f64>().unwrap() - 100.0).abs() < 0.001));
}

#[test]
fn test_string_literals() {
    let tokens = tokenize("\"hello\" \"world\" \"with spaces\"");
    assert!(matches!(&tokens[0], TokenType::Str(s) if s == "hello"));
    assert!(matches!(&tokens[1], TokenType::Str(s) if s == "world"));
    assert!(matches!(&tokens[2], TokenType::Str(s) if s == "with spaces"));
}

#[test]
fn test_punctuators() {
    let tokens = tokenize("; : :: , ( ) [ ] { } -> . .. |> @");
    assert!(matches!(&tokens[0], TokenType::Semicolon));
    assert!(matches!(&tokens[1], TokenType::Colon));
    assert!(matches!(&tokens[2], TokenType::DoubleColon));
    assert!(matches!(&tokens[3], TokenType::Comma));
    assert!(matches!(&tokens[4], TokenType::LParen));
    assert!(matches!(&tokens[5], TokenType::RParen));
    assert!(matches!(&tokens[6], TokenType::LBrack));
    assert!(matches!(&tokens[7], TokenType::RBrack));
    assert!(matches!(&tokens[8], TokenType::LBrace));
    assert!(matches!(&tokens[9], TokenType::RBrace));
    assert!(matches!(&tokens[10], TokenType::Arrow));
    assert!(matches!(&tokens[11], TokenType::Dot));
    assert!(matches!(&tokens[12], TokenType::Spread));
    assert!(matches!(&tokens[13], TokenType::Pipeline));
    assert!(matches!(&tokens[14], TokenType::At));
}

#[test]
fn test_operators() {
    let tokens = tokenize("+ - * / = < > <= >= == ! != += -= *= /=");
    assert!(matches!(&tokens[0], TokenType::Plus));
    assert!(matches!(&tokens[1], TokenType::Minus));
    assert!(matches!(&tokens[2], TokenType::Mul));
    assert!(matches!(&tokens[3], TokenType::Div));
    assert!(matches!(&tokens[4], TokenType::Assign));
    assert!(matches!(&tokens[5], TokenType::Less));
    assert!(matches!(&tokens[6], TokenType::Greater));
    assert!(matches!(&tokens[7], TokenType::LessEq));
    assert!(matches!(&tokens[8], TokenType::GreaterEq));
    assert!(matches!(&tokens[9], TokenType::Equal));
    assert!(matches!(&tokens[10], TokenType::Not));
    assert!(matches!(&tokens[11], TokenType::NotEq));
    assert!(matches!(&tokens[12], TokenType::PlusEq));
    assert!(matches!(&tokens[13], TokenType::MinusEq));
    assert!(matches!(&tokens[14], TokenType::MulEq));
    assert!(matches!(&tokens[15], TokenType::DivEq));
}

#[test]
fn test_comments() {
    let tokens = tokenize("x # this is a comment\n y");
    assert!(matches!(&tokens[0], TokenType::Identifier(s) if s == "x"));
    assert!(matches!(&tokens[1], TokenType::Identifier(s) if s == "y"));
    assert_eq!(tokens.len(), 2);
}

#[test]
fn test_function_definition() {
    let tokens = tokenize("fn add(x: i32, y: i32) -> i32 end");
    assert!(matches!(&tokens[0], TokenType::Fn));
    assert!(matches!(&tokens[1], TokenType::Identifier(s) if s == "add"));
    assert!(matches!(&tokens[2], TokenType::LParen));
    assert!(matches!(&tokens[3], TokenType::Identifier(s) if s == "x"));
    assert!(matches!(&tokens[4], TokenType::Colon));
    assert!(matches!(&tokens[5], TokenType::Identifier(s) if s == "i32"));
    assert!(matches!(&tokens[6], TokenType::Comma));
    assert!(matches!(&tokens[7], TokenType::Identifier(s) if s == "y"));
    assert!(matches!(&tokens[8], TokenType::Colon));
    assert!(matches!(&tokens[9], TokenType::Identifier(s) if s == "i32"));
    assert!(matches!(&tokens[10], TokenType::RParen));
    assert!(matches!(&tokens[11], TokenType::Arrow));
    assert!(matches!(&tokens[12], TokenType::Identifier(s) if s == "i32"));
    assert!(matches!(&tokens[13], TokenType::End));
}

#[test]
fn test_let_binding() {
    let tokens = tokenize("let x: i32 = 42");
    assert!(matches!(&tokens[0], TokenType::Let));
    assert!(matches!(&tokens[1], TokenType::Identifier(s) if s == "x"));
    assert!(matches!(&tokens[2], TokenType::Colon));
    assert!(matches!(&tokens[3], TokenType::Identifier(s) if s == "i32"));
    assert!(matches!(&tokens[4], TokenType::Assign));
    assert!(matches!(&tokens[5], TokenType::Integer(42)));
}

#[test]
fn test_struct_definition() {
    let tokens = tokenize("struct Point<T: Walkable> a: i32 b: f32 end");
    assert!(matches!(&tokens[0], TokenType::Struct));
    assert!(matches!(&tokens[1], TokenType::Identifier(s) if s == "Point"));
    assert!(matches!(&tokens[2], TokenType::Less));
    assert!(matches!(&tokens[3], TokenType::Identifier(s) if s == "T"));
    assert!(matches!(&tokens[4], TokenType::Colon));
    assert!(matches!(&tokens[5], TokenType::Identifier(s) if s == "Walkable"));
    assert!(matches!(&tokens[6], TokenType::Greater));
    assert!(matches!(&tokens[7], TokenType::Identifier(s) if s == "a"));
    assert!(matches!(&tokens[8], TokenType::Colon));
    assert!(matches!(&tokens[9], TokenType::Identifier(s) if s == "i32"));
    assert!(matches!(&tokens[10], TokenType::Identifier(s) if s == "b"));
    assert!(matches!(&tokens[11], TokenType::Colon));
    assert!(matches!(&tokens[12], TokenType::Identifier(s) if s == "f32"));
    assert!(matches!(&tokens[13], TokenType::End));
}

#[test]
fn mod_test_match_expression() {
    let tokens = tokenize("match x Some(y) = > 1, _ = > 2 end");
    assert!(matches!(&tokens[0], TokenType::Match));
    assert!(matches!(&tokens[1], TokenType::Identifier(s) if s == "x"));
    assert!(matches!(&tokens[2], TokenType::Identifier(s) if s == "Some"));
    assert!(matches!(&tokens[3], TokenType::LParen));
    assert!(matches!(&tokens[4], TokenType::Identifier(s) if s == "y"));
    assert!(matches!(&tokens[5], TokenType::RParen));
    assert!(matches!(&tokens[6], TokenType::Assign));
    assert!(matches!(&tokens[7], TokenType::Greater));
    assert!(matches!(&tokens[8], TokenType::Integer(1)));
    assert!(matches!(&tokens[9], TokenType::Comma));
    assert!(matches!(&tokens[10], TokenType::Identifier(s) if s == "_"));
    assert!(matches!(&tokens[11], TokenType::Assign));
    assert!(matches!(&tokens[12], TokenType::Greater));
    assert!(matches!(&tokens[13], TokenType::Integer(2)));
    assert!(matches!(&tokens[14], TokenType::End));
}

#[test]
fn test_enum_path() {
    let tokens = tokenize("MyEnum::VariantOne");
    assert!(matches!(&tokens[0], TokenType::Identifier(s) if s == "MyEnum"));
    assert!(matches!(&tokens[1], TokenType::DoubleColon));
    assert!(matches!(&tokens[2], TokenType::Identifier(s) if s == "VariantOne"));
}

#[test]
fn test_array_and_spread() {
    let tokens = tokenize("[1, 2, ..arr, 5]");
    assert!(matches!(&tokens[0], TokenType::LBrack));
    assert!(matches!(&tokens[1], TokenType::Integer(1)));
    assert!(matches!(&tokens[2], TokenType::Comma));
    assert!(matches!(&tokens[3], TokenType::Integer(2)));
    assert!(matches!(&tokens[4], TokenType::Comma));
    assert!(matches!(&tokens[5], TokenType::Spread));
    assert!(matches!(&tokens[6], TokenType::Identifier(s) if s == "arr"));
    assert!(matches!(&tokens[7], TokenType::Comma));
    assert!(matches!(&tokens[8], TokenType::Integer(5)));
    assert!(matches!(&tokens[9], TokenType::RBrack));
}

#[test]
fn mod_test_pipeline_operator() {
    let tokens = tokenize("x |> f(y, z) |> g.h");
    assert!(matches!(&tokens[0], TokenType::Identifier(s) if s == "x"));
    assert!(matches!(&tokens[1], TokenType::Pipeline));
    assert!(matches!(&tokens[2], TokenType::Identifier(s) if s == "f"));
    assert!(matches!(&tokens[3], TokenType::LParen));
    assert!(matches!(&tokens[4], TokenType::Identifier(s) if s == "y"));
    assert!(matches!(&tokens[5], TokenType::Comma));
    assert!(matches!(&tokens[6], TokenType::Identifier(s) if s == "z"));
    assert!(matches!(&tokens[7], TokenType::RParen));
    assert!(matches!(&tokens[8], TokenType::Pipeline));
    assert!(matches!(&tokens[9], TokenType::Identifier(s) if s == "g"));
    assert!(matches!(&tokens[10], TokenType::Dot));
    assert!(matches!(&tokens[11], TokenType::Identifier(s) if s == "h"));
}

#[test]
fn mod_test_attributes() {
    let tokens = tokenize("@doc(\"test\") @derive x");
    assert!(matches!(&tokens[0], TokenType::At));
    assert!(matches!(&tokens[1], TokenType::Identifier(s) if s == "doc"));
    assert!(matches!(&tokens[2], TokenType::LParen));
    assert!(matches!(&tokens[3], TokenType::Str(s) if s == "test"));
    assert!(matches!(&tokens[4], TokenType::RParen));
    assert!(matches!(&tokens[5], TokenType::At));
    assert!(matches!(&tokens[6], TokenType::Identifier(s) if s == "derive"));
    assert!(matches!(&tokens[7], TokenType::Identifier(s) if s == "x"));
}

#[test]
fn test_for_loop() {
    let tokens = tokenize("for i in 0..10 println(i) end");
    assert!(matches!(&tokens[0], TokenType::For));
    assert!(matches!(&tokens[1], TokenType::Identifier(s) if s == "i"));
    assert!(matches!(&tokens[2], TokenType::In));
    assert!(matches!(&tokens[3], TokenType::Integer(0)));
    assert!(matches!(&tokens[4], TokenType::Spread));
    assert!(matches!(&tokens[5], TokenType::Integer(10)));
    assert!(matches!(&tokens[6], TokenType::Identifier(s) if s == "println"));
    assert!(matches!(&tokens[7], TokenType::LParen));
    assert!(matches!(&tokens[8], TokenType::Identifier(s) if s == "i"));
    assert!(matches!(&tokens[9], TokenType::RParen));
    assert!(matches!(&tokens[10], TokenType::End));
}

#[test]
fn test_while_loop() {
    let tokens = tokenize("while x < 10 x = x + 1 end");
    assert!(matches!(&tokens[0], TokenType::While));
    assert!(matches!(&tokens[1], TokenType::Identifier(s) if s == "x"));
    assert!(matches!(&tokens[2], TokenType::Less));
    assert!(matches!(&tokens[3], TokenType::Integer(10)));
    assert!(matches!(&tokens[4], TokenType::Identifier(s) if s == "x"));
    assert!(matches!(&tokens[5], TokenType::Assign));
    assert!(matches!(&tokens[6], TokenType::Identifier(s) if s == "x"));
    assert!(matches!(&tokens[7], TokenType::Plus));
    assert!(matches!(&tokens[8], TokenType::Integer(1)));
    assert!(matches!(&tokens[9], TokenType::End));
}

#[test]
fn test_impl_block() {
    let tokens = tokenize("impl Trait for Type fn method(self) end end");
    assert!(matches!(&tokens[0], TokenType::Impl));
    assert!(matches!(&tokens[1], TokenType::Identifier(s) if s == "Trait"));
    assert!(matches!(&tokens[2], TokenType::For));
    assert!(matches!(&tokens[3], TokenType::Identifier(s) if s == "Type"));
    assert!(matches!(&tokens[4], TokenType::Fn));
    assert!(matches!(&tokens[5], TokenType::Identifier(s) if s == "method"));
    assert!(matches!(&tokens[6], TokenType::LParen));
    assert!(matches!(&tokens[7], TokenType::SelfKeyword));
    assert!(matches!(&tokens[8], TokenType::RParen));
    assert!(matches!(&tokens[9], TokenType::End));
    assert!(matches!(&tokens[10], TokenType::End));
}

#[test]
fn test_extern_function() {
    let tokens = tokenize("extern fn external_func(x: i32) -> i32");
    assert!(matches!(&tokens[0], TokenType::Extern));
    assert!(matches!(&tokens[1], TokenType::Fn));
    assert!(matches!(&tokens[2], TokenType::Identifier(s) if s == "external_func"));
    assert!(matches!(&tokens[3], TokenType::LParen));
    assert!(matches!(&tokens[4], TokenType::Identifier(s) if s == "x"));
    assert!(matches!(&tokens[5], TokenType::Colon));
    assert!(matches!(&tokens[6], TokenType::Identifier(s) if s == "i32"));
    assert!(matches!(&tokens[7], TokenType::RParen));
    assert!(matches!(&tokens[8], TokenType::Arrow));
    assert!(matches!(&tokens[9], TokenType::Identifier(s) if s == "i32"));
}

#[test]
fn mod_test_if_expression() {
    let tokens = tokenize("if x > 5 true else false end");
    assert!(matches!(&tokens[0], TokenType::If));
    assert!(matches!(&tokens[1], TokenType::Identifier(s) if s == "x"));
    assert!(matches!(&tokens[2], TokenType::Greater));
    assert!(matches!(&tokens[3], TokenType::Integer(5)));
    assert!(matches!(&tokens[4], TokenType::True));
    assert!(matches!(&tokens[5], TokenType::Else));
    assert!(matches!(&tokens[6], TokenType::False));
    assert!(matches!(&tokens[7], TokenType::End));
}

#[test]
fn test_type_cast() {
    let tokens = tokenize("x as i32 y as f32");
    assert!(matches!(&tokens[0], TokenType::Identifier(s) if s == "x"));
    assert!(matches!(&tokens[1], TokenType::As));
    assert!(matches!(&tokens[2], TokenType::Identifier(s) if s == "i32"));
    assert!(matches!(&tokens[3], TokenType::Identifier(s) if s == "y"));
    assert!(matches!(&tokens[4], TokenType::As));
    assert!(matches!(&tokens[5], TokenType::Identifier(s) if s == "f32"));
}
