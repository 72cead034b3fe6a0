use std::collections::VecDeque;

use fire_compiler::compiler::ErrorType;
use fire_compiler::expression_parser::{parse_expression, parse_resource_location, AnonResourceLoc, Value};
use fire_compiler::resources::ResourceLoc;
use fire_compiler::tokenizer::{tokenizer, Token};

const COMPILER_EXPR_TESTS: &[&str] = &[ "
    2 + 2
" ];

const EXPR_TESTS: &[&str] = &[ "
    2 + 2
", "
    1 + 2 * 3
", "
    2 * 3 + 1
", "
    myList[2]
", r#"
    myDictionary["apple" & "2"]
"#, "
    var
", "
    var.inside
", "
    var.method()
","
    function()
", "
    []
", "
    [2 + 2]
", "
    [2, 3, 4]
", "
    {}
", "
    { a: 5 }
", "
    { b : 2, c : 3 }
", "
    { nestedArray: [ 2 + 2 ], nestedDict: { b : 9 } }
" ];

fn queue(code: &str) -> VecDeque<Token> {
    VecDeque::from(tokenizer(code, ResourceLoc::new()).unwrap())
}

fn parse(code: &str) -> Value {
    let mut q = queue(code);
    let v = parse_expression(&mut q).unwrap();
    assert!(q.is_empty(), "tokens left after {:?}: {:?}", code, q);
    v
}

fn failure(code: &str) -> (ErrorType, VecDeque<Token>) {
    let mut q = queue(code);
    let e = parse_expression(&mut q).unwrap_err();
    (e.error_type, q)
}

fn absolute(path: &[&str]) -> AnonResourceLoc {
    AnonResourceLoc::Absolute(path.iter().map(|s| String::from(*s)).collect())
}

fn relative(name: &str) -> AnonResourceLoc {
    AnonResourceLoc::Relative(String::from(name))
}

fn var(name: &str) -> Value {
    Value::Variable(relative(name))
}

fn text(s: &str) -> Value {
    Value::String(String::from(s))
}

fn call(on: Value, path: &[&str], parameters: Vec<Value>) -> Value {
    Value::MethodCall { on: Box::new(on), name: absolute(path), parameters }
}

fn operator(on: Value, owner: &str, name: &str, arg: Value) -> Value {
    call(on, &["std", "operators", owner, name], vec![arg])
}

fn compare(on: Value, arg: Value) -> Value {
    operator(on, "Comparable", "compare", arg)
}

fn new_list() -> Value {
    Value::Constructor { data_type: absolute(&["std", "collections", "List", "new"]), parameters: vec![] }
}

fn push(on: Value, item: Value) -> Value {
    call(on, &["std", "collections", "List", "push"], vec![item])
}

fn new_dict() -> Value {
    Value::Constructor {
        data_type: absolute(&["std", "collections", "Dictionary", "new"]),
        parameters: vec![],
    }
}

fn set_key(on: Value, key: &str, value: Value) -> Value {
    call(on, &["std", "collections", "Dictionary", "setKey"], vec![text(key), value])
}

#[test]
fn compiler_tests_test_parser() {
    for t in COMPILER_EXPR_TESTS {
        println!("{}\n{:?}\n", t, parse_expression(&mut VecDeque::from(tokenizer(t, ResourceLoc::new()).unwrap())).unwrap());
    }
}

#[test]
fn tests_test_parser() {
    for t in EXPR_TESTS {
        println!("{}\n{:?}\n", t, parse_expression(&mut VecDeque::from(tokenizer(t, ResourceLoc::new()).unwrap())).unwrap());
    }
}

#[test]
fn two_plus_two() {
    assert_eq!(
        tokenizer("2 + 2", ResourceLoc::new()).unwrap(),
        vec![Token::Int(2), Token::Sum, Token::Int(2)]
    );
    assert_eq!(parse("2 + 2"), operator(Value::Int(2), "Add", "add", Value::Int(2)));
}

#[test]
fn every_binary_operator_makes_one_node() {
    let plain = [
        ("+", "Add", "add"),
        ("-", "Subtract", "subtract"),
        ("*", "Multiply", "multiply"),
        ("/", "Divide", "divide"),
        ("%", "Modulo", "modulo"),
        ("&&", "Concatenate", "concatenate"),
        ("||", "Concatenate", "concatenate"),
        ("&", "Concatenate", "concatenate"),
    ];
    for (symbol, owner, name) in plain {
        assert_eq!(
            parse(&format!("a {} 7", symbol)),
            operator(var("a"), owner, name, Value::Int(7)),
            "operator {}",
            symbol
        );
    }
    assert_eq!(parse("a == 7"), Value::Equal(Box::new(compare(var("a"), Value::Int(7)))));
    assert_eq!(parse("a != 7"), Value::NotEqual(Box::new(compare(var("a"), Value::Int(7)))));
    assert_eq!(parse("a > 7"), Value::Greater(Box::new(compare(var("a"), Value::Int(7)))));
    assert_eq!(parse("a < 7"), Value::Less(Box::new(compare(var("a"), Value::Int(7)))));
    assert_eq!(parse("a >= 7"), Value::GreaterEqual(Box::new(compare(var("a"), Value::Int(7)))));
    assert_eq!(parse("a <= 7"), Value::LessEqual(Box::new(compare(var("a"), Value::Int(7)))));
}

#[test]
fn operators_that_bind_tighter_are_read_first() {
    assert_eq!(
        parse("1 + 2 * 3"),
        operator(
            Value::Int(1),
            "Add",
            "add",
            operator(Value::Int(2), "Multiply", "multiply", Value::Int(3))
        )
    );
    assert_eq!(
        parse("2 * 3 + 1"),
        operator(
            operator(Value::Int(2), "Multiply", "multiply", Value::Int(3)),
            "Add",
            "add",
            Value::Int(1)
        )
    );
    assert_eq!(
        parse("a < b == c"),
        Value::Equal(Box::new(compare(
            Value::Less(Box::new(compare(var("a"), var("b")))),
            var("c")
        )))
    );
    assert_eq!(
        parse("a & b || c && d"),
        operator(
            var("a"),
            "Concatenate",
            "concatenate",
            operator(
                var("b"),
                "Concatenate",
                "concatenate",
                operator(var("c"), "Concatenate", "concatenate", var("d"))
            )
        )
    );
}

#[test]
fn operators_of_one_level_group_to_the_right() {
    assert_eq!(
        parse("a - b - c"),
        operator(
            var("a"),
            "Subtract",
            "subtract",
            operator(var("b"), "Subtract", "subtract", var("c"))
        )
    );
    assert_eq!(
        parse("a / b % c"),
        operator(var("a"), "Divide", "divide", operator(var("b"), "Modulo", "modulo", var("c")))
    );
}

#[test]
fn literals() {
    assert_eq!(parse("12"), Value::Int(12));
    assert_eq!(parse(".5"), Value::Num(String::from(".5")));
    assert_eq!(parse("\"hi\""), text("hi"));
    assert_eq!(parse("true"), Value::Boolean(true));
    assert_eq!(parse("false"), Value::Boolean(false));
}

#[test]
fn not_before_an_accessor_chain() {
    assert_eq!(
        parse("!a"),
        call(var("a"), &["std", "operators", "Not", "not"], vec![])
    );
    assert_eq!(
        parse("!a.b && c"),
        operator(
            call(
                Value::GetProperty { on: Box::new(var("a")), name: String::from("b") },
                &["std", "operators", "Not", "not"],
                vec![]
            ),
            "Concatenate",
            "concatenate",
            var("c")
        )
    );
    let (kind, rest) = failure("!!a");
    assert_eq!(kind, ErrorType::InvalidTokenError);
    assert_eq!(rest, VecDeque::from(vec![Token::BoolNot, Token::Identifier(String::from("a"))]));
}

#[test]
fn references_to_resources() {
    assert_eq!(parse("var"), var("var"));
    assert_eq!(parse("a::b::c"), Value::Variable(absolute(&["a", "b", "c"])));
    assert_eq!(
        parse("function()"),
        Value::FunctionCall { fun: relative("function"), parameters: vec![] }
    );
    assert_eq!(
        parse("TARGET::giveItems(GEAR_SWORD)"),
        Value::FunctionCall {
            fun: absolute(&["TARGET", "giveItems"]),
            parameters: vec![var("GEAR_SWORD")]
        }
    );
    assert_eq!(
        parse("f(1, 2,)"),
        Value::FunctionCall { fun: relative("f"), parameters: vec![Value::Int(1), Value::Int(2)] }
    );
    let (kind, rest) = failure("a::7");
    assert_eq!(kind, ErrorType::InvalidTokenError);
    assert_eq!(rest, VecDeque::from(vec![Token::Int(7)]));
}

#[test]
fn accessors() {
    assert_eq!(
        parse("myList[2]"),
        call(var("myList"), &["std", "operators", "Accessible", "getKey"], vec![Value::Int(2)])
    );
    assert_eq!(
        parse("myDictionary[\"apple\" & \"2\"]"),
        call(
            var("myDictionary"),
            &["std", "operators", "Accessible", "getKey"],
            vec![operator(text("apple"), "Concatenate", "concatenate", text("2"))]
        )
    );
    assert_eq!(
        parse("var.inside"),
        Value::GetProperty { on: Box::new(var("var")), name: String::from("inside") }
    );
    assert_eq!(
        parse("var.method()"),
        Value::MethodCall { on: Box::new(var("var")), name: relative("method"), parameters: vec![] }
    );
}

#[test]
fn accessors_in_a_chain_apply_from_left_to_right() {
    assert_eq!(
        parse("a.b[1].c(2)"),
        Value::MethodCall {
            on: Box::new(call(
                Value::GetProperty { on: Box::new(var("a")), name: String::from("b") },
                &["std", "operators", "Accessible", "getKey"],
                vec![Value::Int(1)]
            )),
            name: relative("c"),
            parameters: vec![Value::Int(2)]
        }
    );
}

#[test]
fn list_literals() {
    assert_eq!(parse("[]"), new_list());
    assert_eq!(
        parse("[2 + 2]"),
        push(new_list(), operator(Value::Int(2), "Add", "add", Value::Int(2)))
    );
    assert_eq!(
        parse("[2, 3, 4]"),
        push(push(push(new_list(), Value::Int(2)), Value::Int(3)), Value::Int(4))
    );
}

#[test]
fn a_list_of_three_is_a_new_list_and_three_pushes() {
    let mut v = parse("[2, 3, 4]");
    let mut pushed = Vec::new();
    loop {
        match v {
            Value::MethodCall { on, name, mut parameters } => {
                assert_eq!(name, absolute(&["std", "collections", "List", "push"]));
                assert_eq!(parameters.len(), 1);
                pushed.push(parameters.pop().unwrap());
                v = *on;
            }
            Value::Constructor { data_type, parameters } => {
                assert_eq!(data_type, absolute(&["std", "collections", "List", "new"]));
                assert!(parameters.is_empty());
                break;
            }
            other => panic!("neither a push nor a new list: {:?}", other),
        }
    }
    // the outermost push is the last element
    assert_eq!(pushed, vec![Value::Int(4), Value::Int(3), Value::Int(2)]);
}

#[test]
fn a_separator_before_the_closing_bracket_is_accepted() {
    assert_eq!(parse("[2, 3,]"), push(push(new_list(), Value::Int(2)), Value::Int(3)));
    assert_eq!(parse("[,]"), new_list());
    assert_eq!(parse("{ a: 5, }"), set_key(new_dict(), "a", Value::Int(5)));
    assert_eq!(parse("f(x,)"), Value::FunctionCall { fun: relative("f"), parameters: vec![var("x")] });
}

#[test]
fn dictionary_literals() {
    assert_eq!(parse("{}"), new_dict());
    assert_eq!(parse("{ a: 5 }"), set_key(new_dict(), "a", Value::Int(5)));
    assert_eq!(
        parse("{ b : 2, c : 3 }"),
        set_key(set_key(new_dict(), "b", Value::Int(2)), "c", Value::Int(3))
    );
    assert_eq!(
        parse("{ nestedArray: [ 2 + 2 ], nestedDict: { b : 9 } }"),
        set_key(
            set_key(
                new_dict(),
                "nestedArray",
                push(new_list(), operator(Value::Int(2), "Add", "add", Value::Int(2)))
            ),
            "nestedDict",
            set_key(new_dict(), "b", Value::Int(9))
        )
    );
}

#[test]
fn the_queue_is_left_at_the_first_token_after_the_expression() {
    let mut q = queue("a + b ; c");
    let v = parse_expression(&mut q).unwrap();
    assert_eq!(v, operator(var("a"), "Add", "add", var("b")));
    assert_eq!(q, VecDeque::from(vec![Token::Semicolon, Token::Identifier(String::from("c"))]));
    let mut q = queue("f(1) 2");
    assert_eq!(
        parse_expression(&mut q).unwrap(),
        Value::FunctionCall { fun: relative("f"), parameters: vec![Value::Int(1)] }
    );
    assert_eq!(q, VecDeque::from(vec![Token::Int(2)]));
}

#[test]
fn a_missing_closing_bracket_is_an_invalid_token() {
    let mut q = queue("myList[2");
    let e = parse_expression(&mut q).unwrap_err();
    assert_eq!(e.error_type, ErrorType::InvalidTokenError);
    assert!(q.is_empty());
}

#[test]
fn what_does_not_fit_is_an_invalid_token() {
    for code in [
        "",
        "+",
        "a +",
        "a.",
        "a.+",
        "f(",
        "f(1",
        "f(1;",
        "[1, 2",
        "[1 ;]",
        "{",
        "{ a 5 }",
        "{ a: }",
        "{ 5: a }",
        "{ a: 5",
        "a[1)",
        "let",
        ")",
        "a == ",
        "!",
    ] {
        let (kind, _) = failure(code);
        assert_eq!(kind, ErrorType::InvalidTokenError, "source: {:?}", code);
    }
}

#[test]
fn after_a_failure_the_queue_stands_at_the_token_that_did_not_fit() {
    let (_, rest) = failure("{ a 5 }");
    assert_eq!(rest, VecDeque::from(vec![Token::Int(5), Token::CloseBrace]));
    let (_, rest) = failure("a[1)");
    assert_eq!(rest, VecDeque::from(vec![Token::CloseParen]));
    let (_, rest) = failure("a + let");
    assert_eq!(rest, VecDeque::from(vec![Token::VarDef]));
    let (_, rest) = failure("a.+");
    assert_eq!(rest, VecDeque::from(vec![Token::Sum]));
}

#[test]
fn a_parser_error_names_no_place() {
    let mut q = queue(")");
    let e = parse_expression(&mut q).unwrap_err();
    assert_eq!(e.error_type, ErrorType::InvalidTokenError);
    assert_eq!(e.line_num, 0);
    assert_eq!(e.line_index, 0);
    assert_eq!(e.info, "");
    assert_eq!(e.loc, ResourceLoc::new());
}

#[test]
fn a_dot_before_digits_starts_a_decimal() {
    let mut q = queue("a.7");
    assert_eq!(parse_expression(&mut q).unwrap(), var("a"));
    assert_eq!(q, VecDeque::from(vec![Token::Number(String::from(".7"))]));
}

#[test]
fn elements_need_no_separator() {
    assert_eq!(parse("[1 2]"), push(push(new_list(), Value::Int(1)), Value::Int(2)));
}

#[test]
fn a_reference_alone() {
    let mut q = queue("a b");
    assert_eq!(parse_resource_location(&mut q).unwrap(), relative("a"));
    assert_eq!(q, VecDeque::from(vec![Token::Identifier(String::from("b"))]));

    let mut q = queue("std::operators::Add::add(1)");
    assert_eq!(
        parse_resource_location(&mut q).unwrap(),
        absolute(&["std", "operators", "Add", "add"])
    );
    assert_eq!(q, VecDeque::from(vec![Token::OpenParen, Token::Int(1), Token::CloseParen]));

    let mut q = queue("a::");
    assert_eq!(parse_resource_location(&mut q).unwrap_err().error_type, ErrorType::InvalidTokenError);
    assert!(q.is_empty());

    let mut q = queue("7");
    assert_eq!(parse_resource_location(&mut q).unwrap_err().error_type, ErrorType::InvalidTokenError);
    assert_eq!(q, VecDeque::from(vec![Token::Int(7)]));

    let mut q = queue("");
    assert_eq!(parse_resource_location(&mut q).unwrap_err().error_type, ErrorType::InvalidTokenError);
}
