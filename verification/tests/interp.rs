use gem::ast::{ArithOp, CmpOp, Node};
use gem::errors::EvalError;
use gem::eval::run;
use gem::value::Value;

const FUEL: u64 = 100_000;

fn name(s: &str) -> Node {
    Node::Name(s.to_string())
}

fn num(n: i64) -> Node {
    Node::NumLit(n)
}

fn call(f: &str, args: Vec<Node>) -> Node {
    Node::Call(f.to_string(), args)
}

fn print_of(e: Node) -> Node {
    call("print", vec![e])
}

fn lines(tree: Node) -> (Vec<String>, Result<Value, EvalError>) {
    let out = run(&tree, Node::Empty, FUEL);
    (out.lines, out.result)
}

#[test]
fn add_function_prints_five() {
    let body = Node::Block(vec![Node::Return(Box::new(Node::Arith(
        ArithOp::Add,
        Box::new(name("a")),
        Box::new(name("b")),
    )))]);
    let tree = Node::Block(vec![
        Node::FuncDef(
            "add".to_string(),
            vec!["a".to_string(), "b".to_string()],
            std::rc::Rc::new(body),
        ),
        print_of(call("add", vec![num(2), num(3)])),
    ]);
    let (out, _) = lines(tree);
    assert_eq!(out, vec!["5".to_string()]);
}

#[test]
fn array_update_prints_updated() {
    let tree = Node::Block(vec![
        Node::Assign(
            "arr".to_string(),
            Box::new(Node::ArrayLit(vec![num(1), num(2), num(3)])),
        ),
        Node::IndexAssign("arr".to_string(), vec![num(1)], Box::new(num(9))),
        print_of(name("arr")),
    ]);
    let (out, _) = lines(tree);
    assert_eq!(out, vec!["[1, 9, 3]".to_string()]);
}

#[test]
fn constructed_point_prints_first_field() {
    let init_body = Node::Block(vec![
        Node::PropAssign("self".to_string(), "x".to_string(), Box::new(name("x"))),
        Node::PropAssign("self".to_string(), "y".to_string(), Box::new(name("y"))),
    ]);
    let tree = Node::Block(vec![
        Node::ClassDef(
            "Point".to_string(),
            vec![Node::FuncDef(
                "~init".to_string(),
                vec!["self".to_string(), "x".to_string(), "y".to_string()],
                std::rc::Rc::new(init_body),
            )],
        ),
        Node::Assign(
            "p".to_string(),
            Box::new(Node::New("Point".to_string(), vec![num(1), num(2)])),
        ),
        print_of(Node::PropGet(Box::new(name("p")), "x".to_string())),
    ]);
    let (out, _) = lines(tree);
    assert_eq!(out, vec!["1".to_string()]);
}

#[test]
fn while_loop_prints_in_order() {
    let tree = Node::Block(vec![
        Node::Assign("i".to_string(), Box::new(num(0))),
        Node::While(
            Box::new(Node::Cmp(CmpOp::Lt, Box::new(name("i")), Box::new(num(3)))),
            Box::new(Node::Block(vec![
                print_of(name("i")),
                Node::Assign(
                    "i".to_string(),
                    Box::new(Node::Arith(
                        ArithOp::Add,
                        Box::new(name("i")),
                        Box::new(num(1)),
                    )),
                ),
            ])),
        ),
    ]);
    let (out, _) = lines(tree);
    assert_eq!(out, vec!["0".to_string(), "1".to_string(), "2".to_string()]);
}

#[test]
fn arithmetic_matches_machine_results() {
    for (op, expect) in [
        (ArithOp::Add, "10"),
        (ArithOp::Sub, "4"),
        (ArithOp::Mul, "21"),
        (ArithOp::Div, "2"),
    ] {
        let tree = Node::Block(vec![print_of(Node::Arith(
            op,
            Box::new(num(7)),
            Box::new(num(3)),
        ))]);
        let (out, _) = lines(tree);
        assert_eq!(out, vec![expect.to_string()]);
    }
}

#[test]
fn division_by_zero_yields_zero() {
    let tree = Node::Block(vec![print_of(Node::Arith(
        ArithOp::Div,
        Box::new(num(7)),
        Box::new(num(0)),
    ))]);
    let (out, _) = lines(tree);
    assert_eq!(out, vec!["0".to_string()]);
}

#[test]
fn number_and_string_compare_unequal() {
    let tree = Node::Block(vec![print_of(Node::Cmp(
        CmpOp::Eq,
        Box::new(num(1)),
        Box::new(Node::StrLit("1".to_string())),
    ))]);
    let (out, _) = lines(tree);
    assert_eq!(out, vec!["false".to_string()]);
}

#[test]
fn negative_number_renders_with_sign() {
    let tree = Node::Block(vec![print_of(num(-42))]);
    let (out, _) = lines(tree);
    assert_eq!(out, vec!["-42".to_string()]);
}

#[test]
fn string_concatenation_on_left() {
    let tree = Node::Block(vec![print_of(Node::Arith(
        ArithOp::Add,
        Box::new(Node::StrLit("n = ".to_string())),
        Box::new(num(5)),
    ))]);
    let (out, _) = lines(tree);
    assert_eq!(out, vec!["n = 5".to_string()]);
}

#[test]
fn missing_main_is_undefined_error() {
    let tree = Node::Block(vec![]);
    let (_, result) = lines(tree);
    assert!(matches!(result, Err(EvalError::UndefinedError)));
}

#[test]
fn wrong_argument_count_is_arity_error() {
    let body = Node::Block(vec![Node::Return(Box::new(name("a")))]);
    let tree = Node::Block(vec![
        Node::FuncDef("one".to_string(), vec!["a".to_string()], std::rc::Rc::new(body)),
        call("one", vec![num(1), num(2)]),
    ]);
    let (_, result) = lines(tree);
    assert!(matches!(result, Err(EvalError::ArityError)));
}

#[test]
fn constructor_arity_error_iff_count_differs() {
    let init_body = || Node::Block(vec![Node::PropAssign(
        "self".to_string(),
        "x".to_string(),
        Box::new(name("x")),
    )]);
    let make_class = |b: Node| {
        Node::ClassDef(
            "C".to_string(),
            vec![Node::FuncDef(
                "~init".to_string(),
                vec!["self".to_string(), "x".to_string()],
                std::rc::Rc::new(b),
            )],
        )
    };
    let bad = Node::Block(vec![
        make_class(init_body()),
        Node::Assign(
            "c".to_string(),
            Box::new(Node::New("C".to_string(), vec![num(1), num(2)])),
        ),
    ]);
    let (_, result) = lines(bad);
    assert!(matches!(result, Err(EvalError::ArityError)));
    let good = Node::Block(vec![
        make_class(init_body()),
        Node::Assign(
            "c".to_string(),
            Box::new(Node::New("C".to_string(), vec![num(1)])),
        ),
        print_of(Node::PropGet(Box::new(name("c")), "x".to_string())),
    ]);
    let (out, _) = lines(good);
    assert_eq!(out, vec!["1".to_string()]);
}

#[test]
fn out_of_bounds_assignment_is_index_error() {
    let tree = Node::Block(vec![
        Node::Assign(
            "arr".to_string(),
            Box::new(Node::ArrayLit(vec![num(1), num(2)])),
        ),
        Node::IndexAssign("arr".to_string(), vec![num(5)], Box::new(num(9))),
    ]);
    let (_, result) = lines(tree);
    assert!(matches!(result, Err(EvalError::IndexError)));
}

#[test]
fn missing_property_is_property_error() {
    let tree = Node::Block(vec![
        Node::ClassDef("E".to_string(), vec![]),
        Node::Assign(
            "e".to_string(),
            Box::new(Node::New("E".to_string(), vec![])),
        ),
        print_of(Node::PropGet(Box::new(name("e")), "missing".to_string())),
    ]);
    let (_, result) = lines(tree);
    assert!(matches!(result, Err(EvalError::PropertyError)));
}

#[test]
fn property_access_on_number_is_type_error() {
    let tree = Node::Block(vec![print_of(Node::PropGet(
        Box::new(num(3)),
        "x".to_string(),
    ))]);
    let (_, result) = lines(tree);
    assert!(matches!(result, Err(EvalError::TypeError)));
}

#[test]
fn class_body_with_statement_is_unexpected_node() {
    let tree = Node::Block(vec![Node::ClassDef("B".to_string(), vec![num(1)])]);
    let (_, result) = lines(tree);
    assert!(matches!(result, Err(EvalError::UnexpectedNodeError)));
}

#[test]
fn empty_budget_is_step_limit() {
    let out = run(&Node::Block(vec![]), Node::Empty, 0);
    assert!(matches!(out.result, Err(EvalError::StepLimit)));
}

#[test]
fn method_mutation_keeps_caller_binding() {
    let init_body = Node::Block(vec![Node::PropAssign(
        "self".to_string(),
        "x".to_string(),
        Box::new(name("x")),
    )]);
    let method_body = Node::Block(vec![Node::PropAssign(
        "self".to_string(),
        "x".to_string(),
        Box::new(num(99)),
    )]);
    let tree = Node::Block(vec![
        Node::ClassDef(
            "P".to_string(),
            vec![
                Node::FuncDef(
                    "~init".to_string(),
                    vec!["self".to_string(), "x".to_string()],
                    std::rc::Rc::new(init_body),
                ),
                Node::FuncDef(
                    "bump".to_string(),
                    vec!["self".to_string()],
                    std::rc::Rc::new(method_body),
                ),
            ],
        ),
        Node::Assign(
            "p".to_string(),
            Box::new(Node::New("P".to_string(), vec![num(7)])),
        ),
        Node::MethodCall(Box::new(name("p")), "bump".to_string(), vec![]),
        print_of(Node::PropGet(Box::new(name("p")), "x".to_string())),
    ]);
    let (out, _) = lines(tree);
    assert_eq!(out, vec!["7".to_string()]);
}

#[test]
fn run_calls_main_with_argument() {
    let body = Node::Block(vec![
        print_of(name("args")),
        Node::Return(Box::new(num(0))),
    ]);
    let tree = Node::Block(vec![Node::FuncDef(
        "main".to_string(),
        vec!["args".to_string()],
        std::rc::Rc::new(body),
    )]);
    let out = run(&tree, Node::StrLit("hello".to_string()), FUEL);
    assert_eq!(out.lines, vec!["hello".to_string()]);
    assert!(matches!(out.result, Ok(Value::Number(0))));
}

#[test]
fn negative_read_index_reads_first_element() {
    let tree = Node::Block(vec![
        Node::Assign(
            "arr".to_string(),
            Box::new(Node::ArrayLit(vec![num(7), num(8)])),
        ),
        print_of(Node::Index(Box::new(name("arr")), Box::new(num(-1)))),
    ]);
    let (out, _) = lines(tree);
    assert_eq!(out, vec!["7".to_string()]);
}

#[test]
fn negative_read_of_empty_array_is_index_error() {
    let tree = Node::Block(vec![
        Node::Assign("arr".to_string(), Box::new(Node::ArrayLit(vec![]))),
        print_of(Node::Index(Box::new(name("arr")), Box::new(num(-1)))),
    ]);
    let (_, result) = lines(tree);
    assert!(matches!(result, Err(EvalError::IndexError)));
}

#[test]
fn later_method_definition_wins() {
    let first = Node::Block(vec![Node::Return(Box::new(num(1)))]);
    let second = Node::Block(vec![Node::Return(Box::new(num(2)))]);
    let tree = Node::Block(vec![
        Node::ClassDef(
            "D".to_string(),
            vec![
                Node::FuncDef(
                    "f".to_string(),
                    vec!["self".to_string()],
                    std::rc::Rc::new(first),
                ),
                Node::FuncDef(
                    "f".to_string(),
                    vec!["self".to_string()],
                    std::rc::Rc::new(second),
                ),
            ],
        ),
        Node::Assign(
            "d".to_string(),
            Box::new(Node::New("D".to_string(), vec![])),
        ),
        print_of(Node::MethodCall(
            Box::new(name("d")),
            "f".to_string(),
            vec![],
        )),
    ]);
    let (out, _) = lines(tree);
    assert_eq!(out, vec!["2".to_string()]);
}

#[test]
fn render_value_formats_array_directly() {
    let v = Value::Array(vec![
        Value::Number(1),
        Value::Str("two".to_string()),
        Value::Bool(true),
    ]);
    let text = gem::eval::render_value(&v, FUEL).unwrap();
    assert_eq!(text, "[1, \"two\", true]");
}
