use std::cell::RefCell;
use std::rc::Rc;

use jieum::builtins::TorchLayerKind;
use jieum::canvas::{CanvasCommand, ExecutionEvent, ExecutionResult};
use jieum::error::{ErrorKind, RuntimeError};
use jieum::host::{FloatArith, FloatOrder, Host, StreamError, TorchAnswer, TorchRequest};
use jieum::run::{interpret_hir_program, InterpreterSession};
use jieum::syntax::{
    BinaryOp, Expr, KeywordMessage, Program, RecordEntry, ResultiveMessage, SendSelector, Span, Stmt,
    UnaryOp, WordMessage,
};

#[derive(Default)]
struct Log {
    streamed: Vec<String>,
    slept: Vec<f64>,
    networks: Vec<Vec<TorchLayerKind>>,
    loaders: Vec<(usize, i64, bool)>,
    adams: Vec<(usize, usize, f64)>,
    zeroed: Vec<usize>,
    stepped: Vec<usize>,
    forward_modes: Vec<bool>,
    fetched: Vec<(usize, usize, i64, i64)>,
    backward: Vec<usize>,
    write_fails: bool,
    flush_fails: bool,
    mnist_fails: bool,
    mnist_reads: usize,
    adam_fails: bool,
    tensors_not_scalar: bool,
}

struct TestHost {
    log: Rc<RefCell<Log>>,
    clock: f64,
    next_handle: usize,
}

impl TestHost {
    fn new() -> (TestHost, Rc<RefCell<Log>>) {
        let log = Rc::new(RefCell::new(Log::default()));
        (TestHost { log: log.clone(), clock: 0.0, next_handle: 0 }, log)
    }

    fn handle(&mut self) -> usize {
        self.next_handle += 1;
        self.next_handle
    }
}

impl Host for TestHost {
    fn parse_float(&mut self, text: &str) -> Option<u64> {
        text.parse::<f64>().ok().map(f64::to_bits)
    }

    fn float_arith(&mut self, op: FloatArith, a: u64, b: u64) -> u64 {
        let (x, y) = (f64::from_bits(a), f64::from_bits(b));
        let r = match op {
            FloatArith::Add => x + y,
            FloatArith::Subtract => x - y,
            FloatArith::Multiply => x * y,
            FloatArith::Divide => x / y,
        };
        r.to_bits()
    }

    fn int_to_float(&mut self, v: i64) -> u64 {
        (v as f64).to_bits()
    }

    fn float_to_int(&mut self, bits: u64) -> i64 {
        f64::from_bits(bits) as i64
    }

    fn float_compare(&mut self, a: u64, b: u64) -> FloatOrder {
        match f64::from_bits(a).partial_cmp(&f64::from_bits(b)) {
            Some(std::cmp::Ordering::Less) => FloatOrder::Less,
            Some(std::cmp::Ordering::Equal) => FloatOrder::Equal,
            Some(std::cmp::Ordering::Greater) => FloatOrder::Greater,
            None => FloatOrder::Unordered,
        }
    }

    fn render_float(&mut self, bits: u64) -> String {
        let v = f64::from_bits(bits);
        if v.fract() == 0.0 {
            format!("{v:.1}")
        } else {
            v.to_string()
        }
    }

    fn restart_clock(&mut self) {
        self.clock = 0.0;
    }

    fn elapsed_seconds(&mut self) -> u64 {
        self.clock += 0.5;
        self.clock.to_bits()
    }

    fn stream_line(&mut self, text: &str) -> Result<(), StreamError> {
        if self.log.borrow().write_fails {
            return Err(StreamError::Write("disk full".to_string()));
        }
        if self.log.borrow().flush_fails {
            return Err(StreamError::Flush("pipe closed".to_string()));
        }
        self.log.borrow_mut().streamed.push(text.to_string());
        Ok(())
    }

    fn stream_sleep(&mut self, seconds: u64) {
        self.log.borrow_mut().slept.push(f64::from_bits(seconds));
    }

    fn torch(&mut self, request: &TorchRequest) -> TorchAnswer {
        let mut answer = TorchAnswer { handle: 0, count: 0, failure: None };
        match request {
            TorchRequest::BuildNetwork { layers, .. } => self.log.borrow_mut().networks.push(layers.clone()),
            TorchRequest::LoadMnistFiles => {
                self.log.borrow_mut().mnist_reads += 1;
                if self.log.borrow().mnist_fails {
                    answer.failure = Some("MNIST 데이터를 불러오지 못했습니다.".to_string());
                }
            }
            TorchRequest::LoadMnist { train, .. } => {
                answer.count = if *train { 100 } else { 10 };
            }
            TorchRequest::BuildLoader { loader, count, shuffle } => {
                self.log.borrow_mut().loaders.push((*loader, *count, *shuffle))
            }
            TorchRequest::BuildAdam { optimizer, model, learning_rate } => {
                if self.log.borrow().adam_fails {
                    answer.failure = Some("no parameters".to_string());
                } else {
                    self.log.borrow_mut().adams.push((*optimizer, *model, f64::from_bits(*learning_rate)));
                }
            }
            TorchRequest::ZeroGrad { optimizer } => self.log.borrow_mut().zeroed.push(*optimizer),
            TorchRequest::OptimizerStep { optimizer } => self.log.borrow_mut().stepped.push(*optimizer),
            TorchRequest::Forward { training, .. } => {
                self.log.borrow_mut().forward_modes.push(*training);
                answer.handle = self.handle();
            }
            TorchRequest::CrossEntropy { .. } => answer.handle = self.handle(),
            TorchRequest::Backward { tensor } => self.log.borrow_mut().backward.push(*tensor),
            TorchRequest::FetchBatch { loader, dataset, start, count } => {
                self.log.borrow_mut().fetched.push((*loader, *dataset, *start, *count));
                answer.handle = self.handle();
            }
            TorchRequest::ArgMax { .. } => answer.handle = self.handle(),
            TorchRequest::CountEqual { .. } => answer.count = 7,
        }
        answer
    }

    fn batch_part(&mut self, _batch: usize, _labels: bool) -> usize {
        self.handle()
    }

    fn tensor_first_dim(&mut self, _tensor: usize) -> i64 {
        32
    }

    fn tensor_scalar(&mut self, _tensor: usize) -> Option<u64> {
        if self.log.borrow().tensors_not_scalar {
            return None;
        }
        Some(0.25f64.to_bits())
    }
}

// ----- building programs -----

fn at(line: usize) -> Option<Span> {
    Some(Span { line, column: 1 })
}

fn name(n: &str) -> Expr {
    Expr::Name { name: n.to_string(), span: None }
}

fn num(v: i64) -> Expr {
    Expr::Int { raw: v.to_string(), span: None }
}

fn raw_int(raw: &str) -> Expr {
    Expr::Int { raw: raw.to_string(), span: at(9) }
}

fn float(raw: &str) -> Expr {
    Expr::Float { raw: raw.to_string(), span: None }
}

fn text(s: &str) -> Expr {
    Expr::Str { value: s.to_string(), span: None }
}

fn boolean(b: bool) -> Expr {
    Expr::Bool { value: b, span: None }
}

fn nothing() -> Expr {
    Expr::Nothing { span: None }
}

fn list(items: Vec<Expr>) -> Expr {
    Expr::List { items, span: None }
}

fn record(entries: Vec<(&str, Expr)>) -> Expr {
    Expr::Record {
        entries: entries.into_iter().map(|(k, v)| RecordEntry { key: k.to_string(), value: v }).collect(),
        span: None,
    }
}

fn bin(left: Expr, op: BinaryOp, right: Expr) -> Expr {
    Expr::Binary { left: Box::new(left), op, right: Box::new(right), span: None }
}

fn neg(e: Expr) -> Expr {
    Expr::Unary { op: UnaryOp::Negate, expr: Box::new(e), span: None }
}

fn not(e: Expr) -> Expr {
    Expr::Unary { op: UnaryOp::Not, expr: Box::new(e), span: None }
}

fn call(f: &str, args: Vec<Expr>) -> Expr {
    Expr::Call { callee: Box::new(name(f)), args, span: None }
}

fn send(recv: Expr, selector: SendSelector, args: Vec<Expr>) -> Expr {
    Expr::Send { receiver: Box::new(recv), selector, args, span: None }
}

fn prop(recv: Expr, p: &str) -> Expr {
    send(recv, SendSelector::Property(p.to_string()), vec![])
}

fn index(base: Expr, i: Expr) -> Expr {
    Expr::Index { base: Box::new(base), index: Box::new(i), span: None }
}

fn bind(n: &str, e: Expr) -> Stmt {
    Stmt::Bind { name: n.to_string(), value: e, span: at(1) }
}

fn assign(n: &str, e: Expr) -> Stmt {
    Stmt::Assign { name: n.to_string(), value: e, span: at(2) }
}

fn print(e: Expr) -> Stmt {
    Stmt::Print { value: e, span: at(3) }
}

fn sleep(e: Expr) -> Stmt {
    Stmt::Sleep { duration_seconds: e, span: at(4) }
}

fn ret(e: Expr) -> Stmt {
    Stmt::Return { value: e, span: at(5) }
}

fn if_else(c: Expr, then_block: Vec<Stmt>, else_block: Option<Vec<Stmt>>) -> Stmt {
    Stmt::If { condition: c, then_block, else_block, span: at(6) }
}

fn while_loop(c: Expr, body: Vec<Stmt>) -> Stmt {
    Stmt::While { condition: c, body, span: at(7) }
}

fn def(n: &str, params: &[&str], body: Vec<Stmt>) -> Stmt {
    Stmt::FunctionDef {
        name: n.to_string(),
        params: params.iter().map(|p| p.to_string()).collect(),
        body: Rc::new(body),
        span: at(8),
    }
}

fn send_stmt(recv: Expr, selector: SendSelector, args: Vec<Expr>) -> Stmt {
    Stmt::Send { receiver: recv, selector, args, span: at(10) }
}

fn named_call(f: &str, args: Expr) -> Stmt {
    Stmt::NamedCall { callee: name(f), named_args: args, span: at(11) }
}

fn expr_stmt(e: Expr) -> Stmt {
    Stmt::Expr { expr: e, span: at(12) }
}

fn run(statements: Vec<Stmt>) -> Result<ExecutionResult, RuntimeError> {
    let (host, _) = TestHost::new();
    interpret_hir_program(host, &Program { statements })
}

fn output(statements: Vec<Stmt>) -> Vec<String> {
    match run(statements) {
        Ok(result) => result.output,
        Err(e) => panic!("program failed: {}", e.message()),
    }
}

fn failure(statements: Vec<Stmt>) -> RuntimeError {
    match run(statements) {
        Ok(result) => panic!("program succeeded with {:?}", result.output),
        Err(e) => e,
    }
}

fn lines(items: &[&str]) -> Vec<String> {
    items.iter().map(|s| s.to_string()).collect()
}

// ----- values and operators -----

#[test]
fn prints_integer_arithmetic() {
    assert_eq!(
        output(vec![
            print(bin(num(1), BinaryOp::Add, num(2))),
            print(bin(num(7), BinaryOp::Subtract, num(10))),
            print(bin(num(6), BinaryOp::Multiply, num(7))),
            print(bin(num(-7), BinaryOp::Divide, num(2))),
            print(bin(num(-7), BinaryOp::Modulo, num(2))),
        ]),
        lines(&["3", "-3", "42", "-3", "-1"])
    );
}

#[test]
fn doubles_print_with_one_decimal_when_whole() {
    assert_eq!(
        output(vec![
            print(float("1.5")),
            print(bin(float("1.0"), BinaryOp::Add, float("2.0"))),
            print(bin(num(1), BinaryOp::Add, float("0.5"))),
            print(bin(float("3.0"), BinaryOp::Divide, num(2))),
        ]),
        lines(&["1.5", "3.0", "1.5", "1.5"])
    );
}

#[test]
fn strings_concatenate_and_scalars_print_in_korean() {
    assert_eq!(
        output(vec![
            print(bin(text("지"), BinaryOp::Add, text("음"))),
            print(boolean(true)),
            print(boolean(false)),
            print(nothing()),
            print(not(boolean(true))),
            print(neg(num(5))),
            print(neg(float("2.5"))),
        ]),
        lines(&["지음", "참", "거짓", "없음", "거짓", "-5", "-2.5"])
    );
}

#[test]
fn integer_arithmetic_wraps() {
    assert_eq!(
        output(vec![print(bin(num(i64::MAX), BinaryOp::Add, num(1)))]),
        lines(&["-9223372036854775808"])
    );
}

#[test]
fn division_by_zero_is_an_error() {
    let e = failure(vec![print(bin(num(1), BinaryOp::Divide, num(0)))]);
    assert!(matches!(e.kind, ErrorKind::DivisionByZero));
    assert_eq!(e.message(), "정수를 0으로 나눌 수 없습니다.");
    assert_eq!(e.span, at(3));
    let e = failure(vec![print(bin(num(1), BinaryOp::Modulo, num(0)))]);
    assert!(matches!(e.kind, ErrorKind::DivisionByZero));
}

#[test]
fn overflowing_division_is_an_error() {
    let e = failure(vec![print(bin(num(i64::MIN), BinaryOp::Divide, num(-1)))]);
    assert!(matches!(e.kind, ErrorKind::IntegerOverflow));
    assert_eq!(e.message(), "정수 연산 결과가 범위를 벗어났습니다.");
}

#[test]
fn operator_type_errors() {
    let e = failure(vec![print(bin(num(1), BinaryOp::Add, text("a")))]);
    assert!(matches!(e.kind, ErrorKind::AddMismatch));
    assert_eq!(e.message(), "`+`는 숫자끼리 또는 문자열끼리만 사용할 수 있습니다.");
    let e = failure(vec![print(bin(text("a"), BinaryOp::Subtract, num(1)))]);
    assert!(matches!(e.kind, ErrorKind::NumericMismatch));
    let e = failure(vec![print(bin(float("1.0"), BinaryOp::Modulo, num(1)))]);
    assert!(matches!(e.kind, ErrorKind::ModuloNonInt));
    let e = failure(vec![print(bin(text("a"), BinaryOp::Less, text("b")))]);
    assert!(matches!(e.kind, ErrorKind::ComparisonMismatch));
    let e = failure(vec![print(bin(num(1), BinaryOp::And, boolean(true)))]);
    assert!(matches!(e.kind, ErrorKind::AndNonBool));
    let e = failure(vec![print(bin(num(1), BinaryOp::Or, boolean(true)))]);
    assert!(matches!(e.kind, ErrorKind::OrNonBool));
    let e = failure(vec![print(neg(text("a")))]);
    assert!(matches!(e.kind, ErrorKind::NegateNonNumber));
    let e = failure(vec![print(not(num(1)))]);
    assert!(matches!(e.kind, ErrorKind::NotNonBool));
}

#[test]
fn comparisons_and_logic() {
    assert_eq!(
        output(vec![
            print(bin(num(1), BinaryOp::Less, num(2))),
            print(bin(num(2), BinaryOp::LessEqual, num(2))),
            print(bin(num(1), BinaryOp::Greater, float("1.5"))),
            print(bin(float("2.5"), BinaryOp::GreaterEqual, num(2))),
            print(bin(boolean(true), BinaryOp::And, boolean(false))),
            print(bin(boolean(true), BinaryOp::Or, boolean(false))),
        ]),
        lines(&["참", "참", "거짓", "참", "거짓", "참"])
    );
}

#[test]
fn equality_compares_contents() {
    assert_eq!(
        output(vec![
            print(bin(list(vec![num(1), num(2)]), BinaryOp::Equal, list(vec![num(1), num(2)]))),
            print(bin(list(vec![num(1)]), BinaryOp::Equal, list(vec![num(1), num(2)]))),
            print(bin(record(vec![("a", num(1))]), BinaryOp::Equal, record(vec![("a", num(1))]))),
            print(bin(record(vec![("a", num(1))]), BinaryOp::Equal, record(vec![("b", num(1))]))),
            print(bin(num(1), BinaryOp::Equal, float("1.0"))),
            print(bin(text("a"), BinaryOp::NotEqual, text("b"))),
            print(bin(nothing(), BinaryOp::Equal, nothing())),
            print(bin(num(1), BinaryOp::Equal, text("1"))),
        ]),
        lines(&["참", "거짓", "참", "거짓", "참", "참", "참", "거짓"])
    );
}

#[test]
fn equality_is_symmetric_on_examples() {
    let out = output(vec![
        bind("r", record(vec![("x", num(1)), ("y", num(2))])),
        bind("s", record(vec![("y", num(2)), ("z", num(1))])),
        bind("l", list(vec![num(1), float("2.0")])),
        bind("m", list(vec![num(1), num(2)])),
        print(bin(name("r"), BinaryOp::Equal, name("s"))),
        print(bin(name("s"), BinaryOp::Equal, name("r"))),
        print(bin(name("l"), BinaryOp::Equal, name("m"))),
        print(bin(name("m"), BinaryOp::Equal, name("l"))),
        print(bin(num(3), BinaryOp::Equal, text("3"))),
        print(bin(text("3"), BinaryOp::Equal, num(3))),
    ]);
    assert_eq!(out, lines(&["거짓", "거짓", "참", "참", "거짓", "거짓"]));
}

#[test]
fn lists_and_records_render() {
    assert_eq!(
        output(vec![
            print(list(vec![num(1), text("둘"), boolean(true)])),
            print(record(vec![("이름", text("철수")), ("나이", num(3))])),
            print(record(vec![("a", num(1)), ("a", num(2))])),
            print(list(vec![])),
        ]),
        lines(&["[1, 둘, 참]", "{ 나이: 3, 이름: 철수 }", "{ a: 2 }", "[]"])
    );
}

#[test]
fn functions_and_host_values_render() {
    assert_eq!(
        output(vec![
            def("f", &[], vec![]),
            print(name("f")),
            print(name("길이")),
            print(name("그림판")),
            print(call("평탄화", vec![])),
            print(call("교차엔트로피손실", vec![])),
        ]),
        lines(&["<함수>", "<내장 함수 길이>", "<그림판>", "<레이어 평탄화>", "<손실함수>"])
    );
}

#[test]
fn literals_that_do_not_parse() {
    let e = failure(vec![print(raw_int("99999999999999999999"))]);
    assert!(matches!(e.kind, ErrorKind::InvalidIntLiteral { .. }));
    assert_eq!(e.message(), "정수 리터럴 `99999999999999999999`를 해석할 수 없습니다.");
    assert_eq!(e.span, at(9));
    let e = failure(vec![print(float("1.2.3"))]);
    assert!(matches!(e.kind, ErrorKind::InvalidFloatLiteral { .. }));
}

// ----- names and scopes -----

#[test]
fn binding_then_reading_gives_the_value() {
    assert_eq!(output(vec![bind("x", num(1)), print(name("x"))]), lines(&["1"]));
}

#[test]
fn assignment_changes_the_outer_binding() {
    assert_eq!(
        output(vec![
            bind("x", num(1)),
            def("바꾸기", &[], vec![assign("x", num(5))]),
            expr_stmt(call("바꾸기", vec![])),
            print(name("x")),
        ]),
        lines(&["5"])
    );
}

#[test]
fn rebinding_in_the_same_scope_is_an_error() {
    let e = failure(vec![bind("x", num(1)), bind("x", num(2))]);
    assert!(matches!(e.kind, ErrorKind::AlreadyDefined { .. }));
    assert_eq!(e.message(), "`x`은(는) 현재 스코프에 이미 정의되어 있습니다.");
    assert_eq!(e.span, at(1));
    let e = failure(vec![bind("f", num(1)), def("f", &[], vec![])]);
    assert!(matches!(e.kind, ErrorKind::AlreadyDefined { .. }));
}

#[test]
fn undefined_names() {
    let e = failure(vec![print(name("없는이름"))]);
    assert!(matches!(e.kind, ErrorKind::Undefined { .. }));
    assert_eq!(e.message(), "`없는이름`은(는) 아직 정의되지 않았습니다.");
    assert_eq!(e.span, at(3));
    let e = failure(vec![assign("y", num(1))]);
    assert!(matches!(e.kind, ErrorKind::AssignUndefined { .. }));
    assert_eq!(e.message(), "`y`를 바꿀 수 없습니다. 이 이름이 현재 스코프에 없습니다.");
}

#[test]
fn parameters_shadow_globals() {
    assert_eq!(
        output(vec![
            bind("x", num(1)),
            def("f", &["x"], vec![ret(bin(name("x"), BinaryOp::Multiply, num(10)))]),
            print(call("f", vec![num(7)])),
            print(name("x")),
        ]),
        lines(&["70", "1"])
    );
}

#[test]
fn closures_see_their_defining_scope() {
    assert_eq!(
        output(vec![
            def(
                "만들기",
                &["n"],
                vec![def("더하기", &["m"], vec![ret(bin(name("n"), BinaryOp::Add, name("m")))]), ret(name("더하기"))],
            ),
            bind("셋더하기", call("만들기", vec![num(3)])),
            print(call("셋더하기", vec![num(4)])),
        ]),
        lines(&["7"])
    );
}

// ----- control flow -----

#[test]
fn if_and_else() {
    assert_eq!(
        output(vec![
            if_else(boolean(true), vec![print(text("예"))], Some(vec![print(text("아니오"))])),
            if_else(boolean(false), vec![print(text("예"))], Some(vec![print(text("아니오"))])),
            if_else(boolean(false), vec![print(text("예"))], None),
        ]),
        lines(&["예", "아니오"])
    );
    let e = failure(vec![if_else(num(1), vec![], None)]);
    assert!(matches!(e.kind, ErrorKind::ConditionNotBool));
    assert_eq!(e.span, at(6));
}

#[test]
fn while_loops_until_false() {
    assert_eq!(
        output(vec![
            bind("i", num(0)),
            while_loop(
                bin(name("i"), BinaryOp::Less, num(3)),
                vec![print(name("i")), assign("i", bin(name("i"), BinaryOp::Add, num(1)))],
            ),
        ]),
        lines(&["0", "1", "2"])
    );
    let e = failure(vec![while_loop(text("참"), vec![])]);
    assert!(matches!(e.kind, ErrorKind::LoopConditionNotBool));
    assert_eq!(e.message(), "반복 조건식은 `참` 또는 `거짓`이어야 합니다.");
}

#[test]
fn recursion_computes_factorial() {
    let body = vec![if_else(
        bin(name("n"), BinaryOp::LessEqual, num(1)),
        vec![ret(num(1))],
        Some(vec![ret(bin(name("n"), BinaryOp::Multiply, call("계승", vec![bin(name("n"), BinaryOp::Subtract, num(1))])))]),
    )];
    assert_eq!(output(vec![def("계승", &["n"], body), print(call("계승", vec![num(10)]))]), lines(&["3628800"]));
}

#[test]
fn return_ends_a_function_early_and_a_function_without_return_gives_nothing() {
    assert_eq!(
        output(vec![
            def("f", &[], vec![ret(num(1)), print(text("not reached"))]),
            def("g", &[], vec![]),
            print(call("f", vec![])),
            print(call("g", vec![])),
        ]),
        lines(&["1", "없음"])
    );
}

#[test]
fn return_outside_a_function_is_an_error() {
    let e = failure(vec![ret(num(1))]);
    assert!(matches!(e.kind, ErrorKind::ReturnOutsideFunction));
    assert_eq!(e.message(), "`돌려준다`는 함수 본문 안에서만 사용할 수 있습니다.");
}

// ----- calls -----

#[test]
fn calling_with_the_wrong_number_of_arguments() {
    let e = failure(vec![def("f", &["a"], vec![]), expr_stmt(call("f", vec![]))]);
    assert!(matches!(e.kind, ErrorKind::ArgumentCountMismatch { expected: 1, actual: 0 }));
    assert_eq!(e.message(), "함수 인수 개수가 맞지 않습니다. 기대: 1, 실제: 0");
    let e = failure(vec![expr_stmt(call("길이", vec![]))]);
    assert!(matches!(e.kind, ErrorKind::ArityMismatch { expected: 1, actual: 0, .. }));
    assert_eq!(e.message(), "`길이` 함수 인수 개수가 맞지 않습니다. 기대: 1, 실제: 0");
    assert_eq!(e.call_stack.len(), 1);
    assert_eq!(e.call_stack[0].name, "길이");
}

#[test]
fn calling_a_non_function() {
    let e = failure(vec![bind("x", num(1)), expr_stmt(call("x", vec![]))]);
    assert!(matches!(e.kind, ErrorKind::NotCallable));
    assert_eq!(e.message(), "호출할 수 없는 값을 호출했습니다.");
}

#[test]
fn errors_inside_calls_record_the_call() {
    let e = failure(vec![def("f", &[], vec![print(name("없음이름"))]), expr_stmt(call("f", vec![]))]);
    assert!(matches!(e.kind, ErrorKind::Undefined { .. }));
    assert_eq!(e.call_stack.len(), 1);
    assert_eq!(e.call_stack[0].name, "f");
}

#[test]
fn named_calls_match_arguments_by_name() {
    assert_eq!(
        output(vec![
            def("빼기", &["a", "b"], vec![print(bin(name("a"), BinaryOp::Subtract, name("b")))]),
            named_call("빼기", record(vec![("b", num(2)), ("a", num(10))])),
        ]),
        lines(&["8"])
    );
    let e = failure(vec![def("f", &["a"], vec![]), named_call("f", record(vec![("a", num(1)), ("c", num(2))]))]);
    assert!(matches!(e.kind, ErrorKind::UnknownNamedArgument { .. }));
    assert_eq!(e.message(), "`f` 함수에는 `c` 인수가 없습니다.");
    let e = failure(vec![def("f", &["a", "b"], vec![]), named_call("f", record(vec![("a", num(1))]))]);
    assert!(matches!(e.kind, ErrorKind::MissingNamedArgument { .. }));
    assert_eq!(e.message(), "`f` 함수 호출에 `b` 인수가 필요합니다.");
    let e = failure(vec![named_call("길이", record(vec![]))]);
    assert!(matches!(e.kind, ErrorKind::NamedCallOnBuiltin { .. }));
    assert_eq!(e.message(), "`길이`에는 아직 이름 붙은 호출을 사용할 수 없습니다.");
    let e = failure(vec![def("f", &[], vec![]), named_call("f", num(1))]);
    assert!(matches!(e.kind, ErrorKind::ArgumentNotRecord { .. }));
    let e = failure(vec![bind("x", num(1)), named_call("x", record(vec![]))]);
    assert!(matches!(e.kind, ErrorKind::NotCallable));
}

// ----- builtins -----

#[test]
fn length_of_lists_strings_and_records() {
    assert_eq!(
        output(vec![
            print(call("길이", vec![list(vec![num(1), num(2), num(3)])])),
            print(call("길이", vec![text("한글")])),
            print(call("길이", vec![record(vec![("a", num(1))])])),
        ]),
        lines(&["3", "2", "1"])
    );
    let e = failure(vec![print(call("길이", vec![num(1)]))]);
    assert!(matches!(e.kind, ErrorKind::LengthUnsupported));
}

#[test]
fn push_then_pop_gives_the_value_back() {
    assert_eq!(
        output(vec![
            bind("l", list(vec![num(1)])),
            expr_stmt(call("추가", vec![name("l"), num(2)])),
            print(name("l")),
            print(call("마지막꺼내기", vec![name("l")])),
            print(name("l")),
        ]),
        lines(&["[1, 2]", "2", "[1]"])
    );
    let e = failure(vec![expr_stmt(call("마지막꺼내기", vec![list(vec![])]))]);
    assert!(matches!(e.kind, ErrorKind::PopLastFromEmpty));
    let e = failure(vec![expr_stmt(call("마지막꺼내기", vec![num(1)]))]);
    assert!(matches!(e.kind, ErrorKind::PopLastNotList));
    let e = failure(vec![expr_stmt(call("추가", vec![num(1), num(2)]))]);
    assert!(matches!(e.kind, ErrorKind::PushTargetNotList));
}

#[test]
fn conversions() {
    assert_eq!(
        output(vec![
            print(bin(call("문자열로", vec![num(12)]), BinaryOp::Add, text("개"))),
            print(bin(call("정수로", vec![text("42")]), BinaryOp::Add, num(1))),
            print(call("정수로", vec![float("3.9")])),
            print(call("실수로", vec![num(3)])),
            print(call("실수로", vec![text("0.5")])),
        ]),
        lines(&["12개", "43", "3", "3.0", "0.5"])
    );
    let e = failure(vec![print(call("정수로", vec![text("x")]))]);
    assert!(matches!(e.kind, ErrorKind::StringToInt));
    let e = failure(vec![print(call("정수로", vec![nothing()]))]);
    assert!(matches!(e.kind, ErrorKind::ToIntUnsupported));
    let e = failure(vec![print(call("실수로", vec![text("x")]))]);
    assert!(matches!(e.kind, ErrorKind::StringToFloat));
    let e = failure(vec![print(call("실수로", vec![nothing()]))]);
    assert!(matches!(e.kind, ErrorKind::ToFloatUnsupported));
}

#[test]
fn current_time_reads_the_host_clock() {
    assert_eq!(
        output(vec![
            bind("시작", call("현재시간초", vec![])),
            bind("끝", call("현재시간초", vec![])),
            print(bin(name("끝"), BinaryOp::Subtract, name("시작"))),
        ]),
        lines(&["0.5"])
    );
}

#[test]
fn aliases_are_the_same_builtins() {
    assert_eq!(
        output(vec![print(name("스텝")), print(name("데이터로더만들기")), print(name("숫자손글씨데이터셋만들기"))]),
        lines(&["<내장 함수 매개변수갱신>", "<내장 함수 데이터로더>", "<내장 함수 숫자손글씨데이터셋>"])
    );
}

// ----- properties, messages, indexing -----

#[test]
fn properties_and_unary_messages() {
    assert_eq!(
        output(vec![
            bind("사람", record(vec![("이름", text("영희"))])),
            print(prop(name("사람"), "이름")),
            print(prop(name("사람"), "길이")),
            print(prop(list(vec![num(1), num(2)]), "길이")),
            print(prop(text("세글자"), "길이")),
            print(prop(num(4), "제곱")),
            print(prop(float("1.5"), "제곱")),
        ]),
        lines(&["영희", "1", "2", "3", "16", "2.25"])
    );
    let e = failure(vec![print(prop(record(vec![]), "없는것"))]);
    assert!(matches!(e.kind, ErrorKind::NoProperty { .. }));
    assert_eq!(e.message(), "이 값에는 `없는것` 속성이 없습니다.");
    let e = failure(vec![print(prop(num(1), "길이"))]);
    assert!(matches!(e.kind, ErrorKind::IntNoLength));
    let e = failure(vec![print(prop(float("1.0"), "길이"))]);
    assert!(matches!(e.kind, ErrorKind::FloatNoLength));
    let e = failure(vec![print(prop(list(vec![]), "제곱"))]);
    assert!(matches!(e.kind, ErrorKind::ListNoSquare));
    let e = failure(vec![print(prop(text("a"), "제곱"))]);
    assert!(matches!(e.kind, ErrorKind::StringNoSquare));
    let e = failure(vec![print(prop(record(vec![]), "제곱"))]);
    assert_eq!(e.message(), "이 값에는 `제곱` 속성이 없습니다.");
    let e = failure(vec![print(prop(boolean(true), "길이"))]);
    assert_eq!(e.message(), "이 값에는 `길이` 속성이 없습니다.");
}

#[test]
fn word_messages_do_arithmetic() {
    assert_eq!(
        output(vec![
            print(send(num(2), SendSelector::Word(WordMessage::Add), vec![num(3)])),
            print(send(num(2), SendSelector::Word(WordMessage::Subtract), vec![num(3)])),
            print(send(num(2), SendSelector::Word(WordMessage::Multiply), vec![num(3)])),
            print(send(num(7), SendSelector::Word(WordMessage::Divide), vec![num(2)])),
        ]),
        lines(&["5", "-1", "6", "3"])
    );
    let e = failure(vec![print(send(num(2), SendSelector::Word(WordMessage::Add), vec![]))]);
    assert!(matches!(e.kind, ErrorKind::ArityMismatch { expected: 1, actual: 0, .. }));
    assert_eq!(e.message(), "`더하기` 함수 인수 개수가 맞지 않습니다. 기대: 1, 실제: 0");
}

#[test]
fn transform_messages_call_a_function_on_the_receiver() {
    assert_eq!(
        output(vec![
            def("두배", &["x"], vec![ret(bin(name("x"), BinaryOp::Multiply, num(2)))]),
            print(send(num(21), SendSelector::Transform("두배".to_string()), vec![])),
        ]),
        lines(&["42"])
    );
    let e = failure(vec![print(send(num(1), SendSelector::Transform("없음".to_string()), vec![]))]);
    assert!(matches!(e.kind, ErrorKind::Undefined { .. }));
    let e = failure(vec![print(send(num(1), SendSelector::Transform("길이".to_string()), vec![num(2)]))]);
    assert!(matches!(e.kind, ErrorKind::TransformWithArguments));
    let e = failure(vec![print(send(num(1), SendSelector::Property("길이".to_string()), vec![num(2)]))]);
    assert!(matches!(e.kind, ErrorKind::PropertyWithArguments));
    let e = failure(vec![print(send(list(vec![]), SendSelector::Keyword(KeywordMessage::Push), vec![num(2)]))]);
    assert!(matches!(e.kind, ErrorKind::KeywordInExpression));
}

#[test]
fn resultive_messages_take_from_lists() {
    assert_eq!(
        output(vec![
            bind("l", list(vec![num(1), num(2), num(3)])),
            print(send(name("l"), SendSelector::Resultive(ResultiveMessage::PopFrontElement), vec![])),
            print(send(name("l"), SendSelector::Resultive(ResultiveMessage::PopBackElement), vec![])),
            print(name("l")),
            send_stmt(name("l"), SendSelector::Resultive(ResultiveMessage::PopTopElement), vec![]),
            print(name("l")),
        ]),
        lines(&["1", "3", "[2]", "[]"])
    );
    let e = failure(vec![print(send(list(vec![]), SendSelector::Resultive(ResultiveMessage::PopTopElement), vec![]))]);
    assert!(matches!(e.kind, ErrorKind::PopFromEmpty { .. }));
    assert_eq!(e.message(), "빈 목록에서는 맨 위 값를 꺼낼 수 없습니다.");
    let e = failure(vec![print(send(num(1), SendSelector::Resultive(ResultiveMessage::PopFrontElement), vec![]))]);
    assert!(matches!(e.kind, ErrorKind::ResultiveNotList { .. }));
    let e = failure(vec![print(send(list(vec![num(1)]), SendSelector::Resultive(ResultiveMessage::PopFrontElement), vec![num(1)]))]);
    assert!(matches!(e.kind, ErrorKind::ResultiveWithArguments));
}

#[test]
fn keyword_messages_in_statements() {
    assert_eq!(
        output(vec![
            bind("l", list(vec![])),
            send_stmt(name("l"), SendSelector::Keyword(KeywordMessage::Push), vec![num(9)]),
            print(name("l")),
        ]),
        lines(&["[9]"])
    );
    let e = failure(vec![send_stmt(num(1), SendSelector::Keyword(KeywordMessage::Push), vec![num(9)])]);
    assert!(matches!(e.kind, ErrorKind::PushMessageNotList));
    let e = failure(vec![send_stmt(list(vec![]), SendSelector::Keyword(KeywordMessage::Push), vec![])]);
    assert!(matches!(e.kind, ErrorKind::ArityMismatch { expected: 1, actual: 0, .. }));
    let e = failure(vec![send_stmt(num(1), SendSelector::Keyword(KeywordMessage::CanvasDot), vec![record(vec![])])]);
    assert!(matches!(e.kind, ErrorKind::CanvasOnlyMessage { .. }));
    assert_eq!(e.message(), "`점찍기` 메시지는 그림판에만 보낼 수 있습니다.");
    let e = failure(vec![send_stmt(num(1), SendSelector::Property("길이".to_string()), vec![])]);
    assert!(matches!(e.kind, ErrorKind::MessageNotStatement));
}

#[test]
fn indexing_lists_and_strings() {
    assert_eq!(
        output(vec![
            print(index(list(vec![num(10), num(20), num(30)]), num(1))),
            print(index(text("한글"), num(1))),
        ]),
        lines(&["20", "글"])
    );
    let e = failure(vec![print(index(list(vec![num(1)]), num(1)))]);
    assert!(matches!(e.kind, ErrorKind::ListIndexOutOfRange));
    let e = failure(vec![print(index(text("a"), num(3)))]);
    assert!(matches!(e.kind, ErrorKind::StringIndexOutOfRange));
    let e = failure(vec![print(index(list(vec![num(1)]), num(-1)))]);
    assert!(matches!(e.kind, ErrorKind::NegativeIndex));
    assert_eq!(e.message(), "인덱스는 0 이상의 정수여야 합니다.");
    let e = failure(vec![print(index(num(5), num(0)))]);
    assert!(matches!(e.kind, ErrorKind::NotIndexable));
}

// ----- canvas, sleep and the record of a run -----

fn canvas(message: KeywordMessage, fields: Vec<(&str, Expr)>) -> Stmt {
    send_stmt(name("그림판"), SendSelector::Keyword(message), vec![record(fields)])
}

#[test]
fn canvas_commands_are_grouped_into_frames() {
    let result = run(vec![
        canvas(KeywordMessage::CanvasClear, vec![("배경색", text("black"))]),
        canvas(KeywordMessage::CanvasDot, vec![("x", num(1)), ("y", float("2.5")), ("색", text("red"))]),
        canvas(KeywordMessage::CanvasClear, vec![("색", text("white"))]),
        canvas(
            KeywordMessage::CanvasFillRect,
            vec![("x", num(0)), ("y", num(0)), ("너비", num(3)), ("높이", num(4)), ("색", text("blue"))],
        ),
        canvas(
            KeywordMessage::CanvasFillText,
            vec![("글", text("안녕")), ("x", num(5)), ("y", num(6)), ("색", text("green")), ("크기", num(12))],
        ),
    ])
    .unwrap();
    assert_eq!(result.canvas_frames.len(), 2);
    assert_eq!(result.canvas_frames[0].commands.len(), 2);
    match &result.canvas_frames[0].commands[1] {
        CanvasCommand::Dot { x, y, color, size } => {
            assert_eq!(f64::from_bits(*x), 1.0);
            assert_eq!(f64::from_bits(*y), 2.5);
            assert_eq!(color, "red");
            assert_eq!(f64::from_bits(*size), 8.0);
        }
        other => panic!("unexpected {other:?}"),
    }
    match &result.canvas_frames[1].commands[0] {
        CanvasCommand::Clear { background } => assert_eq!(background, "white"),
        other => panic!("unexpected {other:?}"),
    }
    match &result.canvas_frames[1].commands[2] {
        CanvasCommand::FillText { text, size, .. } => {
            assert_eq!(text, "안녕");
            assert_eq!(f64::from_bits(*size), 12.0);
        }
        other => panic!("unexpected {other:?}"),
    }
    assert_eq!(result.events.len(), 2);
    assert!(matches!(result.events[0], ExecutionEvent::CanvasFrame { .. }));
}

#[test]
fn canvas_field_errors() {
    let e = failure(vec![canvas(KeywordMessage::CanvasClear, vec![])]);
    assert!(matches!(e.kind, ErrorKind::FieldMissingEither { .. }));
    assert_eq!(e.message(), "`배경색` 또는 `색` 필드가 필요합니다.");
    let e = failure(vec![canvas(KeywordMessage::CanvasDot, vec![("x", text("1"))])]);
    assert!(matches!(e.kind, ErrorKind::FieldNotNumber { .. }));
    assert_eq!(e.message(), "`x` 필드는 숫자여야 합니다.");
    let e = failure(vec![canvas(KeywordMessage::CanvasDot, vec![("x", num(1))])]);
    assert!(matches!(e.kind, ErrorKind::FieldMissing { .. }));
    assert_eq!(e.message(), "`y` 필드가 필요합니다.");
    let e = failure(vec![canvas(KeywordMessage::CanvasDot, vec![("x", num(1)), ("y", num(1)), ("색", num(1))])]);
    assert!(matches!(e.kind, ErrorKind::FieldNotString { .. }));
    let e = failure(vec![send_stmt(name("그림판"), SendSelector::Keyword(KeywordMessage::CanvasDot), vec![num(1)])]);
    assert!(matches!(e.kind, ErrorKind::ArgumentNotRecord { .. }));
    assert_eq!(e.message(), "`점찍기` 인수는 레코드여야 합니다.");
    let e = failure(vec![send_stmt(name("그림판"), SendSelector::Keyword(KeywordMessage::Push), vec![record(vec![])])]);
    assert!(matches!(e.kind, ErrorKind::CanvasNoPush));
    let e = failure(vec![send_stmt(name("그림판"), SendSelector::Keyword(KeywordMessage::CanvasDot), vec![])]);
    assert_eq!(e.message(), "`그림판 메시지` 함수 인수 개수가 맞지 않습니다. 기대: 1, 실제: 0");
}

#[test]
fn sleeping_closes_the_frame_and_is_recorded() {
    let result = run(vec![
        print(text("a")),
        canvas(KeywordMessage::CanvasDot, vec![("x", num(1)), ("y", num(2)), ("색", text("red"))]),
        sleep(float("0.25")),
        sleep(num(2)),
        print(text("b")),
    ])
    .unwrap();
    assert_eq!(result.output, lines(&["a", "b"]));
    assert_eq!(result.canvas_frames.len(), 1);
    assert_eq!(result.events.len(), 5);
    assert!(matches!(result.events[0], ExecutionEvent::Output { .. }));
    assert!(matches!(result.events[1], ExecutionEvent::CanvasFrame { .. }));
    match result.events[2] {
        ExecutionEvent::Sleep { seconds } => assert_eq!(f64::from_bits(seconds), 0.25),
        _ => panic!("expected a sleep"),
    }
    match result.events[3] {
        ExecutionEvent::Sleep { seconds } => assert_eq!(f64::from_bits(seconds), 2.0),
        _ => panic!("expected a sleep"),
    }
}

#[test]
fn sleep_errors() {
    let e = failure(vec![sleep(num(-1))]);
    assert!(matches!(e.kind, ErrorKind::SleepNegative));
    assert_eq!(e.message(), "`쉬기` 시간은 0 이상의 값이어야 합니다.");
    let e = failure(vec![sleep(float("-0.5"))]);
    assert!(matches!(e.kind, ErrorKind::SleepNegative));
    let e = failure(vec![sleep(text("1"))]);
    assert!(matches!(e.kind, ErrorKind::SleepNotNumber));
}

#[test]
fn an_empty_program_records_nothing() {
    let result = run(vec![]).unwrap();
    assert!(result.output.is_empty());
    assert!(result.events.is_empty());
    assert!(result.canvas_frames.is_empty());
}

#[test]
fn output_lines_match_output_events() {
    let result = run(vec![print(num(1)), sleep(num(0)), print(num(2))]).unwrap();
    let from_events: Vec<String> = result
        .events
        .iter()
        .filter_map(|e| match e {
            ExecutionEvent::Output { text } => Some(text.clone()),
            _ => None,
        })
        .collect();
    assert_eq!(result.output, from_events);
}

#[test]
fn sessions_keep_globals_between_programs() {
    let (host, _) = TestHost::new();
    let mut session = InterpreterSession::new(host);
    let first = session.interpret_hir_program(&Program { statements: vec![bind("x", num(41)), print(text("첫째"))] }).unwrap();
    assert_eq!(first.output, lines(&["첫째"]));
    let second = session
        .interpret_hir_program(&Program { statements: vec![print(bin(name("x"), BinaryOp::Add, num(1)))] })
        .unwrap();
    assert_eq!(second.output, lines(&["42"]));
}

#[test]
fn streaming_echoes_lines_and_sleeps() {
    let (host, log) = TestHost::new();
    let mut session = InterpreterSession::new(host);
    session.set_stream_events(true);
    session.interpret_hir_program(&Program { statements: vec![print(text("보임")), sleep(num(1))] }).unwrap();
    assert_eq!(log.borrow().streamed, lines(&["보임"]));
    assert_eq!(log.borrow().slept, vec![1.0]);
    session.set_stream_events(false);
    session.interpret_hir_program(&Program { statements: vec![print(text("안보임"))] }).unwrap();
    assert_eq!(log.borrow().streamed.len(), 1);
}

// ----- the PyTorch builtins -----

fn training_setup() -> Vec<Stmt> {
    vec![
        bind(
            "모델",
            call("순차신경망", vec![list(vec![call("평탄화", vec![]), call("선형층", vec![num(784), num(10)]), call("렐루", vec![])])]),
        ),
        bind("데이터", call("숫자손글씨데이터셋", vec![record(vec![("학습용", boolean(true))])])),
        bind(
            "로더",
            call(
                "데이터로더",
                vec![record(vec![("데이터셋", name("데이터")), ("배치크기", num(32)), ("섞기여부", boolean(false))])],
            ),
        ),
        bind("최적화기", call("아담", vec![prop(name("모델"), "매개변수"), float("0.001")])),
    ]
}

#[test]
fn a_training_step_reaches_the_host() {
    let (host, log) = TestHost::new();
    let mut statements = training_setup();
    statements.extend(vec![
        print(prop(name("로더"), "길이")),
        bind("배치", call("배치가져오기", vec![name("로더"), num(3)])),
        expr_stmt(call("기울기초기화", vec![name("최적화기")])),
        bind("출력", call("순전파", vec![name("모델"), prop(name("배치"), "이미지들")])),
        bind("손실", call("손실계산", vec![call("교차엔트로피손실", vec![]), name("출력"), prop(name("배치"), "라벨들")])),
        expr_stmt(call("역전파", vec![name("손실")])),
        expr_stmt(call("매개변수갱신", vec![name("최적화기")])),
        expr_stmt(call("스텝", vec![name("최적화기")])),
        print(prop(name("손실"), "값")),
        print(prop(name("출력"), "길이")),
        print(call("같은값개수", vec![call("최대인덱스", vec![name("출력"), num(1)]), prop(name("배치"), "라벨들")])),
        print(name("모델")),
        print(name("로더")),
        print(name("배치")),
    ]);
    let result = interpret_hir_program(host, &Program { statements }).unwrap();
    assert_eq!(result.output, lines(&["4", "0.25", "32", "7", "<신경망 모델>", "<데이터로더>", "<배치>"]));
    let log = log.borrow();
    assert_eq!(log.networks, vec![vec![TorchLayerKind::Flatten, TorchLayerKind::Linear { in_features: 784, out_features: 10 }, TorchLayerKind::Relu]]);
    assert_eq!(log.loaders, vec![(0, 100, false)]);
    assert_eq!(log.adams, vec![(0, 0, 0.001)]);
    assert_eq!(log.fetched, vec![(0, 0, 96, 4)]);
    assert_eq!(log.zeroed, vec![0]);
    assert_eq!(log.stepped, vec![0, 0]);
    assert_eq!(log.forward_modes, vec![true]);
    assert_eq!(log.backward.len(), 1);
}

#[test]
fn evaluation_mode_runs_without_gradients() {
    let (host, log) = TestHost::new();
    let mut statements = training_setup();
    statements.extend(vec![
        bind("배치", call("배치가져오기", vec![name("로더"), num(0)])),
        expr_stmt(call("평가모드로바꾸기", vec![name("모델")])),
        expr_stmt(call("순전파", vec![name("모델"), prop(name("배치"), "이미지들")])),
        expr_stmt(call("학습모드로바꾸기", vec![name("모델")])),
        expr_stmt(call("순전파", vec![name("모델"), prop(name("배치"), "이미지들")])),
    ]);
    interpret_hir_program(host, &Program { statements }).unwrap();
    assert_eq!(log.borrow().forward_modes, vec![false, true]);
    assert_eq!(log.borrow().fetched, vec![(0, 0, 0, 32)]);
}

#[test]
fn batch_index_errors() {
    let mut statements = training_setup();
    statements.push(expr_stmt(call("배치가져오기", vec![name("로더"), num(4)])));
    let e = failure(statements);
    assert!(matches!(e.kind, ErrorKind::BatchIndexOutOfRange));
    assert_eq!(e.message(), "배치 인덱스가 범위를 벗어났습니다.");
    let mut statements = training_setup();
    statements.push(expr_stmt(call("배치가져오기", vec![name("로더"), num(-1)])));
    assert!(matches!(failure(statements).kind, ErrorKind::NegativeBatchIndex));
    let e = failure(vec![expr_stmt(call("배치가져오기", vec![num(1), num(0)]))]);
    assert!(matches!(e.kind, ErrorKind::NotLoader));
    let mut statements = training_setup();
    statements.push(expr_stmt(call("배치가져오기", vec![name("로더"), text("0")])));
    assert!(matches!(failure(statements).kind, ErrorKind::ArgumentNotInt { .. }));
}

#[test]
fn loader_configuration_errors() {
    let dataset = bind("데이터", call("숫자손글씨데이터셋", vec![record(vec![("학습용", boolean(false))])]));
    let loader = |fields: Vec<(&str, Expr)>| expr_stmt(call("데이터로더", vec![record(fields)]));
    let e = failure(vec![loader(vec![])]);
    assert!(matches!(e.kind, ErrorKind::FieldMissing { .. }));
    assert_eq!(e.message(), "`데이터셋` 필드가 필요합니다.");
    let e = failure(vec![loader(vec![("데이터셋", num(1))])]);
    assert!(matches!(e.kind, ErrorKind::FieldBadType { .. }));
    assert_eq!(e.message(), "`데이터셋` 필드 타입이 올바르지 않습니다.");
    let e = failure(vec![
        bind("데이터", call("숫자손글씨데이터셋", vec![record(vec![("학습용", boolean(false))])])),
        loader(vec![("데이터셋", name("데이터")), ("배치크기", num(0)), ("섞기여부", boolean(true))]),
    ]);
    assert!(matches!(e.kind, ErrorKind::BatchSizeNotPositive));
    let e = failure(vec![
        dataset,
        loader(vec![("데이터셋", name("데이터")), ("배치크기", text("8")), ("섞기여부", boolean(true))]),
    ]);
    assert!(matches!(e.kind, ErrorKind::FieldNotInt { .. }));
    let e = failure(vec![
        bind("데이터", call("숫자손글씨데이터셋", vec![record(vec![("학습용", boolean(false))])])),
        loader(vec![("데이터셋", name("데이터")), ("배치크기", num(8)), ("섞기여부", num(1))]),
    ]);
    assert!(matches!(e.kind, ErrorKind::FieldNotBool { .. }));
    let e = failure(vec![expr_stmt(call("데이터로더", vec![num(1)]))]);
    assert!(matches!(e.kind, ErrorKind::ArgumentNotRecord { .. }));
    let e = failure(vec![expr_stmt(call("숫자손글씨데이터셋", vec![record(vec![])]))]);
    assert!(matches!(e.kind, ErrorKind::FieldMissing { .. }));
    assert_eq!(e.message(), "`학습용` 필드가 필요합니다.");
}

#[test]
fn model_and_optimizer_errors() {
    let e = failure(vec![expr_stmt(call("순차신경망", vec![list(vec![num(1)])]))]);
    assert!(matches!(e.kind, ErrorKind::NotLayerList));
    let e = failure(vec![expr_stmt(call("순차신경망", vec![num(1)]))]);
    assert!(matches!(e.kind, ErrorKind::ArgumentNotList { .. }));
    let e = failure(vec![expr_stmt(call("아담", vec![num(1), float("0.1")]))]);
    assert!(matches!(e.kind, ErrorKind::AdamNeedsParameters));
    let mut statements = training_setup();
    statements.push(expr_stmt(call("아담", vec![name("모델"), float("0.0")])));
    assert!(matches!(failure(statements).kind, ErrorKind::LearningRateNotPositive));
    let mut statements = training_setup();
    statements.push(expr_stmt(call("아담", vec![name("모델"), num(-1)])));
    assert!(matches!(failure(statements).kind, ErrorKind::LearningRateNotPositive));
    let mut statements = training_setup();
    statements.push(expr_stmt(call("아담", vec![name("모델"), text("0.1")])));
    assert!(matches!(failure(statements).kind, ErrorKind::ArgumentNotNumber { .. }));
    let e = failure(vec![expr_stmt(call("기울기초기화", vec![num(1)]))]);
    assert!(matches!(e.kind, ErrorKind::NotOptimizer));
    let e = failure(vec![expr_stmt(call("순전파", vec![num(1), num(1)]))]);
    assert!(matches!(e.kind, ErrorKind::NotModel));
    let mut statements = training_setup();
    statements.push(expr_stmt(call("순전파", vec![name("모델"), num(1)])));
    assert!(matches!(failure(statements).kind, ErrorKind::ArgumentNotTensor { .. }));
    let e = failure(vec![expr_stmt(call("손실계산", vec![num(1), num(1), num(1)]))]);
    assert!(matches!(e.kind, ErrorKind::LossNeedsLossFunction));
    let e = failure(vec![expr_stmt(call("선형층", vec![num(1), text("2")]))]);
    assert!(matches!(e.kind, ErrorKind::ArgumentNotInt { .. }));
    assert_eq!(e.message(), "`선형층` 인수는 정수여야 합니다.");
    let mut statements = training_setup();
    statements.push(print(prop(name("모델"), "무게")));
    assert!(matches!(failure(statements).kind, ErrorKind::ModelNoProperty { .. }));
    let mut statements = training_setup();
    statements.push(bind("배치", call("배치가져오기", vec![name("로더"), num(0)])));
    statements.push(print(prop(name("배치"), "무게")));
    assert!(matches!(failure(statements).kind, ErrorKind::BatchNoProperty { .. }));
    let mut statements = training_setup();
    statements.push(bind("배치", call("배치가져오기", vec![name("로더"), num(0)])));
    statements.push(print(prop(prop(name("배치"), "이미지들"), "무게")));
    assert!(matches!(failure(statements).kind, ErrorKind::TensorNoProperty { .. }));
}

fn run_with(configure: impl Fn(&mut Log), statements: Vec<Stmt>) -> Result<ExecutionResult, RuntimeError> {
    let (host, log) = TestHost::new();
    configure(&mut log.borrow_mut());
    let mut session = InterpreterSession::new(host);
    session.set_stream_events(true);
    session.interpret_hir_program(&Program { statements })
}

#[test]
fn failing_terminal_writes_are_errors() {
    let e = run_with(|log| log.write_fails = true, vec![print(num(1))]).unwrap_err();
    assert!(matches!(e.kind, ErrorKind::OutputWrite { .. }));
    assert_eq!(e.message(), "출력을 쓰지 못했습니다: disk full");
    let e = run_with(|log| log.flush_fails = true, vec![print(num(1))]).unwrap_err();
    assert!(matches!(e.kind, ErrorKind::OutputFlush { .. }));
    assert_eq!(e.message(), "출력을 비우지 못했습니다: pipe closed");
}

#[test]
fn host_failures_become_errors() {
    let e = run_with(|log| log.mnist_fails = true, training_setup()).unwrap_err();
    assert!(matches!(e.kind, ErrorKind::HostFailure { .. }));
    assert_eq!(e.message(), "MNIST 데이터를 불러오지 못했습니다.");
    let e = run_with(|log| log.adam_fails = true, training_setup()).unwrap_err();
    assert!(matches!(e.kind, ErrorKind::AdamBuildFailed { .. }));
    assert_eq!(e.message(), "아담 최적화기 생성 실패: no parameters");
    let mut statements = training_setup();
    statements.push(bind("배치", call("배치가져오기", vec![name("로더"), num(0)])));
    statements.push(print(prop(prop(name("배치"), "라벨들"), "값")));
    let e = run_with(|log| log.tensors_not_scalar = true, statements).unwrap_err();
    assert!(matches!(e.kind, ErrorKind::ScalarValueNeedsScalar));
    assert_eq!(e.message(), "`값` 속성은 스칼라 텐서에서만 읽을 수 있습니다.");
}

#[test]
fn a_record_literal_stops_at_its_first_failing_entry() {
    let e = failure(vec![print(record(vec![
        ("a", num(1)),
        ("b", bin(num(1), BinaryOp::Divide, num(0))),
        ("c", name("없는이름")),
    ]))]);
    assert!(matches!(e.kind, ErrorKind::DivisionByZero));
    let e = failure(vec![print(record(vec![("c", name("없는이름")), ("b", bin(num(1), BinaryOp::Divide, num(0)))]))]);
    assert!(matches!(e.kind, ErrorKind::Undefined { .. }));
}

#[test]
fn lists_and_records_holding_doubles_render_with_their_brackets() {
    assert_eq!(
        output(vec![
            print(list(vec![num(1), text("a"), float("2.0")])),
            print(record(vec![("b", float("0.5")), ("a", boolean(true))])),
            print(call("문자열로", vec![list(vec![float("1.5"), list(vec![])])])),
        ]),
        lines(&["[1, a, 2.0]", "{ a: 참, b: 0.5 }", "[1.5, []]"])
    );
}

#[test]
fn popping_an_empty_list_changes_nothing() {
    let (host, _) = TestHost::new();
    let mut session = InterpreterSession::new(host);
    session.interpret_hir_program(&Program { statements: vec![bind("l", list(vec![num(1)]))] }).unwrap();
    let popped = session
        .interpret_hir_program(&Program { statements: vec![print(call("마지막꺼내기", vec![name("l")]))] })
        .unwrap();
    assert_eq!(popped.output, lines(&["1"]));
    let e = session
        .interpret_hir_program(&Program { statements: vec![expr_stmt(call("마지막꺼내기", vec![name("l")]))] })
        .unwrap_err();
    assert!(matches!(e.kind, ErrorKind::PopLastFromEmpty));
    let after = session
        .interpret_hir_program(&Program { statements: vec![print(call("길이", vec![name("l")]))] })
        .unwrap();
    assert_eq!(after.output, lines(&["0"]));
}

#[test]
fn a_false_condition_runs_the_else_block_only() {
    assert_eq!(
        output(vec![
            if_else(boolean(false), vec![print(text("그러면"))], Some(vec![print(text("아니면"))])),
            if_else(boolean(true), vec![print(text("그러면"))], Some(vec![print(text("아니면"))])),
        ]),
        lines(&["아니면", "그러면"])
    );
}

#[test]
fn a_function_body_runs_and_gives_its_return_value() {
    assert_eq!(
        output(vec![
            def("두배", &["x"], vec![print(text("본문")), ret(bin(name("x"), BinaryOp::Multiply, num(2)))]),
            print(call("두배", vec![num(21)])),
        ]),
        lines(&["본문", "42"])
    );
}

#[test]
fn a_loaded_mnist_set_is_registered_with_its_sample_count() {
    let (host, _) = TestHost::new();
    let mut interp = jieum::interp::Interpreter::new(host);
    let first = interp.register_mnist(Ok(60000)).unwrap();
    assert!(matches!(first, jieum::value::Value::Host(jieum::builtins::HostValue::TorchDataset(0))));
    let second = interp.register_mnist(Ok(-3)).unwrap();
    assert!(matches!(second, jieum::value::Value::Host(jieum::builtins::HostValue::TorchDataset(1))));
    assert_eq!(interp.torch.datasets, vec![60000, 0]);
    let e = interp.register_mnist(Err("없음".to_string())).unwrap_err();
    assert!(matches!(e.kind, ErrorKind::HostFailure { .. }));
    assert_eq!(interp.torch.datasets.len(), 2);
}

#[test]
fn not_equal_is_the_opposite_of_equal() {
    assert_eq!(
        output(vec![
            print(bin(float("1.5"), BinaryOp::Equal, float("1.5"))),
            print(bin(float("1.5"), BinaryOp::NotEqual, float("1.5"))),
            print(bin(num(2), BinaryOp::Equal, float("2.0"))),
            print(bin(num(2), BinaryOp::NotEqual, float("2.0"))),
            print(bin(text("가"), BinaryOp::NotEqual, text("나"))),
        ]),
        lines(&["참", "거짓", "참", "거짓", "참"])
    );
}

#[test]
fn echoing_records_the_same_lines() {
    let program = Program { statements: vec![print(text("하나")), print(float("2.5")), sleep(num(0)), print(num(3))] };
    let (quiet_host, _) = TestHost::new();
    let mut quiet = InterpreterSession::new(quiet_host);
    let quiet_result = quiet.interpret_hir_program(&program).unwrap();
    let (loud_host, log) = TestHost::new();
    let mut loud = InterpreterSession::new(loud_host);
    loud.set_stream_events(true);
    let loud_result = loud.interpret_hir_program(&program).unwrap();
    assert_eq!(quiet_result.output, loud_result.output);
    assert_eq!(format!("{:?}", quiet_result.events), format!("{:?}", loud_result.events));
    assert_eq!(log.borrow().streamed, lines(&["하나", "2.5", "3"]));
}

#[test]
fn mnist_files_are_read_once_per_interpreter() {
    let (host, log) = TestHost::new();
    let mut session = InterpreterSession::new(host);
    let program = Program {
        statements: vec![
            bind("학습", call("숫자손글씨데이터셋", vec![record(vec![("학습용", boolean(true))])])),
            bind("시험", call("숫자손글씨데이터셋", vec![record(vec![("학습용", boolean(false))])])),
            print(name("시험")),
        ],
    };
    let result = session.interpret_hir_program(&program).unwrap();
    assert_eq!(result.output, lines(&["<MNIST 데이터셋>"]));
    assert_eq!(log.borrow().mnist_reads, 1);
    let program = Program {
        statements: vec![bind("또", call("숫자손글씨데이터셋", vec![record(vec![("학습용", boolean(true))])]))],
    };
    session.interpret_hir_program(&program).unwrap();
    assert_eq!(log.borrow().mnist_reads, 1);
}

#[test]
fn doubles_inside_lists_print_as_the_host_renders_them() {
    assert_eq!(
        output(vec![
            print(list(vec![float("1.5"), float("2.5"), num(3)])),
            print(record(vec![("가", float("0.25")), ("나", float("4.0"))])),
        ]),
        lines(&["[1.5, 2.5, 3]", "{ 가: 0.25, 나: 4.0 }"])
    );
}

#[test]
fn lists_and_records_holding_doubles_compare_element_by_element() {
    assert_eq!(
        output(vec![
            print(bin(list(vec![float("1.5"), num(2)]), BinaryOp::Equal, list(vec![float("1.5"), float("2.0")]))),
            print(bin(list(vec![float("1.5"), num(2)]), BinaryOp::NotEqual, list(vec![float("1.5"), float("2.0")]))),
            print(bin(list(vec![float("1.5")]), BinaryOp::Equal, list(vec![float("2.5")]))),
            print(bin(record(vec![("가", float("0.5"))]), BinaryOp::Equal, record(vec![("가", float("0.5"))]))),
            print(bin(record(vec![("가", float("0.5"))]), BinaryOp::NotEqual, record(vec![("나", float("0.5"))]))),
        ]),
        lines(&["참", "거짓", "거짓", "참", "참"])
    );
}

#[test]
fn word_messages_on_doubles_keep_operand_order() {
    assert_eq!(
        output(vec![
            print(send(num(7), SendSelector::Word(WordMessage::Subtract), vec![float("2.5")])),
            print(send(float("1.0"), SendSelector::Word(WordMessage::Divide), vec![num(4)])),
        ]),
        lines(&["4.5", "0.25"])
    );
}

#[test]
fn equality_with_doubles_is_symmetric() {
    let left = || list(vec![float("1.5"), num(2), record(vec![("가", float("0.5"))])]);
    let right = || list(vec![float("1.5"), float("2.0"), record(vec![("가", num(0))])]);
    assert_eq!(
        output(vec![
            print(bin(left(), BinaryOp::Equal, right())),
            print(bin(right(), BinaryOp::Equal, left())),
            print(bin(left(), BinaryOp::Equal, left())),
        ]),
        lines(&["거짓", "거짓", "참"])
    );
}
