use treewalk::ast::BinaryOpKind;
use treewalk::interpreter::display::value_to_string;
use treewalk::interpreter::{
    BlockExit, Context, Error, HeapItem, Host, NativeFn, Number, ShallowValue, Value,
};
use treewalk::parse_string;

/// A host that computes with the machine's doubles. It knows one function of its own, which
/// records the numbers that it is called with.
struct Doubles {
    seen: Vec<f64>,
}

const RECORD: usize = 7;

fn double(n: Number) -> f64 {
    f64::from_bits(n.bits)
}

fn number(x: f64) -> Number {
    Number { bits: x.to_bits() }
}

impl Host for Doubles {
    fn number(&self, numeral: &str) -> Number {
        number(numeral.parse::<f64>().unwrap_or(f64::NAN))
    }

    fn arithmetic(&self, op: BinaryOpKind, a: Number, b: Number) -> Number {
        let (a, b) = (double(a), double(b));
        number(match op {
            BinaryOpKind::Add => a + b,
            BinaryOpKind::Subtract => a - b,
            BinaryOpKind::Multiply => a * b,
            BinaryOpKind::Divide => a / b,
            BinaryOpKind::Pow => a.powf(b),
            other => panic!("{:?} is no arithmetic", other),
        })
    }

    fn compare(&self, op: BinaryOpKind, a: Number, b: Number) -> bool {
        let (a, b) = (double(a), double(b));
        match op {
            BinaryOpKind::GreaterThan => a > b,
            BinaryOpKind::LessThan => a < b,
            BinaryOpKind::Equals => a == b,
            other => panic!("{:?} is no comparison", other),
        }
    }

    fn index(&self, n: Number) -> Option<usize> {
        let x = double(n);
        if x.floor() == x {
            Some(x as usize)
        } else {
            None
        }
    }

    fn count(&self, count: usize) -> Number {
        number(count as f64)
    }

    fn show(&self, n: Number) -> String {
        format!("{}", double(n))
    }

    fn call(
        &mut self,
        id: usize,
        context: &mut Context,
        args: &Vec<HeapItem>,
    ) -> Result<HeapItem, Error> {
        if id != RECORD {
            return Err(Error::UnknownNativeFn(id));
        }
        for arg in args {
            match context.value_of(*arg) {
                Value::Number(n) => self.seen.push(double(*n)),
                other => {
                    return Err(Error::TypeError(ShallowValue::Number, other.as_shallow()));
                }
            }
        }
        Ok(context.allocate(Value::Null))
    }
}

fn fresh(use_gc: bool) -> (Context, Doubles) {
    let mut context = Context::new(use_gc);
    context.add_stdlib();
    context.add_native_function("record".to_string(), NativeFn(RECORD));
    (context, Doubles { seen: Vec::new() })
}

fn run_in(context: &mut Context, host: &mut Doubles, source: &str) -> Result<BlockExit, Error> {
    let program = parse_string(source).expect("the source does not parse");
    context.eval_program(host, &program)
}

fn run(source: &str) -> Result<BlockExit, Error> {
    let (mut context, mut host) = fresh(false);
    run_in(&mut context, &mut host, source)
}

/// The number that the program returns, with the collector off and on: both must agree.
fn returned_number(source: &str) -> f64 {
    let mut results = Vec::new();
    for use_gc in [false, true] {
        let (mut context, mut host) = fresh(use_gc);
        match run_in(&mut context, &mut host, source) {
            Ok(BlockExit::Returned(Some(handle))) => match context.value_of(handle) {
                Value::Number(n) => results.push(double(*n)),
                other => panic!("returned {:?}", other),
            },
            other => panic!("ended with {:?}", other),
        }
    }
    assert_eq!(results[0].to_bits(), results[1].to_bits());
    results[0]
}

fn returned_bool(source: &str) -> bool {
    let (mut context, mut host) = fresh(true);
    match run_in(&mut context, &mut host, source) {
        Ok(BlockExit::Returned(Some(handle))) => match context.value_of(handle) {
            Value::Bool(b) => *b,
            other => panic!("returned {:?}", other),
        },
        other => panic!("ended with {:?}", other),
    }
}

fn returned_string(source: &str) -> String {
    let (mut context, mut host) = fresh(true);
    match run_in(&mut context, &mut host, source) {
        Ok(BlockExit::Returned(Some(handle))) => match context.value_of(handle) {
            Value::String(s) => s.clone(),
            other => panic!("returned {:?}", other),
        },
        other => panic!("ended with {:?}", other),
    }
}

#[test]
fn earlier_operators_bind_outer() {
    assert_eq!(returned_number("let x = 1 + 2 * 3; return x;"), 7.0);
    assert_eq!(returned_number("return 2 * 3 + 1;"), 8.0);
}

#[test]
fn subtraction_groups_to_the_right() {
    assert_eq!(returned_number("return 1 - 2 - 3;"), 2.0);
}

#[test]
fn push_and_len() {
    assert_eq!(returned_number("let a = [1,2,3]; push(a, 4); return len(a);"), 4.0);
}

#[test]
fn fib_of_ten() {
    let source = "fn fib(n){ if (n < 2){ return n; } return fib(n - 1) + fib(n - 2); } \
                  return fib(10);";
    assert_eq!(returned_number(source), 55.0);
}

#[test]
fn a_name_runs_to_its_terminator() {
    let source = "fn fib(n){ if (n < 2){ return n; } return fib(n-1) + fib(n-2); } return fib(10);";
    match run(source) {
        Err(Error::Undeclared(name)) => assert_eq!(name, "n-1"),
        other => panic!("ended with {:?}", other),
    }
}

#[test]
fn while_loop_sums() {
    let source = "let i = 0; let s = 0; while (i < 5) { s = s + i; i = i + 1; } return s;";
    assert_eq!(returned_number(source), 10.0);
}

#[test]
fn cyclic_arrays_are_collected() {
    let (mut context, mut host) = fresh(true);
    let base = context.heap_size();
    let exit = run_in(
        &mut context,
        &mut host,
        "fn cycle() { let a = []; let b = []; push(a, b); push(b, a); return 0; } \
         cycle(); cycle(); let done = 0;",
    );
    assert!(matches!(exit, Ok(BlockExit::Completed)));
    context.collect_garbage();
    // What is left: the function and the variable that the program declared.
    assert_eq!(context.heap_size(), base + 2);
}

#[test]
fn cyclic_arrays_at_top_level_evaluate() {
    let exit = run("let a = []; let b = []; push(a, b); push(b, a); return 0;");
    assert!(matches!(exit, Ok(BlockExit::Returned(Some(_)))));
}

#[test]
fn a_function_declared_earlier_can_be_called() {
    let source = "fn g(){ return 1; } fn f(){ return g(); } return f();";
    assert_eq!(returned_number(source), 1.0);
}

#[test]
fn a_function_declared_later_is_not_visible() {
    let source = "fn f(){ return g(); } fn g(){ return 1; } return f();";
    match run(source) {
        Err(Error::Undeclared(name)) => assert_eq!(name, "g"),
        other => panic!("ended with {:?}", other),
    }
}

#[test]
fn member_of_an_object_by_name() {
    assert_eq!(returned_number("let o = { a: 1, b: 2 }; return o.b;"), 2.0);
    assert_eq!(returned_number("let o = { a: 1, b: 2 }; return o[\"a\"];"), 1.0);
    assert_eq!(returned_number("let o = { in: { x: [5, 6] } }; return o.in.x.1;"), 6.0);
    match run("let o = { a: 1 }; return o.c;") {
        Err(Error::ObjectMissingKey(key)) => assert_eq!(key, "c"),
        other => panic!("ended with {:?}", other),
    }
    match run("return o.b;") {
        Err(Error::Undeclared(name)) => assert_eq!(name, "o"),
        other => panic!("ended with {:?}", other),
    }
}

#[test]
fn member_of_an_array_by_index() {
    assert_eq!(returned_number("let a = [10, 20, 30]; return a[1];"), 20.0);
    assert_eq!(returned_number("let a = [10, 20, 30]; return a.2;"), 30.0);
    assert_eq!(returned_number("let a = [10, 20, 30]; let i = 0; return a[i + 1];"), 20.0);
    assert_eq!(returned_number("let m = [[1, 2], [3, 4]]; return m[1][0];"), 3.0);
    assert_eq!(returned_number("fn f() { return [7, 8]; } return f()[1];"), 8.0);
    assert_eq!(returned_number("let a = [1, 2]; return a[0] + a[1];"), 3.0);
    assert_eq!(returned_number("return [4, 5][1];"), 5.0);
    assert!(matches!(run("let a = [1]; return a[1];"), Err(Error::IndexOutOfBounds(1))));
    assert!(matches!(run("let a = [1]; return a[0.5];"), Err(Error::ExpectedInteger(_))));
    assert!(matches!(
        run("let a = 1; return a[0];"),
        Err(Error::CannotIndexType(ShallowValue::Number))
    ));
}

#[test]
fn member_of_a_string_is_a_character() {
    assert_eq!(returned_string("let s = \"héllo\"; return s[1];"), "é");
    assert_eq!(returned_string("return \"abc\"[2];"), "c");
}

#[test]
fn elements_are_assigned_through_their_handle() {
    assert_eq!(returned_number("let a = [1, 2]; a[0] = 5; return a[0] + a[1];"), 7.0);
    assert_eq!(returned_number("let o = { n: 1 }; o.n += 2; return o.n;"), 3.0);
}

#[test]
fn arrays_are_shared() {
    assert_eq!(returned_number("let a = [1]; let b = a; push(b, 2); return len(a);"), 2.0);
}

#[test]
fn scalars_are_copied() {
    assert_eq!(returned_number("let a = 1; let b = a; b = 2; return a;"), 1.0);
    assert_eq!(returned_number("let a = 1; let b = a; b = 2; return b;"), 2.0);
}

#[test]
fn arguments_are_bound_like_declarations() {
    let source = "fn set(x) { x = 5; return x; } let a = 1; set(a); return a;";
    assert_eq!(returned_number(source), 1.0);
    let source = "fn grow(x) { push(x, 1); return 0; } let a = []; grow(a); return len(a);";
    assert_eq!(returned_number(source), 1.0);
}

#[test]
fn functions_do_not_see_outer_locals() {
    let source = "fn f() { return hidden; } fn g() { let hidden = 1; return f(); } return g();";
    match run(source) {
        Err(Error::Undeclared(name)) => assert_eq!(name, "hidden"),
        other => panic!("ended with {:?}", other),
    }
}

#[test]
fn functions_see_globals_declared_before_them() {
    let source = "let base = 10; fn f(x) { return base + x; } let later = 1; return f(5);";
    assert_eq!(returned_number(source), 15.0);
    let source = "fn f() { return later; } let later = 1; return f();";
    assert!(matches!(run(source), Err(Error::Undeclared(_))));
}

#[test]
fn stack_is_restored_after_a_call() {
    let (mut context, mut host) = fresh(true);
    let source = "fn f(a, b) { let c = a + b; return c; } let x = 1; \
                  if (true) { let y = f(x, 2); record(y); } let z = f(x, x);";
    let frames = context.stack.frame_len();
    let size = context.stack_size();
    assert!(matches!(run_in(&mut context, &mut host, source), Ok(BlockExit::Completed)));
    assert_eq!(host.seen, vec![3.0]);
    assert_eq!(context.stack.frame_len(), frames);
    // f, x and z were declared outside of any block.
    assert_eq!(context.stack_size(), size + 3);
}

#[test]
fn stack_size_is_kept_where_nothing_is_declared() {
    let (mut context, mut host) = fresh(false);
    assert!(run_in(&mut context, &mut host, "let i = 0;").is_ok());
    let size = context.stack_size();
    let source = "while (i < 3) { let twice = i * 2; record(twice); i += 1; } \
                  if (i == 3) { let t = 1; } else { let e = 2; }";
    assert!(matches!(run_in(&mut context, &mut host, source), Ok(BlockExit::Completed)));
    assert_eq!(host.seen, vec![0.0, 2.0, 4.0]);
    assert_eq!(context.stack_size(), size);
}

#[test]
fn frames_are_restored_after_a_failure() {
    let (mut context, mut host) = fresh(false);
    let frames = context.stack.frame_len();
    let size = context.stack_size();
    let source = "fn f() { while (true) { if (true) { return missing; } } } f();";
    assert!(matches!(run_in(&mut context, &mut host, source), Err(Error::Undeclared(_))));
    assert_eq!(context.stack.frame_len(), frames);
    assert_eq!(context.stack_size(), size + 1);
}

#[test]
fn break_and_continue() {
    let source = "let i = 0; let s = 0; while (true) { i += 1; if (i > 5) { break; } \
                  if (i == 3) { continue; } s += i; } return s;";
    assert_eq!(returned_number(source), 12.0);
}

#[test]
fn return_leaves_the_loop_and_the_function() {
    let source = "fn first(a) { let i = 0; while (i < len(a)) { return i + 100; } return 0; } \
                  return first([1, 2]);";
    assert_eq!(returned_number(source), 100.0);
}

#[test]
fn break_cannot_leave_a_function() {
    assert!(matches!(run("fn f() { break; } f();"), Err(Error::UnexpectedBlockExit)));
    assert!(matches!(run("fn f() { continue; } f();"), Err(Error::UnexpectedBlockExit)));
}

#[test]
fn a_program_can_end_in_any_exit() {
    assert!(matches!(run("let a = 1;"), Ok(BlockExit::Completed)));
    assert!(matches!(run("return;"), Ok(BlockExit::Returned(None))));
    assert!(matches!(run("break;"), Ok(BlockExit::Break)));
    assert!(matches!(run("continue;"), Ok(BlockExit::Continue)));
}

#[test]
fn a_function_without_return_gives_null() {
    let (mut context, mut host) = fresh(false);
    match run_in(&mut context, &mut host, "fn f() { } return f();") {
        Ok(BlockExit::Returned(Some(handle))) => {
            assert!(matches!(context.value_of(handle), Value::Null))
        }
        other => panic!("ended with {:?}", other),
    }
}

#[test]
fn redeclaration_fails() {
    match run("let a = 1; if (true) { let a = 2; }") {
        Err(Error::Redeclaration(name)) => assert_eq!(name, "a"),
        other => panic!("ended with {:?}", other),
    }
    match run("fn f() { } fn f() { }") {
        Err(Error::Redeclaration(name)) => assert_eq!(name, "f"),
        other => panic!("ended with {:?}", other),
    }
}

#[test]
fn argument_count_must_match() {
    assert!(matches!(
        run("fn f(a, b) { } f(1);"),
        Err(Error::IncorrectArgumentCount(2, 1))
    ));
}

#[test]
fn only_callables_can_be_called() {
    assert!(matches!(
        run("let f = 1; f();"),
        Err(Error::TypeError(ShallowValue::Callable, ShallowValue::Number))
    ));
}

#[test]
fn conditions_must_be_booleans() {
    assert!(matches!(
        run("if (1) { }"),
        Err(Error::TypeError(ShallowValue::Number, ShallowValue::Bool))
    ));
    assert!(matches!(
        run("while ([]) { }"),
        Err(Error::InvalidBinaryOpArgs(
            ShallowValue::Array,
            ShallowValue::Bool,
            BinaryOpKind::Equals
        ))
    ));
}

#[test]
fn operand_kinds_must_fit() {
    assert!(matches!(
        run("return 1 + \"a\";"),
        Err(Error::TypeError(ShallowValue::Number, ShallowValue::String))
    ));
    assert!(matches!(
        run("return true + 1;"),
        Err(Error::InvalidBinaryOpArgs(
            ShallowValue::Bool,
            ShallowValue::Number,
            BinaryOpKind::Add
        ))
    ));
    assert!(matches!(
        run("return \"a\" - \"b\";"),
        Err(Error::InvalidBinaryOpArgs(
            ShallowValue::String,
            ShallowValue::String,
            BinaryOpKind::Subtract
        ))
    ));
}

#[test]
fn strings_concatenate_and_compare() {
    assert_eq!(returned_string("return \"ab\" + \"cd\";"), "abcd");
    assert!(returned_bool("let s = \"ab\" + \"c\"; return s == \"abc\";"));
    // The first operator binds last: this is "ab" + ("c" == "abc").
    assert!(matches!(
        run("return \"ab\" + \"c\" == \"abc\";"),
        Err(Error::TypeError(ShallowValue::String, ShallowValue::Bool))
    ));
    assert!(!returned_bool("return \"ab\" == \"abc\";"));
    assert!(returned_bool("return true == true;"));
    assert!(!returned_bool("return true == false;"));
}

#[test]
fn numbers_divide_and_raise() {
    assert_eq!(returned_number("return 7 / 2;"), 3.5);
    assert_eq!(returned_number("return 2 ** 10;"), 1024.0);
    assert_eq!(returned_number("return 1 / 0;"), f64::INFINITY);
    assert!(returned_bool("return 2 > 1;"));
    assert!(returned_bool("return 1.5 == 1.5;"));
}

#[test]
fn compound_assignment() {
    assert_eq!(returned_number("let a = 6; a += 2; a *= 3; a -= 4; a /= 5; return a;"), 4.0);
    assert_eq!(returned_string("let s = \"a\"; s += \"b\"; return s;"), "ab");
}

#[test]
fn assignment_is_seen_through_every_handle() {
    let source = "let a = [1]; let b = a; b = [1, 2, 3]; return len(a);";
    assert_eq!(returned_number(source), 3.0);
}

#[test]
fn stdlib_on_arrays() {
    assert_eq!(returned_number("let a = [1, 2, 3]; return pop(a);"), 3.0);
    assert_eq!(returned_number("let a = [1, 2, 3]; pop(a); return len(a);"), 2.0);
    assert_eq!(returned_number("let a = [1, 2, 3]; return shift(a);"), 1.0);
    assert_eq!(returned_number("let a = [1, 2, 3]; shift(a); return shift(a);"), 2.0);
    assert_eq!(returned_number("let a = [1]; unshift(a, 2, 3); return shift(a);"), 3.0);
    assert_eq!(returned_number("let a = [1]; unshift(a, 2, 3); return pop(a);"), 1.0);
    assert_eq!(returned_number("let a = [1]; push(a, 2, 3); return pop(a);"), 3.0);
    assert_eq!(returned_number("let a = []; push(a, 2, 3); return len(a);"), 2.0);
}

#[test]
fn stdlib_on_empty_arrays_gives_null() {
    for source in ["return pop([]);", "return shift([]);"] {
        let (mut context, mut host) = fresh(false);
        match run_in(&mut context, &mut host, source) {
            Ok(BlockExit::Returned(Some(handle))) => {
                assert!(matches!(context.value_of(handle), Value::Null))
            }
            other => panic!("ended with {:?}", other),
        }
    }
}

#[test]
fn stdlib_checks_its_arguments() {
    assert!(matches!(run("push([]);"), Err(Error::IncorrectArgumentCount(2, 1))));
    assert!(matches!(run("unshift([]);"), Err(Error::IncorrectArgumentCount(2, 1))));
    assert!(matches!(run("pop();"), Err(Error::IncorrectArgumentCount(1, 0))));
    assert!(matches!(run("shift();"), Err(Error::IncorrectArgumentCount(1, 0))));
    assert!(matches!(run("len();"), Err(Error::IncorrectArgumentCount(1, 0))));
    assert!(matches!(
        run("push(1, 2);"),
        Err(Error::TypeError(ShallowValue::Array, ShallowValue::Number))
    ));
    assert!(matches!(
        run("pop(\"a\");"),
        Err(Error::TypeError(ShallowValue::Array, ShallowValue::String))
    ));
    assert!(matches!(run("len(1);"), Err(Error::CannotIndexType(ShallowValue::Number))));
}

#[test]
fn len_of_strings_and_objects() {
    assert_eq!(returned_number("return len(\"abc\");"), 3.0);
    assert_eq!(returned_number("return len(\"é\");"), 2.0);
    assert_eq!(returned_number("return len({ a: 1, b: 2, a: 3 });"), 2.0);
    assert_eq!(returned_number("return len({ });"), 0.0);
}

#[test]
fn host_functions_are_called() {
    let (mut context, mut host) = fresh(true);
    assert!(run_in(&mut context, &mut host, "record(1, 2 + 3); record();").is_ok());
    assert_eq!(host.seen, vec![1.0, 5.0]);
    assert!(matches!(
        run_in(&mut context, &mut host, "record(true);"),
        Err(Error::TypeError(ShallowValue::Number, ShallowValue::Bool))
    ));
}

#[test]
fn unknown_host_function() {
    let (mut context, mut host) = fresh(false);
    context.add_native_function("other".to_string(), NativeFn(99));
    assert!(matches!(
        run_in(&mut context, &mut host, "other();"),
        Err(Error::UnknownNativeFn(99))
    ));
}

#[test]
fn a_registered_name_shadows() {
    let (mut context, mut host) = fresh(false);
    context.add_native_function("len".to_string(), NativeFn(RECORD));
    assert!(run_in(&mut context, &mut host, "len(4);").is_ok());
    assert_eq!(host.seen, vec![4.0]);
}

#[test]
fn step_limit_ends_a_loop() {
    let (mut context, mut host) = fresh(false);
    context.set_step_limit(1000);
    let exit = run_in(&mut context, &mut host, "let i = 0; while (true) { i += 1; }");
    assert!(matches!(exit, Err(Error::StepLimitExceeded)));
    assert_eq!(context.steps, 0);
    assert_eq!(context.stack.frame_len(), 1);
}

#[test]
fn step_limit_ends_a_recursion() {
    let (mut context, mut host) = fresh(true);
    context.set_step_limit(50);
    let exit = run_in(&mut context, &mut host, "fn f(n) { return f(n + 1); } f(0);");
    assert!(matches!(exit, Err(Error::StepLimitExceeded)));
    assert_eq!(context.stack.frame_len(), 1);
}

#[test]
fn collector_keeps_what_is_in_flight() {
    // The declarations inside `f` run the collector while the caller holds the values of
    // the operands and items to its left.
    let source = "fn f(x) { let t = [x, x]; let u = 0; return x; } \
                  let a = [f(1), f(2), f(3)] ; let s = f(10) + f(20) ; \
                  return s + len(a) + pop(a) ;";
    assert_eq!(returned_number(source), 36.0);
}

#[test]
fn collector_frees_what_cannot_be_reached() {
    let (mut context, mut host) = fresh(false);
    assert!(run_in(&mut context, &mut host, "let a = [1, 2]; let b = 1 + 2 + 3;").is_ok());
    // What the names are bound to is left: six functions, a with its two items, and b.
    let before = context.heap_size();
    context.collect_garbage();
    let after = context.heap_size();
    assert!(after < before);
    assert_eq!(after, 6 + 4);
    context.collect_garbage();
    assert_eq!(context.heap_size(), after);
    assert_eq!(returned_after(&mut context, &mut host, "return len(a) + b;"), 8.0);
}

fn returned_after(context: &mut Context, host: &mut Doubles, source: &str) -> f64 {
    match run_in(context, host, source) {
        Ok(BlockExit::Returned(Some(handle))) => match context.value_of(handle) {
            Value::Number(n) => double(*n),
            other => panic!("returned {:?}", other),
        },
        other => panic!("ended with {:?}", other),
    }
}

#[test]
fn numbers_add() {
    let host = Doubles { seen: Vec::new() };
    let sum = Value::Number(number(1.5)).run_binary_op(
        &Value::Number(number(2.25)),
        BinaryOpKind::Add,
        &host,
    );
    match sum {
        Ok(Value::Number(n)) => assert_eq!(double(n), 3.75),
        other => panic!("{:?}", other),
    }
}

#[test]
fn kinds_must_agree() {
    let host = Doubles { seen: Vec::new() };
    let r = Value::Number(number(1.0)).run_binary_op(&Value::Bool(true), BinaryOpKind::Add, &host);
    assert!(matches!(r, Err(Error::TypeError(ShallowValue::Number, ShallowValue::Bool))));
}

fn shown(source: &str, depth: usize) -> String {
    let (mut context, mut host) = fresh(false);
    match run_in(&mut context, &mut host, source) {
        Ok(BlockExit::Returned(Some(handle))) => value_to_string(&context, &host, handle, depth),
        other => panic!("ended with {:?}", other),
    }
}

#[test]
fn values_are_written() {
    assert_eq!(shown("return 1.50;", 4), "1.5");
    assert_eq!(shown("return \"a b\";", 4), "a b");
    assert_eq!(shown("return true;", 4), "true");
    assert_eq!(shown("return false;", 4), "false");
    assert_eq!(shown("return pop([]);", 4), "Null");
    assert_eq!(shown("return len;", 4), "Function");
    assert_eq!(shown("return [];", 4), "[]");
    assert_eq!(shown("return [1];", 4), "[1]");
    assert_eq!(shown("return [1, \"a\", [true, []]];", 4), "[1, a, [true, []]]");
    assert_eq!(shown("return { };", 4), "{}");
    assert_eq!(shown("return { a: 1, b: [2] };", 4), "{a: 1, b: [2], }");
}

#[test]
fn writing_stops_at_its_depth() {
    assert_eq!(shown("return [1, [2, [3]]];", 0), "[...]");
    assert_eq!(shown("return [1, [2, [3]]];", 1), "[1, [...]]");
    assert_eq!(shown("return [1, { a: [3] }];", 2), "[1, {a: [...], }]");
    assert_eq!(shown("return { a: 1 };", 0), "{...}");
    assert_eq!(shown("let a = []; push(a, a); return a;", 3), "[[[[...]]]]");
}
