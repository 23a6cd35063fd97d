use treewalk::diagnostics::{excerpt, line_col_from_index, ExcerptLine};
use treewalk::interpreter::heap::{Heap, HeapItem};
use treewalk::interpreter::stack::Stack;
use treewalk::interpreter::{
    Builtin, Callable, Context, Error, InterpretedFn, NativeFn, ObjectField, ShallowValue, Value,
};
use treewalk::lex::{ShallowTokenKind, Span, Token, TokenKind};
use treewalk::parse::error::add_index;
use treewalk::parse::{Error as ParseError, ErrorKind};
use treewalk::text::{chars_of, decimal, same_text, string_from_chars};

fn names(stack: &Stack<HeapItem>) -> Vec<&str> {
    stack.values.iter().map(|(name, _)| name.as_str()).collect()
}

fn sample_stack() -> Stack<HeapItem> {
    let mut stack = Stack::new();
    stack.push_value("a".to_string(), HeapItem::new(0));
    stack.push_value("b".to_string(), HeapItem::new(1));
    stack.open_frame();
    stack.push_value("c".to_string(), HeapItem::new(2));
    stack.push_value("a".to_string(), HeapItem::new(3));
    stack.open_frame();
    stack.push_value("d".to_string(), HeapItem::new(4));
    stack
}

#[test]
fn new_stack_has_the_base_frame() {
    let stack: Stack<HeapItem> = Stack::new();
    assert_eq!(stack.value_len(), 0);
    assert_eq!(stack.frame_len(), 1);
    assert_eq!(stack.frames, vec![0]);
    assert!(stack.is_well_formed());
    assert!(stack.is_based());
}

#[test]
fn find_gives_the_most_recent_binding() {
    let stack = sample_stack();
    let found = stack.find_with_ident("a").unwrap();
    assert_eq!(found.index, 3);
    assert_eq!(found.value, HeapItem::new(3));
    let found = stack.find_with_ident("b").unwrap();
    assert_eq!(found.index, 1);
    assert!(stack.find_with_ident("z").is_none());
    assert!(stack.find_with_ident("").is_none());
}

#[test]
fn pop_frame_takes_the_last_frame() {
    let mut stack = sample_stack();
    let popped = stack.pop_frame().unwrap();
    assert_eq!(popped.len(), 1);
    assert_eq!(popped[0].0, "d");
    assert_eq!(names(&stack), vec!["a", "b", "c", "a"]);
    assert_eq!(stack.frames, vec![0, 2]);
    let popped = stack.pop_frame().unwrap();
    assert_eq!(popped.len(), 2);
    assert_eq!(names(&stack), vec!["a", "b"]);
    assert!(stack.pop_frame().is_some());
    assert!(stack.pop_frame().is_none());
    assert_eq!(stack.frame_len(), 0);
    assert!(!stack.is_based());
}

#[test]
fn push_frame_opens_and_fills() {
    let mut stack = sample_stack();
    stack.push_frame(vec![("x".to_string(), HeapItem::new(9)), ("y".to_string(), HeapItem::new(8))]);
    assert_eq!(stack.frames, vec![0, 2, 4, 5]);
    assert_eq!(names(&stack), vec!["a", "b", "c", "a", "d", "x", "y"]);
    assert_eq!(stack.iter_values().len(), 7);
    assert_eq!(stack.iter_values()[5], HeapItem::new(9));
}

#[test]
fn pop_until_index_and_back() {
    let mut stack = sample_stack();
    let popped = stack.pop_until_index(1);
    assert_eq!(names(&stack), vec!["a", "b"]);
    assert_eq!(stack.frames, vec![0]);
    assert_eq!(popped.values.len(), 3);
    assert_eq!(popped.frames, vec![2, 4]);
    stack.push_popped_stack(popped);
    assert_eq!(names(&stack), vec!["a", "b", "c", "a", "d"]);
    assert_eq!(stack.frames, vec![0, 2, 4]);

    let popped = stack.pop_until_index(2);
    assert_eq!(names(&stack), vec!["a", "b", "c"]);
    assert_eq!(stack.frames, vec![0, 2]);
    assert_eq!(popped.frames, vec![4]);
    stack.push_popped_stack(popped);

    let popped = stack.pop_until_index(4);
    assert!(popped.values.is_empty());
    assert!(popped.frames.is_empty());
    assert_eq!(stack.frames, vec![0, 2, 4]);
}

#[test]
fn stack_checks_its_frames() {
    let mut stack = sample_stack();
    assert!(stack.is_well_formed());
    stack.frames = vec![0, 4, 2];
    assert!(!stack.is_well_formed());
    stack.frames = vec![0, 2, 6];
    assert!(!stack.is_well_formed());
    stack.frames = vec![1, 2];
    assert!(stack.is_well_formed());
    assert!(!stack.is_based());
}

#[test]
fn heap_names_what_it_holds() {
    let mut heap: Heap<u32> = Heap::new();
    assert_eq!(heap.len(), 0);
    let a = heap.push(10);
    let b = heap.push(20);
    let c = heap.push(30);
    assert_ne!(a, b);
    assert_ne!(b, c);
    assert_eq!(heap.len(), 3);
    assert_eq!(*heap.get(a), 10);
    assert_eq!(*heap.get(b), 20);
    heap.set(b, 21);
    assert_eq!(*heap.get(b), 21);
    assert_eq!(*heap.get(c), 30);
    assert!(heap.is_live(a));
    assert!(!heap.is_live(HeapItem::new(3)));
    assert!(heap.is_well_formed());
}

#[test]
fn filter_keys_frees_the_rest() {
    let mut heap: Heap<u32> = Heap::new();
    let a = heap.push(10);
    let b = heap.push(20);
    let c = heap.push(30);
    heap.filter_keys(&[c, a, HeapItem::new(17)]);
    assert_eq!(heap.len(), 2);
    assert!(heap.is_live(a));
    assert!(!heap.is_live(b));
    assert!(heap.is_live(c));
    assert_eq!(*heap.get(a), 10);
    assert_eq!(*heap.get(c), 30);
    // The freed place is used again, and no other.
    let d = heap.push(40);
    assert_eq!(d, b);
    assert_eq!(heap.capacity(), 3);
    let e = heap.push(50);
    assert_eq!(e.index, 3);
    assert_eq!(heap.len(), 4);
    assert!(heap.is_well_formed());
}

#[test]
fn sweep_goes_by_the_marks() {
    let mut heap: Heap<u32> = Heap::new();
    for n in 0..4 {
        heap.push(n);
    }
    heap.sweep(&vec![true, false, false, true]);
    assert_eq!(heap.len(), 2);
    assert!(heap.is_live(HeapItem::new(0)));
    assert!(!heap.is_live(HeapItem::new(1)));
    assert!(!heap.is_live(HeapItem::new(2)));
    assert!(heap.is_live(HeapItem::new(3)));
    heap.sweep(&vec![false, true, true, true]);
    assert_eq!(heap.len(), 1);
}

#[test]
fn heap_checks_its_free_list() {
    let mut heap: Heap<u32> = Heap::new();
    let a = heap.push(1);
    heap.push(2);
    heap.filter_keys(&[a]);
    assert!(heap.is_well_formed());
    heap.free = vec![1, 1];
    assert!(!heap.is_well_formed());
    heap.free = vec![0];
    assert!(!heap.is_well_formed());
    heap.free = vec![5];
    assert!(!heap.is_well_formed());
    heap.free = vec![];
    assert!(heap.is_well_formed());
}

#[test]
fn new_context_is_empty() {
    for use_gc in [false, true] {
        let context = Context::new(use_gc);
        assert_eq!(context.use_gc, use_gc);
        assert_eq!(context.stack_size(), 0);
        assert_eq!(context.heap_size(), 0);
        assert_eq!(context.steps, usize::MAX);
        assert!(context.is_well_formed());
    }
    assert!(!Context::default().use_gc);
}

#[test]
fn stdlib_binds_five_names() {
    let mut context = Context::new(false);
    context.add_stdlib();
    assert_eq!(names(&context.stack), vec!["push", "pop", "unshift", "shift", "len"]);
    assert_eq!(context.heap_size(), 5);
    assert_eq!(context.value_heap_size(), 5);
    assert_eq!(context.heap_size_of(ShallowValue::Callable), 5);
    assert_eq!(context.array_heap_size(), 0);
    assert_eq!(context.object_heap_size(), 0);
    let len = context.find_with_ident("len").unwrap();
    assert_eq!(len.index, 4);
    assert!(matches!(
        context.value_of(len.value),
        Value::Callable(Callable::Builtin(Builtin::Len))
    ));
    match context.find_with_ident("print") {
        Err(Error::Undeclared(name)) => assert_eq!(name, "print"),
        other => panic!("found {:?}", other),
    }
}

#[test]
fn register_callable_shadows() {
    let mut context = Context::new(false);
    context.add_native_function("f".to_string(), NativeFn(1));
    context.register_callable("f".to_string(), Callable::Native(NativeFn(2)));
    let found = context.find_with_ident("f").unwrap();
    assert_eq!(found.index, 1);
    assert!(matches!(context.value_of(found.value), Value::Callable(Callable::Native(NativeFn(2)))));
    assert_eq!(context.stack_size(), 2);
}

#[test]
fn shallow_copy_copies_scalars_and_shares_the_rest() {
    let mut context = Context::new(false);
    let text = context.allocate(Value::String("a".to_string()));
    let copy = context.shallow_copy(text);
    assert_ne!(copy, text);
    assert!(matches!(context.value_of(copy), Value::String(s) if s == "a"));
    let null = context.allocate(Value::Null);
    assert_ne!(context.shallow_copy(null), null);
    let array = context.allocate(Value::Array(vec![text]));
    assert_eq!(context.shallow_copy(array), array);
    let object = context.allocate(Value::Object(vec![ObjectField {
        key: "k".to_string(),
        value: array,
    }]));
    assert_eq!(context.shallow_copy(object), object);
    let function = context.allocate(Value::Callable(Callable::Native(NativeFn(0))));
    assert_eq!(context.shallow_copy(function), function);
    assert_eq!(context.array_heap_size(), 1);
    assert_eq!(context.object_heap_size(), 1);
}

#[test]
fn hold_keeps_a_value_through_a_collection() {
    let mut context = Context::new(true);
    let kept = context.allocate(Value::Bool(true));
    let inner = context.allocate(Value::Bool(false));
    let outer = context.allocate(Value::Array(vec![inner]));
    let lost = context.allocate(Value::Null);
    context.hold(outer);
    context.stack.push_value("kept".to_string(), kept);
    context.collect_garbage();
    assert!(context.values.is_live(kept));
    assert!(context.values.is_live(outer));
    assert!(context.values.is_live(inner));
    assert!(!context.values.is_live(lost));
    assert_eq!(context.heap_size(), 3);
    context.release_to(0);
    context.collect_garbage();
    assert_eq!(context.heap_size(), 1);
    assert!(context.is_well_formed());
}

#[test]
fn mark_marks_what_can_be_reached() {
    let mut context = Context::new(true);
    let a = context.allocate(Value::Array(vec![]));
    let b = context.allocate(Value::Array(vec![a]));
    context.store(a, Value::Array(vec![b, a]));
    let c = context.allocate(Value::Object(vec![ObjectField { key: "b".to_string(), value: b }]));
    let d = context.allocate(Value::Null);
    let e = context.allocate(Value::Array(vec![d]));
    assert_eq!(context.mark(), vec![false, false, false, false, false]);
    context.stack.push_value("c".to_string(), c);
    assert_eq!(context.mark(), vec![true, true, true, false, false]);
    context.hold(e);
    assert_eq!(context.mark(), vec![true, true, true, true, true]);
}

#[test]
fn context_checks_itself() {
    let mut context = Context::new(false);
    let a = context.allocate(Value::Array(vec![]));
    context.stack.push_value("a".to_string(), a);
    assert!(context.is_well_formed());

    context.temps.push(HeapItem::new(7));
    assert!(!context.is_well_formed());
    context.temps.clear();

    context.stack.push_value("gone".to_string(), HeapItem::new(7));
    assert!(!context.is_well_formed());
    context.stack.values.pop();

    context.values.slots[0] = Some(Value::Array(vec![HeapItem::new(7)]));
    assert!(!context.is_well_formed());
    context.values.slots[0] = Some(Value::Object(vec![
        ObjectField { key: "k".to_string(), value: a },
        ObjectField { key: "k".to_string(), value: a },
    ]));
    assert!(!context.is_well_formed());
    context.values.slots[0] = Some(Value::Object(vec![
        ObjectField { key: "k".to_string(), value: a },
        ObjectField { key: "l".to_string(), value: a },
    ]));
    assert!(context.is_well_formed());

    context.stack.frames.clear();
    assert!(!context.is_well_formed());
}

#[test]
fn interpreted_fn_keeps_its_parts() {
    let f = InterpretedFn::new(3, vec!["a".to_string()], Vec::new());
    assert_eq!(f.stack_height, 3);
    assert_eq!(f.prop_idents, vec!["a"]);
    assert!(f.body.is_empty());
}

#[test]
fn kinds_of_values() {
    assert_eq!(Value::Null.as_shallow(), ShallowValue::Null);
    assert_eq!(Value::Bool(true).as_shallow(), ShallowValue::Bool);
    assert_eq!(Value::String(String::new()).as_shallow(), ShallowValue::String);
    assert_eq!(Value::Array(Vec::new()).as_shallow(), ShallowValue::Array);
    assert_eq!(Value::Object(Vec::new()).as_shallow(), ShallowValue::Object);
    assert_eq!(ShallowValue::Callable.to_string(), "Callable");
    assert_eq!(ShallowValue::Number.to_string(), "Number");
}

#[test]
fn line_and_column() {
    let source = "ab\ncde\n\nf";
    assert_eq!(line_col_from_index(0, source), Some((1, 1)));
    assert_eq!(line_col_from_index(1, source), Some((1, 2)));
    assert_eq!(line_col_from_index(2, source), None);
    assert_eq!(line_col_from_index(3, source), Some((2, 1)));
    assert_eq!(line_col_from_index(5, source), Some((2, 3)));
    assert_eq!(line_col_from_index(6, source), None);
    assert_eq!(line_col_from_index(7, source), None);
    assert_eq!(line_col_from_index(8, source), Some((4, 1)));
    assert_eq!(line_col_from_index(9, source), None);
    assert_eq!(line_col_from_index(0, ""), None);
    assert_eq!(line_col_from_index(1, "é!"), Some((1, 2)));
}

#[test]
fn decimal_numerals() {
    for n in [0usize, 7, 9, 10, 11, 99, 100, 101, 12345, 1000000, usize::MAX] {
        assert_eq!(decimal(n), format!("{}", n));
    }
}

#[test]
fn text_helpers() {
    assert!(same_text("abc", "abc"));
    assert!(!same_text("abc", "abd"));
    assert!(!same_text("abc", "ab"));
    assert!(same_text("", ""));
    assert_eq!(chars_of("aé"), vec!['a', 'é']);
    assert_eq!(string_from_chars(&['a', 'b', 'c', 'd'], 1, 3), "bc");
    assert_eq!(string_from_chars(&['a'], 1, 1), "");
}

#[test]
fn token_kinds_describe_themselves() {
    assert_eq!(ShallowTokenKind::LeftParen.to_string(), "LeftParen");
    assert_eq!(ShallowTokenKind::DoubleAsterisk.to_string(), "DoubleAsterisk");
    assert_eq!(TokenKind::Semicolon.to_string(), "Semicolon");
    assert_eq!(TokenKind::Number("1.5".to_string()).to_string(), "Number: 1.5");
    assert_eq!(TokenKind::Ident("abc".to_string()).to_string(), "Ident: abc");
    assert_eq!(TokenKind::String("".to_string()).to_string(), "String: ");
    assert_eq!(ShallowTokenKind::While.bare().as_shallow(), ShallowTokenKind::While);
}

#[test]
fn parse_errors_describe_themselves() {
    let token = Token { span: Span::new(0, 1), kind: TokenKind::Comma };
    assert_eq!(
        ErrorKind::ExpectedToken { expected: ShallowTokenKind::Ident, received: Some(token.clone()) }
            .to_string(),
        "Expected Ident got Comma"
    );
    assert_eq!(
        ErrorKind::ExpectedToken { expected: ShallowTokenKind::Semicolon, received: None }
            .to_string(),
        "Expected Semicolon got to the end of the buffer."
    );
    assert_eq!(
        ErrorKind::ExpectedBinaryOperator { received: Some(token.clone()) }.to_string(),
        "Expected binary operator got Comma"
    );
    assert_eq!(
        ErrorKind::ExpectedAssignmentOperator { received: None }.to_string(),
        "Expected assignment operator got to the end of the buffer."
    );
    assert_eq!(
        ErrorKind::ExpectedLiteral { received: Some(token) }.to_string(),
        "Expected literal got Comma"
    );
    assert_eq!(ErrorKind::FailedToConsume.to_string(), "Failed to consume the provided input.");
    assert_eq!(ErrorKind::NoValidExpr.to_string(), "No valid expression was found.");
    assert_eq!(ErrorKind::NoTokensProvided.to_string(), "No tokens were provided.");
}

#[test]
fn parse_error_constructors() {
    let e = ParseError::failed_to_consume(3).offset(4);
    assert_eq!(e.index, 7);
    assert!(e.is_recoverable);
    assert!(matches!(e.kind, ErrorKind::FailedToConsume));
    let e = e.unrecoverable();
    assert!(!e.is_recoverable);
    assert_eq!(e.index, 7);
    assert_eq!(ParseError::no_valid_expr(usize::MAX).offset(2).index, usize::MAX);
    assert_eq!(ParseError::no_tokens_provided().index, 0);
    assert!(matches!(
        ParseError::expected_literal(1, None).kind,
        ErrorKind::ExpectedLiteral { received: None }
    ));
    assert!(matches!(
        ParseError::expected_binary_operator(1, None).kind,
        ErrorKind::ExpectedBinaryOperator { received: None }
    ));
    assert!(matches!(
        ParseError::expected_assignment_operator(1, None).kind,
        ErrorKind::ExpectedAssignmentOperator { received: None }
    ));
    assert!(matches!(
        ParseError::expected_token(1, ShallowTokenKind::Let, None).kind,
        ErrorKind::ExpectedToken { expected: ShallowTokenKind::Let, received: None }
    ));
    assert_eq!(add_index(2, 3), 5);
    assert_eq!(add_index(usize::MAX - 1, 3), usize::MAX);
}

#[test]
fn get_mut_changes_in_place() {
    let mut heap: Heap<u32> = Heap::new();
    let a = heap.push(1);
    let b = heap.push(2);
    *heap.get_mut(a) += 10;
    assert_eq!(*heap.get(a), 11);
    assert_eq!(*heap.get(b), 2);
    assert_eq!(heap.len(), 2);
}

fn laid_out(lines: &[ExcerptLine]) -> Vec<String> {
    lines
        .iter()
        .map(|line| match line {
            ExcerptLine::Margin => "|".to_string(),
            ExcerptLine::Source { number, text } => format!("{}|{}", number, text),
            ExcerptLine::Marks { offset, length } => format!("^{}+{}", offset, length),
        })
        .collect()
}

#[test]
fn excerpt_shows_the_lines_and_the_marks() {
    let source = "one\ntwo\nthree\n\nfive";
    assert_eq!(laid_out(&excerpt(source, 2, 3, 2, 4)), vec!["|", "2|two", "3|three", "^1+2"]);
    assert_eq!(laid_out(&excerpt(source, 1, 1, 1, 4)), vec!["1|one", "^0+3"]);
    assert_eq!(laid_out(&excerpt(source, 4, 5, 1, 1)), vec!["|", "4|", "5|five", "^0+0"]);
    assert_eq!(laid_out(&excerpt(source, 5, 9, 3, 2)), vec!["|", "5|five", "^2+0"]);
    assert_eq!(laid_out(&excerpt(source, 7, 9, 0, 2)), vec!["|", "^0+2"]);
    assert_eq!(laid_out(&excerpt(source, 3, 2, 1, 2)), vec!["|", "^0+1"]);
    assert_eq!(laid_out(&excerpt("", 1, 1, 1, 1)), vec!["1|", "^0+0"]);
    assert_eq!(laid_out(&excerpt("a\n", 1, 2, 1, 2)), vec!["1|a", "2|", "^0+1"]);
}
