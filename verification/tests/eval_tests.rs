use treewalk::ast::{BinaryOpKind, Expr, Member, Stmt};
use treewalk::interpreter::calls::outcome_of_call;
use treewalk::interpreter::expressions::{find_field, object_insert};
use treewalk::interpreter::statements::{after_iteration, truth_of};
use treewalk::interpreter::stdlib::{call_builtin, len, measure, pop, push, shift, unshift};
use treewalk::interpreter::{
    BlockExit, Builtin, Context, Error, HeapItem, Host, Number, ObjectField, ShallowValue, Value,
};

/// A host that computes with the machine's doubles and knows no function of its own.
struct Doubles;

fn double(n: Number) -> f64 {
    f64::from_bits(n.bits)
}

fn number(x: f64) -> Number {
    Number { bits: x.to_bits() }
}

impl Host for Doubles {
    fn number(&self, numeral: &str) -> Number {
        number(numeral.parse::<f64>().unwrap_or(f64::NAN))
    }

    fn arithmetic(&self, op: BinaryOpKind, a: Number, b: Number) -> Number {
        let (a, b) = (double(a), double(b));
        number(match op {
            BinaryOpKind::Add => a + b,
            BinaryOpKind::Subtract => a - b,
            BinaryOpKind::Multiply => a * b,
            BinaryOpKind::Divide => a / b,
            BinaryOpKind::Pow => a.powf(b),
            other => panic!("{:?} is no arithmetic", other),
        })
    }

    fn compare(&self, op: BinaryOpKind, a: Number, b: Number) -> bool {
        let (a, b) = (double(a), double(b));
        match op {
            BinaryOpKind::GreaterThan => a > b,
            BinaryOpKind::LessThan => a < b,
            BinaryOpKind::Equals => a == b,
            other => panic!("{:?} is no comparison", other),
        }
    }

    fn index(&self, n: Number) -> Option<usize> {
        let x = double(n);
        if x.floor() == x {
            Some(x as usize)
        } else {
            None
        }
    }

    fn count(&self, count: usize) -> Number {
        number(count as f64)
    }

    fn show(&self, n: Number) -> String {
        format!("{}", double(n))
    }

    fn call(&mut self, id: usize, _: &mut Context, _: &Vec<HeapItem>) -> Result<HeapItem, Error> {
        Err(Error::UnknownNativeFn(id))
    }
}

fn text(context: &mut Context, s: &str) -> HeapItem {
    context.allocate(Value::String(s.to_string()))
}

fn num(context: &mut Context, x: f64) -> HeapItem {
    context.allocate(Value::Number(number(x)))
}

fn items_of(context: &Context, array: HeapItem) -> Vec<HeapItem> {
    match context.value_of(array) {
        Value::Array(items) => items.clone(),
        other => panic!("not an array: {:?}", other),
    }
}

fn numeral(s: &str) -> Expr {
    Expr::NumberLiteral(s.to_string())
}

#[test]
fn member_of_a_string_is_a_fresh_character() {
    let mut context = Context::new(false);
    let parent = text(&mut context, "aéz");
    let child = num(&mut context, 1.0);
    let size = context.heap_size();
    let found = context.member(parent, child, Some(1)).unwrap();
    assert!(matches!(context.value_of(found), Value::String(s) if s == "é"));
    assert_eq!(context.heap_size(), size + 1);
    assert!(matches!(context.member(parent, child, Some(3)), Err(Error::IndexOutOfBounds(3))));
    assert!(matches!(
        context.member(parent, child, None),
        Err(Error::ExpectedInteger(n)) if double(n) == 1.0
    ));
    assert!(matches!(
        context.member(parent, parent, None),
        Err(Error::TypeError(ShallowValue::Number, ShallowValue::String))
    ));
}

#[test]
fn member_of_an_array_is_the_element_itself() {
    let mut context = Context::new(false);
    let first = text(&mut context, "x");
    let second = num(&mut context, 7.0);
    let parent = context.allocate(Value::Array(vec![first, second]));
    let child = num(&mut context, 1.0);
    let size = context.heap_size();
    assert_eq!(context.member(parent, child, Some(1)).unwrap(), second);
    assert_eq!(context.member(parent, child, Some(0)).unwrap(), first);
    assert_eq!(context.heap_size(), size);
    assert!(matches!(context.member(parent, child, Some(2)), Err(Error::IndexOutOfBounds(2))));
    assert!(matches!(context.member(parent, child, None), Err(Error::ExpectedInteger(_))));
    assert!(matches!(
        context.member(parent, first, None),
        Err(Error::TypeError(ShallowValue::Number, ShallowValue::String))
    ));
}

#[test]
fn member_of_an_object_is_the_field() {
    let mut context = Context::new(false);
    let one = num(&mut context, 1.0);
    let two = num(&mut context, 2.0);
    let parent = context.allocate(Value::Object(vec![
        ObjectField { key: "a".to_string(), value: one },
        ObjectField { key: "b".to_string(), value: two },
    ]));
    let b = text(&mut context, "b");
    let c = text(&mut context, "c");
    assert_eq!(context.member(parent, b, None).unwrap(), two);
    match context.member(parent, c, None) {
        Err(Error::ObjectMissingKey(key)) => assert_eq!(key, "c"),
        other => panic!("{:?}", other),
    }
    assert!(matches!(
        context.member(parent, one, Some(1)),
        Err(Error::TypeError(ShallowValue::String, ShallowValue::Number))
    ));
}

#[test]
fn other_values_cannot_be_indexed() {
    let mut context = Context::new(false);
    let one = num(&mut context, 1.0);
    let null = context.allocate(Value::Null);
    let truth = context.allocate(Value::Bool(true));
    assert!(matches!(
        context.member(one, one, Some(1)),
        Err(Error::CannotIndexType(ShallowValue::Number))
    ));
    assert!(matches!(
        context.member(null, one, Some(0)),
        Err(Error::CannotIndexType(ShallowValue::Null))
    ));
    assert!(matches!(
        context.member(truth, one, Some(0)),
        Err(Error::CannotIndexType(ShallowValue::Bool))
    ));
}

#[test]
fn member_expressions_are_evaluated() {
    let mut context = Context::new(true);
    let mut host = Doubles;
    let member = |parent: Expr, child: Expr| {
        Expr::Member(Member { parent: Box::new(parent), child: Box::new(child) })
    };
    let array = Expr::ArrayLiteral(vec![numeral("10"), numeral("20"), numeral("30")]);
    let found = context.eval_expr(&mut host, &member(array, numeral("2"))).unwrap();
    assert!(matches!(context.value_of(found), Value::Number(n) if double(*n) == 30.0));

    let string = Expr::StringLiteral("abc".to_string());
    let found = context.eval_expr(&mut host, &member(string, numeral("0"))).unwrap();
    assert!(matches!(context.value_of(found), Value::String(s) if s == "a"));

    let string = Expr::StringLiteral("abc".to_string());
    assert!(matches!(
        context.eval_expr(&mut host, &member(string, numeral("0.5"))),
        Err(Error::ExpectedInteger(n)) if double(n) == 0.5
    ));
    let array = Expr::ArrayLiteral(vec![]);
    assert!(matches!(
        context.eval_expr(&mut host, &member(array, numeral("0"))),
        Err(Error::IndexOutOfBounds(0))
    ));
    assert!(matches!(
        context.eval_expr(&mut host, &member(numeral("1"), numeral("0"))),
        Err(Error::CannotIndexType(ShallowValue::Number))
    ));
    assert!(context.temps.is_empty());
    assert!(context.is_well_formed());
}

#[test]
fn a_statement_list_built_by_hand_runs() {
    let mut context = Context::new(false);
    let mut host = Doubles;
    let program = vec![
        Stmt::Expr(numeral("1")),
        Stmt::BlockExit(treewalk::ast::BlockExit::Break),
        Stmt::Expr(Expr::Ident("never".to_string())),
    ];
    assert!(matches!(context.eval_program(&mut host, &program), Ok(BlockExit::Break)));
    assert!(matches!(context.eval_block(&mut host, &program), Ok(BlockExit::Break)));
    assert!(matches!(context.eval_program(&mut host, &Vec::new()), Ok(BlockExit::Completed)));
    assert_eq!(context.stack.frame_len(), 1);
}

#[test]
fn fields_are_set_in_place_or_appended() {
    let mut fields = Vec::new();
    object_insert(&mut fields, "a".to_string(), HeapItem::new(1));
    object_insert(&mut fields, "b".to_string(), HeapItem::new(2));
    object_insert(&mut fields, "a".to_string(), HeapItem::new(3));
    assert_eq!(fields.len(), 2);
    assert_eq!(fields[0].key, "a");
    assert_eq!(fields[0].value, HeapItem::new(3));
    assert_eq!(fields[1].value, HeapItem::new(2));
    assert_eq!(find_field(&fields, "b"), Some(1));
    assert_eq!(find_field(&fields, "a"), Some(0));
    assert_eq!(find_field(&fields, "c"), None);
}

#[test]
fn loops_go_on_or_end() {
    assert!(after_iteration(BlockExit::Completed).is_none());
    assert!(after_iteration(BlockExit::Continue).is_none());
    assert!(matches!(after_iteration(BlockExit::Break), Some(BlockExit::Completed)));
    assert!(matches!(
        after_iteration(BlockExit::Returned(Some(HeapItem::new(4)))),
        Some(BlockExit::Returned(Some(h))) if h == HeapItem::new(4)
    ));
    assert!(matches!(
        after_iteration(BlockExit::Returned(None)),
        Some(BlockExit::Returned(None))
    ));
}

#[test]
fn calls_give_what_the_body_returned() {
    assert!(matches!(
        outcome_of_call(BlockExit::Returned(Some(HeapItem::new(4)))),
        Ok(Some(h)) if h == HeapItem::new(4)
    ));
    assert!(matches!(outcome_of_call(BlockExit::Returned(None)), Ok(None)));
    assert!(matches!(outcome_of_call(BlockExit::Completed), Ok(None)));
    assert!(matches!(outcome_of_call(BlockExit::Break), Err(Error::UnexpectedBlockExit)));
    assert!(matches!(outcome_of_call(BlockExit::Continue), Err(Error::UnexpectedBlockExit)));
}

#[test]
fn conditions_are_booleans() {
    assert!(matches!(truth_of(&Value::Bool(true)), Ok(true)));
    assert!(matches!(truth_of(&Value::Bool(false)), Ok(false)));
    assert!(matches!(
        truth_of(&Value::Number(number(1.0))),
        Err(Error::TypeError(ShallowValue::Number, ShallowValue::Bool))
    ));
    assert!(matches!(
        truth_of(&Value::String(String::new())),
        Err(Error::TypeError(ShallowValue::String, ShallowValue::Bool))
    ));
    assert!(matches!(
        truth_of(&Value::Null),
        Err(Error::InvalidBinaryOpArgs(
            ShallowValue::Null,
            ShallowValue::Bool,
            BinaryOpKind::Equals
        ))
    ));
}

#[test]
fn lengths_of_values() {
    assert!(matches!(measure(&Value::String("aé".to_string())), Ok(3)));
    assert!(matches!(measure(&Value::Array(vec![HeapItem::new(0); 4])), Ok(4)));
    assert!(matches!(measure(&Value::Object(Vec::new())), Ok(0)));
    assert!(matches!(measure(&Value::Null), Err(Error::CannotIndexType(ShallowValue::Null))));
    assert!(matches!(
        measure(&Value::Bool(true)),
        Err(Error::CannotIndexType(ShallowValue::Bool))
    ));
}

#[test]
fn library_functions_on_handles() {
    let mut context = Context::new(false);
    let host = Doubles;
    let a = num(&mut context, 1.0);
    let b = num(&mut context, 2.0);
    let c = num(&mut context, 3.0);
    let array = context.allocate(Value::Array(vec![a]));

    let null = push(&mut context, &vec![array, b, c]).unwrap();
    assert!(matches!(context.value_of(null), Value::Null));
    assert_eq!(items_of(&context, array), vec![a, b, c]);

    unshift(&mut context, &vec![array, b, c]).unwrap();
    assert_eq!(items_of(&context, array), vec![c, b, a, b, c]);

    assert_eq!(shift(&mut context, &vec![array]).unwrap(), c);
    assert_eq!(pop(&mut context, &vec![array]).unwrap(), c);
    assert_eq!(items_of(&context, array), vec![b, a, b]);

    let length = len(&mut context, &host, &vec![array]).unwrap();
    assert!(matches!(context.value_of(length), Value::Number(n) if double(*n) == 3.0));
    let length = call_builtin(&mut context, &host, Builtin::Len, &vec![array, a]).unwrap();
    assert!(matches!(context.value_of(length), Value::Number(n) if double(*n) == 3.0));

    // An array can hold itself.
    push(&mut context, &vec![array, array]).unwrap();
    assert_eq!(items_of(&context, array), vec![b, a, b, array]);
    assert!(context.is_well_formed());
}
