//! The values of the language and the operations between two of them.

use vstd::prelude::*;
use vstd::string::StringExecFns;
use crate::ast::BinaryOpKind;
use crate::interpreter::callable::{Callable, Host};
use crate::interpreter::error::Error;
use crate::interpreter::heap::HeapItem;
use crate::text::same_text;

verus! {

/// A number of the language: a double, as the 64 bits that it is stored in. The library
/// carries numbers; it is the host that computes with them.
#[derive(Debug, Clone, Copy, PartialEq, Eq, Structural)]
pub struct Number {
    pub bits: u64,
}

/// A field of an object: its key and the handle of its value.
#[derive(Debug)]
pub struct ObjectField {
    pub key: String,
    pub value: HeapItem,
}

impl Clone for ObjectField {
    fn clone(&self) -> (copy: Self)
        ensures
            copy == *self,
    {
        ObjectField { key: self.key.clone(), value: self.value }
    }
}

/// A value. Numbers, strings, booleans and null are scalars: binding one makes a copy. Arrays,
/// objects and callables are compound: binding one shares it.
#[derive(Debug)]
pub enum Value {
    Number(Number),
    String(String),
    Bool(bool),
    /// The handles of the elements, in order.
    Array(Vec<HeapItem>),
    /// The fields. No key occurs twice.
    Object(Vec<ObjectField>),
    Callable(Callable),
    Null,
}

/// The kind of a value, without the value.
#[derive(Debug, Clone, Copy, PartialEq, Eq, Structural)]
pub enum ShallowValue {
    Number,
    String,
    Bool,
    Array,
    Object,
    Callable,
    Null,
}

impl ShallowValue {
    /// The name of the kind.
    pub fn to_string(&self) -> (name: String)
        ensures
            name@ == (match self {
                ShallowValue::Number => "Number"@,
                ShallowValue::String => "String"@,
                ShallowValue::Bool => "Bool"@,
                ShallowValue::Array => "Array"@,
                ShallowValue::Object => "Object"@,
                ShallowValue::Callable => "Callable"@,
                ShallowValue::Null => "Null"@,
            }),
    {
        let name = match self {
            ShallowValue::Number => "Number",
            ShallowValue::String => "String",
            ShallowValue::Bool => "Bool",
            ShallowValue::Array => "Array",
            ShallowValue::Object => "Object",
            ShallowValue::Callable => "Callable",
            ShallowValue::Null => "Null",
        };
        String::from_str(name)
    }
}

/// The handles that the fields of an object hold, in order.
pub open spec fn field_handles(fields: Seq<ObjectField>) -> Seq<HeapItem> {
    fields.map_values(|field: ObjectField| field.value)
}

/// The index of the first field, at or after `from`, with the key `key`; the number of
/// fields where there is none.
pub open spec fn key_index(fields: Seq<ObjectField>, key: Seq<char>, from: int) -> int
    decreases fields.len() - from,
{
    if from < 0 || from >= fields.len() {
        fields.len() as int
    } else if fields[from].key@ == key {
        from
    } else {
        key_index(fields, key, from + 1)
    }
}

/// Whether `op` is one of `+ - * / **`.
pub open spec fn is_arithmetic(op: BinaryOpKind) -> bool {
    op == BinaryOpKind::Add || op == BinaryOpKind::Subtract || op == BinaryOpKind::Multiply || op
        == BinaryOpKind::Divide || op == BinaryOpKind::Pow
}

/// Whether `op` is one of `> < ==`.
pub open spec fn is_comparison(op: BinaryOpKind) -> bool {
    op == BinaryOpKind::GreaterThan || op == BinaryOpKind::LessThan || op == BinaryOpKind::Equals
}

/// Whether `op` takes operands of kind `operand`: numbers for all operators, strings for `+`
/// and `==`, booleans for `==`.
pub open spec fn takes(op: BinaryOpKind, operand: ShallowValue) -> bool {
    match operand {
        ShallowValue::Number => true,
        ShallowValue::String => op == BinaryOpKind::Add || op == BinaryOpKind::Equals,
        ShallowValue::Bool => op == BinaryOpKind::Equals,
        _ => false,
    }
}

/// The error of `a op b` for operands of the kinds `a` and `b`, if it is one: the operator
/// does not take the left operand, or the right operand is of another kind than the left.
pub open spec fn binary_op_error(a: ShallowValue, b: ShallowValue, op: BinaryOpKind) -> Option<
    Error,
> {
    if !takes(op, a) {
        Some(Error::InvalidBinaryOpArgs(a, b, op))
    } else if a != b {
        Some(Error::TypeError(a, b))
    } else {
        None
    }
}

/// Whether `result` is `a op b`, for operands that the operator takes. Between numbers the
/// host computes: a number where the operator is one of arithmetic, else a boolean.
pub open spec fn is_binary_op_result(a: Value, b: Value, op: BinaryOpKind, result: Value) -> bool {
    match (a, b) {
        (Value::Number(x), Value::Number(y)) => if is_arithmetic(op) {
            result is Number
        } else {
            result is Bool
        },
        (Value::String(x), Value::String(y)) => if op == BinaryOpKind::Add {
            result matches Value::String(joined) && joined@ == x@ + y@
        } else {
            result == Value::Bool(x@ == y@)
        },
        (Value::Bool(x), Value::Bool(y)) => result == Value::Bool(x == y),
        _ => false,
    }
}

impl Value {
    /// The kind of the value.
    pub open spec fn shallow(&self) -> ShallowValue {
        match self {
            Value::Number(_) => ShallowValue::Number,
            Value::String(_) => ShallowValue::String,
            Value::Bool(_) => ShallowValue::Bool,
            Value::Array(_) => ShallowValue::Array,
            Value::Object(_) => ShallowValue::Object,
            Value::Callable(_) => ShallowValue::Callable,
            Value::Null => ShallowValue::Null,
        }
    }

    /// Whether binding the value makes a copy of it.
    pub open spec fn is_scalar(&self) -> bool {
        self is Number || self is String || self is Bool || self is Null
    }

    /// The handles that the value holds: the elements of an array, the values of the fields
    /// of an object.
    pub open spec fn children(&self) -> Seq<HeapItem> {
        match self {
            Value::Array(items) => items@,
            Value::Object(fields) => field_handles(fields@),
            _ => Seq::empty(),
        }
    }

    /// Whether `other` is the same value: the same scalar, the same handles in the same
    /// order, the same keys, the same callable.
    pub open spec fn alike(&self, other: &Value) -> bool {
        match (self, other) {
            (Value::Number(a), Value::Number(b)) => a == b,
            (Value::String(a), Value::String(b)) => a@ == b@,
            (Value::Bool(a), Value::Bool(b)) => a == b,
            (Value::Array(a), Value::Array(b)) => a@ == b@,
            (Value::Object(a), Value::Object(b)) => a@ == b@,
            (Value::Callable(a), Value::Callable(b)) => a == b,
            (Value::Null, Value::Null) => true,
            _ => false,
        }
    }

    /// In an object no key occurs twice.
    pub open spec fn wf(&self) -> bool {
        match self {
            Value::Object(fields) => forall|i: int, j: int|
                #![trigger fields@[i], fields@[j]]
                0 <= i < j < fields@.len() ==> fields@[i].key@ != fields@[j].key@,
            _ => true,
        }
    }

    /// Whether, in an object, no key occurs twice.
    pub fn is_well_formed(&self) -> (ok: bool)
        ensures
            ok == self.wf(),
    {
        match self {
            Value::Object(fields) => {
                let mut later: usize = 0;
                while later < fields.len()
                    invariant
                        *self == Value::Object(*fields),
                        later <= fields@.len(),
                        forall|i: int, j: int|
                            0 <= i < j < later ==> fields@[i].key@ != fields@[j].key@,
                    decreases fields@.len() - later,
                {
                    let mut earlier: usize = 0;
                    while earlier < later
                        invariant
                            *self == Value::Object(*fields),
                            earlier <= later < fields@.len(),
                            forall|i: int|
                                0 <= i < earlier ==> fields@[i].key@ != fields@[later as int].key@,
                        decreases later - earlier,
                    {
                        if same_text(fields[earlier].key.as_str(), fields[later].key.as_str()) {
                            proof {
                                let held = self->Object_0@;
                                assert(held == fields@);
                                assert(held[earlier as int].key@ == held[later as int].key@);
                                if self.wf() {
                                    assert(held[earlier as int].key@ != held[later as int].key@);
                                }
                            }
                            return false;
                        }
                        earlier += 1;
                    }
                    later += 1;
                }
                true
            },
            _ => true,
        }
    }

    #[verifier::when_used_as_spec(shallow)]
    pub fn as_shallow(&self) -> (kind: ShallowValue)
        ensures
            kind == self.shallow(),
    {
        match self {
            Value::Number(_) => ShallowValue::Number,
            Value::String(_) => ShallowValue::String,
            Value::Bool(_) => ShallowValue::Bool,
            Value::Array(_) => ShallowValue::Array,
            Value::Object(_) => ShallowValue::Object,
            Value::Callable(_) => ShallowValue::Callable,
            Value::Null => ShallowValue::Null,
        }
    }

    /// Computes `self op other`. Numbers take every operator, strings `+` and `==`, booleans
    /// `==`; both operands must be of one kind.
    pub fn run_binary_op<H: Host>(&self, other: &Value, op: BinaryOpKind, host: &H) -> (result:
        Result<Value, Error>)
        ensures
            match binary_op_error(self.shallow(), other.shallow(), op) {
                Some(e) => result == Err::<Value, Error>(e),
                None => result matches Ok(value) && is_binary_op_result(*self, *other, op, value)
                    && value.is_scalar(),
            },
    {
        match self {
            Value::Number(a) => match other {
                Value::Number(b) => match op {
                    BinaryOpKind::GreaterThan | BinaryOpKind::LessThan | BinaryOpKind::Equals => Ok(
                        Value::Bool(host.compare(op, *a, *b)),
                    ),
                    _ => Ok(Value::Number(host.arithmetic(op, *a, *b))),
                },
                _ => Err(Error::TypeError(ShallowValue::Number, other.as_shallow())),
            },
            Value::String(a) => match op {
                BinaryOpKind::Add => match other {
                    Value::String(b) => Ok(Value::String(a.clone().concat(b.as_str()))),
                    _ => Err(Error::TypeError(ShallowValue::String, other.as_shallow())),
                },
                BinaryOpKind::Equals => match other {
                    Value::String(b) => Ok(Value::Bool(same_text(a.as_str(), b.as_str()))),
                    _ => Err(Error::TypeError(ShallowValue::String, other.as_shallow())),
                },
                _ => Err(Error::InvalidBinaryOpArgs(self.as_shallow(), other.as_shallow(), op)),
            },
            Value::Bool(a) => match op {
                BinaryOpKind::Equals => match other {
                    Value::Bool(b) => Ok(Value::Bool(*a == *b)),
                    _ => Err(Error::TypeError(ShallowValue::Bool, other.as_shallow())),
                },
                _ => Err(Error::InvalidBinaryOpArgs(self.as_shallow(), other.as_shallow(), op)),
            },
            _ => Err(Error::InvalidBinaryOpArgs(self.as_shallow(), other.as_shallow(), op)),
        }
    }
}

impl Clone for Value {
    fn clone(&self) -> (copy: Self)
        ensures
            copy.alike(self),
    {
        match self {
            Value::Number(n) => Value::Number(*n),
            Value::String(s) => Value::String(s.clone()),
            Value::Bool(b) => Value::Bool(*b),
            Value::Array(items) => Value::Array(items.clone()),
            Value::Object(fields) => Value::Object(fields.clone()),
            Value::Callable(c) => Value::Callable(c.clone()),
            Value::Null => Value::Null,
        }
    }
}

} // verus!
