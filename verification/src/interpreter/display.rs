//! How values are written for a reader.

use vstd::prelude::*;
use vstd::string::StringExecFns;
use crate::interpreter::callable::Host;
use crate::interpreter::context::Context;
use crate::interpreter::heap::HeapItem;
use crate::interpreter::value::{ObjectField, Value};

verus! {

/// `parts` with `, ` between them.
pub open spec fn joined(parts: Seq<Seq<char>>) -> Seq<char>
    decreases parts.len(),
{
    if parts.len() == 0 {
        Seq::empty()
    } else if parts.len() == 1 {
        parts[0]
    } else {
        joined(parts.drop_last()) + ", "@ + parts.last()
    }
}

/// The fields of an object as they are written: each as its key, a colon and its value, with
/// `, ` behind it.
pub open spec fn listed(fields: Seq<ObjectField>, parts: Seq<Seq<char>>) -> Seq<char>
    decreases parts.len(),
{
    if parts.len() == 0 || fields.len() != parts.len() {
        Seq::empty()
    } else {
        listed(fields.drop_last(), parts.drop_last()) + fields.last().key@ + ": "@ + parts.last()
            + ", "@
    }
}

/// Whether `text` writes the value of `handle`, reading on through arrays and objects
/// `depth` times: a string as it is, a boolean as `true` or `false`, null as `Null`, a
/// callable as `Function`, an array as its items in square brackets, an object as its fields
/// in braces. How a number is written is up to the host. What lies deeper than `depth` is
/// written as `...`.
pub open spec fn is_written_as(context: Context, handle: HeapItem, depth: nat, text: Seq<char>)
    -> bool
    decreases depth,
{
    match context.values.value(handle) {
        Value::Number(_) => true,
        Value::String(s) => text == s@,
        Value::Bool(b) => text == (if b {
            "true"@
        } else {
            "false"@
        }),
        Value::Null => text == "Null"@,
        Value::Callable(_) => text == "Function"@,
        Value::Array(items) => if depth == 0 {
            text == "[...]"@
        } else {
            exists|parts: Seq<Seq<char>>|
                {
                    &&& parts.len() == items@.len()
                    &&& forall|i: int|
                        0 <= i < parts.len() ==> is_written_as(
                            context,
                            items@[i],
                            (depth - 1) as nat,
                            #[trigger] parts[i],
                        )
                    &&& text == "["@ + joined(parts) + "]"@
                }
        },
        Value::Object(fields) => if depth == 0 {
            text == "{...}"@
        } else {
            exists|parts: Seq<Seq<char>>|
                {
                    &&& parts.len() == fields@.len()
                    &&& forall|i: int|
                        0 <= i < parts.len() ==> is_written_as(
                            context,
                            fields@[i].value,
                            (depth - 1) as nat,
                            #[trigger] parts[i],
                        )
                    &&& text == "{"@ + listed(fields@, parts) + "}"@
                }
        },
    }
}

/// Writes the value of `handle` for a reader, reading on through arrays and objects `depth`
/// times.
pub fn value_to_string<H: Host>(context: &Context, host: &H, handle: HeapItem, depth: usize) -> (text:
    String)
    requires
        context.wf(),
        context.values.contains(handle),
    ensures
        is_written_as(*context, handle, depth as nat, text@),
    decreases depth,
{
    match context.value_of(handle) {
        Value::Number(n) => host.show(*n),
        Value::String(s) => s.clone(),
        Value::Bool(b) => {
            if *b {
                String::from_str("true")
            } else {
                String::from_str("false")
            }
        },
        Value::Null => String::from_str("Null"),
        Value::Callable(_) => String::from_str("Function"),
        Value::Array(items) => {
            if depth == 0 {
                return String::from_str("[...]");
            }
            let mut text = String::from_str("[");
            let ghost mut parts: Seq<Seq<char>> = Seq::empty();
            let mut index: usize = 0;
            assert(text@ =~= "["@ + joined(parts));
            while index < items.len()
                invariant
                    context.wf(),
                    context.values.contains(handle),
                    context.values.value(handle).children() == items@,
                    depth > 0,
                    index <= items@.len(),
                    parts.len() == index,
                    forall|i: int|
                        0 <= i < parts.len() ==> is_written_as(
                            *context,
                            items@[i],
                            (depth - 1) as nat,
                            #[trigger] parts[i],
                        ),
                    text@ == "["@ + joined(parts),
                decreases items@.len() - index,
            {
                assert(context.values.contains(context.values.value(handle).children()[index as int]));
                let part = value_to_string(context, host, items[index], depth - 1);
                let ghost earlier = parts;
                proof {
                    parts = parts.push(part@);
                    assert(parts.drop_last() =~= earlier);
                }
                if index > 0 {
                    text = text.concat(", ");
                }
                text = text.concat(part.as_str());
                proof {
                    if index > 0 {
                        assert(text@ =~= "["@ + (joined(earlier) + ", "@ + part@));
                    } else {
                        assert(text@ =~= "["@ + part@);
                    }
                }
                index += 1;
            }
            text.concat("]")
        },
        Value::Object(fields) => {
            if depth == 0 {
                return String::from_str("{...}");
            }
            let mut text = String::from_str("{");
            let ghost mut parts: Seq<Seq<char>> = Seq::empty();
            let mut index: usize = 0;
            assert(fields@.subrange(0, 0).len() == 0);
            assert(text@ =~= "{"@ + listed(fields@.subrange(0, 0), parts));
            while index < fields.len()
                invariant
                    context.wf(),
                    context.values.contains(handle),
                    context.values.value(handle).children() == crate::interpreter::value::field_handles(
                        fields@,
                    ),
                    depth > 0,
                    index <= fields@.len(),
                    parts.len() == index,
                    forall|i: int|
                        0 <= i < parts.len() ==> is_written_as(
                            *context,
                            fields@[i].value,
                            (depth - 1) as nat,
                            #[trigger] parts[i],
                        ),
                    text@ == "{"@ + listed(fields@.subrange(0, index as int), parts),
                decreases fields@.len() - index,
            {
                assert(context.values.value(handle).children()[index as int]
                    == fields@[index as int].value);
                assert(context.values.contains(context.values.value(handle).children()[index as int]));
                let part = value_to_string(context, host, fields[index].value, depth - 1);
                let ghost earlier = parts;
                let ghost before = text@;
                proof {
                    parts = parts.push(part@);
                    assert(parts.drop_last() =~= earlier);
                    assert(fields@.subrange(0, index + 1).drop_last() =~= fields@.subrange(
                        0,
                        index as int,
                    ));
                }
                text = text.concat(fields[index].key.as_str()).concat(": ").concat(
                    part.as_str(),
                ).concat(", ");
                proof {
                    assert(text@ =~= "{"@ + (listed(fields@.subrange(0, index as int), earlier)
                        + fields@[index as int].key@ + ": "@ + part@ + ", "@));
                }
                index += 1;
            }
            assert(fields@.subrange(0, index as int) =~= fields@);
            text.concat("}")
        },
    }
}

} // verus!
