//! The built-in native functions.

use super::function_registry::{Function, FunctionRegistry, ParamCount, Registry, Signature};
use crate::lang::panics::Error;
use crate::lang::value::{Number, RuntimeType};
use vstd::prelude::*;
use vstd::string::StringSliceAdditionalSpecFns;
use vstd::utf8::{
    encode_utf8, encode_utf8_valid_utf8, is_char_boundary, is_char_boundary_iff_not_is_continuation_byte,
    is_char_boundary_start_end_of_seq, valid_utf8_split,
};

verus! {

/// A signature with an exact count.
pub open spec fn fixed(kinds: Seq<RuntimeType>) -> Signature {
    Signature { count: ParamCount::Fixed(kinds.len() as usize), kinds }
}

/// `registry` with the built-in functions registered: `print`, `read`,
/// `random`, `toNumber`, `toString`, `substring`, `writeFile`, `readFile`,
/// `deleteFile` and `exists`.
pub open spec fn with_natives(registry: Registry) -> Registry {
    registry.insert("print"@, fixed(seq![RuntimeType::Any])).insert(
        "read"@,
        fixed(Seq::empty()),
    ).insert("random"@, fixed(Seq::empty())).insert(
        "toNumber"@,
        fixed(seq![RuntimeType::String]),
    ).insert("toString"@, fixed(seq![RuntimeType::Number])).insert(
        "substring"@,
        fixed(seq![RuntimeType::String, RuntimeType::Number, RuntimeType::Number]),
    ).insert("writeFile"@, fixed(seq![RuntimeType::String, RuntimeType::String])).insert(
        "readFile"@,
        fixed(seq![RuntimeType::String]),
    ).insert("deleteFile"@, fixed(seq![RuntimeType::String])).insert(
        "exists"@,
        fixed(seq![RuntimeType::String]),
    )
}

/// Registers one built-in function, whose count is the number of its kinds.
fn load(fr: &mut FunctionRegistry, name: &str, param_types: Vec<RuntimeType>)
    ensures
        final(fr)@ == old(fr)@.insert(name@, fixed(param_types@)),
{
    let count = ParamCount::Fixed(param_types.len());
    fr.add_function(Function::new(String::from_str(name), count, param_types));
}

/// Registers the built-in functions in `fr`.
pub fn load_native_functions(fr: &mut FunctionRegistry)
    ensures
        final(fr)@ == with_natives(old(fr)@),
{
    let kinds = vec![RuntimeType::Any];
    proof {
        assert(kinds@ =~= seq![RuntimeType::Any]);
    }
    load(fr, "print", kinds);
    load(fr, "read", Vec::new());
    load(fr, "random", Vec::new());
    let kinds = vec![RuntimeType::String];
    proof {
        assert(kinds@ =~= seq![RuntimeType::String]);
    }
    load(fr, "toNumber", kinds);
    let kinds = vec![RuntimeType::Number];
    proof {
        assert(kinds@ =~= seq![RuntimeType::Number]);
    }
    load(fr, "toString", kinds);
    let kinds = vec![RuntimeType::String, RuntimeType::Number, RuntimeType::Number];
    proof {
        assert(kinds@ =~= seq![RuntimeType::String, RuntimeType::Number, RuntimeType::Number]);
    }
    load(fr, "substring", kinds);
    let kinds = vec![RuntimeType::String, RuntimeType::String];
    proof {
        assert(kinds@ =~= seq![RuntimeType::String, RuntimeType::String]);
    }
    load(fr, "writeFile", kinds);
    let kinds = vec![RuntimeType::String];
    proof {
        assert(kinds@ =~= seq![RuntimeType::String]);
    }
    load(fr, "readFile", kinds);
    let kinds = vec![RuntimeType::String];
    proof {
        assert(kinds@ =~= seq![RuntimeType::String]);
    }
    load(fr, "deleteFile", kinds);
    let kinds = vec![RuntimeType::String];
    proof {
        assert(kinds@ =~= seq![RuntimeType::String]);
    }
    load(fr, "exists", kinds);
}

/// The bytes of a text from index `start` up to and with index `end`,
/// where both ends of that part lie between characters of the text;
/// `start` may be one more than `end`, for the empty part.
pub open spec fn part(bytes: Seq<u8>, start: int, end: int) -> Option<Seq<u8>> {
    if 0 <= start <= end + 1 <= bytes.len() && is_char_boundary(bytes, start) && is_char_boundary(
        bytes,
        end + 1,
    ) {
        Some(bytes.subrange(start, end + 1))
    } else {
        None
    }
}

/// What the built-in function `substring` computes: the part of `text`
/// from the byte at the whole part of `start` up to and with the byte at
/// the whole part of `end`. A part out of the range of the text, or one
/// that cuts a character, is a type error.
pub fn substring(text: &str, start: Number, end: Number) -> (r: Result<String, Error>)
    ensures
        match part(text.spec_bytes(), start.whole() as int, end.whole() as int) {
            Some(bytes) => r is Ok && encode_utf8(r.unwrap()@) == bytes,
            None => r == Err::<String, Error>(Error::TypeError),
        },
{
    let length = text.as_bytes().len();
    let first = start.whole();
    let last = end.whole();
    if last >= length as u64 || first > last + 1 {
        return Err(Error::TypeError);
    }
    let from = first as usize;
    let to = (last + 1) as usize;
    if !text.is_char_boundary(from) || !text.is_char_boundary(to) {
        return Err(Error::TypeError);
    }
    let ghost bytes = text.spec_bytes();
    let (head, _) = text.split_at(to);
    proof {
        let front = bytes.subrange(0, to as int);
        encode_utf8_valid_utf8(text@);
        valid_utf8_split(bytes, to as int);
        if from < to {
            is_char_boundary_iff_not_is_continuation_byte(bytes, from as int);
            is_char_boundary_iff_not_is_continuation_byte(front, from as int);
        } else {
            is_char_boundary_start_end_of_seq(front);
        }
    }
    let (_, tail) = head.split_at(from);
    proof {
        assert(tail.spec_bytes() =~= bytes.subrange(from as int, to as int));
    }
    Ok(tail.to_owned())
}

} // verus!
