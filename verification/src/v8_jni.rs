//! Values that cross the boundary to the managed host runtime.

use crate::text::{decode_text_lossy, utf8_lossy};
use vstd::prelude::*;

verus! {

/// A byte string received from the engine.
#[allow(non_camel_case_types)]
#[derive(Debug)]
pub struct string_t {
    bytes: Vec<u8>,
}

impl View for string_t {
    type V = Seq<u8>;

    closed spec fn view(&self) -> Seq<u8> {
        self.bytes@
    }
}

impl string_t {
    pub fn new(bytes: Vec<u8>) -> (s: string_t)
        ensures
            s@ == bytes@,
    {
        string_t { bytes }
    }

    pub fn len(&self) -> (n: usize)
        ensures
            n == self@.len(),
    {
        self.bytes.len()
    }

    /// The bytes as text, with each malformed part replaced.
    pub fn to_string(&self) -> (text: String)
        ensures
            text@ == utf8_lossy(self@),
            vstd::utf8::valid_utf8(self@) ==> text@ == vstd::utf8::decode_utf8(self@),
    {
        decode_text_lossy(&self.bytes)
    }
}

/// The two readings of an argument's data word.
#[allow(non_camel_case_types)]
#[derive(Clone, Copy, Debug, PartialEq, Eq, Structural)]
pub struct data_t {
    /// The word read as an integer.
    pub i: i32,
    /// The word read as the handle of a string.
    pub s: i64,
}

/// One argument of a call into the host runtime: a data word and the tag
/// that says how to read it.
#[allow(non_camel_case_types)]
#[derive(Clone, Copy, Debug, PartialEq, Eq, Structural)]
pub struct value_t {
    pub data: data_t,
    pub t: u8,
}

/// An argument, decoded by its tag.
#[derive(Clone, Copy, Debug, PartialEq, Eq, Structural)]
pub enum Argument {
    Integer(i32),
    /// The handle of a string kept on the native side.
    Text(i64),
    Null,
}

pub const TAG_INTEGER: u8 = 0;

pub const TAG_TEXT: u8 = 3;

impl value_t {
    pub open spec fn spec_decode(self) -> Argument {
        if self.t == TAG_INTEGER {
            Argument::Integer(self.data.i)
        } else if self.t == TAG_TEXT {
            Argument::Text(self.data.s)
        } else {
            Argument::Null
        }
    }

    /// Reads the data word as the tag says. An unknown tag gives null.
    pub fn decode(&self) -> (argument: Argument)
        ensures
            argument == self.spec_decode(),
    {
        if self.t == TAG_INTEGER {
            Argument::Integer(self.data.i)
        } else if self.t == TAG_TEXT {
            Argument::Text(self.data.s)
        } else {
            Argument::Null
        }
    }
}

pub open spec fn decoded(args: Seq<value_t>) -> Seq<Argument> {
    args.map_values(|value: value_t| value.spec_decode())
}

/// Decodes the arguments of a call, in their order.
pub fn decode_arguments(args: &Vec<value_t>) -> (arguments: Vec<Argument>)
    ensures
        arguments@ == decoded(args@),
{
    let mut arguments: Vec<Argument> = Vec::new();
    let mut i: usize = 0;
    while i < args.len()
        invariant
            0 <= i <= args.len(),
            arguments@ == decoded(args@.take(i as int)),
        decreases args.len() - i,
    {
        arguments.push(args[i].decode());
        assert(arguments@ =~= decoded(args@.take(i + 1)));
        i += 1;
    }
    assert(args@.take(args.len() as int) =~= args@);
    arguments
}

/// What to do with the answer of the host runtime to a method call.
#[derive(Clone, Copy, Debug, PartialEq, Eq, Structural)]
pub enum Answer {
    /// The call threw: the exception goes to the script.
    Throw,
    /// The answer is a 32-bit integer.
    IntValue,
    /// The answer is a 64-bit integer.
    LongValue,
    /// The answer is a double.
    DoubleValue,
    /// The answer has no value for the script.
    Null,
}

pub open spec fn answer_of(sig: u8, has_error: bool) -> Answer {
    if has_error {
        Answer::Throw
    } else if sig == 0 {
        Answer::IntValue
    } else if sig == 1 {
        Answer::LongValue
    } else if sig == 2 {
        Answer::DoubleValue
    } else {
        Answer::Null
    }
}

/// Reads the answer's error flag and type tag. The error flag wins over
/// the tag.
pub fn classify_answer(sig: u8, has_error: bool) -> (answer: Answer)
    ensures
        answer == answer_of(sig, has_error),
{
    if has_error {
        Answer::Throw
    } else if sig == 0 {
        Answer::IntValue
    } else if sig == 1 {
        Answer::LongValue
    } else if sig == 2 {
        Answer::DoubleValue
    } else {
        Answer::Null
    }
}

} // verus!
