//! Values of the language and the conversions between them that need no
//! floating-point arithmetic.
use vstd::prelude::*;

verus! {

/// Bit pattern of the binary64 number 1.0.
pub const ONE_BITS: u64 = 0x3FF0_0000_0000_0000;

/// Mask that clears the sign bit of a binary64 bit pattern.
pub const MAGNITUDE_MASK: u64 = 0x7FFF_FFFF_FFFF_FFFF;

/// A value on the stack or in the memory table.
#[derive(Debug)]
pub enum Value {
    /// A binary64 number, as its bit pattern.
    Number(u64),
    Text(String),
    Bool(bool),
    /// Source text stored unevaluated; naming it evaluates it.
    Function(String),
    Null,
}

/// Mathematical model of a `Value`.
pub enum Val {
    Number(u64),
    Text(Seq<char>),
    Bool(bool),
    Function(Seq<char>),
    Null,
}

impl View for Value {
    type V = Val;

    open spec fn view(&self) -> Val {
        match self {
            Value::Number(b) => Val::Number(*b),
            Value::Text(s) => Val::Text(s@),
            Value::Bool(b) => Val::Bool(*b),
            Value::Function(s) => Val::Function(s@),
            Value::Null => Val::Null,
        }
    }
}

/// The models of a sequence of values.
pub open spec fn vals(s: Seq<Value>) -> Seq<Val> {
    s.map_values(|v: Value| v@)
}

/// A binary64 number is nonzero unless all its bits but the sign are clear.
pub open spec fn number_is_nonzero(bits: u64) -> bool {
    bits & MAGNITUDE_MASK != 0
}

/// Truth of a value: zero, the empty text and null are false.
pub open spec fn truth(v: Val) -> bool {
    match v {
        Val::Number(b) => number_is_nonzero(b),
        Val::Text(s) => s.len() != 0,
        Val::Function(s) => s.len() != 0,
        Val::Bool(b) => b,
        Val::Null => false,
    }
}

/// The word for true.
pub open spec fn true_word() -> Seq<char> {
    seq!['真']
}

/// The word for false.
pub open spec fn false_word() -> Seq<char> {
    seq!['偽']
}

/// The word for null.
pub open spec fn null_word() -> Seq<char> {
    seq!['無']
}

/// Text form of a value that is not a number.
pub open spec fn plain_text(v: Val) -> Seq<char> {
    match v {
        Val::Text(s) => s,
        Val::Function(s) => s,
        Val::Bool(b) => if b { true_word() } else { false_word() },
        _ => Seq::empty(),
    }
}

/// Number form of a value that is neither text nor a function.
pub open spec fn plain_number(v: Val) -> u64 {
    match v {
        Val::Number(b) => b,
        Val::Bool(b) => if b { ONE_BITS } else { 0 },
        _ => 0,
    }
}

/// Relies on String::push: the character is appended.
#[verifier::external_body]
pub(crate) fn push_char(s: &mut String, c: char)
    ensures
        final(s)@ == old(s)@.push(c),
{
    s.push(c)
}

/// A copy of a string with the same characters.
pub fn copy_text(s: &String) -> (r: String)
    ensures
        r@ == s@,
{
    s.clone()
}

impl Value {
    /// A copy of the value.
    pub fn duplicate(&self) -> (r: Value)
        ensures
            r@ == self@,
    {
        match self {
            Value::Number(b) => Value::Number(*b),
            Value::Text(s) => Value::Text(copy_text(s)),
            Value::Bool(b) => Value::Bool(*b),
            Value::Function(s) => Value::Function(copy_text(s)),
            Value::Null => Value::Null,
        }
    }

    /// Truth of the value, as conditions and logic read it.
    pub fn get_bool(&self) -> (r: bool)
        ensures
            r == truth(self@),
    {
        match self {
            Value::Number(b) => *b & MAGNITUDE_MASK != 0,
            Value::Text(s) => s.as_str().unicode_len() != 0,
            Value::Function(s) => s.as_str().unicode_len() != 0,
            Value::Bool(b) => *b,
            Value::Null => false,
        }
    }

    /// Whether turning the value into text needs a number rendered.
    pub fn is_number(&self) -> (r: bool)
        ensures
            r == (self@ is Number),
    {
        match self {
            Value::Number(_) => true,
            _ => false,
        }
    }

    /// Whether turning the value into a number needs text parsed.
    pub fn holds_text(&self) -> (r: bool)
        ensures
            r == (self@ is Text || self@ is Function),
    {
        match self {
            Value::Text(_) | Value::Function(_) => true,
            _ => false,
        }
    }

    /// Text form of a value that is not a number: the content of text and
    /// functions, the true and false words, and the empty text for null.
    pub fn get_plain_string(&self) -> (r: String)
        requires
            !(self@ is Number),
        ensures
            r@ == plain_text(self@),
    {
        match self {
            Value::Text(s) => copy_text(s),
            Value::Function(s) => copy_text(s),
            Value::Bool(b) => {
                let mut r = String::new();
                push_char(&mut r, if *b { '真' } else { '偽' });
                r
            },
            _ => String::new(),
        }
    }

    /// Number form of a value that holds no text: 1 and 0 for the truth
    /// values, 0 for null.
    pub fn get_plain_number(&self) -> (r: u64)
        requires
            !(self@ is Text || self@ is Function),
        ensures
            r == plain_number(self@),
    {
        match self {
            Value::Number(b) => *b,
            Value::Bool(b) => if *b { ONE_BITS } else { 0 },
            _ => 0,
        }
    }

    /// Display form of a value that is not a number: text and functions
    /// between the literal brackets, the words for the truth values and null.
    pub fn get_plain_symbol(&self) -> (r: String)
        requires
            !(self@ is Number),
        ensures
            r@ == (match self@ {
                Val::Text(s) => seq!['「'] + s + seq!['」'],
                Val::Function(s) => seq!['「'] + s + seq!['」'],
                Val::Null => null_word(),
                v => plain_text(v),
            }),
    {
        match self {
            Value::Text(s) | Value::Function(s) => {
                let mut r = String::new();
                push_char(&mut r, '「');
                let mut r = r.concat(s.as_str());
                push_char(&mut r, '」');
                r
            },
            Value::Null => {
                let mut r = String::new();
                push_char(&mut r, '無');
                r
            },
            _ => self.get_plain_string(),
        }
    }
}

} // verus!
