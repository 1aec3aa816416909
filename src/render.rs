//! The printed form of a node.
use vstd::prelude::*;
use crate::integer::{integer_text, integer_to_text};
use crate::data_structures::{Boolean, Coredata, Form, Rational, Sourcedata, Value};

verus! {

pub open spec fn ratio_text(numerator: int, denominator: int) -> Seq<char> {
    integer_text(numerator) + "/"@ + integer_text(denominator)
}

/// The printed form of a value: lists as nested pairs `(head tail)`, the
/// empty list as `()`, texts as `(" text)`, errors as `(error payload)`.
pub open spec fn text_of(v: Value) -> Seq<char>
    decreases v,
{
    match v.form {
        Form::Null => "()"@,
        Form::Boolean(b) => if b {
            "true"@
        } else {
            "false"@
        },
        Form::Integer(i) => integer_text(i),
        Form::Rational(n, d) => ratio_text(n, d),
        Form::Complex(a, b, c, d) => ratio_text(a, b) + "+"@ + ratio_text(c, d) + "i"@,
        Form::Text(s) => "(\" "@ + s + ")"@,
        Form::Symbol(s) => s,
        Form::Pair(h, t) => "("@ + text_of(*h) + " "@ + text_of(*t) + ")"@,
        Form::BuiltinFunction(_) | Form::LibraryFunction(_, _) => "(function)"@,
        Form::BuiltinMacro(_) | Form::LibraryMacro(_, _) => "(macro)"@,
        Form::Error(e) => "(error "@ + text_of(*e) + ")"@,
        _ => "(internal)"@,
    }
}

fn rational_to_text(r: &Rational) -> (s: String)
    ensures
        s@ == ratio_text(r.numerator.value(), r.denominator.value()),
{
    let mut s = integer_to_text(&r.numerator);
    s.append("/");
    let d = integer_to_text(&r.denominator);
    s.append(d.as_str());
    s
}

impl Sourcedata {
    /// The printed form of this node.
    pub fn to_text(&self) -> (r: String)
        ensures
            r@ == text_of(self@),
        decreases self,
    {
        match &self.1 {
            Coredata::Null => String::from_str("()"),
            Coredata::Boolean(Boolean::True) => String::from_str("true"),
            Coredata::Boolean(Boolean::False) => String::from_str("false"),
            Coredata::Integer(i) => integer_to_text(i),
            Coredata::Rational(r) => rational_to_text(r),
            Coredata::Complex(c) => {
                let mut s = rational_to_text(&c.real);
                s.append("+");
                let im = rational_to_text(&c.imaginary);
                s.append(im.as_str());
                s.append("i");
                s
            },
            Coredata::String(text) => {
                let mut s = String::from_str("(\" ");
                s.append(text.as_str());
                s.append(")");
                s
            },
            Coredata::Symbol(name) => name.clone(),
            Coredata::Pair(h, t) => {
                let mut s = String::from_str("(");
                let head = (**h).to_text();
                s.append(head.as_str());
                s.append(" ");
                let tail = (**t).to_text();
                s.append(tail.as_str());
                s.append(")");
                s
            },
            Coredata::Function(_) => String::from_str("(function)"),
            Coredata::Macro(_) => String::from_str("(macro)"),
            Coredata::Error(e) => {
                let mut s = String::from_str("(error ");
                let payload = (**e).to_text();
                s.append(payload.as_str());
                s.append(")");
                s
            },
            Coredata::Internal(_) => String::from_str("(internal)"),
        }
    }
}

} // verus!
