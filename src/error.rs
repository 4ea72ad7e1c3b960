use vstd::prelude::*;

use crate::value::str_eq;

verus! {

/// What went wrong while decoding.
#[derive(PartialEq, Debug)]
pub enum DecodeErrorKind {
    /// An error flagged by the application, e.g. a value out of range.
    ApplicationError(String),
    /// A field was expected, but none was found; holds the expected type.
    ExpectedField(Option<&'static str>),
    /// A field was found with the wrong type: the expected and the found type.
    ExpectedType(&'static str, &'static str),
    /// The nth map key was expected, but none was found.
    ExpectedMapKey(usize),
    /// The nth map element was expected, but none was found.
    ExpectedMapElement(usize),
    /// An enum was requested, but no variants were supplied.
    NoEnumVariants,
    /// The unit type was requested, but a non-empty value was found.
    NilTooLong,
    /// The document's syntax was malformed.
    SyntaxError,
    /// The input ended too soon.
    EndOfStream,
}

/// A decoding failure together with the dotted path of the field it concerns.
#[derive(PartialEq, Debug)]
pub struct DecodeError {
    /// The field that this error applies to; `None` at the document's root.
    pub field: Option<String>,
    /// What went wrong.
    pub kind: DecodeErrorKind,
}

/// The character of a decimal digit.
pub open spec fn digit_char(d: nat) -> char {
    if d == 0 { '0' } else if d == 1 { '1' } else if d == 2 { '2' } else if d == 3 { '3' }
    else if d == 4 { '4' } else if d == 5 { '5' } else if d == 6 { '6' } else if d == 7 { '7' }
    else if d == 8 { '8' } else { '9' }
}

/// The decimal digits of `n`, most significant first, without leading zeros.
pub open spec fn decimal(n: nat) -> Seq<char>
    decreases n,
{
    if n < 10 {
        seq![digit_char(n)]
    } else {
        decimal(n / 10) + seq![digit_char(n % 10)]
    }
}

/// A type name as it reads in a mismatch message: a table reads as a
/// section.
pub open spec fn humanize(s: Seq<char>) -> Seq<char> {
    if s == "section"@ || s == "table"@ {
        "a section"@
    } else {
        "a value of type `"@ + s + "`"@
    }
}

/// The message of an error kind, without the field.
pub open spec fn kind_message(k: DecodeErrorKind) -> Seq<char> {
    match k {
        DecodeErrorKind::ApplicationError(s) => s@,
        DecodeErrorKind::ExpectedField(Some(t)) => if t@ == "table"@ {
            "expected a section"@
        } else {
            "expected a value of type `"@ + t@ + "`"@
        },
        DecodeErrorKind::ExpectedField(None) => "expected a value"@,
        DecodeErrorKind::ExpectedType(e, f) => "expected "@ + humanize(e@) + ", but found "@
            + humanize(f@),
        DecodeErrorKind::ExpectedMapKey(i) => "expected at least "@ + decimal((i + 1) as nat) + " keys"@,
        DecodeErrorKind::ExpectedMapElement(i) => "expected at least "@ + decimal((i + 1) as nat)
            + " elements"@,
        DecodeErrorKind::NoEnumVariants => "expected an enum variant to decode to"@,
        DecodeErrorKind::NilTooLong => "expected 0-length string"@,
        DecodeErrorKind::SyntaxError => "syntax error"@,
        DecodeErrorKind::EndOfStream => "end of stream"@,
    }
}

/// The full message of an error: the kind's message, then the field if any.
pub open spec fn message(e: DecodeError) -> Seq<char> {
    match e.field {
        Some(f) => kind_message(e.kind) + " for the key `"@ + f@ + "`"@,
        None => kind_message(e.kind),
    }
}

/// The short description of an error kind.
pub open spec fn kind_description(k: DecodeErrorKind) -> Seq<char> {
    match k {
        DecodeErrorKind::ApplicationError(s) => s@,
        DecodeErrorKind::ExpectedField(_) => "expected a field"@,
        DecodeErrorKind::ExpectedType(_, _) => "expected a type"@,
        DecodeErrorKind::ExpectedMapKey(_) => "expected a map key"@,
        DecodeErrorKind::ExpectedMapElement(_) => "expected a map element"@,
        DecodeErrorKind::NoEnumVariants => "no enum variants to decode to"@,
        DecodeErrorKind::NilTooLong => "nonzero length string representing nil"@,
        DecodeErrorKind::SyntaxError => "syntax error"@,
        DecodeErrorKind::EndOfStream => "end of stream"@,
    }
}

fn digit_str(d: u128) -> (r: &'static str)
    requires
        d < 10,
    ensures
        r@ == seq![digit_char(d as nat)],
{
    proof {
        reveal_strlit("0");
        reveal_strlit("1");
        reveal_strlit("2");
        reveal_strlit("3");
        reveal_strlit("4");
        reveal_strlit("5");
        reveal_strlit("6");
        reveal_strlit("7");
        reveal_strlit("8");
        reveal_strlit("9");
    }
    let r = if d == 0 { "0" } else if d == 1 { "1" } else if d == 2 { "2" } else if d == 3 {
        "3"
    } else if d == 4 { "4" } else if d == 5 { "5" } else if d == 6 { "6" } else if d == 7 {
        "7"
    } else if d == 8 { "8" } else { "9" };
    assert(r@ =~= seq![digit_char(d as nat)]);
    r
}

/// Appends the decimal digits of `n` to `out`.
fn push_decimal(out: &mut String, n: u128)
    ensures
        final(out)@ == old(out)@ + decimal(n as nat),
    decreases n,
{
    if n >= 10 {
        push_decimal(out, n / 10);
    }
    out.append(digit_str(n % 10));
    assert(final(out)@ =~= old(out)@ + decimal(n as nat));
}

/// Appends a type name as it reads in a mismatch message.
fn push_humanized(out: &mut String, s: &str)
    ensures
        final(out)@ == old(out)@ + humanize(s@),
{
    if str_eq(s, "section") || str_eq(s, "table") {
        out.append("a section");
    } else {
        out.append("a value of type `");
        out.append(s);
        out.append("`");
    }
    assert(final(out)@ =~= old(out)@ + humanize(s@));
}

/// Appends the message of `kind` to `out`.
fn push_kind_message(out: &mut String, kind: &DecodeErrorKind)
    ensures
        final(out)@ == old(out)@ + kind_message(*kind),
{
    match kind {
        DecodeErrorKind::ApplicationError(s) => out.append(s.as_str()),
        DecodeErrorKind::ExpectedField(expected) => match expected {
            Some(t) => {
                if str_eq(t, "table") {
                    out.append("expected a section");
                } else {
                    out.append("expected a value of type `");
                    out.append(t);
                    out.append("`");
                }
            },
            None => out.append("expected a value"),
        },
        DecodeErrorKind::ExpectedType(expected, found) => {
            out.append("expected ");
            push_humanized(out, expected);
            out.append(", but found ");
            push_humanized(out, found);
        },
        DecodeErrorKind::ExpectedMapKey(idx) => {
            out.append("expected at least ");
            push_decimal(out, *idx as u128 + 1);
            out.append(" keys");
        },
        DecodeErrorKind::ExpectedMapElement(idx) => {
            out.append("expected at least ");
            push_decimal(out, *idx as u128 + 1);
            out.append(" elements");
        },
        DecodeErrorKind::NoEnumVariants => out.append("expected an enum variant to decode to"),
        DecodeErrorKind::NilTooLong => out.append("expected 0-length string"),
        DecodeErrorKind::SyntaxError => out.append("syntax error"),
        DecodeErrorKind::EndOfStream => out.append("end of stream"),
    }
    assert(final(out)@ =~= old(out)@ + kind_message(*kind));
}

impl DecodeError {
    /// Renders the error as a human-readable message, naming the field
    /// (" for the key `a.b`") where there is one.
    pub fn to_string(&self) -> (r: String)
        ensures
            r@ == message(*self),
    {
        let mut out = String::new();
        push_kind_message(&mut out, &self.kind);
        match &self.field {
            Some(f) => {
                out.append(" for the key `");
                out.append(f.as_str());
                out.append("`");
            },
            None => {},
        }
        assert(out@ =~= message(*self));
        out
    }

    /// A short description of the kind of error, without the field.
    pub fn description(&self) -> (r: &str)
        ensures
            r@ == kind_description(self.kind),
    {
        match &self.kind {
            DecodeErrorKind::ApplicationError(s) => s.as_str(),
            DecodeErrorKind::ExpectedField(_) => "expected a field",
            DecodeErrorKind::ExpectedType(_, _) => "expected a type",
            DecodeErrorKind::ExpectedMapKey(_) => "expected a map key",
            DecodeErrorKind::ExpectedMapElement(_) => "expected a map element",
            DecodeErrorKind::NoEnumVariants => "no enum variants to decode to",
            DecodeErrorKind::NilTooLong => "nonzero length string representing nil",
            DecodeErrorKind::SyntaxError => "syntax error",
            DecodeErrorKind::EndOfStream => "end of stream",
        }
    }
}

} // verus!
