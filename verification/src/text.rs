//! Text: small string helpers, numbers in decimal, and values as their
//! debug form shows them.
use vstd::prelude::*;
use vstd::string::StringExecFns;
use crate::field::{Payload, Value};

verus! {

/// Compares two string slices.
///
/// Trusted: calls `str`'s `PartialEq::eq` and claims that it returns `true`
/// exactly when both slices hold the same sequence of characters.
#[verifier::external_body]
pub(crate) fn str_eq(a: &str, b: &str) -> (same: bool)
    ensures
        same == (a@ == b@),
{
    a == b
}

/// Appends one character to a string.
///
/// Trusted: calls `String::push`, which adds the character at the end and
/// leaves the rest as it is.
#[verifier::external_body]
pub(crate) fn push_char(dest: &mut String, c: char)
    ensures
        final(dest)@ == old(dest)@.push(c),
{
    dest.push(c)
}

/// Appends a string slice to a string.
pub fn push_str(dest: &mut String, s: &str)
    ensures
        final(dest)@ == old(dest)@ + s@,
{
    dest.append(s)
}

/// The character of a decimal digit.
pub open spec fn digit(d: nat) -> char
    recommends
        d < 10,
{
    if d == 0 {
        '0'
    } else if d == 1 {
        '1'
    } else if d == 2 {
        '2'
    } else if d == 3 {
        '3'
    } else if d == 4 {
        '4'
    } else if d == 5 {
        '5'
    } else if d == 6 {
        '6'
    } else if d == 7 {
        '7'
    } else if d == 8 {
        '8'
    } else {
        '9'
    }
}

/// The decimal form of a number, without sign or leading zeros.
pub open spec fn decimal(n: nat) -> Seq<char>
    decreases n,
{
    if n < 10 {
        seq![digit(n)]
    } else {
        decimal(n / 10).push(digit(n % 10))
    }
}

fn digit_char(d: u8) -> (c: char)
    requires
        d < 10,
    ensures
        c == digit(d as nat),
{
    if d == 0 {
        '0'
    } else if d == 1 {
        '1'
    } else if d == 2 {
        '2'
    } else if d == 3 {
        '3'
    } else if d == 4 {
        '4'
    } else if d == 5 {
        '5'
    } else if d == 6 {
        '6'
    } else if d == 7 {
        '7'
    } else if d == 8 {
        '8'
    } else {
        '9'
    }
}

/// Appends the decimal form of `n` to `dest`.
pub fn push_decimal(dest: &mut String, n: u128)
    ensures
        final(dest)@ == old(dest)@ + decimal(n as nat),
{
    let mut rev: Vec<char> = Vec::new();
    rev.push(digit_char((n % 10) as u8));
    let mut m: u128 = n / 10;
    assert(rev@.reverse() =~= seq![digit((n % 10) as nat)]);
    while m > 0
        invariant
            rev@.len() > 0,
            decimal(n as nat) == if m > 0 {
                decimal(m as nat) + rev@.reverse()
            } else {
                rev@.reverse()
            },
        decreases m,
    {
        let ghost before = rev@;
        rev.push(digit_char((m % 10) as u8));
        proof {
            let d = digit((m % 10) as nat);
            assert(rev@.reverse() =~= seq![d] + before.reverse());
            if m >= 10 {
                assert(decimal(m as nat) =~= decimal((m / 10) as nat).push(d));
                assert(decimal((m / 10) as nat).push(d) + before.reverse() =~= decimal(
                    (m / 10) as nat,
                ) + (seq![d] + before.reverse()));
            } else {
                assert(decimal(m as nat) =~= seq![d]);
            }
        }
        m = m / 10;
    }
    let mut k: usize = rev.len();
    let ghost all = rev@.reverse();
    assert(old(dest)@ + all.subrange(0, 0) =~= old(dest)@);
    while k > 0
        invariant
            k <= rev@.len(),
            all == rev@.reverse(),
            dest@ == old(dest)@ + all.subrange(0, rev@.len() - k),
        decreases k,
    {
        k -= 1;
        push_char(dest, rev[k]);
        proof {
            let done = rev@.len() - k;
            assert(all[done - 1] == rev@[k as int]);
            assert(all.subrange(0, done) =~= all.subrange(0, done - 1).push(rev@[k as int]));
        }
    }
    assert(all.subrange(0, rev@.len() as int) =~= all);
}

/// The text of a value as its debug form shows it.
pub open spec fn rendered(value: Payload) -> Seq<char> {
    match value {
        Payload::Bool(b) => if b {
            "true"@
        } else {
            "false"@
        },
        Payload::I64(n) => if n < 0 {
            "-"@ + decimal((-n) as nat)
        } else {
            decimal(n as nat)
        },
        Payload::U64(n) => decimal(n),
        Payload::F64(_, text) => text,
        Payload::Str(s) => str_debug(s),
        Payload::Display(text) => text,
        Payload::Debug(text) => text,
        Payload::Error(text) => text,
    }
}

/// The debug form of a string: in double quotes, with the characters escaped
/// that cannot stand for themselves.
pub uninterp spec fn str_debug(s: Seq<char>) -> Seq<char>;

/// The debug form of a string slice.
///
/// Trusted: `str`'s `Debug::fmt`, called through `format`, writes the slice
/// in quotes with escapes; what it writes depends on the characters of the
/// slice alone.
#[verifier::external_body]
fn debug_form(s: &str) -> (text: String)
    ensures
        text@ == str_debug(s@),
{
    format!("{:?}", s)
}

/// Appends the debug form of a value.
pub fn render(dest: &mut String, value: &Value<'_>)
    ensures
        final(dest)@ == old(dest)@ + rendered(value@),
{
    match *value {
        Value::Bool(b) => {
            if b {
                push_str(dest, "true")
            } else {
                push_str(dest, "false")
            }
        },
        Value::I64(n) => {
            if n < 0 {
                push_str(dest, "-");
                push_decimal(dest, (-(n as i128)) as u128);
                assert(dest@ =~= old(dest)@ + ("-"@ + decimal((-(n as int)) as nat)));
            } else {
                push_decimal(dest, n as u128)
            }
        },
        Value::U64(n) => push_decimal(dest, n as u128),
        Value::F64(_, text) => push_str(dest, text),
        Value::Str(s) => {
            let quoted = debug_form(s);
            push_str(dest, quoted.as_str())
        },
        Value::Display(text) => push_str(dest, text),
        Value::Debug(text) => push_str(dest, text),
        Value::Error(text) => push_str(dest, text),
    }
}

} // verus!
