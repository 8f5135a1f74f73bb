//! Status codes: the canonical reason phrases and the error-variant names
//! derived from them.
//!
//! Each error status code maps to a type name derived from its canonical
//! reason phrase, falling back to a synthetic `E<code>` name when no phrase
//! is known or the phrase does not normalize cleanly: every error code is
//! nameable.

use vstd::prelude::*;

verus! {

use crate::names::camel_of;
use crate::names::to_camel;
use crate::names::TypeName;

/// What the canonical reason phrase of a status code is, if it has one: a
/// fixed table.
pub uninterp spec fn reason_of(code: u16) -> Option<Seq<char>>;

/// Relies on `http::StatusCode::canonical_reason`: a fixed compiled-in
/// table from status code to reason phrase, depending on the code alone.
/// A code outside the crate's representable range has no phrase, like a
/// code missing from the table.
#[verifier::external_body]
fn canonical_reason(code: u16) -> (r: Option<String>)
    ensures
        (r is Some) == (reason_of(code) is Some),
        r matches Some(s) ==> reason_of(code) == Some(s@),
{
    match http::StatusCode::from_u16(code) {
        Ok(sc) => match sc.canonical_reason() {
            Some(phrase) => Some(String::from(phrase)),
            None => None,
        },
        Err(_) => None,
    }
}

/// The decimal digits of `n`, most significant first.
pub open spec fn dec_str(n: nat) -> Seq<char>
    decreases n,
{
    let digit = seq![(('0' as u32) + (n % 10) as u32) as char];
    if n < 10 {
        digit
    } else {
        dec_str(n / 10) + digit
    }
}

/// Render a code in decimal.
pub fn u16_to_string(n: u16) -> (r: String)
    ensures
        r@ == dec_str(n as nat),
    decreases n,
{
    let d = (n % 10) as u8;
    let c = (('0' as u8) + d) as char;
    proof {
        assert(c as u32 == ('0' as u32) + (n as nat % 10));
    }
    if n < 10 {
        let mut out = String::new();
        out.append(char_str(c));
        proof {
            assert(out@ =~= dec_str(n as nat));
        }
        out
    } else {
        let mut out = u16_to_string(n / 10);
        out.append(char_str(c));
        proof {
            assert(out@ =~= dec_str(n as nat));
        }
        out
    }
}

/// A one-character string slice for an ASCII digit.
fn char_str(c: char) -> (r: &'static str)
    requires
        ('0' as u32) <= (c as u32) <= ('9' as u32),
    ensures
        r@ == seq![c],
{
    proof {
        reveal_strlit("0");
        reveal_strlit("1");
        reveal_strlit("2");
        reveal_strlit("3");
        reveal_strlit("4");
        reveal_strlit("5");
        reveal_strlit("6");
        reveal_strlit("7");
        reveal_strlit("8");
        reveal_strlit("9");
    }
    if c == '0' {
        "0"
    } else if c == '1' {
        "1"
    } else if c == '2' {
        "2"
    } else if c == '3' {
        "3"
    } else if c == '4' {
        "4"
    } else if c == '5' {
        "5"
    } else if c == '6' {
        "6"
    } else if c == '7' {
        "7"
    } else {
        assert(c == '8' || c == '9');
        if c == '8' {
            "8"
        } else {
            "9"
        }
    }
}

/// The synthetic fallback name for a status code.
pub open spec fn synthetic_variant(code: u16) -> Seq<char> {
    seq!['E'] + dec_str(code as nat)
}

/// The name an error status code gets: the camel-cased reason phrase when
/// it normalizes cleanly, else the synthetic name when that is canonical,
/// else nothing.
pub open spec fn spec_error_variant(code: u16) -> Option<Seq<char>> {
    let from_phrase = match reason_of(code) {
        Some(ph) => if camel_of(camel_of(ph)) == camel_of(ph) {
            Some(camel_of(ph))
        } else {
            None
        },
        None => None,
    };
    match from_phrase {
        Some(nm) => Some(nm),
        None => if synthetic_variant(code) == camel_of(synthetic_variant(code)) {
            Some(synthetic_variant(code))
        } else {
            None
        },
    }
}

/// Name the error variant for a status code: the camel-cased canonical
/// reason phrase, with `E<code>` as the fallback.
pub fn error_variant_from_status_code(code: u16) -> (r: Option<TypeName>)
    ensures
        r matches Some(t) ==> Some(t@) == spec_error_variant(code) && t.wf(),
        r is None ==> spec_error_variant(code) is None,
{
    match canonical_reason(code) {
        Some(phrase) => {
            let camel = to_camel(phrase.as_str());
            match TypeName::new(camel) {
                Ok(t) => {
                    return Some(t);
                },
                Err(_) => {},
            }
        },
        None => {},
    }
    proof {
        reveal_strlit("E");
    }
    let mut syn = String::from_str("E");
    syn.append(u16_to_string(code).as_str());
    proof {
        assert("E"@ =~= seq!['E']);
        assert(syn@ == synthetic_variant(code));
    }
    match TypeName::new(syn) {
        Ok(t) => Some(t),
        Err(_) => None,
    }
}

} // verus!
