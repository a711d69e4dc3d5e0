//! Decimal integers in text, with the grammar of Rust's integer `FromStr`:
//! an optional sign followed by one or more ASCII digits.
use vstd::prelude::*;
use vstd::string::*;

verus! {

/// Why a text is not an integer of the wanted range.
#[derive(Clone, Copy, Debug, PartialEq, Eq, Structural)]
pub enum IntErrorKind {
    Empty,
    InvalidDigit,
    PosOverflow,
    NegOverflow,
}

impl IntErrorKind {
    pub open spec fn spec_message(self) -> Seq<char> {
        match self {
            IntErrorKind::Empty => "cannot parse integer from empty string"@,
            IntErrorKind::InvalidDigit => "invalid digit found in string"@,
            IntErrorKind::PosOverflow => "number too large to fit in target type"@,
            IntErrorKind::NegOverflow => "number too small to fit in target type"@,
        }
    }

    /// The reason in words.
    pub fn message(&self) -> (r: String)
        ensures
            r@ == self.spec_message(),
    {
        match self {
            IntErrorKind::Empty => "cannot parse integer from empty string".to_owned(),
            IntErrorKind::InvalidDigit => "invalid digit found in string".to_owned(),
            IntErrorKind::PosOverflow => "number too large to fit in target type".to_owned(),
            IntErrorKind::NegOverflow => "number too small to fit in target type".to_owned(),
        }
    }
}

pub open spec fn is_digit(c: char) -> bool {
    '0' <= c && c <= '9'
}

pub open spec fn all_digits(d: Seq<char>) -> bool {
    forall|i: int| 0 <= i < d.len() ==> is_digit(#[trigger] d[i])
}

pub open spec fn digit_value(c: char) -> nat {
    (c as u32 - '0' as u32) as nat
}

/// The value of a run of decimal digits.
pub open spec fn digits_value(d: Seq<char>) -> nat
    decreases d.len(),
{
    if d.len() == 0 {
        0
    } else {
        digits_value(d.drop_last()) * 10 + digit_value(d.last())
    }
}

/// The digits after an optional leading `+` (or `-` where `signed`).
pub open spec fn unsigned_part(s: Seq<char>, signed: bool) -> Seq<char> {
    if s.len() > 0 && (s[0] == '+' || (signed && s[0] == '-')) {
        s.drop_first()
    } else {
        s
    }
}

/// An unsigned integer no larger than `max`.
pub open spec fn spec_parse_unsigned(s: Seq<char>, max: nat) -> Result<int, IntErrorKind> {
    let d = unsigned_part(s, false);
    if s.len() == 0 {
        Err(IntErrorKind::Empty)
    } else if d.len() == 0 || !all_digits(d) {
        Err(IntErrorKind::InvalidDigit)
    } else if digits_value(d) > max {
        Err(IntErrorKind::PosOverflow)
    } else {
        Ok(digits_value(d) as int)
    }
}

/// A signed integer in `min..=max`.
pub open spec fn spec_parse_signed(s: Seq<char>, min: int, max: int) -> Result<int, IntErrorKind> {
    let d = unsigned_part(s, true);
    if s.len() == 0 {
        Err(IntErrorKind::Empty)
    } else if d.len() == 0 || !all_digits(d) {
        Err(IntErrorKind::InvalidDigit)
    } else if s[0] == '-' {
        if -(digits_value(d) as int) < min {
            Err(IntErrorKind::NegOverflow)
        } else {
            Ok(-(digits_value(d) as int))
        }
    } else if digits_value(d) > max {
        Err(IntErrorKind::PosOverflow)
    } else {
        Ok(digits_value(d) as int)
    }
}

pub open spec fn result_int(r: Result<u64, IntErrorKind>) -> Result<int, IntErrorKind> {
    match r {
        Ok(v) => Ok(v as int),
        Err(e) => Err(e),
    }
}

pub open spec fn result_sint(r: Result<i64, IntErrorKind>) -> Result<int, IntErrorKind> {
    match r {
        Ok(v) => Ok(v as int),
        Err(e) => Err(e),
    }
}

/// `Err(())` where some character is not a digit; `Ok(None)` where the value
/// is above `bound`; else the value.
fn scan_digits(cs: &Vec<char>, start: usize, bound: u64) -> (r: Result<Option<u64>, ()>)
    requires
        start <= cs.len(),
        bound <= u32::MAX,
    ensures
        match r {
            Err(_) => !all_digits(cs@.subrange(start as int, cs@.len() as int)),
            Ok(None) => all_digits(cs@.subrange(start as int, cs@.len() as int)) && digits_value(
                cs@.subrange(start as int, cs@.len() as int),
            ) > bound,
            Ok(Some(v)) => all_digits(cs@.subrange(start as int, cs@.len() as int)) && v
                == digits_value(cs@.subrange(start as int, cs@.len() as int)) && v <= bound,
        },
{
    let mut acc: u64 = 0;
    let mut over = false;
    let mut i = start;
    assert(cs@.subrange(start as int, start as int) =~= Seq::<char>::empty());
    while i < cs.len()
        invariant
            start <= i <= cs.len(),
            bound <= u32::MAX,
            all_digits(cs@.subrange(start as int, i as int)),
            over ==> digits_value(cs@.subrange(start as int, i as int)) > bound,
            !over ==> acc == digits_value(cs@.subrange(start as int, i as int)) && acc <= bound,
        decreases cs.len() - i,
    {
        let c = cs[i];
        let ghost prev = cs@.subrange(start as int, i as int);
        let ghost next = cs@.subrange(start as int, i + 1);
        if c < '0' || c > '9' {
            assert(cs@.subrange(start as int, cs@.len() as int)[i - start] == c);
            return Err(());
        }
        proof {
            assert(next.drop_last() =~= prev);
            assert(next.last() == c);
            assert(all_digits(next)) by {
                assert forall|j: int| 0 <= j < next.len() implies is_digit(#[trigger] next[j]) by {
                    if j < prev.len() {
                        assert(next[j] == prev[j]);
                    }
                }
            }
        }
        let d = ((c as u32) - ('0' as u32)) as u64;
        if !over {
            let n = acc * 10 + d;
            if n > bound {
                over = true;
            } else {
                acc = n;
            }
        }
        i += 1;
    }
    assert(cs@.subrange(start as int, i as int) =~= cs@.subrange(start as int, cs@.len() as int));
    if over {
        Ok(None)
    } else {
        Ok(Some(acc))
    }
}

/// An unsigned decimal integer no larger than `max`.
pub fn parse_unsigned(s: &str, max: u64) -> (r: Result<u64, IntErrorKind>)
    requires
        max <= u32::MAX,
    ensures
        result_int(r) == spec_parse_unsigned(s@, max as nat),
{
    let cs = crate::text::chars_of(s);
    if cs.len() == 0 {
        return Err(IntErrorKind::Empty);
    }
    let start: usize = if cs[0] == '+' {
        1
    } else {
        0
    };
    assert(unsigned_part(s@, false) =~= cs@.subrange(start as int, cs@.len() as int));
    if start == cs.len() {
        return Err(IntErrorKind::InvalidDigit);
    }
    match scan_digits(&cs, start, max) {
        Err(_) => Err(IntErrorKind::InvalidDigit),
        Ok(None) => Err(IntErrorKind::PosOverflow),
        Ok(Some(v)) => Ok(v),
    }
}

/// A signed decimal integer in `min..=max`.
pub fn parse_signed(s: &str, min: i64, max: i64) -> (r: Result<i64, IntErrorKind>)
    requires
        -(u32::MAX as int) <= min <= 0 <= max <= u32::MAX,
    ensures
        result_sint(r) == spec_parse_signed(s@, min as int, max as int),
{
    let cs = crate::text::chars_of(s);
    if cs.len() == 0 {
        return Err(IntErrorKind::Empty);
    }
    let negative = cs[0] == '-';
    let start: usize = if cs[0] == '+' || cs[0] == '-' {
        1
    } else {
        0
    };
    assert(unsigned_part(s@, true) =~= cs@.subrange(start as int, cs@.len() as int));
    if start == cs.len() {
        return Err(IntErrorKind::InvalidDigit);
    }
    if negative {
        match scan_digits(&cs, start, (-min) as u64) {
            Err(_) => Err(IntErrorKind::InvalidDigit),
            Ok(None) => Err(IntErrorKind::NegOverflow),
            Ok(Some(v)) => Ok(-(v as i64)),
        }
    } else {
        match scan_digits(&cs, start, max as u64) {
            Err(_) => Err(IntErrorKind::InvalidDigit),
            Ok(None) => Err(IntErrorKind::PosOverflow),
            Ok(Some(v)) => Ok(v as i64),
        }
    }
}

} // verus!
