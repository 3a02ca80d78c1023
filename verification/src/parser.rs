use crate::decimal::{all_digits, decimal_value, digit_value, is_digit};
use crate::text::{trim, trimmed};
use vstd::prelude::*;
use vstd::string::*;

verus! {

/// Why a model's answer could not be read.
#[derive(Clone, Copy, Debug, PartialEq, Eq, Structural)]
pub enum ParseError {
    /// The text holds no character at all.
    Empty,
    /// The text holds a character that is no decimal digit, or a sign alone.
    InvalidDigit,
    /// The text is a decimal numeral whose value is above `u16::MAX`.
    OutOfRange,
    /// The text names none of the categories.
    UnknownCategory,
}

/// The closed set of labels that a classification may carry.
#[derive(Clone, Copy, Debug, PartialEq, Eq, Structural)]
pub enum TrashCategory {
    Hazardous,
    NonRecyclable,
    Recyclable,
    Organic,
}

/// `s` without one leading plus sign.
pub open spec fn unsigned_body(s: Seq<char>) -> Seq<char> {
    if s.len() > 0 && s[0] == '+' {
        s.drop_first()
    } else {
        s
    }
}

/// What `s` is as the numeral of a `u16`: an optional plus sign, then one or
/// more ASCII digits and nothing else, the value at most `u16::MAX`.
pub open spec fn numeral_u16(s: Seq<char>) -> Result<u16, ParseError> {
    let body = unsigned_body(s);
    if s.len() == 0 {
        Err(ParseError::Empty)
    } else if body.len() == 0 || !all_digits(body) {
        Err(ParseError::InvalidDigit)
    } else if decimal_value(body) > u16::MAX {
        Err(ParseError::OutOfRange)
    } else {
        Ok(decimal_value(body) as u16)
    }
}

/// The score that a model's answer `text` states: the numeral that is left
/// once the whitespace around it is cut off.
pub open spec fn score_of(text: Seq<char>) -> Result<u16, ParseError> {
    numeral_u16(trimmed(text))
}

/// The code of `c`, with the ASCII capitals mapped to their small letters.
pub open spec fn folded(c: char) -> u32 {
    let n = c as u32;
    if 0x41 <= n <= 0x5A {
        (n + 0x20) as u32
    } else {
        n
    }
}

/// Whether `a` and `b` are the same text up to the case of ASCII letters.
pub open spec fn same_ignoring_case(a: Seq<char>, b: Seq<char>) -> bool {
    &&& a.len() == b.len()
    &&& forall|i: int| 0 <= i < a.len() ==> folded(#[trigger] a[i]) == folded(b[i])
}

/// The category that `s` names, whatever the case of its letters.
pub open spec fn category_named(s: Seq<char>) -> Option<TrashCategory> {
    if same_ignoring_case(s, "Hazardous"@) {
        Some(TrashCategory::Hazardous)
    } else if same_ignoring_case(s, "NonRecyclable"@) {
        Some(TrashCategory::NonRecyclable)
    } else if same_ignoring_case(s, "Recyclable"@) {
        Some(TrashCategory::Recyclable)
    } else if same_ignoring_case(s, "Organic"@) {
        Some(TrashCategory::Organic)
    } else {
        None
    }
}

proof fn lemma_decimal_value_grows(s: Seq<char>, k: int)
    requires
        0 <= k < s.len(),
    ensures
        s.take(k + 1).drop_last() == s.take(k),
        decimal_value(s.take(k + 1)) == 10 * decimal_value(s.take(k)) + digit_value(s[k]),
        decimal_value(s.take(k + 1)) >= decimal_value(s.take(k)),
{
    assert(s.take(k + 1).drop_last() =~= s.take(k));
}

/// Reads a text of digits as a `u16`.
fn parse_digits(s: &str) -> (r: Result<u16, ParseError>)
    requires
        s@.len() > 0,
    ensures
        r == if !all_digits(s@) {
            Err::<u16, ParseError>(ParseError::InvalidDigit)
        } else if decimal_value(s@) > u16::MAX {
            Err(ParseError::OutOfRange)
        } else {
            Ok(decimal_value(s@) as u16)
        },
{
    let mut value: u32 = 0;
    let mut overflow: bool = false;
    let chars = s.chars();
    for c in it: chars
        invariant
            it.seq() == s@,
            all_digits(s@.take(it.index())),
            overflow ==> decimal_value(s@.take(it.index())) > u16::MAX,
            !overflow ==> value == decimal_value(s@.take(it.index())) && value <= u16::MAX,
    {
        let code: u32 = c as u32;
        if code < 0x30 || code > 0x39 {
            assert(!is_digit(s@[it.index()]));
            return Err(ParseError::InvalidDigit);
        }
        proof {
            lemma_decimal_value_grows(s@, it.index());
            assert forall|i: int| 0 <= i < it.index() + 1 implies is_digit(
                #[trigger] s@.take(it.index() + 1)[i],
            ) by {
                if i < it.index() {
                    assert(s@.take(it.index())[i] == s@[i]);
                }
            }
        }
        if !overflow {
            value = value * 10 + (code - 0x30);
            if value > 0xFFFF {
                overflow = true;
            }
        }
    }
    assert(s@.take(s@.len() as int) =~= s@);
    if overflow {
        Err(ParseError::OutOfRange)
    } else {
        Ok(value as u16)
    }
}

/// Reads `s` as the decimal numeral of a `u16`: an optional plus sign, then
/// digits only.
pub fn parse_u16(s: &str) -> (r: Result<u16, ParseError>)
    ensures
        r == numeral_u16(s@),
{
    let n: usize = s.unicode_len();
    if n == 0 {
        return Err(ParseError::Empty);
    }
    let first: char = s.get_char(0);
    if first == '+' {
        if n == 1 {
            return Err(ParseError::InvalidDigit);
        }
        let body = s.substring_char(1, n);
        assert(body@ =~= s@.drop_first());
        parse_digits(body)
    } else {
        parse_digits(s)
    }
}

/// Reads a model's answer as a score. The whitespace around the answer is
/// ignored; what is left must be a decimal numeral of at most `u16::MAX`, which
/// may carry a plus sign. A larger number, a minus sign, a fraction or any other
/// character makes the answer unreadable. The score is not held to the range
/// 0 to 100 that the model is asked for.
pub fn parse_score(text: &str) -> (r: Result<u16, ParseError>)
    ensures
        r == score_of(text@),
{
    parse_u16(trim(text))
}

/// Reads a model's answer as a category label: the answer without the
/// whitespace around it, whatever it says.
pub fn parse_category(text: &str) -> (r: String)
    ensures
        r@ == trimmed(text@),
{
    String::from_str(trim(text))
}

fn fold(c: char) -> (r: u32)
    ensures
        r == folded(c),
{
    let n: u32 = c as u32;
    if 0x41 <= n && n <= 0x5A {
        n + 0x20
    } else {
        n
    }
}

fn equals_ignoring_case(text: &str, name: &str) -> (r: bool)
    ensures
        r == same_ignoring_case(text@, name@),
{
    let n: usize = text.unicode_len();
    if n != name.unicode_len() {
        return false;
    }
    let mut i: usize = 0;
    let chars = text.chars();
    for c in it: chars
        invariant
            it.seq() == text@,
            i == it.index(),
            n == text@.len(),
            n == name@.len(),
            forall|k: int| 0 <= k < i ==> folded(#[trigger] text@[k]) == folded(name@[k]),
    {
        if fold(c) != fold(name.get_char(i)) {
            return false;
        }
        i = i + 1;
    }
    true
}

impl TrashCategory {
    /// The label's name.
    pub open spec fn name_spec(self) -> Seq<char> {
        match self {
            TrashCategory::Hazardous => "Hazardous"@,
            TrashCategory::NonRecyclable => "NonRecyclable"@,
            TrashCategory::Recyclable => "Recyclable"@,
            TrashCategory::Organic => "Organic"@,
        }
    }

    /// The label's name.
    pub fn name(&self) -> (r: &'static str)
        ensures
            r@ == self.name_spec(),
    {
        match self {
            TrashCategory::Hazardous => "Hazardous",
            TrashCategory::NonRecyclable => "NonRecyclable",
            TrashCategory::Recyclable => "Recyclable",
            TrashCategory::Organic => "Organic",
        }
    }
}

/// Reads a model's answer as one of the four categories. The whitespace
/// around the answer and the case of its letters are ignored; any other text is
/// refused.
pub fn validate_category(text: &str) -> (r: Result<TrashCategory, ParseError>)
    ensures
        r == match category_named(trimmed(text@)) {
            Some(category) => Ok::<TrashCategory, ParseError>(category),
            None => Err(ParseError::UnknownCategory),
        },
{
    let label = trim(text);
    if equals_ignoring_case(label, "Hazardous") {
        Ok(TrashCategory::Hazardous)
    } else if equals_ignoring_case(label, "NonRecyclable") {
        Ok(TrashCategory::NonRecyclable)
    } else if equals_ignoring_case(label, "Recyclable") {
        Ok(TrashCategory::Recyclable)
    } else if equals_ignoring_case(label, "Organic") {
        Ok(TrashCategory::Organic)
    } else {
        Err(ParseError::UnknownCategory)
    }
}

/// Every category is read back from its own name.
pub proof fn lemma_category_name_round_trip(category: TrashCategory)
    ensures
        category_named(category.name_spec()) == Some(category),
{
    reveal_strlit("Hazardous");
    reveal_strlit("NonRecyclable");
    reveal_strlit("Recyclable");
    reveal_strlit("Organic");
    match category {
        TrashCategory::Hazardous => {},
        TrashCategory::NonRecyclable => {
            assert(!same_ignoring_case("NonRecyclable"@, "Hazardous"@));
        },
        TrashCategory::Recyclable => {
            assert(!same_ignoring_case("Recyclable"@, "Hazardous"@));
            assert(!same_ignoring_case("Recyclable"@, "NonRecyclable"@));
        },
        TrashCategory::Organic => {
            assert(!same_ignoring_case("Organic"@, "Hazardous"@));
            assert(!same_ignoring_case("Organic"@, "NonRecyclable"@));
            assert(!same_ignoring_case("Organic"@, "Recyclable"@));
        },
    }
}

} // verus!
