//! Text: decimal numbers, the order of strings, prefixes, and quoting.

use vstd::prelude::*;
use vstd::string::*;

verus! {

broadcast use vstd::string::group_string_axioms;

/// The characters of an optional string.
pub open spec fn chars_of(text: Option<String>) -> Option<Seq<char>> {
    match text {
        Some(s) => Some(s@),
        None => None,
    }
}

/// The characters of an optional string slice.
pub open spec fn chars_of_str(text: Option<&str>) -> Option<Seq<char>> {
    match text {
        Some(s) => Some(s@),
        None => None,
    }
}

/// A copy of an optional string.
pub fn clone_text(text: &Option<String>) -> (copy: Option<String>)
    ensures
        copy == *text,
{
    match text {
        Some(s) => Some(s.clone()),
        None => None,
    }
}

/// An optional string, borrowed.
pub fn borrow_text<'a>(text: &'a Option<String>) -> (borrowed: Option<&'a str>)
    ensures
        chars_of_str(borrowed) == chars_of(*text),
{
    match text {
        Some(s) => Some(s.as_str()),
        None => None,
    }
}

/// Whether two optional strings are the same text.
pub fn same_text(a: &Option<String>, b: &Option<String>) -> (same: bool)
    ensures
        same == (chars_of(*a) == chars_of(*b)),
{
    match (a, b) {
        (Some(x), Some(y)) => *x == *y,
        (None, None) => true,
        _ => false,
    }
}

// ---------------------------------------------------------------------------------------------
// Decimal numbers
// ---------------------------------------------------------------------------------------------

/// The character of the decimal digit `d`.
pub open spec fn digit_char(d: nat) -> char {
    (48 + d) as char
}

/// `n` in decimal, without leading zeros.
pub open spec fn decimal(n: nat) -> Seq<char>
    decreases n,
{
    if n < 10 {
        seq![digit_char(n)]
    } else {
        decimal(n / 10).push(digit_char(n % 10))
    }
}

/// `n` in decimal, with a minus sign when it is negative.
pub open spec fn signed_decimal(n: int) -> Seq<char> {
    if n < 0 {
        seq!['-'] + decimal((-n) as nat)
    } else {
        decimal(n as nat)
    }
}

fn digit_text(d: u64) -> (text: &'static str)
    requires
        d < 10,
    ensures
        text@ == seq![digit_char(d as nat)],
{
    proof {
        reveal_strlit("0");
        reveal_strlit("1");
        reveal_strlit("2");
        reveal_strlit("3");
        reveal_strlit("4");
        reveal_strlit("5");
        reveal_strlit("6");
        reveal_strlit("7");
        reveal_strlit("8");
        reveal_strlit("9");
    }
    if d == 0 {
        "0"
    } else if d == 1 {
        "1"
    } else if d == 2 {
        "2"
    } else if d == 3 {
        "3"
    } else if d == 4 {
        "4"
    } else if d == 5 {
        "5"
    } else if d == 6 {
        "6"
    } else if d == 7 {
        "7"
    } else if d == 8 {
        "8"
    } else {
        "9"
    }
}

/// `n` in decimal.
pub fn u64_text(n: u64) -> (text: String)
    ensures
        text@ == decimal(n as nat),
    decreases n,
{
    if n < 10 {
        digit_text(n).to_string()
    } else {
        let mut text = u64_text(n / 10);
        text.append(digit_text(n % 10));
        text
    }
}

/// `n` in decimal, with a minus sign when it is negative.
pub fn i64_text(n: i64) -> (text: String)
    ensures
        text@ == signed_decimal(n as int),
{
    if n < 0 {
        proof {
            reveal_strlit("-");
        }
        let size: u64 = if n == i64::MIN {
            0x8000_0000_0000_0000u64
        } else {
            (-n) as u64
        };
        let mut text = "-".to_string();
        text.append(u64_text(size).as_str());
        assert(text@ == signed_decimal(n as int));
        text
    } else {
        u64_text(n as u64)
    }
}

/// A nonempty run of decimal digits.
pub open spec fn is_digits(s: Seq<char>) -> bool {
    s.len() > 0 && forall|i: int| 0 <= i < s.len() ==> '0' <= #[trigger] s[i] && s[i] <= '9'
}

/// The number that a run of decimal digits writes.
pub open spec fn digits_value(s: Seq<char>) -> nat
    decreases s.len(),
{
    if s.len() == 0 {
        0
    } else {
        10 * digits_value(s.drop_last()) + (s.last() as nat - 48) as nat
    }
}

/// The number that `s` writes as decimal digits behind an optional plus sign.
pub open spec fn unsigned_value(s: Seq<char>) -> Option<nat> {
    let digits = if s.len() > 0 && s[0] == '+' {
        s.drop_first()
    } else {
        s
    };
    if is_digits(digits) {
        Some(digits_value(digits))
    } else {
        None
    }
}

/// The `u64` that `s` writes, if it writes one.
pub open spec fn parsed_u64(s: Seq<char>) -> Option<u64> {
    match unsigned_value(s) {
        Some(n) => if n <= u64::MAX {
            Some(n as u64)
        } else {
            None
        },
        None => None,
    }
}

/// The number that `s` writes as decimal digits behind an optional sign.
pub open spec fn signed_value(s: Seq<char>) -> Option<int> {
    if s.len() > 0 && s[0] == '-' {
        let digits = s.drop_first();
        if is_digits(digits) {
            Some(-(digits_value(digits) as int))
        } else {
            None
        }
    } else {
        match unsigned_value(s) {
            Some(n) => Some(n as int),
            None => None,
        }
    }
}

/// The `i64` that `s` writes, if it writes one.
pub open spec fn parsed_i64(s: Seq<char>) -> Option<i64> {
    match signed_value(s) {
        Some(n) => if i64::MIN <= n <= i64::MAX {
            Some(n as i64)
        } else {
            None
        },
        None => None,
    }
}

/// The text of the error with which `str::parse::<u64>` refuses `s`.
pub uninterp spec fn u64_parse_error(s: Seq<char>) -> Seq<char>;

/// The text of the error with which `str::parse::<i64>` refuses `s`.
pub uninterp spec fn i64_parse_error(s: Seq<char>) -> Seq<char>;

/// Calls `str::parse::<u64>`.
///
/// Trusted: it accepts an optional plus sign followed by decimal digits and nothing else, when
/// the number fits in a `u64`, and returns that number. The wording of the error is named, not
/// stated.
#[verifier::external_body]
pub(crate) fn parse_u64(s: &str) -> (parsed: Result<u64, String>)
    ensures
        match parsed {
            Ok(n) => parsed_u64(s@) == Some(n),
            Err(e) => parsed_u64(s@) is None && e@ == u64_parse_error(s@),
        },
{
    s.parse::<u64>().map_err(|e| e.to_string())
}

/// Calls `str::parse::<i64>`.
///
/// Trusted: it accepts an optional sign followed by decimal digits and nothing else, when the
/// number fits in an `i64`, and returns that number. The wording of the error is named, not
/// stated.
#[verifier::external_body]
pub(crate) fn parse_i64(s: &str) -> (parsed: Result<i64, String>)
    ensures
        match parsed {
            Ok(n) => parsed_i64(s@) == Some(n),
            Err(e) => parsed_i64(s@) is None && e@ == i64_parse_error(s@),
        },
{
    s.parse::<i64>().map_err(|e| e.to_string())
}

proof fn lemma_decimal(n: nat)
    ensures
        is_digits(decimal(n)),
        digits_value(decimal(n)) == n,
    decreases n,
{
    reveal_with_fuel(digits_value, 2);
    if n < 10 {
        assert(decimal(n).drop_last() =~= Seq::<char>::empty());
    } else {
        lemma_decimal(n / 10);
        assert(decimal(n).drop_last() =~= decimal(n / 10));
    }
}

/// Reading a decimal number back gives the number that was written.
pub proof fn law_u64_text_round_trips(n: u64)
    ensures
        parsed_u64(decimal(n as nat)) == Some(n),
{
    lemma_decimal(n as nat);
}

/// A signed decimal number writes the number that it was made from.
pub proof fn lemma_signed_decimal(n: int)
    ensures
        signed_value(signed_decimal(n)) == Some(n),
{
    if n < 0 {
        lemma_decimal((-n) as nat);
        assert(signed_decimal(n).drop_first() =~= decimal((-n) as nat));
    } else {
        lemma_decimal(n as nat);
    }
}

/// Reading a signed decimal number back gives the number that was written.
pub proof fn law_i64_text_round_trips(n: i64)
    ensures
        parsed_i64(signed_decimal(n as int)) == Some(n),
{
    lemma_signed_decimal(n as int);
}

// ---------------------------------------------------------------------------------------------
// The order of strings
// ---------------------------------------------------------------------------------------------

/// The order of strings: by the first character in which they differ, a prefix before what it is
/// a prefix of.
pub open spec fn text_le(a: Seq<char>, b: Seq<char>) -> bool
    decreases a.len(),
{
    if a.len() == 0 {
        true
    } else if b.len() == 0 {
        false
    } else if a[0] == b[0] {
        text_le(a.drop_first(), b.drop_first())
    } else {
        a[0] < b[0]
    }
}

/// Whether `a` is at most `b` in the order of strings.
pub fn is_at_most(a: &str, b: &str) -> (at_most: bool)
    ensures
        at_most == text_le(a@, b@),
{
    let mut left = a.chars();
    let mut right = b.chars();
    loop
        invariant
            text_le(a@, b@) == text_le(
                vstd::std_specs::iter::IteratorSpec::remaining(&left),
                vstd::std_specs::iter::IteratorSpec::remaining(&right),
            ),
            vstd::std_specs::iter::IteratorSpec::obeys_prophetic_iter_laws(&left),
            vstd::std_specs::iter::IteratorSpec::decrease(&left) is Some,
            vstd::std_specs::iter::IteratorSpec::decrease(&right) is Some,
            vstd::std_specs::iter::IteratorSpec::obeys_prophetic_iter_laws(&right),
        decreases vstd::std_specs::iter::IteratorSpec::decrease(&left)->0,
    {
        match left.next() {
            None => {
                return true;
            },
            Some(x) => match right.next() {
                None => {
                    return false;
                },
                Some(y) => if x != y {
                    return x < y;
                },
            },
        }
    }
}

/// Whether `prefix` is a prefix of `text`.
pub fn has_prefix(text: &str, prefix: &str) -> (prefixed: bool)
    ensures
        prefixed == prefix@.is_prefix_of(text@),
{
    let mut left = text.chars();
    let mut right = prefix.chars();
    loop
        invariant
            prefix@.is_prefix_of(text@) == vstd::std_specs::iter::IteratorSpec::remaining(
                &right,
            ).is_prefix_of(vstd::std_specs::iter::IteratorSpec::remaining(&left)),
            vstd::std_specs::iter::IteratorSpec::obeys_prophetic_iter_laws(&left),
            vstd::std_specs::iter::IteratorSpec::decrease(&left) is Some,
            vstd::std_specs::iter::IteratorSpec::decrease(&right) is Some,
            vstd::std_specs::iter::IteratorSpec::obeys_prophetic_iter_laws(&right),
        decreases vstd::std_specs::iter::IteratorSpec::decrease(&right)->0,
    {
        let ghost l = vstd::std_specs::iter::IteratorSpec::remaining(&left);
        let ghost r = vstd::std_specs::iter::IteratorSpec::remaining(&right);
        match right.next() {
            None => {
                assert(r.is_prefix_of(l)) by {
                    assert(r =~= l.subrange(0, 0));
                }
                return true;
            },
            Some(y) => match left.next() {
                None => {
                    return false;
                },
                Some(x) => {
                    if x != y {
                        assert(!r.is_prefix_of(l)) by {
                            if r.is_prefix_of(l) {
                                assert(r[0] == l.subrange(0, r.len() as int)[0]);
                            }
                        }
                        return false;
                    }
                    assert(r.is_prefix_of(l) == r.drop_first().is_prefix_of(l.drop_first())) by {
                        lemma_prefix_step(r, l);
                    }
                },
            },
        }
    }
}

proof fn lemma_prefix_step(p: Seq<char>, s: Seq<char>)
    requires
        p.len() > 0,
        s.len() > 0,
        p[0] == s[0],
    ensures
        p.is_prefix_of(s) == p.drop_first().is_prefix_of(s.drop_first()),
{
    if p.len() <= s.len() {
        let n = p.len() as int;
        if p.is_prefix_of(s) {
            assert(p =~= s.subrange(0, n));
            assert(p.drop_first() =~= s.drop_first().subrange(0, n - 1)) by {
                assert forall|i: int| 0 <= i < n - 1 implies #[trigger] p.drop_first()[i]
                    == s.drop_first().subrange(0, n - 1)[i] by {
                    assert(p[i + 1] == s.subrange(0, n)[i + 1]);
                }
            }
        }
        if p.drop_first().is_prefix_of(s.drop_first()) {
            assert(p =~= s.subrange(0, n)) by {
                assert forall|i: int| 0 <= i < n implies p[i] == #[trigger] s.subrange(0, n)[i] by {
                    if i > 0 {
                        assert(p.drop_first()[i - 1] == s.drop_first().subrange(0, n - 1)[i - 1]);
                    }
                }
            }
        }
    }
}

/// The order of strings is total.
pub proof fn lemma_text_le_total(a: Seq<char>, b: Seq<char>)
    ensures
        text_le(a, b) || text_le(b, a),
    decreases a.len(),
{
    if a.len() > 0 && b.len() > 0 && a[0] == b[0] {
        lemma_text_le_total(a.drop_first(), b.drop_first());
    }
}

/// The order of strings is transitive.
pub proof fn lemma_text_le_transitive(a: Seq<char>, b: Seq<char>, c: Seq<char>)
    requires
        text_le(a, b),
        text_le(b, c),
    ensures
        text_le(a, c),
    decreases a.len(),
{
    if a.len() > 0 && b.len() > 0 && c.len() > 0 && a[0] == b[0] && b[0] == c[0] {
        lemma_text_le_transitive(a.drop_first(), b.drop_first(), c.drop_first());
    }
}

/// The order of strings is antisymmetric.
pub proof fn lemma_text_le_antisymmetric(a: Seq<char>, b: Seq<char>)
    requires
        text_le(a, b),
        text_le(b, a),
    ensures
        a == b,
    decreases a.len(),
{
    if a.len() > 0 && b.len() > 0 {
        lemma_text_le_antisymmetric(a.drop_first(), b.drop_first());
        assert(a =~= seq![a[0]] + a.drop_first());
        assert(b =~= seq![b[0]] + b.drop_first());
    } else {
        assert(a =~= b);
    }
}

// ---------------------------------------------------------------------------------------------
// Quoting
// ---------------------------------------------------------------------------------------------

/// Whether `s` is printable ASCII without double quotes and backslashes, which needs no escapes.
pub open spec fn is_plain(s: Seq<char>) -> bool {
    forall|i: int|
        0 <= i < s.len() ==> ' ' <= #[trigger] s[i] && s[i] <= '~' && s[i] != '"' && s[i] != '\\'
}

/// What `str`'s `Debug` writes of `s`.
pub uninterp spec fn escaped(s: Seq<char>) -> Seq<char>;

/// `s` as `{:?}` writes it: in double quotes, with the escapes of `str`'s `Debug` where there is
/// something to escape.
pub open spec fn quoted(s: Seq<char>) -> Seq<char> {
    if is_plain(s) {
        seq!['"'] + s + seq!['"']
    } else {
        escaped(s)
    }
}

/// Calls `str`'s `Debug` through `format!`.
///
/// Trusted: what it writes is a function of the string alone, and a string without anything to
/// escape is written as it is, between double quotes. The escapes themselves are named, not
/// stated.
#[verifier::external_body]
pub(crate) fn quote(s: &str) -> (text: String)
    ensures
        is_plain(s@) ==> text@ == seq!['"'] + s@ + seq!['"'],
        !is_plain(s@) ==> text@ == escaped(s@),
{
    format!("{:?}", s)
}

/// An optional string as `{:?}` writes it.
pub open spec fn quoted_option(s: Option<Seq<char>>) -> Seq<char> {
    match s {
        Some(s) => "Some("@ + quoted(s) + ")"@,
        None => "None"@,
    }
}

/// An optional string as `{:?}` writes it.
pub fn quote_option(s: &Option<String>) -> (text: String)
    ensures
        text@ == quoted_option(chars_of(*s)),
{
    match s {
        Some(s) => {
            let mut text = "Some(".to_string();
            text.append(quote(s.as_str()).as_str());
            text.append(")");
            text
        },
        None => "None".to_string(),
    }
}

} // verus!
