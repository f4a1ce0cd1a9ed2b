//! Small text utilities the configuration layer leans on: decimal
//! rendering of numbers for URLs, ASCII trimming, finding the port
//! separator, and parsing a port number.

use vstd::prelude::*;
use vstd::string::*;

verus! {

/// The character for one decimal digit.
pub open spec fn spec_digit_char(d: int) -> char {
    ((48 + d) as u8) as char
}

/// The decimal rendering of a non-negative number, most significant
/// digit first, with no leading zeros (except for zero itself).
pub open spec fn spec_dec_digits(n: int) -> Seq<char>
    decreases n,
{
    if n < 10 {
        seq![spec_digit_char(n)]
    } else {
        spec_dec_digits(n / 10) + seq![spec_digit_char(n % 10)]
    }
}

fn digit_str(d: u64) -> (r: &'static str)
    requires
        d < 10,
    ensures
        r@ =~= seq![spec_digit_char(d as int)],
{
    proof {
        reveal_strlit("0");
        reveal_strlit("1");
        reveal_strlit("2");
        reveal_strlit("3");
        reveal_strlit("4");
        reveal_strlit("5");
        reveal_strlit("6");
        reveal_strlit("7");
        reveal_strlit("8");
        reveal_strlit("9");
    }
    match d {
        0 => "0",
        1 => "1",
        2 => "2",
        3 => "3",
        4 => "4",
        5 => "5",
        6 => "6",
        7 => "7",
        8 => "8",
        _ => "9",
    }
}

/// Renders a number in decimal.
pub fn u64_to_dec(n: u64) -> (r: String)
    ensures
        r@ == spec_dec_digits(n as int),
    decreases n,
{
    if n < 10 {
        digit_str(n).to_owned()
    } else {
        let mut s = u64_to_dec(n / 10);
        s.append(digit_str(n % 10));
        proof {
            assert(s@ =~= spec_dec_digits(n as int));
        }
        s
    }
}

/// ASCII whitespace: space, tab, line feed, vertical tab, form feed,
/// carriage return.
pub open spec fn spec_is_ascii_ws(c: char) -> bool {
    c == ' ' || c == '\t' || c == '\n' || c == '\u{b}' || c == '\u{c}' || c == '\r'
}

fn is_ascii_ws(c: char) -> (b: bool)
    ensures
        b == spec_is_ascii_ws(c),
{
    c == ' ' || c == '\t' || c == '\n' || c == '\u{b}' || c == '\u{c}' || c == '\r'
}

/// What is left after dropping leading ASCII whitespace.
pub open spec fn spec_trim_front(s: Seq<char>) -> Seq<char>
    decreases s.len(),
{
    if s.len() > 0 && spec_is_ascii_ws(s[0]) {
        spec_trim_front(s.drop_first())
    } else {
        s
    }
}

/// What is left after dropping trailing ASCII whitespace.
pub open spec fn spec_trim_back(s: Seq<char>) -> Seq<char>
    decreases s.len(),
{
    if s.len() > 0 && spec_is_ascii_ws(s.last()) {
        spec_trim_back(s.drop_last())
    } else {
        s
    }
}

/// What is left after dropping ASCII whitespace on both sides.
pub open spec fn spec_trim(s: Seq<char>) -> Seq<char> {
    spec_trim_back(spec_trim_front(s))
}

proof fn lemma_trim_front_at(s: Seq<char>, a: int)
    requires
        0 <= a <= s.len(),
        forall|j: int| 0 <= j < a ==> spec_is_ascii_ws(#[trigger] s[j]),
        a == s.len() || !spec_is_ascii_ws(s[a]),
    ensures
        spec_trim_front(s) =~= s.subrange(a, s.len() as int),
    decreases a,
{
    if a == 0 {
        if s.len() > 0 && spec_is_ascii_ws(s[0]) {
            assert(false);
        }
    } else {
        assert(spec_is_ascii_ws(s[0]));
        lemma_trim_front_at(s.drop_first(), a - 1);
        assert(s.drop_first().subrange(a - 1, s.drop_first().len() as int) =~= s.subrange(
            a,
            s.len() as int,
        ));
    }
}

proof fn lemma_trim_back_at(s: Seq<char>, b: int)
    requires
        0 <= b <= s.len(),
        forall|j: int| b <= j < s.len() ==> spec_is_ascii_ws(#[trigger] s[j]),
        b == 0 || !spec_is_ascii_ws(s[b - 1]),
    ensures
        spec_trim_back(s) =~= s.subrange(0, b),
    decreases s.len(),
{
    if b == s.len() {
        if s.len() > 0 && spec_is_ascii_ws(s.last()) {
            assert(false);
        }
        assert(spec_trim_back(s) =~= s.subrange(0, b));
    } else {
        assert(spec_is_ascii_ws(s.last()));
        lemma_trim_back_at(s.drop_last(), b);
        assert(s.drop_last().subrange(0, b) =~= s.subrange(0, b));
    }
}

/// Drops ASCII whitespace from both ends.
pub fn trim_ascii(s: &str) -> (r: String)
    ensures
        r@ == spec_trim(s@),
{
    let len = s.unicode_len();
    let mut a: usize = 0;
    while a < len && is_ascii_ws(s.get_char(a))
        invariant
            0 <= a <= len,
            len == s@.len(),
            forall|j: int| 0 <= j < a ==> spec_is_ascii_ws(#[trigger] s@[j]),
        decreases len - a,
    {
        a = a + 1;
    }
    let mut b: usize = len;
    while b > a && is_ascii_ws(s.get_char(b - 1))
        invariant
            a <= b <= len,
            len == s@.len(),
            forall|j: int| 0 <= j < a ==> spec_is_ascii_ws(#[trigger] s@[j]),
            a == len || !spec_is_ascii_ws(s@[a as int]),
            forall|j: int| b <= j < len ==> spec_is_ascii_ws(#[trigger] s@[j]),
        decreases b,
    {
        b = b - 1;
    }
    let out = s.substring_char(a, b).to_owned();
    proof {
        lemma_trim_front_at(s@, a as int);
        let t = s@.subrange(a as int, s@.len() as int);
        if b == a {
            lemma_trim_back_at(t, 0);
        } else {
            lemma_trim_back_at(t, b - a);
        }
        assert(t.subrange(0, b - a) =~= s@.subrange(a as int, b as int));
        assert(out@ =~= spec_trim(s@));
    }
    out
}

/// The position of the last colon, if any.
pub open spec fn spec_rfind_colon(s: Seq<char>) -> Option<int>
    decreases s.len(),
{
    if s.len() == 0 {
        Option::None
    } else if s.last() == ':' {
        Option::Some(s.len() - 1)
    } else {
        spec_rfind_colon(s.drop_last())
    }
}

proof fn lemma_rfind_colon_at(s: Seq<char>, ci: int)
    requires
        0 <= ci < s.len(),
        s[ci] == ':',
        forall|j: int| ci < j < s.len() ==> #[trigger] s[j] != ':',
    ensures
        spec_rfind_colon(s) == Option::Some(ci),
    decreases s.len(),
{
    if ci == s.len() - 1 {
    } else {
        lemma_rfind_colon_at(s.drop_last(), ci);
    }
}

proof fn lemma_rfind_colon_none(s: Seq<char>)
    requires
        forall|j: int| 0 <= j < s.len() ==> #[trigger] s[j] != ':',
    ensures
        spec_rfind_colon(s) is None,
    decreases s.len(),
{
    if s.len() > 0 {
        lemma_rfind_colon_none(s.drop_last());
    }
}

/// The position of the last colon, if any.
pub fn rfind_colon(s: &str) -> (r: Option<usize>)
    ensures
        match r {
            Option::Some(ci) => spec_rfind_colon(s@) == Option::Some(ci as int) && ci
                < s@.len(),
            Option::None => spec_rfind_colon(s@) is None,
        },
{
    let len = s.unicode_len();
    let mut b: usize = len;
    while b > 0
        invariant
            0 <= b <= len,
            len == s@.len(),
            forall|j: int| b <= j < len ==> #[trigger] s@[j] != ':',
        decreases b,
    {
        if s.get_char(b - 1) == ':' {
            proof {
                lemma_rfind_colon_at(s@, b - 1);
            }
            return Some(b - 1);
        }
        b = b - 1;
    }
    proof {
        lemma_rfind_colon_none(s@);
    }
    None
}

/// A decimal digit.
pub open spec fn spec_is_digit(c: char) -> bool {
    '0' <= c && c <= '9'
}

/// The value of a digit string, most significant digit first.
pub open spec fn spec_digits_val(s: Seq<char>) -> int
    decreases s.len(),
{
    if s.len() == 0 {
        0
    } else {
        spec_digits_val(s.drop_last()) * 10 + (s.last() as int - 48)
    }
}

/// The digits of a port string, once an optional leading plus sign is
/// dropped — the same shape std accepts for an unsigned number.
pub open spec fn spec_port_digits(s: Seq<char>) -> Seq<char> {
    if s.len() > 0 && s[0] == '+' {
        s.drop_first()
    } else {
        s
    }
}

/// Whether a string parses as a port: an optional plus sign, then one
/// or more digits, with a value of at most 65535.
pub open spec fn spec_parse_u16_ok(s: Seq<char>) -> bool {
    let d = spec_port_digits(s);
    &&& d.len() > 0
    &&& forall|j: int| 0 <= j < d.len() ==> spec_is_digit(#[trigger] d[j])
    &&& spec_digits_val(d) <= 65535
}

/// Parses a port number the way std parses an unsigned 16-bit integer:
/// an optional plus sign, then decimal digits.
pub fn parse_u16(s: &str) -> (r: Option<u16>)
    ensures
        r is Some <==> spec_parse_u16_ok(s@),
        r matches Some(v) ==> v == spec_digits_val(spec_port_digits(s@)),
{
    let len = s.unicode_len();
    let start: usize = if len > 0 && s.get_char(0) == '+' {
        1
    } else {
        0
    };
    proof {
        if start == 1 {
            assert(spec_port_digits(s@) =~= s@.subrange(1, len as int));
        } else {
            assert(spec_port_digits(s@) =~= s@.subrange(0, len as int));
            assert(s@.subrange(0, len as int) =~= s@);
        }
    }
    let ghost d = spec_port_digits(s@);
    if start >= len {
        return None;
    }
    let mut val: u32 = 0;
    let mut i: usize = start;
    while i < len
        invariant
            start <= i <= len,
            len == s@.len(),
            d == spec_port_digits(s@),
            d =~= s@.subrange(start as int, len as int),
            forall|j: int| start <= j < i ==> spec_is_digit(#[trigger] s@[j]),
            val <= 65535 ==> val == spec_digits_val(d.subrange(0, i - start)),
            val > 65535 ==> val == 65536 && spec_digits_val(d.subrange(0, i - start)) > 65535,
        decreases len - i,
    {
        let c = s.get_char(i);
        if c < '0' || c > '9' {
            proof {
                assert(d[i - start] == s@[i as int]);
                assert(!spec_is_digit(d[i - start]));
            }
            return None;
        }
        let digit: u32 = (c as u32) - 48;
        proof {
            assert(d.subrange(0, i + 1 - start).drop_last() =~= d.subrange(0, i - start));
            assert(d.subrange(0, i + 1 - start).last() == s@[i as int]);
        }
        if val > 65535 || val * 10 + digit > 65535 {
            val = 65536;
        } else {
            val = val * 10 + digit;
        }
        i = i + 1;
    }
    proof {
        assert(d.subrange(0, len - start) =~= d);
    }
    if val > 65535 {
        return None;
    }
    Some(val as u16)
}

/// Character-by-character string equality.
pub fn str_eq(a: &str, b: &str) -> (r: bool)
    ensures
        r <==> a@ == b@,
{
    let alen = a.unicode_len();
    let blen = b.unicode_len();
    if alen != blen {
        proof {
            assert(a@ != b@);
        }
        return false;
    }
    let mut i: usize = 0;
    while i < alen
        invariant
            0 <= i <= alen,
            alen == a@.len(),
            alen == b@.len(),
            forall|j: int| 0 <= j < i ==> a@[j] == b@[j],
        decreases alen - i,
    {
        if a.get_char(i) != b.get_char(i) {
            proof {
                assert(a@[i as int] != b@[i as int]);
            }
            return false;
        }
        i = i + 1;
    }
    proof {
        assert(a@ =~= b@);
    }
    true
}

} // verus!
