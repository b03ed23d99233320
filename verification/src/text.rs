//! Character classes and the small amount of text handling the bot needs:
//! Unicode whitespace and control characters, code points that render as
//! blank, trimming, exact comparison, and decimal numbers as they appear in
//! the environment.

use vstd::prelude::*;

verus! {

/// The Unicode `White_Space` property (PropList.txt).
pub open spec fn is_whitespace_spec(c: char) -> bool {
    let u = c as u32;
    ||| 0x09 <= u <= 0x0D
    ||| u == 0x20
    ||| u == 0x85
    ||| u == 0xA0
    ||| u == 0x1680
    ||| 0x2000 <= u <= 0x200A
    ||| u == 0x2028
    ||| u == 0x2029
    ||| u == 0x202F
    ||| u == 0x205F
    ||| u == 0x3000
}

/// The Unicode general category `Cc` (the C0 and C1 control codes).
pub open spec fn is_control_spec(c: char) -> bool {
    let u = c as u32;
    u <= 0x1F || (0x7F <= u && u <= 0x9F)
}

/// Format characters and fillers that render as blank in a name although
/// they are not whitespace: zero-width and joiner characters, bidi controls,
/// fillers, variation selectors, the braille blank, tag characters.
pub open spec fn is_blank_format_spec(c: char) -> bool {
    let u = c as u32;
    ||| u == 0x00AD
    ||| u == 0x034F
    ||| u == 0x061C
    ||| u == 0x115F || u == 0x1160
    ||| u == 0x17B4 || u == 0x17B5
    ||| 0x180B <= u <= 0x180E
    ||| 0x200B <= u <= 0x200F
    ||| 0x202A <= u <= 0x202E
    ||| 0x2060 <= u <= 0x2064
    ||| 0x2066 <= u <= 0x206F
    ||| u == 0x2800
    ||| u == 0x3164
    ||| 0xFE00 <= u <= 0xFE0F
    ||| u == 0xFEFF
    ||| u == 0xFFA0
    ||| 0xFFF9 <= u <= 0xFFFB
    ||| 0x1D173 <= u <= 0x1D17A
    ||| 0xE0000 <= u <= 0xE007F
}

/// A code point that renders as blank in a name.
pub open spec fn is_invisible_spec(c: char) -> bool {
    is_whitespace_spec(c) || is_control_spec(c) || is_blank_format_spec(c)
}

/// Whether `c` has the Unicode `White_Space` property.
pub fn is_whitespace(c: char) -> (r: bool)
    ensures
        r == is_whitespace_spec(c),
{
    let u: u32 = c as u32;
    (0x09 <= u && u <= 0x0D) || u == 0x20 || u == 0x85 || u == 0xA0 || u == 0x1680 || (0x2000
        <= u && u <= 0x200A) || u == 0x2028 || u == 0x2029 || u == 0x202F || u == 0x205F || u
        == 0x3000
}

/// Whether `c` is a C0 or C1 control code.
pub fn is_control(c: char) -> (r: bool)
    ensures
        r == is_control_spec(c),
{
    let u: u32 = c as u32;
    u <= 0x1F || (0x7F <= u && u <= 0x9F)
}

/// Whether `c` renders as blank in a name.
pub fn is_invisible(c: char) -> (r: bool)
    ensures
        r == is_invisible_spec(c),
{
    if is_whitespace(c) || is_control(c) {
        return true;
    }
    let u: u32 = c as u32;
    u == 0x00AD || u == 0x034F || u == 0x061C || u == 0x115F || u == 0x1160 || u == 0x17B4 || u
        == 0x17B5 || (0x180B <= u && u <= 0x180E) || (0x200B <= u && u <= 0x200F) || (0x202A <= u
        && u <= 0x202E) || (0x2060 <= u && u <= 0x2064) || (0x2066 <= u && u <= 0x206F) || u
        == 0x2800 || u == 0x3164 || (0xFE00 <= u && u <= 0xFE0F) || u == 0xFEFF || u == 0xFFA0
        || (0xFFF9 <= u && u <= 0xFFFB) || (0x1D173 <= u && u <= 0x1D17A) || (0xE0000 <= u && u
        <= 0xE007F)
}

/// Whether `c` shows up when a name is rendered.
pub fn is_visible(c: char) -> (r: bool)
    ensures
        r == !is_invisible_spec(c),
{
    !is_invisible(c)
}

/// The characters of a string slice, in order.
pub fn chars_of(s: &str) -> (v: Vec<char>)
    ensures
        v@ == s@,
{
    let mut v: Vec<char> = Vec::new();
    for c in it: s.chars()
        invariant
            v@ == it.seq().take(it.index() as int),
            it.seq() == s@,
    {
        v.push(c);
    }
    v
}

/// Whether two string slices hold the same characters.
pub fn same_text(a: &str, b: &str) -> (r: bool)
    ensures
        r == (a@ == b@),
{
    let x = chars_of(a);
    let y = chars_of(b);
    if x.len() != y.len() {
        return false;
    }
    let mut i: usize = 0;
    while i < x.len()
        invariant
            x@ == a@,
            y@ == b@,
            x.len() == y.len(),
            i <= x.len(),
            forall|j: int| 0 <= j < i ==> x@[j] == y@[j],
        decreases x.len() - i,
    {
        if x[i] != y[i] {
            return false;
        }
        i = i + 1;
    }
    assert(x@ =~= y@);
    true
}

/// `s` without its leading whitespace.
pub open spec fn trim_start(s: Seq<char>) -> Seq<char>
    decreases s.len(),
{
    if s.len() > 0 && is_whitespace_spec(s[0]) {
        trim_start(s.drop_first())
    } else {
        s
    }
}

/// `s` without its trailing whitespace.
pub open spec fn trim_end(s: Seq<char>) -> Seq<char>
    decreases s.len(),
{
    if s.len() > 0 && is_whitespace_spec(s.last()) {
        trim_end(s.drop_last())
    } else {
        s
    }
}

/// `s` without leading and trailing whitespace.
pub open spec fn trim(s: Seq<char>) -> Seq<char> {
    trim_end(trim_start(s))
}

/// Trimming removes only whitespace, only from the ends, and all of it:
/// the result is a contiguous piece of `s`, everything before and after it
/// is whitespace, and it neither starts nor ends with whitespace.
pub proof fn lemma_trim_removes_outer_whitespace(s: Seq<char>)
    ensures
        exists|i: int, j: int|
            0 <= i <= j <= s.len() && trim(s) == s.subrange(i, j) && (forall|k: int|
                0 <= k < i ==> is_whitespace_spec(#[trigger] s[k])) && (forall|k: int|
                j <= k < s.len() ==> is_whitespace_spec(#[trigger] s[k])),
        trim(s).len() > 0 ==> !is_whitespace_spec(trim(s)[0]) && !is_whitespace_spec(
            trim(s).last(),
        ),
{
    lemma_trim_start(s);
    let t = trim_start(s);
    let i = choose|i: int|
        0 <= i <= s.len() && t == s.subrange(i, s.len() as int) && (forall|k: int|
            0 <= k < i ==> is_whitespace_spec(#[trigger] s[k]));
    lemma_trim_end(t);
    let j = choose|j: int|
        0 <= j <= t.len() && trim_end(t) == t.subrange(0, j) && (forall|k: int|
            j <= k < t.len() ==> is_whitespace_spec(#[trigger] t[k]));
    assert(trim(s) =~= s.subrange(i, i + j));
    assert forall|k: int| i + j <= k < s.len() implies is_whitespace_spec(#[trigger] s[k]) by {
        assert(t[k - i] == s[k]);
    }
    if trim(s).len() > 0 {
        assert(trim(s)[0] == t[0]);
    }
}

/// `trim_start` drops a whitespace prefix and stops at a non-whitespace
/// character.
proof fn lemma_trim_start(s: Seq<char>)
    ensures
        exists|i: int|
            0 <= i <= s.len() && trim_start(s) == s.subrange(i, s.len() as int) && (forall|k: int|
                0 <= k < i ==> is_whitespace_spec(#[trigger] s[k])),
        trim_start(s).len() > 0 ==> !is_whitespace_spec(trim_start(s)[0]),
    decreases s.len(),
{
    if s.len() > 0 && is_whitespace_spec(s[0]) {
        let r = s.drop_first();
        lemma_trim_start(r);
        let i = choose|i: int|
            0 <= i <= r.len() && trim_start(r) == r.subrange(i, r.len() as int) && (forall|k: int|
                0 <= k < i ==> is_whitespace_spec(#[trigger] r[k]));
        assert(trim_start(s) =~= s.subrange(i + 1, s.len() as int));
        assert forall|k: int| 0 <= k < i + 1 implies is_whitespace_spec(#[trigger] s[k]) by {
            if k > 0 {
                assert(s[k] == r[k - 1]);
            }
        }
    } else {
        assert(trim_start(s) =~= s.subrange(0, s.len() as int));
    }
}

/// `trim_end` drops a whitespace suffix and stops at a non-whitespace
/// character.
proof fn lemma_trim_end(s: Seq<char>)
    ensures
        exists|j: int|
            0 <= j <= s.len() && trim_end(s) == s.subrange(0, j) && (forall|k: int|
                j <= k < s.len() ==> is_whitespace_spec(#[trigger] s[k])),
        trim_end(s).len() > 0 ==> !is_whitespace_spec(trim_end(s).last()),
    decreases s.len(),
{
    if s.len() > 0 && is_whitespace_spec(s.last()) {
        let r = s.drop_last();
        lemma_trim_end(r);
        let j = choose|j: int|
            0 <= j <= r.len() && trim_end(r) == r.subrange(0, j) && (forall|k: int|
                j <= k < r.len() ==> is_whitespace_spec(#[trigger] r[k]));
        assert(trim_end(s) =~= s.subrange(0, j));
        assert forall|k: int| j <= k < s.len() implies is_whitespace_spec(#[trigger] s[k]) by {
            if k < s.len() - 1 {
                assert(s[k] == r[k]);
            }
        }
    } else {
        assert(trim_end(s) =~= s.subrange(0, s.len() as int));
    }
}

/// The characters of `s` with leading and trailing whitespace removed.
pub fn trimmed(s: &str) -> (v: Vec<char>)
    ensures
        v@ == trim(s@),
{
    let chars = chars_of(s);
    let n: usize = chars.len();
    let mut start: usize = 0;
    assert(s@.subrange(0, n as int) =~= s@);
    while start < n && is_whitespace(chars[start])
        invariant
            chars@ == s@,
            n == chars.len(),
            start <= n,
            trim_start(s@) == trim_start(s@.subrange(start as int, n as int)),
        decreases n - start,
    {
        assert(s@.subrange(start as int, n as int).drop_first() =~= s@.subrange(
            start + 1,
            n as int,
        ));
        start = start + 1;
    }
    assert(trim_start(s@) == s@.subrange(start as int, n as int));
    let ghost head = s@.subrange(start as int, n as int);
    let mut end: usize = n;
    while end > start && is_whitespace(chars[end - 1])
        invariant
            chars@ == s@,
            n == chars.len(),
            start <= end <= n,
            head == s@.subrange(start as int, n as int),
            trim_end(head) == trim_end(s@.subrange(start as int, end as int)),
        decreases end - start,
    {
        assert(s@.subrange(start as int, end as int).drop_last() =~= s@.subrange(
            start as int,
            end - 1,
        ));
        end = end - 1;
    }
    let mut v: Vec<char> = Vec::new();
    let mut i: usize = start;
    while i < end
        invariant
            chars@ == s@,
            n == chars.len(),
            start <= i <= end <= n,
            v@ == s@.subrange(start as int, i as int),
        decreases end - i,
    {
        v.push(chars[i]);
        i = i + 1;
    }
    v
}

/// An ASCII decimal digit.
pub open spec fn is_digit(c: char) -> bool {
    '0' <= c <= '9'
}

/// Every character of `s` is a decimal digit.
pub open spec fn all_digits(s: Seq<char>) -> bool {
    forall|i: int| 0 <= i < s.len() ==> is_digit(#[trigger] s[i])
}

/// The value of a run of decimal digits, most significant first.
pub open spec fn digits_value(s: Seq<char>) -> nat
    decreases s.len(),
{
    if s.len() == 0 {
        0
    } else {
        digits_value(s.drop_last()) * 10 + ((s.last() as u32) - ('0' as u32)) as nat
    }
}

/// The digits of an unsigned number: one leading `+` is allowed.
pub open spec fn unsigned_digits(s: Seq<char>) -> Seq<char> {
    if s.len() > 0 && s[0] == '+' {
        s.drop_first()
    } else {
        s
    }
}

/// What parsing `s` as a `u64` gives: an optional `+` followed by at least
/// one decimal digit, and a value that fits in 64 bits.
pub open spec fn parse_u64_spec(s: Seq<char>) -> Option<u64> {
    let d = unsigned_digits(s);
    if d.len() > 0 && all_digits(d) && digits_value(d) <= u64::MAX {
        Some(digits_value(d) as u64)
    } else {
        None
    }
}

/// Decimal notation: no digits are worth 0, and appending a digit
/// multiplies the value by ten and adds the digit. A number is read from an
/// optional `+` and at least one digit, and is refused exactly when some
/// other character appears or the value does not fit in 64 bits.
pub proof fn lemma_decimal_rules(s: Seq<char>, c: char)
    ensures
        digits_value(Seq::empty()) == 0,
        is_digit(c) ==> digits_value(s.push(c)) == 10 * digits_value(s) + (c as u32 - '0' as u32),
        parse_u64_spec(s) is Some <==> (unsigned_digits(s).len() > 0 && (forall|i: int|
            0 <= i < unsigned_digits(s).len() ==> is_digit(#[trigger] unsigned_digits(s)[i]))
            && digits_value(unsigned_digits(s)) <= u64::MAX),
        parse_u64_spec(s) matches Some(v) ==> v == digits_value(unsigned_digits(s)),
        s.len() > 0 && s[0] == '+' ==> unsigned_digits(s) == s.drop_first(),
        !(s.len() > 0 && s[0] == '+') ==> unsigned_digits(s) == s,
{
    assert(s.push(c).drop_last() =~= s);
}

/// A longer run of digits is worth at least as much as its prefix.
proof fn lemma_digits_value_grows(s: Seq<char>, k: int)
    requires
        0 <= k <= s.len(),
        forall|i: int| 0 <= i < s.len() ==> is_digit(#[trigger] s[i]),
    ensures
        digits_value(s.take(k)) <= digits_value(s),
    decreases s.len() - k,
{
    if k < s.len() {
        lemma_digits_value_grows(s, k + 1);
        assert(s.take(k + 1).drop_last() =~= s.take(k));
    } else {
        assert(s.take(k) =~= s);
    }
}

/// Parses a `u64` the way the standard library does: an optional `+`, then
/// decimal digits only, rejecting an empty number and overflow.
pub fn parse_u64(s: &Vec<char>) -> (r: Option<u64>)
    ensures
        r == parse_u64_spec(s@),
{
    let n: usize = s.len();
    let mut i: usize = 0;
    if n > 0 && s[0] == '+' {
        i = 1;
    }
    let ghost first: int = i as int;
    let ghost d = unsigned_digits(s@);
    assert(d =~= s@.subrange(first, n as int));
    if i == n {
        return None;
    }
    let mut acc: u64 = 0;
    while i < n
        invariant
            n == s.len(),
            0 <= first <= 1,
            first <= i <= n,
            d == s@.subrange(first, n as int),
            d == unsigned_digits(s@),
            forall|j: int| first <= j < i ==> is_digit(#[trigger] s@[j]),
            acc as nat == digits_value(d.take(i - first)),
        decreases n - i,
    {
        let c: char = s[i];
        if !('0' <= c && c <= '9') {
            assert(d[i - first] == c);
            assert(!is_digit(c));
            assert(!is_digit(d[i - first]));
            assert(!all_digits(d));
            return None;
        }
        let digit: u64 = ((c as u32) - ('0' as u32)) as u64;
        assert(d.take(i + 1 - first).drop_last() =~= d.take(i - first));
        assert(d.take(i + 1 - first).last() == c);
        let next = match acc.checked_mul(10) {
            Some(t) => t.checked_add(digit),
            None => None,
        };
        match next {
            Some(v) => {
                acc = v;
            },
            None => {
                proof {
                    let rest = d.take(i + 1 - first);
                    assert(digits_value(rest) > u64::MAX);
                    if all_digits(d) {
                        lemma_digits_value_grows(d, i + 1 - first);
                        assert(digits_value(d) > u64::MAX);
                    }
                }
                return None;
            },
        }
        i = i + 1;
    }
    assert(d.take(n - first) =~= d);
    Some(acc)
}

} // verus!
