//! Text primitives shared by the rest of the library: decimal numerals,
//! integer parsing and whitespace trimming, each over the characters of a
//! string.

use vstd::prelude::*;
use vstd::string::*;

verus! {

/// The decimal digit that stands for `d`, for `0 <= d <= 9`.
pub open spec fn digit_char(d: int) -> char {
    if d == 0 {
        '0'
    } else if d == 1 {
        '1'
    } else if d == 2 {
        '2'
    } else if d == 3 {
        '3'
    } else if d == 4 {
        '4'
    } else if d == 5 {
        '5'
    } else if d == 6 {
        '6'
    } else if d == 7 {
        '7'
    } else if d == 8 {
        '8'
    } else {
        '9'
    }
}

/// The decimal numeral of `n`: no sign, no leading zero except for zero
/// itself.
pub open spec fn decimal(n: nat) -> Seq<char>
    decreases n,
{
    if n < 10 {
        seq![digit_char(n as int)]
    } else {
        decimal(n / 10).push(digit_char((n % 10) as int))
    }
}

/// Whether `c` is one of `0` to `9`.
pub open spec fn is_digit(c: char) -> bool {
    '0' <= c && c <= '9'
}

/// The number that the digit `c` stands for.
pub open spec fn digit_value(c: char) -> int {
    c as int - '0' as int
}

/// Whether every character of `s` is a decimal digit.
pub open spec fn all_digits(s: Seq<char>) -> bool {
    forall|i: int| 0 <= i < s.len() ==> is_digit(#[trigger] s[i])
}

/// The number written by the digits of `s`, most significant first.
pub open spec fn digits_value(s: Seq<char>) -> int
    decreases s.len(),
{
    if s.len() == 0 {
        0
    } else {
        digits_value(s.drop_last()) * 10 + digit_value(s.last())
    }
}

/// Whether `s` starts with a sign that a numeral of the given signedness may
/// carry: `+` always, `-` only where negative numbers are allowed.
pub open spec fn has_sign(s: Seq<char>, signed: bool) -> bool {
    s.len() > 0 && (s[0] == '+' || (signed && s[0] == '-'))
}

/// The digits of a numeral, after its sign if it has one.
pub open spec fn numeral_body(s: Seq<char>, signed: bool) -> Seq<char> {
    if has_sign(s, signed) {
        s.drop_first()
    } else {
        s
    }
}

/// The integer that `s` denotes: an optional sign followed by one or more
/// decimal digits and nothing else. `None` for any other text, and for a
/// number outside `min ..= max`.
pub open spec fn parse_integer(s: Seq<char>, signed: bool, min: int, max: int) -> Option<int> {
    let body = numeral_body(s, signed);
    let magnitude = digits_value(body);
    let value = if signed && s.len() > 0 && s[0] == '-' {
        -magnitude
    } else {
        magnitude
    };
    if body.len() == 0 || !all_digits(body) || value < min || value > max {
        None
    } else {
        Some(value)
    }
}

/// Whether `c` has the Unicode property White_Space.
pub open spec fn is_whitespace(c: char) -> bool {
    ||| c == ' '
    ||| ('\u{9}' <= c && c <= '\u{d}')
    ||| c == '\u{85}'
    ||| c == '\u{a0}'
    ||| c == '\u{1680}'
    ||| ('\u{2000}' <= c && c <= '\u{200a}')
    ||| c == '\u{2028}'
    ||| c == '\u{2029}'
    ||| c == '\u{202f}'
    ||| c == '\u{205f}'
    ||| c == '\u{3000}'
}

/// How many characters at the front of `s` are whitespace.
pub open spec fn leading_whitespace(s: Seq<char>) -> nat
    decreases s.len(),
{
    if s.len() > 0 && is_whitespace(s[0]) {
        1 + leading_whitespace(s.drop_first())
    } else {
        0
    }
}

/// How many characters at the back of `s` are whitespace.
pub open spec fn trailing_whitespace(s: Seq<char>) -> nat
    decreases s.len(),
{
    if s.len() > 0 && is_whitespace(s.last()) {
        1 + trailing_whitespace(s.drop_last())
    } else {
        0
    }
}

/// `s` without the whitespace at its two ends. A string of nothing but
/// whitespace trims to the empty string.
pub open spec fn trimmed(s: Seq<char>) -> Seq<char> {
    let rest = s.subrange(leading_whitespace(s) as int, s.len() as int);
    rest.subrange(0, rest.len() - trailing_whitespace(rest))
}

/// The one-character string of the digit `d`.
fn digit_str(d: u64) -> (r: &'static str)
    requires
        d < 10,
    ensures
        r@ == seq![digit_char(d as int)],
{
    proof {
        reveal_strlit("0");
        reveal_strlit("1");
        reveal_strlit("2");
        reveal_strlit("3");
        reveal_strlit("4");
        reveal_strlit("5");
        reveal_strlit("6");
        reveal_strlit("7");
        reveal_strlit("8");
        reveal_strlit("9");
    }
    let r = if d == 0 {
        "0"
    } else if d == 1 {
        "1"
    } else if d == 2 {
        "2"
    } else if d == 3 {
        "3"
    } else if d == 4 {
        "4"
    } else if d == 5 {
        "5"
    } else if d == 6 {
        "6"
    } else if d == 7 {
        "7"
    } else if d == 8 {
        "8"
    } else {
        "9"
    };
    assert(r@ =~= seq![digit_char(d as int)]);
    r
}

/// Appends the decimal numeral of `n` to `out`.
pub fn push_decimal(out: &mut String, n: u64)
    ensures
        final(out)@ == old(out)@ + decimal(n as nat),
    decreases n,
{
    if n >= 10 {
        push_decimal(out, n / 10);
    }
    out.append(digit_str(n % 10));
    assert(final(out)@ =~= old(out)@ + decimal(n as nat));
}

/// The decimal numeral of `n` as a string.
pub fn to_decimal(n: u64) -> (r: String)
    ensures
        r@ == decimal(n as nat),
{
    let mut out = String::new();
    push_decimal(&mut out, n);
    assert(out@ =~= decimal(n as nat));
    out
}

/// The characters of `s`, in order.
pub fn chars_of(s: &str) -> (r: Vec<char>)
    ensures
        r@ == s@,
{
    let mut v: Vec<char> = Vec::new();
    for c in it: s.chars()
        invariant
            v@ == s@.subrange(0, it.index() as int),
            it.seq() == s@,
    {
        v.push(c);
        assert(v@ =~= s@.subrange(0, it.index() + 1));
    }
    assert(v@ =~= s@);
    v
}

/// A numeral only grows as digits are added at its end.
pub proof fn lemma_digits_value_prefix(s: Seq<char>, k: int)
    requires
        all_digits(s),
        0 <= k <= s.len(),
    ensures
        0 <= digits_value(s.subrange(0, k)) <= digits_value(s),
    decreases s.len() - k,
{
    lemma_digits_value_nonnegative(s.subrange(0, k));
    if k < s.len() {
        let next = s.subrange(0, k + 1);
        assert(next.drop_last() =~= s.subrange(0, k));
        assert(is_digit(s[k]));
        assert(next.last() == s[k]);
        lemma_digits_value_prefix(s, k + 1);
    } else {
        assert(s.subrange(0, k) =~= s);
    }
}

/// A string of digits denotes a number that is not negative.
pub proof fn lemma_digits_value_nonnegative(s: Seq<char>)
    requires
        all_digits(s),
    ensures
        0 <= digits_value(s),
    decreases s.len(),
{
    if s.len() > 0 {
        assert(is_digit(s[s.len() - 1]));
        lemma_digits_value_nonnegative(s.drop_last());
    }
}

/// Reads the digits `chars[start..]` as a number of at most `max`.
fn parse_magnitude(chars: &Vec<char>, start: usize, max: u64) -> (r: Option<u64>)
    requires
        start <= chars@.len(),
    ensures
        r == (if chars@.len() == start || !all_digits(chars@.subrange(start as int, chars@.len() as int))
            || digits_value(chars@.subrange(start as int, chars@.len() as int)) > max {
            None
        } else {
            Some(digits_value(chars@.subrange(start as int, chars@.len() as int)) as u64)
        }),
{
    let n = chars.len();
    let ghost body = chars@.subrange(start as int, n as int);
    if n == start {
        return None;
    }
    let mut acc: u64 = 0;
    let mut i: usize = start;
    while i < n
        invariant
            start <= i <= n,
            n == chars@.len(),
            body == chars@.subrange(start as int, n as int),
            all_digits(body.subrange(0, i - start)),
            acc == digits_value(body.subrange(0, i - start)),
            acc <= max,
        decreases n - i,
    {
        let c = chars[i];
        let ghost seen = body.subrange(0, i - start);
        let ghost next = body.subrange(0, i - start + 1);
        assert(body[i - start] == c);
        assert(next.drop_last() =~= seen);
        assert(next.last() == c);
        if !(c >= '0' && c <= '9') {
            assert(!is_digit(body[i - start]));
            return None;
        }
        let d: u64 = (c as u64) - 48;
        assert(d == digit_value(c));
        assert(all_digits(next)) by {
            assert forall|j: int| 0 <= j < next.len() implies is_digit(#[trigger] next[j]) by {
                if j < seen.len() {
                    assert(next[j] == seen[j]);
                }
            }
        }
        if d > max || acc > (max - d) / 10 {
            proof {
                assert(digits_value(next) == acc * 10 + d);
                assert(digits_value(next) > max);
                if all_digits(body) {
                    lemma_digits_value_prefix(body, i - start + 1);
                }
            }
            return None;
        }
        acc = acc * 10 + d;
        i += 1;
    }
    assert(body.subrange(0, i - start) =~= body);
    Some(acc)
}

/// Parses `s` as a decimal number from 0 to `max`: an optional `+`, then
/// digits only.
pub fn parse_unsigned(s: &str, max: u64) -> (r: Option<u64>)
    ensures
        r == (match parse_integer(s@, false, 0, max as int) {
            Some(v) => Some(v as u64),
            None => None,
        }),
{
    let chars = chars_of(s);
    let start: usize = if chars.len() > 0 && chars[0] == '+' {
        1
    } else {
        0
    };
    proof {
        let body = chars@.subrange(start as int, chars@.len() as int);
        assert(body =~= numeral_body(s@, false));
        if all_digits(body) {
            lemma_digits_value_nonnegative(body);
        }
    }
    parse_magnitude(&chars, start, max)
}

/// Parses `s` as a decimal `u8`.
pub fn parse_u8(s: &str) -> (r: Option<u8>)
    ensures
        r == (match parse_integer(s@, false, 0, u8::MAX as int) {
            Some(v) => Some(v as u8),
            None => None,
        }),
{
    match parse_unsigned(s, 255) {
        Some(v) => Some(v as u8),
        None => None,
    }
}

/// Parses `s` as a decimal `u32`.
pub fn parse_u32(s: &str) -> (r: Option<u32>)
    ensures
        r == (match parse_integer(s@, false, 0, u32::MAX as int) {
            Some(v) => Some(v as u32),
            None => None,
        }),
{
    match parse_unsigned(s, 0xffff_ffff) {
        Some(v) => Some(v as u32),
        None => None,
    }
}

/// Parses `s` as a decimal `i64`: an optional `+` or `-`, then digits only.
pub fn parse_i64(s: &str) -> (r: Option<i64>)
    ensures
        r == (match parse_integer(s@, true, i64::MIN as int, i64::MAX as int) {
            Some(v) => Some(v as i64),
            None => None,
        }),
{
    let chars = chars_of(s);
    let negative = chars.len() > 0 && chars[0] == '-';
    let start: usize = if chars.len() > 0 && (chars[0] == '+' || chars[0] == '-') {
        1
    } else {
        0
    };
    proof {
        let body = chars@.subrange(start as int, chars@.len() as int);
        assert(body =~= numeral_body(s@, true));
        if all_digits(body) {
            lemma_digits_value_nonnegative(body);
        }
    }
    if negative {
        match parse_magnitude(&chars, start, 0x8000_0000_0000_0000) {
            Some(m) => {
                if m == 0x8000_0000_0000_0000 {
                    Some(i64::MIN)
                } else {
                    Some(-(m as i64))
                }
            },
            None => None,
        }
    } else {
        match parse_magnitude(&chars, start, 0x7fff_ffff_ffff_ffff) {
            Some(m) => Some(m as i64),
            None => None,
        }
    }
}

/// Tests `c` for the Unicode property White_Space.
pub fn is_whitespace_char(c: char) -> (r: bool)
    ensures
        r == is_whitespace(c),
{
    c == ' ' || (c >= '\u{9}' && c <= '\u{d}') || c == '\u{85}' || c == '\u{a0}' || c == '\u{1680}'
        || (c >= '\u{2000}' && c <= '\u{200a}') || c == '\u{2028}' || c == '\u{2029}' || c
        == '\u{202f}' || c == '\u{205f}' || c == '\u{3000}'
}

/// `s` without the whitespace at its two ends.
pub fn trim(s: &str) -> (r: &str)
    ensures
        r@ == trimmed(s@),
{
    let chars = chars_of(s);
    let n = chars.len();
    let mut start: usize = 0;
    assert(chars@.subrange(0, n as int) =~= chars@);
    while start < n && is_whitespace_char(chars[start])
        invariant
            start <= n,
            n == chars@.len(),
            leading_whitespace(chars@) == start + leading_whitespace(
                chars@.subrange(start as int, n as int),
            ),
        decreases n - start,
    {
        proof {
            let tail = chars@.subrange(start as int, n as int);
            assert(tail[0] == chars@[start as int]);
            assert(tail.drop_first() =~= chars@.subrange(start + 1, n as int));
        }
        start += 1;
    }
    let ghost rest = chars@.subrange(start as int, n as int);
    proof {
        if start < n {
            assert(rest[0] == chars@[start as int]);
        }
        assert(leading_whitespace(rest) == 0);
        assert(rest.subrange(0, rest.len() as int) =~= rest);
    }
    let mut end: usize = n;
    while end > start && is_whitespace_char(chars[end - 1])
        invariant
            start <= end <= n,
            n == chars@.len(),
            rest == chars@.subrange(start as int, n as int),
            trailing_whitespace(rest) == (n - end) + trailing_whitespace(
                rest.subrange(0, end - start),
            ),
        decreases end,
    {
        proof {
            let head = rest.subrange(0, end - start);
            assert(head.last() == chars@[end - 1]);
            assert(head.drop_last() =~= rest.subrange(0, end - start - 1));
        }
        end -= 1;
    }
    proof {
        let head = rest.subrange(0, end - start);
        if end > start {
            assert(head.last() == chars@[end - 1]);
        }
        assert(trailing_whitespace(head) == 0);
        assert(head =~= s@.subrange(start as int, end as int));
    }
    s.substring_char(start, end)
}

/// The position of the first of `names`, at or after `from`, that is
/// `name`; `names.len()` where there is none.
pub open spec fn first_match(names: Seq<Seq<char>>, name: Seq<char>, from: int) -> int
    decreases names.len() - from,
{
    if from < 0 || from >= names.len() {
        names.len() as int
    } else if names[from] == name {
        from
    } else {
        first_match(names, name, from + 1)
    }
}

/// Whether `name` is one of `names`.
pub open spec fn has_name(names: Seq<Seq<char>>, name: Seq<char>) -> bool {
    first_match(names, name, 0) < names.len()
}

/// `first_match` finds `name`, and `name` does not stand between `from`
/// and what it finds.
pub proof fn lemma_first_match(names: Seq<Seq<char>>, name: Seq<char>, from: int)
    requires
        0 <= from,
    ensures
        from <= first_match(names, name, from) || first_match(names, name, from) == names.len(),
        first_match(names, name, from) <= names.len(),
        first_match(names, name, from) < names.len() ==> names[first_match(names, name, from)]
            == name,
        forall|k: int| from <= k < first_match(names, name, from) ==> #[trigger] names[k] != name,
    decreases names.len() - from,
{
    if from < names.len() && names[from] != name {
        lemma_first_match(names, name, from + 1);
    }
}

/// A name is among `names` exactly when some position holds it.
pub proof fn lemma_has_name(names: Seq<Seq<char>>, name: Seq<char>)
    ensures
        has_name(names, name) <==> names.contains(name),
{
    lemma_first_match(names, name, 0);
    if names.contains(name) {
        let i = choose|i: int| 0 <= i < names.len() && names[i] == name;
        assert(names[i] == name);
    }
}

/// Whether `a` comes before `b` in the order of strings: `a` has the
/// smaller character at the first position where the two differ, or is a
/// proper prefix of `b`.
pub open spec fn text_before(a: Seq<char>, b: Seq<char>) -> bool
    decreases a.len(),
{
    if b.len() == 0 {
        false
    } else if a.len() == 0 {
        true
    } else if a[0] != b[0] {
        a[0] < b[0]
    } else {
        text_before(a.drop_first(), b.drop_first())
    }
}

/// Of two strings at most one comes before the other, and neither does
/// only if they are equal.
pub proof fn lemma_text_before_total(a: Seq<char>, b: Seq<char>)
    ensures
        !(text_before(a, b) && text_before(b, a)),
        !text_before(a, b) && !text_before(b, a) ==> a == b,
    decreases a.len(),
{
    if a.len() > 0 && b.len() > 0 && a[0] == b[0] {
        lemma_text_before_total(a.drop_first(), b.drop_first());
        if a.drop_first() == b.drop_first() {
            assert(a =~= seq![a[0]] + a.drop_first());
            assert(b =~= seq![b[0]] + b.drop_first());
        }
    } else if a.len() == 0 && b.len() == 0 {
        assert(a =~= b);
    }
}

/// The order of strings is transitive.
pub proof fn lemma_text_before_transitive(a: Seq<char>, b: Seq<char>, c: Seq<char>)
    requires
        text_before(a, b),
        text_before(b, c),
    ensures
        text_before(a, c),
    decreases a.len(),
{
    if a.len() > 0 && a[0] == b[0] && b[0] == c[0] {
        lemma_text_before_transitive(a.drop_first(), b.drop_first(), c.drop_first());
    }
}

/// A string that does not come after a second, which does not come after
/// a third, does not come after the third.
pub proof fn lemma_text_not_after_transitive(a: Seq<char>, b: Seq<char>, c: Seq<char>)
    requires
        !text_before(b, a),
        !text_before(c, b),
    ensures
        !text_before(c, a),
{
    lemma_text_before_total(a, b);
    lemma_text_before_total(b, c);
    lemma_text_before_total(a, c);
    if text_before(c, a) {
        if a == b {
        } else if b == c {
        } else {
            lemma_text_before_transitive(c, a, b);
        }
    }
}

/// Whether `a` comes before `b` in the order of strings.
pub fn str_before(a: &str, b: &str) -> (r: bool)
    ensures
        r == text_before(a@, b@),
{
    let left = chars_of(a);
    let right = chars_of(b);
    let mut i: usize = 0;
    assert(left@.subrange(0, left@.len() as int) =~= left@);
    assert(right@.subrange(0, right@.len() as int) =~= right@);
    loop
        invariant
            i <= left@.len(),
            i <= right@.len(),
            left@ == a@,
            right@ == b@,
            text_before(a@, b@) == text_before(
                left@.subrange(i as int, left@.len() as int),
                right@.subrange(i as int, right@.len() as int),
            ),
        decreases left@.len() - i,
    {
        let ghost rest_left = left@.subrange(i as int, left@.len() as int);
        let ghost rest_right = right@.subrange(i as int, right@.len() as int);
        if i >= right.len() {
            return false;
        }
        if i >= left.len() {
            return true;
        }
        assert(rest_left[0] == left@[i as int]);
        assert(rest_right[0] == right@[i as int]);
        if left[i] != right[i] {
            return left[i] < right[i];
        }
        assert(rest_left.drop_first() =~= left@.subrange(i + 1, left@.len() as int));
        assert(rest_right.drop_first() =~= right@.subrange(i + 1, right@.len() as int));
        i += 1;
    }
}

/// `order` with the position `i` put in after the last position whose name
/// does not come after the name at `i`.
pub open spec fn insert_by_name(order: Seq<int>, names: Seq<Seq<char>>, i: int) -> Seq<int>
    decreases order.len(),
{
    if order.len() == 0 || !text_before(names[i], names[order.last()]) {
        order.push(i)
    } else {
        insert_by_name(order.drop_last(), names, i).push(order.last())
    }
}

/// The first `count` positions of `names` in the order of their names;
/// positions of equal names stay in ascending order.
pub open spec fn order_by_name(names: Seq<Seq<char>>, count: nat) -> Seq<int>
    decreases count,
{
    if count == 0 {
        Seq::empty()
    } else {
        insert_by_name(order_by_name(names, (count - 1) as nat), names, count - 1)
    }
}

/// The names at the positions of `order` never fall, and positions of
/// equal names rise.
pub open spec fn in_name_order(order: Seq<int>, names: Seq<Seq<char>>) -> bool {
    forall|p: int, q: int|
        0 <= p < q < order.len() ==> !text_before(
            names[#[trigger] order[q]],
            names[#[trigger] order[p]],
        ) && (names[order[p]] == names[order[q]] ==> order[p] < order[q])
}

/// Putting a position into an order at the place found from the back is
/// `insert_by_name`.
proof fn lemma_insert_by_name_at(order: Seq<int>, names: Seq<Seq<char>>, i: int, at: int)
    requires
        0 <= at <= order.len(),
        at > 0 ==> !text_before(names[i], names[order[at - 1]]),
        forall|k: int| at <= k < order.len() ==> text_before(names[i], names[#[trigger] order[k]]),
    ensures
        insert_by_name(order, names, i) == order.insert(at, i),
    decreases order.len() - at,
{
    if at == order.len() {
        assert(order.push(i) =~= order.insert(at, i));
    } else {
        let front = order.drop_last();
        assert(order.last() == order[order.len() - 1]);
        assert(text_before(names[i], names[order.last()]));
        assert forall|k: int| at <= k < front.len() implies text_before(
            names[i],
            names[#[trigger] front[k]],
        ) by {
            assert(front[k] == order[k]);
        }
        if at > 0 {
            assert(front[at - 1] == order[at - 1]);
        }
        lemma_insert_by_name_at(front, names, i, at);
        assert(front.insert(at, i).push(order.last()) =~= order.insert(at, i));
    }
}

/// Inserting a position that is greater than all in the order keeps the
/// order of names and adds exactly that position.
pub proof fn lemma_insert_by_name(order: Seq<int>, names: Seq<Seq<char>>, i: int)
    requires
        in_name_order(order, names),
        forall|p: int| 0 <= p < order.len() ==> #[trigger] order[p] < i,
    ensures
        in_name_order(insert_by_name(order, names, i), names),
        insert_by_name(order, names, i).len() == order.len() + 1,
        insert_by_name(order, names, i).to_multiset() == order.to_multiset().insert(i),
    decreases order.len(),
{
    broadcast use vstd::seq_lib::group_to_multiset_ensures;

    let out = insert_by_name(order, names, i);
    if order.len() == 0 || !text_before(names[i], names[order.last()]) {
        assert forall|p: int, q: int| 0 <= p < q < out.len() implies !text_before(
            names[#[trigger] out[q]],
            names[#[trigger] out[p]],
        ) && (names[out[p]] == names[out[q]] ==> out[p] < out[q]) by {
            if q == order.len() {
                assert(out[p] == order[p]);
                if p < order.len() - 1 {
                    assert(!text_before(names[order[order.len() - 1]], names[order[p]]));
                    lemma_text_not_after_transitive(
                        names[order[p]],
                        names[order.last()],
                        names[i],
                    );
                }
            } else {
                assert(out[p] == order[p] && out[q] == order[q]);
            }
        }
    } else {
        let front = order.drop_last();
        let last = order.last();
        assert forall|p: int, q: int| 0 <= p < q < front.len() implies !text_before(
            names[#[trigger] front[q]],
            names[#[trigger] front[p]],
        ) && (names[front[p]] == names[front[q]] ==> front[p] < front[q]) by {
            assert(front[p] == order[p] && front[q] == order[q]);
        }
        assert forall|p: int| 0 <= p < front.len() implies #[trigger] front[p] < i by {
            assert(front[p] == order[p]);
        }
        lemma_insert_by_name(front, names, i);
        let inner = insert_by_name(front, names, i);
        assert(out == inner.push(last));
        lemma_text_before_total(names[i], names[last]);
        assert forall|k: int| 0 <= k < inner.len() implies !text_before(
            names[last],
            names[#[trigger] inner[k]],
        ) && (names[inner[k]] == names[last] ==> inner[k] < last) by {
            assert(inner.to_multiset().count(inner[k]) > 0);
            if inner[k] != i {
                assert(front.to_multiset().count(inner[k]) > 0);
                assert(front.contains(inner[k]));
                let w = choose|w: int| 0 <= w < front.len() && front[w] == inner[k];
                assert(front[w] == order[w]);
                assert(!text_before(names[order[order.len() - 1]], names[order[w]]));
            }
        }
        assert forall|p: int, q: int| 0 <= p < q < out.len() implies !text_before(
            names[#[trigger] out[q]],
            names[#[trigger] out[p]],
        ) && (names[out[p]] == names[out[q]] ==> out[p] < out[q]) by {
            if q == inner.len() {
                assert(out[p] == inner[p]);
            } else {
                assert(out[p] == inner[p] && out[q] == inner[q]);
            }
        }
        assert(order =~= front.push(last));
        assert(out.to_multiset() =~= order.to_multiset().insert(i));
    }
}

/// The order by name lists each of the first `count` positions once, with
/// names that never fall and equal names in ascending position.
pub proof fn lemma_order_by_name(names: Seq<Seq<char>>, count: nat)
    ensures
        order_by_name(names, count).len() == count,
        in_name_order(order_by_name(names, count), names),
        forall|p: int|
            0 <= p < count ==> 0 <= #[trigger] order_by_name(names, count)[p] < count,
        forall|i: int| 0 <= i < count ==> order_by_name(names, count).to_multiset().count(i) == 1,
    decreases count,
{
    broadcast use vstd::seq_lib::group_to_multiset_ensures;

    if count > 0 {
        let earlier = order_by_name(names, (count - 1) as nat);
        lemma_order_by_name(names, (count - 1) as nat);
        lemma_insert_by_name(earlier, names, count - 1);
        let out = order_by_name(names, count);
        assert forall|p: int| 0 <= p < count implies 0 <= #[trigger] out[p] < count by {
            assert(out.to_multiset().count(out[p]) > 0);
            if out[p] != count - 1 {
                assert(earlier.to_multiset().count(out[p]) > 0);
                assert(earlier.contains(out[p]));
            }
        }
        assert(earlier.to_multiset().count(count - 1) == 0) by {
            if earlier.to_multiset().count(count - 1) > 0 {
                assert(earlier.contains(count - 1));
            }
        }
    }
}

/// The positions of `names` in the order of their names; positions of
/// equal names stay in ascending order.
pub fn sorted_order(names: &Vec<String>) -> (order: Vec<usize>)
    ensures
        order@.map_values(|i: usize| i as int) == order_by_name(
            names.deep_view(),
            names@.len() as nat,
        ),
        order@.len() == names@.len(),
        forall|p: int| 0 <= p < order@.len() ==> #[trigger] order@[p] < names@.len(),
{
    let ghost all = names.deep_view();
    let mut order: Vec<usize> = Vec::new();
    let mut k: usize = 0;
    assert(order@.map_values(|i: usize| i as int) =~= Seq::<int>::empty());
    while k < names.len()
        invariant
            k <= names@.len(),
            all == names.deep_view(),
            order@.len() == k,
            forall|p: int| 0 <= p < order@.len() ==> #[trigger] order@[p] < k,
            order@.map_values(|i: usize| i as int) == order_by_name(all, k as nat),
        decreases names@.len() - k,
    {
        let ghost before = order@.map_values(|i: usize| i as int);
        let mut at: usize = order.len();
        while at > 0 && str_before(names[k].as_str(), names[order[at - 1]].as_str())
            invariant
                at <= order@.len(),
                k < names@.len(),
                all == names.deep_view(),
                before == order@.map_values(|i: usize| i as int),
                forall|p: int| 0 <= p < order@.len() ==> #[trigger] order@[p] < k,
                forall|j: int|
                    at <= j < order@.len() ==> text_before(all[k as int], all[#[trigger] before[j]]),
            decreases at,
        {
            assert(before[at - 1] == order@[at - 1] as int);
            at -= 1;
        }
        proof {
            if at > 0 {
                assert(before[at - 1] == order@[at - 1] as int);
            }
            lemma_insert_by_name_at(before, all, k as int, at as int);
        }
        order.insert(at, k);
        assert(order@.map_values(|i: usize| i as int) =~= before.insert(at as int, k as int));
        k += 1;
    }
    order
}

} // verus!
