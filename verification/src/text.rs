//! Texts: comparing them, trimming them, and reading and writing numerals.

use vstd::arithmetic::power;
use vstd::prelude::*;

verus! {

/// Whether `s` is the text `t`.
pub fn is_text(s: &String, t: &str) -> (r: bool)
    ensures
        r == (s@ == t@),
{
    *s == t.to_owned()
}

/// The characters of `s`, one by one.
pub fn characters(s: &str) -> (r: Vec<char>)
    ensures
        r@ == s@,
{
    let mut r: Vec<char> = Vec::new();
    for c in it: s.chars()
        invariant
            it.seq() == s@,
            r@ == s@.take(it.index() as int),
    {
        r.push(c);
    }
    r
}

/// The characters with the Unicode property `White_Space`.
pub open spec fn is_white_space(c: char) -> bool {
    ||| '\u{9}' <= c <= '\u{d}'
    ||| c == '\u{20}'
    ||| c == '\u{85}'
    ||| c == '\u{a0}'
    ||| c == '\u{1680}'
    ||| '\u{2000}' <= c <= '\u{200a}'
    ||| c == '\u{2028}'
    ||| c == '\u{2029}'
    ||| c == '\u{202f}'
    ||| c == '\u{205f}'
    ||| c == '\u{3000}'
}

/// Whether `c` has the Unicode property `White_Space`.
pub fn white_space(c: char) -> (r: bool)
    ensures
        r == is_white_space(c),
{
    ('\u{9}' <= c && c <= '\u{d}') || c == '\u{20}' || c == '\u{85}' || c == '\u{a0}'
        || c == '\u{1680}' || ('\u{2000}' <= c && c <= '\u{200a}') || c == '\u{2028}'
        || c == '\u{2029}' || c == '\u{202f}' || c == '\u{205f}' || c == '\u{3000}'
}

/// `s` without the white space that it starts with.
pub open spec fn trim_start(s: Seq<char>) -> Seq<char>
    decreases s.len(),
{
    if s.len() > 0 && is_white_space(s.first()) {
        trim_start(s.drop_first())
    } else {
        s
    }
}

/// `s` without the white space that it ends with.
pub open spec fn trim_end(s: Seq<char>) -> Seq<char>
    decreases s.len(),
{
    if s.len() > 0 && is_white_space(s.last()) {
        trim_end(s.drop_last())
    } else {
        s
    }
}

/// `s` without the white space at either end.
pub open spec fn trimmed(s: Seq<char>) -> Seq<char> {
    trim_end(trim_start(s))
}

/// Cuts the white space off both ends.
pub fn trim(s: &str) -> (r: &str)
    ensures
        r@ == trimmed(s@),
{
    let cs = characters(s);
    let mut from: usize = 0;
    assert(s@.skip(0) == s@);
    while from < cs.len() && white_space(cs[from])
        invariant
            from <= cs.len(),
            cs@ == s@,
            trim_start(s@.skip(from as int)) == trim_start(s@),
        decreases cs.len() - from,
    {
        assert(s@.skip(from as int).drop_first() == s@.skip(from + 1));
        from = from + 1;
    }
    let ghost rest = s@.skip(from as int);
    assert(rest == trim_start(s@));
    let mut to: usize = cs.len();
    assert(s@.subrange(from as int, to as int) == rest);
    while from < to && white_space(cs[to - 1])
        invariant
            from <= to <= cs.len(),
            cs@ == s@,
            trim_end(s@.subrange(from as int, to as int)) == trim_end(rest),
        decreases to,
    {
        assert(s@.subrange(from as int, to as int).drop_last() == s@.subrange(
            from as int,
            to - 1,
        ));
        to = to - 1;
    }
    s.substring_char(from, to)
}

/// What was trimmed has nothing to trim.
pub proof fn lemma_trimmed_twice(s: Seq<char>)
    ensures
        trimmed(trimmed(s)) == trimmed(s),
{
    let front = trim_start(s);
    let both = trim_end(front);
    lemma_trim_start_done(s);
    lemma_trim_end_done(front);
    if both.len() > 0 {
        assert(both.first() == front.first());
    }
}

/// What is left does not start with white space.
proof fn lemma_trim_start_done(s: Seq<char>)
    ensures
        trim_start(s).len() > 0 ==> !is_white_space(trim_start(s).first()),
    decreases s.len(),
{
    if s.len() > 0 && is_white_space(s.first()) {
        lemma_trim_start_done(s.drop_first());
    }
}

/// What is left does not end with white space, and starts as before.
proof fn lemma_trim_end_done(s: Seq<char>)
    ensures
        trim_end(s).len() > 0 ==> !is_white_space(trim_end(s).last()) && trim_end(s).first()
            == s.first(),
    decreases s.len(),
{
    if s.len() > 0 && is_white_space(s.last()) {
        lemma_trim_end_done(s.drop_last());
    }
}

/// Whether `c` is one of the ten ASCII digits.
pub open spec fn is_digit(c: char) -> bool {
    '0' <= c <= '9'
}

/// Whether `s` is nothing but ASCII digits.
pub open spec fn all_digits(s: Seq<char>) -> bool {
    forall|i: int| 0 <= i < s.len() ==> is_digit(#[trigger] s[i])
}

/// The number that an ASCII digit stands for.
pub open spec fn digit_value(c: char) -> int {
    c as int - '0' as int
}

/// The number that a row of digits stands for, read in base ten.
pub open spec fn digits_value(s: Seq<char>) -> int
    decreases s.len(),
{
    if s.len() == 0 {
        0
    } else {
        10 * digits_value(s.drop_last()) + digit_value(s.last())
    }
}

/// A numeral without its sign: one leading `+` is allowed.
pub open spec fn unsigned_part(s: Seq<char>) -> Seq<char> {
    if s.len() > 0 && s.first() == '+' {
        s.drop_first()
    } else {
        s
    }
}

/// The number that `s` writes in decimal: at least one digit and nothing but
/// digits, after at most one leading `+`.
pub open spec fn numeral_value(s: Seq<char>) -> Option<int> {
    let digits = unsigned_part(s);
    if digits.len() > 0 && all_digits(digits) {
        Some(digits_value(digits))
    } else {
        None
    }
}

/// A row of digits stands for no less than any row that it starts with.
proof fn lemma_digits_value_grows(s: Seq<char>, n: int)
    requires
        0 <= n <= s.len(),
        all_digits(s),
    ensures
        0 <= digits_value(s.take(n)) <= digits_value(s),
    decreases s.len(),
{
    if s.len() == 0 {
        assert(s.take(n) == s);
    } else {
        let body = s.drop_last();
        assert(all_digits(body));
        assert(is_digit(s.last()));
        if n == s.len() {
            assert(s.take(n) == s);
            lemma_digits_value_grows(body, n - 1);
            assert(body.take(n - 1) == body);
        } else {
            lemma_digits_value_grows(body, n);
            assert(body.take(n) == s.take(n));
        }
    }
}

/// Reads the characters `cs[0..end]` as a decimal numeral; `None` where they
/// are none, or where the number does not fit in 64 bits.
pub fn parse_u64(cs: &Vec<char>, end: usize) -> (r: Option<u64>)
    requires
        end <= cs@.len(),
    ensures
        match r {
            Some(v) => numeral_value(cs@.take(end as int)) == Some(v as int),
            None => match numeral_value(cs@.take(end as int)) {
                Some(v) => v > u64::MAX,
                None => true,
            },
        },
{
    let ghost text = cs@.take(end as int);
    let from: usize = if end > 0 && cs[0] == '+' {
        1
    } else {
        0
    };
    let ghost digits = unsigned_part(text);
    assert(digits == cs@.subrange(from as int, end as int));
    if from == end {
        return None;
    }
    let mut value: u64 = 0;
    let mut at: usize = from;
    while at < end
        invariant
            from <= at <= end <= cs@.len(),
            from < end,
            text == cs@.take(end as int),
            digits == unsigned_part(text),
            digits == cs@.subrange(from as int, end as int),
            forall|i: int| 0 <= i < at - from ==> is_digit(#[trigger] digits[i]),
            value == digits_value(digits.take(at - from)),
        decreases end - at,
    {
        let c = cs[at];
        let ghost n = at - from;
        assert(c == digits[n]);
        if !('0' <= c && c <= '9') {
            assert(!all_digits(digits));
            return None;
        }
        let digit: u64 = c as u64 - '0' as u64;
        proof {
            assert(digits.take(n + 1).drop_last() == digits.take(n));
            if all_digits(digits) {
                lemma_digits_value_grows(digits, n + 1);
            }
        }
        if value > (u64::MAX - digit) / 10 {
            assert(10 * value + digit > u64::MAX);
            return None;
        }
        value = 10 * value + digit;
        at = at + 1;
    }
    assert(digits.take(end - from) == digits);
    Some(value)
}

/// The digit that stands for `d`.
pub open spec fn digit_char(d: int) -> char {
    ('0' as int + d) as char
}

/// `n` written in decimal, without leading zeros.
pub open spec fn decimal(n: nat) -> Seq<char>
    decreases n,
{
    if n < 10 {
        seq![digit_char(n as int)]
    } else {
        decimal(n / 10).push(digit_char((n % 10) as int))
    }
}

/// The digit that stands for `d`.
fn digit_text(d: u64) -> (r: &'static str)
    requires
        d < 10,
    ensures
        r@ == seq![digit_char(d as int)],
{
    proof {
        reveal_strlit("0");
        reveal_strlit("1");
        reveal_strlit("2");
        reveal_strlit("3");
        reveal_strlit("4");
        reveal_strlit("5");
        reveal_strlit("6");
        reveal_strlit("7");
        reveal_strlit("8");
        reveal_strlit("9");
    }
    if d == 0 {
        "0"
    } else if d == 1 {
        "1"
    } else if d == 2 {
        "2"
    } else if d == 3 {
        "3"
    } else if d == 4 {
        "4"
    } else if d == 5 {
        "5"
    } else if d == 6 {
        "6"
    } else if d == 7 {
        "7"
    } else if d == 8 {
        "8"
    } else {
        "9"
    }
}

/// Writes `n` in decimal.
pub fn decimal_text(n: u64) -> (r: String)
    ensures
        r@ == decimal(n as nat),
    decreases n,
{
    if n < 10 {
        digit_text(n).to_owned()
    } else {
        decimal_text(n / 10).concat(digit_text(n % 10))
    }
}

/// What is written in decimal is made of digits and reads back as itself.
pub proof fn law_decimal_reads_back(n: nat)
    ensures
        numeral_value(decimal(n)) == Some(n as int),
        digits_value(decimal(n)) == n,
        decimal(n).len() > 0,
        all_digits(decimal(n)),
    decreases n,
{
    let text = decimal(n);
    if n < 10 {
        assert(text.drop_last() == Seq::<char>::empty());
        assert(digits_value(text.drop_last()) == 0);
    } else {
        law_decimal_reads_back(n / 10);
        assert(text.drop_last() == decimal(n / 10));
        assert forall|i: int| 0 <= i < text.len() implies is_digit(#[trigger] text[i]) by {
            if i < text.len() - 1 {
                assert(text[i] == decimal(n / 10)[i]);
            }
        }
    }
    assert(is_digit(text.first()));
    assert(unsigned_part(text) == text);
}

/// Whether `a` stands strictly before `b` in the order of texts: by the first
/// character in which they differ, a text before what it starts.
pub open spec fn stands_before(a: Seq<char>, b: Seq<char>) -> bool
    decreases a.len(),
{
    if b.len() == 0 {
        false
    } else if a.len() == 0 {
        true
    } else if a.first() != b.first() {
        a.first() < b.first()
    } else {
        stands_before(a.drop_first(), b.drop_first())
    }
}

/// Whether `a` stands strictly before `b`.
pub fn is_before(a: &str, b: &str) -> (r: bool)
    ensures
        r == stands_before(a@, b@),
{
    let xs = characters(a);
    let ys = characters(b);
    let mut at: usize = 0;
    assert(a@.skip(0) == a@ && b@.skip(0) == b@);
    while at < xs.len() && at < ys.len() && xs[at] == ys[at]
        invariant
            at <= a@.len(),
            at <= b@.len(),
            xs@ == a@,
            ys@ == b@,
            stands_before(a@.skip(at as int), b@.skip(at as int)) == stands_before(a@, b@),
        decreases a@.len() - at,
    {
        assert(a@.skip(at as int).drop_first() == a@.skip(at + 1));
        assert(b@.skip(at as int).drop_first() == b@.skip(at + 1));
        at = at + 1;
    }
    if at >= ys.len() {
        false
    } else if at >= xs.len() {
        true
    } else {
        xs[at] < ys[at]
    }
}

/// A text is trimmed by cutting white space, and nothing else, off its ends
/// until it neither starts nor ends with any.
pub proof fn law_trimmed_is_the_core(s: Seq<char>)
    ensures
        exists|from: int, to: int|
            {
                &&& 0 <= from <= to <= s.len()
                &&& trimmed(s) == #[trigger] s.subrange(from, to)
                &&& forall|i: int| 0 <= i < from || to <= i < s.len() ==> is_white_space(s[i])
                &&& from < to ==> !is_white_space(s[from]) && !is_white_space(s[to - 1])
            },
{
    let front = trim_start(s);
    let core = trim_end(front);
    lemma_trim_start_cuts(s);
    lemma_trim_end_cuts(front);
    lemma_trim_start_done(s);
    lemma_trim_end_done(front);
    let from = s.len() - front.len();
    let to = from + core.len();
    assert(core == s.subrange(from, to));
    assert forall|i: int| 0 <= i < from || to <= i < s.len() implies is_white_space(s[i]) by {
        if to <= i {
            assert(front[i - from] == s[i]);
        }
    }
}

/// What is cut off the start is white space.
proof fn lemma_trim_start_cuts(s: Seq<char>)
    ensures
        trim_start(s).len() <= s.len(),
        trim_start(s) == s.skip(s.len() - trim_start(s).len()),
        forall|i: int| 0 <= i < s.len() - trim_start(s).len() ==> is_white_space(s[i]),
    decreases s.len(),
{
    if s.len() > 0 && is_white_space(s.first()) {
        let rest = s.drop_first();
        lemma_trim_start_cuts(rest);
        assert forall|i: int| 0 <= i < s.len() - trim_start(s).len() implies is_white_space(
            s[i],
        ) by {
            if i > 0 {
                assert(rest[i - 1] == s[i]);
            }
        }
    }
}

/// What is cut off the end is white space.
proof fn lemma_trim_end_cuts(s: Seq<char>)
    ensures
        trim_end(s).len() <= s.len(),
        trim_end(s) == s.take(trim_end(s).len() as int),
        forall|i: int| trim_end(s).len() <= i < s.len() ==> is_white_space(s[i]),
    decreases s.len(),
{
    if s.len() > 0 && is_white_space(s.last()) {
        let rest = s.drop_last();
        lemma_trim_end_cuts(rest);
        assert forall|i: int| trim_end(s).len() <= i < s.len() implies is_white_space(s[i]) by {
            if i < s.len() - 1 {
                assert(rest[i] == s[i]);
            }
        }
    } else {
        assert(s.take(s.len() as int) == s);
    }
}

/// Digits count by their place: a row of digits before another counts as many
/// times ten as the other has digits. One digit counts what it stands for.
pub proof fn law_digits_count_by_place(a: Seq<char>, b: Seq<char>, digit: char)
    ensures
        digits_value(a + b) == digits_value(a) * power::pow(10, b.len()) + digits_value(b),
        digits_value(seq![digit]) == digit as int - 48,
        digits_value(Seq::empty()) == 0,
    decreases b.len(),
{
    let one = seq![digit];
    assert(one.drop_last() == Seq::<char>::empty());
    assert(digits_value(one.drop_last()) == 0);
    power::lemma_pow0(10);
    if b.len() == 0 {
        assert(a + b == a);
    } else {
        law_digits_count_by_place(a, b.drop_last(), digit);
        assert((a + b).drop_last() == a + b.drop_last());
        reveal(power::pow);
        let p = power::pow(10, (b.len() - 1) as nat);
        assert(digits_value(a) * (10 * p) == 10 * (digits_value(a) * p)) by (nonlinear_arith);
    }
}

/// A numeral is one digit or more, after one `+` at most; it writes what its
/// digits count.
pub proof fn law_numerals_are_digits(s: Seq<char>, body: Seq<char>)
    requires
        s == seq!['+'] + body || (s == body && !(s.len() > 0 && s[0] == '+')),
    ensures
        numeral_value(s) is Some <==> body.len() > 0 && forall|i: int|
            0 <= i < body.len() ==> '0' <= #[trigger] body[i] <= '9',
        numeral_value(s) is Some ==> numeral_value(s)->0 == digits_value(body),
{
    assert(unsigned_part(s) == body);
    if body.len() > 0 && all_digits(body) {
        assert forall|i: int| 0 <= i < body.len() implies '0' <= #[trigger] body[i] <= '9' by {
            assert(is_digit(body[i]));
        }
    } else if body.len() > 0 {
        let i = choose|i: int| 0 <= i < body.len() && !is_digit(#[trigger] body[i]);
        assert(!('0' <= body[i] <= '9'));
    }
}

/// No number is written with a leading zero, but zero itself.
pub proof fn law_decimals_have_no_leading_zero(n: nat)
    ensures
        decimal(n).len() > 0,
        decimal(n)[0] == '0' ==> n == 0 && decimal(n) == seq!['0'],
    decreases n,
{
    if n >= 10 {
        law_decimals_have_no_leading_zero(n / 10);
    }
}

/// One text stands before another exactly if it is a proper start of it, or has
/// the lesser character where they first differ.
pub proof fn law_texts_stand_in_order(a: Seq<char>, b: Seq<char>)
    ensures
        stands_before(a, b) <==> exists|k: int|
            {
                &&& 0 <= k <= a.len() && k < b.len()
                &&& #[trigger] a.take(k) == b.take(k)
                &&& k == a.len() || a[k] < b[k]
            },
    decreases a.len(),
{
    if b.len() > 0 && a.len() > 0 && a.first() == b.first() {
        let c = a.drop_first();
        let d = b.drop_first();
        law_texts_stand_in_order(c, d);
        if stands_before(a, b) {
            let k = choose|k: int|
                {
                    &&& 0 <= k <= c.len() && k < d.len()
                    &&& #[trigger] c.take(k) == d.take(k)
                    &&& k == c.len() || c[k] < d[k]
                };
            assert forall|i: int| 0 <= i < k + 1 implies a[i] == b[i] by {
                if i > 0 {
                    assert(c.take(k)[i - 1] == d.take(k)[i - 1]);
                }
            }
            assert(a.take(k + 1) == b.take(k + 1));
        }
        if exists|k: int|
            {
                &&& 0 <= k <= a.len() && k < b.len()
                &&& #[trigger] a.take(k) == b.take(k)
                &&& k == a.len() || a[k] < b[k]
            } {
            let k = choose|k: int|
                {
                    &&& 0 <= k <= a.len() && k < b.len()
                    &&& #[trigger] a.take(k) == b.take(k)
                    &&& k == a.len() || a[k] < b[k]
                };
            assert(k > 0);
            assert forall|i: int| 0 <= i < k - 1 implies c[i] == d[i] by {
                assert(a.take(k)[i + 1] == b.take(k)[i + 1]);
            }
            assert(c.take(k - 1) == d.take(k - 1));
        }
    } else {
        assert(a.take(0) == b.take(0));
        if b.len() > 0 && a.len() > 0 {
            assert forall|k: int| 0 < k <= a.len() && k < b.len() implies #[trigger] a.take(k)
                != b.take(k) by {
                assert(a.take(k)[0] != b.take(k)[0]);
            }
        }
    }
}

} // verus!
