//! Text helpers: decimal numbers, comparison and trimming, each with an exact contract
//! over the characters of the text.

use vstd::prelude::*;

verus! {

/// The digit character of a number below ten.
pub open spec fn digit_char(d: int) -> char {
    (d + 48) as char
}

/// Whether a character is one of `0` to `9`.
pub open spec fn is_digit(c: char) -> bool {
    48 <= c as int <= 57
}

/// The decimal digits of a natural number, without leading zeros.
pub open spec fn digits(n: nat) -> Seq<char>
    decreases n,
{
    if n < 10 {
        seq![digit_char(n as int)]
    } else {
        digits(n / 10).push(digit_char((n % 10) as int))
    }
}

/// The decimal notation of an integer: its digits, after `-` where it is negative.
pub open spec fn decimal(n: int) -> Seq<char> {
    if n < 0 {
        seq!['-'] + digits((-n) as nat)
    } else {
        digits(n as nat)
    }
}

/// The number that a run of decimal digits stands for.
pub open spec fn digits_value(s: Seq<char>) -> nat
    decreases s.len(),
{
    if s.len() == 0 {
        0
    } else {
        digits_value(s.drop_last()) * 10 + (s.last() as int - 48) as nat
    }
}

/// Whether every character is a decimal digit and there is at least one.
pub open spec fn all_digits(s: Seq<char>) -> bool {
    s.len() > 0 && forall|i: int| 0 <= i < s.len() ==> is_digit(#[trigger] s[i])
}

/// The unsigned number that a text stands for: decimal digits, after an optional `+`, of a
/// number that fits in 64 bits. `None` for every other text.
pub open spec fn unsigned_value(s: Seq<char>) -> Option<u64> {
    let body = if s.len() > 0 && s[0] == '+' {
        s.drop_first()
    } else {
        s
    };
    if all_digits(body) && digits_value(body) <= u64::MAX {
        Some(digits_value(body) as u64)
    } else {
        None
    }
}

/// A text without the slashes at its end.
pub open spec fn without_trailing_slashes(s: Seq<char>) -> Seq<char>
    decreases s.len(),
{
    if s.len() > 0 && s.last() == '/' {
        without_trailing_slashes(s.drop_last())
    } else {
        s
    }
}

/// Lexicographic order of texts by code point.
pub open spec fn text_less(a: Seq<char>, b: Seq<char>) -> bool
    decreases a.len(),
{
    if b.len() == 0 {
        false
    } else if a.len() == 0 {
        true
    } else if a[0] == b[0] {
        text_less(a.drop_first(), b.drop_first())
    } else {
        (a[0] as int) < (b[0] as int)
    }
}

/// The texts of a list of strings.
pub open spec fn texts(v: Seq<String>) -> Seq<Seq<char>> {
    Seq::new(v.len(), |i: int| v[i]@)
}

/// The text of an optional string.
pub open spec fn opt_text(s: Option<String>) -> Option<Seq<char>> {
    match s {
        Some(t) => Some(t@),
        None => None,
    }
}

/// The texts of an outcome.
pub open spec fn result_text(r: Result<String, String>) -> Result<Seq<char>, Seq<char>> {
    match r {
        Ok(t) => Ok(t@),
        Err(e) => Err(e@),
    }
}

/// Whether two texts are the same.
pub fn same_text(a: &str, b: &str) -> (r: bool)
    ensures
        r == (a@ == b@),
{
    a.to_owned() == b.to_owned()
}

/// A one-digit string.
fn digit_text(d: u8) -> (r: String)
    requires
        d < 10,
    ensures
        r@ == seq![digit_char(d as int)],
{
    let all: &str = "0123456789";
    proof {
        reveal_strlit("0123456789");
    }
    let i: usize = d as usize;
    let one: &str = all.substring_char(i, i + 1);
    assert(one@ =~= seq![digit_char(d as int)]);
    one.to_owned()
}

/// The decimal digits of a number.
pub fn unsigned_text(n: u64) -> (r: String)
    ensures
        r@ == digits(n as nat),
    decreases n,
{
    if n < 10 {
        digit_text(n as u8)
    } else {
        let head: String = unsigned_text(n / 10);
        let last: String = digit_text((n % 10) as u8);
        let r: String = head.concat(last.as_str());
        assert(r@ =~= digits(n as nat));
        r
    }
}

/// The decimal notation of a number.
pub fn signed_text(n: i64) -> (r: String)
    ensures
        r@ == decimal(n as int),
{
    if n >= 0 {
        unsigned_text(n as u64)
    } else {
        let magnitude: u64 = (-(n as i128)) as u64;
        let tail: String = unsigned_text(magnitude);
        proof {
            reveal_strlit("-");
        }
        let r: String = "-".to_owned().concat(tail.as_str());
        assert(r@ =~= decimal(n as int));
        r
    }
}

/// Removes the slashes at the end of a text.
pub fn trim_end_slashes(s: &str) -> (r: String)
    ensures
        r@ == without_trailing_slashes(s@),
{
    let mut end: usize = s.unicode_len();
    assert(s@.subrange(0, end as int) =~= s@);
    while end > 0 && s.get_char(end - 1) == '/'
        invariant
            end <= s@.len(),
            without_trailing_slashes(s@.subrange(0, end as int)) == without_trailing_slashes(s@),
        decreases end,
    {
        assert(s@.subrange(0, end as int).drop_last() =~= s@.subrange(0, end - 1));
        end = end - 1;
    }
    s.substring_char(0, end).to_owned()
}

/// Parses an unsigned number: decimal digits, after an optional `+`.
pub fn parse_unsigned(s: &str) -> (r: Option<u64>)
    ensures
        r == unsigned_value(s@),
{
    let n: usize = s.unicode_len();
    let start: usize = if n > 0 && s.get_char(0) == '+' {
        1
    } else {
        0
    };
    let ghost body = s@.subrange(start as int, n as int);
    assert(start == 1 ==> body =~= s@.drop_first());
    assert(start == 0 ==> body =~= s@);
    if start == n {
        return None;
    }
    let mut value: u64 = 0;
    let mut i: usize = start;
    assert(body.take(0) =~= Seq::<char>::empty());
    while i < n
        invariant
            start <= i <= n,
            start < n,
            n == s@.len(),
            body == s@.subrange(start as int, n as int),
            start == 1 ==> s@.len() > 0 && s@[0] == '+' && body == s@.drop_first(),
            start == 0 ==> !(s@.len() > 0 && s@[0] == '+') && body == s@,
            start == 0 || start == 1,
            forall|k: int| 0 <= k < i - start ==> is_digit(#[trigger] body[k]),
            value == digits_value(body.take(i - start)),
        decreases n - i,
    {
        let c: char = s.get_char(i);
        assert(body[i - start] == c);
        let code: u32 = c as u32;
        if code < 48 || code > 57 {
            assert(!is_digit(body[i - start]));
            return None;
        }
        let d: u64 = (code - 48) as u64;
        proof {
            let t = body.take(i - start + 1);
            assert(t.drop_last() =~= body.take(i - start));
            assert(t.last() == c);
            assert(digits_value(t) == value * 10 + d);
        }
        if value > (u64::MAX - d) / 10 {
            proof {
                lemma_value_grows(body, i - start + 1, body.len() as int);
                assert(body.take(body.len() as int) =~= body);
                assert(value * 10 + d > u64::MAX);
            }
            return None;
        }
        value = value * 10 + d;
        i = i + 1;
    }
    assert(body.take(n - start) =~= body);
    Some(value)
}

/// A longer run of digits stands for a number at least as large.
proof fn lemma_value_grows(s: Seq<char>, i: int, j: int)
    requires
        0 <= i <= j <= s.len(),
    ensures
        digits_value(s.take(i)) <= digits_value(s.take(j)),
    decreases j - i,
{
    if i < j {
        lemma_value_grows(s, i, j - 1);
        assert(s.take(j).drop_last() =~= s.take(j - 1));
    }
}

/// The code point of a character.
fn char_code(c: char) -> (r: u32)
    ensures
        r == c as int,
{
    c as u32
}

/// Whether a text comes before another by code point.
pub fn text_before(a: &str, b: &str) -> (r: bool)
    ensures
        r == text_less(a@, b@),
{
    let n: usize = a.unicode_len();
    let mut left = a.chars();
    let mut right = b.chars();
    let mut i: usize = 0;
    assert(a@.skip(0) =~= a@);
    assert(b@.skip(0) =~= b@);
    while i < n
        invariant
            i <= n,
            n == a@.len(),
            vstd::std_specs::iter::IteratorSpec::remaining(&left) == a@.skip(i as int),
            vstd::std_specs::iter::IteratorSpec::remaining(&right) == b@.skip(i as int),
            i <= b@.len(),
            text_less(a@, b@) == text_less(a@.skip(i as int), b@.skip(i as int)),
        decreases n - i,
    {
        if let Some(c) = left.next() {
            match right.next() {
                Some(d) => {
                    if c != d {
                        return char_code(c) < char_code(d);
                    }
                },
                None => {
                    return false;
                },
            }
        }
        assert(a@.skip(i as int).drop_first() =~= a@.skip(i + 1));
        assert(b@.skip(i as int).drop_first() =~= b@.skip(i + 1));
        i = i + 1;
    }
    match right.next() {
        Some(_) => true,
        None => false,
    }
}

/// Decimal digits read back as the number they were written for.
pub proof fn lemma_digits_read_back(n: nat)
    ensures
        all_digits(digits(n)),
        digits_value(digits(n)) == n,
        digits(n)[0] != '+',
    decreases n,
{
    if n < 10 {
        let s = digits(n);
        assert(s.drop_last() =~= Seq::<char>::empty());
        assert(digits_value(s.drop_last()) == 0);
        assert(s.last() as int - 48 == n);
    } else {
        lemma_digits_read_back(n / 10);
        let s = digits(n);
        assert(s.drop_last() =~= digits(n / 10));
        assert(s[0] == digits(n / 10)[0]);
        assert(s.last() as int - 48 == n % 10);
    }
}

/// Reading the decimal notation of a 64-bit number gives the number back.
pub proof fn law_unsigned_read_back(n: u64)
    ensures
        unsigned_value(digits(n as nat)) == Some(n),
{
    lemma_digits_read_back(n as nat);
}

/// No text comes before itself.
pub proof fn lemma_text_less_irreflexive(a: Seq<char>)
    ensures
        !text_less(a, a),
    decreases a.len(),
{
    if a.len() > 0 {
        lemma_text_less_irreflexive(a.drop_first());
    }
}

/// Of two different texts one comes before the other.
pub proof fn lemma_text_less_total(a: Seq<char>, b: Seq<char>)
    ensures
        a == b || text_less(a, b) || text_less(b, a),
    decreases a.len(),
{
    if a.len() > 0 && b.len() > 0 && a[0] == b[0] {
        lemma_text_less_total(a.drop_first(), b.drop_first());
        if a.drop_first() == b.drop_first() {
            assert(a =~= seq![a[0]] + a.drop_first());
            assert(b =~= seq![b[0]] + b.drop_first());
        }
    } else if a.len() == 0 && b.len() == 0 {
        assert(a =~= b);
    }
}

/// The order of texts is transitive.
pub proof fn lemma_text_less_transitive(a: Seq<char>, b: Seq<char>, c: Seq<char>)
    requires
        text_less(a, b),
        text_less(b, c),
    ensures
        text_less(a, c),
    decreases a.len(),
{
    if a.len() > 0 && a[0] == b[0] && b[0] == c[0] {
        lemma_text_less_transitive(a.drop_first(), b.drop_first(), c.drop_first());
    }
}

/// Whether a list of texts is in ascending order, each text once.
pub open spec fn ascending(s: Seq<Seq<char>>) -> bool {
    forall|i: int, j: int| 0 <= i < j < s.len() ==> text_less(#[trigger] s[i], #[trigger] s[j])
}

/// Puts a text at its place in an ascending list, which stays as it is where it has the text.
pub fn insert_ascending(list: &mut Vec<String>, item: String)
    requires
        ascending(texts(old(list)@)),
    ensures
        ascending(texts(final(list)@)),
        forall|t: Seq<char>| #[trigger]
            texts(final(list)@).contains(t) <==> texts(old(list)@).contains(t) || t == item@,
{
    let n: usize = list.len();
    let mut at: usize = 0;
    while at < n && text_before(list[at].as_str(), item.as_str())
        invariant
            n == list@.len(),
            list@ == old(list)@,
            at <= n,
            forall|k: int| 0 <= k < at ==> text_less((#[trigger] list@[k])@, item@),
        decreases n - at,
    {
        at = at + 1;
    }
    let ghost before = texts(list@);
    if at < n && same_text(list[at].as_str(), item.as_str()) {
        proof {
            assert(before[at as int] == item@);
            assert forall|t: Seq<char>| before.contains(t) || t == item@ implies before.contains(
                t,
            ) by {}
        }
        return ;
    }
    let ghost text = item@;
    list.insert(at, item);
    proof {
        let after = texts(list@);
        assert(after =~= before.insert(at as int, text));
        assert forall|k: int| at <= k < n implies text_less(text, #[trigger] before[k]) by {
            lemma_text_less_total(text, before[at as int]);
            if k > at {
                lemma_text_less_transitive(text, before[at as int], before[k]);
            }
        }
        assert forall|k: int| 0 <= k < at implies text_less(#[trigger] before[k], text) by {
            assert(before[k] == old(list)@[k]@);
        }
        assert forall|i: int, j: int| 0 <= i < j < after.len() implies text_less(
            #[trigger] after[i],
            #[trigger] after[j],
        ) by {
            if i < at && j > at {
                assert(after[j] == before[j - 1]);
            } else if i > at {
                assert(after[i] == before[i - 1]);
                assert(after[j] == before[j - 1]);
            } else if i == at {
                assert(after[j] == before[j - 1]);
            }
        }
        assert forall|t: Seq<char>| #[trigger] after.contains(t) <==> before.contains(t) || t
            == text by {
            if after.contains(t) {
                let k = choose|k: int| 0 <= k < after.len() && after[k] == t;
                if k < at {
                    assert(before[k] == t);
                } else if k > at {
                    assert(before[k - 1] == t);
                }
            }
            if before.contains(t) {
                let k = choose|k: int| 0 <= k < before.len() && before[k] == t;
                if k < at {
                    assert(after[k] == t);
                } else {
                    assert(after[k + 1] == t);
                }
            }
            assert(after[at as int] == text);
        }
    }
}

/// Slashes at the end of a text are removed, however many there are, and nothing else is.
pub proof fn law_only_trailing_slashes_go(base: Seq<char>, n: nat)
    requires
        base.len() == 0 || base.last() != '/',
    ensures
        without_trailing_slashes(base + Seq::new(n, |i: int| '/')) == base,
    decreases n,
{
    let s = base + Seq::new(n, |i: int| '/');
    if n == 0 {
        assert(s =~= base);
    } else {
        let m = (n - 1) as nat;
        assert(s.last() == '/');
        assert(s.drop_last() =~= base + Seq::new(m, |i: int| '/'));
        law_only_trailing_slashes_go(base, m);
    }
}

/// The decimal notation of a number is made of digits, and begins with a zero only where it is
/// zero; that of a negative number is the one of its magnitude after a minus.
pub proof fn law_decimal_notation(n: int)
    ensures
        n >= 0 ==> all_digits(decimal(n)) && digits_value(decimal(n)) == n,
        n >= 0 ==> (decimal(n)[0] == '0' ==> n == 0 && decimal(n).len() == 1),
        n < 0 ==> decimal(n) == seq!['-'] + decimal(-n),
{
    if n >= 0 {
        lemma_digits_read_back(n as nat);
        lemma_no_leading_zero(n as nat);
    }
}

proof fn lemma_no_leading_zero(n: nat)
    ensures
        digits(n)[0] == '0' ==> n == 0 && digits(n).len() == 1,
        digits(n).len() > 0,
    decreases n,
{
    if n >= 10 {
        lemma_no_leading_zero(n / 10);
        lemma_digits_read_back(n / 10);
        assert(digits(n)[0] == digits(n / 10)[0]);
    }
}

/// A text is read as an unsigned number exactly where it is digits, after an optional plus, of a
/// number below the limit, and then as that number.
pub proof fn law_unsigned_numbers(s: Seq<char>, n: u64)
    ensures
        unsigned_value(s) == Some(n) <==> {
            ||| s.len() > 0 && (forall|i: int| 0 <= i < s.len() ==> '0' <= #[trigger] s[i] <= '9')
                && digits_value(s) == n
            ||| s.len() > 1 && s[0] == '+' && (forall|i: int|
                1 <= i < s.len() ==> '0' <= #[trigger] s[i] <= '9') && digits_value(s.drop_first())
                == n
        },
{
    let t = s.drop_first();
    if s.len() > 0 && s[0] == '+' {
        assert forall|i: int| 1 <= i < s.len() implies #[trigger] s[i] == t[i - 1] by {}
        if all_digits(t) {
            assert forall|i: int| 1 <= i < s.len() implies '0' <= #[trigger] s[i] <= '9' by {
                assert(is_digit(t[i - 1]));
            }
        }
        if s.len() > 1 && (forall|i: int| 1 <= i < s.len() ==> '0' <= #[trigger] s[i] <= '9') {
            assert forall|i: int| 0 <= i < t.len() implies is_digit(#[trigger] t[i]) by {
                assert('0' <= s[i + 1] <= '9');
            }
        }
        assert(!('0' <= s[0] <= '9'));
    } else {
        if s.len() > 0 && (forall|i: int| 0 <= i < s.len() ==> '0' <= #[trigger] s[i] <= '9') {
            assert forall|i: int| 0 <= i < s.len() implies is_digit(#[trigger] s[i]) by {}
        }
        if all_digits(s) {
            assert forall|i: int| 0 <= i < s.len() implies '0' <= #[trigger] s[i] <= '9' by {
                assert(is_digit(s[i]));
            }
        }
    }
}

/// The value of digits grows by one place with each digit.
pub proof fn law_digits_are_decimal_places(s: Seq<char>, d: char)
    requires
        '0' <= d <= '9',
    ensures
        digits_value(s.push(d)) == digits_value(s) * 10 + (d as int - '0' as int),
        digits_value(Seq::empty()) == 0,
{
    assert(s.push(d).drop_last() =~= s);
}

/// Texts are in order by the first character in which they differ, and a text comes before its
/// continuations.
pub proof fn law_text_order(common: Seq<char>, a: Seq<char>, b: Seq<char>, c: char, d: char)
    ensures
        (c as int) < (d as int) ==> text_less(
            common + seq![c] + a,
            common + seq![d] + b,
        ),
        text_less(common, common + seq![c] + a),
        !text_less(common + a, common),
    decreases common.len(),
{
    let x = common + seq![c] + a;
    let y = common + seq![d] + b;
    let z = common + a;
    if common.len() > 0 {
        let rest = common.drop_first();
        law_text_order(rest, a, b, c, d);
        assert(x.drop_first() =~= rest + seq![c] + a);
        assert(y.drop_first() =~= rest + seq![d] + b);
        assert(z.drop_first() =~= rest + a);
    }
}

} // verus!
