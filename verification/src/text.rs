use vstd::prelude::*;
use vstd::string::StrSliceExecFns;

verus! {

/// The character of a decimal digit.
pub open spec fn digit_char(d: nat) -> char {
    if d == 0 { '0' }
    else if d == 1 { '1' }
    else if d == 2 { '2' }
    else if d == 3 { '3' }
    else if d == 4 { '4' }
    else if d == 5 { '5' }
    else if d == 6 { '6' }
    else if d == 7 { '7' }
    else if d == 8 { '8' }
    else { '9' }
}

/// The decimal representation of a natural number, as `Display` writes it
/// for the unsigned integer types: no sign, no leading zeros.
pub open spec fn decimal(n: nat) -> Seq<char>
    decreases n,
{
    if n < 10 {
        seq![digit_char(n)]
    } else {
        decimal(n / 10).push(digit_char(n % 10))
    }
}

/// A decimal digit character.
pub open spec fn is_digit(c: char) -> bool {
    '0' <= c && c <= '9'
}

/// The value of a string of digits read in base ten: each digit's code
/// point minus that of `'0'`, weighted by a power of ten.
pub open spec fn numeral_value(s: Seq<char>) -> int
    decreases s.len(),
{
    if s.len() == 0 {
        0
    } else {
        numeral_value(s.drop_last()) * 10 + ((s.last() as int) - ('0' as int))
    }
}

/// `decimal(n)` is the base-ten numeral of `n`: a non-empty string of
/// digits whose value is `n`, with no leading zero.
pub proof fn law_decimal_is_numeral(n: nat)
    ensures
        decimal(n).len() >= 1,
        forall|i: int| 0 <= i < decimal(n).len() ==> is_digit(#[trigger] decimal(n)[i]),
        numeral_value(decimal(n)) == n,
        decimal(n).len() > 1 ==> decimal(n)[0] != '0',
    decreases n,
{
    let s = decimal(n);
    let last = digit_char(n % 10);
    lemma_digit_char_value(n % 10);
    if n < 10 {
        assert(s == seq![last]);
        assert(s.drop_last() =~= Seq::<char>::empty());
        assert(numeral_value(Seq::<char>::empty()) == 0);
    } else {
        law_decimal_is_numeral(n / 10);
        let d = decimal(n / 10);
        assert(s == d.push(last));
        assert(s.drop_last() =~= d);
        assert(numeral_value(s) == numeral_value(d) * 10 + (n % 10));
        assert forall|i: int| 0 <= i < s.len() implies is_digit(#[trigger] s[i]) by {
            if i < d.len() {
                assert(s[i] == d[i]);
            }
        }
        assert(s[0] == d[0]);
        if n / 10 < 10 {
            lemma_digit_char_value(n / 10);
            assert(d == seq![digit_char(n / 10)]);
        } else {
            law_decimal_is_numeral(n / 100);
            assert(d == decimal(n / 10 / 10).push(digit_char(n / 10 % 10)));
            assert(d.len() > 1);
        }
    }
}

/// The digit character of `d` has the code point of `'0'` plus `d`.
proof fn lemma_digit_char_value(d: nat)
    requires
        d < 10,
    ensures
        (digit_char(d) as int) - ('0' as int) == d,
        is_digit(digit_char(d)),
        d != 0 ==> digit_char(d) != '0',
{
}

fn digit(d: u128) -> (c: char)
    requires
        d < 10,
    ensures
        c == digit_char(d as nat),
{
    let c: char = (48u8 + (d as u8)) as char;
    c
}

/// `String::push` from std: appends one character at the end.
#[verifier::external_body]
pub(crate) fn push_char(s: &mut String, c: char)
    ensures
        final(s)@ == old(s)@.push(c),
{
    s.push(c);
}

/// Writes `n` in decimal, as `n.to_string()` does.
pub fn decimal_string(n: u128) -> (s: String)
    ensures
        s@ == decimal(n as nat),
        numeral_value(s@) == n,
        forall|i: int| 0 <= i < s@.len() ==> is_digit(#[trigger] s@[i]),
        s@.len() > 1 ==> s@[0] != '0',
    decreases n,
{
    proof {
        law_decimal_is_numeral(n as nat);
    }
    if n < 10 {
        let mut s = String::new();
        push_char(&mut s, digit(n));
        s
    } else {
        let mut s = decimal_string(n / 10);
        push_char(&mut s, digit(n % 10));
        s
    }
}

/// `a` sorts before `b` when both are compared from position `i` on: the
/// first position where they differ holds the smaller character in `a`,
/// or `a` ends there while `b` goes on.
pub open spec fn text_lt_from(a: Seq<char>, b: Seq<char>, i: int) -> bool
    decreases a.len() - i,
{
    if i < 0 || i >= a.len() {
        0 <= i < b.len()
    } else if i >= b.len() {
        false
    } else if a[i] == b[i] {
        text_lt_from(a, b, i + 1)
    } else {
        a[i] < b[i]
    }
}

/// The order of `String` in Rust: lexicographic by character (which is
/// also the order of the UTF-8 bytes).
pub open spec fn text_lt(a: Seq<char>, b: Seq<char>) -> bool {
    text_lt_from(a, b, 0)
}

/// Texts that agree on `[k, i)` compare from `k` as they do from `i`.
proof fn lemma_text_lt_skip_common(a: Seq<char>, b: Seq<char>, k: int, i: int)
    requires
        0 <= k <= i,
        i <= a.len(),
        i <= b.len(),
        forall|j: int| k <= j < i ==> a[j] == b[j],
    ensures
        text_lt_from(a, b, k) == text_lt_from(a, b, i),
    decreases i - k,
{
    if k < i {
        lemma_text_lt_skip_common(a, b, k + 1, i);
    }
}

/// Texts are ordered by their first differing character, compared by code
/// point.
pub proof fn law_text_lt_first_difference(a: Seq<char>, b: Seq<char>, i: int)
    requires
        0 <= i < a.len(),
        i < b.len(),
        forall|j: int| 0 <= j < i ==> a[j] == b[j],
        a[i] != b[i],
    ensures
        text_lt(a, b) == ((a[i] as int) < (b[i] as int)),
{
    lemma_text_lt_skip_common(a, b, 0, i);
}

/// A proper prefix sorts before the text it begins.
pub proof fn law_text_lt_proper_prefix(a: Seq<char>, b: Seq<char>)
    requires
        a.len() < b.len(),
        forall|j: int| 0 <= j < a.len() ==> a[j] == b[j],
    ensures
        text_lt(a, b),
        !text_lt(b, a),
{
    lemma_text_lt_skip_common(a, b, 0, a.len() as int);
    assert forall|j: int| 0 <= j < a.len() implies b[j] == a[j] by {}
    lemma_text_lt_skip_common(b, a, 0, a.len() as int);
}

/// No text sorts before itself.
pub proof fn lemma_text_lt_irreflexive(a: Seq<char>, i: int)
    requires
        0 <= i,
    ensures
        !text_lt_from(a, a, i),
    decreases a.len() - i,
{
    if i < a.len() {
        lemma_text_lt_irreflexive(a, i + 1);
    }
}

/// The order is transitive.
pub proof fn lemma_text_lt_transitive(a: Seq<char>, b: Seq<char>, c: Seq<char>, i: int)
    requires
        0 <= i,
        text_lt_from(a, b, i),
        text_lt_from(b, c, i),
    ensures
        text_lt_from(a, c, i),
    decreases b.len() - i,
{
    if i < a.len() && i < b.len() && i < c.len() && a[i] == b[i] && b[i] == c[i] {
        lemma_text_lt_transitive(a, b, c, i + 1);
    }
}

/// Two texts of which neither sorts before the other agree from `i` on.
pub proof fn lemma_text_lt_total_from(a: Seq<char>, b: Seq<char>, i: int)
    requires
        0 <= i <= a.len(),
        i <= b.len(),
        !text_lt_from(a, b, i),
        !text_lt_from(b, a, i),
    ensures
        a.len() == b.len(),
        forall|j: int| i <= j < a.len() ==> a[j] == b[j],
    decreases a.len() - i,
{
    if i < a.len() {
        assert(i < b.len());
        assert(a[i] == b[i]);
        lemma_text_lt_total_from(a, b, i + 1);
    }
}

/// The order is total: of two different texts one sorts before the other.
pub proof fn lemma_text_lt_total(a: Seq<char>, b: Seq<char>)
    ensures
        a == b || text_lt(a, b) || text_lt(b, a),
{
    if !text_lt(a, b) && !text_lt(b, a) {
        lemma_text_lt_total_from(a, b, 0);
        assert(a =~= b);
    }
}

/// Whether `a` sorts strictly before `b`, as `a < b` on strings.
pub fn text_less(a: &str, b: &str) -> (r: bool)
    ensures
        r == text_lt(a@, b@),
{
    let la = a.unicode_len();
    let lb = b.unicode_len();
    let mut i: usize = 0;
    while i < la && i < lb
        invariant
            la == a@.len(),
            lb == b@.len(),
            i <= la,
            i <= lb,
            text_lt(a@, b@) == text_lt_from(a@, b@, i as int),
        decreases la - i,
    {
        let ca = a.get_char(i);
        let cb = b.get_char(i);
        if ca != cb {
            return ca < cb;
        }
        i = i + 1;
    }
    i < lb && i == la
}

/// Whether two strings hold the same text.
pub fn text_eq(a: &str, b: &str) -> (r: bool)
    ensures
        r == (a@ == b@),
{
    let la = a.unicode_len();
    let lb = b.unicode_len();
    if la != lb {
        return false;
    }
    let mut i: usize = 0;
    while i < la
        invariant
            la == a@.len(),
            lb == b@.len(),
            la == lb,
            i <= la,
            forall|j: int| 0 <= j < i ==> a@[j] == b@[j],
        decreases la - i,
    {
        if a.get_char(i) != b.get_char(i) {
            return false;
        }
        i = i + 1;
    }
    assert(a@ =~= b@);
    true
}

/// Builds a string out of a sequence of characters.
pub fn text_of(chars: &[char]) -> (s: String)
    ensures
        s@ == chars@,
{
    let mut s = String::new();
    let n = chars.len();
    for i in 0..n
        invariant
            n == chars@.len(),
            s@ == chars@.subrange(0, i as int),
    {
        push_char(&mut s, chars[i]);
        assert(chars@.subrange(0, i + 1) == chars@.subrange(0, i as int).push(chars@[i as int]));
    }
    assert(chars@.subrange(0, n as int) == chars@);
    s
}

} // verus!
