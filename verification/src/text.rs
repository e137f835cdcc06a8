use vstd::prelude::*;
use vstd::string::*;

verus! {

/// The texts of a sequence of strings.
pub open spec fn texts(v: Seq<String>) -> Seq<Seq<char>> {
    v.map_values(|s: String| s@)
}

/// The decimal digit character for `d` (`d < 10`).
pub open spec fn digit_char(d: nat) -> char {
    ((48 + d) as u32) as char
}

/// The decimal spelling of `n`, without sign or leading zeros, as `format!("{n}")` writes it.
pub open spec fn decimal(n: nat) -> Seq<char>
    decreases n,
{
    if n < 10 {
        seq![digit_char(n)]
    } else {
        decimal(n / 10) + seq![digit_char(n % 10)]
    }
}

fn digit_text(d: usize) -> (s: &'static str)
    requires
        d < 10,
    ensures
        s@ == seq![digit_char(d as nat)],
{
    proof {
        reveal_strlit("0");
        reveal_strlit("1");
        reveal_strlit("2");
        reveal_strlit("3");
        reveal_strlit("4");
        reveal_strlit("5");
        reveal_strlit("6");
        reveal_strlit("7");
        reveal_strlit("8");
        reveal_strlit("9");
    }
    let s = match d {
        0 => "0",
        1 => "1",
        2 => "2",
        3 => "3",
        4 => "4",
        5 => "5",
        6 => "6",
        7 => "7",
        8 => "8",
        _ => "9",
    };
    assert(s@ =~= seq![digit_char(d as nat)]);
    s
}

/// Appends the decimal spelling of `n` to `out`.
pub fn push_decimal(out: &mut String, n: usize)
    ensures
        final(out)@ == old(out)@ + decimal(n as nat),
    decreases n,
{
    if n < 10 {
        out.append(digit_text(n));
    } else {
        push_decimal(out, n / 10);
        out.append(digit_text(n % 10));
        assert(final(out)@ =~= old(out)@ + decimal(n as nat));
    }
}

/// `text` followed by `suffix`.
pub fn join_text(text: &str, suffix: &str) -> (r: String)
    ensures
        r@ == text@ + suffix@,
{
    let mut r = String::from_str(text);
    r.append(suffix);
    r
}

/// Whether `s` spells exactly the literal `lit`.
pub fn is_text(s: &str, lit: &str) -> (b: bool)
    ensures
        b == (s@ == lit@),
{
    let a = String::from_str(s);
    let b = String::from_str(lit);
    a == b
}

/// The split of `s` around its first `/`: the text before it and the text after it, or `None`
/// when `s` holds no `/`.
#[verifier::opaque]
pub open spec fn split_slash(s: Seq<char>) -> Option<(Seq<char>, Seq<char>)> {
    if s.contains('/') {
        let k = choose|k: int| 0 <= k < s.len() && s[k] == '/' && !s.take(k).contains('/');
        Some((s.take(k), s.skip(k + 1)))
    } else {
        None
    }
}

proof fn lemma_split_slash_at(s: Seq<char>, k: int)
    requires
        0 <= k < s.len(),
        s[k] == '/',
        !s.take(k).contains('/'),
    ensures
        split_slash(s) == Some((s.take(k), s.skip(k + 1))),
{
    reveal(split_slash);
    assert(s.contains('/'));
    let j = choose|j: int| 0 <= j < s.len() && s[j] == '/' && !s.take(j).contains('/');
    if j < k {
        assert(s.take(k)[j] == '/');
    } else if k < j {
        assert(s.take(j)[k] == '/');
    }
}

/// Splitting at the first `/` and joining the two sides with `/` gives the text back, and the
/// left side holds no `/`.
pub proof fn lemma_split_slash_rejoins(s: Seq<char>)
    ensures
        match split_slash(s) {
            Some((a, b)) => s == a + seq!['/'] + b && !a.contains('/'),
            None => !s.contains('/'),
        },
{
    reveal(split_slash);
    if s.contains('/') {
        let k0 = choose|k: int| 0 <= k < s.len() && s[k] == '/';
        let k = first_slash(s, k0);
        lemma_split_slash_at(s, k);
        assert(s =~= s.take(k) + seq!['/'] + s.skip(k + 1));
    }
}

proof fn first_slash(s: Seq<char>, k0: int) -> (k: int)
    requires
        0 <= k0 < s.len(),
        s[k0] == '/',
    ensures
        0 <= k <= k0,
        s[k] == '/',
        !s.take(k).contains('/'),
    decreases k0,
{
    if s.take(k0).contains('/') {
        let j = choose|j: int| 0 <= j < s.take(k0).len() && s.take(k0)[j] == '/';
        first_slash(s, j)
    } else {
        k0
    }
}

/// Splits `s` at its first `/` (what `str::split_once('/')` does).
pub fn split_once_slash(s: &str) -> (r: Option<(String, String)>)
    ensures
        match r {
            Some((a, b)) => split_slash(s@) == Some((a@, b@)),
            None => split_slash(s@) is None,
        },
{
    let n = s.unicode_len();
    let mut i: usize = 0;
    while i < n
        invariant
            n == s@.len(),
            i <= n,
            !s@.take(i as int).contains('/'),
        decreases n - i,
    {
        if s.get_char(i) == '/' {
            proof {
                lemma_split_slash_at(s@, i as int);
            }
            let a = String::from_str(s.substring_char(0, i));
            let b = String::from_str(s.substring_char(i + 1, n));
            assert(a@ =~= s@.take(i as int));
            assert(b@ =~= s@.skip(i + 1));
            return Some((a, b));
        }
        assert(s@.take(i + 1) =~= s@.take(i as int).push(s@[i as int]));
        i = i + 1;
    }
    assert(s@.take(n as int) =~= s@);
    proof {
        reveal(split_slash);
    }
    None
}

} // verus!

verus! {

/// Lexicographic order on texts, character by character (by code point) with a proper prefix
/// first: the order of `str`'s `Ord`, since UTF-8 preserves code point order byte by byte.
pub open spec fn lex_lt(a: Seq<char>, b: Seq<char>) -> bool
    decreases a.len(),
{
    if a.len() == 0 {
        b.len() > 0
    } else if b.len() == 0 {
        false
    } else if a[0] != b[0] {
        (a[0] as u32) < (b[0] as u32)
    } else {
        lex_lt(a.drop_first(), b.drop_first())
    }
}

/// No text comes before itself.
pub proof fn lemma_lex_lt_irreflexive(a: Seq<char>)
    ensures
        !lex_lt(a, a),
    decreases a.len(),
{
    if a.len() > 0 {
        lemma_lex_lt_irreflexive(a.drop_first());
    }
}

/// Of two different texts, one comes before the other.
pub proof fn lemma_lex_lt_total(a: Seq<char>, b: Seq<char>)
    requires
        a != b,
    ensures
        lex_lt(a, b) || lex_lt(b, a),
    decreases a.len(),
{
    if a.len() == 0 {
        if b.len() == 0 {
            assert(a =~= b);
        }
    } else if b.len() == 0 {
    } else if a[0] != b[0] {
        vstd::utf8::char_u32_cast(a[0], a[0] as u32);
        vstd::utf8::char_u32_cast(b[0], b[0] as u32);
    } else {
        if a.drop_first() == b.drop_first() {
            assert(a =~= seq![a[0]] + a.drop_first());
            assert(b =~= seq![b[0]] + b.drop_first());
        }
        lemma_lex_lt_total(a.drop_first(), b.drop_first());
    }
}

/// The order is transitive.
pub proof fn lemma_lex_lt_transitive(a: Seq<char>, b: Seq<char>, c: Seq<char>)
    requires
        lex_lt(a, b),
        lex_lt(b, c),
    ensures
        lex_lt(a, c),
    decreases a.len(),
{
    if a.len() > 0 && b.len() > 0 && c.len() > 0 && a[0] == b[0] && b[0] == c[0] {
        lemma_lex_lt_transitive(a.drop_first(), b.drop_first(), c.drop_first());
    }
}

/// Whether `a` comes before `b` in lexicographic order.
pub fn lex_less(a: &str, b: &str) -> (r: bool)
    ensures
        r == lex_lt(a@, b@),
{
    let n = a.unicode_len();
    let m = b.unicode_len();
    let mut i: usize = 0;
    assert(a@.skip(0) =~= a@);
    assert(b@.skip(0) =~= b@);
    while i < n && i < m
        invariant
            n == a@.len(),
            m == b@.len(),
            i <= n,
            i <= m,
            lex_lt(a@, b@) == lex_lt(a@.skip(i as int), b@.skip(i as int)),
        decreases n - i,
    {
        let ca = a.get_char(i);
        let cb = b.get_char(i);
        if ca != cb {
            return (ca as u32) < (cb as u32);
        }
        assert(a@.skip(i as int).drop_first() =~= a@.skip(i + 1));
        assert(b@.skip(i as int).drop_first() =~= b@.skip(i + 1));
        i = i + 1;
    }
    i < m
}

} // verus!

verus! {

/// The value of a decimal digit character (`'0'` is 0, ..., `'9'` is 9).
pub open spec fn digit_value(c: char) -> int {
    (c as u32) - 48
}

/// Whether `c` is one of `'0'` ..= `'9'`.
pub open spec fn is_digit(c: char) -> bool {
    48 <= (c as u32) <= 57
}

/// The number that the digit string `s` denotes in base ten (most significant digit first):
/// `sum of digit_value(s[k]) * 10^(len - 1 - k)`.
pub open spec fn base_ten_value(s: Seq<char>) -> int
    decreases s.len(),
{
    if s.len() == 0 {
        0
    } else {
        base_ten_value(s.drop_last()) * 10 + digit_value(s.last())
    }
}

proof fn lemma_digit_char(d: nat)
    requires
        d < 10,
    ensures
        is_digit(digit_char(d)),
        digit_value(digit_char(d)) == d,
        d > 0 ==> digit_char(d) != '0',
{
    let u: u32 = (48 + d) as u32;
    assert(vstd::utf8::is_scalar(u));
    assert((u as char) as u32 == u) by {
        vstd::utf8::char_u32_cast(u as char, (u as char) as u32);
    }
}

/// The decimal spelling of `n` is its standard base-ten representation: it is made of digits
/// only, it denotes `n`, and it has no leading zero (it is `"0"` only for zero).
pub proof fn lemma_decimal_is_base_ten(n: nat)
    ensures
        decimal(n).len() > 0,
        forall|k: int| 0 <= k < decimal(n).len() ==> is_digit(#[trigger] decimal(n)[k]),
        base_ten_value(decimal(n)) == n,
        decimal(n)[0] == '0' ==> n == 0,
        n == 0 ==> decimal(n) == seq!['0'],
    decreases n,
{
    if n < 10 {
        lemma_digit_char(n);
        assert(decimal(n).drop_last() =~= Seq::<char>::empty());
        assert(base_ten_value(Seq::<char>::empty()) == 0);
        assert(base_ten_value(decimal(n)) == base_ten_value(decimal(n).drop_last()) * 10 + digit_value(decimal(n).last()));
        if n == 0 {
            assert('0' as u32 == 48);
            assert(digit_char(0) as u32 == 48);
            vstd::utf8::char_u32_cast('0', 48);
            vstd::utf8::char_u32_cast(digit_char(0), 48);
        }
    } else {
        lemma_decimal_is_base_ten(n / 10);
        lemma_digit_char(n % 10);
        let d = decimal(n);
        assert(d.drop_last() =~= decimal(n / 10));
        assert(d.last() == digit_char(n % 10));
        assert(base_ten_value(d) == base_ten_value(decimal(n / 10)) * 10 + digit_value(digit_char(n % 10)));
        assert(n == (n / 10) * 10 + n % 10);
        assert(d[0] == decimal(n / 10)[0]);
        assert forall|k: int| 0 <= k < d.len() implies is_digit(#[trigger] d[k]) by {
            if k < d.len() - 1 {
                assert(d[k] == decimal(n / 10)[k]);
            }
        }
    }
}

} // verus!

verus! {

/// `a` comes before `b` at position `k`: they agree on the first `k` characters, and there
/// either `a` ends while `b` goes on, or `a`'s character has the smaller code point.
pub open spec fn lex_lt_at(a: Seq<char>, b: Seq<char>, k: int) -> bool {
    &&& 0 <= k <= a.len()
    &&& k <= b.len()
    &&& a.take(k) == b.take(k)
    &&& ((k == a.len() && k < b.len()) || (k < a.len() && k < b.len() && (a[k] as u32) < (b[k] as u32)))
}

proof fn lemma_lex_lt_witness(a: Seq<char>, b: Seq<char>) -> (k: int)
    requires
        lex_lt(a, b),
    ensures
        lex_lt_at(a, b, k),
    decreases a.len(),
{
    if a.len() == 0 {
        assert(a.take(0) =~= b.take(0));
        0
    } else if a[0] != b[0] {
        assert(a.take(0) =~= b.take(0));
        0
    } else {
        let k = lemma_lex_lt_witness(a.drop_first(), b.drop_first());
        assert(a.take(k + 1) =~= seq![a[0]] + a.drop_first().take(k));
        assert(b.take(k + 1) =~= seq![b[0]] + b.drop_first().take(k));
        if k < a.drop_first().len() {
            assert(a.drop_first()[k] == a[k + 1]);
        }
        if k < b.drop_first().len() {
            assert(b.drop_first()[k] == b[k + 1]);
        }
        k + 1
    }
}

proof fn lemma_lex_lt_from_witness(a: Seq<char>, b: Seq<char>, k: int)
    requires
        lex_lt_at(a, b, k),
    ensures
        lex_lt(a, b),
    decreases a.len(),
{
    if k > 0 {
        assert(a.take(k)[0] == b.take(k)[0]);
        assert(a.drop_first().take(k - 1) =~= a.take(k).drop_first());
        assert(b.drop_first().take(k - 1) =~= b.take(k).drop_first());
        lemma_lex_lt_from_witness(a.drop_first(), b.drop_first(), k - 1);
    } else if a.len() > 0 && b.len() > 0 {
        assert(a[0] != b[0]);
    }
}

/// Lexicographic order, stated directly: `a` comes before `b` exactly when, after a common
/// prefix, `a` ends while `b` goes on or `a` has the smaller character.
pub proof fn lemma_lex_lt_means(a: Seq<char>, b: Seq<char>)
    ensures
        lex_lt(a, b) <==> exists|k: int| lex_lt_at(a, b, k),
{
    if lex_lt(a, b) {
        let k = lemma_lex_lt_witness(a, b);
        assert(lex_lt_at(a, b, k));
    }
    if exists|k: int| lex_lt_at(a, b, k) {
        let k = choose|k: int| lex_lt_at(a, b, k);
        lemma_lex_lt_from_witness(a, b, k);
    }
}

} // verus!
