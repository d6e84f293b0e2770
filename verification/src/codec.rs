//! Character-level codec for the persisted JSON documents: string escaping
//! and unescaping, decimal rendering and reading of integers, and literal
//! matching — each reader the proven inverse of its writer.

use vstd::prelude::*;

verus! {

// ---------- string escaping ----------

/// How one character is written inside a JSON string literal: quote,
/// backslash, newline, carriage return and tab get a backslash escape;
/// every other character stands as it is.
pub open spec fn esc_char(c: char) -> Seq<char> {
    if c == '"' {
        seq!['\\', '"']
    } else if c == '\\' {
        seq!['\\', '\\']
    } else if c == '\n' {
        seq!['\\', 'n']
    } else if c == '\r' {
        seq!['\\', 'r']
    } else if c == '\t' {
        seq!['\\', 't']
    } else {
        seq![c]
    }
}

/// The escaped form of a whole string.
pub open spec fn esc_str(s: Seq<char>) -> Seq<char>
    decreases s.len(),
{
    if s.len() == 0 {
        Seq::empty()
    } else {
        esc_char(s[0]) + esc_str(s.skip(1))
    }
}

/// The character a backslash escape stands for, or `None` for an escape
/// the codec does not write.
pub open spec fn unesc_code(c: char) -> Option<char> {
    if c == '"' {
        Some('"')
    } else if c == '\\' {
        Some('\\')
    } else if c == 'n' {
        Some('\n')
    } else if c == 'r' {
        Some('\r')
    } else if c == 't' {
        Some('\t')
    } else {
        None
    }
}

/// Read a string literal's body up to and through its closing quote:
/// the unescaped content and what follows the quote. `None` on an
/// unterminated literal or an unknown escape.
pub open spec fn unesc_prefix(s: Seq<char>) -> Option<(Seq<char>, Seq<char>)>
    decreases s.len(),
{
    if s.len() == 0 {
        None
    } else if s[0] == '"' {
        Some((Seq::empty(), s.skip(1)))
    } else if s[0] == '\\' {
        if s.len() < 2 {
            None
        } else {
            match unesc_code(s[1]) {
                None => None,
                Some(c) => match unesc_prefix(s.skip(2)) {
                    None => None,
                    Some(p) => Some((seq![c] + p.0, p.1)),
                },
            }
        }
    } else {
        match unesc_prefix(s.skip(1)) {
            None => None,
            Some(p) => Some((seq![s[0]] + p.0, p.1)),
        }
    }
}

/// Escaping distributes over appending one character.
pub proof fn lemma_esc_push(s: Seq<char>, c: char)
    ensures
        esc_str(s.push(c)) == esc_str(s) + esc_char(c),
    decreases s.len(),
{
    if s.len() == 0 {
        assert(s.push(c)[0] == c);
        assert(s.push(c).skip(1) =~= Seq::<char>::empty());
        assert(esc_str(Seq::<char>::empty()) == Seq::<char>::empty());
        assert(esc_str(s.push(c)) == esc_char(c) + esc_str(s.push(c).skip(1)));
        assert(esc_char(c) + Seq::<char>::empty() =~= esc_char(c));
        assert(Seq::<char>::empty() + esc_char(c) =~= esc_char(c));
        assert(esc_str(s) == Seq::<char>::empty());
    } else {
        lemma_esc_push(s.skip(1), c);
        assert(s.push(c).len() > 0);
        assert(s.push(c)[0] == s[0]);
        assert(s.push(c).skip(1) =~= s.skip(1).push(c));
        assert(esc_str(s.push(c)) == esc_char(s[0]) + esc_str(s.skip(1).push(c)));
        assert(esc_str(s.skip(1).push(c)) == esc_str(s.skip(1)) + esc_char(c));
        assert(esc_char(s[0]) + (esc_str(s.skip(1)) + esc_char(c)) =~= (esc_char(s[0]) + esc_str(
            s.skip(1),
        )) + esc_char(c));
        assert(esc_str(s) == esc_char(s[0]) + esc_str(s.skip(1)));
    }
}

/// Reading back an escaped string finds exactly the original content and
/// stops exactly at the closing quote: unescaping inverts escaping, for
/// every string and whatever follows the literal.
pub proof fn lemma_unesc_esc(s: Seq<char>, rest: Seq<char>)
    ensures
        unesc_prefix(esc_str(s) + seq!['"'] + rest) == Some((s, rest)),
    decreases s.len(),
{
    let input = esc_str(s) + seq!['"'] + rest;
    if s.len() == 0 {
        assert(input =~= seq!['"'] + rest);
        assert(input[0] == '"');
        assert(input.skip(1) =~= rest);
        assert(s =~= Seq::<char>::empty());
    } else {
        let c = s[0];
        let s1 = s.skip(1);
        lemma_unesc_esc(s1, rest);
        let tail = esc_str(s1) + seq!['"'] + rest;
        assert(esc_str(s) == esc_char(c) + esc_str(s1));
        assert(input =~= esc_char(c) + tail);
        assert(seq![c] + s1 =~= s);
        if c == '"' || c == '\\' || c == '\n' || c == '\r' || c == '\t' {
            assert(esc_char(c).len() == 2 && esc_char(c)[0] == '\\');
            assert(input[0] == '\\');
            assert(input[1] == esc_char(c)[1]);
            assert(unesc_code(esc_char(c)[1]) == Some(c));
            assert(input.skip(2) =~= tail);
        } else {
            assert(esc_char(c) =~= seq![c]);
            assert(input[0] == c);
            assert(input.skip(1) =~= tail);
        }
    }
}

// ---------- decimal integers ----------

/// Whether `c` is a decimal digit.
pub open spec fn is_digit(c: char) -> bool {
    '0' <= c && c <= '9'
}

/// The digit character for a value below ten.
pub open spec fn digit_char(d: int) -> char {
    if d == 0 {
        '0'
    } else if d == 1 {
        '1'
    } else if d == 2 {
        '2'
    } else if d == 3 {
        '3'
    } else if d == 4 {
        '4'
    } else if d == 5 {
        '5'
    } else if d == 6 {
        '6'
    } else if d == 7 {
        '7'
    } else if d == 8 {
        '8'
    } else {
        '9'
    }
}

/// The value of a digit character.
pub open spec fn digit_val(c: char) -> int {
    (c as int) - ('0' as int)
}

/// The decimal rendering of `n`, most significant digit first, no leading
/// zeros (a lone `0` for zero).
pub open spec fn dec_digits(n: nat) -> Seq<char>
    decreases n,
{
    if n < 10 {
        seq![digit_char(n as int)]
    } else {
        dec_digits(n / 10) + seq![digit_char((n % 10) as int)]
    }
}

/// The value of a digit string, read most significant digit first.
pub open spec fn dec_val(s: Seq<char>) -> int
    decreases s.len(),
{
    if s.len() == 0 {
        0
    } else {
        dec_val(s.drop_last()) * 10 + digit_val(s.last())
    }
}

/// Whether every character of `s` is a decimal digit.
pub open spec fn all_digits(s: Seq<char>) -> bool {
    forall|i: int| 0 <= i < s.len() ==> is_digit(s[i])
}

/// Ten to the `k`.
pub open spec fn pow10(k: nat) -> nat
    decreases k,
{
    if k == 0 {
        1
    } else {
        10 * pow10((k - 1) as nat)
    }
}

/// The values of `pow10` needed for the `u64` bounds.
pub proof fn lemma_pow10_values()
    ensures
        pow10(20) == 100_000_000_000_000_000_000,
        pow10(21) == 1_000_000_000_000_000_000_000,
{
    assert(pow10(0) == 1);
    assert(pow10(1) == 10);
    assert(pow10(2) == 100);
    assert(pow10(3) == 1000);
    assert(pow10(4) == 10000);
    assert(pow10(5) == 100000);
    assert(pow10(6) == 1000000);
    assert(pow10(7) == 10000000);
    assert(pow10(8) == 100000000);
    assert(pow10(9) == 1000000000);
    assert(pow10(10) == 10000000000);
    assert(pow10(11) == 100000000000);
    assert(pow10(12) == 1000000000000);
    assert(pow10(13) == 10000000000000);
    assert(pow10(14) == 100000000000000);
    assert(pow10(15) == 1000000000000000);
    assert(pow10(16) == 10000000000000000);
    assert(pow10(17) == 100000000000000000);
    assert(pow10(18) == 1000000000000000000);
    assert(pow10(19) == 10000000000000000000);
    assert(pow10(20) == 100000000000000000000);
    assert(pow10(21) == 1000000000000000000000);
}

/// `pow10` grows with its exponent.
pub proof fn lemma_pow10_mono(a: nat, b: nat)
    requires
        a <= b,
    ensures
        pow10(a) <= pow10(b),
    decreases b,
{
    if a < b {
        lemma_pow10_mono(a, (b - 1) as nat);
        assert(pow10(b) == 10 * pow10((b - 1) as nat));
    }
}

/// The rendering of `n` is non-empty, holds digits only, reads back as
/// `n`, and has no more digits than any power of ten above `n` allows.
pub proof fn lemma_dec_digits(n: nat)
    ensures
        dec_digits(n).len() >= 1,
        all_digits(dec_digits(n)),
        dec_val(dec_digits(n)) == n,
    decreases n,
{
    if n < 10 {
        let s = dec_digits(n);
        assert(s =~= seq![digit_char(n as int)]);
        assert(s.len() == 1);
        assert(s.drop_last() =~= Seq::<char>::empty());
        assert(s.last() == digit_char(n as int));
        assert(digit_val(digit_char(n as int)) == n);
        assert(dec_val(s) == dec_val(s.drop_last()) * 10 + digit_val(s.last()));
        assert(dec_val(s.drop_last()) == 0);
        assert(is_digit(digit_char(n as int)));
    } else {
        lemma_dec_digits(n / 10);
        let a = dec_digits(n / 10);
        let x = digit_char((n % 10) as int);
        let s = dec_digits(n);
        assert(s =~= a + seq![x]);
        assert(s.drop_last() =~= a);
        assert(s.last() == x);
        assert(digit_val(x) == n % 10);
        assert(dec_val(s) == dec_val(a) * 10 + n % 10);
        assert(n / 10 * 10 + n % 10 == n) by {
            vstd::arithmetic::div_mod::lemma_fundamental_div_mod(n as int, 10);
        }
        assert forall|i: int| 0 <= i < s.len() implies is_digit(s[i]) by {
            if i < a.len() {
                assert(s[i] == a[i]);
            } else {
                assert(s[i] == x);
                assert(is_digit(x));
            }
        }
    }
}

/// A number below `pow10(k)` renders in at most `k` digits.
pub proof fn lemma_dec_digits_len(n: nat, k: nat)
    requires
        1 <= k,
        n < pow10(k),
    ensures
        dec_digits(n).len() <= k,
    decreases n,
{
    if n < 10 {
    } else {
        assert(pow10(k) == 10 * pow10((k - 1) as nat));
        assert(n / 10 < pow10((k - 1) as nat)) by {
            vstd::arithmetic::div_mod::lemma_fundamental_div_mod(n as int, 10);
        }
        assert(k >= 2) by {
            if k == 1 {
                assert(pow10(1) == 10);
            }
        }
        lemma_dec_digits_len(n / 10, (k - 1) as nat);
    }
}

/// The value of a digit string is below ten to its length.
pub proof fn lemma_dec_val_bound(s: Seq<char>)
    requires
        all_digits(s),
    ensures
        0 <= dec_val(s) < pow10(s.len()),
    decreases s.len(),
{
    if s.len() == 0 {
    } else {
        assert(all_digits(s.drop_last())) by {
            assert(forall|i: int| 0 <= i < s.len() - 1 ==> s.drop_last()[i] == s[i]);
        }
        lemma_dec_val_bound(s.drop_last());
        assert(is_digit(s.last()));
        assert(0 <= digit_val(s.last()) <= 9);
        assert(pow10(s.len()) == 10 * pow10((s.len() - 1) as nat));
    }
}

// ---------- scanning ----------

/// The length of the leading run of digits in `s`.
pub open spec fn digit_prefix_len(s: Seq<char>) -> nat
    decreases s.len(),
{
    if s.len() == 0 || !is_digit(s[0]) {
        0
    } else {
        1 + digit_prefix_len(s.skip(1))
    }
}

/// `digit_prefix_len` marks the longest leading run of digits.
pub proof fn lemma_digit_prefix(s: Seq<char>)
    ensures
        digit_prefix_len(s) <= s.len(),
        forall|j: int| 0 <= j < digit_prefix_len(s) ==> is_digit(s[j]),
        digit_prefix_len(s) < s.len() ==> !is_digit(s[digit_prefix_len(s) as int]),
    decreases s.len(),
{
    if s.len() == 0 || !is_digit(s[0]) {
    } else {
        lemma_digit_prefix(s.skip(1));
        let k = digit_prefix_len(s);
        assert forall|j: int| 0 <= j < k implies is_digit(s[j]) by {
            if j > 0 {
                assert(s.skip(1)[j - 1] == s[j]);
            }
        }
        if k < s.len() {
            assert(s.skip(1)[k - 1] == s[k as int]);
        }
    }
}

/// A run of digits followed by a non-digit has exactly that run as its
/// digit prefix.
pub proof fn lemma_digit_prefix_concat(a: Seq<char>, rest: Seq<char>)
    requires
        all_digits(a),
        rest.len() > 0 && !is_digit(rest[0]),
    ensures
        digit_prefix_len(a + rest) == a.len(),
    decreases a.len(),
{
    let s = a + rest;
    if a.len() == 0 {
        assert(s =~= rest);
    } else {
        assert(s[0] == a[0]);
        assert(all_digits(a.skip(1))) by {
            assert(forall|i: int| 0 <= i < a.len() - 1 ==> a.skip(1)[i] == a[i + 1]);
        }
        lemma_digit_prefix_concat(a.skip(1), rest);
        assert(s.skip(1) =~= a.skip(1) + rest);
    }
}

/// Read a leading decimal number: its value and what follows the digits.
/// `None` when there is no digit, when the run is longer than any `u64`
/// (more than twenty digits), or when the value is above `u64::MAX`.
pub open spec fn read_u64(s: Seq<char>) -> Option<(u64, Seq<char>)> {
    let k = digit_prefix_len(s);
    if k == 0 || k > 20 {
        None
    } else if dec_val(s.take(k as int)) > u64::MAX {
        None
    } else {
        Some((dec_val(s.take(k as int)) as u64, s.skip(k as int)))
    }
}

/// Reading back a rendered number finds exactly that number and stops at
/// the first non-digit: decimal reading inverts decimal rendering.
pub proof fn lemma_read_dec_digits(n: u64, rest: Seq<char>)
    requires
        rest.len() > 0 && !is_digit(rest[0]),
    ensures
        read_u64(dec_digits(n as nat) + rest) == Some((n, rest)),
{
    let a = dec_digits(n as nat);
    let s = a + rest;
    lemma_dec_digits(n as nat);
    lemma_digit_prefix_concat(a, rest);
    assert(digit_prefix_len(s) == a.len());
    lemma_pow10_values();
    assert((n as nat) < pow10(20));
    lemma_dec_digits_len(n as nat, 20);
    assert(s.take(a.len() as int) =~= a);
    assert(s.skip(a.len() as int) =~= rest);
}

// ---------- literal matching ----------

/// What follows `l` in `s` when `s` starts with `l`; `None` otherwise.
pub open spec fn strip_lit(s: Seq<char>, l: Seq<char>) -> Option<Seq<char>> {
    if l.len() <= s.len() && s.take(l.len() as int) == l {
        Some(s.skip(l.len() as int))
    } else {
        None
    }
}

/// Stripping a literal off itself-plus-anything yields that anything.
pub proof fn lemma_strip_concat(l: Seq<char>, x: Seq<char>)
    ensures
        strip_lit(l + x, l) == Some(x),
{
    let s = l + x;
    assert(s.take(l.len() as int) =~= l);
    assert(s.skip(l.len() as int) =~= x);
}

// ---------- executable writers ----------

/// Append the characters of `lit` to `out`.
pub fn push_lit(out: &mut Vec<char>, lit: &str)
    ensures
        final(out)@ == old(out)@ + lit@,
{
    let n = lit.unicode_len();
    let mut i: usize = 0;
    while i < n
        invariant
            i <= n,
            n == lit@.len(),
            out@ == old(out)@ + lit@.take(i as int),
        decreases n - i,
    {
        out.push(lit.get_char(i));
        proof {
            assert(out@ =~= old(out)@ + lit@.take(i + 1 as int));
        }
        i = i + 1;
    }
    proof {
        assert(lit@.take(n as int) =~= lit@);
    }
}

/// Append the escaped form of `s` to `out`.
pub fn push_esc(out: &mut Vec<char>, s: &str)
    ensures
        final(out)@ == old(out)@ + esc_str(s@),
{
    let n = s.unicode_len();
    let mut i: usize = 0;
    proof {
        assert(esc_str(s@.take(0)) == Seq::<char>::empty());
        assert(out@ =~= old(out)@ + esc_str(s@.take(0)));
    }
    while i < n
        invariant
            i <= n,
            n == s@.len(),
            out@ == old(out)@ + esc_str(s@.take(i as int)),
        decreases n - i,
    {
        let c = s.get_char(i);
        let ghost pre = s@.take(i as int);
        proof {
            lemma_esc_push(pre, c);
            assert(s@.take(i + 1 as int) =~= pre.push(c));
        }
        if c == '"' {
            out.push('\\');
            out.push('"');
        } else if c == '\\' {
            out.push('\\');
            out.push('\\');
        } else if c == '\n' {
            out.push('\\');
            out.push('n');
        } else if c == '\r' {
            out.push('\\');
            out.push('r');
        } else if c == '\t' {
            out.push('\\');
            out.push('t');
        } else {
            out.push(c);
        }
        proof {
            assert(out@ =~= old(out)@ + (esc_str(pre) + esc_char(c)));
        }
        i = i + 1;
    }
    proof {
        assert(s@.take(n as int) =~= s@);
    }
}

/// The digit character for `d`.
fn digit_char_of(d: u64) -> (c: char)
    requires
        d < 10,
    ensures
        c == digit_char(d as int),
{
    if d == 0 {
        '0'
    } else if d == 1 {
        '1'
    } else if d == 2 {
        '2'
    } else if d == 3 {
        '3'
    } else if d == 4 {
        '4'
    } else if d == 5 {
        '5'
    } else if d == 6 {
        '6'
    } else if d == 7 {
        '7'
    } else if d == 8 {
        '8'
    } else {
        '9'
    }
}

/// Append the decimal rendering of `n` to `out`.
pub fn push_dec(out: &mut Vec<char>, n: u64)
    ensures
        final(out)@ == old(out)@ + dec_digits(n as nat),
    decreases n,
{
    if n < 10 {
        out.push(digit_char_of(n));
        proof {
            assert(out@ =~= old(out)@ + dec_digits(n as nat));
        }
    } else {
        push_dec(out, n / 10);
        out.push(digit_char_of(n % 10));
        proof {
            assert(dec_digits(n as nat) == dec_digits((n as nat) / 10) + seq![
                digit_char(((n as nat) % 10) as int),
            ]);
            assert((n as nat) / 10 == (n / 10) as nat);
            assert(((n as nat) % 10) as int == (n % 10) as int);
            assert(out@ =~= old(out)@ + dec_digits(n as nat));
        }
    }
}

// ---------- executable readers ----------

/// Whether `c` is a decimal digit.
fn is_digit_char(c: char) -> (r: bool)
    ensures
        r == is_digit(c),
{
    '0' <= c && c <= '9'
}

/// `v` with `c` put in front.
fn cons_front(c: char, v: Vec<char>) -> (r: Vec<char>)
    ensures
        r@ == seq![c] + v@,
{
    let mut v = v;
    let ghost v0 = v@;
    v.insert(0, c);
    proof {
        assert(v@ =~= seq![c] + v0);
    }
    v
}

/// Read a string literal's body from `pos` up to and through its closing
/// quote: the unescaped content and the index after the quote.
pub fn unesc_from(v: &Vec<char>, pos: usize) -> (r: Option<(Vec<char>, usize)>)
    requires
        pos <= v@.len(),
    ensures
        r is Some <==> unesc_prefix(v@.skip(pos as int)) is Some,
        r is Some ==> {
            let p = unesc_prefix(v@.skip(pos as int)).unwrap();
            r.unwrap().0@ == p.0 && pos <= r.unwrap().1 <= v@.len() && v@.skip(
                r.unwrap().1 as int,
            ) == p.1
        },
    decreases v@.len() - pos,
{
    let ghost s = v@.skip(pos as int);
    if pos == v.len() {
        proof {
            assert(s.len() == 0);
        }
        None
    } else if v[pos] == '"' {
        proof {
            assert(s[0] == v@[pos as int]);
            assert(s.skip(1) =~= v@.skip(pos + 1 as int));
        }
        Some((Vec::new(), pos + 1))
    } else if v[pos] == '\\' {
        proof {
            assert(s[0] == v@[pos as int]);
        }
        if v.len() - pos < 2 {
            None
        } else {
            proof {
                assert(s[1] == v@[pos + 1]);
            }
            let code = v[pos + 1];
            let decoded = if code == '"' {
                Some('"')
            } else if code == '\\' {
                Some('\\')
            } else if code == 'n' {
                Some('\n')
            } else if code == 'r' {
                Some('\r')
            } else if code == 't' {
                Some('\t')
            } else {
                None
            };
            proof {
                assert(decoded == unesc_code(s[1]));
            }
            match decoded {
                None => None,
                Some(c) => {
                    match unesc_from(v, pos + 2) {
                        None => {
                            proof {
                                assert(s.skip(2) =~= v@.skip(pos + 2 as int));
                            }
                            None
                        },
                        Some((content, next)) => {
                            proof {
                                assert(s.skip(2) =~= v@.skip(pos + 2 as int));
                            }
                            Some((cons_front(c, content), next))
                        },
                    }
                },
            }
        }
    } else {
        proof {
            assert(s[0] == v@[pos as int]);
        }
        let c = v[pos];
        match unesc_from(v, pos + 1) {
            None => {
                proof {
                    assert(s.skip(1) =~= v@.skip(pos + 1 as int));
                }
                None
            },
            Some((content, next)) => {
                proof {
                    assert(s.skip(1) =~= v@.skip(pos + 1 as int));
                }
                Some((cons_front(c, content), next))
            },
        }
    }
}

/// Match `lit` at `pos`; the index after it, or `None` on a mismatch.
pub fn match_lit(v: &Vec<char>, pos: usize, lit: &str) -> (r: Option<usize>)
    requires
        pos <= v@.len(),
    ensures
        r is Some <==> strip_lit(v@.skip(pos as int), lit@) is Some,
        r is Some ==> r.unwrap() == pos + lit@.len() && r.unwrap() <= v@.len() && v@.skip(
            r.unwrap() as int,
        ) == strip_lit(v@.skip(pos as int), lit@).unwrap(),
{
    let ghost s = v@.skip(pos as int);
    let n = lit.unicode_len();
    if v.len() - pos < n {
        proof {
            assert(s.len() < lit@.len());
        }
        return None;
    }
    let vlen = v.len();
    let mut i: usize = 0;
    while i < n
        invariant
            i <= n,
            n == lit@.len(),
            pos + n <= vlen,
            vlen == v@.len(),
            s == v@.skip(pos as int),
            forall|j: int| 0 <= j < i ==> v@[pos + j] == lit@[j],
        decreases n - i,
    {
        if v[pos + i] != lit.get_char(i) {
            proof {
                assert(s[i as int] == v@[pos + i]);
                assert(s.take(n as int)[i as int] == s[i as int]);
                assert(s.take(n as int) != lit@);
            }
            return None;
        }
        i = i + 1;
    }
    proof {
        assert forall|j: int| 0 <= j < n implies s.take(n as int)[j] == lit@[j] by {
            assert(s[j] == v@[pos + j]);
        }
        assert(s.take(n as int) =~= lit@);
        assert(s.skip(n as int) =~= v@.skip(pos + n as int));
    }
    Some(pos + n)
}

/// Read a decimal number at `pos`: its value and the index after its
/// digits.
pub fn read_u64_from(v: &Vec<char>, pos: usize) -> (r: Option<(u64, usize)>)
    requires
        pos <= v@.len(),
    ensures
        r is Some <==> read_u64(v@.skip(pos as int)) is Some,
        r is Some ==> {
            let p = read_u64(v@.skip(pos as int)).unwrap();
            r.unwrap().0 == p.0 && pos <= r.unwrap().1 <= v@.len() && v@.skip(r.unwrap().1 as int)
                == p.1
        },
{
    let ghost s = v@.skip(pos as int);
    let mut end = pos;
    while end < v.len() && is_digit_char(v[end])
        invariant
            pos <= end <= v@.len(),
            s == v@.skip(pos as int),
            forall|j: int| pos <= j < end ==> is_digit(v@[j]),
        decreases v@.len() - end,
    {
        end = end + 1;
    }
    proof {
        lemma_digit_prefix(s);
        let k = digit_prefix_len(s);
        let m = end - pos;
        assert forall|j: int| 0 <= j < m implies is_digit(s[j]) by {
            assert(s[j] == v@[pos + j]);
        }
        if end < v@.len() {
            assert(s[m as int] == v@[end as int]);
        }
        if k < m {
            assert(is_digit(s[k as int]));
        }
        if k > m {
            assert(is_digit(s[m as int]));
            assert(m < s.len());
        }
        assert(k == m);
    }
    let k = end - pos;
    if k == 0 || k > 20 {
        return None;
    }
    let mut acc: u128 = 0;
    let mut i = pos;
    proof {
        assert(s.take(0) =~= Seq::<char>::empty());
        assert(dec_val(s.take(0)) == 0);
        assert(pow10(0) == 1);
    }
    while i < end
        invariant
            pos <= i <= end,
            end <= v@.len(),
            end - pos == k,
            1 <= k <= 20,
            s == v@.skip(pos as int),
            forall|j: int| pos <= j < end ==> is_digit(v@[j]),
            acc == dec_val(s.take((i - pos) as int)),
            acc < pow10((i - pos) as nat),
        decreases end - i,
    {
        let c = v[i];
        proof {
            assert(is_digit(v@[i as int]));
            assert(s[i - pos] == v@[i as int]);
        }
        let d = (c as u32) - ('0' as u32);
        proof {
            let m = (i - pos) as int;
            assert(s.take(m + 1).drop_last() =~= s.take(m));
            assert(s.take(m + 1).last() == s[m]);
            assert(dec_val(s.take(m + 1)) == dec_val(s.take(m)) * 10 + digit_val(s[m]));
            lemma_pow10_values();
            lemma_pow10_mono(((i - pos) + 1) as nat, 20);
            assert(pow10(((i - pos) + 1) as nat) == 10 * pow10((i - pos) as nat));
        }
        acc = acc * 10 + (d as u128);
        i = i + 1;
    }
    proof {
        assert(s.take(k as int) == s.take((end - pos) as int));
    }
    if acc > 0xFFFF_FFFF_FFFF_FFFFu128 {
        proof {
            assert(dec_val(s.take(k as int)) > u64::MAX);
        }
        None
    } else {
        proof {
            assert(dec_val(s.take(k as int)) <= u64::MAX);
            assert(s.skip((end - pos) as int) =~= v@.skip(end as int));
        }
        Some((acc as u64, end))
    }
}

} // verus!
