//! Small verified string utilities: equality of string slices, decimal
//! rendering of counters and offsets, and whitespace tokenization.

use vstd::prelude::*;

verus! {

/// The character sequences of a vector of strings, in order.
pub open spec fn views_of(v: Seq<String>) -> Seq<Seq<char>> {
    v.map_values(|s: String| s@)
}

/// The decimal digit character for a value below ten.
pub open spec fn digit_char(d: int) -> char
    recommends
        0 <= d < 10,
{
    if d == 0 {
        '0'
    } else if d == 1 {
        '1'
    } else if d == 2 {
        '2'
    } else if d == 3 {
        '3'
    } else if d == 4 {
        '4'
    } else if d == 5 {
        '5'
    } else if d == 6 {
        '6'
    } else if d == 7 {
        '7'
    } else if d == 8 {
        '8'
    } else {
        '9'
    }
}

/// The decimal digits of a non-negative integer, most significant first;
/// empty for zero.
pub open spec fn dec_digits(n: int) -> Seq<char>
    recommends
        n >= 0,
    decreases n,
{
    if n <= 0 {
        seq![]
    } else {
        dec_digits(n / 10).push(digit_char(n % 10))
    }
}

/// The decimal string of a non-negative integer; zero is rendered as "0".
pub open spec fn dec_str(n: int) -> Seq<char> {
    if n == 0 {
        seq!['0']
    } else {
        dec_digits(n)
    }
}

fn push_digit(out: &mut String, d: u64)
    requires
        d < 10,
    ensures
        final(out)@ == old(out)@.push(digit_char(d as int)),
{
    let ghost prior = out@;
    if d == 0 {
        out.append("0");
        proof { reveal_strlit("0"); }
    } else if d == 1 {
        out.append("1");
        proof { reveal_strlit("1"); }
    } else if d == 2 {
        out.append("2");
        proof { reveal_strlit("2"); }
    } else if d == 3 {
        out.append("3");
        proof { reveal_strlit("3"); }
    } else if d == 4 {
        out.append("4");
        proof { reveal_strlit("4"); }
    } else if d == 5 {
        out.append("5");
        proof { reveal_strlit("5"); }
    } else if d == 6 {
        out.append("6");
        proof { reveal_strlit("6"); }
    } else if d == 7 {
        out.append("7");
        proof { reveal_strlit("7"); }
    } else if d == 8 {
        out.append("8");
        proof { reveal_strlit("8"); }
    } else {
        out.append("9");
        proof { reveal_strlit("9"); }
    }
    proof {
        assert(out@ =~= prior.push(digit_char(d as int)));
    }
}

fn append_digits(out: &mut String, n: u64)
    ensures
        final(out)@ == old(out)@ + dec_digits(n as int),
    decreases n,
{
    if n == 0 {
        proof {
            assert(out@ =~= old(out)@ + dec_digits(0));
        }
        return ;
    }
    append_digits(out, n / 10);
    push_digit(out, n % 10);
    proof {
        assert(out@ =~= old(out)@ + dec_digits(n as int));
    }
}

/// Appends the decimal rendering of `n` to `out`.
pub fn append_u64(out: &mut String, n: u64)
    ensures
        final(out)@ == old(out)@ + dec_str(n as int),
{
    if n == 0 {
        let ghost prior = out@;
        out.append("0");
        proof {
            reveal_strlit("0");
            assert(out@ =~= prior + dec_str(0));
        }
    } else {
        append_digits(out, n);
    }
}

/// The decimal string of `n` on its own.
pub fn u64_to_string(n: u64) -> (r: String)
    ensures
        r@ == dec_str(n as int),
{
    let mut out = String::new();
    append_u64(&mut out, n);
    proof {
        assert(out@ =~= dec_str(n as int));
    }
    out
}

/// ASCII whitespace, the separators that tokenization skips.
pub open spec fn is_space(c: char) -> bool {
    c == ' ' || c == '\t' || c == '\n' || c == '\r'
}

/// The maximal non-space prefix of `s`.
pub open spec fn leading_word(s: Seq<char>) -> Seq<char>
    decreases s.len(),
{
    if s.len() == 0 || is_space(s[0]) {
        seq![]
    } else {
        seq![s[0]] + leading_word(s.skip(1))
    }
}

/// The characters of `s`, split at ASCII whitespace into maximal non-empty
/// tokens, in order.
pub open spec fn tokens_of(s: Seq<char>) -> Seq<Seq<char>>
    decreases s.len(),
    via tokens_of_decreases
{
    if s.len() == 0 {
        seq![]
    } else if is_space(s[0]) {
        tokens_of(s.skip(1))
    } else {
        let word = leading_word(s);
        seq![word] + tokens_of(s.skip(word.len() as int))
    }
}

#[via_fn]
proof fn tokens_of_decreases(s: Seq<char>) {
    if s.len() > 0 && !is_space(s[0]) {
        lemma_leading_word_len(s);
        assert(leading_word(s).len() >= 1);
    }
}

/// The ASCII-lowercase counterpart of a character; anything but an ASCII
/// capital letter is left alone.
pub open spec fn char_lower(c: char) -> char {
    if c == 'A' {
        'a'
    } else if c == 'B' {
        'b'
    } else if c == 'C' {
        'c'
    } else if c == 'D' {
        'd'
    } else if c == 'E' {
        'e'
    } else if c == 'F' {
        'f'
    } else if c == 'G' {
        'g'
    } else if c == 'H' {
        'h'
    } else if c == 'I' {
        'i'
    } else if c == 'J' {
        'j'
    } else if c == 'K' {
        'k'
    } else if c == 'L' {
        'l'
    } else if c == 'M' {
        'm'
    } else if c == 'N' {
        'n'
    } else if c == 'O' {
        'o'
    } else if c == 'P' {
        'p'
    } else if c == 'Q' {
        'q'
    } else if c == 'R' {
        'r'
    } else if c == 'S' {
        's'
    } else if c == 'T' {
        't'
    } else if c == 'U' {
        'u'
    } else if c == 'V' {
        'v'
    } else if c == 'W' {
        'w'
    } else if c == 'X' {
        'x'
    } else if c == 'Y' {
        'y'
    } else if c == 'Z' {
        'z'
    } else {
        c
    }
}

/// A string with every ASCII capital letter lowered.
pub open spec fn to_lower(s: Seq<char>) -> Seq<char> {
    s.map_values(|c: char| char_lower(c))
}

fn exec_char_lower(c: char) -> (r: char)
    ensures
        r == char_lower(c),
{
    if c == 'A' {
        'a'
    } else if c == 'B' {
        'b'
    } else if c == 'C' {
        'c'
    } else if c == 'D' {
        'd'
    } else if c == 'E' {
        'e'
    } else if c == 'F' {
        'f'
    } else if c == 'G' {
        'g'
    } else if c == 'H' {
        'h'
    } else if c == 'I' {
        'i'
    } else if c == 'J' {
        'j'
    } else if c == 'K' {
        'k'
    } else if c == 'L' {
        'l'
    } else if c == 'M' {
        'm'
    } else if c == 'N' {
        'n'
    } else if c == 'O' {
        'o'
    } else if c == 'P' {
        'p'
    } else if c == 'Q' {
        'q'
    } else if c == 'R' {
        'r'
    } else if c == 'S' {
        's'
    } else if c == 'T' {
        't'
    } else if c == 'U' {
        'u'
    } else if c == 'V' {
        'v'
    } else if c == 'W' {
        'w'
    } else if c == 'X' {
        'x'
    } else if c == 'Y' {
        'y'
    } else if c == 'Z' {
        'z'
    } else {
        c
    }
}

/// Compares two strings up to ASCII case.
pub fn eq_ignore_ascii(a: &str, b: &str) -> (r: bool)
    ensures
        r == (to_lower(a@) == to_lower(b@)),
{
    let an = a.unicode_len();
    let bn = b.unicode_len();
    if an != bn {
        proof {
            assert(to_lower(a@).len() != to_lower(b@).len());
        }
        return false;
    }
    let mut i: usize = 0;
    while i < an
        invariant
            i <= an,
            an == a@.len(),
            an == b@.len(),
            forall|j: int| 0 <= j < i ==> char_lower(a@[j]) == char_lower(b@[j]),
        decreases an - i,
    {
        let ca = exec_char_lower(a.get_char(i));
        let cb = exec_char_lower(b.get_char(i));
        if ca != cb {
            proof {
                assert(to_lower(a@)[i as int] != to_lower(b@)[i as int]);
            }
            return false;
        }
        i += 1;
    }
    proof {
        assert(to_lower(a@) =~= to_lower(b@));
    }
    true
}

/// A string with its leading and trailing ASCII whitespace removed.
pub open spec fn trim_of(s: Seq<char>) -> Seq<char>
    decreases s.len(),
{
    if s.len() == 0 {
        s
    } else if is_space(s[0]) {
        trim_of(s.skip(1))
    } else if is_space(s.last()) {
        trim_of(s.drop_last())
    } else {
        s
    }
}

proof fn lemma_trim_is_subrange(s: Seq<char>, a: int, b: int)
    requires
        0 <= a <= b <= s.len(),
        forall|j: int| 0 <= j < a ==> is_space(s[j]),
        forall|j: int| b <= j < s.len() ==> is_space(s[j]),
        a == b || (!is_space(s[a]) && !is_space(s[b - 1])),
    ensures
        trim_of(s) =~= s.subrange(a, b),
    decreases s.len(),
{
    if s.len() == 0 {
    } else if is_space(s[0]) {
        if a == 0 {
            assert(a == b) by {
                if a < b {
                    assert(!is_space(s[a]));
                }
            }
            lemma_trim_is_subrange(s.skip(1), 0, 0);
            assert(s.skip(1).subrange(0, 0) =~= s.subrange(a, b));
        } else {
            lemma_trim_is_subrange(s.skip(1), a - 1, b - 1);
            assert(s.skip(1).subrange(a - 1, b - 1) =~= s.subrange(a, b));
        }
    } else if is_space(s.last()) {
        assert(b <= s.len() - 1) by {
            if b == s.len() {
                if a == b {
                    assert(is_space(s[0]));
                } else {
                    assert(!is_space(s[b - 1]));
                }
            }
        }
        lemma_trim_is_subrange(s.drop_last(), a, b);
        assert(s.drop_last().subrange(a, b) =~= s.subrange(a, b));
    }
}

/// Removes leading and trailing ASCII whitespace.
pub fn trim_spaces(s: &str) -> (r: String)
    ensures
        r@ == trim_of(s@),
{
    let n = s.unicode_len();
    let mut a: usize = 0;
    while a < n && exec_is_space(s.get_char(a))
        invariant
            a <= n,
            n == s@.len(),
            forall|j: int| 0 <= j < a ==> is_space(s@[j]),
        decreases n - a,
    {
        a += 1;
    }
    if a == n {
        proof {
            lemma_trim_is_subrange(s@, n as int, n as int);
        }
        let r = String::new();
        proof {
            assert(r@ =~= s@.subrange(n as int, n as int));
        }
        return r;
    }
    let mut b: usize = n;
    while b > a + 1 && exec_is_space(s.get_char(b - 1))
        invariant
            a < b <= n,
            n == s@.len(),
            forall|j: int| b <= j < n ==> is_space(s@[j]),
        decreases b,
    {
        b -= 1;
    }
    if exec_is_space(s.get_char(b - 1)) {
        proof {
            assert(b == a + 1);
            assert(false);
        }
    }
    let r = s.substring_char(a, b).to_owned();
    proof {
        lemma_trim_is_subrange(s@, a as int, b as int);
    }
    r
}

/// The characters of `s` with every ASCII whitespace character removed.
pub open spec fn strip_spaces_of(s: Seq<char>) -> Seq<char> {
    s.filter(|c: char| !is_space(c))
}

/// Collects the non-whitespace characters of a string, in order.
pub fn strip_spaces(s: &str) -> (r: Vec<char>)
    ensures
        r@ == strip_spaces_of(s@),
{
    let n = s.unicode_len();
    let mut out: Vec<char> = Vec::new();
    let mut i: usize = 0;
    proof {
        reveal_with_fuel(Seq::filter, 2);
        assert(s@.take(0) =~= Seq::<char>::empty());
        assert(out@ =~= s@.take(0).filter(|c: char| !is_space(c)));
    }
    while i < n
        invariant
            i <= n,
            n == s@.len(),
            out@ == s@.take(i as int).filter(|c: char| !is_space(c)),
        decreases n - i,
    {
        let c = s.get_char(i);
        let ghost prefix = s@.take(i as int);
        if !exec_is_space(c) {
            out.push(c);
        }
        i += 1;
        proof {
            reveal_with_fuel(Seq::filter, 2);
            let pred = |x: char| !is_space(x);
            assert(s@.take(i as int) =~= prefix + seq![c]);
            Seq::<char>::filter_distributes_over_add(prefix, seq![c], pred);
            assert(seq![c].drop_last() =~= Seq::<char>::empty());
            if is_space(c) {
                assert(seq![c].filter(pred) =~= Seq::<char>::empty());
            } else {
                assert(seq![c].filter(pred) =~= seq![c]);
            }
            assert(out@ =~= s@.take(i as int).filter(pred));
        }
    }
    proof {
        assert(s@.take(n as int) =~= s@);
    }
    out
}

/// Whether a character is a decimal digit.
pub open spec fn is_digit(c: char) -> bool {
    c == '0' || c == '1' || c == '2' || c == '3' || c == '4' || c == '5' || c == '6' || c == '7'
        || c == '8' || c == '9'
}

/// The value of a decimal digit character.
pub open spec fn digit_of(c: char) -> int
    recommends
        is_digit(c),
{
    if c == '0' {
        0
    } else if c == '1' {
        1
    } else if c == '2' {
        2
    } else if c == '3' {
        3
    } else if c == '4' {
        4
    } else if c == '5' {
        5
    } else if c == '6' {
        6
    } else if c == '7' {
        7
    } else if c == '8' {
        8
    } else {
        9
    }
}

/// Whether a string is one or more decimal digits and nothing else.
pub open spec fn all_digits(s: Seq<char>) -> bool {
    s.len() >= 1 && forall|j: int| 0 <= j < s.len() ==> is_digit(#[trigger] s[j])
}

/// The number a digit string denotes.
pub open spec fn digits_val(s: Seq<char>) -> int
    decreases s.len(),
{
    if s.len() == 0 {
        0
    } else {
        digits_val(s.drop_last()) * 10 + digit_of(s.last())
    }
}

fn exec_digit(c: char) -> (r: Option<u64>)
    ensures
        r is Some <==> is_digit(c),
        r matches Some(d) ==> d == digit_of(c) && d < 10,
{
    if c == '0' {
        Some(0)
    } else if c == '1' {
        Some(1)
    } else if c == '2' {
        Some(2)
    } else if c == '3' {
        Some(3)
    } else if c == '4' {
        Some(4)
    } else if c == '5' {
        Some(5)
    } else if c == '6' {
        Some(6)
    } else if c == '7' {
        Some(7)
    } else if c == '8' {
        Some(8)
    } else if c == '9' {
        Some(9)
    } else {
        None
    }
}

/// Reads a non-negative number from a string of decimal digits. Nothing
/// but an all-digit string is accepted, and a value beyond the `u64` range
/// is rejected rather than wrapped.
pub fn parse_digits(s: &str) -> (r: Option<u64>)
    ensures
        r is Some <==> all_digits(s@) && digits_val(s@) <= u64::MAX,
        r matches Some(v) ==> v == digits_val(s@),
{
    let n = s.unicode_len();
    if n == 0 {
        return None;
    }
    let mut acc: u64 = 0;
    let mut i: usize = 0;
    proof {
        assert(s@.take(0) =~= Seq::<char>::empty());
    }
    while i < n
        invariant
            i <= n,
            n == s@.len(),
            forall|j: int| 0 <= j < i ==> is_digit(#[trigger] s@[j]),
            acc == digits_val(s@.take(i as int)),
        decreases n - i,
    {
        let c = s.get_char(i);
        let d = match exec_digit(c) {
            Some(d) => d,
            None => {
                return None;
            },
        };
        if acc > (u64::MAX - d) / 10 {
            proof {
                lemma_digits_val_monotone(s@, i + 1);
                assert(digits_val(s@.take(i + 1)) == acc * 10 + d);
                assert(acc * 10 + d > u64::MAX) by (nonlinear_arith)
                    requires
                        acc > ((u64::MAX - d) / 10) as int,
                        0 <= d < 10,
                        acc >= 0,
                ;
                if all_digits(s@) {
                    lemma_digits_val_prefix(s@, i + 1, s@.len() as int);
                    assert(s@.take(s@.len() as int) =~= s@);
                }
            }
            return None;
        }
        proof {
            assert(acc * 10 + d <= u64::MAX) by (nonlinear_arith)
                requires
                    acc <= ((u64::MAX - d) / 10) as int,
                    0 <= d < 10,
                    acc >= 0,
            ;
        }
        let ghost prefix = s@.take(i as int);
        acc = acc * 10 + d;
        i += 1;
        proof {
            assert(s@.take(i as int) =~= prefix.push(c));
            assert(s@.take(i as int).drop_last() =~= prefix);
        }
    }
    proof {
        assert(s@.take(n as int) =~= s@);
    }
    Some(acc)
}

/// A longer digit prefix never denotes a smaller number.
proof fn lemma_digits_val_monotone(s: Seq<char>, k: int)
    requires
        1 <= k <= s.len(),
        forall|j: int| 0 <= j < k ==> is_digit(#[trigger] s[j]),
    ensures
        digits_val(s.take(k)) >= digits_val(s.take(k - 1)),
        digits_val(s.take(k)) == digits_val(s.take(k - 1)) * 10 + digit_of(s[k - 1]),
{
    assert(s.take(k).drop_last() =~= s.take(k - 1));
    assert(digits_val(s.take(k)) == digits_val(s.take(k - 1)) * 10 + digit_of(s[k - 1]));
    lemma_digits_val_nonneg(s.take(k - 1));
    assert(digits_val(s.take(k - 1)) * 10 >= digits_val(s.take(k - 1))) by (nonlinear_arith)
        requires
            digits_val(s.take(k - 1)) >= 0,
    ;
}

/// A longer digit prefix never shrinks the denoted value.
proof fn lemma_digits_val_prefix(s: Seq<char>, k: int, m: int)
    requires
        0 <= k <= m <= s.len(),
        forall|j: int| 0 <= j < m ==> is_digit(#[trigger] s[j]),
    ensures
        digits_val(s.take(m)) >= digits_val(s.take(k)),
    decreases m - k,
{
    if m > k {
        lemma_digits_val_prefix(s, k, m - 1);
        lemma_digits_val_monotone(s, m);
    }
}

/// A digit string never denotes a negative number.
proof fn lemma_digits_val_nonneg(s: Seq<char>)
    ensures
        digits_val(s) >= 0,
    decreases s.len(),
{
    if s.len() > 0 {
        lemma_digits_val_nonneg(s.drop_last());
        assert(digits_val(s.drop_last()) * 10 >= 0) by (nonlinear_arith)
            requires
                digits_val(s.drop_last()) >= 0,
        ;
    }
}

proof fn lemma_leading_word_len(s: Seq<char>)
    ensures
        leading_word(s).len() <= s.len(),
    decreases s.len(),
{
    if s.len() > 0 && !is_space(s[0]) {
        lemma_leading_word_len(s.skip(1));
    }
}

pub(crate) proof fn lemma_word_is_take(s: Seq<char>, k: int)
    requires
        0 <= k <= s.len(),
        forall|j: int| 0 <= j < k ==> !is_space(s[j]),
        k == s.len() || is_space(s[k]),
    ensures
        leading_word(s) =~= s.take(k),
    decreases k,
{
    if k == 0 {
    } else {
        lemma_word_is_take(s.skip(1), k - 1);
        assert(forall|j: int| 0 <= j < k - 1 ==> !is_space(s.skip(1)[j]));
        assert(leading_word(s) =~= seq![s[0]] + s.skip(1).take(k - 1));
    }
}

fn exec_is_space(c: char) -> (r: bool)
    ensures
        r == is_space(c),
{
    c == ' ' || c == '\t' || c == '\n' || c == '\r'
}

/// Splits a string into its whitespace-separated tokens.
pub fn split_tokens(s: &str) -> (r: Vec<String>)
    ensures
        views_of(r@) == tokens_of(s@),
{
    let n = s.unicode_len();
    let mut i: usize = 0;
    let mut out: Vec<String> = Vec::new();
    proof {
        assert(s@.skip(0) =~= s@);
        assert(views_of(out@) =~= Seq::<Seq<char>>::empty());
    }
    while i < n
        invariant
            i <= n,
            n == s@.len(),
            views_of(out@) + tokens_of(s@.skip(i as int)) =~= tokens_of(s@),
        decreases n - i,
    {
        let c = s.get_char(i);
        if exec_is_space(c) {
            proof {
                assert(s@.skip(i as int).skip(1) =~= s@.skip(i + 1));
            }
            i += 1;
        } else {
            let ghost rest = s@.skip(i as int);
            let start: usize = i;
            i += 1;
            while i < n && !exec_is_space(s.get_char(i))
                invariant
                    start < i <= n,
                    n == s@.len(),
                    forall|j: int| start <= j < i ==> !is_space(s@[j]),
                decreases n - i,
            {
                i += 1;
            }
            let token = s.substring_char(start, i).to_owned();
            proof {
                assert(forall|j: int| 0 <= j < i - start ==> rest[j] == s@[start + j]);
                assert(i < n ==> is_space(rest[i - start]));
                lemma_word_is_take(rest, i - start);
                lemma_leading_word_len(rest);
                assert(token@ =~= rest.take(i - start));
                assert(token@ =~= leading_word(rest));
                assert(s@.skip(i as int) =~= rest.skip(i - start));
                assert(tokens_of(rest) =~= seq![leading_word(rest)] + tokens_of(
                    rest.skip(leading_word(rest).len() as int),
                ));
            }
            let ghost prior = out@;
            out.push(token);
            proof {
                assert(views_of(out@) =~= views_of(prior).push(token@));
                assert(views_of(out@) + tokens_of(s@.skip(i as int)) =~= tokens_of(s@));
            }
        }
    }
    proof {
        assert(s@.skip(n as int) =~= Seq::<char>::empty());
        assert(views_of(out@) =~= tokens_of(s@));
    }
    out
}

} // verus!
