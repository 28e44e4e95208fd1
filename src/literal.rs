//! Reading and writing the raw literals of a search string: integers,
//! the null words, text order, glob patterns and their SQL form.
use vstd::prelude::*;

use crate::chars_of;
use crate::parser::atom::push_char;

verus! {

/// Largest magnitude that the integer reader tracks exactly.
pub const INT_LIMIT: i128 = 100_000_000_000_000_000_000;

pub open spec fn is_digit(c: char) -> bool {
    '0' <= c && c <= '9'
}

pub open spec fn digit_of(c: char) -> int {
    (c as u32) as int - ('0' as u32) as int
}

pub open spec fn all_digits(s: Seq<char>) -> bool {
    forall|i: int| 0 <= i < s.len() ==> is_digit(#[trigger] s[i])
}

/// The value of a string of decimal digits.
pub open spec fn digits_value(s: Seq<char>) -> int
    decreases s.len(),
{
    if s.len() == 0 {
        0
    } else {
        digits_value(s.drop_last()) * 10 + digit_of(s.last())
    }
}

/// The integer that a text denotes, read as Rust reads integers: an
/// optional sign (a minus only where `signed`), then one or more ASCII
/// digits, and nothing else.
pub open spec fn int_text(s: Seq<char>, signed: bool) -> Option<int> {
    if s.len() > 0 && (s[0] == '+' || (signed && s[0] == '-')) {
        let d = s.drop_first();
        if d.len() > 0 && all_digits(d) {
            Some(if s[0] == '-' { -digits_value(d) } else { digits_value(d) })
        } else {
            None
        }
    } else if s.len() > 0 && all_digits(s) {
        Some(digits_value(s))
    } else {
        None
    }
}

/// The integer of a text, where it lies within `[lo, hi]`.
pub open spec fn int_within(s: Seq<char>, signed: bool, lo: int, hi: int) -> Option<int> {
    match int_text(s, signed) {
        Some(v) => if lo <= v <= hi {
            Some(v)
        } else {
            None
        },
        None => None,
    }
}

proof fn lemma_digits_push(d: Seq<char>, c: char)
    ensures
        digits_value(d.push(c)) == digits_value(d) * 10 + digit_of(c),
{
    assert(d.push(c).drop_last() =~= d);
}

proof fn lemma_digits_nonneg(d: Seq<char>)
    requires
        all_digits(d),
    ensures
        digits_value(d) >= 0,
    decreases d.len(),
{
    if d.len() > 0 {
        assert(all_digits(d.drop_last()));
        lemma_digits_nonneg(d.drop_last());
        assert(is_digit(d[d.len() - 1]));
    }
}

/// Reads an integer in `[lo, hi]`; `None` where the text is no integer or
/// lies outside that range.
pub fn parse_int(s: &str, signed: bool, lo: i128, hi: i128) -> (r: Option<i128>)
    requires
        -INT_LIMIT <= lo <= hi <= INT_LIMIT,
    ensures
        match int_within(s@, signed, lo as int, hi as int) {
            Some(v) => r == Some(v as i128),
            None => r is None,
        },
{
    let cs = chars_of(s);
    let n = cs.len();
    if n == 0 {
        return None;
    }
    let mut start: usize = 0;
    let mut neg = false;
    if cs[0] == '+' {
        start = 1;
    } else if cs[0] == '-' && signed {
        start = 1;
        neg = true;
    }
    if start == n {
        return None;
    }
    let ghost d = cs@.subrange(start as int, n as int);
    proof {
        if start == 1 {
            assert(d =~= s@.drop_first());
        } else {
            assert(d =~= s@);
        }
    }
    assert(int_text(s@, signed) == if all_digits(d) {
        Some(if neg { -digits_value(d) } else { digits_value(d) })
    } else {
        None::<int>
    });
    let mut acc: i128 = 0;
    let mut over = false;
    let mut k: usize = start;
    while k < n
        invariant
            n == cs@.len(),
            start <= k <= n,
            d == cs@.subrange(start as int, n as int),
            int_text(s@, signed) == if all_digits(d) {
                Some(if neg { -digits_value(d) } else { digits_value(d) })
            } else {
                None::<int>
            },
            all_digits(cs@.subrange(start as int, k as int)),
            over ==> digits_value(cs@.subrange(start as int, k as int)) > INT_LIMIT,
            !over ==> acc == digits_value(cs@.subrange(start as int, k as int)),
            0 <= acc <= INT_LIMIT * 10 + 9,
        decreases n - k,
    {
        let c = cs[k];
        if !('0' <= c && c <= '9') {
            proof {
                assert(!all_digits(d)) by {
                    assert(d[k - start] == c);
                }
            }
            return None;
        }
        let ghost before = cs@.subrange(start as int, k as int);
        proof {
            assert(cs@.subrange(start as int, k + 1) =~= before.push(c));
            lemma_digits_push(before, c);
            lemma_digits_nonneg(before);
        }
        let dig = (c as u32 - '0' as u32) as i128;
        if over {
            assert(digits_value(before) * 10 + digit_of(c) > INT_LIMIT) by (nonlinear_arith)
                requires
                    digits_value(before) > INT_LIMIT,
                    digit_of(c) >= 0,
            ;
        } else if acc > INT_LIMIT {
            over = true;
            assert(digits_value(before) * 10 + digit_of(c) > INT_LIMIT) by (nonlinear_arith)
                requires
                    digits_value(before) > INT_LIMIT,
                    digit_of(c) >= 0,
            ;
        } else {
            acc = acc * 10 + dig;
        }
        k += 1;
    }
    assert(cs@.subrange(start as int, n as int) == d);
    if over {
        return None;
    }
    let v = if neg {
        -acc
    } else {
        acc
    };
    if lo <= v && v <= hi {
        Some(v)
    } else {
        None
    }
}

/// The decimal digit `d` as a character.
pub open spec fn digit_char(d: int) -> char {
    ((48 + d) as u8) as char
}

/// The decimal form of a natural number, without leading zeros.
pub open spec fn nat_text(n: nat) -> Seq<char>
    decreases n,
{
    if n < 10 {
        seq![digit_char(n as int)]
    } else {
        nat_text(n / 10).push(digit_char((n % 10) as int))
    }
}

/// The decimal form of an integer, as Rust writes it.
pub open spec fn int_show(v: int) -> Seq<char> {
    if v < 0 {
        seq!['-'] + nat_text((-v) as nat)
    } else {
        nat_text(v as nat)
    }
}

fn write_nat(out: &mut String, n: u128)
    ensures
        final(out)@ == old(out)@ + nat_text(n as nat),
    decreases n,
{
    if n >= 10 {
        write_nat(out, n / 10);
    }
    let c = (48 + (n % 10) as u8) as char;
    push_char(out, c);
    proof {
        if n >= 10 {
            assert(final(out)@ =~= old(out)@ + nat_text(n as nat));
        } else {
            assert(final(out)@ =~= old(out)@ + nat_text(n as nat));
        }
    }
}

/// Writes an integer in decimal.
pub fn show_int(v: i128) -> (r: String)
    requires
        -INT_LIMIT <= v <= INT_LIMIT,
    ensures
        r@ == int_show(v as int),
{
    let mut out = String::new();
    if v < 0 {
        push_char(&mut out, '-');
        write_nat(&mut out, (-v) as u128);
    } else {
        write_nat(&mut out, v as u128);
    }
    assert(out@ =~= int_show(v as int));
    out
}

/// Whether `c` is the ASCII letter `lower` in either case.
pub open spec fn same_letter(c: char, lower: char) -> bool {
    c == lower || (c as u32) + 32 == (lower as u32)
}

/// Whether a text is `null` or `none`, in any mix of ASCII cases.
pub open spec fn is_null_word(s: Seq<char>) -> bool {
    s.len() == 4 && same_letter(s[0], 'n') && ((same_letter(s[1], 'u') && same_letter(s[2], 'l')
        && same_letter(s[3], 'l')) || (same_letter(s[1], 'o') && same_letter(s[2], 'n')
        && same_letter(s[3], 'e')))
}

fn letter_is(c: char, lower: char) -> (r: bool)
    requires
        'a' <= lower <= 'z',
    ensures
        r == same_letter(c, lower),
{
    c == lower || (c as u32) + 32 == (lower as u32)
}

/// Whether a text is a null word.
pub fn null_word(s: &str) -> (r: bool)
    ensures
        r == is_null_word(s@),
{
    let cs = chars_of(s);
    if cs.len() != 4 {
        return false;
    }
    letter_is(cs[0], 'n') && ((letter_is(cs[1], 'u') && letter_is(cs[2], 'l') && letter_is(
        cs[3],
        'l',
    )) || (letter_is(cs[1], 'o') && letter_is(cs[2], 'n') && letter_is(cs[3], 'e')))
}

/// Whether `a` comes before `b` in the order of Rust's strings: the
/// lexicographic order of their characters' code points.
pub open spec fn text_less(a: Seq<char>, b: Seq<char>) -> bool
    decreases a.len(),
{
    if a.len() == 0 {
        b.len() > 0
    } else if b.len() == 0 {
        false
    } else if a[0] != b[0] {
        (a[0] as u32) < (b[0] as u32)
    } else {
        text_less(a.drop_first(), b.drop_first())
    }
}

/// Compares two texts in the order of Rust's strings.
pub fn less_text(a: &str, b: &str) -> (r: bool)
    ensures
        r == text_less(a@, b@),
{
    let x = chars_of(a);
    let y = chars_of(b);
    let mut i: usize = 0;
    assert(x@.subrange(0, x@.len() as int) =~= a@);
    assert(y@.subrange(0, y@.len() as int) =~= b@);
    while i < x.len() && i < y.len() && x[i] == y[i]
        invariant
            i <= x.len(),
            i <= y.len(),
            text_less(a@, b@) == text_less(
                x@.subrange(i as int, x@.len() as int),
                y@.subrange(i as int, y@.len() as int),
            ),
        decreases x.len() - i,
    {
        let ghost xs = x@.subrange(i as int, x@.len() as int);
        let ghost ys = y@.subrange(i as int, y@.len() as int);
        assert(xs.drop_first() =~= x@.subrange(i + 1, x@.len() as int));
        assert(ys.drop_first() =~= y@.subrange(i + 1, y@.len() as int));
        i += 1;
    }
    let ghost xs = x@.subrange(i as int, x@.len() as int);
    let ghost ys = y@.subrange(i as int, y@.len() as int);
    if i == x.len() {
        assert(xs.len() == 0);
        i < y.len()
    } else if i == y.len() {
        false
    } else {
        assert(xs[0] == x[i as int] && ys[0] == y[i as int]);
        (x[i] as u32) < (y[i] as u32)
    }
}

/// Whether a glob pattern matches the whole of a text: `?` stands for one
/// character, `*` for any run of characters, every other character for
/// itself.
pub open spec fn glob_match(p: Seq<char>, s: Seq<char>) -> bool
    decreases p.len() + s.len(),
{
    if p.len() == 0 {
        s.len() == 0
    } else if p[0] == '*' {
        glob_match(p.drop_first(), s) || (s.len() > 0 && glob_match(p, s.drop_first()))
    } else {
        s.len() > 0 && (p[0] == '?' || p[0] == s[0]) && glob_match(p.drop_first(), s.drop_first())
    }
}

/// A glob character in SQL `LIKE` form.
pub open spec fn like_char(c: char) -> char {
    if c == '*' {
        '%'
    } else if c == '?' {
        '_'
    } else {
        c
    }
}

/// A glob pattern in SQL `LIKE` form: `*` becomes `%` and `?` becomes `_`.
pub open spec fn like_pattern(p: Seq<char>) -> Seq<char> {
    p.map_values(|c: char| like_char(c))
}

/// Rewrites a glob pattern in SQL `LIKE` form.
pub fn to_like(p: &str) -> (r: String)
    ensures
        r@ == like_pattern(p@),
{
    let cs = chars_of(p);
    let mut out = String::new();
    let mut i: usize = 0;
    while i < cs.len()
        invariant
            i <= cs.len(),
            cs@ == p@,
            out@ == like_pattern(p@.subrange(0, i as int)),
        decreases cs.len() - i,
    {
        let c = cs[i];
        let d = if c == '*' {
            '%'
        } else if c == '?' {
            '_'
        } else {
            c
        };
        push_char(&mut out, d);
        i += 1;
        assert(out@ =~= like_pattern(p@.subrange(0, i as int)));
    }
    assert(p@.subrange(0, i as int) =~= p@);
    out
}

/// The position of the first `e` or `E` at or after `i`, or the length.
pub open spec fn exp_pos(s: Seq<char>, i: int) -> int
    decreases s.len() - i,
{
    if i < 0 || i >= s.len() {
        s.len() as int
    } else if same_letter(s[i], 'e') {
        i
    } else {
        exp_pos(s, i + 1)
    }
}

/// Digits with at most one point, and at least one digit.
pub open spec fn is_mantissa(m: Seq<char>) -> bool {
    &&& forall|i: int| 0 <= i < m.len() ==> is_digit(#[trigger] m[i]) || m[i] == '.'
    &&& forall|i: int, j: int| 0 <= i < m.len() && 0 <= j < m.len() && #[trigger] m[i] == '.'
        && #[trigger] m[j] == '.' ==> i == j
    &&& exists|i: int| 0 <= i < m.len() && is_digit(#[trigger] m[i])
}

/// `e` or `E`, an optional sign and one or more digits.
pub open spec fn is_exponent(x: Seq<char>) -> bool {
    x.len() >= 2 && same_letter(x[0], 'e') && {
        let y = x.drop_first();
        if y[0] == '+' || y[0] == '-' {
            y.len() >= 2 && all_digits(y.drop_first())
        } else {
            all_digits(y)
        }
    }
}

/// `inf`, `infinity` or `nan`, in any case.
pub open spec fn is_special_float(b: Seq<char>) -> bool {
    (b.len() == 3 && same_letter(b[0], 'i') && same_letter(b[1], 'n') && same_letter(b[2], 'f')) || (
    b.len() == 8 && same_letter(b[0], 'i') && same_letter(b[1], 'n') && same_letter(b[2], 'f')
        && same_letter(b[3], 'i') && same_letter(b[4], 'n') && same_letter(b[5], 'i')
        && same_letter(b[6], 't') && same_letter(b[7], 'y')) || (b.len() == 3 && same_letter(
        b[0],
        'n',
    ) && same_letter(b[1], 'a') && same_letter(b[2], 'n'))
}

/// Whether a text is a floating-point number as Rust reads one: an
/// optional sign, then `inf`, `infinity` or `nan` (any case), or a mantissa
/// of digits with at most one point and at least one digit, followed by an
/// optional exponent.
pub open spec fn is_float_text(s: Seq<char>) -> bool {
    let b = if s.len() > 0 && (s[0] == '+' || s[0] == '-') {
        s.drop_first()
    } else {
        s
    };
    is_special_float(b) || {
        let p = exp_pos(b, 0);
        is_mantissa(b.subrange(0, p)) && (p == b.len() || is_exponent(b.subrange(p, b.len() as int)))
    }
}

proof fn lemma_exp_pos(s: Seq<char>, i: int)
    requires
        0 <= i <= s.len(),
    ensures
        i <= exp_pos(s, i) <= s.len(),
        forall|j: int| i <= j < exp_pos(s, i) ==> !same_letter(#[trigger] s[j], 'e'),
        exp_pos(s, i) < s.len() ==> same_letter(s[exp_pos(s, i)], 'e'),
    decreases s.len() - i,
{
    if i < s.len() && !same_letter(s[i], 'e') {
        lemma_exp_pos(s, i + 1);
    }
}

fn special_float(cs: &Vec<char>, from: usize) -> (r: bool)
    requires
        from <= cs.len(),
    ensures
        r == is_special_float(cs@.subrange(from as int, cs.len() as int)),
{
    let ghost b = cs@.subrange(from as int, cs.len() as int);
    let n = cs.len() - from;
    if n == 3 {
        assert(b[0] == cs@[from as int] && b[1] == cs@[from + 1] && b[2] == cs@[from + 2]);
        (letter_is(cs[from], 'i') && letter_is(cs[from + 1], 'n') && letter_is(cs[from + 2], 'f'))
            || (letter_is(cs[from], 'n') && letter_is(cs[from + 1], 'a') && letter_is(
            cs[from + 2],
            'n',
        ))
    } else if n == 8 {
        assert(b[0] == cs@[from as int] && b[1] == cs@[from + 1] && b[2] == cs@[from + 2]);
        assert(b[3] == cs@[from + 3] && b[4] == cs@[from + 4] && b[5] == cs@[from + 5]);
        assert(b[6] == cs@[from + 6] && b[7] == cs@[from + 7]);
        letter_is(cs[from], 'i') && letter_is(cs[from + 1], 'n') && letter_is(cs[from + 2], 'f')
            && letter_is(cs[from + 3], 'i') && letter_is(cs[from + 4], 'n') && letter_is(
            cs[from + 5],
            'i',
        ) && letter_is(cs[from + 6], 't') && letter_is(cs[from + 7], 'y')
    } else {
        false
    }
}

/// Whether a text is a floating-point number.
#[verifier::rlimit(40)]
pub fn float_text(s: &str) -> (r: bool)
    ensures
        r == is_float_text(s@),
{
    let cs = chars_of(s);
    let n = cs.len();
    let from: usize = if n > 0 && (cs[0] == '+' || cs[0] == '-') {
        1
    } else {
        0
    };
    let ghost b = if s@.len() > 0 && (s@[0] == '+' || s@[0] == '-') {
        s@.drop_first()
    } else {
        s@
    };
    assert(b =~= cs@.subrange(from as int, n as int));
    let special = special_float(&cs, from);
    if special {
        return true;
    }
    // the mantissa: digits and at most one point, up to `e` or `E`
    let mut i: usize = from;
    let mut dots: usize = 0;
    let mut dot_at: usize = 0;
    let mut digit_at: usize = 0;
    let mut digits = false;
    while i < n && !letter_is(cs[i], 'e')
        invariant
            n == cs.len(),
            from <= i <= n,
            cs@ == s@,
            b == if s@.len() > 0 && (s@[0] == '+' || s@[0] == '-') {
                s@.drop_first()
            } else {
                s@
            },
            !is_special_float(b),
            b =~= cs@.subrange(from as int, n as int),
            exp_pos(b, 0) == exp_pos(b, i - from),
            forall|j: int| from <= j < i ==> !same_letter(#[trigger] cs@[j], 'e'),
            forall|j: int| from <= j < i ==> is_digit(#[trigger] cs@[j]) || cs@[j] == '.',
            dots <= 1,
            dots == 0 ==> forall|j: int| from <= j < i ==> #[trigger] cs@[j] != '.',
            dots == 1 ==> from <= dot_at < i && cs@[dot_at as int] == '.' && forall|j: int|
                from <= j < i && #[trigger] cs@[j] == '.' ==> j == dot_at,
            digits ==> from <= digit_at < i && is_digit(cs@[digit_at as int]),
            !digits ==> forall|j: int| from <= j < i ==> !is_digit(#[trigger] cs@[j]),
        decreases n - i,
    {
        let c = cs[i];
        assert(b[i - from] == c);
        if '0' <= c && c <= '9' {
            digits = true;
            digit_at = i;
        } else if c == '.' {
            if dots == 1 {
                proof {
                    lemma_exp_pos(b, i - from + 1);
                    assert(exp_pos(b, i - from) == exp_pos(b, i - from + 1));
                    let m = b.subrange(0, exp_pos(b, 0));
                    assert(m[dot_at - from] == '.');
                    assert(m[i - from] == '.');
                    assert(!is_mantissa(m));
                }
                return false;
            }
            dots = 1;
            dot_at = i;
        } else {
            proof {
                lemma_exp_pos(b, i - from + 1);
                assert(exp_pos(b, i - from) == exp_pos(b, i - from + 1));
                let m = b.subrange(0, exp_pos(b, 0));
                assert(m[i - from] == c);
                assert(!is_mantissa(m));
            }
            return false;
        }
        i += 1;
    }
    let ghost p = exp_pos(b, 0);
    assert(p == i - from);
    let ghost m = b.subrange(0, p);
    if !digits {
        assert forall|j: int| 0 <= j < m.len() implies !is_digit(#[trigger] m[j]) by {
            assert(m[j] == cs@[from + j]);
        }
        return false;
    }
    assert(is_digit(m[digit_at - from]));
    assert forall|j: int| 0 <= j < m.len() implies is_digit(#[trigger] m[j]) || m[j] == '.' by {
        assert(m[j] == cs@[from + j]);
    }
    assert forall|j: int, k: int|
        0 <= j < m.len() && 0 <= k < m.len() && #[trigger] m[j] == '.' && #[trigger] m[k] == '.'
        implies j == k by {
        assert(m[j] == cs@[from + j]);
        assert(m[k] == cs@[from + k]);
    }
    assert(is_mantissa(m));
    if i == n {
        return true;
    }
    // the exponent
    let ghost x = b.subrange(p, b.len() as int);
    assert(x =~= cs@.subrange(i as int, n as int));
    let ghost y = x.drop_first();
    assert(y =~= cs@.subrange(i + 1, n as int));
    assert(x[0] == cs@[i as int]);
    let mut start: usize = i + 1;
    if start < n && (cs[start] == '+' || cs[start] == '-') {
        start += 1;
    }
    let ghost rest = if y.len() > 0 && (y[0] == '+' || y[0] == '-') {
        y.drop_first()
    } else {
        y
    };
    assert(rest =~= cs@.subrange(start as int, n as int));
    if start == n {
        return false;
    }
    let ok = digits_from(&cs, start);
    assert(ok ==> is_exponent(x));
    assert(!ok ==> !is_exponent(x));
    ok
}

fn digits_from(cs: &Vec<char>, start: usize) -> (r: bool)
    requires
        start <= cs.len(),
    ensures
        r == all_digits(cs@.subrange(start as int, cs.len() as int)),
{
    let n = cs.len();
    let ghost rest = cs@.subrange(start as int, n as int);
    let mut j: usize = start;
    while j < n
        invariant
            n == cs.len(),
            start <= j <= n,
            rest == cs@.subrange(start as int, n as int),
            forall|k: int| start <= k < j ==> is_digit(#[trigger] cs@[k]),
        decreases n - j,
    {
        if !('0' <= cs[j] && cs[j] <= '9') {
            assert(rest[j - start] == cs@[j as int]);
            return false;
        }
        j += 1;
    }
    assert forall|k: int| 0 <= k < rest.len() implies is_digit(#[trigger] rest[k]) by {
        assert(rest[k] == cs@[start + k]);
    }
    true
}

/// Whether two texts are the same.
pub fn same_text(a: &str, b: &str) -> (r: bool)
    ensures
        r == (a@ == b@),
{
    String::from_str(a) == String::from_str(b)
}

/// Texts joined with a separator between each two.
pub open spec fn join(xs: Seq<Seq<char>>, sep: Seq<char>) -> Seq<char>
    decreases xs.len(),
{
    if xs.len() == 0 {
        Seq::empty()
    } else if xs.len() == 1 {
        xs[0]
    } else {
        join(xs.drop_last(), sep) + sep + xs.last()
    }
}

/// Joins texts with a separator between each two.
pub fn join_texts(xs: &Vec<String>, sep: &str) -> (r: String)
    ensures
        r@ == join(crate::strings_view(xs@), sep@),
{
    let ghost v = crate::strings_view(xs@);
    let mut out = String::new();
    let mut i: usize = 0;
    while i < xs.len()
        invariant
            i <= xs.len(),
            v == crate::strings_view(xs@),
            out@ == join(v.subrange(0, i as int), sep@),
        decreases xs.len() - i,
    {
        let ghost before = out@;
        if i > 0 {
            out.append(sep);
        }
        out.append(xs[i].as_str());
        proof {
            let w = v.subrange(0, i + 1);
            assert(w.drop_last() =~= v.subrange(0, i as int));
            assert(w.last() == xs@[i as int]@);
            if i == 0 {
                assert(out@ =~= join(w, sep@));
            } else {
                assert(out@ =~= join(w, sep@));
            }
        }
        i += 1;
    }
    assert(v.subrange(0, i as int) =~= v);
    out
}

} // verus!
