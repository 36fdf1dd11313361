use vstd::prelude::*;

use crate::text::{chars_of, decimal, digit_char};

verus! {

/// How one size compares with another.
#[derive(Debug, Clone, Copy, PartialEq, Eq, Structural)]
pub enum SizeOrder {
    Smaller,
    Same,
    Larger,
}

/// Whether every character of `s` is an ASCII decimal digit.
pub open spec fn all_digits(s: Seq<char>) -> bool {
    forall|i: int| 0 <= i < s.len() ==> '0' <= #[trigger] s[i] <= '9'
}

/// The value of a decimal digit character.
pub open spec fn digit_value(c: char) -> nat {
    (c as int - 48) as nat
}

/// The number that a string of decimal digits denotes (0 for the empty string).
pub open spec fn digits_value(s: Seq<char>) -> nat
    decreases s.len(),
{
    if s.len() == 0 {
        0
    } else {
        digits_value(s.drop_last()) * 10 + digit_value(s.last())
    }
}

/// The number of bytes that a size field made of decimal digits states.
pub open spec fn size_value(s: Seq<char>) -> nat {
    digits_value(s)
}

/// Lexicographic comparison of two texts, character by character, as std
/// compares `String`s: -1 when `a` comes first, 1 when `b` does, 0 when equal.
pub open spec fn lex_compare(a: Seq<char>, b: Seq<char>) -> int
    decreases a.len(),
{
    if a.len() == 0 {
        if b.len() == 0 {
            0
        } else {
            -1
        }
    } else if b.len() == 0 {
        1
    } else if a[0] < b[0] {
        -1
    } else if b[0] < a[0] {
        1
    } else {
        lex_compare(a.drop_first(), b.drop_first())
    }
}

/// The group of a size field in the order: 0 for a field that is empty or
/// starts with a character below `0`, 1 for any other field of decimal
/// digits, 2 for the rest. As text, every field of group 0 comes before every
/// digit field, and every field that starts above `9` comes after it.
pub open spec fn size_class(s: Seq<char>) -> int {
    if s.len() == 0 || '0' > s[0] {
        0
    } else if all_digits(s) {
        1
    } else {
        2
    }
}

/// How size field `a` compares with size field `b` (-1, 0 or 1): by group
/// first; within group 1 by the number of bytes the digits state, within the
/// other groups as text, as std compares `String`s.
pub open spec fn size_compare(a: Seq<char>, b: Seq<char>) -> int {
    if size_class(a) < size_class(b) {
        -1
    } else if size_class(a) > size_class(b) {
        1
    } else if size_class(a) == 1 {
        if size_value(a) < size_value(b) {
            -1
        } else if size_value(a) == size_value(b) {
            0
        } else {
            1
        }
    } else {
        lex_compare(a, b)
    }
}

proof fn lemma_lex_antisymmetric(a: Seq<char>, b: Seq<char>)
    ensures
        -1 <= lex_compare(a, b) <= 1,
        lex_compare(a, b) == -lex_compare(b, a),
        lex_compare(a, b) == 0 ==> a == b,
    decreases a.len(),
{
    if a.len() > 0 && b.len() > 0 && a[0] == b[0] {
        lemma_lex_antisymmetric(a.drop_first(), b.drop_first());
        if lex_compare(a, b) == 0 {
            assert(a =~= seq![a[0]] + a.drop_first());
            assert(b =~= seq![b[0]] + b.drop_first());
        }
    }
    if a.len() == 0 && b.len() == 0 {
        assert(a =~= b);
    }
}

proof fn lemma_lex_transitive(a: Seq<char>, b: Seq<char>, c: Seq<char>)
    requires
        lex_compare(a, b) <= 0,
        lex_compare(b, c) <= 0,
    ensures
        lex_compare(a, c) <= 0,
        lex_compare(a, b) < 0 || lex_compare(b, c) < 0 ==> lex_compare(a, c) < 0,
    decreases a.len(),
{
    if a.len() > 0 && b.len() > 0 && c.len() > 0 && a[0] == b[0] && b[0] == c[0] {
        lemma_lex_transitive(a.drop_first(), b.drop_first(), c.drop_first());
    }
}

/// Size fields are ordered: the comparison is antisymmetric and transitive,
/// and it says 0 only of fields that are equal, or that state the same number.
pub proof fn size_compare_is_an_order(a: Seq<char>, b: Seq<char>, c: Seq<char>)
    ensures
        -1 <= size_compare(a, b) <= 1,
        size_compare(a, b) == -size_compare(b, a),
        size_compare(a, b) <= 0 && size_compare(b, c) <= 0 ==> size_compare(a, c) <= 0,
        size_compare(a, b) < 0 && size_compare(b, c) <= 0 ==> size_compare(a, c) < 0,
        size_compare(a, b) <= 0 && size_compare(b, c) < 0 ==> size_compare(a, c) < 0,
        size_compare(a, b) == 0 ==> a == b || (all_digits(a) && all_digits(b)),
{
    lemma_lex_antisymmetric(a, b);
    if lex_compare(a, b) <= 0 && lex_compare(b, c) <= 0 {
        lemma_lex_transitive(a, b, c);
    }
}

/// Ten to the power `n`.
pub open spec fn pow10(n: nat) -> nat
    decreases n,
{
    if n == 0 {
        1
    } else {
        10 * pow10((n - 1) as nat)
    }
}

proof fn lemma_pow10_monotonic(m: nat, n: nat)
    requires
        m <= n,
    ensures
        1 <= pow10(m) <= pow10(n),
    decreases n,
{
    if n > m {
        lemma_pow10_monotonic(m, (n - 1) as nat);
    } else if n > 0 {
        lemma_pow10_monotonic(0, (n - 1) as nat);
    }
}

/// A string of `n` digits denotes less than `10^n`.
proof fn lemma_digits_bound(s: Seq<char>)
    requires
        all_digits(s),
    ensures
        digits_value(s) < pow10(s.len()),
    decreases s.len(),
{
    if s.len() > 0 {
        let init = s.drop_last();
        assert(all_digits(init)) by {
            assert forall|i: int| 0 <= i < init.len() implies '0' <= #[trigger] init[i] <= '9' by {
                assert(init[i] == s[i]);
            }
        }
        lemma_digits_bound(init);
        let v = digits_value(init);
        let p = pow10((s.len() - 1) as nat);
        let d = digit_value(s.last());
        assert(s.last() == s[s.len() - 1]);
        assert(d <= 9);
        assert(v * 10 + d < 10 * p) by (nonlinear_arith)
            requires
                v < p,
                d <= 9,
        ;
    }
}

/// The value of a concatenation of digit strings.
proof fn lemma_digits_concat(p: Seq<char>, q: Seq<char>)
    ensures
        digits_value(p + q) == digits_value(p) * pow10(q.len()) + digits_value(q),
    decreases q.len(),
{
    if q.len() == 0 {
        assert(p + q =~= p);
        assert(pow10(0) == 1);
        assert(digits_value(p) * 1 == digits_value(p));
    } else {
        let q0 = q.drop_last();
        assert((p + q).drop_last() =~= p + q0);
        assert((p + q).last() == q.last());
        lemma_digits_concat(p, q0);
        assert(q.drop_last() == q0);
        assert(pow10(q.len()) == 10 * pow10(q0.len()));
        let vp = digits_value(p);
        let vq0 = digits_value(q0);
        let pw = pow10(q0.len());
        let d = digit_value(q.last());
        assert(digits_value(p + q) == digits_value(p + q0) * 10 + d);
        assert(digits_value(q) == vq0 * 10 + d);
        assert((vp * pw + vq0) * 10 + d == vp * (10 * pw) + (vq0 * 10 + d)) by (nonlinear_arith);
    }
}

/// Zeros denote zero.
proof fn lemma_zeros(z: Seq<char>)
    requires
        forall|i: int| 0 <= i < z.len() ==> #[trigger] z[i] == '0',
    ensures
        digits_value(z) == 0,
    decreases z.len(),
{
    if z.len() > 0 {
        let init = z.drop_last();
        assert forall|i: int| 0 <= i < init.len() implies #[trigger] init[i] == '0' by {
            assert(init[i] == z[i]);
        }
        lemma_zeros(init);
        assert(z.last() == z[z.len() - 1]);
    }
}

/// A digit string that does not start with `0` denotes at least `10^(n-1)`.
proof fn lemma_leading_digit(s: Seq<char>)
    requires
        s.len() > 0,
        all_digits(s),
        s[0] != '0',
    ensures
        digits_value(s) >= pow10((s.len() - 1) as nat),
{
    let head = s.subrange(0, 1);
    let rest = s.subrange(1, s.len() as int);
    assert(s =~= head + rest);
    lemma_digits_concat(head, rest);
    assert(head.drop_last() =~= Seq::<char>::empty());
    assert(head.last() == s[0]);
    assert(digits_value(head) >= 1);
    let pw = pow10(rest.len());
    assert(digits_value(head) * pw >= pw) by (nonlinear_arith)
        requires
            digits_value(head) >= 1,
    ;
}

/// Digit strings of equal length compare as their first differing digits.
proof fn lemma_first_difference(a: Seq<char>, b: Seq<char>, i: int)
    requires
        a.len() == b.len(),
        0 <= i < a.len(),
        all_digits(a),
        all_digits(b),
        a.subrange(0, i) == b.subrange(0, i),
        a[i] < b[i],
    ensures
        digits_value(a) < digits_value(b),
{
    let n = a.len() as int;
    let ha = a.subrange(0, i + 1);
    let hb = b.subrange(0, i + 1);
    let ra = a.subrange(i + 1, n);
    let rb = b.subrange(i + 1, n);
    assert(a =~= ha + ra);
    assert(b =~= hb + rb);
    lemma_digits_concat(ha, ra);
    lemma_digits_concat(hb, rb);
    assert(all_digits(ra)) by {
        assert forall|j: int| 0 <= j < ra.len() implies '0' <= #[trigger] ra[j] <= '9' by {
            assert(ra[j] == a[i + 1 + j]);
        }
    }
    lemma_digits_bound(ra);
    assert(ha.drop_last() =~= a.subrange(0, i));
    assert(hb.drop_last() =~= b.subrange(0, i));
    assert(ha.last() == a[i]);
    assert(hb.last() == b[i]);
    let va = digits_value(ha);
    let vb = digits_value(hb);
    assert(va + 1 <= vb);
    let pw = pow10(ra.len());
    assert(rb.len() == ra.len());
    let x = digits_value(ra);
    let y = digits_value(rb);
    assert(va * pw + x < vb * pw + y) by (nonlinear_arith)
        requires
            va + 1 <= vb,
            x < pw,
    ;
}

/// Two size fields written with decimal digits compare as the numbers they
/// denote, however large: smaller number first, equal numbers together.
pub proof fn digit_sizes_compare_as_numbers(a: Seq<char>, b: Seq<char>)
    requires
        a.len() > 0,
        b.len() > 0,
        all_digits(a),
        all_digits(b),
    ensures
        size_compare(a, b) < 0 <==> digits_value(a) < digits_value(b),
        size_compare(a, b) == 0 <==> digits_value(a) == digits_value(b),
        size_compare(a, b) > 0 <==> digits_value(a) > digits_value(b),
{
    assert('0' <= a[0]);
    assert('0' <= b[0]);
}

/// The decimal text of a number is a non-empty string of digits that denotes
/// that number.
pub proof fn lemma_decimal_digits(n: nat)
    ensures
        decimal(n).len() > 0,
        all_digits(decimal(n)),
        digits_value(decimal(n)) == n,
    decreases n,
{
    if n >= 10 {
        lemma_decimal_digits(n / 10);
        let s = decimal(n);
        let p = decimal(n / 10);
        assert(s.drop_last() =~= p);
        assert(s.last() == digit_char(n % 10));
        assert(digit_value(digit_char(n % 10)) == n % 10);
        assert(digits_value(s) == digits_value(p) * 10 + digit_value(s.last()));
        assert(n == (n / 10) * 10 + n % 10);
        assert forall|i: int| 0 <= i < s.len() implies '0' <= #[trigger] s[i] <= '9' by {
            if i < p.len() {
                assert(s[i] == p[i]);
            }
        }
    } else {
        assert(decimal(n) =~= seq![digit_char(n)]);
        assert(decimal(n).drop_last() =~= Seq::<char>::empty());
        assert(digit_value(digit_char(n)) == n);
        assert(decimal(n).last() == digit_char(n));
        assert(digits_value(decimal(n)) == digits_value(decimal(n).drop_last()) * 10 + digit_value(decimal(n).last()));
        assert(digits_value(Seq::<char>::empty()) == 0);
    }
}

/// Sizes written as decimal numbers are ordered as those numbers.
pub proof fn decimal_sizes_are_ordered_by_value(m: nat, n: nat)
    ensures
        size_compare(decimal(m), decimal(n)) < 0 <==> m < n,
        size_compare(decimal(m), decimal(n)) == 0 <==> m == n,
        size_compare(decimal(m), decimal(n)) > 0 <==> m > n,
{
    lemma_decimal_digits(m);
    lemma_decimal_digits(n);
    digit_sizes_compare_as_numbers(decimal(m), decimal(n));
}

/// The digits of a size field from its first significant digit on: the
/// characters `chars[lo..]`, denoting the same number as the field.
fn significant_digits(s: &str) -> (res: (bool, Vec<char>, usize))
    ensures
        res.0 == all_digits(s@),
        res.1@ == s@,
        res.2 <= res.1@.len(),
        res.0 ==> all_digits(res.1@.subrange(res.2 as int, res.1@.len() as int)),
        res.0 ==> size_value(s@) == digits_value(res.1@.subrange(res.2 as int, res.1@.len() as int)),
        res.0 && res.2 < res.1@.len() ==> res.1@[res.2 as int] != '0',
{
    let v = chars_of(s);
    let n = v.len();
    let mut i: usize = 0;
    while i < n
        invariant
            i <= n == v@.len(),
            v@ == s@,
            forall|j: int| 0 <= j < i ==> '0' <= #[trigger] v@[j] <= '9',
        decreases n - i,
    {
        if !('0' <= v[i] && v[i] <= '9') {
            assert(!('0' <= s@[i as int] <= '9'));
            assert(!all_digits(s@));
            return (false, v, 0);
        }
        i = i + 1;
    }
    assert(all_digits(v@));
    let mut lo: usize = 0;
    while lo < n && v[lo] == '0'
        invariant
            lo <= n == v@.len(),
            v@ == s@,
            all_digits(v@),
            forall|j: int| 0 <= j < lo ==> #[trigger] v@[j] == '0',
        decreases n - lo,
    {
        lo = lo + 1;
    }
    let ghost zeros = v@.subrange(0, lo as int);
    let ghost rest = v@.subrange(lo as int, n as int);
    proof {
        assert(v@ =~= zeros + rest);
        assert forall|j: int| 0 <= j < zeros.len() implies #[trigger] zeros[j] == '0' by {
            assert(zeros[j] == v@[j]);
        }
        lemma_zeros(zeros);
        lemma_digits_concat(zeros, rest);
        assert forall|j: int| 0 <= j < rest.len() implies '0' <= #[trigger] rest[j] <= '9' by {
            assert(rest[j] == v@[lo + j]);
        }
    }
    (true, v, lo)
}

/// Compares two texts character by character.
fn lex_compare_chars(x: &Vec<char>, y: &Vec<char>) -> (res: SizeOrder)
    ensures
        (res == SizeOrder::Smaller) <==> lex_compare(x@, y@) < 0,
        (res == SizeOrder::Same) <==> lex_compare(x@, y@) == 0,
        (res == SizeOrder::Larger) <==> lex_compare(x@, y@) > 0,
{
    let mut i: usize = 0;
    assert(x@.skip(0) =~= x@);
    assert(y@.skip(0) =~= y@);
    while i < x.len() && i < y.len() && x[i] == y[i]
        invariant
            i <= x@.len(),
            i <= y@.len(),
            lex_compare(x@, y@) == lex_compare(x@.skip(i as int), y@.skip(i as int)),
        decreases x@.len() - i,
    {
        assert(x@.skip(i as int).drop_first() =~= x@.skip(i + 1));
        assert(y@.skip(i as int).drop_first() =~= y@.skip(i + 1));
        i = i + 1;
    }
    proof {
        lemma_lex_antisymmetric(x@, y@);
        if i < x@.len() {
            assert(x@.skip(i as int)[0] == x@[i as int]);
        }
        if i < y@.len() {
            assert(y@.skip(i as int)[0] == y@[i as int]);
        }
    }
    if i < x.len() && i < y.len() {
        if x[i] < y[i] {
            SizeOrder::Smaller
        } else {
            SizeOrder::Larger
        }
    } else if i < x.len() {
        SizeOrder::Larger
    } else if i < y.len() {
        SizeOrder::Smaller
    } else {
        SizeOrder::Same
    }
}

/// The group of a size field, given its characters and whether they are all digits.
fn size_group(v: &Vec<char>, digits: bool) -> (res: u8)
    requires
        digits == all_digits(v@),
    ensures
        res == size_class(v@),
{
    if v.len() == 0 || '0' > v[0] {
        0
    } else if digits {
        1
    } else {
        2
    }
}

/// Compares two size fields as `size_compare` says.
pub fn compare_sizes(a: &str, b: &str) -> (res: SizeOrder)
    ensures
        (res == SizeOrder::Smaller) <==> size_compare(a@, b@) < 0,
        (res == SizeOrder::Same) <==> size_compare(a@, b@) == 0,
        (res == SizeOrder::Larger) <==> size_compare(a@, b@) > 0,
{
    let (da, x, lx) = significant_digits(a);
    let (db, y, ly) = significant_digits(b);
    let ca = size_group(&x, da);
    let cb = size_group(&y, db);
    if ca < cb {
        return SizeOrder::Smaller;
    } else if cb < ca {
        return SizeOrder::Larger;
    } else if ca != 1 {
        return lex_compare_chars(&x, &y);
    }
    let ghost sa = x@.subrange(lx as int, x@.len() as int);
    let ghost sb = y@.subrange(ly as int, y@.len() as int);
    let na = x.len() - lx;
    let nb = y.len() - ly;
    if na < nb {
        proof {
            assert(sb[0] == y@[ly as int]);
            lemma_leading_digit(sb);
            lemma_digits_bound(sa);
            lemma_pow10_monotonic(sa.len(), (sb.len() - 1) as nat);
        }
        return SizeOrder::Smaller;
    }
    if na > nb {
        proof {
            assert(sa[0] == x@[lx as int]);
            lemma_leading_digit(sa);
            lemma_digits_bound(sb);
            lemma_pow10_monotonic(sb.len(), (sa.len() - 1) as nat);
        }
        return SizeOrder::Larger;
    }
    let mut i: usize = 0;
    while i < na
        invariant
            na == nb,
            lx + na == x@.len() == x.len(),
            ly + nb == y@.len() == y.len(),
            i <= na,
            sa == x@.subrange(lx as int, x@.len() as int),
            sb == y@.subrange(ly as int, y@.len() as int),
            all_digits(sa),
            all_digits(sb),
            sa.subrange(0, i as int) == sb.subrange(0, i as int),
            size_value(a@) == digits_value(sa),
            size_value(b@) == digits_value(sb),
            all_digits(a@),
            all_digits(b@),
        decreases na - i,
    {
        let ca = x[lx + i];
        let cb = y[ly + i];
        assert(sa[i as int] == ca);
        assert(sb[i as int] == cb);
        if ca < cb {
            proof {
                lemma_first_difference(sa, sb, i as int);
            }
            return SizeOrder::Smaller;
        }
        if cb < ca {
            proof {
                lemma_first_difference(sb, sa, i as int);
            }
            return SizeOrder::Larger;
        }
        assert(sa.subrange(0, i + 1) =~= sa.subrange(0, i as int).push(ca));
        assert(sb.subrange(0, i + 1) =~= sb.subrange(0, i as int).push(cb));
        i = i + 1;
    }
    assert(sa =~= sa.subrange(0, na as int));
    assert(sb =~= sb.subrange(0, nb as int));
    SizeOrder::Same
}

} // verus!
