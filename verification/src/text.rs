//! Character-level helpers for building text.
use vstd::prelude::*;

verus! {

broadcast use vstd::string::group_string_axioms;

/// Appends one character to a string.
///
/// Calls `String::push`, which the standard library documents as appending
/// the given `char` to the end of the string.
#[verifier::external_body]
pub fn push_char(s: &mut String, c: char)
    ensures
        final(s)@ == old(s)@.push(c),
{
    s.push(c);
}

/// The characters of a string slice, in order.
pub fn chars_of(s: &str) -> (v: Vec<char>)
    ensures
        v@ == s@,
{
    let mut v: Vec<char> = Vec::new();
    for c in it: s.chars()
        invariant
            it.seq() == s@,
            v@ == s@.take(it.index()),
    {
        v.push(c);
    }
    assert(v@ =~= s@);
    v
}


/// `s` with every non-overlapping occurrence of `pat`, scanned from left to
/// right, replaced by `rep`.
pub open spec fn replaced(s: Seq<char>, pat: Seq<char>, rep: Seq<char>) -> Seq<char>
    decreases s.len(),
{
    if s.len() == 0 {
        Seq::empty()
    } else if 0 < pat.len() <= s.len() && s.take(pat.len() as int) == pat {
        rep + replaced(s.skip(pat.len() as int), pat, rep)
    } else {
        seq![s[0]] + replaced(s.skip(1), pat, rep)
    }
}

/// Whether `pat` occurs in `s` starting at index `i`.
pub open spec fn occurs_at(s: Seq<char>, pat: Seq<char>, i: int) -> bool {
    0 <= i && i + pat.len() <= s.len() && s.subrange(i, i + pat.len()) == pat
}

fn occurs_at_exec(s: &Vec<char>, pat: &Vec<char>, i: usize) -> (r: bool)
    requires
        i <= s.len(),
    ensures
        r == occurs_at(s@, pat@, i as int),
{
    if pat.len() > s.len() - i {
        return false;
    }
    let mut k: usize = 0;
    while k < pat.len()
        invariant
            i + pat.len() <= s.len(),
            k <= pat.len(),
            forall|j: int| 0 <= j < k ==> s@[i + j] == pat@[j],
        decreases pat.len() - k,
    {
        if s[i + k] != pat[k] {
            assert(s@.subrange(i as int, i + pat.len())[k as int] != pat@[k as int]);
            return false;
        }
        k = k + 1;
    }
    assert(s@.subrange(i as int, i + pat.len()) =~= pat@);
    true
}

/// `s` with every occurrence of `pat` replaced by `rep`, as `str::replace`
/// does for a non-empty pattern.
pub fn replace(s: &str, pat: &str, rep: &str) -> (r: String)
    requires
        pat@.len() > 0,
    ensures
        r@ == replaced(s@, pat@, rep@),
{
    let cs = chars_of(s);
    let ps = chars_of(pat);
    let mut r = String::new();
    let mut i: usize = 0;
    assert(cs@.skip(0) =~= cs@);
    assert(r@ + replaced(cs@, ps@, rep@) =~= replaced(cs@, ps@, rep@));
    while i < cs.len()
        invariant
            i <= cs.len(),
            cs@ == s@,
            ps@ == pat@,
            ps@.len() > 0,
            r@ + replaced(cs@.skip(i as int), ps@, rep@) == replaced(cs@, ps@, rep@),
        decreases cs.len() - i,
    {
        let ghost rest = cs@.skip(i as int);
        if occurs_at_exec(&cs, &ps, i) {
            assert(rest.take(ps@.len() as int) =~= cs@.subrange(i as int, i + ps@.len()));
            assert(rest.skip(ps@.len() as int) =~= cs@.skip(i + ps@.len()));
            r.append(rep);
            i = i + ps.len();
        } else {
            proof {
                if ps@.len() <= rest.len() {
                    assert(rest.take(ps@.len() as int) =~= cs@.subrange(i as int, i + ps@.len()));
                }
            }
            assert(rest.skip(1) =~= cs@.skip(i + 1));
            push_char(&mut r, cs[i]);
            i = i + 1;
        }
        assert(r@ + replaced(cs@.skip(i as int), ps@, rep@) =~= replaced(cs@, ps@, rep@));
    }
    assert(cs@.skip(i as int) =~= Seq::<char>::empty());
    assert(r@ + Seq::<char>::empty() =~= r@);
    r
}

/// The decimal digit for `d`, which is below ten.
pub open spec fn digit_char(d: int) -> char {
    if d == 0 {
        '0'
    } else if d == 1 {
        '1'
    } else if d == 2 {
        '2'
    } else if d == 3 {
        '3'
    } else if d == 4 {
        '4'
    } else if d == 5 {
        '5'
    } else if d == 6 {
        '6'
    } else if d == 7 {
        '7'
    } else if d == 8 {
        '8'
    } else {
        '9'
    }
}

/// The decimal numeral of `n`, without leading zeros.
pub open spec fn decimal(n: nat) -> Seq<char>
    decreases n,
{
    if n < 10 {
        seq![digit_char(n as int)]
    } else {
        decimal(n / 10).push(digit_char((n % 10) as int))
    }
}

/// The decimal numeral of `n`, with a leading `-` when it is negative.
pub open spec fn signed_decimal(n: int) -> Seq<char> {
    if n < 0 {
        seq!['-'] + decimal((-n) as nat)
    } else {
        decimal(n as nat)
    }
}

fn digit(d: u64) -> (c: char)
    requires
        d < 10,
    ensures
        c == digit_char(d as int),
{
    if d == 0 {
        '0'
    } else if d == 1 {
        '1'
    } else if d == 2 {
        '2'
    } else if d == 3 {
        '3'
    } else if d == 4 {
        '4'
    } else if d == 5 {
        '5'
    } else if d == 6 {
        '6'
    } else if d == 7 {
        '7'
    } else if d == 8 {
        '8'
    } else {
        '9'
    }
}

/// Appends the decimal numeral of `n`.
pub fn push_decimal(s: &mut String, n: u64)
    ensures
        final(s)@ == old(s)@ + decimal(n as nat),
    decreases n,
{
    if n >= 10 {
        push_decimal(s, n / 10);
        push_char(s, digit(n % 10));
        assert(final(s)@ =~= old(s)@ + decimal(n as nat));
    } else {
        push_char(s, digit(n));
        assert(final(s)@ =~= old(s)@ + decimal(n as nat));
    }
}

/// Appends the decimal numeral of `n`, with a leading `-` when it is negative.
pub fn push_signed_decimal(s: &mut String, n: i64)
    ensures
        final(s)@ == old(s)@ + signed_decimal(n as int),
{
    if n < 0 {
        push_char(s, '-');
        let magnitude: u64 = (0i128 - n as i128) as u64;
        push_decimal(s, magnitude);
        assert(final(s)@ =~= old(s)@ + signed_decimal(n as int));
    } else {
        push_decimal(s, n as u64);
    }
}

/// Whether `a` sorts after `b` in the order of `String`'s `Ord`: character
/// by character by code point, a proper prefix sorting first. (Comparing the
/// UTF-8 bytes, as `String` does, gives the same order.)
pub open spec fn lex_after(a: Seq<char>, b: Seq<char>) -> bool
    decreases a.len(),
{
    if a.len() == 0 {
        false
    } else if b.len() == 0 {
        true
    } else if a[0] != b[0] {
        (a[0] as u32) > (b[0] as u32)
    } else {
        lex_after(a.drop_first(), b.drop_first())
    }
}

/// No text sorts after itself.
pub proof fn lemma_lex_after_irreflexive(a: Seq<char>)
    ensures
        !lex_after(a, a),
    decreases a.len(),
{
    if a.len() > 0 {
        lemma_lex_after_irreflexive(a.drop_first());
    }
}

/// Of two different texts, exactly one sorts after the other.
pub proof fn lemma_lex_after_total(a: Seq<char>, b: Seq<char>)
    ensures
        a != b ==> (lex_after(a, b) || lex_after(b, a)),
        !(lex_after(a, b) && lex_after(b, a)),
    decreases a.len(),
{
    if a.len() > 0 && b.len() > 0 {
        lemma_lex_after_total(a.drop_first(), b.drop_first());
        if a != b && a[0] == b[0] {
            assert(a =~= seq![a[0]] + a.drop_first());
            assert(b =~= seq![b[0]] + b.drop_first());
        }
        if a[0] != b[0] {
            vstd::utf8::char_u32_cast(a[0], a[0] as u32);
            vstd::utf8::char_u32_cast(b[0], b[0] as u32);
        }
    } else if a.len() == 0 && b.len() == 0 {
        assert(a =~= b);
    }
}

/// Sorting after is transitive.
pub proof fn lemma_lex_after_transitive(a: Seq<char>, b: Seq<char>, c: Seq<char>)
    requires
        lex_after(a, b),
        lex_after(b, c),
    ensures
        lex_after(a, c),
    decreases a.len(),
{
    if a.len() > 0 && b.len() > 0 && c.len() > 0 && a[0] == b[0] && b[0] == c[0] {
        lemma_lex_after_transitive(a.drop_first(), b.drop_first(), c.drop_first());
    }
}

/// Whether `a` sorts after `b`, as `String`'s `Ord` decides.
pub fn lex_after_exec(a: &str, b: &str) -> (r: bool)
    ensures
        r == lex_after(a@, b@),
{
    let x = chars_of(a);
    let y = chars_of(b);
    let mut i: usize = 0;
    assert(x@.skip(0) =~= x@);
    assert(y@.skip(0) =~= y@);
    while i < x.len() && i < y.len() && x[i] == y[i]
        invariant
            x@ == a@,
            y@ == b@,
            i <= x.len(),
            i <= y.len(),
            lex_after(x@.skip(i as int), y@.skip(i as int)) == lex_after(a@, b@),
        decreases x.len() - i,
    {
        assert(x@.skip(i as int).drop_first() =~= x@.skip(i + 1));
        assert(y@.skip(i as int).drop_first() =~= y@.skip(i + 1));
        i = i + 1;
    }
    if i == x.len() {
        false
    } else if i == y.len() {
        true
    } else {
        (x[i] as u32) > (y[i] as u32)
    }
}

/// Whether two string slices hold the same text.
pub fn same_text(a: &str, b: &str) -> (r: bool)
    ensures
        r == (a@ == b@),
{
    let x = chars_of(a);
    let y = chars_of(b);
    if x.len() != y.len() {
        return false;
    }
    let mut i: usize = 0;
    while i < x.len()
        invariant
            x@ == a@,
            y@ == b@,
            x.len() == y.len(),
            i <= x.len(),
            forall|j: int| 0 <= j < i ==> x@[j] == y@[j],
        decreases x.len() - i,
    {
        if x[i] != y[i] {
            return false;
        }
        i = i + 1;
    }
    assert(x@ =~= y@);
    true
}

/// Replacing a single character distributes over concatenation.
pub proof fn lemma_replaced_char_concat(a: Seq<char>, b: Seq<char>, x: char, rep: Seq<char>)
    ensures
        replaced(a + b, seq![x], rep) == replaced(a, seq![x], rep) + replaced(b, seq![x], rep),
    decreases a.len(),
{
    let p = seq![x];
    if a.len() == 0 {
        assert(a + b =~= b);
        assert(replaced(a, p, rep) =~= Seq::<char>::empty());
        assert(replaced(a, p, rep) + replaced(b, p, rep) =~= replaced(b, p, rep));
    } else {
        lemma_replaced_char_concat(a.skip(1), b, x, rep);
        assert((a + b).skip(1) =~= a.skip(1) + b);
        assert((a + b).take(1) =~= a.take(1));
        assert(a.take(1) =~= seq![a[0]]);
        if a[0] == x {
            assert(a.take(1) == p);
            assert(replaced(a + b, p, rep) =~= rep + replaced(a.skip(1) + b, p, rep));
            assert(replaced(a, p, rep) =~= rep + replaced(a.skip(1), p, rep));
        } else {
            assert(a.take(1) != p) by {
                assert(a.take(1)[0] != p[0]);
            }
            assert(replaced(a + b, p, rep) =~= seq![a[0]] + replaced(a.skip(1) + b, p, rep));
            assert(replaced(a, p, rep) =~= seq![a[0]] + replaced(a.skip(1), p, rep));
        }
    }
}

/// Replacing a single character in a one-character text.
pub proof fn lemma_replaced_char_single(c: char, x: char, rep: Seq<char>)
    ensures
        replaced(seq![c], seq![x], rep) == if c == x {
            rep
        } else {
            seq![c]
        },
{
    let s = seq![c];
    assert(s.take(1) =~= s);
    assert(s.skip(1) =~= Seq::<char>::empty());
    assert(replaced(Seq::<char>::empty(), seq![x], rep) =~= Seq::<char>::empty());
    if c == x {
        assert(s.take(1) =~= seq![x]);
        assert(replaced(s, seq![x], rep) =~= rep + Seq::<char>::empty());
    } else {
        assert(s.take(1) != seq![x]) by {
            assert(s.take(1)[0] != seq![x][0]);
        }
        assert(replaced(s, seq![x], rep) =~= seq![c] + Seq::<char>::empty());
    }
}

/// Replacing a character that does not occur changes nothing.
pub proof fn lemma_replaced_char_absent(s: Seq<char>, x: char, rep: Seq<char>)
    requires
        forall|i: int| 0 <= i < s.len() ==> s[i] != x,
    ensures
        replaced(s, seq![x], rep) == s,
    decreases s.len(),
{
    if s.len() > 0 {
        assert forall|i: int| 0 <= i < s.skip(1).len() implies s.skip(1)[i] != x by {
            assert(s.skip(1)[i] == s[i + 1]);
        }
        lemma_replaced_char_absent(s.skip(1), x, rep);
        assert(s.take(1) != seq![x]) by {
            assert(s.take(1)[0] != seq![x][0]);
        }
        assert(replaced(s, seq![x], rep) =~= s);
    }
}

/// Whether `t` occurs in `s` as a contiguous run.
pub open spec fn has_infix(s: Seq<char>, t: Seq<char>) -> bool {
    exists|i: int| 0 <= i && i + t.len() <= s.len() && #[trigger] s.subrange(i, i + t.len()) == t
}

/// Whether `s` ends with `t`.
pub open spec fn has_suffix(s: Seq<char>, t: Seq<char>) -> bool {
    t.len() <= s.len() && s.subrange(s.len() - t.len(), s.len() as int) == t
}

/// Whether `s` starts with `t`.
pub open spec fn has_prefix(s: Seq<char>, t: Seq<char>) -> bool {
    t.len() <= s.len() && s.subrange(0, t.len() as int) == t
}

/// A text made of three parts holds its middle part.
pub proof fn lemma_infix(p: Seq<char>, t: Seq<char>, q: Seq<char>)
    ensures
        has_infix(p + t + q, t),
{
    assert((p + t + q).subrange(p.len() as int, (p.len() + t.len()) as int) =~= t);
}

/// A text ends with its last part.
pub proof fn lemma_suffix(p: Seq<char>, t: Seq<char>)
    ensures
        has_suffix(p + t, t),
{
    assert((p + t).subrange(p.len() as int, (p + t).len() as int) =~= t);
}

/// A text starts with its first part.
pub proof fn lemma_prefix(t: Seq<char>, q: Seq<char>)
    ensures
        has_prefix(t + q, t),
{
    assert((t + q).subrange(0, t.len() as int) =~= t);
}

/// The number that a string of decimal digits stands for.
pub open spec fn numeral_value(s: Seq<char>) -> int
    decreases s.len(),
{
    if s.len() == 0 {
        0
    } else {
        numeral_value(s.drop_last()) * 10 + ((s.last() as u32) - 48)
    }
}

proof fn lemma_digit_char(d: int)
    requires
        0 <= d < 10,
    ensures
        (digit_char(d) as u32) == 48 + d,
        '0' <= digit_char(d) <= '9',
{
    assert(('0' as u32) == 48);
    assert(('1' as u32) == 49);
    assert(('2' as u32) == 50);
    assert(('3' as u32) == 51);
    assert(('4' as u32) == 52);
    assert(('5' as u32) == 53);
    assert(('6' as u32) == 54);
    assert(('7' as u32) == 55);
    assert(('8' as u32) == 56);
    assert(('9' as u32) == 57);
}

/// The decimal numeral of `n` is made of the digits `0` to `9`, stands for
/// `n`, and has no leading zero.
pub proof fn law_decimal(n: nat)
    ensures
        decimal(n).len() > 0,
        forall|i: int| 0 <= i < decimal(n).len() ==> '0' <= #[trigger] decimal(n)[i] <= '9',
        numeral_value(decimal(n)) == n,
        decimal(n)[0] == '0' ==> n == 0,
        signed_decimal(-(n as int)) == (if n == 0 { decimal(0) } else { seq!['-'] + decimal(n) }),
    decreases n,
{
    if n < 10 {
        lemma_digit_char(n as int);
        assert(decimal(n).drop_last() =~= Seq::<char>::empty());
        assert(numeral_value(Seq::<char>::empty()) == 0);
        assert(numeral_value(decimal(n)) == n);
    } else {
        lemma_digit_char((n % 10) as int);
        law_decimal(n / 10);
        let p = decimal(n / 10);
        assert(decimal(n).drop_last() =~= p);
        assert(decimal(n).last() == digit_char((n % 10) as int));
        assert((n / 10) * 10 + n % 10 == n);
        assert(numeral_value(decimal(n)) == numeral_value(p) * 10 + ((decimal(n).last() as u32) - 48));
        assert forall|i: int| 0 <= i < decimal(n).len() implies '0' <= #[trigger] decimal(n)[i] <= '9' by {
            if i < p.len() {
                assert(decimal(n)[i] == p[i]);
            }
        }
        assert(decimal(n)[0] == p[0]);
    }
}

/// Replacing a pattern: text without an occurrence of it is unchanged; an
/// occurrence at the front is replaced and the rest replaced after it;
/// otherwise the first character is kept and the rest replaced after it.
pub proof fn law_replaced(s: Seq<char>, pat: Seq<char>, rep: Seq<char>)
    requires
        pat.len() > 0,
    ensures
        (forall|i: int| 0 <= i ==> !#[trigger] occurs_at(s, pat, i)) ==> replaced(s, pat, rep) == s,
        occurs_at(s, pat, 0) ==> replaced(s, pat, rep) == rep + replaced(s.skip(pat.len() as int), pat, rep),
        s.len() > 0 && !occurs_at(s, pat, 0) ==> replaced(s, pat, rep) == seq![s[0]] + replaced(
            s.skip(1),
            pat,
            rep,
        ),
    decreases s.len(),
{
    if s.len() > 0 {
        assert(s.take(pat.len() as int) =~= s.subrange(0, pat.len() as int));
        law_replaced(s.skip(1), pat, rep);
        if forall|i: int| 0 <= i ==> !#[trigger] occurs_at(s, pat, i) {
            assert forall|i: int| 0 <= i implies !#[trigger] occurs_at(s.skip(1), pat, i) by {
                if occurs_at(s.skip(1), pat, i) {
                    assert(s.subrange(i + 1, i + 1 + pat.len()) =~= s.skip(1).subrange(i, i + pat.len()));
                    assert(occurs_at(s, pat, i + 1));
                }
            }
            assert(!occurs_at(s, pat, 0));
            assert(replaced(s, pat, rep) =~= s);
        }
    }
}

/// Text sorts after other text exactly when, after their longest common
/// beginning, it has a character with a greater code, or it goes on where
/// the other ends.
pub proof fn law_lex_after(a: Seq<char>, b: Seq<char>)
    ensures
        lex_after(a, b) <==> exists|k: int|
            0 <= k <= a.len() && k <= b.len() && #[trigger] a.take(k) == b.take(k) && ((k == b.len()
                && k < a.len()) || (k < a.len() && k < b.len() && (a[k] as u32) > (b[k] as u32))),
    decreases a.len(),
{
    if a.len() == 0 {
        if lex_after(a, b) {
        }
        assert forall|k: int| 0 <= k <= a.len() && k <= b.len() && #[trigger] a.take(k) == b.take(k)
            implies !((k == b.len() && k < a.len()) || (k < a.len() && k < b.len() && (a[k] as u32) > (
            b[k] as u32))) by {}
    } else if b.len() == 0 {
        assert(a.take(0) =~= b.take(0));
    } else if a[0] != b[0] {
        assert(a.take(0) =~= b.take(0));
        assert forall|k: int| 0 <= k <= a.len() && k <= b.len() && #[trigger] a.take(k) == b.take(k)
            implies k == 0 by {
            if k > 0 {
                assert(a.take(k)[0] == b.take(k)[0]);
            }
        }
    } else {
        law_lex_after(a.drop_first(), b.drop_first());
        let a1 = a.drop_first();
        let b1 = b.drop_first();
        if lex_after(a, b) {
            let k = choose|k: int|
                0 <= k <= a1.len() && k <= b1.len() && #[trigger] a1.take(k) == b1.take(k) && ((k
                    == b1.len() && k < a1.len()) || (k < a1.len() && k < b1.len() && (a1[k] as u32) > (
                b1[k] as u32)));
            assert(a.take(k + 1) =~= seq![a[0]] + a1.take(k));
            assert(b.take(k + 1) =~= seq![b[0]] + b1.take(k));
        }
        if exists|k: int|
            0 <= k <= a.len() && k <= b.len() && #[trigger] a.take(k) == b.take(k) && ((k == b.len()
                && k < a.len()) || (k < a.len() && k < b.len() && (a[k] as u32) > (b[k] as u32))) {
            let k = choose|k: int|
                0 <= k <= a.len() && k <= b.len() && #[trigger] a.take(k) == b.take(k) && ((k
                    == b.len() && k < a.len()) || (k < a.len() && k < b.len() && (a[k] as u32) > (
                b[k] as u32)));
            if k == 0 {
                vstd::utf8::char_u32_cast(a[0], a[0] as u32);
                vstd::utf8::char_u32_cast(b[0], b[0] as u32);
            } else {
                assert(a1.take(k - 1) =~= a.take(k).drop_first());
                assert(b1.take(k - 1) =~= b.take(k).drop_first());
                assert(a1[k - 1] == a[k]);
            }
        }
    }
}

} // verus!
