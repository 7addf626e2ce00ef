//! Splitting, joining and number formatting over characters.
use vstd::prelude::*;
use crate::text::{extend_chars, slice_chars};

verus! {

/// The views of a sequence of character vectors.
pub open spec fn views(v: Seq<Vec<char>>) -> Seq<Seq<char>> {
    v.map_values(|x: Vec<char>| x@)
}

pub proof fn lemma_views_push(v: Seq<Vec<char>>, x: Vec<char>)
    ensures
        views(v.push(x)) == views(v).push(x@),
{
    assert(views(v.push(x)) =~= views(v).push(x@));
}

pub proof fn lemma_views_empty()
    ensures
        views(Seq::<Vec<char>>::empty()) == Seq::<Seq<char>>::empty(),
{
    assert(views(Seq::<Vec<char>>::empty()) =~= Seq::<Seq<char>>::empty());
}

// ---------------------------------------------------------------------------
// Splitting on one separator character, as `str::split(char)` does.

pub open spec fn split_step(st: (Seq<Seq<char>>, Seq<char>), ch: char, sep: char) -> (
    Seq<Seq<char>>,
    Seq<char>,
) {
    if ch == sep {
        (st.0.push(st.1), Seq::empty())
    } else {
        (st.0, st.1.push(ch))
    }
}

pub open spec fn split_run(s: Seq<char>, sep: char, i: int, st: (Seq<Seq<char>>, Seq<char>)) -> (
    Seq<Seq<char>>,
    Seq<char>,
)
    decreases s.len() - i,
{
    if 0 <= i < s.len() {
        split_run(s, sep, i + 1, split_step(st, s[i], sep))
    } else {
        st
    }
}

/// The pieces of `s` between occurrences of `sep`: one more piece than
/// there are separators, empty pieces included.
pub open spec fn split_on(s: Seq<char>, sep: char) -> Seq<Seq<char>> {
    let st = split_run(s, sep, 0, (Seq::empty(), Seq::empty()));
    st.0.push(st.1)
}

pub fn split_on_char(s: &Vec<char>, sep: char) -> (r: Vec<Vec<char>>)
    ensures
        views(r@) == split_on(s@, sep),
{
    let mut parts: Vec<Vec<char>> = Vec::new();
    let mut cur: Vec<char> = Vec::new();
    let mut i: usize = 0;
    proof {
        lemma_views_empty();
    }
    while i < s.len()
        invariant
            i <= s@.len(),
            split_run(s@, sep, i as int, (views(parts@), cur@)) == split_run(
                s@,
                sep,
                0,
                (Seq::empty(), Seq::empty()),
            ),
        decreases s@.len() - i,
    {
        let ch = s[i];
        if ch == sep {
            proof {
                lemma_views_push(parts@, cur);
            }
            parts.push(cur);
            cur = Vec::new();
            assert(cur@ =~= Seq::<char>::empty());
        } else {
            cur.push(ch);
        }
        i = i + 1;
    }
    proof {
        lemma_views_push(parts@, cur);
    }
    parts.push(cur);
    parts
}

/// Lemma: the pieces already cut off are carried through unchanged.
pub proof fn lemma_split_run_acc(s: Seq<char>, sep: char, i: int, acc: Seq<Seq<char>>, cur: Seq<char>)
    requires
        0 <= i,
    ensures
        split_run(s, sep, i, (acc, cur)) == (
            acc + split_run(s, sep, i, (Seq::empty(), cur)).0,
            split_run(s, sep, i, (Seq::empty(), cur)).1,
        ),
    decreases s.len() - i,
{
    if i < s.len() {
        if s[i] == sep {
            lemma_split_run_acc(s, sep, i + 1, acc.push(cur), Seq::empty());
            lemma_split_run_acc(s, sep, i + 1, seq![cur], Seq::empty());
            let r = split_run(s, sep, i + 1, (Seq::empty(), Seq::empty()));
            assert(acc.push(cur) + r.0 =~= acc + (seq![cur] + r.0));
            assert(Seq::<Seq<char>>::empty().push(cur) =~= seq![cur]);
        } else {
            lemma_split_run_acc(s, sep, i + 1, acc, cur.push(s[i]));
        }
    } else {
        assert(acc + Seq::<Seq<char>>::empty() =~= acc);
    }
}

/// Lemma: running over `s` up to the end of a prefix `a` runs over `a`.
proof fn lemma_split_run_prefix(
    s: Seq<char>,
    a: Seq<char>,
    sep: char,
    i: int,
    st: (Seq<Seq<char>>, Seq<char>),
)
    requires
        0 <= i <= a.len() <= s.len(),
        forall|k: int| 0 <= k < a.len() ==> s[k] == a[k],
    ensures
        split_run(s, sep, i, st) == split_run(s, sep, a.len() as int, split_run(a, sep, i, st)),
    decreases a.len() - i,
{
    if i < a.len() {
        lemma_split_run_prefix(s, a, sep, i + 1, split_step(st, s[i], sep));
    }
}

/// Lemma: running over `s` from an offset runs over the suffix `b` there.
proof fn lemma_split_run_suffix(
    s: Seq<char>,
    b: Seq<char>,
    sep: char,
    off: int,
    k: int,
    st: (Seq<Seq<char>>, Seq<char>),
)
    requires
        0 <= off,
        0 <= k <= b.len(),
        s.len() == off + b.len(),
        forall|j: int| 0 <= j < b.len() ==> s[off + j] == b[j],
    ensures
        split_run(s, sep, off + k, st) == split_run(b, sep, k, st),
    decreases b.len() - k,
{
    if k < b.len() {
        assert(s[off + k] == b[k]);
        lemma_split_run_suffix(s, b, sep, off, k + 1, split_step(st, b[k], sep));
    }
}

/// Lemma: cutting `a`, a separator and `b` gives the pieces of `a` then those of `b`.
pub proof fn lemma_split_on_concat(a: Seq<char>, b: Seq<char>, sep: char)
    ensures
        split_on(a + seq![sep] + b, sep) == split_on(a, sep) + split_on(b, sep),
{
    let s = a + seq![sep] + b;
    let e = (Seq::<Seq<char>>::empty(), Seq::<char>::empty());
    lemma_split_run_prefix(s, a, sep, 0, e);
    let pa = split_run(a, sep, 0, e);
    assert(s[a.len() as int] == sep);
    let p = pa.0.push(pa.1);
    assert forall|j: int| 0 <= j < b.len() implies s[a.len() + 1 + j] == b[j] by {}
    lemma_split_run_suffix(s, b, sep, (a.len() + 1) as int, 0, (p, Seq::empty()));
    lemma_split_run_acc(b, sep, 0, p, Seq::empty());
    let rb = split_run(b, sep, 0, e);
    assert(p + rb.0.push(rb.1) =~= (p + rb.0).push(rb.1));
}

/// Lemma: a text without the separator is one piece.
pub proof fn lemma_split_on_none(a: Seq<char>, sep: char)
    requires
        !a.contains(sep),
    ensures
        split_on(a, sep) == seq![a],
{
    let e = (Seq::<Seq<char>>::empty(), Seq::<char>::empty());
    lemma_split_run_plain(a, sep, 0, Seq::empty());
    assert(Seq::<char>::empty() + a.skip(0) =~= a);
    assert(Seq::<Seq<char>>::empty().push(a) =~= seq![a]);
}

proof fn lemma_split_run_plain(a: Seq<char>, sep: char, i: int, cur: Seq<char>)
    requires
        0 <= i <= a.len(),
        !a.contains(sep),
    ensures
        split_run(a, sep, i, (Seq::empty(), cur)) == (Seq::<Seq<char>>::empty(), cur + a.skip(i)),
    decreases a.len() - i,
{
    if i < a.len() {
        assert(a[i] != sep);
        lemma_split_run_plain(a, sep, i + 1, cur.push(a[i]));
        assert(cur.push(a[i]) + a.skip(i + 1) =~= cur + a.skip(i));
    } else {
        assert(cur + a.skip(i) =~= cur);
    }
}

/// Lemma: cutting joined pieces that hold no separator gives the pieces back.
pub proof fn lemma_split_join(parts: Seq<Seq<char>>, sep: char)
    requires
        parts.len() >= 1,
        forall|k: int| 0 <= k < parts.len() ==> !(#[trigger] parts[k]).contains(sep),
    ensures
        split_on(join(parts, seq![sep]), sep) == parts,
    decreases parts.len(),
{
    if parts.len() == 1 {
        lemma_split_on_none(parts[0], sep);
        assert(parts =~= seq![parts[0]]);
    } else {
        let d = parts.drop_last();
        assert forall|k: int| 0 <= k < d.len() implies !(#[trigger] d[k]).contains(sep) by {
            assert(d[k] == parts[k]);
        }
        lemma_split_join(d, sep);
        lemma_split_on_concat(join(d, seq![sep]), parts.last(), sep);
        assert(!parts[parts.len() - 1].contains(sep));
        lemma_split_on_none(parts.last(), sep);
        assert(d + seq![parts.last()] =~= parts);
    }
}

// ---------------------------------------------------------------------------
// Joining.

/// The pieces of `parts` with `sep` between consecutive ones.
pub open spec fn join(parts: Seq<Seq<char>>, sep: Seq<char>) -> Seq<char>
    decreases parts.len(),
{
    if parts.len() == 0 {
        Seq::empty()
    } else if parts.len() == 1 {
        parts[0]
    } else {
        join(parts.drop_last(), sep) + sep + parts.last()
    }
}

pub fn join_chars(parts: &Vec<Vec<char>>, sep: &Vec<char>) -> (r: Vec<char>)
    ensures
        r@ == join(views(parts@), sep@),
{
    let mut r: Vec<char> = Vec::new();
    let mut i: usize = 0;
    while i < parts.len()
        invariant
            i <= parts@.len(),
            r@ == join(views(parts@).take(i as int), sep@),
        decreases parts@.len() - i,
    {
        let ghost before = r@;
        if i > 0 {
            extend_chars(&mut r, sep);
        }
        extend_chars(&mut r, &parts[i]);
        proof {
            let t = views(parts@).take(i + 1);
            assert(t.drop_last() =~= views(parts@).take(i as int));
            assert(t.last() == parts@[i as int]@);
            if i == 0 {
                assert(before =~= Seq::<char>::empty());
                assert(r@ =~= t[0]);
            }
        }
        i = i + 1;
    }
    assert(views(parts@).take(parts@.len() as int) =~= views(parts@));
    r
}

// ---------------------------------------------------------------------------
// Decimal formatting of unsigned integers, as `Display` writes them.

pub open spec fn digit_char(d: nat) -> char {
    ((48 + d) as u8) as char
}

pub open spec fn decimal(n: nat) -> Seq<char>
    decreases n,
{
    if n < 10 {
        seq![digit_char(n)]
    } else {
        decimal(n / 10).push(digit_char(n % 10))
    }
}

pub fn decimal_chars(n: u64) -> (r: Vec<char>)
    ensures
        r@ == decimal(n as nat),
    decreases n,
{
    if n < 10 {
        let d: u8 = n as u8;
        let mut r: Vec<char> = Vec::new();
        r.push((48u8 + d) as char);
        assert(r@ =~= seq![digit_char(n as nat)]);
        r
    } else {
        let mut r = decimal_chars(n / 10);
        let d: u8 = (n % 10) as u8;
        r.push((48u8 + d) as char);
        r
    }
}

/// The decimal text of a signed integer, with a leading `-` when negative.
pub open spec fn signed_decimal(n: int) -> Seq<char> {
    if n < 0 {
        seq!['-'] + decimal((-n) as nat)
    } else {
        decimal(n as nat)
    }
}

pub fn signed_decimal_chars(n: i64) -> (r: Vec<char>)
    ensures
        r@ == signed_decimal(n as int),
{
    if n < 0 {
        let m: u64 = (-(n as i128)) as u64;
        let d = decimal_chars(m);
        let mut r: Vec<char> = Vec::new();
        r.push('-');
        extend_chars(&mut r, &d);
        assert(r@ =~= seq!['-'] + decimal((-n) as nat));
        r
    } else {
        decimal_chars(n as u64)
    }
}

// ---------------------------------------------------------------------------
// Words separated by white space, as `str::split_whitespace` gives them.

pub open spec fn ws_step(st: (Seq<Seq<char>>, Seq<char>), ch: char) -> (Seq<Seq<char>>, Seq<char>) {
    if crate::text::is_ws(ch) {
        if st.1.len() > 0 {
            (st.0.push(st.1), Seq::empty())
        } else {
            st
        }
    } else {
        (st.0, st.1.push(ch))
    }
}

pub open spec fn ws_run(s: Seq<char>, i: int, st: (Seq<Seq<char>>, Seq<char>)) -> (
    Seq<Seq<char>>,
    Seq<char>,
)
    decreases s.len() - i,
{
    if 0 <= i < s.len() {
        ws_run(s, i + 1, ws_step(st, s[i]))
    } else {
        st
    }
}

/// The non-empty runs of `s` between white space, in order.
pub open spec fn split_ws(s: Seq<char>) -> Seq<Seq<char>> {
    let st = ws_run(s, 0, (Seq::empty(), Seq::empty()));
    if st.1.len() > 0 {
        st.0.push(st.1)
    } else {
        st.0
    }
}

pub fn split_whitespace_chars(s: &Vec<char>) -> (r: Vec<Vec<char>>)
    ensures
        views(r@) == split_ws(s@),
{
    let mut parts: Vec<Vec<char>> = Vec::new();
    let mut cur: Vec<char> = Vec::new();
    let mut i: usize = 0;
    proof {
        lemma_views_empty();
    }
    while i < s.len()
        invariant
            i <= s@.len(),
            ws_run(s@, i as int, (views(parts@), cur@)) == ws_run(s@, 0, (Seq::empty(), Seq::empty())),
        decreases s@.len() - i,
    {
        let ch = s[i];
        if crate::text::is_whitespace_char(ch) {
            if cur.len() > 0 {
                proof {
                    lemma_views_push(parts@, cur);
                }
                parts.push(cur);
                cur = Vec::new();
                assert(cur@ =~= Seq::<char>::empty());
            }
        } else {
            cur.push(ch);
        }
        i = i + 1;
    }
    if cur.len() > 0 {
        proof {
            lemma_views_push(parts@, cur);
        }
        parts.push(cur);
    }
    parts
}

// ---------------------------------------------------------------------------
// Unsigned decimal numbers, as `u32::from_str` reads them.

pub open spec fn is_digit(c: char) -> bool {
    '0' <= c && c <= '9'
}

pub open spec fn digits_value(d: Seq<char>) -> nat
    decreases d.len(),
{
    if d.len() == 0 {
        0
    } else {
        digits_value(d.drop_last()) * 10 + ((d.last() as u32) - 48) as nat
    }
}

/// `s` without a leading `+` that is followed by more.
pub open spec fn unsigned_digits(s: Seq<char>) -> Seq<char> {
    if s.len() > 1 && s[0] == '+' {
        s.drop_first()
    } else {
        s
    }
}

pub open spec fn all_digits(d: Seq<char>) -> bool {
    forall|i: int| 0 <= i < d.len() ==> is_digit(#[trigger] d[i])
}

/// The number that `s` writes in decimal, with an optional leading `+`,
/// if it is one that fits in 32 bits.
pub open spec fn parse_u32(s: Seq<char>) -> Option<u32> {
    let d = unsigned_digits(s);
    if d.len() > 0 && all_digits(d) && digits_value(d) <= u32::MAX {
        Some(digits_value(d) as u32)
    } else {
        None
    }
}

proof fn lemma_digits_value_grows(d: Seq<char>, i: int)
    requires
        0 <= i <= d.len(),
        all_digits(d),
    ensures
        digits_value(d.take(i)) <= digits_value(d),
    decreases d.len() - i,
{
    if i < d.len() {
        lemma_digits_value_grows(d, i + 1);
        assert(d.take(i + 1).drop_last() =~= d.take(i));
    } else {
        assert(d.take(i) =~= d);
    }
}

pub fn parse_u32_chars(s: &Vec<char>) -> (r: Option<u32>)
    ensures
        r == parse_u32(s@),
{
    let start: usize = if s.len() > 1 && s[0] == '+' {
        1
    } else {
        0
    };
    let ghost d = unsigned_digits(s@);
    assert(d =~= s@.skip(start as int));
    if start >= s.len() {
        return None;
    }
    let mut v: u64 = 0;
    let mut i: usize = start;
    while i < s.len()
        invariant
            start <= i <= s@.len(),
            d =~= s@.skip(start as int),
            d == unsigned_digits(s@),
            forall|k: int| 0 <= k < i - start ==> is_digit(#[trigger] d[k]),
            v as nat == digits_value(d.take(i - start)),
            v <= u32::MAX,
        decreases s@.len() - i,
    {
        let c = s[i];
        if !('0' <= c && c <= '9') {
            assert(!is_digit(d[i - start]));
            assert(!all_digits(d));
            return None;
        }
        proof {
            assert(d.take(i - start + 1).drop_last() =~= d.take(i - start));
            assert(d.take(i - start + 1).last() == c);
        }
        let dig: u64 = ((c as u32) - 48) as u64;
        v = v * 10 + dig;
        i = i + 1;
        if v > 0xffff_ffff {
            proof {
                if all_digits(d) {
                    lemma_digits_value_grows(d, i - start);
                }
            }
            return None;
        }
    }
    assert(d.take(d.len() as int) =~= d);
    Some(v as u32)
}


/// The number that `s` writes in decimal, with an optional leading `+` or
/// `-`, if it is one that fits in a signed 32-bit integer.
pub open spec fn parse_i32(s: Seq<char>) -> Option<i32> {
    if s.len() > 1 && s[0] == '-' {
        let d = s.drop_first();
        if all_digits(d) && digits_value(d) <= 0x8000_0000 {
            Some((-(digits_value(d) as int)) as i32)
        } else {
            None
        }
    } else {
        match parse_u32(s) {
            Some(v) => if v <= 0x7fff_ffff {
                Some(v as i32)
            } else {
                None
            },
            None => None,
        }
    }
}

pub fn parse_i32_chars(s: &Vec<char>) -> (r: Option<i32>)
    ensures
        r == parse_i32(s@),
{
    if s.len() > 1 && s[0] == '-' {
        let rest = slice_chars(s, 1, s.len());
        assert(rest@ =~= s@.drop_first());
        if rest[0] == '+' {
            assert(!is_digit(rest@[0]));
            return None;
        }
        assert(unsigned_digits(rest@) == rest@);
        match parse_u32_chars(&rest) {
            Some(v) => if v <= 0x8000_0000 {
                let w: i64 = -(v as i64);
                Some(w as i32)
            } else {
                None
            },
            None => None,
        }
    } else {
        match parse_u32_chars(s) {
            Some(v) => if v <= 0x7fff_ffff {
                Some(v as i32)
            } else {
                None
            },
            None => None,
        }
    }
}


/// The decimal of `n` is a nonempty run of digits whose value is `n`.
pub proof fn lemma_decimal_digits(n: nat)
    ensures
        decimal(n).len() > 0,
        all_digits(decimal(n)),
        digits_value(decimal(n)) == n,
    decreases n,
{
    let d: nat = n % 10;
    let c = digit_char(d);
    assert(c as u32 == 48 + d) by {
        let b: u8 = (48 + d) as u8;
        assert(b == 48 + d);
        assert(b as char as u32 == b as u32);
    }
    if n < 10 {
        assert(decimal(n).drop_last() =~= Seq::<char>::empty());
        assert(decimal(n).last() == c);
        assert(digits_value(decimal(n)) == digits_value(decimal(n).drop_last()) * 10 + ((c as u32)
            - 48) as nat);
    } else {
        lemma_decimal_digits(n / 10);
        let s = decimal(n / 10).push(c);
        assert(s.drop_last() =~= decimal(n / 10));
        assert(s.last() == c);
        assert(digits_value(s) == (n / 10) * 10 + d);
        assert forall|i: int| 0 <= i < s.len() implies is_digit(#[trigger] s[i]) by {
            if i < s.len() - 1 {
                assert(s[i] == decimal(n / 10)[i]);
            }
        }
    }
}

/// Parsing the decimal that `Display` writes for an `i32` gives it back.
pub proof fn lemma_parse_i32_signed_decimal(n: i32)
    ensures
        parse_i32(signed_decimal(n as int)) == Some(n),
{
    if n < 0 {
        let m: nat = (-(n as int)) as nat;
        lemma_decimal_digits(m);
        let s = signed_decimal(n as int);
        assert(s.drop_first() =~= decimal(m));
    } else {
        lemma_decimal_digits(n as nat);
        let s = decimal(n as nat);
        assert(is_digit(s[0]));
        assert(unsigned_digits(s) == s);
    }
}

} // verus!
