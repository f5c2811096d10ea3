//! Text primitives. Every string is modelled by its view, a `Seq<char>`;
//! the functions here are specified by spec functions over such sequences.

use vstd::prelude::*;
use vstd::string::*;

verus! {

/// `String::push` appends one character to the end of the string.
pub assume_specification[ String::push ](s: &mut String, ch: char)
    ensures
        final(s)@ == old(s)@.push(ch),
;

/// The code points that carry the Unicode property `White_Space`.
pub open spec fn is_white_space(c: char) -> bool {
    let n = c as u32;
    ||| 0x09 <= n <= 0x0d
    ||| n == 0x20
    ||| n == 0x85
    ||| n == 0xa0
    ||| n == 0x1680
    ||| 0x2000 <= n <= 0x200a
    ||| n == 0x2028
    ||| n == 0x2029
    ||| n == 0x202f
    ||| n == 0x205f
    ||| n == 0x3000
}

/// `s` without its longest suffix of white space.
pub open spec fn trimmed_end(s: Seq<char>) -> Seq<char>
    decreases s.len(),
{
    if s.len() > 0 && is_white_space(s.last()) {
        trimmed_end(s.drop_last())
    } else {
        s
    }
}

/// `s` with every occurrence of `from` replaced by `to`, the occurrences
/// found from left to right and not overlapping. An empty `from` occurs
/// before every character and at the end.
pub open spec fn replaced(s: Seq<char>, from: Seq<char>, to: Seq<char>) -> Seq<char>
    decreases s.len(),
{
    if from.len() == 0 {
        if s.len() == 0 {
            to
        } else {
            to + seq![s[0]] + replaced(s.skip(1), from, to)
        }
    } else if from.is_prefix_of(s) {
        to + replaced(s.skip(from.len() as int), from, to)
    } else if s.len() == 0 {
        s
    } else {
        seq![s[0]] + replaced(s.skip(1), from, to)
    }
}

/// The pieces of `s` between the occurrences of `sep`: one more piece than
/// there are separators, so the empty text has one empty piece.
pub open spec fn pieces(s: Seq<char>, sep: char) -> Seq<Seq<char>>
    decreases s.len(),
{
    if s.len() == 0 {
        seq![Seq::<char>::empty()]
    } else {
        let before = pieces(s.drop_last(), sep);
        if s.last() == sep {
            before.push(Seq::<char>::empty())
        } else {
            before.drop_last().push(before.last().push(s.last()))
        }
    }
}

/// The pieces joined again, `sep` between each two.
pub open spec fn joined(parts: Seq<Seq<char>>, sep: char) -> Seq<char>
    decreases parts.len(),
{
    if parts.len() == 0 {
        Seq::<char>::empty()
    } else if parts.len() == 1 {
        parts[0]
    } else {
        joined(parts.drop_last(), sep).push(sep) + parts.last()
    }
}

/// The decimal digits of `n`, without leading zeros.
pub open spec fn decimal(n: nat) -> Seq<char>
    decreases n,
{
    if n < 10 {
        seq![digit(n)]
    } else {
        decimal(n / 10).push(digit(n % 10))
    }
}

/// The character of one decimal digit.
pub open spec fn digit(d: nat) -> char {
    if d == 0 {
        '0'
    } else if d == 1 {
        '1'
    } else if d == 2 {
        '2'
    } else if d == 3 {
        '3'
    } else if d == 4 {
        '4'
    } else if d == 5 {
        '5'
    } else if d == 6 {
        '6'
    } else if d == 7 {
        '7'
    } else if d == 8 {
        '8'
    } else {
        '9'
    }
}

/// Splitting never loses a character: there is at least one piece, no piece
/// holds the separator, and the pieces joined by the separator give `s` back.
pub proof fn lemma_pieces_join(s: Seq<char>, sep: char)
    ensures
        pieces(s, sep).len() >= 1,
        forall|i: int| 0 <= i < pieces(s, sep).len() ==> !(#[trigger] pieces(s, sep)[i]).contains(sep),
        joined(pieces(s, sep), sep) == s,
    decreases s.len(),
{
    if s.len() == 0 {
        assert(joined(pieces(s, sep), sep) =~= s);
    } else {
        let short = s.drop_last();
        let before = pieces(short, sep);
        lemma_pieces_join(short, sep);
        let now = pieces(s, sep);
        if s.last() == sep {
            assert(now.drop_last() =~= before);
            assert(joined(now, sep) =~= short.push(sep) + Seq::<char>::empty());
            assert(short.push(sep) + Seq::<char>::empty() =~= s);
        } else {
            let tail = before.last().push(s.last());
            assert(now.last() == tail);
            assert forall|i: int| 0 <= i < now.len() implies !(#[trigger] now[i]).contains(sep) by {
                if i < now.len() - 1 {
                    assert(now[i] == before[i]);
                } else {
                    assert(!before.last().contains(sep));
                    assert forall|k: int| 0 <= k < tail.len() implies tail[k] != sep by {
                        if k < tail.len() - 1 {
                            assert(before.last()[k] == tail[k]);
                            assert(before.last().contains(tail[k]));
                        }
                    }
                }
            }
            if before.len() == 1 {
                assert(joined(before, sep) == before[0]);
                assert(joined(now, sep) == now[0]);
                assert(now[0] =~= short.push(s.last()));
                assert(short.push(s.last()) =~= s);
            } else {
                assert(now.drop_last() =~= before.drop_last());
                assert(joined(before, sep) == joined(before.drop_last(), sep).push(sep) + before.last());
                assert(joined(now, sep) == joined(before.drop_last(), sep).push(sep) + tail);
                assert(joined(now, sep) =~= joined(before, sep).push(s.last()));
                assert(short.push(s.last()) =~= s);
            }
        }
    }
}

/// Nothing of the text is left to trim at its end, and only white space
/// was taken away.
pub proof fn lemma_trimmed_end(s: Seq<char>)
    ensures
        trimmed_end(s).is_prefix_of(s),
        trimmed_end(s).len() > 0 ==> !is_white_space(trimmed_end(s).last()),
        forall|i: int| trimmed_end(s).len() <= i < s.len() ==> is_white_space(#[trigger] s[i]),
        trimmed_end(trimmed_end(s)) == trimmed_end(s),
    decreases s.len(),
{
    if s.len() > 0 && is_white_space(s.last()) {
        lemma_trimmed_end(s.drop_last());
        let t = trimmed_end(s);
        assert(t =~= s.subrange(0, t.len() as int)) by {
            assert(t =~= s.drop_last().subrange(0, t.len() as int));
        }
        assert forall|i: int| t.len() <= i < s.len() implies is_white_space(#[trigger] s[i]) by {
            if i < s.len() - 1 {
                assert(s[i] == s.drop_last()[i]);
            }
        }
    } else {
        assert(s =~= s.subrange(0, s.len() as int));
    }
}

/// Whether `c` is white space.
pub fn is_whitespace(c: char) -> (b: bool)
    ensures
        b == is_white_space(c),
{
    let n: u32 = c as u32;
    (0x09 <= n && n <= 0x0d) || n == 0x20 || n == 0x85 || n == 0xa0 || n == 0x1680 || (0x2000 <= n
        && n <= 0x200a) || n == 0x2028 || n == 0x2029 || n == 0x202f || n == 0x205f || n == 0x3000
}

/// The characters of `s`, in order.
pub fn chars_of(s: &str) -> (v: Vec<char>)
    ensures
        v@ == s@,
{
    let mut v: Vec<char> = Vec::new();
    for c in it: s.chars()
        invariant
            v@ == s@.take(it.index()),
            it.seq() == s@,
    {
        v.push(c);
    }
    v
}

/// The string that holds the characters of `v`, in order.
pub fn string_of(v: &Vec<char>) -> (s: String)
    ensures
        s@ == v@,
{
    let mut s = String::new();
    let mut i: usize = 0;
    while i < v.len()
        invariant
            i <= v.len(),
            s@ == v@.take(i as int),
        decreases v.len() - i,
    {
        s.push(v[i]);
        i += 1;
    }
    s
}

/// Whether the two texts hold the same characters.
pub fn same_text(a: &str, b: &str) -> (same: bool)
    ensures
        same == (a@ == b@),
{
    let x = chars_of(a);
    let y = chars_of(b);
    if x.len() != y.len() {
        return false;
    }
    let mut i: usize = 0;
    while i < x.len()
        invariant
            i <= x.len(),
            x.len() == y.len(),
            x@ == a@,
            y@ == b@,
            x@.take(i as int) == y@.take(i as int),
        decreases x.len() - i,
    {
        if x[i] != y[i] {
            assert(a@[i as int] != b@[i as int]);
            return false;
        }
        assert(x@.take(i + 1) =~= x@.take(i as int).push(x@[i as int]));
        assert(y@.take(i + 1) =~= y@.take(i as int).push(y@[i as int]));
        i += 1;
    }
    assert(x@ =~= x@.take(x.len() as int));
    assert(y@ =~= y@.take(y.len() as int));
    true
}

/// Whether `part` stands in `s` at position `at`.
fn occurs_at(s: &Vec<char>, at: usize, part: &Vec<char>) -> (b: bool)
    requires
        at <= s.len(),
    ensures
        b == part@.is_prefix_of(s@.skip(at as int)),
{
    if part.len() > s.len() - at {
        return false;
    }
    let ghost rest = s@.skip(at as int);
    let mut k: usize = 0;
    while k < part.len()
        invariant
            k <= part.len(),
            at + part.len() <= s.len(),
            rest == s@.skip(at as int),
            part@.take(k as int) == rest.take(k as int),
        decreases part.len() - k,
    {
        if part[k] != s[at + k] {
            assert(rest.subrange(0, part@.len() as int)[k as int] != part@[k as int]);
            return false;
        }
        assert(part@.take(k + 1) =~= part@.take(k as int).push(part@[k as int]));
        assert(rest.take(k + 1) =~= rest.take(k as int).push(rest[k as int]));
        k += 1;
    }
    assert(part@ =~= part@.take(part.len() as int));
    true
}

/// Whether `s` begins with `prefix`.
pub fn starts_with(s: &str, prefix: &str) -> (b: bool)
    ensures
        b == prefix@.is_prefix_of(s@),
{
    let text = chars_of(s);
    let part = chars_of(prefix);
    assert(text@.skip(0) =~= text@);
    occurs_at(&text, 0, &part)
}

/// What follows `prefix` in `s`, where `s` begins with it.
pub fn strip_prefix(s: &str, prefix: &str) -> (rest: Option<String>)
    ensures
        rest is Some <==> prefix@.is_prefix_of(s@),
        rest matches Some(r) ==> r@ == s@.skip(prefix@.len() as int),
{
    let text = chars_of(s);
    let part = chars_of(prefix);
    assert(text@.skip(0) =~= text@);
    if !occurs_at(&text, 0, &part) {
        return None;
    }
    let mut out = String::new();
    let mut i: usize = part.len();
    while i < text.len()
        invariant
            part.len() <= i <= text.len(),
            out@ == text@.subrange(part.len() as int, i as int),
        decreases text.len() - i,
    {
        out.push(text[i]);
        assert(text@.subrange(part.len() as int, i + 1) =~= text@.subrange(
            part.len() as int,
            i as int,
        ).push(text@[i as int]));
        i += 1;
    }
    assert(text@.subrange(part.len() as int, text.len() as int) =~= text@.skip(part.len() as int));
    Some(out)
}

/// The text `a` followed by the text `b`.
pub fn appended(a: &str, b: &str) -> (r: String)
    ensures
        r@ == a@ + b@,
{
    a.to_owned().concat(b)
}

/// Appends the characters of `part` to `out`.
fn push_all(out: &mut Vec<char>, part: &Vec<char>)
    ensures
        final(out)@ == old(out)@ + part@,
{
    let mut k: usize = 0;
    while k < part.len()
        invariant
            k <= part.len(),
            out@ == old(out)@ + part@.take(k as int),
        decreases part.len() - k,
    {
        out.push(part[k]);
        assert(part@.take(k + 1) =~= part@.take(k as int).push(part@[k as int]));
        k += 1;
    }
    assert(part@ =~= part@.take(part.len() as int));
}

/// `s` with every occurrence of `from` replaced by `to`.
pub fn replace(s: &str, from: &str, to: &str) -> (r: String)
    ensures
        r@ == replaced(s@, from@, to@),
{
    let text = chars_of(s);
    let old_part = chars_of(from);
    let new_part = chars_of(to);
    let mut out: Vec<char> = Vec::new();
    let mut i: usize = 0;
    assert(text@.skip(0) =~= text@);
    while i < text.len()
        invariant
            i <= text.len(),
            out@ + replaced(text@.skip(i as int), old_part@, new_part@) == replaced(
                text@,
                old_part@,
                new_part@,
            ),
        decreases text.len() - i,
    {
        let ghost rest = text@.skip(i as int);
        let ghost before = out@;
        assert(rest[0] == text@[i as int]);
        if occurs_at(&text, i, &old_part) {
            push_all(&mut out, &new_part);
            if old_part.len() == 0 {
                out.push(text[i]);
                assert(rest.skip(1) =~= text@.skip(i + 1));
                assert(out@ + replaced(text@.skip(i + 1), old_part@, new_part@) =~= before
                    + replaced(rest, old_part@, new_part@));
                i += 1;
            } else {
                assert(rest.skip(old_part@.len() as int) =~= text@.skip(i + old_part@.len()));
                assert(out@ + replaced(text@.skip(i + old_part@.len()), old_part@, new_part@)
                    =~= before + replaced(rest, old_part@, new_part@));
                i += old_part.len();
            }
        } else {
            out.push(text[i]);
            assert(rest.skip(1) =~= text@.skip(i + 1));
            assert(out@ + replaced(text@.skip(i + 1), old_part@, new_part@) =~= before + replaced(
                rest,
                old_part@,
                new_part@,
            ));
            i += 1;
        }
    }
    assert(text@.skip(text@.len() as int).len() == 0);
    if old_part.len() == 0 {
        push_all(&mut out, &new_part);
    } else {
        assert(!old_part@.is_prefix_of(text@.skip(text@.len() as int)));
        assert(out@ + Seq::<char>::empty() =~= out@);
    }
    string_of(&out)
}

/// `s` without the white space at its end.
pub fn trim_end(s: &str) -> (r: String)
    ensures
        r@ == trimmed_end(s@),
{
    let text = chars_of(s);
    let mut n: usize = text.len();
    assert(text@.take(n as int) =~= text@);
    while n > 0 && is_whitespace(text[n - 1])
        invariant
            n <= text.len(),
            trimmed_end(text@.take(n as int)) == trimmed_end(text@),
        decreases n,
    {
        assert(text@.take(n as int).drop_last() =~= text@.take(n - 1));
        n -= 1;
    }
    let mut out = String::new();
    let mut i: usize = 0;
    while i < n
        invariant
            i <= n <= text.len(),
            out@ == text@.take(i as int),
        decreases n - i,
    {
        out.push(text[i]);
        assert(text@.take(i + 1) =~= text@.take(i as int).push(text@[i as int]));
        i += 1;
    }
    out
}

/// The pieces of `s` between the occurrences of `sep`, in order.
pub fn split(s: &str, sep: char) -> (parts: Vec<String>)
    ensures
        parts.deep_view() == pieces(s@, sep),
{
    let text = chars_of(s);
    let mut parts: Vec<String> = Vec::new();
    let mut current = String::new();
    let mut i: usize = 0;
    assert(parts.deep_view().push(current@) =~= pieces(text@.take(0), sep));
    while i < text.len()
        invariant
            i <= text.len(),
            parts.deep_view().push(current@) == pieces(text@.take(i as int), sep),
        decreases text.len() - i,
    {
        let ghost seen = text@.take(i + 1);
        let ghost done = parts.deep_view();
        let ghost open = current@;
        assert(seen.drop_last() =~= text@.take(i as int));
        assert(seen.last() == text@[i as int]);
        assert(done.push(open).drop_last() =~= done);
        if text[i] == sep {
            parts.push(current);
            current = String::new();
            assert(parts.deep_view() =~= done.push(open));
        } else {
            current.push(text[i]);
            assert(parts.deep_view() =~= done);
        }
        i += 1;
    }
    assert(text@.take(text@.len() as int) =~= text@);
    let ghost done = parts.deep_view();
    parts.push(current);
    assert(parts.deep_view() =~= done.push(current@));
    parts
}

/// The decimal digits of `n`.
pub fn decimal_of(n: u8) -> (r: String)
    ensures
        r@ == decimal(n as nat),
{
    let mut out = String::new();
    if n >= 100 {
        out.push(digit_of(n / 100));
    }
    if n >= 10 {
        out.push(digit_of((n / 10) % 10));
    }
    out.push(digit_of(n % 10));
    proof {
        let m = n as nat;
        if m >= 100 {
            assert(decimal(m / 100) =~= seq![digit(m / 100)]);
            assert(decimal(m / 10) =~= decimal(m / 10 / 10).push(digit((m / 10) % 10)));
            assert(m / 10 / 10 == m / 100);
        } else if m >= 10 {
            assert(decimal(m / 10) =~= seq![digit(m / 10)]);
        }
        assert(out@ =~= decimal(m));
    }
    out
}

/// The character of the decimal digit `d`.
fn digit_of(d: u8) -> (c: char)
    requires
        d < 10,
    ensures
        c == digit(d as nat),
{
    if d == 0 {
        '0'
    } else if d == 1 {
        '1'
    } else if d == 2 {
        '2'
    } else if d == 3 {
        '3'
    } else if d == 4 {
        '4'
    } else if d == 5 {
        '5'
    } else if d == 6 {
        '6'
    } else if d == 7 {
        '7'
    } else if d == 8 {
        '8'
    } else {
        '9'
    }
}

} // verus!
