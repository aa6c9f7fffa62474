//! The shared string grammar: component validity, splitting on a
//! delimiter, joining with a delimiter, and the lemmas that make the
//! two inverse to each other.

use vstd::prelude::*;

verus! {

/// A value may stand as one identifier component exactly when it is
/// non-empty and contains neither delimiter character `:` nor `/`.
pub open spec fn valid_seq(s: Seq<char>) -> bool {
    s.len() > 0 && forall|i: int| 0 <= i < s.len() ==> s[i] != ':' && s[i] != '/'
}

/// Splits `s` at every occurrence of `sep`; n separators give n + 1
/// pieces, so the result is never empty and empty pieces are kept.
pub open spec fn split_on(s: Seq<char>, sep: char) -> Seq<Seq<char>>
    decreases s.len(),
{
    if s.len() == 0 {
        seq![Seq::<char>::empty()]
    } else if s[0] == sep {
        seq![Seq::<char>::empty()] + split_on(s.drop_first(), sep)
    } else {
        let rest = split_on(s.drop_first(), sep);
        seq![seq![s[0]] + rest[0]] + rest.drop_first()
    }
}

/// Joins the pieces with `sep` between consecutive pieces.
pub open spec fn join(ss: Seq<Seq<char>>, sep: char) -> Seq<char>
    decreases ss.len(),
{
    if ss.len() == 0 {
        Seq::<char>::empty()
    } else if ss.len() == 1 {
        ss[0]
    } else {
        ss[0] + seq![sep] + join(ss.drop_first(), sep)
    }
}

pub proof fn lemma_split_len(s: Seq<char>, sep: char)
    ensures
        split_on(s, sep).len() >= 1,
    decreases s.len(),
{
    if s.len() == 0 {
    } else {
        lemma_split_len(s.drop_first(), sep);
    }
}

/// A string without the separator splits into just itself.
pub proof fn lemma_split_no_sep(s: Seq<char>, sep: char)
    requires
        forall|i: int| 0 <= i < s.len() ==> s[i] != sep,
    ensures
        split_on(s, sep) == seq![s],
    decreases s.len(),
{
    if s.len() == 0 {
        assert(split_on(s, sep) =~~= seq![s]);
    } else {
        lemma_split_no_sep(s.drop_first(), sep);
        lemma_split_len(s.drop_first(), sep);
        assert(split_on(s, sep) =~~= seq![s]);
    }
}

/// Splitting takes off a leading separator-free piece at the first
/// separator.
pub proof fn lemma_split_head(t: Seq<char>, sep: char, rest: Seq<char>)
    requires
        forall|i: int| 0 <= i < t.len() ==> t[i] != sep,
    ensures
        split_on(t + seq![sep] + rest, sep) == seq![t] + split_on(rest, sep),
    decreases t.len(),
{
    let s = t + seq![sep] + rest;
    if t.len() == 0 {
        assert(s[0] == sep);
        assert(s.drop_first() =~= rest);
        assert(split_on(s, sep) =~~= seq![t] + split_on(rest, sep));
    } else {
        assert(s[0] == t[0]);
        assert(s.drop_first() =~= t.drop_first() + seq![sep] + rest);
        lemma_split_head(t.drop_first(), sep, rest);
        let r = split_on(s.drop_first(), sep);
        lemma_split_len(rest, sep);
        assert(r == seq![t.drop_first()] + split_on(rest, sep));
        assert(r[0] == t.drop_first());
        assert(seq![s[0]] + r[0] =~= t);
        assert(r.drop_first() =~= split_on(rest, sep));
        assert(split_on(s, sep) =~~= seq![t] + split_on(rest, sep));
    }
}

/// Splitting undoes joining, provided no piece contains the separator.
pub proof fn lemma_split_of_join(ss: Seq<Seq<char>>, sep: char)
    requires
        ss.len() >= 1,
        forall|i: int, j: int|
            0 <= i < ss.len() && 0 <= j < ss[i].len() ==> #[trigger] ss[i][j] != sep,
    ensures
        split_on(join(ss, sep), sep) == ss,
    decreases ss.len(),
{
    if ss.len() == 1 {
        lemma_split_no_sep(ss[0], sep);
        assert(split_on(join(ss, sep), sep) =~~= ss);
    } else {
        lemma_split_of_join(ss.drop_first(), sep);
        lemma_split_head(ss[0], sep, join(ss.drop_first(), sep));
        assert(split_on(join(ss, sep), sep) =~~= ss);
    }
}

/// A join contains no character that the separator differs from and
/// that no piece contains.
pub proof fn lemma_join_lacks(ss: Seq<Seq<char>>, sep: char, c: char)
    requires
        sep != c,
        forall|i: int, j: int|
            0 <= i < ss.len() && 0 <= j < ss[i].len() ==> #[trigger] ss[i][j] != c,
    ensures
        forall|k: int| 0 <= k < join(ss, sep).len() ==> join(ss, sep)[k] != c,
    decreases ss.len(),
{
    if ss.len() <= 1 {
    } else {
        lemma_join_lacks(ss.drop_first(), sep, c);
        assert forall|k: int| 0 <= k < join(ss, sep).len() implies join(ss, sep)[k] != c by {
            let head = ss[0];
            let tail = join(ss.drop_first(), sep);
            assert(join(ss, sep) == head + seq![sep] + tail);
            if k < head.len() {
                assert(join(ss, sep)[k] == head[k]);
            } else if k == head.len() {
                assert(join(ss, sep)[k] == sep);
            } else {
                assert(join(ss, sep)[k] == tail[k - head.len() - 1]);
            }
        }
    }
}

/// Joining after appending one piece appends the separator and the
/// piece, except to an empty join.
pub proof fn lemma_join_push(ss: Seq<Seq<char>>, x: Seq<char>, sep: char)
    ensures
        join(ss.push(x), sep) == if ss.len() == 0 {
            x
        } else {
            join(ss, sep) + seq![sep] + x
        },
    decreases ss.len(),
{
    if ss.len() == 0 {
        assert(ss.push(x).len() == 1);
        assert(join(ss.push(x), sep) == ss.push(x)[0]);
    } else if ss.len() == 1 {
        assert(ss.push(x).drop_first() =~~= seq![x]);
        assert(ss.push(x)[0] == ss[0]);
        assert(join(seq![x], sep) == x);
        assert(join(ss.push(x), sep) == ss[0] + seq![sep] + x);
    } else {
        assert(ss.push(x).drop_first() =~~= ss.drop_first().push(x));
        lemma_join_push(ss.drop_first(), x, sep);
        assert(join(ss.push(x), sep) == ss[0] + seq![sep] + (join(ss.drop_first(), sep)
            + seq![sep] + x));
        assert(join(ss, sep) + seq![sep] + x =~= ss[0] + seq![sep] + (join(
            ss.drop_first(),
            sep,
        ) + seq![sep] + x));
    }
}

/// Joining after prepending one piece prepends the piece and the
/// separator, except to an empty sequence of pieces.
pub proof fn lemma_join_cons(x: Seq<char>, ss: Seq<Seq<char>>, sep: char)
    ensures
        join(seq![x] + ss, sep) == if ss.len() == 0 {
            x
        } else {
            x + seq![sep] + join(ss, sep)
        },
{
    let whole = seq![x] + ss;
    assert(whole[0] == x);
    if ss.len() == 0 {
        assert(whole.len() == 1);
    } else {
        assert(whole.drop_first() =~~= ss);
    }
}

/// Joining five pieces spelled out.
pub proof fn lemma_join5(a: Seq<char>, b: Seq<char>, c: Seq<char>, d: Seq<char>, e: Seq<char>, sep: char)
    ensures
        join(seq![a, b, c, d, e], sep) == a + seq![sep] + b + seq![sep] + c + seq![sep] + d
            + seq![sep] + e,
{
    let s5 = seq![a, b, c, d, e];
    let s4 = seq![b, c, d, e];
    let s3 = seq![c, d, e];
    let s2 = seq![d, e];
    assert(s5.drop_first() =~~= s4);
    assert(s4.drop_first() =~~= s3);
    assert(s3.drop_first() =~~= s2);
    assert(s2.drop_first() =~~= seq![e]);
    assert(join(seq![e], sep) == e);
    assert(join(s2, sep) == d + seq![sep] + e);
    assert(join(s3, sep) == c + seq![sep] + (d + seq![sep] + e));
    assert(join(s4, sep) == b + seq![sep] + (c + seq![sep] + (d + seq![sep] + e)));
    assert(join(s5, sep) == a + seq![sep] + (b + seq![sep] + (c + seq![sep] + (d + seq![sep]
        + e))));
    assert(a + seq![sep] + (b + seq![sep] + (c + seq![sep] + (d + seq![sep] + e))) =~= a
        + seq![sep] + b + seq![sep] + c + seq![sep] + d + seq![sep] + e);
}

/// Reports whether `s` may stand as one identifier component.
pub fn is_valid_component(s: &str) -> (r: bool)
    ensures
        r == valid_seq(s@),
{
    let n = s.unicode_len();
    if n == 0 {
        return false;
    }
    let mut i: usize = 0;
    while i < n
        invariant
            0 <= i <= n,
            n == s@.len(),
            forall|j: int| 0 <= j < i ==> s@[j] != ':' && s@[j] != '/',
        decreases n - i,
    {
        let c = s.get_char(i);
        if c == ':' || c == '/' {
            return false;
        }
        i = i + 1;
    }
    true
}

/// Reports whether the two strings hold the same characters.
pub fn str_eq(a: &str, b: &str) -> (r: bool)
    ensures
        r == (a@ == b@),
{
    let oa = String::from_str(a);
    let ob = String::from_str(b);
    oa.eq(&ob)
}

/// Splits `s` at every occurrence of `sep`, returning the pieces in
/// order; agrees with the mathematical `split_on`.
pub fn split_char(s: &str, sep: char) -> (r: Vec<String>)
    ensures
        r.deep_view() == split_on(s@, sep),
{
    let n = s.unicode_len();
    let mut out: Vec<String> = Vec::new();
    let mut start: usize = 0;
    let mut i: usize = 0;
    proof {
        assert(s@.skip(0) =~= s@);
        assert(out.deep_view() + split_on(s@, sep) =~~= split_on(s@, sep));
    }
    while i < n
        invariant
            0 <= start <= i <= n,
            n == s@.len(),
            forall|j: int| start <= j < i ==> s@[j] != sep,
            split_on(s@, sep) == out.deep_view() + split_on(s@.skip(start as int), sep),
        decreases n - i,
    {
        if s.get_char(i) == sep {
            let ghost pre = out.deep_view();
            let piece = String::from_str(s.substring_char(start, i));
            out.push(piece);
            proof {
                let t = s@.subrange(start as int, i as int);
                let rest = s@.skip(i as int + 1);
                assert(s@.skip(start as int) =~= t + seq![sep] + rest);
                lemma_split_head(t, sep, rest);
                assert(out.deep_view() =~~= pre.push(t));
                assert(pre + split_on(s@.skip(start as int), sep) =~~= out.deep_view()
                    + split_on(rest, sep));
            }
            start = i + 1;
        }
        i = i + 1;
    }
    let ghost pre = out.deep_view();
    let piece = String::from_str(s.substring_char(start, n));
    out.push(piece);
    proof {
        let t = s@.subrange(start as int, n as int);
        assert(s@.skip(start as int) =~= t);
        lemma_split_no_sep(t, sep);
        assert(out.deep_view() =~~= pre.push(t));
        assert(pre + split_on(s@.skip(start as int), sep) =~~= out.deep_view());
    }
    out
}

} // verus!
