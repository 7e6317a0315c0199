//! Verified text utilities: code-point order on strings, substring search,
//! splitting and joining on a separator character, and decimal rendering.

use vstd::prelude::*;

verus! {

/// Relies on std's `String::push`: appends exactly the given character.
#[verifier::external_body]
pub fn push_char(s: &mut String, c: char)
    ensures
        final(s)@ == old(s)@.push(c),
{
    s.push(c);
}

/// Code-point (ordinal) order on character sequences: `a` is at most `b`.
pub open spec fn lex_le(a: Seq<char>, b: Seq<char>) -> bool
    decreases a.len(),
{
    if a.len() == 0 {
        true
    } else if b.len() == 0 {
        false
    } else if a[0] as u32 != b[0] as u32 {
        (a[0] as u32) < (b[0] as u32)
    } else {
        lex_le(a.drop_first(), b.drop_first())
    }
}

pub proof fn lemma_lex_le_total(a: Seq<char>, b: Seq<char>)
    ensures
        lex_le(a, b) || lex_le(b, a),
    decreases a.len(),
{
    if a.len() != 0 && b.len() != 0 && a[0] as u32 == b[0] as u32 {
        lemma_lex_le_total(a.drop_first(), b.drop_first());
    }
}

pub proof fn lemma_lex_le_trans(a: Seq<char>, b: Seq<char>, c: Seq<char>)
    requires
        lex_le(a, b),
        lex_le(b, c),
    ensures
        lex_le(a, c),
    decreases a.len(),
{
    if a.len() != 0 && b.len() != 0 && c.len() != 0 && a[0] as u32 == b[0] as u32 && b[0] as u32
        == c[0] as u32 {
        lemma_lex_le_trans(a.drop_first(), b.drop_first(), c.drop_first());
    }
}

/// Whether `a` is at most `b` in code-point order.
pub fn str_le(a: &str, b: &str) -> (r: bool)
    ensures
        r == lex_le(a@, b@),
{
    let alen = a.unicode_len();
    let blen = b.unicode_len();
    let mut i: usize = 0;
    proof {
        assert(a@.skip(0) =~= a@);
        assert(b@.skip(0) =~= b@);
    }
    while i < alen && i < blen
        invariant
            i <= alen,
            i <= blen,
            alen == a@.len(),
            blen == b@.len(),
            lex_le(a@, b@) == lex_le(a@.skip(i as int), b@.skip(i as int)),
        decreases alen - i,
    {
        let ca = a.get_char(i);
        let cb = b.get_char(i);
        proof {
            assert(a@.skip(i as int)[0] == a@[i as int]);
            assert(b@.skip(i as int)[0] == b@[i as int]);
            assert(a@.skip(i as int).drop_first() =~= a@.skip(i as int + 1));
            assert(b@.skip(i as int).drop_first() =~= b@.skip(i as int + 1));
        }
        if (ca as u32) < (cb as u32) {
            return true;
        }
        if (ca as u32) > (cb as u32) {
            return false;
        }
        i = i + 1;
    }
    proof {
        if i == alen {
            assert(a@.skip(i as int).len() == 0);
        } else {
            assert(b@.skip(i as int).len() == 0);
            assert(a@.skip(i as int).len() > 0);
        }
    }
    alen <= blen
}

/// Whether `needle` occurs in `hay` at position `i`.
pub open spec fn matches_at(hay: Seq<char>, needle: Seq<char>, i: int) -> bool {
    0 <= i && i + needle.len() <= hay.len() && hay.subrange(i, i + needle.len()) == needle
}

/// Whether `needle` occurs contiguously inside `hay`.
pub open spec fn is_substring(hay: Seq<char>, needle: Seq<char>) -> bool {
    exists|i: int| matches_at(hay, needle, i)
}

fn check_match(hay: &str, needle: &str, i: usize) -> (r: bool)
    requires
        i + needle@.len() <= hay@.len(),
    ensures
        r == matches_at(hay@, needle@, i as int),
{
    let hlen = hay.unicode_len();
    let nlen = needle.unicode_len();
    let mut j: usize = 0;
    while j < nlen
        invariant
            j <= nlen,
            hlen == hay@.len(),
            nlen == needle@.len(),
            i + nlen <= hlen,
            forall|k: int| 0 <= k < j ==> hay@[i + k] == needle@[k],
        decreases nlen - j,
    {
        let ch = hay.get_char(i + j);
        let cn = needle.get_char(j);
        if ch as u32 != cn as u32 {
            proof {
                assert(hay@[i + j] as u32 != needle@[j as int] as u32);
                assert(hay@.subrange(i as int, i + nlen)[j as int] == hay@[i + j]);
            }
            return false;
        }
        proof {
            assert(hay@[i + j] as u32 == needle@[j as int] as u32);
            assert(hay@[i + j] == needle@[j as int]) by {
                assert(hay@[i + j] as u32 as char == hay@[i + j]);
                assert(needle@[j as int] as u32 as char == needle@[j as int]);
            }
        }
        j = j + 1;
    }
    proof {
        assert(hay@.subrange(i as int, i + nlen) =~= needle@);
    }
    true
}

/// First position at or after `from` where `needle` occurs in `hay`, if any.
pub fn find_sub_from(hay: &str, needle: &str, from: usize) -> (r: Option<usize>)
    requires
        from <= hay@.len(),
    ensures
        match r {
            Some(i) => from <= i && matches_at(hay@, needle@, i as int) && forall|k: int|
                from <= k < i ==> !matches_at(hay@, needle@, k),
            None => forall|k: int| from <= k ==> !matches_at(hay@, needle@, k),
        },
{
    let hlen = hay.unicode_len();
    let nlen = needle.unicode_len();
    if nlen > hlen {
        return None;
    }
    if nlen == 0 {
        proof {
            assert(hay@.subrange(from as int, from as int) =~= needle@);
        }
        return Some(from);
    }
    let mut i: usize = from;
    while i <= hlen - nlen
        invariant
            from <= i,
            1 <= nlen <= hlen,
            from <= hlen,
            hlen == hay@.len(),
            nlen == needle@.len(),
            forall|k: int| from <= k < i ==> !matches_at(hay@, needle@, k),
        decreases hlen - i,
    {
        if check_match(hay, needle, i) {
            return Some(i);
        }
        i = i + 1;
    }
    proof {
        assert(forall|k: int| k > hlen - nlen ==> !matches_at(hay@, needle@, k));
    }
    None
}

/// Whether `needle` occurs contiguously inside `hay`.
pub fn contains_str(hay: &str, needle: &str) -> (r: bool)
    ensures
        r == is_substring(hay@, needle@),
{
    let r = find_sub_from(hay, needle, 0);
    match r {
        Some(_) => true,
        None => {
            proof {
                assert(forall|k: int| k < 0 ==> !matches_at(hay@, needle@, k));
            }
            false
        },
    }
}

/// First position at or after `from` holding character `c`, if any.
pub fn find_char_from(s: &str, c: char, from: usize) -> (r: Option<usize>)
    requires
        from <= s@.len(),
    ensures
        match r {
            Some(i) => from <= i < s@.len() && s@[i as int] == c && forall|k: int|
                from <= k < i ==> s@[k] != c,
            None => forall|k: int| from <= k < s@.len() ==> s@[k] != c,
        },
{
    let len = s.unicode_len();
    let mut i: usize = from;
    loop
        invariant
            from <= i <= len,
            len == s@.len(),
            forall|k: int| from <= k < i ==> s@[k] != c,
        decreases len - i,
    {
        if i >= len {
            return None;
        }
        let ci = s.get_char(i);
        if ci as u32 == c as u32 {
            proof {
                assert(s@[i as int] as u32 as char == s@[i as int]);
                assert(c as u32 as char == c);
            }
            return Some(i);
        }
        proof {
            assert(s@[i as int] != c);
        }
        i = i + 1;
    }
}

/// How many positions of `s` hold the character `c`.
pub open spec fn count_char(s: Seq<char>, c: char) -> int
    decreases s.len(),
{
    if s.len() == 0 {
        0
    } else {
        (if s[0] == c {
            1int
        } else {
            0int
        }) + count_char(s.drop_first(), c)
    }
}

/// Counts the positions of `s` holding the character `c`.
pub fn count_char_occurrences(s: &str, c: char) -> (r: usize)
    ensures
        r == count_char(s@, c),
{
    let len = s.unicode_len();
    let mut i: usize = 0;
    let mut cnt: usize = 0;
    proof {
        assert(s@.skip(0) =~= s@);
    }
    while i < len
        invariant
            i <= len,
            cnt <= i,
            len == s@.len(),
            count_char(s@, c) == cnt + count_char(s@.skip(i as int), c),
        decreases len - i,
    {
        let ci = s.get_char(i);
        proof {
            assert(s@.skip(i as int)[0] == s@[i as int]);
            assert(s@.skip(i as int).drop_first() =~= s@.skip(i as int + 1));
        }
        if ci as u32 == c as u32 {
            proof {
                assert(s@[i as int] as u32 as char == s@[i as int]);
                assert(c as u32 as char == c);
            }
            cnt = cnt + 1;
        } else {
            proof {
                assert(s@[i as int] != c);
            }
        }
        i = i + 1;
    }
    proof {
        assert(s@.skip(i as int).len() == 0);
    }
    cnt
}

/// A character occurs nowhere in `s` exactly when its count is zero.
pub proof fn lemma_count_char_zero(s: Seq<char>, c: char)
    requires
        forall|k: int| 0 <= k < s.len() ==> s[k] != c,
    ensures
        count_char(s, c) == 0,
    decreases s.len(),
{
    if s.len() != 0 {
        assert(forall|k: int|
            0 <= k < s.drop_first().len() ==> s.drop_first()[k] == s[k + 1]);
        lemma_count_char_zero(s.drop_first(), c);
    }
}

/// Whether `s` begins with `prefix`.
pub open spec fn starts_with(s: Seq<char>, prefix: Seq<char>) -> bool {
    matches_at(s, prefix, 0)
}

/// Whether `s` ends with `suffix`.
pub open spec fn ends_with(s: Seq<char>, suffix: Seq<char>) -> bool {
    matches_at(s, suffix, s.len() - suffix.len())
}

/// Whether `s` begins with `prefix`.
pub fn str_starts_with(s: &str, prefix: &str) -> (r: bool)
    ensures
        r == starts_with(s@, prefix@),
{
    let slen = s.unicode_len();
    let plen = prefix.unicode_len();
    if plen > slen {
        return false;
    }
    check_match(s, prefix, 0)
}

/// Whether `s` ends with `suffix`.
pub fn str_ends_with(s: &str, suffix: &str) -> (r: bool)
    ensures
        r == ends_with(s@, suffix@),
{
    let slen = s.unicode_len();
    let xlen = suffix.unicode_len();
    if xlen > slen {
        return false;
    }
    check_match(s, suffix, slen - xlen)
}

/// The views of a sequence of strings.
pub open spec fn views_of(v: Seq<String>) -> Seq<Seq<char>> {
    v.map_values(|x: String| x@)
}

/// The pieces of `s` between occurrences of `sep`; there is always at least
/// one piece, and adjacent or outer separators yield empty pieces.
pub open spec fn split_char_spec(s: Seq<char>, sep: char) -> Seq<Seq<char>>
    decreases s.len(),
{
    if s.len() == 0 {
        seq![Seq::<char>::empty()]
    } else if s[0] == sep {
        seq![Seq::<char>::empty()] + split_char_spec(s.drop_first(), sep)
    } else {
        let rest = split_char_spec(s.drop_first(), sep);
        seq![seq![s[0]] + rest[0]] + rest.drop_first()
    }
}

pub proof fn lemma_split_char_len(s: Seq<char>, sep: char)
    ensures
        split_char_spec(s, sep).len() == 1 + count_char(s, sep),
    decreases s.len(),
{
    if s.len() != 0 {
        lemma_split_char_len(s.drop_first(), sep);
    }
}

/// The first piece of a split, extended in front by `pre`.
spec fn prepend_first(ps: Seq<Seq<char>>, pre: Seq<char>) -> Seq<Seq<char>>
    recommends
        ps.len() >= 1,
{
    seq![pre + ps[0]] + ps.drop_first()
}

/// Splits `s` at every occurrence of `sep`.
pub fn split_char(s: &str, sep: char) -> (r: Vec<String>)
    ensures
        views_of(r@) == split_char_spec(s@, sep),
{
    let len = s.unicode_len();
    let mut done: Vec<String> = Vec::new();
    let mut cur: String = String::new();
    let mut i: usize = 0;
    proof {
        lemma_split_char_len(s@, sep);
        assert(s@.skip(0) =~= s@);
        assert(views_of(done@) + prepend_first(split_char_spec(s@.skip(0), sep), cur@)
            =~= prepend_first(split_char_spec(s@, sep), cur@));
        assert(prepend_first(split_char_spec(s@, sep), Seq::<char>::empty()) =~= split_char_spec(
            s@,
            sep,
        )) by {
            assert(Seq::<char>::empty() + split_char_spec(s@, sep)[0] =~= split_char_spec(
                s@,
                sep,
            )[0]);
        }
    }
    while i < len
        invariant
            i <= len,
            len == s@.len(),
            split_char_spec(s@.skip(i as int), sep).len() >= 1,
            split_char_spec(s@, sep) == views_of(done@) + prepend_first(
                split_char_spec(s@.skip(i as int), sep),
                cur@,
            ),
        decreases len - i,
    {
        let c = s.get_char(i);
        proof {
            assert(s@.skip(i as int)[0] == s@[i as int]);
            assert(s@.skip(i as int).drop_first() =~= s@.skip(i as int + 1));
            lemma_split_char_len(s@.skip(i as int + 1), sep);
        }
        let ghost old_done = done@;
        let ghost old_cur = cur@;
        let ghost tail = split_char_spec(s@.skip(i as int + 1), sep);
        if c as u32 == sep as u32 {
            proof {
                assert(s@[i as int] as u32 as char == s@[i as int]);
                assert(sep as u32 as char == sep);
                assert(s@[i as int] == sep);
                assert(split_char_spec(s@.skip(i as int), sep) =~= seq![Seq::<char>::empty()]
                    + tail);
            }
            done.push(cur);
            cur = String::new();
            proof {
                assert(views_of(done@) =~= views_of(old_done).push(old_cur));
                assert(prepend_first(seq![Seq::<char>::empty()] + tail, old_cur) =~= seq![old_cur]
                    + tail);
                assert(prepend_first(tail, Seq::<char>::empty()) =~= tail) by {
                    assert(Seq::<char>::empty() + tail[0] =~= tail[0]);
                }
                assert(views_of(old_done) + (seq![old_cur] + tail) =~= (views_of(old_done).push(
                    old_cur,
                )) + tail);
            }
        } else {
            proof {
                if s@[i as int] == sep {
                    assert(s@[i as int] as u32 == sep as u32);
                }
                assert(split_char_spec(s@.skip(i as int), sep) =~= seq![seq![s@[i as int]]
                    + tail[0]] + tail.drop_first());
            }
            push_char(&mut cur, c);
            proof {
                assert(cur@ =~= old_cur.push(s@[i as int]));
                assert(old_cur + (seq![s@[i as int]] + tail[0]) =~= cur@ + tail[0]);
                assert(prepend_first(seq![seq![s@[i as int]] + tail[0]] + tail.drop_first(), old_cur)
                    =~= prepend_first(tail, cur@)) by {
                    assert((seq![seq![s@[i as int]] + tail[0]] + tail.drop_first()).drop_first()
                        =~= tail.drop_first());
                }
            }
        }
        i = i + 1;
    }
    proof {
        assert(s@.skip(i as int).len() == 0);
        assert(split_char_spec(s@.skip(i as int), sep) =~= seq![Seq::<char>::empty()]);
    }
    let ghost old_done = done@;
    let ghost old_cur = cur@;
    done.push(cur);
    proof {
        assert(views_of(done@) =~= views_of(old_done).push(old_cur));
        assert(prepend_first(seq![Seq::<char>::empty()], old_cur) =~= seq![old_cur]) by {
            assert(old_cur + Seq::<char>::empty() =~= old_cur);
        }
        assert(views_of(old_done) + seq![old_cur] =~= views_of(old_done).push(old_cur));
    }
    done
}

/// The pieces of `ps` that are not empty, in order.
pub open spec fn nonempty_pieces(ps: Seq<Seq<char>>) -> Seq<Seq<char>>
    decreases ps.len(),
{
    if ps.len() == 0 {
        Seq::<Seq<char>>::empty()
    } else if ps[0].len() == 0 {
        nonempty_pieces(ps.drop_first())
    } else {
        seq![ps[0]] + nonempty_pieces(ps.drop_first())
    }
}

/// Keeps the nonempty strings of `v`, in order.
pub fn filter_nonempty(v: &Vec<String>) -> (r: Vec<String>)
    ensures
        views_of(r@) == nonempty_pieces(views_of(v@)),
{
    let mut out: Vec<String> = Vec::new();
    let mut i: usize = 0;
    proof {
        assert(views_of(v@).skip(0) =~= views_of(v@));
        assert(views_of(out@) + nonempty_pieces(views_of(v@).skip(0)) =~= nonempty_pieces(
            views_of(v@),
        ));
    }
    while i < v.len()
        invariant
            i <= v.len(),
            nonempty_pieces(views_of(v@)) == views_of(out@) + nonempty_pieces(
                views_of(v@).skip(i as int),
            ),
        decreases v.len() - i,
    {
        proof {
            assert(views_of(v@).skip(i as int)[0] == v@[i as int]@);
            assert(views_of(v@).skip(i as int).drop_first() =~= views_of(v@).skip(i as int + 1));
        }
        let ghost old_out = out@;
        if !v[i].as_str().is_empty() {
            out.push(v[i].clone());
            proof {
                assert(views_of(out@) =~= views_of(old_out).push(v@[i as int]@));
                assert(views_of(old_out) + (seq![v@[i as int]@] + nonempty_pieces(
                    views_of(v@).skip(i as int + 1),
                )) =~= views_of(out@) + nonempty_pieces(views_of(v@).skip(i as int + 1)));
            }
        }
        i = i + 1;
    }
    proof {
        assert(views_of(v@).skip(i as int).len() == 0);
        assert(views_of(out@) + nonempty_pieces(views_of(v@).skip(i as int)) =~= views_of(out@));
    }
    out
}

/// What follows the first piece in a joined rendering: a separator before
/// each further piece.
pub open spec fn join_tail(ps: Seq<Seq<char>>, sep: char) -> Seq<char>
    decreases ps.len(),
{
    if ps.len() == 0 {
        Seq::<char>::empty()
    } else {
        seq![sep] + ps[0] + join_tail(ps.drop_first(), sep)
    }
}

/// The pieces of `ps` joined with `sep` between them.
pub open spec fn join_pieces(ps: Seq<Seq<char>>, sep: char) -> Seq<char> {
    if ps.len() == 0 {
        Seq::<char>::empty()
    } else {
        ps[0] + join_tail(ps.drop_first(), sep)
    }
}

/// Joins the strings of `v` with `sep` between them.
pub fn join_strings(v: &Vec<String>, sep: char) -> (r: String)
    ensures
        r@ == join_pieces(views_of(v@), sep),
{
    if v.len() == 0 {
        return String::new();
    }
    let mut out: String = v[0].clone();
    let mut i: usize = 1;
    proof {
        assert(views_of(v@)[0] == v@[0]@);
    }
    while i < v.len()
        invariant
            1 <= i <= v.len(),
            join_pieces(views_of(v@), sep) == out@ + join_tail(views_of(v@).skip(i as int), sep),
        decreases v.len() - i,
    {
        proof {
            assert(views_of(v@).skip(i as int)[0] == v@[i as int]@);
            assert(views_of(v@).skip(i as int).drop_first() =~= views_of(v@).skip(i as int + 1));
        }
        let ghost old_out = out@;
        push_char(&mut out, sep);
        out.append(v[i].as_str());
        proof {
            assert(out@ =~= old_out + seq![sep] + v@[i as int]@);
            assert(old_out + (seq![sep] + v@[i as int]@ + join_tail(
                views_of(v@).skip(i as int + 1),
                sep,
            )) =~= out@ + join_tail(views_of(v@).skip(i as int + 1), sep));
        }
        i = i + 1;
    }
    proof {
        assert(views_of(v@).skip(i as int).len() == 0);
        assert(out@ + join_tail(views_of(v@).skip(i as int), sep) =~= out@);
    }
    out
}

/// The suffix of `s` after its last occurrence of `sep`, or `s` itself when
/// it has none; what `split` on `sep` yields as its last piece.
pub open spec fn suffix_after_last(s: Seq<char>, sep: char) -> Seq<char>
    decreases s.len(),
{
    if s.len() == 0 {
        Seq::<char>::empty()
    } else if s.last() == sep {
        Seq::<char>::empty()
    } else {
        suffix_after_last(s.drop_last(), sep).push(s.last())
    }
}

/// The suffix of a path after its last `/`: the display name a path-derived
/// node gets.
pub open spec fn last_segment(s: Seq<char>) -> Seq<char> {
    suffix_after_last(s, '/')
}

proof fn lemma_suffix_after_last_no_sep(s: Seq<char>, sep: char)
    requires
        forall|k: int| 0 <= k < s.len() ==> s[k] != sep,
    ensures
        suffix_after_last(s, sep) =~= s,
    decreases s.len(),
{
    if s.len() != 0 {
        lemma_suffix_after_last_no_sep(s.drop_last(), sep);
    }
}

proof fn lemma_suffix_after_last_sep_at(s: Seq<char>, sep: char, i: int)
    requires
        0 <= i < s.len(),
        s[i] == sep,
        forall|k: int| i < k < s.len() ==> s[k] != sep,
    ensures
        suffix_after_last(s, sep) =~= s.subrange(i + 1, s.len() as int),
    decreases s.len(),
{
    if i == s.len() - 1 {
    } else {
        lemma_suffix_after_last_sep_at(s.drop_last(), sep, i);
        assert(s.drop_last().subrange(i + 1, s.len() - 1) =~= s.subrange(i + 1, s.len() - 1));
        assert(s.subrange(i + 1, s.len() - 1).push(s.last()) =~= s.subrange(
            i + 1,
            s.len() as int,
        ));
    }
}

/// The suffix of `s` after its last occurrence of `sep`, or all of `s` when
/// it has none.
pub fn suffix_after_last_of(s: &str, sep: char) -> (r: String)
    ensures
        r@ == suffix_after_last(s@, sep),
{
    let len = s.unicode_len();
    let mut last_sep: Option<usize> = None;
    let mut i: usize = 0;
    while i < len
        invariant
            i <= len,
            len == s@.len(),
            match last_sep {
                Some(j) => j < i && s@[j as int] == sep && forall|k: int|
                    j < k < i ==> s@[k] != sep,
                None => forall|k: int| 0 <= k < i ==> s@[k] != sep,
            },
        decreases len - i,
    {
        let c = s.get_char(i);
        if c as u32 == sep as u32 {
            proof {
                assert(s@[i as int] as u32 as char == s@[i as int]);
                assert(sep as u32 as char == sep);
            }
            last_sep = Some(i);
        } else {
            proof {
                if s@[i as int] == sep {
                    assert(s@[i as int] as u32 == sep as u32);
                }
            }
        }
        i = i + 1;
    }
    match last_sep {
        Some(j) => {
            proof {
                lemma_suffix_after_last_sep_at(s@, sep, j as int);
            }
            let piece = s.substring_char(j + 1, len);
            String::from_str(piece)
        },
        None => {
            proof {
                lemma_suffix_after_last_no_sep(s@, sep);
            }
            String::from_str(s)
        },
    }
}

/// The suffix of `s` after its last `/`, or all of `s` when it has none.
pub fn last_segment_of(s: &str) -> (r: String)
    ensures
        r@ == last_segment(s@),
{
    suffix_after_last_of(s, '/')
}

/// Whether two strings hold the same characters.
pub fn str_eq(a: &str, b: &str) -> (r: bool)
    ensures
        r == (a@ == b@),
{
    let alen = a.unicode_len();
    let blen = b.unicode_len();
    if alen != blen {
        return false;
    }
    let r = check_match(a, b, 0);
    proof {
        assert(a@.subrange(0, a@.len() as int) =~= a@);
        if a@ == b@ {
            assert(matches_at(a@, b@, 0));
        }
    }
    r
}

/// The position of the first occurrence of `c` in `s`, or the length of `s`
/// when it does not occur.
pub open spec fn first_index_of(s: Seq<char>, c: char) -> int
    decreases s.len(),
{
    if s.len() == 0 {
        0
    } else if s[0] == c {
        0
    } else {
        1 + first_index_of(s.drop_first(), c)
    }
}

pub proof fn lemma_first_index_of(s: Seq<char>, c: char)
    ensures
        0 <= first_index_of(s, c) <= s.len(),
        first_index_of(s, c) < s.len() ==> s[first_index_of(s, c)] == c,
        forall|k: int| 0 <= k < first_index_of(s, c) ==> s[k] != c,
        (first_index_of(s, c) == s.len()) == (forall|k: int| 0 <= k < s.len() ==> s[k] != c),
    decreases s.len(),
{
    if s.len() != 0 && s[0] != c {
        lemma_first_index_of(s.drop_first(), c);
        assert(forall|k: int|
            1 <= k < s.len() ==> s[k] == s.drop_first()[k - 1]);
    }
}

/// The position of the first occurrence of `needle` in `hay` at or after
/// `from`, or the length of `hay` when there is none.
pub open spec fn first_match_from(hay: Seq<char>, needle: Seq<char>, from: int) -> int
    decreases hay.len() - from,
    when 0 <= from <= hay.len()
{
    if matches_at(hay, needle, from) {
        from
    } else if from >= hay.len() {
        hay.len() as int
    } else {
        first_match_from(hay, needle, from + 1)
    }
}

pub proof fn lemma_first_match_from_found(hay: Seq<char>, needle: Seq<char>, from: int, i: int)
    requires
        0 <= from <= i,
        matches_at(hay, needle, i),
        forall|k: int| from <= k < i ==> !matches_at(hay, needle, k),
    ensures
        first_match_from(hay, needle, from) == i,
    decreases i - from,
{
    if from < i {
        lemma_first_match_from_found(hay, needle, from + 1, i);
    }
}

pub proof fn lemma_first_match_from_none(hay: Seq<char>, needle: Seq<char>, from: int)
    requires
        0 <= from <= hay.len(),
        forall|k: int| from <= k ==> !matches_at(hay, needle, k),
    ensures
        first_match_from(hay, needle, from) == hay.len(),
    decreases hay.len() - from,
{
    if from < hay.len() {
        lemma_first_match_from_none(hay, needle, from + 1);
    }
}

/// `s` with every occurrence of `c` taken out.
pub open spec fn remove_char_spec(s: Seq<char>, c: char) -> Seq<char>
    decreases s.len(),
{
    if s.len() == 0 {
        Seq::<char>::empty()
    } else if s[0] == c {
        remove_char_spec(s.drop_first(), c)
    } else {
        seq![s[0]] + remove_char_spec(s.drop_first(), c)
    }
}

/// Takes every occurrence of `c` out of `s`.
pub fn remove_char(s: &str, c: char) -> (r: String)
    ensures
        r@ == remove_char_spec(s@, c),
{
    let len = s.unicode_len();
    let mut out = String::new();
    let mut i: usize = 0;
    proof {
        assert(s@.skip(0) =~= s@);
        assert(out@ + remove_char_spec(s@.skip(0), c) =~= remove_char_spec(s@, c));
    }
    while i < len
        invariant
            i <= len,
            len == s@.len(),
            remove_char_spec(s@, c) == out@ + remove_char_spec(s@.skip(i as int), c),
        decreases len - i,
    {
        let ci = s.get_char(i);
        proof {
            assert(s@.skip(i as int)[0] == s@[i as int]);
            assert(s@.skip(i as int).drop_first() =~= s@.skip(i as int + 1));
        }
        let ghost old_out = out@;
        if ci as u32 != c as u32 {
            proof {
                if s@[i as int] == c {
                    assert(s@[i as int] as u32 == c as u32);
                }
            }
            push_char(&mut out, ci);
            proof {
                assert(old_out + (seq![s@[i as int]] + remove_char_spec(
                    s@.skip(i as int + 1),
                    c,
                )) =~= out@ + remove_char_spec(s@.skip(i as int + 1), c));
            }
        } else {
            proof {
                assert(s@[i as int] as u32 as char == s@[i as int]);
                assert(c as u32 as char == c);
            }
        }
        i = i + 1;
    }
    proof {
        assert(s@.skip(i as int).len() == 0);
        assert(out@ + remove_char_spec(s@.skip(i as int), c) =~= out@);
    }
    out
}

/// The decimal digit character for `d`.
pub open spec fn dec_digit(d: int) -> char {
    if d == 0 {
        '0'
    } else if d == 1 {
        '1'
    } else if d == 2 {
        '2'
    } else if d == 3 {
        '3'
    } else if d == 4 {
        '4'
    } else if d == 5 {
        '5'
    } else if d == 6 {
        '6'
    } else if d == 7 {
        '7'
    } else if d == 8 {
        '8'
    } else {
        '9'
    }
}

/// The decimal rendering of a nonnegative number, most significant digit
/// first, with no leading zero except for the number zero itself.
pub open spec fn dec_digits(n: int) -> Seq<char>
    decreases n,
{
    if n < 10 {
        seq![dec_digit(n)]
    } else {
        dec_digits(n / 10).push(dec_digit(n % 10))
    }
}

fn dec_digit_char(d: u64) -> (c: char)
    requires
        d < 10,
    ensures
        c == dec_digit(d as int),
{
    match d {
        0 => '0',
        1 => '1',
        2 => '2',
        3 => '3',
        4 => '4',
        5 => '5',
        6 => '6',
        7 => '7',
        8 => '8',
        _ => '9',
    }
}

/// Renders `n` in decimal.
pub fn u64_to_decimal(n: u64) -> (r: String)
    ensures
        r@ == dec_digits(n as int),
    decreases n,
{
    if n < 10 {
        let mut s = String::new();
        push_char(&mut s, dec_digit_char(n));
        proof {
            assert(s@ =~= seq![dec_digit(n as int)]);
        }
        s
    } else {
        let mut s = u64_to_decimal(n / 10);
        push_char(&mut s, dec_digit_char(n % 10));
        s
    }
}

} // verus!
