use vstd::prelude::*;
use vstd::std_specs::iter::IteratorSpec;

verus! {

broadcast use {vstd::string::axiom_spec_iter, vstd::string::next_postcondition};

/// Whether `text` matches the LIKE-style `pattern`, case-sensitively: `%`
/// stands for any run of characters (the empty run too), `_` for exactly one
/// character, and every other character for itself.
pub open spec fn like_matches(pattern: Seq<char>, text: Seq<char>) -> bool
    decreases pattern.len() + text.len(),
{
    if pattern.len() == 0 {
        text.len() == 0
    } else if pattern[0] == '%' {
        like_matches(pattern.drop_first(), text) || (text.len() > 0 && like_matches(
            pattern,
            text.drop_first(),
        ))
    } else if pattern[0] == '_' {
        text.len() > 0 && like_matches(pattern.drop_first(), text.drop_first())
    } else {
        text.len() > 0 && text[0] == pattern[0] && like_matches(
            pattern.drop_first(),
            text.drop_first(),
        )
    }
}

/// Whether a pattern holds a wildcard character.
pub open spec fn has_wildcard(pattern: Seq<char>) -> bool {
    exists|i: int| 0 <= i < pattern.len() && (pattern[i] == '%' || pattern[i] == '_')
}

/// A pattern without wildcards matches exactly the text equal to it.
pub proof fn lemma_plain_pattern_is_equality(pattern: Seq<char>, text: Seq<char>)
    requires
        !has_wildcard(pattern),
    ensures
        like_matches(pattern, text) <==> pattern == text,
    decreases pattern.len() + text.len(),
{
    if pattern.len() > 0 {
        assert(!has_wildcard(pattern.drop_first())) by {
            if has_wildcard(pattern.drop_first()) {
                let i = choose|i: int|
                    0 <= i < pattern.drop_first().len() && (pattern.drop_first()[i] == '%'
                        || pattern.drop_first()[i] == '_');
                assert(pattern[i + 1] == pattern.drop_first()[i]);
            }
        }
        assert(pattern[0] != '%' && pattern[0] != '_') by {
            if pattern[0] == '%' || pattern[0] == '_' {
                assert(has_wildcard(pattern));
            }
        }
        if text.len() > 0 {
            lemma_plain_pattern_is_equality(pattern.drop_first(), text.drop_first());
            if pattern == text {
                assert(pattern.drop_first() == text.drop_first());
            }
            if text[0] == pattern[0] && pattern.drop_first() == text.drop_first() {
                assert(pattern =~= text) by {
                    assert forall|i: int| 0 <= i < pattern.len() implies pattern[i] == text[i] by {
                        if i > 0 {
                            assert(pattern[i] == pattern.drop_first()[i - 1]);
                            assert(text[i] == text.drop_first()[i - 1]);
                        }
                    }
                }
            }
        }
    } else {
        if text.len() == 0 {
            assert(pattern =~= text);
        }
    }
}

/// The characters of a string, one per element.
pub fn chars_of(s: &str) -> (r: Vec<char>)
    ensures
        r@ == s@,
{
    let mut it = s.chars();
    let mut out: Vec<char> = Vec::new();
    loop
        invariant
            out@ + it.remaining() == s@,
            it.decrease() is Some,
        ensures
            out@ == s@,
        decreases it.decrease()->0,
    {
        match it.next() {
            Some(c) => {
                proof {
                    assert(out@.push(c) + it.remaining() =~= out@ + seq![c] + it.remaining());
                }
                out.push(c);
            },
            None => {
                assert(out@ + it.remaining() =~= out@);
                assert(out@ == s@);
                break ;
            },
        }
    }
    out
}

/// One step of the matching recursion, stated on suffixes.
proof fn lemma_unfold(p: Seq<char>, t: Seq<char>, i: int, k: int)
    requires
        0 <= i < p.len(),
        0 <= k <= t.len(),
    ensures
        like_matches(p.subrange(i, p.len() as int), t.subrange(k, t.len() as int)) == if p[i]
            == '%' {
            like_matches(p.subrange(i + 1, p.len() as int), t.subrange(k, t.len() as int)) || (k
                < t.len() && like_matches(
                p.subrange(i, p.len() as int),
                t.subrange(k + 1, t.len() as int),
            ))
        } else if p[i] == '_' {
            k < t.len() && like_matches(
                p.subrange(i + 1, p.len() as int),
                t.subrange(k + 1, t.len() as int),
            )
        } else {
            k < t.len() && t[k] == p[i] && like_matches(
                p.subrange(i + 1, p.len() as int),
                t.subrange(k + 1, t.len() as int),
            )
        },
{
    let ps = p.subrange(i, p.len() as int);
    let ts = t.subrange(k, t.len() as int);
    assert(ps.drop_first() =~= p.subrange(i + 1, p.len() as int));
    if k < t.len() {
        assert(ts.drop_first() =~= t.subrange(k + 1, t.len() as int));
    }
}

/// Whether the text `t` matches the pattern `p`, both given as characters.
///
/// Fills, from the last pattern position back to the first, a row that
/// records for each text position whether the pattern's suffix matches the
/// text's suffix; it runs in time proportional to the product of the lengths.
pub fn like_match_chars(p: &Vec<char>, t: &Vec<char>) -> (r: bool)
    ensures
        r == like_matches(p@, t@),
{
    let n = p.len();
    let m = t.len();
    let ghost pv = p@;
    let ghost tv = t@;
    // the row for the empty pattern suffix
    let mut next: Vec<bool> = Vec::new();
    let mut k: usize = 0;
    while k < m
        invariant
            k <= m,
            m == tv.len(),
            n == pv.len(),
            next@.len() == k,
            forall|x: int|
                0 <= x < k ==> next@[x] == like_matches(
                    pv.subrange(n as int, n as int),
                    tv.subrange(x, m as int),
                ),
        decreases m - k,
    {
        assert(pv.subrange(n as int, n as int).len() == 0);
        next.push(false);
        k = k + 1;
    }
    next.push(true);
    assert(tv.subrange(m as int, m as int).len() == 0);
    let mut i: usize = n;
    while i > 0
        invariant
            i <= n,
            n == pv.len(),
            m == tv.len(),
            pv == p@,
            tv == t@,
            next@.len() == m + 1,
            forall|x: int|
                0 <= x <= m ==> next@[x] == like_matches(
                    pv.subrange(i as int, n as int),
                    tv.subrange(x, m as int),
                ),
        decreases i,
    {
        i = i - 1;
        let c = p[i];
        let mut cur: Vec<bool> = Vec::new();
        let mut z: usize = 0;
        while z < m
            invariant
                z <= m,
                cur@.len() == z,
            decreases m - z,
        {
            cur.push(false);
            z = z + 1;
        }
        proof {
            lemma_unfold(pv, tv, i as int, m as int);
        }
        cur.push(c == '%' && next[m]);
        let mut j: usize = m;
        while j > 0
            invariant
                j <= m,
                i < n,
                n == pv.len(),
                m == tv.len(),
                pv == p@,
                tv == t@,
                c == pv[i as int],
                next@.len() == m + 1,
                cur@.len() == m + 1,
                forall|x: int|
                    0 <= x <= m ==> next@[x] == like_matches(
                        pv.subrange(i + 1, n as int),
                        tv.subrange(x, m as int),
                    ),
                forall|x: int|
                    j <= x <= m ==> cur@[x] == like_matches(
                        pv.subrange(i as int, n as int),
                        tv.subrange(x, m as int),
                    ),
            decreases j,
        {
            let x = j - 1;
            proof {
                lemma_unfold(pv, tv, i as int, x as int);
            }
            let v = if c == '%' {
                next[x] || cur[x + 1]
            } else if c == '_' {
                next[x + 1]
            } else {
                t[x] == c && next[x + 1]
            };
            cur.set(x, v);
            j = x;
        }
        next = cur;
    }
    assert(pv.subrange(0, n as int) =~= pv);
    assert(tv.subrange(0, m as int) =~= tv);
    next[0]
}

/// Whether `text` matches the LIKE-style `pattern`.
pub fn like_match(pattern: &str, text: &str) -> (r: bool)
    ensures
        r == like_matches(pattern@, text@),
{
    let p = chars_of(pattern);
    let t = chars_of(text);
    like_match_chars(&p, &t)
}

} // verus!
