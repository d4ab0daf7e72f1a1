//! Parsing of a URL query string, as a browser host hands it over.
//!
//! `parse_url_query_string` takes the raw string of
//! `window.location.search` — a `?` followed by `&`-separated
//! `key=value` pairs — and looks one key up.  The value of a pair is
//! what stands between its first and second `=`; a pair without any
//! `=` aborts the whole lookup.

use vstd::prelude::*;

verus! {

/// The kinds of shader program a pipeline stage binds.
#[derive(Clone, Copy, Debug, PartialEq, Eq, Structural)]
pub enum ShaderStage {
    Vertex,
    Fragment,
    Compute,
}

/// The first index in `[from, upto)` where `q` holds `ch`, or `upto`
/// if there is none.
pub open spec fn spec_find(q: Seq<char>, ch: char, from: int, upto: int) -> int
    decreases upto - from,
{
    if from >= upto {
        upto
    } else if q[from] == ch {
        from
    } else {
        spec_find(q, ch, from + 1, upto)
    }
}

/// The found position lies in `[from, upto]`.
pub proof fn lemma_find_range(q: Seq<char>, ch: char, from: int, upto: int)
    requires
        from <= upto,
    ensures
        from <= spec_find(q, ch, from, upto) <= upto,
    decreases upto - from,
{
    if from < upto && q[from] != ch {
        lemma_find_range(q, ch, from + 1, upto);
    }
}

/// Look `key` up among the pairs of `q` starting at `pos`: find the
/// pair's end (the next `&`), split it at its first `=` — a pair
/// without one ends the lookup — and hand back what stands up to the
/// second `=` when the key matches, else move to the next pair.
pub open spec fn spec_lookup(q: Seq<char>, key: Seq<char>, pos: int) -> Option<Seq<char>>
    decreases q.len() - pos,
    via spec_lookup_decreases
{
    if pos < 0 || pos > q.len() {
        None
    } else {
        let amp = spec_find(q, '&', pos, q.len() as int);
        let eq = spec_find(q, '=', pos, amp);
        if eq == amp {
            None
        } else {
            let eq2 = spec_find(q, '=', eq + 1, amp);
            if q.subrange(pos, eq) == key {
                Some(q.subrange(eq + 1, eq2))
            } else if amp == q.len() {
                None
            } else {
                spec_lookup(q, key, amp + 1)
            }
        }
    }
}

#[via_fn]
proof fn spec_lookup_decreases(q: Seq<char>, key: Seq<char>, pos: int) {
    if 0 <= pos <= q.len() {
        lemma_find_range(q, '&', pos, q.len() as int);
    }
}

/// What `parse_url_query_string` returns, over the character views:
/// nothing unless the query starts with `?`, else the lookup over the
/// rest.
pub open spec fn spec_parse_query(q: Seq<char>, key: Seq<char>) -> Option<Seq<char>> {
    if q.len() == 0 || q[0] != '?' {
        None
    } else {
        spec_lookup(q, key, 1)
    }
}

/// The first occurrence of `ch` in `[from, upto)` of `s`, or `upto`.
fn find_char(s: &str, ch: char, from: usize, upto: usize) -> (r: usize)
    requires
        from <= upto <= s@.len(),
    ensures
        r == spec_find(s@, ch, from as int, upto as int),
        from <= r <= upto,
{
    let mut i = from;
    while i < upto
        invariant
            from <= i <= upto <= s@.len(),
            spec_find(s@, ch, from as int, upto as int) == spec_find(s@, ch, i as int, upto as int),
        decreases upto - i,
    {
        if s.get_char(i) == ch {
            return i;
        }
        i += 1;
    }
    i
}

/// Whether `s[from, to)` spells exactly `key`.
fn range_is_key(s: &str, from: usize, to: usize, key: &str) -> (b: bool)
    requires
        from <= to <= s@.len(),
    ensures
        b <==> s@.subrange(from as int, to as int) == key@,
{
    let klen = key.unicode_len();
    if to - from != klen {
        proof {
            assert(s@.subrange(from as int, to as int).len() != key@.len());
        }
        return false;
    }
    let mut j: usize = 0;
    while j < klen
        invariant
            from <= to <= s@.len(),
            to - from == klen,
            klen == key@.len(),
            j <= klen,
            forall|t: int| 0 <= t < j ==> s@.subrange(from as int, to as int)[t] == key@[t],
        decreases klen - j,
    {
        let a = s.get_char(from + j);
        let b = key.get_char(j);
        if a != b {
            proof {
                assert(s@.subrange(from as int, to as int)[j as int] != key@[j as int]);
            }
            return false;
        }
        j += 1;
    }
    proof {
        assert(s@.subrange(from as int, to as int) =~= key@);
    }
    true
}

/// Parse the query string as a browser hands it over and look one key
/// up, handing back the raw value of the first matching pair.
pub fn parse_url_query_string<'a>(query: &'a str, search_key: &str) -> (r: Option<&'a str>)
    ensures
        r is Some ==> spec_parse_query(query@, search_key@) == Some(r->0@),
        r is None ==> spec_parse_query(query@, search_key@) is None,
{
    let n = query.unicode_len();
    if n == 0 || query.get_char(0) != '?' {
        return None;
    }
    let mut pos: usize = 1;
    while pos <= n
        invariant
            1 <= pos <= n,
            n == query@.len(),
            query@.len() > 0 && query@[0] == '?',
            spec_parse_query(query@, search_key@) == spec_lookup(query@, search_key@, pos as int),
        decreases n - pos,
    {
        let amp = find_char(query, '&', pos, n);
        let eq = find_char(query, '=', pos, amp);
        if eq == amp {
            return None;
        }
        let eq2 = find_char(query, '=', eq + 1, amp);
        if range_is_key(query, pos, eq, search_key) {
            let v = query.substring_char(eq + 1, eq2);
            return Some(v);
        }
        if amp == n {
            return None;
        }
        pos = amp + 1;
    }
    proof {
        assert(false);
    }
    None
}

} // verus!
