//! The address of the upstream call: the upstream's base URL and the
//! forwarding tail, joined by exactly one slash, then the query, if any.
use vstd::prelude::*;

verus! {

/// The text with every trailing '/' removed.
pub open spec fn trim_end_slashes(s: Seq<char>) -> Seq<char>
    decreases s.len(),
{
    if s.len() > 0 && s.last() == '/' {
        trim_end_slashes(s.drop_last())
    } else {
        s
    }
}

/// The text with every leading '/' removed.
pub open spec fn trim_start_slashes(s: Seq<char>) -> Seq<char>
    decreases s.len(),
{
    if s.len() > 0 && s[0] == '/' {
        trim_start_slashes(s.drop_first())
    } else {
        s
    }
}

/// Base and tail with exactly one '/' between them.
pub open spec fn join_url(base: Seq<char>, tail: Seq<char>) -> Seq<char> {
    trim_end_slashes(base) + seq!['/'] + trim_start_slashes(tail)
}

/// The full address of the upstream call; an empty query adds nothing.
pub open spec fn target_of(base: Seq<char>, tail: Seq<char>, query: Seq<char>) -> Seq<char> {
    if query.len() == 0 {
        join_url(base, tail)
    } else {
        join_url(base, tail) + seq!['?'] + query
    }
}

/// The position in `s` where its trailing slashes begin.
fn end_without_slashes(s: &str) -> (e: usize)
    ensures
        e <= s@.len(),
        trim_end_slashes(s@) == s@.subrange(0, e as int),
{
    let mut e = s.unicode_len();
    assert(s@.subrange(0, e as int) =~= s@);
    while e > 0 && s.get_char(e - 1) == '/'
        invariant
            e <= s@.len(),
            trim_end_slashes(s@) == trim_end_slashes(s@.subrange(0, e as int)),
        decreases e,
    {
        assert(s@.subrange(0, e as int).drop_last() =~= s@.subrange(0, e - 1));
        e -= 1;
    }
    e
}

/// The position in `s` where its leading slashes end.
fn start_without_slashes(s: &str) -> (b: usize)
    ensures
        b <= s@.len(),
        trim_start_slashes(s@) == s@.subrange(b as int, s@.len() as int),
{
    let n = s.unicode_len();
    let mut b: usize = 0;
    assert(s@.subrange(0, n as int) =~= s@);
    while b < n && s.get_char(b) == '/'
        invariant
            n == s@.len(),
            b <= n,
            trim_start_slashes(s@) == trim_start_slashes(s@.subrange(b as int, n as int)),
        decreases n - b,
    {
        assert(s@.subrange(b as int, n as int).drop_first() =~= s@.subrange(b + 1, n as int));
        b += 1;
    }
    b
}

/// Joins the upstream's base URL and the forwarding tail with exactly one
/// '/', and appends '?' and the query when the query is not empty.
pub fn target_url(base: &str, tail: &str, query: &str) -> (r: String)
    ensures
        r@ == target_of(base@, tail@, query@),
{
    let e = end_without_slashes(base);
    let b = start_without_slashes(tail);
    let n = tail.unicode_len();
    let mut r = base.substring_char(0, e).to_owned();
    r.append("/");
    r.append(tail.substring_char(b, n));
    proof {
        reveal_strlit("/");
        reveal_strlit("?");
    }
    if query.unicode_len() > 0 {
        r.append("?");
        r.append(query);
    }
    assert(r@ =~= target_of(base@, tail@, query@));
    r
}

} // verus!
