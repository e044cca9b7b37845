//! The CORS policy of the proxy, and how it is merged with the header
//! fields that the upstream returns.
use vstd::prelude::*;
use vstd::string::StringSliceAdditionalSpecFns;

use crate::header::{folded, headers_view, names_match, same_name, Header, HeaderView};

verus! {

pub const ALLOW_ORIGIN: &'static str = "access-control-allow-origin";

pub const ALLOW_METHODS: &'static str = "access-control-allow-methods";

pub const ALLOW_HEADERS: &'static str = "access-control-allow-headers";

pub const ANY_ORIGIN: &'static str = "*";

pub const ALLOWED_METHODS: &'static str = "POST, GET, OPTIONS, PUT, DELETE";

pub const ALLOWED_HEADERS: &'static str = "Content-Type, Authorization, Range";

/// The three CORS fields that every forwarded or preflight reply carries.
pub open spec fn cors_policy() -> Seq<HeaderView> {
    seq![
        (ALLOW_ORIGIN@, ANY_ORIGIN.spec_bytes()),
        (ALLOW_METHODS@, ALLOWED_METHODS.spec_bytes()),
        (ALLOW_HEADERS@, ALLOWED_HEADERS.spec_bytes()),
    ]
}

/// No two fields of the list have the same name.
pub open spec fn distinct_names(list: Seq<HeaderView>) -> bool {
    forall|i: int, j: int|
        0 <= i < list.len() && 0 <= j < list.len() && i != j ==> !same_name(
            #[trigger] list[i].0,
            #[trigger] list[j].0,
        )
}

/// Some field of the list has the given name.
pub open spec fn has_name(list: Seq<HeaderView>, name: Seq<char>) -> bool {
    exists|j: int| 0 <= j < list.len() && same_name(#[trigger] list[j].0, name)
}

/// No field after position `k` has the name of the field at `k`.
pub open spec fn last_of_its_name(list: Seq<HeaderView>, k: int) -> bool {
    forall|j: int| k < j < list.len() ==> !same_name(#[trigger] list[j].0, list[k].0)
}

/// The first position at or after `i` of a field with the given name, or -1.
pub open spec fn index_from(list: Seq<HeaderView>, name: Seq<char>, i: int) -> int
    decreases list.len() - i,
{
    if i < 0 || i >= list.len() {
        -1
    } else if same_name(list[i].0, name) {
        i
    } else {
        index_from(list, name, i + 1)
    }
}

/// Setting a field: it replaces the field of the same name, or is appended.
pub open spec fn put(list: Seq<HeaderView>, h: HeaderView) -> Seq<HeaderView> {
    let j = index_from(list, h.0, 0);
    if j >= 0 {
        list.update(j, h)
    } else {
        list.push(h)
    }
}

/// Setting each field of `hs` in turn, so that a later field wins.
pub open spec fn put_all(list: Seq<HeaderView>, hs: Seq<HeaderView>) -> Seq<HeaderView>
    decreases hs.len(),
{
    if hs.len() == 0 {
        list
    } else {
        put(put_all(list, hs.drop_last()), hs.last())
    }
}

proof fn lemma_index_from(list: Seq<HeaderView>, name: Seq<char>, i: int)
    requires
        0 <= i,
    ensures
        index_from(list, name, i) == -1 || i <= index_from(list, name, i) < list.len(),
        index_from(list, name, i) >= 0 ==> same_name(list[index_from(list, name, i)].0, name),
        index_from(list, name, i) == -1 ==> forall|j: int|
            i <= j < list.len() ==> !same_name(#[trigger] list[j].0, name),
    decreases list.len() - i,
{
    if i < list.len() && !same_name(list[i].0, name) {
        lemma_index_from(list, name, i + 1);
    }
}

proof fn lemma_put(list: Seq<HeaderView>, h: HeaderView)
    requires
        distinct_names(list),
    ensures
        distinct_names(put(list, h)),
        put(list, h).contains(h),
        forall|e: HeaderView| #[trigger]
            put(list, h).contains(e) ==> e == h || list.contains(e),
        forall|e: HeaderView|
            #[trigger] list.contains(e) && !same_name(e.0, h.0) ==> put(list, h).contains(e),
        forall|n: Seq<char>| #[trigger] has_name(list, n) ==> has_name(put(list, h), n),
{
    lemma_index_from(list, h.0, 0);
    let j = index_from(list, h.0, 0);
    let r = put(list, h);
    if j >= 0 {
        assert(r[j] == h);
        assert forall|e: HeaderView| #[trigger] r.contains(e) implies e == h || list.contains(e) by {
            let k = choose|k: int| 0 <= k < r.len() && r[k] == e;
            if k != j {
                assert(list[k] == e);
            }
        }
        assert forall|e: HeaderView|
            #[trigger] list.contains(e) && !same_name(e.0, h.0) implies r.contains(e) by {
            let k = choose|k: int| 0 <= k < list.len() && list[k] == e;
            assert(k != j);
            assert(r[k] == e);
        }
        assert forall|n: Seq<char>| #[trigger] has_name(list, n) implies has_name(r, n) by {
            let k = choose|k: int| 0 <= k < list.len() && same_name(list[k].0, n);
            if k == j {
                assert(same_name(r[j].0, n));
            } else {
                assert(same_name(r[k].0, n));
            }
        }
    } else {
        assert(r[list.len() as int] == h);
        assert forall|e: HeaderView| #[trigger] r.contains(e) implies e == h || list.contains(e) by {
            let k = choose|k: int| 0 <= k < r.len() && r[k] == e;
            if k < list.len() {
                assert(list[k] == e);
            }
        }
        assert forall|e: HeaderView|
            #[trigger] list.contains(e) && !same_name(e.0, h.0) implies r.contains(e) by {
            let k = choose|k: int| 0 <= k < list.len() && list[k] == e;
            assert(r[k] == e);
        }
        assert forall|n: Seq<char>| #[trigger] has_name(list, n) implies has_name(r, n) by {
            let k = choose|k: int| 0 <= k < list.len() && same_name(list[k].0, n);
            assert(same_name(r[k].0, n));
        }
    }
}

proof fn lemma_put_all(base: Seq<HeaderView>, hs: Seq<HeaderView>)
    requires
        distinct_names(base),
    ensures
        distinct_names(put_all(base, hs)),
        forall|k: int|
            0 <= k < hs.len() && #[trigger] last_of_its_name(hs, k) ==> put_all(base, hs).contains(
                hs[k],
            ),
        forall|e: HeaderView|
            #[trigger] base.contains(e) && !has_name(hs, e.0) ==> put_all(base, hs).contains(e),
        forall|e: HeaderView| #[trigger]
            put_all(base, hs).contains(e) ==> base.contains(e) || hs.contains(e),
        forall|n: Seq<char>| #[trigger]
            has_name(base, n) ==> has_name(put_all(base, hs), n),
    decreases hs.len(),
{
    if hs.len() > 0 {
        let init = hs.drop_last();
        let h = hs.last();
        let m = put_all(base, init);
        lemma_put_all(base, init);
        lemma_put(m, h);
        let r = put_all(base, hs);
        assert(r == put(m, h));
        assert forall|k: int|
            0 <= k < hs.len() && #[trigger] last_of_its_name(hs, k) implies r.contains(hs[k]) by {
            if k < hs.len() - 1 {
                assert(last_of_its_name(init, k)) by {
                    assert forall|j: int| k < j < init.len() implies !same_name(
                        #[trigger] init[j].0,
                        init[k].0,
                    ) by {
                        assert(init[j] == hs[j]);
                    }
                }
                assert(init[k] == hs[k]);
                assert(!same_name(hs[hs.len() - 1].0, hs[k].0));
                assert(m.contains(hs[k]));
            }
        }
        assert forall|e: HeaderView|
            #[trigger] base.contains(e) && !has_name(hs, e.0) implies r.contains(e) by {
            if has_name(init, e.0) {
                let j = choose|j: int| 0 <= j < init.len() && same_name(#[trigger] init[j].0, e.0);
                assert(hs[j] == init[j]);
            }
            assert(same_name(hs[hs.len() - 1].0, h.0));
            assert(m.contains(e));
        }
        assert forall|e: HeaderView| #[trigger] r.contains(e) implies base.contains(e)
            || hs.contains(e) by {
            if e == h {
                assert(hs[hs.len() - 1] == e);
            } else if !base.contains(e) {
                assert(init.contains(e));
                let j = choose|j: int| 0 <= j < init.len() && init[j] == e;
                assert(hs[j] == e);
            }
        }
    }
}

/// The CORS policy names three different fields.
pub proof fn lemma_cors_distinct()
    ensures
        distinct_names(cors_policy()),
{
    reveal_strlit("access-control-allow-origin");
    reveal_strlit("access-control-allow-methods");
    reveal_strlit("access-control-allow-headers");
    let p = cors_policy();
    assert(folded(p[0].0).len() != folded(p[1].0).len());
    assert(folded(p[0].0).len() != folded(p[2].0).len());
    assert(folded(p[1].0)[21] != folded(p[2].0)[21]);
}

/// What a caller receives as the fields of a relayed reply: no name occurs
/// twice; every field of the upstream that is the last of its name in the
/// upstream's list is there as it came; every CORS field whose name the
/// upstream did not send is there as the policy states it; every CORS name is
/// there; and every field there came from the upstream or from the policy.
pub proof fn lemma_relayed_headers(upstream: Seq<HeaderView>)
    ensures
        distinct_names(relayed_headers(upstream)),
        forall|k: int|
            0 <= k < upstream.len() && #[trigger] last_of_its_name(upstream, k)
                ==> relayed_headers(upstream).contains(upstream[k]),
        forall|c: int|
            0 <= c < 3 && !has_name(upstream, #[trigger] cors_policy()[c].0)
                ==> relayed_headers(upstream).contains(cors_policy()[c]),
        forall|c: int|
            0 <= c < 3 ==> has_name(relayed_headers(upstream), #[trigger] cors_policy()[c].0),
        forall|e: HeaderView| #[trigger]
            relayed_headers(upstream).contains(e) ==> upstream.contains(e)
                || cors_policy().contains(e),
{
    lemma_cors_distinct();
    lemma_put_all(cors_policy(), upstream);
    let p = cors_policy();
    assert forall|c: int| 0 <= c < 3 implies has_name(
        relayed_headers(upstream),
        #[trigger] cors_policy()[c].0,
    ) by {
        assert(same_name(p[c].0, p[c].0));
        assert(has_name(p, p[c].0));
    }
    assert forall|c: int|
        0 <= c < 3 && !has_name(upstream, #[trigger] cors_policy()[c].0) implies relayed_headers(
        upstream,
    ).contains(cors_policy()[c]) by {
        assert(p[c] == cors_policy()[c]);
        assert(p.contains(p[c]));
    }
}

/// The fields of a relayed reply: the CORS policy, then the upstream's
/// fields set over it one by one.
pub open spec fn relayed_headers(upstream: Seq<HeaderView>) -> Seq<HeaderView> {
    put_all(cors_policy(), upstream)
}

/// The CORS fields, in the order of the policy.
pub fn cors_headers() -> (r: Vec<Header>)
    ensures
        headers_view(r@) == cors_policy(),
{
    let mut r: Vec<Header> = Vec::new();
    r.push(Header::new(ALLOW_ORIGIN, ANY_ORIGIN.as_bytes()));
    r.push(Header::new(ALLOW_METHODS, ALLOWED_METHODS.as_bytes()));
    r.push(Header::new(ALLOW_HEADERS, ALLOWED_HEADERS.as_bytes()));
    assert(headers_view(r@) =~= cors_policy());
    r
}

/// The position of the first field named `name`, if any.
pub fn find_field(list: &Vec<Header>, name: &str) -> (r: Option<usize>)
    ensures
        match r {
            Some(j) => j as int == index_from(headers_view(list@), name@, 0),
            None => index_from(headers_view(list@), name@, 0) == -1,
        },
{
    let ghost hv = headers_view(list@);
    let mut i: usize = 0;
    while i < list.len()
        invariant
            i <= list.len(),
            hv == headers_view(list@),
            index_from(hv, name@, 0) == index_from(hv, name@, i as int),
        decreases list.len() - i,
    {
        if names_match(list[i].name.as_str(), name) {
            return Some(i);
        }
        i += 1;
    }
    None
}

/// Sets a field: replaces the first field of the same name, else appends it.
pub fn set_field(list: &mut Vec<Header>, h: Header)
    ensures
        headers_view(final(list)@) == put(headers_view(old(list)@), h@),
{
    proof {
        lemma_index_from(headers_view(list@), h@.0, 0);
    }
    match find_field(list, h.name.as_str()) {
        Some(j) => {
            list.set(j, h);
            assert(headers_view(list@) =~= put(headers_view(old(list)@), h@));
        },
        None => {
            list.push(h);
            assert(headers_view(list@) =~= put(headers_view(old(list)@), h@));
        },
    }
}

/// The fields of a relayed reply: the CORS fields first, then each field
/// that the upstream returned, a later one replacing an earlier one of the
/// same name.
pub fn relay_headers(upstream: &Vec<Header>) -> (r: Vec<Header>)
    ensures
        headers_view(r@) == relayed_headers(headers_view(upstream@)),
{
    let ghost up = headers_view(upstream@);
    let mut r = cors_headers();
    let mut i: usize = 0;
    while i < upstream.len()
        invariant
            i <= upstream.len(),
            up == headers_view(upstream@),
            headers_view(r@) == put_all(cors_policy(), up.subrange(0, i as int)),
        decreases upstream.len() - i,
    {
        assert(up.subrange(0, i + 1).drop_last() =~= up.subrange(0, i as int));
        set_field(&mut r, upstream[i].duplicate());
        i += 1;
    }
    assert(up.subrange(0, upstream.len() as int) =~= up);
    r
}

} // verus!
