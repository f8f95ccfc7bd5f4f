//! How a plugin's credential is read from a request.
use vstd::prelude::*;
use crate::text::{chars_of, has_prefix, slice_string, starts_with, trim, trim_spec};

verus! {

/// The credential in an `Authorization` header: after `Bearer ` where present, trimmed.
pub open spec fn bearer_token(h: Seq<char>) -> Seq<char> {
    if has_prefix(h, "Bearer "@) {
        trim_spec(h.subrange(7, h.len() as int))
    } else {
        trim_spec(h)
    }
}

/// Scans a query string for its `&`-separated pairs: those closed, and the one still open.
pub open spec fn pair_scan(q: Seq<char>) -> (Seq<Seq<char>>, Seq<char>)
    decreases q.len(),
{
    if q.len() == 0 {
        (Seq::empty(), Seq::empty())
    } else {
        let (done, cur) = pair_scan(q.drop_last());
        if q.last() == '&' {
            (done.push(cur), Seq::empty())
        } else {
            (done, cur.push(q.last()))
        }
    }
}

/// The `&`-separated pairs of a query string, empty ones included.
pub open spec fn query_pairs(q: Seq<char>) -> Seq<Seq<char>> {
    pair_scan(q).0.push(pair_scan(q).1)
}

/// The value of the first `access_token=` pair with a non-empty value; empty if none.
pub open spec fn first_access_token(ps: Seq<Seq<char>>) -> Seq<char>
    decreases ps.len(),
{
    if ps.len() == 0 {
        Seq::empty()
    } else if has_prefix(ps[0], "access_token="@) && ps[0].len() > 13 {
        ps[0].subrange(13, ps[0].len() as int)
    } else {
        first_access_token(ps.drop_first())
    }
}

/// The credential of a request: from the `Authorization` header where it gives a
/// non-empty one, else from the query's `access_token`; empty when neither does.
pub open spec fn access_token_spec(authorization: Option<Seq<char>>, query: Option<Seq<char>>) -> Seq<char> {
    match authorization {
        Some(h) if bearer_token(h).len() > 0 => bearer_token(h),
        _ => match query {
            Some(q) => first_access_token(query_pairs(q)),
            None => Seq::empty(),
        },
    }
}

pub open spec fn opt_str(o: Option<&str>) -> Option<Seq<char>> {
    match o {
        Some(s) => Some(s@),
        None => None,
    }
}

/// The credential in an `Authorization` header.
pub fn bearer(h: &str) -> (r: String)
    ensures
        r@ == bearer_token(h@),
{
    proof {
        reveal_strlit("Bearer ");
    }
    let cs = chars_of(h);
    let tag = chars_of("Bearer ");
    if starts_with(&cs, &tag) {
        let rest = slice_string(&cs, 7, cs.len());
        trim(rest.as_str())
    } else {
        trim(h)
    }
}

fn query_access_token(q: &str) -> (r: String)
    ensures
        r@ == first_access_token(query_pairs(q@)),
{
    proof {
        reveal_strlit("access_token=");
    }
    let cs = chars_of(q);
    let mut pairs: Vec<Vec<char>> = Vec::new();
    let mut cur: Vec<char> = Vec::new();
    let mut i: usize = 0;
    while i < cs.len()
        invariant
            i <= cs@.len(),
            cs@ == q@,
            (pairs@.map_values(|v: Vec<char>| v@), cur@) == pair_scan(cs@.subrange(0, i as int)),
        decreases cs@.len() - i,
    {
        assert(cs@.subrange(0, i as int + 1).drop_last() =~= cs@.subrange(0, i as int));
        if cs[i] == '&' {
            let ghost before = pairs@;
            let mut done: Vec<char> = Vec::new();
            std::mem::swap(&mut done, &mut cur);
            pairs.push(done);
            assert(pairs@.map_values(|v: Vec<char>| v@) =~= before.map_values(|v: Vec<char>| v@).push(done@));
        } else {
            cur.push(cs[i]);
        }
        i = i + 1;
    }
    assert(cs@.subrange(0, i as int) =~= cs@);
    let ghost before = pairs@;
    pairs.push(cur);
    let ghost ps = pairs@.map_values(|v: Vec<char>| v@);
    assert(ps =~= query_pairs(q@));
    let tag = chars_of("access_token=");
    assert(ps.subrange(0, ps.len() as int) =~= ps);
    let mut k: usize = 0;
    while k < pairs.len()
        invariant
            k <= pairs@.len(),
            ps == pairs@.map_values(|v: Vec<char>| v@),
            ps == query_pairs(q@),
            tag@ == "access_token="@,
            first_access_token(ps) == first_access_token(ps.subrange(k as int, ps.len() as int)),
        decreases pairs@.len() - k,
    {
        let ghost rest = ps.subrange(k as int, ps.len() as int);
        assert(rest[0] == pairs@[k as int]@);
        assert(rest.drop_first() =~= ps.subrange(k as int + 1, ps.len() as int));
        if starts_with(&pairs[k], &tag) && pairs[k].len() > 13 {
            assert(first_access_token(rest) == rest[0].subrange(13, rest[0].len() as int));
            return slice_string(&pairs[k], 13, pairs[k].len());
        }
        k = k + 1;
    }
    assert(ps.subrange(k as int, ps.len() as int) =~= Seq::<Seq<char>>::empty());
    String::new()
}

/// The credential a request carries, by header or query.
pub fn extract_access_token(authorization: Option<&str>, query: Option<&str>) -> (r: String)
    ensures
        r@ == access_token_spec(opt_str(authorization), opt_str(query)),
{
    match authorization {
        Some(h) => {
            let t = bearer(h);
            if t.unicode_len() > 0 {
                return t;
            }
        },
        None => {},
    }
    match query {
        Some(q) => query_access_token(q),
        None => String::new(),
    }
}

/// The credential of a call that must carry an `Authorization` header; none when the
/// header is missing or holds an empty one.
pub fn caller_token(authorization: Option<&str>) -> (r: Option<String>)
    ensures
        match authorization {
            None => r.is_none(),
            Some(h) => if bearer_token(h@).len() > 0 {
                r.is_some() && r.unwrap()@ == bearer_token(h@)
            } else {
                r.is_none()
            },
        },
{
    match authorization {
        Some(h) => {
            let t = bearer(h);
            if t.unicode_len() > 0 {
                Some(t)
            } else {
                None
            }
        },
        None => None,
    }
}

} // verus!
