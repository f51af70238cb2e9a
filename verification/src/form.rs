//! Decoding of form-encoded request bodies. The wire decoding is done by
//! `serde_urlencoded` and trusted under a name; which fields are picked out
//! of the decoded pairs is verified logic.

use vstd::prelude::*;
use crate::text::string_of_chars;

verus! {

/// The view of a decoded pair list.
pub open spec fn pairs_view(ps: Seq<(String, String)>) -> Seq<(Seq<char>, Seq<char>)> {
    ps.map_values(|p: (String, String)| (p.0@, p.1@))
}

/// What decoding a form-encoded body yields: the key-value pairs in order,
/// or nothing where the body is not a well-formed form. The decoding is a
/// function of the bytes alone.
pub uninterp spec fn form_pairs_of(b: Seq<u8>) -> Option<Seq<(Seq<char>, Seq<char>)>>;

/// Relies on `serde_urlencoded::from_bytes` into a list of string pairs: the
/// decoded pairs of the body, in order.
#[verifier::external_body]
pub fn parse_form(body: &Vec<u8>) -> (r: Option<Vec<(String, String)>>)
    ensures
        r is Some <==> form_pairs_of(body@) is Some,
        r matches Some(ps) ==> form_pairs_of(body@) == Some(pairs_view(ps@)),
{
    match serde_urlencoded::from_bytes::<Vec<(String, String)>>(body) {
        Ok(v) => Some(v),
        Err(_) => None,
    }
}

/// The value of the first pair carrying key `k`, if any.
pub open spec fn first_val(ps: Seq<(Seq<char>, Seq<char>)>, k: Seq<char>) -> Option<Seq<char>>
    decreases ps.len(),
{
    if ps.len() == 0 {
        None
    } else if ps[0].0 == k {
        Some(ps[0].1)
    } else {
        first_val(ps.drop_first(), k)
    }
}

/// Pairs before the first match do not change what is found.
proof fn lemma_first_val_skip(ps: Seq<(Seq<char>, Seq<char>)>, k: Seq<char>, i: int)
    requires
        0 <= i <= ps.len(),
        forall|j: int| 0 <= j < i ==> ps[j].0 != k,
    ensures
        first_val(ps, k) == first_val(ps.skip(i), k),
    decreases i,
{
    if i > 0 {
        assert(ps[0].0 != k);
        lemma_first_val_skip(ps.drop_first(), k, i - 1);
        assert(ps.drop_first().skip(i - 1) =~= ps.skip(i));
    } else {
        assert(ps.skip(0) =~= ps);
    }
}

/// Finds the first pair whose key reads as `key`.
pub fn find_first(pairs: &Vec<(String, String)>, key: &Vec<char>) -> (r: Option<usize>)
    ensures
        r matches Some(i) ==> i < pairs@.len() && first_val(pairs_view(pairs@), key@) == Some(
            pairs@[i as int].1@,
        ),
        r is None ==> first_val(pairs_view(pairs@), key@) is None,
{
    let ghost ps = pairs_view(pairs@);
    let ks = string_of_chars(key);
    let mut i: usize = 0;
    while i < pairs.len()
        invariant
            i <= pairs@.len(),
            ps == pairs_view(pairs@),
            ps.len() == pairs@.len(),
            ks@ == key@,
            forall|j: int| 0 <= j < i ==> ps[j].0 != key@,
        decreases pairs.len() - i,
    {
        assert(ps[i as int] == (pairs@[i as int].0@, pairs@[i as int].1@));
        if pairs[i].0 == ks {
            proof {
                lemma_first_val_skip(ps, key@, i as int);
                assert(ps.skip(i as int)[0] == ps[i as int]);
            }
            return Some(i);
        }
        i += 1;
    }
    proof {
        lemma_first_val_skip(ps, key@, ps.len() as int);
        assert(ps.skip(ps.len() as int) =~= Seq::<(Seq<char>, Seq<char>)>::empty());
    }
    None
}

} // verus!
