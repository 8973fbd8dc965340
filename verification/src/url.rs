//! Query-string handling: decoding through form_urlencoded, lookup
//! verified against the decoded pair list.

use vstd::prelude::*;

verus! {

/// The key/value pairs a query string decodes to, in order.  A function
/// of the string alone.
pub uninterp spec fn query_pairs(s: Seq<char>) -> Seq<(Seq<char>, Seq<char>)>;

/// Relies on form_urlencoded::parse / Parse::into_owned: percent- and
/// plus-decoding of `key=value` pairs split on `&`, deterministic in the
/// input string.
#[verifier::external_body]
pub fn parse_query_string(query_string: &str) -> (r: Vec<(String, String)>)
    ensures
        r@.len() == query_pairs(query_string@).len(),
        forall|i: int|
            0 <= i < r@.len() ==> (#[trigger] r@[i]).0@ == query_pairs(query_string@)[i].0
                && r@[i].1@ == query_pairs(query_string@)[i].1,
{
    form_urlencoded::parse(query_string.as_bytes()).into_owned().collect()
}

/// The value bound to `k`, later pairs overriding earlier ones — the
/// semantics of collecting the pairs into a map.
pub open spec fn last_value(s: Seq<(String, String)>, k: Seq<char>) -> Option<Seq<char>>
    decreases s.len(),
{
    if s.len() == 0 {
        None
    } else if s.last().0@ == k {
        Some(s.last().1@)
    } else {
        last_value(s.drop_last(), k)
    }
}

/// The value bound to `k` among decoded pairs, later pairs overriding
/// earlier ones.
pub open spec fn last_pair(s: Seq<(Seq<char>, Seq<char>)>, k: Seq<char>) -> Option<Seq<char>>
    decreases s.len(),
{
    if s.len() == 0 {
        None
    } else if s.last().0 == k {
        Some(s.last().1)
    } else {
        last_pair(s.drop_last(), k)
    }
}

/// `last_value` over a pair list agrees with `last_pair` over its views.
proof fn lemma_last_value_views(v: Seq<(String, String)>, t: Seq<(Seq<char>, Seq<char>)>, k: Seq<char>)
    requires
        v.len() == t.len(),
        forall|i: int| 0 <= i < v.len() ==> (#[trigger] v[i]).0@ == t[i].0 && v[i].1@ == t[i].1,
    ensures
        last_value(v, k) == last_pair(t, k),
    decreases v.len(),
{
    if v.len() > 0 {
        assert(v.last() == v[v.len() - 1]);
        if v.last().0@ != k {
            assert(forall|i: int|
                0 <= i < v.drop_last().len() ==> (#[trigger] v.drop_last()[i]) == v[i]
                    && t.drop_last()[i] == t[i]);
            lemma_last_value_views(v.drop_last(), t.drop_last(), k);
        }
    }
}

/// One query parameter, straight from the raw query string: decode the
/// pairs and take the last binding of `key`, the value a map built from
/// the pairs would hold.
pub fn query_param(query_string: &str, key: &str) -> (r: Option<String>)
    ensures
        r matches Some(v) ==> last_pair(query_pairs(query_string@), key@) == Some(v@),
        r is None ==> last_pair(query_pairs(query_string@), key@) is None,
{
    let pairs = parse_query_string(query_string);
    let r = query_get(&pairs, key);
    proof {
        lemma_last_value_views(pairs@, query_pairs(query_string@), key@);
    }
    r
}

/// Look a parameter up in a decoded pair list.
pub fn query_get(pairs: &Vec<(String, String)>, key: &str) -> (r: Option<String>)
    ensures
        r matches Some(v) ==> last_value(pairs@, key@) == Some(v@),
        r is None ==> last_value(pairs@, key@) is None,
{
    let k: String = key.to_owned();
    let n: usize = pairs.len();
    let mut found: Option<String> = None;
    let mut i: usize = 0;
    while i < n
        invariant
            0 <= i <= n == pairs@.len(),
            k@ == key@,
            match found {
                Some(v) => last_value(pairs@.subrange(0, i as int), key@) == Some(v@),
                None => last_value(pairs@.subrange(0, i as int), key@) is None,
            },
        decreases n - i,
    {
        proof {
            assert(pairs@.subrange(0, i + 1).drop_last() =~= pairs@.subrange(0, i as int));
            assert(pairs@.subrange(0, i + 1).last() == pairs@[i as int]);
            assert(k@ == key@);
        }
        let hit: bool = pairs[i].0 == k;
        if hit {
            found = Some(pairs[i].1.clone());
            proof {
                assert(last_value(pairs@.subrange(0, i + 1), key@) == Some(
                    pairs@[i as int].1@,
                ));
            }
        } else {
            proof {
                assert(pairs@[i as int].0@ != key@);
                assert(last_value(pairs@.subrange(0, i + 1), key@) == last_value(
                    pairs@.subrange(0, i as int),
                    key@,
                ));
            }
        }
        i = i + 1;
    }
    proof {
        assert(pairs@.subrange(0, n as int) =~= pairs@);
    }
    found
}

} // verus!
