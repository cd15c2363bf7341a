//! View helpers shared by the data types of the crate.
//!
//! Contracts throughout the library speak about character sequences rather
//! than `String` values, so the optional and repeated string fields of the
//! data types need a common way to be lifted to that level, and a few small
//! executable helpers clone such fields with their views preserved.

use vstd::prelude::*;

verus! {

/// The view of an optional string.
pub open spec fn opt_str_view(o: Option<String>) -> Option<Seq<char>> {
    match o {
        Some(s) => Some(s@),
        None => None,
    }
}

/// The views of a sequence of strings, in order.
pub open spec fn str_seq_view(s: Seq<String>) -> Seq<Seq<char>> {
    s.map_values(|x: String| x@)
}

/// The views of a sequence of string pairs, in order.
pub open spec fn pair_seq_view(s: Seq<(String, String)>) -> Seq<(Seq<char>, Seq<char>)> {
    s.map_values(|x: (String, String)| (x.0@, x.1@))
}

/// The view of an optional list of strings.
pub open spec fn opt_strs_view(o: Option<Vec<String>>) -> Option<Seq<Seq<char>>> {
    match o {
        Some(v) => Some(str_seq_view(v@)),
        None => None,
    }
}

/// The view of an optional list of string pairs.
pub open spec fn opt_pairs_view(o: Option<Vec<(String, String)>>) -> Option<
    Seq<(Seq<char>, Seq<char>)>,
> {
    match o {
        Some(v) => Some(pair_seq_view(v@)),
        None => None,
    }
}

/// Clones an optional string.
pub fn clone_opt_str(o: &Option<String>) -> (r: Option<String>)
    ensures
        r == *o,
{
    match o {
        Some(s) => Some(s.clone()),
        None => None,
    }
}

/// Clones a list of strings, preserving its view.
pub fn clone_strs(v: &Vec<String>) -> (r: Vec<String>)
    ensures
        r@ == v@,
{
    let mut r: Vec<String> = Vec::new();
    let n = v.len();
    for i in 0..n
        invariant
            n == v@.len(),
            r@ =~= v@.take(i as int),
    {
        r.push(v[i].clone());
        proof {
            assert(r@ =~= v@.take(i + 1));
        }
    }
    proof {
        assert(v@.take(n as int) =~= v@);
    }
    r
}

/// Clones a list of string pairs, preserving its view.
pub fn clone_pairs(v: &Vec<(String, String)>) -> (r: Vec<(String, String)>)
    ensures
        r@ == v@,
{
    let mut r: Vec<(String, String)> = Vec::new();
    let n = v.len();
    for i in 0..n
        invariant
            n == v@.len(),
            r@ =~= v@.take(i as int),
    {
        r.push((v[i].0.clone(), v[i].1.clone()));
        proof {
            assert((v@[i as int].0, v@[i as int].1) == v@[i as int]);
            assert(r@ =~= v@.take(i + 1));
        }
    }
    proof {
        assert(v@.take(n as int) =~= v@);
    }
    r
}

/// Clones an optional list of strings, preserving its view.
pub fn clone_opt_strs(o: &Option<Vec<String>>) -> (r: Option<Vec<String>>)
    ensures
        opt_strs_view(r) == opt_strs_view(*o),
{
    match o {
        Some(v) => Some(clone_strs(v)),
        None => None,
    }
}

/// Clones an optional list of string pairs, preserving its view.
pub fn clone_opt_pairs(o: &Option<Vec<(String, String)>>) -> (r: Option<Vec<(String, String)>>)
    ensures
        opt_pairs_view(r) == opt_pairs_view(*o),
{
    match o {
        Some(v) => Some(clone_pairs(v)),
        None => None,
    }
}

/// Clones a byte string.
pub fn clone_bytes(v: &Vec<u8>) -> (r: Vec<u8>)
    ensures
        r@ == v@,
{
    let mut r: Vec<u8> = Vec::new();
    let n = v.len();
    for i in 0..n
        invariant
            n == v@.len(),
            r@ =~= v@.take(i as int),
    {
        r.push(v[i]);
        proof {
            assert(r@ =~= v@.take(i + 1));
        }
    }
    proof {
        assert(v@.take(n as int) =~= v@);
    }
    r
}

/// Extending an iteration prefix by one element grows its set of seen
/// elements by exactly that element.
pub proof fn lemma_take_to_set<A>(s: Seq<A>, j: int)
    requires
        0 <= j < s.len(),
    ensures
        s.take(j + 1).to_set() =~= s.take(j).to_set().insert(s[j]),
{
    assert forall|a: A| s.take(j + 1).to_set().contains(a) implies s.take(j).to_set().insert(
        s[j],
    ).contains(a) by {
        let w = choose|w: int| 0 <= w < s.take(j + 1).len() && (#[trigger] s.take(j + 1)[w]) == a;
        if w < j {
            assert(s.take(j)[w] == a);
        }
    }
    assert forall|a: A| s.take(j).to_set().insert(s[j]).contains(a) implies s.take(
        j + 1,
    ).to_set().contains(a) by {
        if a == s[j] {
            assert(s.take(j + 1)[j] == a);
        } else {
            let w = choose|w: int| 0 <= w < s.take(j).len() && (#[trigger] s.take(j)[w]) == a;
            assert(s.take(j + 1)[w] == a);
        }
    }
}

} // verus!
