//! The static map builder. A string-keyed map is accumulated as an ordered
//! sequence of (key, value-text) pairs; once the map value is complete the
//! whole key set is handed to the perfect-hash generator, which yields one
//! literal construction expression for a static lookup structure. Because
//! that generator needs the complete key set, nothing is emitted before the
//! map closes. Duplicate keys are rejected with an error, never passed on.

use vstd::prelude::*;
use vstd::string::*;
use crate::error::UnevalError;
use crate::names::pairs_view;

verus! {

/// The literal text the perfect-hash generator emits for the given ordered
/// key/value-text pairs. The generator seeds its search with a fixed
/// constant, so the text is a function of the pairs alone.
pub uninterp spec fn phf_map_text(entries: Seq<(Seq<char>, Seq<char>)>) -> Seq<char>;

/// Two entries somewhere in the sequence share a key.
pub open spec fn has_dup_key(s: Seq<(Seq<char>, Seq<char>)>) -> bool {
    exists|i: int, j: int|
        #![trigger s[i], s[j]]
        0 <= i < j < s.len() && s[i].0 == s[j].0
}

/// Decides whether two entries share a key.
fn has_duplicate_key(entries: &Vec<(String, String)>) -> (r: bool)
    ensures
        r == has_dup_key(pairs_view(entries@)),
{
    let ghost ev = pairs_view(entries@);
    let n: usize = entries.len();
    let mut j: usize = 0;
    while j < n
        invariant
            j <= n,
            n == entries@.len(),
            ev == pairs_view(entries@),
            forall|a: int, b: int| #![trigger ev[a], ev[b]]
                0 <= a < b < j ==> ev[a].0 != ev[b].0,
        decreases n - j,
    {
        let mut i: usize = 0;
        while i < j
            invariant
                i <= j < n,
                n == entries@.len(),
                ev == pairs_view(entries@),
                forall|a: int| 0 <= a < i ==> (#[trigger] ev[a]).0 != ev[j as int].0,
            decreases j - i,
        {
            if entries[i].0 == entries[j].0 {
                proof {
                    assert(ev[i as int].0 == ev[j as int].0);
                }
                return true;
            }
            i = i + 1;
        }
        j = j + 1;
    }
    false
}

/// Relies on phf_codegen::Map: `entry` records each key and value text in
/// order, and `build` computes the hash state from the complete key set and
/// renders the whole map as one literal expression. `build` panics on
/// duplicate keys, so they are excluded here; with a fixed generator seed
/// the rendered text depends on the entries alone.
#[verifier::external_body]
fn phf_build(entries: &Vec<(String, String)>) -> (r: String)
    requires
        !has_dup_key(pairs_view(entries@)),
    ensures
        r@ == phf_map_text(pairs_view(entries@)),
{
    let mut m = phf_codegen::Map::new();
    for e in entries.iter() {
        m.entry(e.0.as_str(), e.1.as_str());
    }
    format!("{}", m.build())
}

/// Builds the literal text for one complete map: the perfect-hash-backed
/// construction expression, or an error when two entries share a key.
pub fn build_map_text(entries: &Vec<(String, String)>) -> (r: Result<String, UnevalError>)
    ensures
        !has_dup_key(pairs_view(entries@)) ==> (r matches Ok(t) && t@ == phf_map_text(
            pairs_view(entries@),
        )),
        has_dup_key(pairs_view(entries@)) ==> (r matches Err(e) && e is Custom),
{
    if has_duplicate_key(entries) {
        Err(UnevalError::Custom(String::from_str("duplicate key in map")))
    } else {
        Ok(phf_build(entries))
    }
}

} // verus!
