//! The name-mapping table: a rename table from data-model identifiers to
//! output identifiers, consulted whenever a type, variant or field name is
//! printed. A later insertion for the same key overwrites the earlier one;
//! an unmapped name resolves to itself. No identifier syntax is validated:
//! an ill-formed replacement yields ill-formed output text, a documented
//! limitation.

use vstd::prelude::*;
use vstd::string::*;

verus! {

/// The character-level view of a sequence of string pairs.
pub open spec fn pairs_view(s: Seq<(String, String)>) -> Seq<(Seq<char>, Seq<char>)> {
    s.map_values(|p: (String, String)| (p.0@, p.1@))
}

/// The last pair with the given key, searched from the back.
pub open spec fn lookup(s: Seq<(Seq<char>, Seq<char>)>, k: Seq<char>) -> Option<Seq<char>>
    decreases s.len(),
{
    if s.len() == 0 {
        None
    } else if s.last().0 == k {
        Some(s.last().1)
    } else {
        lookup(s.drop_last(), k)
    }
}

/// The mapping a sequence of insertions denotes: later pairs overwrite
/// earlier ones.
pub open spec fn table_model(s: Seq<(Seq<char>, Seq<char>)>) -> Map<Seq<char>, Seq<char>>
    decreases s.len(),
{
    if s.len() == 0 {
        Map::empty()
    } else {
        table_model(s.drop_last()).insert(s.last().0, s.last().1)
    }
}

/// What resolving a name against a mapping yields: the replacement when the
/// name is mapped, the name itself otherwise.
pub open spec fn resolved(m: Map<Seq<char>, Seq<char>>, n: Seq<char>) -> Seq<char> {
    if m.dom().contains(n) {
        m[n]
    } else {
        n
    }
}

/// A backward search agrees with the insertion-order model.
pub proof fn lemma_lookup_model(s: Seq<(Seq<char>, Seq<char>)>, k: Seq<char>)
    ensures
        lookup(s, k) is Some <==> table_model(s).dom().contains(k),
        lookup(s, k) matches Some(v) ==> table_model(s)[k] == v,
    decreases s.len(),
{
    if s.len() == 0 {
        assert(table_model(s) == Map::<Seq<char>, Seq<char>>::empty());
    } else {
        lemma_lookup_model(s.drop_last(), k);
    }
}

/// The rename table.
pub struct NameMap {
    entries: Vec<(String, String)>,
}

impl View for NameMap {
    type V = Map<Seq<char>, Seq<char>>;

    closed spec fn view(&self) -> Map<Seq<char>, Seq<char>> {
        table_model(pairs_view(self.entries@))
    }
}

impl NameMap {
    /// An empty table: every name resolves to itself.
    pub fn new() -> (r: Self)
        ensures
            r@ == Map::<Seq<char>, Seq<char>>::empty(),
    {
        let r = NameMap { entries: Vec::new() };
        proof {
            assert(pairs_view(r.entries@) =~= Seq::<(Seq<char>, Seq<char>)>::empty());
        }
        r
    }

    /// Inserts a mapping; an existing mapping for the same name is
    /// overwritten.
    pub fn add_mapping(&mut self, from: String, to: String)
        ensures
            final(self)@ == old(self)@.insert(from@, to@),
    {
        let ghost pre = pairs_view(self.entries@);
        let ghost fv = from@;
        let ghost tv = to@;
        self.entries.push((from, to));
        proof {
            let post = pairs_view(self.entries@);
            assert(post =~= pre.push((fv, tv)));
            assert(post.drop_last() =~= pre);
            assert(post.last() == (fv, tv));
        }
    }

    /// Resolves a name: the mapped replacement, or the name unchanged.
    pub fn resolve(&self, name: &str) -> (r: String)
        ensures
            r@ == resolved(self@, name@),
    {
        let ghost full = pairs_view(self.entries@);
        let needle = String::from_str(name);
        let n: usize = self.entries.len();
        proof {
            assert(full.take(n as int) =~= full);
        }
        let mut i: usize = n;
        while i > 0
            invariant
                i <= n,
                n == self.entries@.len(),
                full == pairs_view(self.entries@),
                needle@ == name@,
                lookup(full, name@) == lookup(full.take(i as int), name@),
            decreases i,
        {
            proof {
                let t = full.take(i as int);
                assert(t.last() == full[i - 1int]);
                assert(t.drop_last() =~= full.take(i - 1int));
            }
            if self.entries[i - 1].0 == needle {
                let r = self.entries[i - 1].1.clone();
                proof {
                    assert(lookup(full, name@) == Some(full[i - 1int].1));
                    lemma_lookup_model(full, name@);
                }
                return r;
            }
            i = i - 1;
        }
        proof {
            assert(full.take(0int) =~= Seq::<(Seq<char>, Seq<char>)>::empty());
            lemma_lookup_model(full, name@);
        }
        needle
    }
}

/// Mapping the same name twice keeps only the later replacement, and a name
/// that was never mapped resolves to itself.
pub proof fn lemma_mapping_overwrites(
    m: Map<Seq<char>, Seq<char>>,
    k: Seq<char>,
    v1: Seq<char>,
    v2: Seq<char>,
)
    ensures
        resolved(m.insert(k, v1).insert(k, v2), k) == v2,
{
}

/// An unmapped name passes through a resolution unchanged.
pub proof fn lemma_resolve_unmapped(m: Map<Seq<char>, Seq<char>>, n: Seq<char>)
    requires
        !m.dom().contains(n),
    ensures
        resolved(m, n) == n,
{
}

} // verus!
