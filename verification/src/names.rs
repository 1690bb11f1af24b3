//! Lists of names and the sets they stand for.

use vstd::hash_set::StringHashSet;
use vstd::prelude::*;

verus! {

/// Extending a prefix of a sequence by one element adds that element to the
/// set of its members.
pub(crate) proof fn lemma_take_to_set<A>(s: Seq<A>, i: int)
    requires
        0 <= i < s.len(),
    ensures
        s.take(i + 1).to_set() == s.take(i).to_set().insert(s[i]),
{
    let longer = s.take(i + 1);
    let shorter = s.take(i);
    assert forall|a: A| longer.to_set().contains(a) <==> shorter.to_set().insert(s[i]).contains(
        a,
    ) by {
        if longer.contains(a) {
            let k = choose|k: int| 0 <= k < longer.len() && longer[k] == a;
            if k < i {
                assert(shorter[k] == a);
            }
        }
        if shorter.contains(a) {
            let k = choose|k: int| 0 <= k < shorter.len() && shorter[k] == a;
            assert(longer[k] == a);
        }
        if a == s[i] {
            assert(longer[i] == a);
        }
    }
}

/// The set of the names in a list.
pub(crate) fn set_of(names: &Vec<String>) -> (r: StringHashSet)
    ensures
        r@ == names.deep_view().to_set(),
{
    let mut set = StringHashSet::new();
    let mut i: usize = 0;
    while i < names.len()
        invariant
            0 <= i <= names.len(),
            set@ == names.deep_view().take(i as int).to_set(),
        decreases names.len() - i,
    {
        proof {
            lemma_take_to_set(names.deep_view(), i as int);
        }
        set.insert(names[i].clone());
        i += 1;
    }
    assert(names.deep_view().take(names.len() as int) =~= names.deep_view());
    set
}

/// The set of the names in a list, provided that all of them are in `within`.
pub(crate) fn subset_of(names: &Vec<String>, within: &StringHashSet) -> (r: Option<StringHashSet>)
    ensures
        match r {
            Some(set) => set@ == names.deep_view().to_set() && set@.subset_of(within@),
            None => !names.deep_view().to_set().subset_of(within@),
        },
{
    let mut set = StringHashSet::new();
    let mut i: usize = 0;
    while i < names.len()
        invariant
            0 <= i <= names.len(),
            set@ == names.deep_view().take(i as int).to_set(),
            set@.subset_of(within@),
        decreases names.len() - i,
    {
        proof {
            lemma_take_to_set(names.deep_view(), i as int);
        }
        if !within.contains(names[i].as_str()) {
            return None;
        }
        set.insert(names[i].clone());
        i += 1;
    }
    assert(names.deep_view().take(names.len() as int) =~= names.deep_view());
    Some(set)
}

} // verus!
