//! A personal task tracker: a store of tasks with their steps, labels and
//! references, the rules by which a task moves from being created to being
//! done, and the reports over the store.

pub mod cli_opt;
pub mod cmd;
pub mod db;
pub mod lifecycle;
pub mod report;
pub mod seqs;
pub mod store;
pub mod task;
pub mod text;
pub mod time;

use vstd::hash_set::StringHashSet;
use vstd::prelude::*;

verus! {

/// A set of labels.
pub type LabelList = StringHashSet;

/// The set of the labels of `labels`: each label once, however often it
/// occurs.
pub fn labellist_from_vec(labels: Vec<String>) -> (rv: LabelList)
    ensures
        rv@ == crate::text::texts(labels@).to_set(),
{
    let ghost all = crate::text::texts(labels@);
    let mut rv = LabelList::new();
    assert(rv@ =~= all.take(0).to_set());
    for l in it: labels
        invariant
            it.seq() == labels@,
            all == crate::text::texts(labels@),
            rv@ == all.take(it.index()).to_set(),
    {
        proof {
            let seen = all.take(it.index());
            let next = all.take(it.index() + 1);
            assert(all[it.index()] == l@);
            assert(next =~= seen.push(l@));
            assert(next.to_set() =~= seen.to_set().insert(l@)) by {
                assert forall|x: Seq<char>| next.to_set().contains(x) <==> seen.to_set().insert(
                    l@,
                ).contains(x) by {
                    if next.contains(x) {
                        let k = choose|k: int| 0 <= k < next.len() && next[k] == x;
                        if k < seen.len() {
                            assert(seen[k] == x);
                        }
                    }
                    if seen.contains(x) {
                        let k = choose|k: int| 0 <= k < seen.len() && seen[k] == x;
                        assert(next[k] == x);
                    }
                    if x == l@ {
                        assert(next[seen.len() as int] == x);
                    }
                }
            }
        }
        if !rv.contains(l.as_str()) {
            rv.insert(l);
        }
    }
    assert(all.take(labels@.len() as int) =~= all);
    rv
}

} // verus!
