//! Short maps from texts to values, as lists of pairs.

use crate::text::text_eq;
use vstd::prelude::*;

verus! {

/// The value under a name, where there is one. Of two pairs with one name the
/// later counts.
pub open spec fn member<V>(members: Seq<(String, V)>, name: Seq<char>) -> Option<V>
    decreases members.len(),
{
    if members.len() == 0 {
        None
    } else if members.last().0@ == name {
        Some(members.last().1)
    } else {
        member(members.drop_last(), name)
    }
}

/// Whether no name stands twice.
pub open spec fn distinct_names<V>(members: Seq<(String, V)>) -> bool {
    forall|i: int, j: int|
        0 <= i < j < members.len() ==> (#[trigger] members[i]).0@ != (#[trigger] members[j]).0@
}

/// The value under a name, where there is one.
pub fn find_member<'a, V>(members: &'a Vec<(String, V)>, name: &str) -> (found: Option<&'a V>)
    ensures
        match found {
            Some(value) => member(members@, name@) == Some(*value),
            None => member(members@, name@) is None,
        },
{
    match find_position(members, name) {
        Some(i) => Some(&members[i].1),
        None => None,
    }
}

/// The position of the pair that counts for a name.
pub fn find_position<V>(members: &Vec<(String, V)>, name: &str) -> (found: Option<usize>)
    ensures
        match found {
            Some(i) => {
                &&& i < members@.len()
                &&& members@[i as int].0@ == name@
                &&& member(members@, name@) == Some(members@[i as int].1)
                &&& forall|k: int| i < k < members@.len() ==> (#[trigger] members@[k]).0@ != name@
            },
            None => member(members@, name@) is None && forall|k: int|
                0 <= k < members@.len() ==> (#[trigger] members@[k]).0@ != name@,
        },
{
    let mut i: usize = members.len();
    assert(members@.take(i as int) =~= members@);
    while i > 0
        invariant
            i <= members.len(),
            member(members@, name@) == member(members@.take(i as int), name@),
            forall|k: int| i <= k < members@.len() ==> (#[trigger] members@[k]).0@ != name@,
        decreases i,
    {
        assert(members@.take(i as int).drop_last() =~= members@.take(i - 1));
        i = i - 1;
        if text_eq(members[i].0.as_str(), name) {
            return Some(i);
        }
    }
    None
}

/// Sets the value under a name: an old one is replaced, a new one comes last.
pub fn set_member<V>(members: &mut Vec<(String, V)>, name: String, value: V)
    ensures
        member(final(members)@, name@) == Some(value),
        forall|other: Seq<char>|
            other != name@ ==> #[trigger] member(final(members)@, other) == member(
                old(members)@,
                other,
            ),
        distinct_names(old(members)@) ==> distinct_names(final(members)@),
{
    let ghost before = members@;
    let ghost wanted = name@;
    match find_position(members, name.as_str()) {
        Some(i) => {
            members[i] = (name, value);
            proof {
                lemma_replaced(before, members@, i as int, wanted);
                assert forall|a: int, b: int|
                    distinct_names(before) && 0 <= a < b < members@.len() implies (
                #[trigger] members@[a]).0@ != (#[trigger] members@[b]).0@ by {
                    assert(members@[a].0@ == before[a].0@);
                    assert(members@[b].0@ == before[b].0@);
                }
            }
        },
        None => {
            members.push((name, value));
            proof {
                assert(members@.drop_last() =~= before);
                assert forall|a: int, b: int|
                    distinct_names(before) && 0 <= a < b < members@.len() implies (
                #[trigger] members@[a]).0@ != (#[trigger] members@[b]).0@ by {
                    assert(members@[a] == before[a]);
                    if b < before.len() {
                        assert(members@[b] == before[b]);
                    }
                }
            }
        },
    }
}

/// Takes the pair of a name out, where no name stands twice.
pub fn remove_member<V>(members: &mut Vec<(String, V)>, name: &str) -> (removed: bool)
    requires
        distinct_names(old(members)@),
    ensures
        removed == (member(old(members)@, name@) is Some),
        member(final(members)@, name@) is None,
        forall|other: Seq<char>|
            other != name@ ==> #[trigger] member(final(members)@, other) == member(
                old(members)@,
                other,
            ),
        distinct_names(final(members)@),
{
    let ghost before = members@;
    match find_position(members, name) {
        Some(i) => {
            let _pair = members.remove(i);
            proof {
                let after = members@;
                assert(after =~= before.remove(i as int));
                assert forall|a: int, b: int| 0 <= a < b < after.len() implies (
                #[trigger] after[a]).0@ != (#[trigger] after[b]).0@ by {
                    let left = if a < i {
                        a
                    } else {
                        a + 1
                    };
                    let right = if b < i {
                        b
                    } else {
                        b + 1
                    };
                    assert(after[a] == before[left]);
                    assert(after[b] == before[right]);
                }
                lemma_removed(before, i as int);
            }
            true
        },
        None => false,
    }
}

proof fn lemma_removed<V>(before: Seq<(String, V)>, at: int)
    requires
        0 <= at < before.len(),
        distinct_names(before),
    ensures
        member(before.remove(at), before[at].0@) is None,
        forall|other: Seq<char>|
            other != before[at].0@ ==> #[trigger] member(before.remove(at), other) == member(
                before,
                other,
            ),
    decreases before.len(),
{
    let after = before.remove(at);
    let name = before[at].0@;
    if at == before.len() - 1 {
        assert(after =~= before.drop_last());
        lemma_absent(after, name);
    } else {
        let shorter = before.drop_last();
        assert(distinct_names(shorter)) by {
            assert forall|a: int, b: int| 0 <= a < b < shorter.len() implies (
            #[trigger] shorter[a]).0@ != (#[trigger] shorter[b]).0@ by {
                assert(shorter[a] == before[a] && shorter[b] == before[b]);
            }
        }
        lemma_removed(shorter, at);
        assert(shorter[at] == before[at]);
        assert(after.drop_last() =~= shorter.remove(at));
        assert(after.last() == before.last());
        assert(before[before.len() - 1].0@ != name);
        assert forall|other: Seq<char>| other != name implies #[trigger] member(after, other)
            == member(before, other) by {
            assert(member(shorter.remove(at), other) == member(shorter, other));
        }
    }
}

/// A name that no pair has is under nothing.
pub proof fn lemma_absent<V>(members: Seq<(String, V)>, name: Seq<char>)
    requires
        forall|k: int| 0 <= k < members.len() ==> (#[trigger] members[k]).0@ != name,
    ensures
        member(members, name) is None,
    decreases members.len(),
{
    if members.len() > 0 {
        assert(members[members.len() - 1].0@ != name);
        assert forall|k: int| 0 <= k < members.drop_last().len() implies (
        #[trigger] members.drop_last()[k]).0@ != name by {
            assert(members[k].0@ != name);
        }
        lemma_absent(members.drop_last(), name);
    }
}

/// Where no name stands twice, every pair counts.
pub proof fn lemma_present<V>(members: Seq<(String, V)>, at: int)
    requires
        0 <= at < members.len(),
        distinct_names(members),
    ensures
        member(members, members[at].0@) == Some(members[at].1),
    decreases members.len(),
{
    if at < members.len() - 1 {
        let shorter = members.drop_last();
        assert forall|a: int, b: int| 0 <= a < b < shorter.len() implies (#[trigger] shorter[a]).0@
            != (#[trigger] shorter[b]).0@ by {
            assert(shorter[a] == members[a] && shorter[b] == members[b]);
        }
        assert(members[members.len() - 1].0@ != members[at].0@);
        lemma_present(shorter, at);
    }
}

proof fn lemma_replaced<V>(
    before: Seq<(String, V)>,
    after: Seq<(String, V)>,
    at: int,
    name: Seq<char>,
)
    requires
        0 <= at < before.len(),
        after.len() == before.len(),
        before[at].0@ == name,
        after[at].0@ == name,
        forall|k: int| 0 <= k < before.len() && k != at ==> #[trigger] after[k] == before[k],
        forall|k: int| at < k < before.len() ==> (#[trigger] before[k]).0@ != name,
    ensures
        member(after, name) == Some(after[at].1),
        forall|other: Seq<char>|
            other != name ==> #[trigger] member(after, other) == member(before, other),
    decreases before.len(),
{
    if at < before.len() - 1 {
        assert(after.last() == before.last());
        assert forall|k: int| 0 <= k < before.len() - 1 && k != at implies #[trigger] after.drop_last()[k]
            == before.drop_last()[k] by {
            assert(after[k] == before[k]);
        }
        assert forall|k: int| at < k < before.len() - 1 implies (#[trigger] before.drop_last()[k]).0@
            != name by {
            assert(before[k].0@ != name);
        }
        lemma_replaced(before.drop_last(), after.drop_last(), at, name);
        assert(before[before.len() - 1].0@ != name);
        assert forall|other: Seq<char>| other != name implies #[trigger] member(after, other)
            == member(before, other) by {
            assert(member(after.drop_last(), other) == member(before.drop_last(), other));
        }
    } else {
        assert(after.drop_last() =~= before.drop_last()) by {
            assert forall|k: int| 0 <= k < before.len() - 1 implies after.drop_last()[k]
                == before.drop_last()[k] by {
                assert(after[k] == before[k]);
            }
        }
    }
}

/// Of the pairs with a name the last one counts, wherever it stands.
pub proof fn law_last_pair_counts<V>(members: Seq<(String, V)>, name: Seq<char>, at: int)
    requires
        0 <= at < members.len(),
        members[at].0@ == name,
        forall|k: int| at < k < members.len() ==> (#[trigger] members[k]).0@ != name,
    ensures
        member(members, name) == Some(members[at].1),
    decreases members.len(),
{
    if at < members.len() - 1 {
        let shorter = members.drop_last();
        assert(members[members.len() - 1].0@ != name);
        assert forall|k: int| at < k < shorter.len() implies (#[trigger] shorter[k]).0@ != name by {
            assert(members[k].0@ != name);
        }
        law_last_pair_counts(shorter, name, at);
    }
}

/// What is found under a name stands in a pair with that name, after which none
/// has it; where nothing is found, no pair has it.
pub proof fn law_what_is_found_is_there<V>(members: Seq<(String, V)>, name: Seq<char>)
    ensures
        match member(members, name) {
            Some(value) => exists|at: int|
                0 <= at < members.len() && (#[trigger] members[at]).0@ == name && members[at].1 == value
                    && forall|k: int| at < k < members.len() ==> (#[trigger] members[k]).0@ != name,
            None => forall|k: int| 0 <= k < members.len() ==> (#[trigger] members[k]).0@ != name,
        },
    decreases members.len(),
{
    if members.len() > 0 {
        let shorter = members.drop_last();
        if members.last().0@ == name {
            assert(members[members.len() - 1].0@ == name);
        } else {
            law_what_is_found_is_there(shorter, name);
            match member(shorter, name) {
                Some(value) => {
                    let at = choose|at: int|
                        0 <= at < shorter.len() && (#[trigger] shorter[at]).0@ == name && shorter[at].1
                            == value && forall|k: int|
                            at < k < shorter.len() ==> (#[trigger] shorter[k]).0@ != name;
                    assert(members[at] == shorter[at]);
                    assert forall|k: int| at < k < members.len() implies (#[trigger] members[k]).0@
                        != name by {
                        if k < shorter.len() {
                            assert(shorter[k].0@ != name);
                        }
                    }
                },
                None => {
                    assert forall|k: int| 0 <= k < members.len() implies (#[trigger] members[k]).0@
                        != name by {
                        if k < shorter.len() {
                            assert(shorter[k].0@ != name);
                        }
                    }
                },
            }
        }
    }
}

} // verus!
