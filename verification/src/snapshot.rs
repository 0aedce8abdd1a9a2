//! Counter groups and the snapshot index.
//!
//! A counter group is one instance's timestamped raw measurements for
//! one polling pass. A snapshot index maps instance ids to their
//! counter groups, built fresh each pass; it keeps its groups sorted by
//! ascending instance id so that rows come out in a deterministic
//! order. When the provider hands back several groups for one instance,
//! the last one wins, as in a map built by repeated insertion.

use vstd::prelude::*;

use crate::fields::Field;

verus! {

/// One instance's raw measurements for one interval: a stable integer
/// identifier, the monotonic nanosecond timestamps of the instance's
/// creation and of this snapshot, and the named counter fields.
#[derive(Clone, Debug)]
pub struct CounterGroup {
    pub instance: i32,
    pub created_at: i64,
    pub sampled_at: i64,
    pub fields: Vec<Field>,
}

/// Strictly ascending instance ids: sorted, and no instance twice.
pub open spec fn wf_seq(s: Seq<CounterGroup>) -> bool {
    forall|a: int, b: int|
        0 <= a < b < s.len() ==> #[trigger] s[a].instance < #[trigger] s[b].instance
}

/// Some group in `s` carries instance id `inst`.
pub open spec fn seq_has(s: Seq<CounterGroup>, inst: int) -> bool {
    exists|j: int| 0 <= j < s.len() && #[trigger] s[j].instance == inst
}

/// The group in `s` carrying instance id `inst`; meaningful only when
/// `seq_has(s, inst)` holds and `s` is well formed, which make the
/// witness unique.
pub open spec fn seq_at(s: Seq<CounterGroup>, inst: int) -> CounterGroup {
    s[choose|j: int| 0 <= j < s.len() && #[trigger] s[j].instance == inst]
}

/// In a well-formed sequence, instance ids pin the index.
proof fn lemma_wf_unique(s: Seq<CounterGroup>, j1: int, j2: int)
    requires
        wf_seq(s),
        0 <= j1 < s.len(),
        0 <= j2 < s.len(),
        s[j1].instance == s[j2].instance,
    ensures
        j1 == j2,
{
    if j1 < j2 {
        assert(s[j1].instance < s[j2].instance);
    } else if j2 < j1 {
        assert(s[j2].instance < s[j1].instance);
    }
}

/// In a well-formed sequence, the group at index `j` is the one
/// `seq_at` hands back for its instance id.
pub proof fn lemma_at_index(s: Seq<CounterGroup>, j: int)
    requires
        wf_seq(s),
        0 <= j < s.len(),
    ensures
        seq_has(s, s[j].instance as int),
        seq_at(s, s[j].instance as int) == s[j],
{
    let inst = s[j].instance as int;
    assert(seq_has(s, inst));
    let j2 = choose|k: int| 0 <= k < s.len() && #[trigger] s[k].instance == inst;
    lemma_wf_unique(s, j, j2);
}

/// The group of the last element of `data` carrying instance id
/// `inst`, if any: what a map built by inserting the groups in order
/// would hold.
pub open spec fn last_with(data: Seq<CounterGroup>, inst: int) -> Option<CounterGroup>
    decreases data.len(),
{
    if data.len() == 0 {
        None
    } else if data.last().instance == inst {
        Some(data.last())
    } else {
        last_with(data.drop_last(), inst)
    }
}

/// The snapshot index of one polling pass: every tracked instance's
/// counter group, ordered by ascending instance id.
#[derive(Clone, Debug)]
pub struct Snapshot {
    pub groups: Vec<CounterGroup>,
}

impl Snapshot {
    /// Groups sorted by strictly ascending instance id.
    pub open spec fn wf(self) -> bool {
        wf_seq(self.groups@)
    }

    /// The snapshot tracks instance `inst`.
    pub open spec fn has(self, inst: int) -> bool {
        seq_has(self.groups@, inst)
    }

    /// The counter group of instance `inst`; meaningful only when
    /// `has(inst)` holds on a well-formed snapshot.
    pub open spec fn at(self, inst: int) -> CounterGroup {
        seq_at(self.groups@, inst)
    }

    /// Look the counter group of instance `inst` up.
    pub fn get(&self, inst: i32) -> (r: Option<&CounterGroup>)
        requires
            self.wf(),
        ensures
            match r {
                Some(g) => self.has(inst as int) && *g == self.at(inst as int),
                None => !self.has(inst as int),
            },
    {
        let mut j: usize = 0;
        while j < self.groups.len()
            invariant
                j <= self.groups@.len(),
                self.wf(),
                forall|k: int| 0 <= k < j ==> #[trigger] self.groups@[k].instance != inst,
            decreases self.groups@.len() - j,
        {
            if self.groups[j].instance == inst {
                proof {
                    lemma_at_index(self.groups@, j as int);
                }
                return Some(&self.groups[j]);
            }
            j = j + 1;
        }
        None
    }
}

/// Insert group `g` into a sorted group list, replacing the group with
/// the same instance id if one is there.
fn upsert(groups: &mut Vec<CounterGroup>, g: CounterGroup)
    requires
        wf_seq(old(groups)@),
    ensures
        wf_seq(final(groups)@),
        seq_has(final(groups)@, g.instance as int),
        seq_at(final(groups)@, g.instance as int) == g,
        forall|inst: int| inst != g.instance ==> (seq_has(final(groups)@, inst) <==> seq_has(
            old(groups)@,
            inst,
        )),
        forall|inst: int|
            inst != g.instance && seq_has(old(groups)@, inst) ==> seq_at(final(groups)@, inst)
                == seq_at(old(groups)@, inst),
{
    let ghost s1 = groups@;
    let mut i: usize = 0;
    while i < groups.len() && groups[i].instance < g.instance
        invariant
            i <= groups@.len(),
            groups@ == s1,
            wf_seq(s1),
            forall|k: int| 0 <= k < i ==> #[trigger] s1[k].instance < g.instance,
        decreases groups@.len() - i,
    {
        i = i + 1;
    }
    if i < groups.len() && groups[i].instance == g.instance {
        groups[i] = g;
        proof {
            let s2 = groups@;
            assert forall|a: int, b: int| 0 <= a < b < s2.len() implies #[trigger] s2[a].instance
                < #[trigger] s2[b].instance by {
                assert(s1[a].instance < s1[b].instance);
            }
            lemma_at_index(s2, i as int);
            assert forall|inst: int| inst != g.instance implies (seq_has(s2, inst) <==> seq_has(
                s1,
                inst,
            )) by {
                if seq_has(s1, inst) {
                    let j = choose|j: int| 0 <= j < s1.len() && #[trigger] s1[j].instance == inst;
                    assert(s2[j].instance == inst);
                }
                if seq_has(s2, inst) {
                    let j = choose|j: int| 0 <= j < s2.len() && #[trigger] s2[j].instance == inst;
                    assert(s1[j].instance == inst);
                }
            }
            assert forall|inst: int| inst != g.instance && seq_has(s1, inst) implies seq_at(
                s2,
                inst,
            ) == seq_at(s1, inst) by {
                let j = choose|j: int| 0 <= j < s1.len() && #[trigger] s1[j].instance == inst;
                lemma_at_index(s1, j);
                assert(s2[j].instance == inst);
                lemma_at_index(s2, j);
            }
        }
    } else {
        proof {
            s1.insert_ensures(i as int, g);
        }
        groups.insert(i, g);
        proof {
            let s2 = groups@;
            assert(s2 == s1.insert(i as int, g));
            assert forall|a: int, b: int| 0 <= a < b < s2.len() implies #[trigger] s2[a].instance
                < #[trigger] s2[b].instance by {
                if b < i {
                    assert(s1[a].instance < s1[b].instance);
                } else if a > i {
                    assert(s1[a - 1].instance < s1[b - 1].instance);
                } else if a < i && b == i {
                    assert(s2[a] == s1[a]);
                } else if a == i && b > i {
                    // the scan stopped before an instance id above g's
                    assert(s2[b] == s1[b - 1]);
                    assert(s1[i as int].instance > g.instance);
                    if b - 1 > i {
                        assert(s1[i as int].instance < s1[b - 1].instance);
                    }
                } else if a < i && b > i {
                    assert(s2[a] == s1[a]);
                    assert(s2[b] == s1[b - 1]);
                    if b - 1 > a {
                        assert(s1[a].instance < s1[b - 1].instance);
                    }
                }
            }
            lemma_at_index(s2, i as int);
            assert forall|inst: int| inst != g.instance implies (seq_has(s2, inst) <==> seq_has(
                s1,
                inst,
            )) by {
                if seq_has(s1, inst) {
                    let j = choose|j: int| 0 <= j < s1.len() && #[trigger] s1[j].instance == inst;
                    if j < i {
                        assert(s2[j].instance == inst);
                    } else {
                        assert(s2[j + 1].instance == inst);
                    }
                }
                if seq_has(s2, inst) {
                    let j = choose|j: int| 0 <= j < s2.len() && #[trigger] s2[j].instance == inst;
                    if j < i {
                        assert(s1[j].instance == inst);
                    } else {
                        assert(s1[j - 1].instance == inst);
                    }
                }
            }
            assert forall|inst: int| inst != g.instance && seq_has(s1, inst) implies seq_at(
                s2,
                inst,
            ) == seq_at(s1, inst) by {
                let j = choose|j: int| 0 <= j < s1.len() && #[trigger] s1[j].instance == inst;
                lemma_at_index(s1, j);
                if j < i {
                    assert(s2[j].instance == inst);
                    lemma_at_index(s2, j);
                } else {
                    assert(s2[j + 1].instance == inst);
                    lemma_at_index(s2, j + 1);
                }
            }
        }
    }
}

/// Build the snapshot index of one polling pass from the provider's
/// list of counter groups. When the list carries several groups for
/// one instance id, the last one wins; the index comes out sorted by
/// ascending instance id.
pub fn zone_hashmap(data: Vec<CounterGroup>) -> (r: Snapshot)
    ensures
        r.wf(),
        forall|inst: int| #[trigger]
            last_with(data@, inst) == (if r.has(inst) {
                Some(r.at(inst))
            } else {
                None::<CounterGroup>
            }),
{
    let ghost orig = data@;
    let mut rest = data;
    let mut snap = Snapshot { groups: Vec::new() };
    proof {
        assert(forall|inst: int| !seq_has(snap.groups@, inst));
    }
    while rest.len() > 0
        invariant
            snap.wf(),
            forall|inst: int| #[trigger]
                last_with(orig, inst) == (if snap.has(inst) {
                    Some(snap.at(inst))
                } else {
                    last_with(rest@, inst)
                }),
        decreases rest@.len(),
    {
        let ghost before = rest@;
        let g = rest.pop().unwrap();
        if snap.get(g.instance).is_none() {
            upsert(&mut snap.groups, g);
        }
        proof {
            assert(rest@ == before.drop_last());
            assert(g == before.last());
            assert forall|inst: int| #[trigger]
                last_with(orig, inst) == (if snap.has(inst) {
                    Some(snap.at(inst))
                } else {
                    last_with(rest@, inst)
                }) by {
                if inst == g.instance {
                    assert(last_with(before, inst) == Some(g));
                } else {
                    assert(last_with(before, inst) == last_with(before.drop_last(), inst));
                }
            }
        }
    }
    proof {
        assert(rest@.len() == 0);
        assert forall|inst: int| #[trigger]
            last_with(orig, inst) == (if snap.has(inst) {
                Some(snap.at(inst))
            } else {
                None::<CounterGroup>
            }) by {
            assert(last_with(rest@, inst) is None);
        }
    }
    snap
}

} // verus!
