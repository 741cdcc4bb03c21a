//! The child-process table: launched pids and the (plugin, item) pair each
//! one belongs to. The OS-level wait runs at the edge; the table is the
//! decision layer's record of it.

use vstd::prelude::*;

verus! {

/// First match of `pid` in the entry sequence.
pub open spec fn pid_lookup(s: Seq<(u32, (String, String))>, pid: u32) -> Option<(String, String)>
    decreases s.len(),
{
    if s.len() == 0 {
        None
    } else if s[0].0 == pid {
        Some(s[0].1)
    } else {
        pid_lookup(s.drop_first(), pid)
    }
}

pub proof fn lemma_pid_lookup_some(s: Seq<(u32, (String, String))>, pid: u32)
    ensures
        pid_lookup(s, pid) is Some <==> exists|i: int| 0 <= i < s.len() && s[i].0 == pid,
        pid_lookup(s, pid) matches Some(v) ==> exists|i: int|
            0 <= i < s.len() && s[i].0 == pid && s[i].1 == v,
    decreases s.len(),
{
    if s.len() > 0 {
        lemma_pid_lookup_some(s.drop_first(), pid);
        if s[0].0 == pid {
        } else {
            if pid_lookup(s, pid) is Some {
                let i = choose|i: int|
                    0 <= i < s.drop_first().len() && s.drop_first()[i].0 == pid;
                assert(s[i + 1].0 == pid);
                let v = pid_lookup(s, pid)->Some_0;
                let j = choose|j: int|
                    0 <= j < s.drop_first().len() && s.drop_first()[j].0 == pid
                        && s.drop_first()[j].1 == v;
                assert(s[j + 1].0 == pid && s[j + 1].1 == v);
            }
            if exists|i: int| 0 <= i < s.len() && s[i].0 == pid {
                let i = choose|i: int| 0 <= i < s.len() && s[i].0 == pid;
                assert(s.drop_first()[i - 1].0 == pid);
            }
        }
    }
}

pub proof fn lemma_pid_lookup_remove(s: Seq<(u32, (String, String))>, i: int, pid: u32)
    requires
        0 <= i < s.len(),
        s[i].0 != pid,
    ensures
        pid_lookup(s.remove(i), pid) == pid_lookup(s, pid),
    decreases s.len(),
{
    if i == 0 {
        assert(s.remove(0) =~= s.drop_first());
    } else {
        assert(s.remove(i).drop_first() =~= s.drop_first().remove(i - 1));
        assert(s.remove(i)[0] == s[0]);
        lemma_pid_lookup_remove(s.drop_first(), i - 1, pid);
    }
}

pub proof fn lemma_pid_lookup_push(s: Seq<(u32, (String, String))>, e: (u32, (String, String)), pid: u32)
    ensures
        pid_lookup(s.push(e), pid) == if pid_lookup(s, pid) is Some {
            pid_lookup(s, pid)
        } else if e.0 == pid {
            Some(e.1)
        } else {
            None
        },
    decreases s.len(),
{
    if s.len() == 0 {
        assert(s.push(e)[0] == e);
        let t = s.push(e).drop_first();
        assert(t =~= s);
        assert(pid_lookup(t, pid) == pid_lookup(s, pid));
        assert(pid_lookup(s, pid) is None);
        if e.0 == pid {
            assert(pid_lookup(s.push(e), pid) == Some(e.1));
        } else {
            assert(pid_lookup(s.push(e), pid) == pid_lookup(t, pid));
        }
    } else {
        assert(s.push(e)[0] == s[0]);
        assert(s.push(e).drop_first() =~= s.drop_first().push(e));
        lemma_pid_lookup_push(s.drop_first(), e, pid);
        if s[0].0 == pid {
            assert(pid_lookup(s.push(e), pid) == Some(s[0].1));
            assert(pid_lookup(s, pid) == Some(s[0].1));
        } else {
            assert(pid_lookup(s.push(e), pid) == pid_lookup(s.drop_first().push(e), pid));
            assert(pid_lookup(s, pid) == pid_lookup(s.drop_first(), pid));
        }
    }
}

/// The table of running children: pid, owning plugin id, item uuid.
#[derive(Debug)]
pub struct PidMap {
    entries: Vec<(u32, (String, String))>,
}

impl PidMap {
    pub closed spec fn entry_seq(&self) -> Seq<(u32, (String, String))> {
        self.entries@
    }

    /// No pid occurs twice.
    pub open spec fn wf(&self) -> bool {
        forall|i: int, j: int|
            0 <= i < j < self.entry_seq().len() ==> self.entry_seq()[i].0
                != self.entry_seq()[j].0
    }

    /// The recorded (plugin, uuid) pair of a pid.
    pub open spec fn lookup(&self, pid: u32) -> Option<(String, String)> {
        pid_lookup(self.entry_seq(), pid)
    }

    pub fn new() -> (r: Self)
        ensures
            r.wf(),
            r.entry_seq() == Seq::<(u32, (String, String))>::empty(),
            forall|p: u32| r.lookup(p) is None,
    {
        PidMap { entries: Vec::new() }
    }

    fn index_of(&self, pid: u32) -> (r: Option<usize>)
        ensures
            match r {
                Some(i) => i < self.entry_seq().len() && self.entry_seq()[i as int].0 == pid
                    && self.lookup(pid) == Some(self.entry_seq()[i as int].1) && (forall|j: int|
                    0 <= j < i ==> self.entry_seq()[j].0 != pid),
                None => self.lookup(pid) is None,
            },
    {
        let n = self.entries.len();
        for i in 0..n
            invariant
                n == self.entry_seq().len(),
                forall|j: int| 0 <= j < i ==> self.entry_seq()[j].0 != pid,
        {
            if self.entries[i].0 == pid {
                proof {
                    lemma_pid_first_match(self.entry_seq(), i as int, pid);
                }
                return Some(i);
            }
        }
        proof {
            lemma_pid_lookup_some(self.entry_seq(), pid);
        }
        None
    }

    /// Record a launched child. A reused pid replaces the old entry.
    pub fn insert(&mut self, pid: u32, module: String, uuid: String)
        requires
            old(self).wf(),
        ensures
            final(self).wf(),
            final(self).lookup(pid) == Some((module, uuid)),
            forall|p: u32| p != pid ==> final(self).lookup(p) == old(self).lookup(p),
            forall|i: int|
                #![trigger final(self).entry_seq()[i]]
                0 <= i < final(self).entry_seq().len() ==> (final(self).entry_seq()[i] == (
                pid,
                (module, uuid),
            ) || (exists|j: int|
                0 <= j < old(self).entry_seq().len() && (#[trigger] old(self).entry_seq()[j])
                    == final(self).entry_seq()[i] && old(self).entry_seq()[j].0 != pid)),
    {
        let ghost pre = self.entry_seq();
        match self.index_of(pid) {
            Some(i) => {
                self.entries.remove(i);
                proof {
                    lemma_remove_distinct(pre, i as int);
                    assert forall|p: u32| p != pid implies pid_lookup(
                        self.entry_seq(),
                        p,
                    ) == pid_lookup(pre, p) by {
                        lemma_pid_lookup_remove(pre, i as int, p);
                    }
                    lemma_no_pid(pre, i as int, pid, self.entry_seq());
                }
            },
            None => (),
        }
        let ghost mid = self.entry_seq();
        proof {
            lemma_pid_lookup_some(mid, pid);
        }
        self.entries.push((pid, (module, uuid)));
        proof {
            assert(self.entry_seq() =~= mid.push((pid, (module, uuid))));
            assert forall|p: u32| true implies pid_lookup(self.entry_seq(), p) == (
            if pid_lookup(mid, p) is Some {
                pid_lookup(mid, p)
            } else if p == pid {
                Some((module, uuid))
            } else {
                None
            }) by {
                lemma_pid_lookup_push(mid, (pid, (module, uuid)), p);
            }
            assert forall|i: int, j: int|
                0 <= i < j < self.entry_seq().len() implies self.entry_seq()[i].0
                != self.entry_seq()[j].0 by {
                if j == self.entry_seq().len() - 1 {
                    lemma_pid_lookup_some(mid, pid);
                }
            }
        }
    }

    /// Take the entry of a dead child out of the table.
    pub fn take(&mut self, pid: u32) -> (r: Option<(String, String)>)
        requires
            old(self).wf(),
        ensures
            final(self).wf(),
            r == old(self).lookup(pid),
            final(self).lookup(pid) is None,
            old(self).lookup(pid) is None ==> *final(self) == *old(self),
            forall|p: u32| p != pid ==> final(self).lookup(p) == old(self).lookup(p),
            forall|i: int|
                #![trigger final(self).entry_seq()[i]]
                0 <= i < final(self).entry_seq().len() ==> exists|j: int|
                    0 <= j < old(self).entry_seq().len() && (#[trigger] old(self).entry_seq()[j])
                        == final(self).entry_seq()[i],
    {
        let ghost pre = self.entry_seq();
        match self.index_of(pid) {
            Some(i) => {
                let e = self.entries.remove(i);
                proof {
                    lemma_remove_distinct(pre, i as int);
                    assert forall|p: u32| p != pid implies pid_lookup(
                        self.entry_seq(),
                        p,
                    ) == pid_lookup(pre, p) by {
                        lemma_pid_lookup_remove(pre, i as int, p);
                    }
                    lemma_no_pid(pre, i as int, pid, self.entry_seq());
                    lemma_pid_lookup_some(self.entry_seq(), pid);
                    assert forall|k: int|
                        #![trigger self.entry_seq()[k]]
                        0 <= k < self.entry_seq().len() implies exists|j: int|
                        0 <= j < pre.len() && (#[trigger] pre[j]) == self.entry_seq()[k] by {
                        if k < i {
                            assert(pre[k] == self.entry_seq()[k]);
                        } else {
                            assert(pre[k + 1] == self.entry_seq()[k]);
                        }
                    }
                }
                Some(e.1)
            },
            None => None,
        }
    }

    pub fn len(&self) -> (r: usize)
        ensures
            r == self.entry_seq().len(),
    {
        self.entries.len()
    }

    pub fn entry_at(&self, i: usize) -> (r: &(u32, (String, String)))
        requires
            i < self.entry_seq().len(),
        ensures
            *r == self.entry_seq()[i as int],
    {
        &self.entries[i]
    }
}

/// After removing index `i`, the remaining entries are old entries.
proof fn lemma_remove_distinct(s: Seq<(u32, (String, String))>, i: int)
    requires
        0 <= i < s.len(),
        forall|a: int, b: int| 0 <= a < b < s.len() ==> s[a].0 != s[b].0,
    ensures
        forall|a: int, b: int|
            0 <= a < b < s.remove(i).len() ==> s.remove(i)[a].0 != s.remove(i)[b].0,
{
    let t = s.remove(i);
    assert forall|a: int, b: int| 0 <= a < b < t.len() implies t[a].0 != t[b].0 by {
        let a0 = if a < i {
            a
        } else {
            a + 1
        };
        let b0 = if b < i {
            b
        } else {
            b + 1
        };
        assert(t[a] == s[a0] && t[b] == s[b0]);
    }
}

/// Removing the only entry of `pid` leaves no entry of `pid`.
proof fn lemma_no_pid(
    s: Seq<(u32, (String, String))>,
    i: int,
    pid: u32,
    t: Seq<(u32, (String, String))>,
)
    requires
        0 <= i < s.len(),
        s[i].0 == pid,
        forall|a: int, b: int| 0 <= a < b < s.len() ==> s[a].0 != s[b].0,
        t == s.remove(i),
    ensures
        pid_lookup(t, pid) is None,
{
    lemma_pid_lookup_some(t, pid);
    if pid_lookup(t, pid) is Some {
        let k = choose|k: int| 0 <= k < t.len() && t[k].0 == pid;
        let k0 = if k < i {
            k
        } else {
            k + 1
        };
        assert(t[k] == s[k0]);
    }
}

/// In a table without duplicate pids, the entry at any index is what the
/// lookup of its pid yields.
pub proof fn lemma_entry_lookup(s: Seq<(u32, (String, String))>, i: int)
    requires
        0 <= i < s.len(),
        forall|a: int, b: int| 0 <= a < b < s.len() ==> s[a].0 != s[b].0,
    ensures
        pid_lookup(s, s[i].0) == Some(s[i].1),
{
    assert(forall|j: int| 0 <= j < i ==> s[j].0 != s[i].0);
    lemma_pid_first_match(s, i, s[i].0);
}

/// A matched prefix-free index is the first match.
proof fn lemma_pid_first_match(s: Seq<(u32, (String, String))>, i: int, pid: u32)
    requires
        0 <= i < s.len(),
        s[i].0 == pid,
        forall|j: int| 0 <= j < i ==> s[j].0 != pid,
    ensures
        pid_lookup(s, pid) == Some(s[i].1),
    decreases i,
{
    if i == 0 {
    } else {
        assert(s.drop_first()[i - 1].0 == pid);
        assert(forall|j: int| 0 <= j < i - 1 ==> s.drop_first()[j] == s[j + 1]);
        lemma_pid_first_match(s.drop_first(), i - 1, pid);
    }
}

} // verus!
