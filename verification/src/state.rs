//! Shared per-client server state.
//!
//! A map from client identity (the peer's address, reduced to a plain
//! number) to that client's sub-state: the background processes it started.
//! One client's entry is never read or written under another client's
//! identity, and an entry is removed — its resources handed back to the
//! caller for release — exactly when that client's request loop ends.
//! Mutual exclusion around the whole map is the caller's concern; the
//! library gives the exclusive-access operations themselves.

use vstd::prelude::*;

verus! {

/// One client's server-side sub-state: identifiers of the background
/// processes it started, for cleanup on disconnect.
pub struct ClientState {
    pub processes: Vec<u64>,
}

impl ClientState {
    /// The freshly initialized state a new client begins with.
    pub fn new() -> (r: ClientState)
        ensures
            r.processes@ =~= Seq::<u64>::empty(),
    {
        ClientState { processes: Vec::new() }
    }
}

/// The map an entry list denotes: later entries win, though the state keeps
/// each key at most once.
pub open spec fn spec_entries_map(s: Seq<(u64, Seq<u64>)>) -> Map<u64, Seq<u64>>
    decreases s.len(),
{
    if s.len() == 0 {
        Map::empty()
    } else {
        spec_entries_map(s.drop_last()).insert(s.last().0, s.last().1)
    }
}

/// The entry list as key-value pairs of plain values.
pub open spec fn spec_entries(s: Seq<(u64, ClientState)>) -> Seq<(u64, Seq<u64>)> {
    Seq::new(s.len(), |i: int| (s[i].0, s[i].1.processes@))
}

/// Process-wide state shared by every connection, keyed by client identity.
pub struct ServerState {
    clients: Vec<(u64, ClientState)>,
}

impl ServerState {
    /// What the state holds: each known client's process list.
    pub closed spec fn view(&self) -> Map<u64, Seq<u64>> {
        spec_entries_map(spec_entries(self.clients@))
    }

    /// The empty state a server starts with.
    pub fn empty() -> (r: ServerState)
        ensures
            r.view() =~= Map::<u64, Seq<u64>>::empty(),
    {
        ServerState { clients: Vec::new() }
    }

    /// Removes every entry of `id` and returns its process list, empty when
    /// the client was unknown.
    fn take_client(&mut self, id: u64) -> (procs: Vec<u64>)
        ensures
            final (self).view() =~= old(self).view().remove(id),
            old(self).view().contains_key(id) ==> procs@ == old(self).view()[id],
            !old(self).view().contains_key(id) ==> procs@ =~= Seq::<u64>::empty(),
    {
        let ghost orig = self.clients@;
        let ghost s0 = spec_entries(orig);
        let mut kept: Vec<(u64, ClientState)> = Vec::new();
        let mut found: Option<Vec<u64>> = None;
        let n = self.clients.len();
        let mut i: usize = 0;
        while i < n
            invariant
                i <= n == orig.len(),
                s0 == spec_entries(orig),
                self.clients@ =~= orig.subrange(i as int, n as int),
                spec_entries_map(spec_entries(kept@)) =~= spec_entries_map(
                    s0.subrange(0, i as int),
                ).remove(id),
                match found {
                    Some(v) => spec_entries_map(s0.subrange(0, i as int)).contains_key(id)
                        && spec_entries_map(s0.subrange(0, i as int))[id] == v@,
                    None => !spec_entries_map(s0.subrange(0, i as int)).contains_key(id),
                },
            decreases n - i,
        {
            let ghost pre = s0.subrange(0, i as int);
            let ghost keptpre = spec_entries(kept@);
            proof {
                assert(s0.subrange(0, i + 1).drop_last() =~= pre);
                assert(s0.subrange(0, i + 1).last() == s0[i as int]);
                assert(self.clients@[0] == orig[i as int]);
            }
            let (k, st) = self.clients.remove(0);
            proof {
                assert(self.clients@ =~= orig.subrange(i + 1, n as int));
                assert(s0[i as int] == (k, st.processes@));
            }
            if k == id {
                found = Some(st.processes);
                proof {
                    assert(spec_entries_map(s0.subrange(0, i + 1)) =~= spec_entries_map(
                        pre,
                    ).insert(id, s0[i as int].1));
                    assert(spec_entries_map(pre).insert(id, s0[i as int].1).remove(id)
                        =~= spec_entries_map(pre).remove(id));
                }
            } else {
                kept.push((k, st));
                proof {
                    assert(spec_entries(kept@).drop_last() =~= keptpre);
                    assert(spec_entries(kept@).last() == (k, s0[i as int].1));
                    assert(spec_entries_map(spec_entries(kept@)) =~= spec_entries_map(
                        keptpre,
                    ).insert(k, s0[i as int].1));
                    assert(spec_entries_map(pre).insert(k, s0[i as int].1).remove(id)
                        =~= spec_entries_map(pre).remove(id).insert(k, s0[i as int].1));
                }
            }
            i = i + 1;
        }
        proof {
            assert(s0.subrange(0, n as int) =~= s0);
        }
        self.clients = kept;
        match found {
            Some(v) => v,
            None => Vec::new(),
        }
    }

    /// Whether the state holds an entry for `id`.
    pub fn contains_client(&self, id: u64) -> (r: bool)
        ensures
            r == self.view().contains_key(id),
    {
        let n = self.clients.len();
        let ghost s0 = spec_entries(self.clients@);
        let mut i: usize = 0;
        while i < n
            invariant
                i <= n == self.clients@.len(),
                s0 == spec_entries(self.clients@),
                !spec_entries_map(s0.subrange(0, i as int)).contains_key(id),
            decreases n - i,
        {
            proof {
                assert(s0.subrange(0, i + 1).drop_last() =~= s0.subrange(0, i as int));
                assert(s0.subrange(0, i + 1).last() == s0[i as int]);
            }
            if self.clients[i].0 == id {
                proof {
                    assert(s0[i as int].0 == id);
                    lemma_entries_map_prefix_contains(s0, s0.len() as int, id);
                    assert(s0.subrange(0, s0.len() as int) =~= s0);
                }
                return true;
            }
            i = i + 1;
        }
        proof {
            assert(s0.subrange(0, n as int) =~= s0);
        }
        false
    }

    /// The sub-state of `id`, created freshly — with no processes — when the
    /// client is new. Returns the client's current process list.
    pub fn get_or_create(&mut self, id: u64) -> (procs: Vec<u64>)
        ensures
            final (self).view() =~= if old(self).view().contains_key(id) {
                old(self).view()
            } else {
                old(self).view().insert(id, Seq::<u64>::empty())
            },
            final (self).view().contains_key(id),
            procs@ == final (self).view()[id],
    {
        let current = self.take_client(id);
        let mut copy: Vec<u64> = Vec::new();
        let n = current.len();
        let mut i: usize = 0;
        while i < n
            invariant
                i <= n == current@.len(),
                copy@ =~= current@.subrange(0, i as int),
            decreases n - i,
        {
            copy.push(current[i]);
            proof {
                assert(current@.subrange(0, i + 1) =~= current@.subrange(0, i as int).push(
                    current@[i as int],
                ));
            }
            i = i + 1;
        }
        proof {
            assert(current@.subrange(0, n as int) =~= current@);
        }
        let ghost before_push = spec_entries(self.clients@);
        self.clients.push((id, ClientState { processes: current }));
        proof {
            assert(spec_entries(self.clients@).drop_last() =~= before_push);
            assert(self.view() =~= spec_entries_map(before_push).insert(id, current@));
            assert(old(self).view().remove(id).insert(id, current@) =~= if old(
                self,
            ).view().contains_key(id) {
                old(self).view()
            } else {
                old(self).view().insert(id, Seq::<u64>::empty())
            });
        }
        copy
    }

    /// Records one background process under `id`, creating the entry when
    /// the client is new.
    pub fn add_process(&mut self, id: u64, pid: u64)
        ensures
            final (self).view() =~= old(self).view().insert(
                id,
                if old(self).view().contains_key(id) {
                    old(self).view()[id].push(pid)
                } else {
                    seq![pid]
                },
            ),
    {
        let mut procs = self.take_client(id);
        procs.push(pid);
        let ghost before_push = spec_entries(self.clients@);
        let ghost procs_view = procs@;
        self.clients.push((id, ClientState { processes: procs }));
        proof {
            assert(spec_entries(self.clients@).drop_last() =~= before_push);
            assert(self.view() =~= spec_entries_map(before_push).insert(id, procs_view));
            assert(Seq::<u64>::empty().push(pid) =~= seq![pid]);
            assert(old(self).view().remove(id).insert(id, procs_view) =~= old(self).view().insert(
                id,
                procs_view,
            ));
        }
    }

    /// Removes `id`'s entry when its request loop ends, whatever the reason,
    /// and hands back the processes to release. A later lookup under the
    /// same identity starts fresh: no stale data survives a disconnect.
    pub fn cleanup_client(&mut self, id: u64) -> (procs: Vec<u64>)
        ensures
            final (self).view() =~= old(self).view().remove(id),
            !final (self).view().contains_key(id),
            old(self).view().contains_key(id) ==> procs@ == old(self).view()[id],
            !old(self).view().contains_key(id) ==> procs@ =~= Seq::<u64>::empty(),
    {
        self.take_client(id)
    }
}

/// If some prefix entry carries key `id`, the prefix's map contains `id`.
proof fn lemma_entries_map_prefix_contains(s: Seq<(u64, Seq<u64>)>, n: int, id: u64)
    requires
        0 < n <= s.len(),
        exists|j: int| 0 <= j < n && (#[trigger] s[j]).0 == id,
    ensures
        spec_entries_map(s.subrange(0, n)).contains_key(id),
    decreases n,
{
    let j = choose|j: int| 0 <= j < n && (#[trigger] s[j]).0 == id;
    assert(s.subrange(0, n).drop_last() =~= s.subrange(0, n - 1));
    if j == n - 1 {
        assert(s.subrange(0, n).last() == s[n - 1]);
    } else {
        lemma_entries_map_prefix_contains(s, n - 1, id);
    }
}

/// After cleanup, nothing of the old entry remains: the next
/// lookup-or-create under the same identity sees only the fresh state.
pub proof fn lemma_no_stale_state(m: Map<u64, Seq<u64>>, id: u64)
    ensures
        !m.remove(id).contains_key(id),
        m.remove(id).insert(id, Seq::<u64>::empty())[id] =~= Seq::<u64>::empty(),
{
}

} // verus!
