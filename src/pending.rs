use vstd::prelude::*;
use crate::model::PlayerId;

verus! {

/// The latest command recorded for `id` among `entries` (later entries win).
pub open spec fn latest<V>(entries: Seq<(PlayerId, V)>, id: PlayerId) -> Option<V>
    decreases entries.len(),
{
    if entries.len() == 0 {
        None
    } else if entries.last().0 == id {
        Some(entries.last().1)
    } else {
        latest(entries.drop_last(), id)
    }
}

/// Commands waiting for the next tick, one per player: a later command replaces an
/// earlier one that was not yet consumed.
pub struct PendingCommands<V> {
    entries: Vec<(PlayerId, V)>,
}

impl<V: Copy> PendingCommands<V> {
    /// The command waiting for `id`, if any.
    pub closed spec fn get_spec(&self, id: PlayerId) -> Option<V> {
        latest(self.entries@, id)
    }

    pub fn new() -> (r: Self)
        ensures
            forall|id: PlayerId| #[trigger] r.get_spec(id) is None,
    {
        PendingCommands { entries: Vec::new() }
    }

    /// Records `v` for `id`, replacing any command waiting for it.
    pub fn record(&mut self, id: PlayerId, v: V)
        ensures
            final(self).get_spec(id) == Some(v),
            forall|o: PlayerId| o != id ==> #[trigger] final(self).get_spec(o) == old(self).get_spec(o),
    {
        let ghost before = self.entries@;
        self.entries.push((id, v));
        assert(self.entries@.drop_last() =~= before);
    }

    /// The command waiting for `id`, if any.
    pub fn get(&self, id: PlayerId) -> (r: Option<V>)
        ensures
            r == self.get_spec(id),
    {
        let mut k: usize = self.entries.len();
        assert(self.entries@.subrange(0, k as int) =~= self.entries@);
        while k > 0
            invariant
                k <= self.entries@.len(),
                latest(self.entries@, id) == latest(self.entries@.subrange(0, k as int), id),
            decreases k,
        {
            let e = self.entries[k - 1];
            proof {
                let s = self.entries@.subrange(0, k as int);
                assert(s.drop_last() =~= self.entries@.subrange(0, k - 1));
            }
            if e.0 == id {
                return Some(e.1);
            }
            k = k - 1;
        }
        None
    }

    /// Drops the command waiting for `id`, if any.
    pub fn discard(&mut self, id: PlayerId)
        ensures
            final(self).get_spec(id) is None,
            forall|o: PlayerId| o != id ==> #[trigger] final(self).get_spec(o) == old(self).get_spec(o),
    {
        let mut kept: Vec<(PlayerId, V)> = Vec::new();
        let mut k: usize = 0;
        while k < self.entries.len()
            invariant
                k <= self.entries@.len(),
                latest(kept@, id) is None,
                forall|o: PlayerId| o != id ==> #[trigger] latest(kept@, o) == latest(self.entries@.subrange(0, k as int), o),
            decreases self.entries@.len() - k,
        {
            let e = self.entries[k];
            let ghost before = kept@;
            if e.0 != id {
                kept.push(e);
                assert(kept@.drop_last() =~= before);
            }
            proof {
                let s = self.entries@.subrange(0, k + 1);
                assert(s.drop_last() =~= self.entries@.subrange(0, k as int));
                assert(s.last() == e);
                assert forall|o: PlayerId| o != id implies #[trigger] latest(kept@, o) == latest(s, o) by {
                    assert(latest(before, o) == latest(self.entries@.subrange(0, k as int), o));
                    if e.0 == o {
                        assert(kept@.last() == e);
                    } else if e.0 != id {
                        assert(kept@.last() == e);
                        assert(kept@.drop_last() == before);
                    }
                }
            }
            k = k + 1;
        }
        assert(self.entries@.subrange(0, self.entries@.len() as int) =~= self.entries@);
        self.entries = kept;
    }

    /// Drops every waiting command.
    pub fn clear(&mut self)
        ensures
            forall|id: PlayerId| #[trigger] final(self).get_spec(id) is None,
    {
        self.entries.clear();
    }
}

} // verus!
