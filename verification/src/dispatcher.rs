//! The message dispatcher: which request ids await a response. The one-shot
//! delivery channel of each id lives with the embedder; this table decides
//! registration, dispatch and cancellation.
use vstd::prelude::*;

use crate::Error;

verus! {

/// The pending request ids, each registered at most once.
pub struct MessageDispatcher {
    pub ids: Vec<u32>,
}

impl MessageDispatcher {
    /// No id is registered twice.
    pub open spec fn wf(&self) -> bool {
        forall|i: int, j: int|
            0 <= i < self.ids@.len() && 0 <= j < self.ids@.len() && i != j ==> self.ids@[i]
                != self.ids@[j]
    }

    /// Whether a response to `id` is awaited.
    pub open spec fn is_pending(&self, id: u32) -> bool {
        self.ids@.contains(id)
    }

    /// Builds an empty dispatcher.
    pub fn new() -> (r: MessageDispatcher)
        ensures
            r.wf(),
            r.ids@.len() == 0,
    {
        MessageDispatcher { ids: Vec::new() }
    }

    /// Index of `id`, if registered.
    fn find(&self, id: u32) -> (r: Option<usize>)
        ensures
            r matches Some(i) ==> i < self.ids@.len() && self.ids@[i as int] == id,
            r is None ==> !self.is_pending(id),
    {
        let n = self.ids.len();
        let mut i: usize = 0;
        while i < n
            invariant
                n == self.ids@.len(),
                0 <= i <= n,
                forall|j: int| 0 <= j < i ==> self.ids@[j] != id,
            decreases n - i,
        {
            if self.ids[i] == id {
                return Some(i);
            }
            i += 1;
        }
        assert(!self.ids@.contains(id));
        None
    }

    /// Registers a fresh pending request. A collision is a caller's error
    /// and is surfaced; the table is then unchanged.
    pub fn register(&mut self, id: u32) -> (r: Result<(), Error>)
        requires
            old(self).wf(),
        ensures
            final(self).wf(),
            old(self).is_pending(id) ==> (r matches Err(Error::InvalidMsg(_))) && *final(self)
                == *old(self),
            !old(self).is_pending(id) ==> (r is Ok) && final(self).ids@ == old(self).ids@.push(id),
    {
        match self.find(id) {
            Some(_) => Err(Error::InvalidMsg("request id already registered")),
            None => {
                self.ids.push(id);
                Ok(())
            },
        }
    }

    /// A response for `id` arrived: if it is awaited, its entry leaves the
    /// table and the response goes to its channel; otherwise the response is
    /// refused.
    pub fn dispatch(&mut self, id: u32) -> (r: Result<(), Error>)
        requires
            old(self).wf(),
        ensures
            final(self).wf(),
            old(self).is_pending(id) ==> (r is Ok) && !final(self).is_pending(id)
                && final(self).ids@.len() == old(self).ids@.len() - 1,
            !old(self).is_pending(id) ==> (r matches Err(Error::InvalidMsg(s)) && s@
                == "Unknown response id"@) && *final(self) == *old(self),
            forall|other: u32|
                other != id ==> final(self).is_pending(other) == old(self).is_pending(other),
    {
        match self.find(id) {
            Some(i) => {
                let ghost before = self.ids@;
                let _ = self.ids.remove(i);
                proof {
                    assert(self.ids@ == before.remove(i as int));
                    lemma_remove_keeps_others(before, i as int);
                }
                Ok(())
            },
            None => Err(Error::InvalidMsg("Unknown response id")),
        }
    }

    /// Drops any pending entry for `id`; its receiver then observes a closed
    /// channel. Nothing else changes.
    pub fn unregister(&mut self, id: u32)
        requires
            old(self).wf(),
        ensures
            final(self).wf(),
            !final(self).is_pending(id),
            forall|other: u32|
                other != id ==> final(self).is_pending(other) == old(self).is_pending(other),
    {
        match self.find(id) {
            Some(i) => {
                let ghost before = self.ids@;
                let _ = self.ids.remove(i);
                proof {
                    assert(self.ids@ == before.remove(i as int));
                    lemma_remove_keeps_others(before, i as int);
                }
            },
            None => {},
        }
    }

    /// Drops every pending entry, as connection teardown does.
    pub fn clear(&mut self)
        ensures
            final(self).wf(),
            final(self).ids@.len() == 0,
            forall|id: u32| !final(self).is_pending(id),
    {
        self.ids = Vec::new();
    }
}

/// Removing one position of a duplicate-free run keeps exactly the other
/// values.
proof fn lemma_remove_keeps_others(s: Seq<u32>, i: int)
    requires
        0 <= i < s.len(),
        forall|a: int, b: int| 0 <= a < s.len() && 0 <= b < s.len() && a != b ==> s[a] != s[b],
    ensures
        forall|a: int, b: int|
            0 <= a < s.remove(i).len() && 0 <= b < s.remove(i).len() && a != b ==> s.remove(i)[a]
                != s.remove(i)[b],
        !s.remove(i).contains(s[i]),
        forall|v: u32| v != s[i] ==> s.remove(i).contains(v) == s.contains(v),
{
    let t = s.remove(i);
    assert forall|a: int| 0 <= a < t.len() implies t[a] == (if a < i {
        s[a]
    } else {
        s[a + 1]
    }) by {}
    assert forall|v: u32| v != s[i] implies t.contains(v) == s.contains(v) by {
        if t.contains(v) {
            let a = choose|a: int| 0 <= a < t.len() && t[a] == v;
            if a < i {
                assert(s[a] == v);
            } else {
                assert(s[a + 1] == v);
            }
        }
        if s.contains(v) {
            let a = choose|a: int| 0 <= a < s.len() && s[a] == v;
            if a < i {
                assert(t[a] == v);
            } else {
                assert(a != i);
                assert(t[a - 1] == v);
            }
        }
    }
    if t.contains(s[i]) {
        let a = choose|a: int| 0 <= a < t.len() && t[a] == s[i];
        if a < i {
            assert(s[a] == s[i]);
        } else {
            assert(s[a + 1] == s[i]);
        }
    }
}

} // verus!
