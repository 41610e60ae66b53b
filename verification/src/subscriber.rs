//! The subscriber: which subscription ids have a delivery stream, and the
//! bounded drop-oldest queue of each, so a slow consumer can never block the
//! receive loop.
use vstd::prelude::*;

use crate::Error;

verus! {

/// One subscription's bounded delivery stream.
pub struct SubEntry {
    pub id: u32,
    pub capacity: usize,
    pub queue: Vec<serde_json::Value>,
}

/// Mathematical image of a stream.
pub ghost struct SubView {
    pub id: u32,
    pub capacity: nat,
    pub queue: Seq<serde_json::Value>,
}

impl View for SubEntry {
    type V = SubView;

    open spec fn view(&self) -> SubView {
        SubView { id: self.id, capacity: self.capacity as nat, queue: self.queue@ }
    }
}

/// What a stream holds after one more value, dropping the oldest if full.
pub open spec fn spec_pushed(
    queue: Seq<serde_json::Value>,
    capacity: nat,
    v: serde_json::Value,
) -> Seq<serde_json::Value> {
    if queue.len() < capacity {
        queue.push(v)
    } else {
        queue.skip(1).push(v)
    }
}

/// Some stream in `s` carries this id.
pub open spec fn seq_has_id(s: Seq<SubEntry>, id: u32) -> bool {
    exists|a: int| 0 <= a < s.len() && (#[trigger] s[a]@).id == id
}

/// The streams, keyed by subscription id, each registered at most once.
pub struct Subscriber {
    pub subs: Vec<SubEntry>,
    pub buffer_size: usize,
}

impl Subscriber {
    /// Streams are bounded, capacities positive, ids unique.
    pub open spec fn wf(&self) -> bool {
        &&& self.buffer_size >= 1
        &&& forall|i: int|
            0 <= i < self.subs@.len() ==> (#[trigger] self.subs@[i]@).queue.len()
                <= self.subs@[i]@.capacity && self.subs@[i]@.capacity >= 1
        &&& forall|i: int, j: int|
            0 <= i < self.subs@.len() && 0 <= j < self.subs@.len() && i != j ==> (
            #[trigger] self.subs@[i]@).id != (#[trigger] self.subs@[j]@).id
    }

    /// Whether a stream for `id` exists.
    pub open spec fn has_sub(&self, id: u32) -> bool {
        seq_has_id(self.subs@, id)
    }

    /// Builds an empty subscriber whose streams will hold `buffer_size`
    /// values each.
    pub fn new(buffer_size: usize) -> (r: Subscriber)
        requires
            buffer_size >= 1,
        ensures
            r.wf(),
            r.subs@.len() == 0,
            r.buffer_size == buffer_size,
    {
        Subscriber { subs: Vec::new(), buffer_size }
    }

    /// Index of the stream of `id`, if any.
    fn find(&self, id: u32) -> (r: Option<usize>)
        ensures
            r matches Some(i) ==> i < self.subs@.len() && self.subs@[i as int]@.id == id,
            r is None ==> !self.has_sub(id),
    {
        let n = self.subs.len();
        let mut i: usize = 0;
        while i < n
            invariant
                n == self.subs@.len(),
                0 <= i <= n,
                forall|j: int| 0 <= j < i ==> (#[trigger] self.subs@[j]@).id != id,
            decreases n - i,
        {
            if self.subs[i].id == id {
                return Some(i);
            }
            i += 1;
        }
        None
    }

    /// Opens a fresh empty stream for a server-issued id. An id already
    /// registered is refused, keeping each id registered at most once.
    pub fn subscribe(&mut self, sub_id: u32) -> (r: Result<(), Error>)
        requires
            old(self).wf(),
        ensures
            final(self).wf(),
            final(self).buffer_size == old(self).buffer_size,
            old(self).has_sub(sub_id) ==> (r matches Err(Error::InvalidMsg(_))) && *final(self)
                == *old(self),
            !old(self).has_sub(sub_id) ==> (r is Ok) && final(self).subs@.len() == old(self).subs@.len() + 1 && final(self).subs@.last()@ == (SubView {
                id: sub_id,
                capacity: old(self).buffer_size as nat,
                queue: Seq::empty(),
            }) && forall|j: int|
                0 <= j < old(self).subs@.len() ==> final(self).subs@[j] == old(self).subs@[j],
    {
        match self.find(sub_id) {
            Some(_) => Err(Error::InvalidMsg("subscription id already registered")),
            None => {
                let entry = SubEntry { id: sub_id, capacity: self.buffer_size, queue: Vec::new() };
                self.subs.push(entry);
                Ok(())
            },
        }
    }

    /// Delivers one notification: pushes its value onto the matching stream,
    /// dropping that stream's oldest value if it is full. An unknown
    /// subscription is refused.
    pub fn notify(&mut self, sub_id: u32, value: serde_json::Value) -> (r: Result<(), Error>)
        requires
            old(self).wf(),
        ensures
            final(self).wf(),
            final(self).buffer_size == old(self).buffer_size,
            !old(self).has_sub(sub_id) ==> (r matches Err(Error::InvalidMsg(s)) && s@
                == "Unknown subscription id"@) && *final(self) == *old(self),
            old(self).has_sub(sub_id) ==> (r is Ok) && exists|i: int|
                0 <= i < old(self).subs@.len() && (#[trigger] old(self).subs@[i]@).id == sub_id
                    && final(self).subs@.len() == old(self).subs@.len() && final(self).subs@[i]@ == (SubView {
                    id: sub_id,
                    capacity: old(self).subs@[i]@.capacity,
                    queue: spec_pushed(
                        old(self).subs@[i]@.queue,
                        old(self).subs@[i]@.capacity,
                        value,
                    ),
                }) && (forall|j: int|
                    0 <= j < old(self).subs@.len() && j != i ==> final(self).subs@[j] == old(self).subs@[j]),
    {
        let i = match self.find(sub_id) {
            Some(i) => i,
            None => {
                return Err(Error::InvalidMsg("Unknown subscription id"));
            },
        };
        let ghost before = self.subs@;
        let entry = self.subs.remove(i);
        let SubEntry { id, capacity, mut queue } = entry;
        if queue.len() >= capacity {
            let _ = queue.remove(0);
            assert(queue@ =~= before[i as int]@.queue.skip(1));
        }
        queue.push(value);
        let rebuilt = SubEntry { id, capacity, queue };
        assert(rebuilt@ == (SubView {
            id: sub_id,
            capacity: before[i as int]@.capacity,
            queue: spec_pushed(before[i as int]@.queue, before[i as int]@.capacity, value),
        }));
        self.subs.insert(i, rebuilt);
        proof {
            assert(self.subs@ =~= before.update(i as int, rebuilt));
        }
        Ok(())
    }

    /// Hands the consumer of `sub_id` its oldest waiting value, if any.
    pub fn next_value(&mut self, sub_id: u32) -> (r: Option<serde_json::Value>)
        requires
            old(self).wf(),
        ensures
            final(self).wf(),
            final(self).buffer_size == old(self).buffer_size,
            !old(self).has_sub(sub_id) ==> (r is None) && *final(self) == *old(self),
            old(self).has_sub(sub_id) ==> exists|i: int|
                0 <= i < old(self).subs@.len() && (#[trigger] old(self).subs@[i]@).id == sub_id
                    && final(self).subs@.len() == old(self).subs@.len() && (if old(self).subs@[i]@.queue.len() == 0 {
                    r is None && *final(self) == *old(self)
                } else {
                    r == Some(old(self).subs@[i]@.queue[0]) && final(self).subs@[i]@ == (SubView {
                        id: sub_id,
                        capacity: old(self).subs@[i]@.capacity,
                        queue: old(self).subs@[i]@.queue.skip(1),
                    }) && (forall|j: int|
                        0 <= j < old(self).subs@.len() && j != i ==> final(self).subs@[j] == old(self).subs@[j])
                }),
    {
        let i = match self.find(sub_id) {
            Some(i) => i,
            None => {
                return None;
            },
        };
        if self.subs[i].queue.len() == 0 {
            return None;
        }
        let ghost before = self.subs@;
        let entry = self.subs.remove(i);
        let SubEntry { id, capacity, mut queue } = entry;
        let v = queue.remove(0);
        assert(queue@ =~= before[i as int]@.queue.skip(1));
        let rebuilt = SubEntry { id, capacity, queue };
        self.subs.insert(i, rebuilt);
        proof {
            assert(self.subs@ =~= before.update(i as int, rebuilt));
        }
        Some(v)
    }

    /// Closes the stream of `sub_id`, if any.
    pub fn unsubscribe(&mut self, sub_id: u32)
        requires
            old(self).wf(),
        ensures
            final(self).wf(),
            final(self).buffer_size == old(self).buffer_size,
            !final(self).has_sub(sub_id),
            forall|other: u32|
                other != sub_id ==> final(self).has_sub(other) == old(self).has_sub(other),
    {
        match self.find(sub_id) {
            Some(i) => {
                let ghost before = self.subs@;
                let _ = self.subs.remove(i);
                proof {
                    lemma_sub_remove_keeps_others(before, i as int);
                }
            },
            None => {},
        }
    }

    /// Closes every stream, as connection teardown does.
    pub fn drop_all(&mut self)
        requires
            old(self).wf(),
        ensures
            final(self).wf(),
            final(self).buffer_size == old(self).buffer_size,
            final(self).subs@.len() == 0,
            forall|id: u32| !final(self).has_sub(id),
    {
        self.subs = Vec::new();
    }
}

/// Removing one stream of a duplicate-free run keeps exactly the others.
proof fn lemma_sub_remove_keeps_others(s: Seq<SubEntry>, i: int)
    requires
        0 <= i < s.len(),
        forall|a: int, b: int|
            0 <= a < s.len() && 0 <= b < s.len() && a != b ==> (#[trigger] s[a]@).id != (
            #[trigger] s[b]@).id,
    ensures
        forall|a: int, b: int|
            0 <= a < s.remove(i).len() && 0 <= b < s.remove(i).len() && a != b ==> (#[trigger] s.remove(
                i,
            )[a]@).id != (#[trigger] s.remove(i)[b]@).id,
        !seq_has_id(s.remove(i), s[i]@.id),
        forall|v: u32|
            v != s[i]@.id ==> #[trigger] seq_has_id(s.remove(i), v) == seq_has_id(s, v),
{
    let t = s.remove(i);
    assert forall|a: int| 0 <= a < t.len() implies t[a] == (if a < i {
        s[a]
    } else {
        s[a + 1]
    }) by {}
    if seq_has_id(t, s[i]@.id) {
        let a = choose|a: int| 0 <= a < t.len() && (#[trigger] t[a]@).id == s[i]@.id;
        if a < i {
            assert(s[a]@.id == s[i]@.id);
        } else {
            assert(s[a + 1]@.id == s[i]@.id);
        }
    }
    assert forall|v: u32| v != s[i]@.id implies #[trigger] seq_has_id(t, v) == seq_has_id(
        s,
        v,
    ) by {
        if seq_has_id(t, v) {
            let a = choose|a: int| 0 <= a < t.len() && (#[trigger] t[a]@).id == v;
            if a < i {
                assert(s[a]@.id == v);
            } else {
                assert(s[a + 1]@.id == v);
            }
        }
        if seq_has_id(s, v) {
            let a = choose|a: int| 0 <= a < s.len() && (#[trigger] s[a]@).id == v;
            if a < i {
                assert(t[a]@.id == v);
            } else {
                assert(a != i);
                assert(t[a - 1]@.id == v);
            }
        }
    }
}

} // verus!
