use vstd::prelude::*;
use std::collections::VecDeque;

verus! {

/// One notification in the queue.
#[derive(Debug, Clone, PartialEq)]
pub struct NotificationEntry {
    pub id: u64,
    pub title: String,
    pub body: String,
    pub icon: Option<String>,
}

/// Model of the queue: entries oldest first, capacity, next identifier.
pub struct QueueModel {
    pub entries: Seq<NotificationEntry>,
    pub max_size: usize,
    pub next_id: u64,
}

/// The queue after pushing `entry`: it goes last, and if that exceeds the
/// capacity the oldest entry is dropped.
pub open spec fn pushed_entries(entries: Seq<NotificationEntry>, max_size: usize, entry: NotificationEntry) -> Seq<NotificationEntry> {
    if entries.len() + 1 > max_size {
        entries.push(entry).drop_first()
    } else {
        entries.push(entry)
    }
}

/// The entries whose identifier is not `id`, in order.
pub open spec fn without_notification(entries: Seq<NotificationEntry>, id: u64) -> Seq<NotificationEntry>
    decreases entries.len(),
{
    if entries.len() == 0 {
        entries
    } else {
        let rest = without_notification(entries.drop_last(), id);
        if entries.last().id == id {
            rest
        } else {
            rest.push(entries.last())
        }
    }
}

/// A well-formed queue: identifiers strictly increase from oldest to newest,
/// all are below the next one to hand out, and the capacity is respected.
pub open spec fn queue_wf(m: QueueModel) -> bool {
    &&& forall|i: int, j: int| 0 <= i < j < m.entries.len() ==> m.entries[i].id < m.entries[j].id
    &&& forall|i: int| 0 <= i < m.entries.len() ==> (#[trigger] m.entries[i]).id < m.next_id
    &&& m.entries.len() <= m.max_size
}

/// A call on a notification queue, for stating what a history of calls does.
pub enum QueueCall {
    Push { title: String, body: String, icon: Option<String> },
    Dismiss { id: u64 },
}

/// The queue after one call: a push queues a new entry under the next
/// identifier (dropping the oldest beyond the capacity) and advances the
/// identifier; a dismissal drops the entries with that identifier.
pub open spec fn queue_step(m: QueueModel, call: QueueCall) -> QueueModel {
    match call {
        QueueCall::Push { title, body, icon } => QueueModel {
            entries: pushed_entries(m.entries, m.max_size, NotificationEntry { id: m.next_id, title, body, icon }),
            next_id: (m.next_id + 1) as u64,
            ..m
        },
        QueueCall::Dismiss { id } => QueueModel { entries: without_notification(m.entries, id), ..m },
    }
}

/// The queue after a history of calls, oldest call first.
pub open spec fn queue_after(m: QueueModel, calls: Seq<QueueCall>) -> QueueModel
    decreases calls.len(),
{
    if calls.len() == 0 {
        m
    } else {
        queue_step(queue_after(m, calls.drop_last()), calls.last())
    }
}

/// How many pushes a history holds.
pub open spec fn push_count(calls: Seq<QueueCall>) -> nat
    decreases calls.len(),
{
    if calls.len() == 0 {
        0
    } else {
        push_count(calls.drop_last()) + if calls.last() is Push { 1nat } else { 0nat }
    }
}

/// Every call keeps a queue well formed (below the identifier limit).
pub proof fn lemma_step_keeps_wf(m: QueueModel, call: QueueCall)
    requires
        queue_wf(m),
        m.next_id < u64::MAX,
    ensures
        queue_wf(queue_step(m, call)),
        queue_step(m, call).max_size == m.max_size,
{
    match call {
        QueueCall::Push { title, body, icon } => {
            let entry = NotificationEntry { id: m.next_id, title, body, icon };
            let pushed = m.entries.push(entry);
            let e = queue_step(m, call).entries;
            assert forall|i: int, j: int| 0 <= i < j < e.len() implies e[i].id < e[j].id by {
                if m.entries.len() + 1 > m.max_size {
                    assert(e[i] == pushed[i + 1]);
                    assert(e[j] == pushed[j + 1]);
                } else {
                    assert(e[i] == pushed[i]);
                    assert(e[j] == pushed[j]);
                }
            }
            assert forall|i: int| 0 <= i < e.len() implies (#[trigger] e[i]).id < queue_step(m, call).next_id by {
                if m.entries.len() + 1 > m.max_size {
                    assert(e[i] == pushed[i + 1]);
                } else {
                    assert(e[i] == pushed[i]);
                }
            }
        },
        QueueCall::Dismiss { id } => {
            lemma_without_origin(m.entries, id);
            lemma_without_sorted(m.entries, id);
            let w = without_notification(m.entries, id);
            assert forall|i: int| 0 <= i < w.len() implies (#[trigger] w[i]).id < m.next_id by {
                let j = choose|j: int| 0 <= j < m.entries.len() && w[i] == m.entries[j] && m.entries[j].id != id;
            }
        },
    }
}

/// Identifiers count the pushes: after any history of pushes and dismissals
/// on a new queue, the next identifier is one more than the number of
/// pushes, so the push after `k` earlier pushes returns `k + 1`, and no
/// identifier is handed out twice. The queue stays well formed throughout:
/// identifiers increase from oldest to newest and the capacity holds.
/// (Below the `u64` identifier limit, where the counter would overflow.)
pub proof fn lemma_ids_count_pushes(max_size: usize, calls: Seq<QueueCall>)
    requires
        push_count(calls) + 1 < u64::MAX,
    ensures
        queue_after(QueueModel { entries: Seq::empty(), max_size, next_id: 1 }, calls).next_id == push_count(calls)
            + 1,
        queue_wf(queue_after(QueueModel { entries: Seq::empty(), max_size, next_id: 1 }, calls)),
        queue_after(QueueModel { entries: Seq::empty(), max_size, next_id: 1 }, calls).max_size == max_size,
    decreases calls.len(),
{
    if calls.len() > 0 {
        lemma_ids_count_pushes(max_size, calls.drop_last());
        let m = queue_after(QueueModel { entries: Seq::empty(), max_size, next_id: 1 }, calls.drop_last());
        lemma_step_keeps_wf(m, calls.last());
    }
}

/// Bounded FIFO of notifications, oldest first.
pub struct NotificationQueue {
    entries: VecDeque<NotificationEntry>,
    max_size: usize,
    next_id: u64,
}

impl View for NotificationQueue {
    type V = QueueModel;

    closed spec fn view(&self) -> QueueModel {
        QueueModel { entries: self.entries@, max_size: self.max_size, next_id: self.next_id }
    }
}

proof fn lemma_without_origin(entries: Seq<NotificationEntry>, id: u64)
    ensures
        forall|i: int| 0 <= i < without_notification(entries, id).len() ==> exists|j: int|
            0 <= j < entries.len() && #[trigger] without_notification(entries, id)[i] == entries[j]
                && entries[j].id != id,
        without_notification(entries, id).len() <= entries.len(),
    decreases entries.len(),
{
    if entries.len() > 0 {
        let front = entries.drop_last();
        let rest = without_notification(front, id);
        let w = without_notification(entries, id);
        lemma_without_origin(front, id);
        assert forall|i: int| 0 <= i < w.len() implies exists|j: int|
            0 <= j < entries.len() && #[trigger] w[i] == entries[j] && entries[j].id != id by {
            if i < rest.len() {
                assert(w[i] == rest[i]);
                let j = choose|j: int| 0 <= j < front.len() && rest[i] == front[j] && front[j].id != id;
                assert(entries[j] == front[j]);
            } else {
                assert(w[i] == entries.last());
                assert(entries[entries.len() - 1] == entries.last());
            }
        }
    }
}

proof fn lemma_without_absent(entries: Seq<NotificationEntry>, id: u64)
    requires
        forall|j: int| 0 <= j < entries.len() ==> entries[j].id != id,
    ensures
        without_notification(entries, id) == entries,
    decreases entries.len(),
{
    if entries.len() > 0 {
        let front = entries.drop_last();
        assert(entries[entries.len() - 1].id != id);
        assert forall|j: int| 0 <= j < front.len() implies front[j].id != id by {
            assert(front[j] == entries[j]);
        }
        lemma_without_absent(front, id);
        assert(entries =~= front.push(entries.last()));
    }
}

proof fn lemma_without_present(entries: Seq<NotificationEntry>, id: u64, j: int)
    requires
        0 <= j < entries.len(),
        entries[j].id == id,
    ensures
        without_notification(entries, id).len() < entries.len(),
    decreases entries.len(),
{
    let front = entries.drop_last();
    lemma_without_origin(front, id);
    if j < entries.len() - 1 {
        assert(front[j].id == id);
        lemma_without_present(front, id, j);
    }
}

proof fn lemma_without_sorted(entries: Seq<NotificationEntry>, id: u64)
    requires
        forall|i: int, j: int| 0 <= i < j < entries.len() ==> entries[i].id < entries[j].id,
    ensures
        forall|i: int, j: int|
            0 <= i < j < without_notification(entries, id).len() ==> without_notification(entries, id)[i].id
                < without_notification(entries, id)[j].id,
    decreases entries.len(),
{
    if entries.len() > 0 {
        let front = entries.drop_last();
        let rest = without_notification(front, id);
        let w = without_notification(entries, id);
        assert forall|i: int, j: int| 0 <= i < j < front.len() implies front[i].id < front[j].id by {
            assert(front[i] == entries[i]);
            assert(front[j] == entries[j]);
        }
        lemma_without_sorted(front, id);
        lemma_without_origin(front, id);
        assert forall|i: int, j: int| 0 <= i < j < w.len() implies w[i].id < w[j].id by {
            if j < rest.len() {
                assert(w[i] == rest[i]);
                assert(w[j] == rest[j]);
            } else {
                assert(w[i] == rest[i]);
                let q = choose|q: int| 0 <= q < front.len() && rest[i] == front[q] && front[q].id != id;
                assert(entries[q] == front[q]);
                assert(w[j] == entries.last());
                assert(entries[entries.len() - 1] == entries.last());
            }
        }
    }
}

impl NotificationEntry {
    fn duplicate(&self) -> (c: Self)
        ensures
            c == *self,
    {
        let icon = match &self.icon {
            Some(s) => Some(s.clone()),
            None => None,
        };
        NotificationEntry { id: self.id, title: self.title.clone(), body: self.body.clone(), icon }
    }
}

impl NotificationQueue {
    pub open spec fn wf(&self) -> bool {
        queue_wf(self@)
    }

    /// An empty queue holding at most `max_size` notifications; identifiers
    /// start at 1.
    pub fn new(max_size: usize) -> (q: Self)
        ensures
            q.wf(),
            q@ == (QueueModel { entries: Seq::empty(), max_size, next_id: 1 }),
    {
        NotificationQueue { entries: VecDeque::new(), max_size, next_id: 1 }
    }

    /// Adds a notification and returns its identifier. Beyond the capacity the
    /// oldest notification is dropped.
    pub fn push(&mut self, title: String, body: String, icon: Option<String>) -> (id: u64)
        requires
            old(self).wf(),
            old(self)@.next_id < u64::MAX,
        ensures
            final(self).wf(),
            id == old(self)@.next_id,
            final(self)@.entries.len() == if old(self)@.entries.len() < old(self)@.max_size {
                old(self)@.entries.len() + 1
            } else {
                old(self)@.max_size as nat
            },
            final(self)@ == queue_step(old(self)@, QueueCall::Push { title, body, icon }),
            final(self)@ == (QueueModel {
                entries: pushed_entries(
                    old(self)@.entries,
                    old(self)@.max_size,
                    NotificationEntry { id, title, body, icon },
                ),
                next_id: (old(self)@.next_id + 1) as u64,
                ..old(self)@
            }),
    {
        let id = self.next_id;
        self.next_id = self.next_id + 1;
        self.entries.push_back(NotificationEntry { id, title, body, icon });
        if self.entries.len() > self.max_size {
            self.entries.pop_front();
        }
        proof {
            let e = self@.entries;
            assert forall|i: int, j: int| 0 <= i < j < e.len() implies e[i].id < e[j].id by {
                let pushed = old(self)@.entries.push(NotificationEntry { id, title, body, icon });
                if old(self)@.entries.len() + 1 > old(self)@.max_size {
                    assert(e[i] == pushed[i + 1]);
                    assert(e[j] == pushed[j + 1]);
                } else {
                    assert(e[i] == pushed[i]);
                    assert(e[j] == pushed[j]);
                }
            }
            assert forall|i: int| 0 <= i < e.len() implies (#[trigger] e[i]).id < self.next_id by {
                let pushed = old(self)@.entries.push(NotificationEntry { id, title, body, icon });
                if old(self)@.entries.len() + 1 > old(self)@.max_size {
                    assert(e[i] == pushed[i + 1]);
                } else {
                    assert(e[i] == pushed[i]);
                }
            }
        }
        id
    }

    /// Removes the notification `id`; returns whether there was one.
    pub fn dismiss(&mut self, id: u64) -> (removed: bool)
        requires
            old(self).wf(),
        ensures
            final(self).wf(),
            final(self)@ == (QueueModel {
                entries: without_notification(old(self)@.entries, id),
                ..old(self)@
            }),
            final(self)@ == queue_step(old(self)@, QueueCall::Dismiss { id }),
            removed == (final(self)@.entries.len() < old(self)@.entries.len()),
            removed == exists|j: int| 0 <= j < old(self)@.entries.len() && old(self)@.entries[j].id == id,
    {
        let before = self.entries.len();
        let ghost old_entries = self.entries@;
        let mut kept: VecDeque<NotificationEntry> = VecDeque::new();
        let mut i: usize = 0;
        proof {
            assert(old_entries.take(0) =~= Seq::<NotificationEntry>::empty());
        }
        while i < before
            invariant
                before == old_entries.len(),
                old_entries == self.entries@,
                i <= before,
                kept@ == without_notification(old_entries.take(i as int), id),
            decreases before - i,
        {
            proof {
                assert(old_entries.take(i + 1).drop_last() =~= old_entries.take(i as int));
                assert(old_entries.take(i + 1).last() == old_entries[i as int]);
            }
            let e = self.entries[i].duplicate();
            if e.id != id {
                kept.push_back(e);
            }
            i = i + 1;
        }
        proof {
            assert(old_entries.take(before as int) =~= old_entries);
            lemma_without_origin(old_entries, id);
            lemma_without_sorted(old_entries, id);
            if exists|j: int| 0 <= j < old_entries.len() && old_entries[j].id == id {
                let j = choose|j: int| 0 <= j < old_entries.len() && old_entries[j].id == id;
                lemma_without_present(old_entries, id, j);
            } else {
                lemma_without_absent(old_entries, id);
            }
            let w = without_notification(old_entries, id);
            assert forall|i: int| 0 <= i < w.len() implies (#[trigger] w[i]).id < self.next_id by {
                let j = choose|j: int| 0 <= j < old_entries.len() && w[i] == old_entries[j] && old_entries[j].id != id;
            }
        }
        self.entries = kept;
        self.entries.len() < before
    }

    pub fn entries(&self) -> (e: &VecDeque<NotificationEntry>)
        ensures
            e@ == self@.entries,
    {
        &self.entries
    }

    pub fn len(&self) -> (n: usize)
        ensures
            n == self@.entries.len(),
    {
        self.entries.len()
    }

    pub fn is_empty(&self) -> (r: bool)
        ensures
            r == (self@.entries.len() == 0),
    {
        self.entries.len() == 0
    }
}

/// Each push hands out a fresh identifier: the new notification's identifier
/// is larger than that of every notification already queued.
pub proof fn lemma_push_id_is_fresh(m: QueueModel, entry: NotificationEntry)
    requires
        queue_wf(m),
        entry.id == m.next_id,
    ensures
        forall|i: int| 0 <= i < m.entries.len() ==> m.entries[i].id < entry.id,
        pushed_entries(m.entries, m.max_size, entry).len() <= m.max_size,
        !pushed_entries(m.entries, m.max_size, entry).contains(entry) ==> m.max_size == 0,
{
    let p = pushed_entries(m.entries, m.max_size, entry);
    if m.max_size > 0 && m.entries.len() + 1 > m.max_size {
        assert(p[p.len() - 1] == entry);
    } else if m.max_size > 0 {
        assert(p[p.len() - 1] == entry);
    }
}

} // verus!
