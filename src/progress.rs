use vstd::prelude::*;

verus! {

/// Where a task stands in its lifecycle.
#[derive(Debug, Clone, Copy, PartialEq, Eq, Structural)]
pub enum FileStatus {
    Pending,
    Processing,
    Done,
    Error,
    Cancelled,
}

/// Position of a status in the lifecycle; `None` is a task not yet seen.
pub open spec fn stage(s: Option<FileStatus>) -> nat {
    match s {
        None => 0,
        Some(FileStatus::Pending) => 1,
        Some(FileStatus::Processing) => 2,
        Some(_) => 3,
    }
}

/// A task may move from `a` to `b`: forward only, and never out of a final status.
pub open spec fn advances(a: Option<FileStatus>, b: Option<FileStatus>) -> bool {
    &&& stage(a) <= stage(b)
    &&& stage(a) == 3 ==> a == b
}

/// A task whose run counts as processed.
pub open spec fn is_finished(s: FileStatus) -> bool {
    s == FileStatus::Done || s == FileStatus::Error
}

/// Number of entries among `e` whose task is `Done` or `Error`.
pub open spec fn finished_count(e: Seq<(String, FileStatus)>) -> nat
    decreases e.len(),
{
    if e.len() == 0 {
        0
    } else {
        finished_count(e.drop_last()) + if is_finished(e.last().1) { 1nat } else { 0nat }
    }
}

proof fn lemma_count_update(e: Seq<(String, FileStatus)>, i: int, x: (String, FileStatus))
    requires
        0 <= i < e.len(),
    ensures
        finished_count(e.update(i, x)) + (if is_finished(e[i].1) { 1nat } else { 0nat })
            == finished_count(e) + (if is_finished(x.1) { 1nat } else { 0nat }),
    decreases e.len(),
{
    let u = e.update(i, x);
    if i == e.len() - 1 {
        assert(u.drop_last() =~= e.drop_last());
    } else {
        assert(u.drop_last() =~= e.drop_last().update(i, x));
        lemma_count_update(e.drop_last(), i, x);
    }
}

proof fn lemma_count_push(e: Seq<(String, FileStatus)>, x: (String, FileStatus))
    ensures
        finished_count(e.push(x)) == finished_count(e) + (if is_finished(x.1) { 1nat } else { 0nat }),
{
    assert(e.push(x).drop_last() =~= e);
}

/// Fewer finished entries than entries, unless every entry is finished.
proof fn lemma_count_bounded(e: Seq<(String, FileStatus)>)
    ensures
        finished_count(e) <= e.len(),
        finished_count(e) == e.len() ==> forall|i: int| 0 <= i < e.len() ==> is_finished(#[trigger] e[i].1),
    decreases e.len(),
{
    if e.len() > 0 {
        lemma_count_bounded(e.drop_last());
        if finished_count(e) == e.len() {
            assert forall|i: int| 0 <= i < e.len() implies is_finished(#[trigger] e[i].1) by {
                if i < e.len() - 1 {
                    assert(e[i] == e.drop_last()[i]);
                }
            }
        }
    }
}

/// No two entries of `e` share a name.
pub open spec fn keys_unique(e: Seq<(String, FileStatus)>) -> bool {
    forall|i: int, j: int| 0 <= i < j < e.len() ==> (#[trigger] e[i]).0@ != (#[trigger] e[j]).0@
}

/// Shared record of the batch: how many tasks there are, how many ran to an end,
/// and the status of each task by name.
pub struct Progress {
    pub total_files: usize,
    pub processed: usize,
    pub statuses: Vec<(String, FileStatus)>,
}

impl Progress {
    /// The entry of `k`, if there is one.
    pub open spec fn has(self, k: Seq<char>) -> bool {
        exists|i: int| 0 <= i < self.statuses@.len() && (#[trigger] self.statuses@[i]).0@ == k
    }

    pub open spec fn status(self, k: Seq<char>) -> Option<FileStatus> {
        if self.has(k) {
            let i = choose|i: int|
                0 <= i < self.statuses@.len() && (#[trigger] self.statuses@[i]).0@ == k;
            Some(self.statuses@[i].1)
        } else {
            None
        }
    }

    /// One entry per name, no more entries than tasks, and `processed` counts the
    /// tasks that are `Done` or `Error`.
    pub open spec fn wf(self) -> bool {
        &&& keys_unique(self.statuses@)
        &&& self.statuses@.len() <= self.total_files
        &&& self.processed == finished_count(self.statuses@)
    }

    /// No task's status went backwards between `self` and `next`.
    pub open spec fn evolves_to(self, next: Progress) -> bool {
        &&& next.total_files == self.total_files
        &&& forall|k: Seq<char>| advances(#[trigger] self.status(k), next.status(k))
    }

    /// A change of one task's status from `self` to `next`, all else kept.
    pub open spec fn sets(self, next: Progress, k: Seq<char>, s: FileStatus) -> bool {
        &&& next.wf()
        &&& next.total_files == self.total_files
        &&& next.status(k) == Some(s)
        &&& forall|o: Seq<char>| o != k ==> #[trigger] next.status(o) == self.status(o)
    }

    /// A tracker for `total_files` tasks, none of them seen yet.
    pub fn new(total_files: usize) -> (r: Progress)
        ensures
            r.wf(),
            r.total_files == total_files,
            r.processed == 0,
            r.statuses@.len() == 0,
            forall|k: Seq<char>| #[trigger] r.status(k) == None::<FileStatus>,
    {
        Progress { total_files, processed: 0, statuses: Vec::new() }
    }

    proof fn lemma_status_at(self, i: int)
        requires
            keys_unique(self.statuses@),
            0 <= i < self.statuses@.len(),
        ensures
            self.status(self.statuses@[i].0@) == Some(self.statuses@[i].1),
    {
        let k = self.statuses@[i].0@;
        assert(self.has(k));
        let j = choose|j: int| 0 <= j < self.statuses@.len() && (#[trigger] self.statuses@[j]).0@ == k;
        if j != i {
            if j < i {
                assert(self.statuses@[j].0@ != self.statuses@[i].0@);
            } else {
                assert(self.statuses@[i].0@ != self.statuses@[j].0@);
            }
        }
    }

    /// Index of the entry named `name`.
    fn find(&self, name: &String) -> (r: Option<usize>)
        requires
            self.wf(),
        ensures
            match r {
                Some(i) => i < self.statuses@.len() && self.statuses@[i as int].0@ == name@,
                None => !self.has(name@),
            },
    {
        let mut i: usize = 0;
        while i < self.statuses.len()
            invariant
                i <= self.statuses@.len(),
                forall|j: int| 0 <= j < i ==> (#[trigger] self.statuses@[j]).0@ != name@,
            decreases self.statuses.len() - i,
        {
            if self.statuses[i].0 == *name {
                return Some(i);
            }
            i = i + 1;
        }
        None
    }

    /// The status of the task named `name`, if it has one.
    pub fn status_of(&self, name: &String) -> (r: Option<FileStatus>)
        requires
            self.wf(),
        ensures
            r == self.status(name@),
    {
        match self.find(name) {
            Some(i) => {
                proof {
                    self.lemma_status_at(i as int);
                }
                Some(self.statuses[i].1)
            },
            None => None,
        }
    }

    /// Records a task that is known but not started yet: `Pending`, for a name not seen before while there is room.
    pub fn register(&mut self, name: &String) -> (r: bool)
        requires
            old(self).wf(),
        ensures
            final(self).wf(),
            old(self).evolves_to(*final(self)),
            r == (old(self).status(name@) is None && old(self).statuses@.len() < old(self).total_files),
            r ==> old(self).sets(*final(self), name@, FileStatus::Pending),
            r ==> final(self).processed == old(self).processed,
            !r ==> *final(self) == *old(self),
    {
        let current = self.status_of(name);
        if !(current.is_none() && self.statuses.len() < self.total_files) {
            return false;
        }
        let ghost pre = *self;
        self.put(name, FileStatus::Pending);
        
        proof {
            assert forall|k: Seq<char>| advances(#[trigger] pre.status(k), self.status(k)) by {}
        }
        true
    }

    /// Marks a task as running: `Processing`, for a `Pending` task or a new name while there is room.
    pub fn begin(&mut self, name: &String) -> (r: bool)
        requires
            old(self).wf(),
        ensures
            final(self).wf(),
            old(self).evolves_to(*final(self)),
            r == ((old(self).status(name@) is None && old(self).statuses@.len() < old(self).total_files) || old(self).status(name@) == Some(FileStatus::Pending)),
            r ==> old(self).sets(*final(self), name@, FileStatus::Processing),
            r ==> final(self).processed == old(self).processed,
            !r ==> *final(self) == *old(self),
    {
        let current = self.status_of(name);
        if !((current.is_none() && self.statuses.len() < self.total_files) || current == Some(FileStatus::Pending)) {
            return false;
        }
        let ghost pre = *self;
        self.put(name, FileStatus::Processing);
        
        proof {
            assert forall|k: Seq<char>| advances(#[trigger] pre.status(k), self.status(k)) by {}
        }
        true
    }

    /// Marks a running task as skipped: `Cancelled`; it does not count as processed.
    pub fn cancel(&mut self, name: &String) -> (r: bool)
        requires
            old(self).wf(),
        ensures
            final(self).wf(),
            old(self).evolves_to(*final(self)),
            r == (old(self).status(name@) == Some(FileStatus::Processing)),
            r ==> old(self).sets(*final(self), name@, FileStatus::Cancelled),
            r ==> final(self).processed == old(self).processed,
            !r ==> *final(self) == *old(self),
    {
        let current = self.status_of(name);
        if !(current == Some(FileStatus::Processing)) {
            return false;
        }
        let ghost pre = *self;
        self.put(name, FileStatus::Cancelled);
        
        proof {
            assert forall|k: Seq<char>| advances(#[trigger] pre.status(k), self.status(k)) by {}
        }
        true
    }

    /// Ends a running task: `Error` when it failed, else `Done`; either way it counts as processed.
    pub fn finish(&mut self, name: &String, failed: bool) -> (r: bool)
        requires
            old(self).wf(),
        ensures
            final(self).wf(),
            old(self).evolves_to(*final(self)),
            r == (old(self).status(name@) == Some(FileStatus::Processing)),
            r ==> old(self).sets(*final(self), name@, (if failed { FileStatus::Error } else { FileStatus::Done })),
            r ==> final(self).processed == old(self).processed + 1,
            !r ==> *final(self) == *old(self),
    {
        let current = self.status_of(name);
        if !(current == Some(FileStatus::Processing)) {
            return false;
        }
        let ghost pre = *self;
        self.put(name, if failed { FileStatus::Error } else { FileStatus::Done });
        proof {
            lemma_count_bounded(self.statuses@);
        }
        let ghost mid = *self;
        self.processed = self.processed + 1;
        proof {
            assert forall|k: Seq<char>| #[trigger] self.status(k) == mid.status(k) by {
                assert(self.statuses@ == mid.statuses@);
            }
        }
        proof {
            assert forall|k: Seq<char>| advances(#[trigger] pre.status(k), self.status(k)) by {}
        }
        true
    }

    /// Gives `name` the status `s`, adding an entry if it has none; `processed` is
    /// left for the caller.
    fn put(&mut self, name: &String, s: FileStatus)
        requires
            old(self).wf(),
            old(self).has(name@) || old(self).statuses@.len() < old(self).total_files,
        ensures
            final(self).total_files == old(self).total_files,
            final(self).processed == old(self).processed,
            final(self).statuses@.len() <= final(self).total_files,
            keys_unique(final(self).statuses@),
            finished_count(final(self).statuses@) + (if old(self).status(name@) is Some
                && is_finished(old(self).status(name@)->0) { 1nat } else { 0nat })
                == finished_count(old(self).statuses@) + (if is_finished(s) { 1nat } else { 0nat }),
            final(self).status(name@) == Some(s),
            forall|o: Seq<char>| o != name@ ==> #[trigger] final(self).status(o) == old(self).status(o),
    {
        let ghost pre = *self;
        let entry = (name.clone(), s);
        match self.find(name) {
            Some(i) => {
                proof {
                    pre.lemma_status_at(i as int);
                    lemma_count_update(pre.statuses@, i as int, entry);
                }
                self.statuses.set(i, entry);
                proof {
                    assert(self.statuses@ == pre.statuses@.update(i as int, entry));
                    assert forall|a: int, b: int|
                        0 <= a < b < self.statuses@.len() implies (#[trigger] self.statuses@[a]).0@
                        != (#[trigger] self.statuses@[b]).0@ by {
                        assert(pre.statuses@[a].0@ != pre.statuses@[b].0@);
                    }
                    self.lemma_status_at(i as int);
                    assert forall|o: Seq<char>| o != name@ implies #[trigger] self.status(o)
                        == pre.status(o) by {
                        if pre.has(o) {
                            let j = choose|j: int|
                                0 <= j < pre.statuses@.len() && (#[trigger] pre.statuses@[j]).0@ == o;
                            pre.lemma_status_at(j);
                            self.lemma_status_at(j);
                        } else if self.has(o) {
                            let j = choose|j: int|
                                0 <= j < self.statuses@.len() && (#[trigger] self.statuses@[j]).0@ == o;
                            assert(pre.statuses@[j].0@ == o);
                        }
                    }
                }
            },
            None => {
                proof {
                    lemma_count_push(pre.statuses@, entry);
                }
                self.statuses.push(entry);
                proof {
                    assert forall|a: int, b: int|
                        0 <= a < b < self.statuses@.len() implies (#[trigger] self.statuses@[a]).0@
                        != (#[trigger] self.statuses@[b]).0@ by {
                        if b == pre.statuses@.len() {
                            assert(!pre.has(name@));
                            assert(pre.statuses@[a] == self.statuses@[a]);
                        } else {
                            assert(pre.statuses@[a].0@ != pre.statuses@[b].0@);
                        }
                    }
                    let n = pre.statuses@.len() as int;
                    self.lemma_status_at(n);
                    assert(pre.status(name@) == None::<FileStatus>);
                    assert forall|o: Seq<char>| o != name@ implies #[trigger] self.status(o)
                        == pre.status(o) by {
                        if pre.has(o) {
                            let j = choose|j: int|
                                0 <= j < pre.statuses@.len() && (#[trigger] pre.statuses@[j]).0@ == o;
                            pre.lemma_status_at(j);
                            assert(self.statuses@[j] == pre.statuses@[j]);
                            self.lemma_status_at(j);
                        } else if self.has(o) {
                            let j = choose|j: int|
                                0 <= j < self.statuses@.len() && (#[trigger] self.statuses@[j]).0@ == o;
                            if j < n {
                                assert(pre.statuses@[j] == self.statuses@[j]);
                            }
                        }
                    }
                }
            },
        }
    }
}

/// Statuses only move forward: if each step of a run evolves the tracker, so
/// does the run as a whole, and so the statuses seen for any task form a
/// subsequence of `Pending`, `Processing`, then one of `Done`, `Error`,
/// `Cancelled`.
pub proof fn lemma_status_never_regresses(a: Progress, b: Progress, c: Progress)
    requires
        a.evolves_to(b),
        b.evolves_to(c),
    ensures
        a.evolves_to(c),
{
    assert forall|k: Seq<char>| advances(#[trigger] a.status(k), c.status(k)) by {
        assert(advances(a.status(k), b.status(k)));
        assert(advances(b.status(k), c.status(k)));
    }
}

/// Once every task is registered and `processed` has reached `total_files`,
/// each task ended `Done` or `Error`: none was cancelled, so the batch holds one
/// counted record per task.
pub proof fn lemma_complete_batch_has_no_cancelled(p: Progress)
    requires
        p.wf(),
        p.statuses@.len() == p.total_files,
        p.processed == p.total_files,
    ensures
        forall|k: Seq<char>| #[trigger] p.has(k) ==> is_finished(p.status(k)->0),
        forall|k: Seq<char>| #[trigger] p.status(k) != Some(FileStatus::Cancelled),
{
    lemma_count_bounded(p.statuses@);
    assert forall|k: Seq<char>| #[trigger] p.has(k) implies is_finished(p.status(k)->0) by {
        let i = choose|i: int| 0 <= i < p.statuses@.len() && (#[trigger] p.statuses@[i]).0@ == k;
        p.lemma_status_at(i);
    }
    assert forall|k: Seq<char>| #[trigger] p.status(k) != Some(FileStatus::Cancelled) by {
        if p.has(k) {
            assert(is_finished(p.status(k)->0));
        }
    }
}

} // verus!
