//! The registry of running monitor tasks.
//!
//! One concurrent polling loop runs per monitored target; the registry
//! maps each target's name to the cancellable handle of its loop and
//! holds at most one task per name.  The surrounding program wraps the
//! registry in a mutex and holds the lock only for the duration of each
//! registry operation, never across an awaited call.

use vstd::prelude::*;
use tokio::task::JoinHandle;

verus! {

#[verifier::external_type_specification]
#[verifier::external_body]
#[verifier::reject_recursive_types(T)]
pub struct ExJoinHandle<T>(JoinHandle<T>);

// Declaring JoinHandle makes Verus read its Future impl, whose output
// names JoinError; the declaration above does not go through without
// this one.
#[verifier::external_type_specification]
#[verifier::external_body]
pub struct ExJoinError(tokio::task::JoinError);

/// Relies on tokio's JoinHandle::abort: requests cancellation of the
/// task, which is interrupted at its next suspension point.  Nothing
/// observable is promised to the caller.
#[verifier::external_body]
fn abort_task(handle: &JoinHandle<()>) {
    handle.abort()
}

/// One registered monitor: the target's name and the cancellable handle
/// of its polling loop.
pub struct MonitorTask {
    pub name: String,
    pub handle: JoinHandle<()>,
}

/// The registry of running monitor tasks, at most one per target name.
pub struct MonitorState {
    pub tasks: Vec<MonitorTask>,
}

impl MonitorState {
    /// The registered target names, in registration order.
    pub open spec fn names(self) -> Seq<Seq<char>> {
        self.tasks@.map_values(|t: MonitorTask| t.name@)
    }

    /// At most one task is registered per target name.
    pub open spec fn wf(self) -> bool {
        self.names().no_duplicates()
    }

    /// An empty registry.
    pub fn new() -> (r: MonitorState)
        ensures
            r.names() == Seq::<Seq<char>>::empty(),
            r.wf(),
    {
        let r = MonitorState { tasks: Vec::new() };
        proof {
            assert(r.names() =~= Seq::<Seq<char>>::empty());
        }
        r
    }

    /// Number of registered tasks.
    pub fn task_count(&self) -> (n: usize)
        ensures
            n == self.names().len(),
    {
        self.tasks.len()
    }

    /// Whether a task is registered under the given name.
    pub fn contains_name(&self, name: &String) -> (r: bool)
        ensures
            r == self.names().contains(name@),
    {
        let mut i: usize = 0;
        while i < self.tasks.len()
            invariant
                i <= self.tasks@.len(),
                forall|j: int| 0 <= j < i ==> self.names()[j] != name@,
            decreases self.tasks@.len() - i,
        {
            if name.eq(&self.tasks[i].name) {
                assert(self.names()[i as int] == name@);
                return true;
            }
            i = i + 1;
        }
        false
    }

    /// Registers a freshly spawned polling loop under its target's name:
    /// the given handle is appended under that name and every other entry
    /// keeps its own.  A task may already be registered under a name only
    /// after it has been stopped, so the caller issues a stop of the
    /// name's earlier task (or a stop-all) before a fresh start batch.
    pub fn register(&mut self, name: String, handle: JoinHandle<()>)
        requires
            old(self).wf(),
            !old(self).names().contains(name@),
        ensures
            final(self).wf(),
            final(self).tasks@ == old(self).tasks@.push((MonitorTask { name, handle })),
            final(self).names() == old(self).names().push(name@),
    {
        let ghost old_names = self.names();
        let ghost name_view = name@;
        self.tasks.push(MonitorTask { name, handle });
        proof {
            assert(self.names() =~= old_names.push(name_view));
        }
    }

    /// Cancels the task registered under the given name, if any, and
    /// removes its entry; every other entry is kept, in order.  This is
    /// the per-name stop that lets a caller stop the named targets of a
    /// batch before starting them anew, without touching unrelated
    /// monitors.
    pub fn stop_named(&mut self, name: &String)
        requires
            old(self).wf(),
        ensures
            final(self).wf(),
            !final(self).names().contains(name@),
            !old(self).names().contains(name@) ==> final(self).tasks@ == old(self).tasks@,
            old(self).names().contains(name@) ==> (exists|i: int|
                0 <= i < old(self).tasks@.len() && old(self).tasks@[i].name@ == name@
                    && final(self).tasks@ == #[trigger] old(self).tasks@.remove(i)),
    {
        let mut i: usize = 0;
        while i < self.tasks.len()
            invariant
                self.wf(),
                self.tasks@ == old(self).tasks@,
                i <= self.tasks@.len(),
                forall|j: int| 0 <= j < i ==> self.names()[j] != name@,
            decreases self.tasks@.len() - i,
        {
            if name.eq(&self.tasks[i].name) {
                let ghost old_tasks = self.tasks@;
                let ghost old_names = self.names();
                assert(old_names[i as int] == name@);
                assert(old_names[i as int] == old_tasks[i as int].name@);
                let task = self.tasks.remove(i);
                abort_task(&task.handle);
                proof {
                    assert(old_names.contains(name@));
                    assert(old(self).tasks@[i as int].name@ == name@);
                    assert(self.tasks@ == old(self).tasks@.remove(i as int));
                    assert(self.names() =~= old_names.remove(i as int));
                    assert forall|k1: int, k2: int|
                        0 <= k1 < self.names().len() && 0 <= k2 < self.names().len() && k1
                            != k2 implies self.names()[k1] != self.names()[k2] by {
                        let m1: int = if k1 < i { k1 } else { k1 + 1 };
                        let m2: int = if k2 < i { k2 } else { k2 + 1 };
                        assert(self.names()[k1] == old_names[m1]);
                        assert(self.names()[k2] == old_names[m2]);
                    }
                    assert(!self.names().contains(name@)) by {
                        if self.names().contains(name@) {
                            let k = choose|k: int|
                                0 <= k < self.names().len() && self.names()[k] == name@;
                            let m: int = if k < i { k } else { k + 1 };
                            assert(self.names()[k] == old_names[m]);
                            assert(old_names[m] != old_names[i as int]);
                        }
                    }
                }
                return ;
            }
            i = i + 1;
        }
        proof {
            if self.names().contains(name@) {
                let k = choose|k: int|
                    0 <= k < self.names().len() && self.names()[k] == name@;
            }
        }
    }

    /// Cancels every registered task and empties the registry: every
    /// handle receives an abort, then its entry is dropped.  Running the
    /// operation twice in a row leaves the registry empty both times.
    pub fn stop_all(&mut self)
        ensures
            final(self).names() == Seq::<Seq<char>>::empty(),
            final(self).wf(),
    {
        while self.tasks.len() > 0
            invariant
                true,
            decreases self.tasks@.len(),
        {
            match self.tasks.pop() {
                Some(task) => {
                    abort_task(&task.handle);
                },
                None => {
                },
            }
        }
        proof {
            assert(self.names() =~= Seq::<Seq<char>>::empty());
        }
    }
}

/// The registry a stop-all leaves behind: the empty one, whatever was
/// registered.
pub open spec fn spec_stop_all(names: Seq<Seq<char>>) -> Seq<Seq<char>> {
    Seq::<Seq<char>>::empty()
}

/// The registry a start leaves behind: the old registry with the new
/// target's name registered.
pub open spec fn spec_register(names: Seq<Seq<char>>, name: Seq<char>) -> Seq<Seq<char>> {
    names.push(name)
}

/// Stopping all tasks is idempotent: a second stop-all with no start in
/// between finds and leaves the same empty registry.
pub proof fn lemma_stop_all_idempotent(names: Seq<Seq<char>>)
    ensures
        spec_stop_all(spec_stop_all(names)) == spec_stop_all(names),
        spec_stop_all(names).len() == 0,
{
}

/// A target started into the registry is among the names a following
/// stop-all cancels: stop-all drains every registered entry, the fresh
/// one included, so the new loop's handle receives its abort.
pub proof fn lemma_started_task_is_stopped(names: Seq<Seq<char>>, name: Seq<char>)
    ensures
        spec_register(names, name).contains(name),
        spec_stop_all(spec_register(names, name)).len() == 0,
{
    assert(spec_register(names, name)[names.len() as int] == name);
}

} // verus!
