//! Tasks and the ordered store that owns them.
use vstd::prelude::*;
use crate::status::TaskStatus;

verus! {

/// What a task holds, as mathematical values.
pub ghost struct TaskView {
    pub id: u32,
    pub content: Seq<char>,
    pub status: TaskStatus,
}

/// A single to-do item. Its id and content are fixed at creation; only the
/// status changes.
#[derive(Debug, Clone)]
pub struct Task {
    id: u32,
    content: String,
    status: TaskStatus,
}

impl View for Task {
    type V = TaskView;

    closed spec fn view(&self) -> TaskView {
        TaskView { id: self.id, content: self.content@, status: self.status }
    }
}

impl Task {
    /// Creates a task with id `id` and text `content`, in status `New`.
    pub fn create(id: u32, content: String) -> (r: Task)
        ensures
            r@ == (TaskView { id, content: content@, status: TaskStatus::New }),
    {
        Task { id, content, status: TaskStatus::New }
    }

    /// Replaces the status; id and content stay.
    pub fn change_status(&mut self, status: TaskStatus)
        ensures
            final(self)@ == (TaskView { id: old(self)@.id, content: old(self)@.content, status }),
    {
        self.status = status;
    }

    /// Whether the task carries `id`.
    pub fn equals(&self, id: u32) -> (r: bool)
        ensures
            r == (self@.id == id),
    {
        self.id == id
    }

    pub fn id(&self) -> (r: u32)
        ensures
            r == self@.id,
    {
        self.id
    }

    pub fn content(&self) -> (r: &str)
        ensures
            r@ == self@.content,
    {
        self.content.as_str()
    }

    pub fn status(&self) -> (r: TaskStatus)
        ensures
            r == self@.status,
    {
        self.status
    }
}

/// The views of a sequence of tasks, in order.
pub open spec fn views(ts: Seq<Task>) -> Seq<TaskView> {
    ts.map_values(|t: Task| t@)
}

/// What a store holds: the last id issued, and the tasks in display order.
pub ghost struct TasksView {
    pub id_counter: u32,
    pub tasks: Seq<TaskView>,
}

impl TasksView {
    /// Some task of the store carries `id`.
    pub open spec fn contains_id(self, id: u32) -> bool {
        exists|i: int| 0 <= i < self.tasks.len() && self.tasks[i].id == id
    }

    /// `i` is the position of the first task that carries `id`.
    pub open spec fn is_first_index(self, id: u32, i: int) -> bool {
        &&& 0 <= i < self.tasks.len()
        &&& self.tasks[i].id == id
        &&& forall|j: int| 0 <= j < i ==> self.tasks[j].id != id
    }

    /// No two tasks share an id.
    pub open spec fn ids_unique(self) -> bool {
        forall|i: int, j: int|
            0 <= i < self.tasks.len() && 0 <= j < self.tasks.len() && i != j
                ==> self.tasks[i].id != self.tasks[j].id
    }

    /// Every id in the store was issued by the counter.
    pub open spec fn ids_issued(self) -> bool {
        forall|i: int| 0 <= i < self.tasks.len() ==> self.tasks[i].id <= self.id_counter
    }

    /// The store's invariant.
    pub open spec fn wf(self) -> bool {
        self.ids_unique() && self.ids_issued()
    }

    /// The store after the tasks that carry `id` have been removed.
    pub open spec fn without(self, id: u32) -> TasksView {
        TasksView { id_counter: self.id_counter, tasks: self.tasks.filter(other_than(id)) }
    }

    /// The store with every task removed; the counter stays.
    pub open spec fn cleared(self) -> TasksView {
        TasksView { id_counter: self.id_counter, tasks: Seq::empty() }
    }

    /// The store with `t` appended.
    pub open spec fn with(self, t: TaskView) -> TasksView {
        TasksView { id_counter: self.id_counter, tasks: self.tasks.push(t) }
    }
}

/// Holds of the tasks that do not carry `id`.
pub open spec fn other_than(id: u32) -> spec_fn(TaskView) -> bool {
    |t: TaskView| t.id != id
}

/// `id` was issued by a store that went from `before` to `after`.
pub open spec fn generated(before: TasksView, after: TasksView, id: u32) -> bool {
    &&& id == before.id_counter + 1
    &&& after == (TasksView { id_counter: id, tasks: before.tasks })
}

/// The store rebuilt from a counter and a list of tasks, where they satisfy
/// the store's invariant.
pub open spec fn restored(id_counter: u32, tasks: Seq<TaskView>) -> Option<TasksView> {
    let s = TasksView { id_counter, tasks };
    if s.wf() {
        Some(s)
    } else {
        None
    }
}

/// The ordered collection of tasks with its id generator.
#[derive(Debug, Clone)]
pub struct Tasks {
    id_counter: u32,
    tasks: Vec<Task>,
}

impl View for Tasks {
    type V = TasksView;

    closed spec fn view(&self) -> TasksView {
        TasksView { id_counter: self.id_counter, tasks: views(self.tasks@) }
    }
}

impl Tasks {
    /// An empty store whose counter has issued nothing.
    pub fn new() -> (r: Tasks)
        ensures
            r@ == (TasksView { id_counter: 0, tasks: Seq::empty() }),
            r@.wf(),
    {
        let r = Tasks { id_counter: 0, tasks: Vec::new() };
        assert(r@.tasks =~= Seq::<TaskView>::empty());
        r
    }

    /// Issues a fresh id: one more than the last one issued.
    pub fn generate_task_id(&mut self) -> (r: u32)
        requires
            old(self)@.id_counter < u32::MAX,
        ensures
            generated(old(self)@, final(self)@, r),
            old(self)@.wf() ==> final(self)@.wf(),
    {
        self.id_counter = self.id_counter + 1;
        self.id_counter
    }

    /// Appends a task at the end. Its id must be one the counter issued and
    /// that no task of the store carries.
    pub fn add(&mut self, task: Task)
        requires
            old(self)@.wf(),
            !old(self)@.contains_id(task@.id),
            task@.id <= old(self)@.id_counter,
        ensures
            final(self)@ == old(self)@.with(task@),
            final(self)@.wf(),
    {
        self.tasks.push(task);
        assert(self@.tasks =~= old(self)@.tasks.push(task@));
    }

    /// Whether the store holds no task.
    pub fn is_empty(&self) -> (r: bool)
        ensures
            r == (self@.tasks.len() == 0),
    {
        self.tasks.len() == 0
    }

    /// Removes every task.
    pub fn clear(&mut self)
        ensures
            final(self)@ == old(self)@.cleared(),
            old(self)@.wf() ==> final(self)@.wf(),
    {
        self.tasks.clear();
        assert(self@.tasks =~= Seq::<TaskView>::empty());
    }

    /// Finds the first task that carries `id`, for change in place.
    pub fn find_by_id(&mut self, id: u32) -> (r: Option<&mut Task>)
        ensures
            r is None <==> !old(self)@.contains_id(id),
            r is None ==> final(self)@ == old(self)@,
            r is Some ==> exists|i: int|
                {
                    &&& old(self)@.is_first_index(id, i)
                    &&& r.unwrap()@ == old(self)@.tasks[i]
                    &&& final(self)@ == (TasksView {
                        id_counter: old(self)@.id_counter,
                        tasks: old(self)@.tasks.update(i, final(r.unwrap())@),
                    })
                },
    {
        let mut i: usize = 0;
        while i < self.tasks.len()
            invariant
                *self == *old(self),
                0 <= i <= self.tasks@.len(),
                forall|j: int| 0 <= j < i ==> self@.tasks[j].id != id,
            decreases self.tasks@.len() - i,
        {
            if self.tasks[i].equals(id) {
                let ghost before = self@;
                let t = &mut self.tasks[i];
                proof {
                    assert(before.is_first_index(id, i as int));
                    assert(views(after_borrow(self.tasks)@) =~= before.tasks.update(i as int, final(t)@));
                }
                return Some(t);
            }
            i = i + 1;
        }
        assert(!old(self)@.contains_id(id));
        None
    }

    /// Removes every task that carries `id`; an id that no task carries
    /// leaves the store as it was.
    pub fn remove_by_id(&mut self, id: u32)
        ensures
            final(self)@ == old(self)@.without(id),
            old(self)@.wf() ==> final(self)@.wf(),
    {
        let ghost orig = self.tasks@;
        let mut rest: Vec<Task> = Vec::new();
        let ghost mut src: Seq<int> = Seq::empty();
        std::mem::swap(&mut self.tasks, &mut rest);
        while rest.len() > 0
            invariant
                self.id_counter == old(self).id_counter,
                rest@.len() <= orig.len(),
                rest@ == orig.subrange(orig.len() - rest@.len(), orig.len() as int),
                views(self.tasks@) == views(orig.subrange(0, orig.len() - rest@.len())).filter(other_than(id)),
                src.len() == self.tasks@.len(),
                forall|a: int|
                    0 <= a < src.len() ==> 0 <= #[trigger] src[a] < orig.len() - rest@.len()
                        && self.tasks@[a]@ == orig[src[a]]@,
                forall|a: int, b: int| 0 <= a < b < src.len() ==> src[a] < src[b],
            decreases rest@.len(),
        {
            let ghost k = orig.len() - rest@.len();
            let ghost kept = self.tasks@;
            let t = rest.remove(0);
            proof {
                assert(t == orig[k]);
                assert(rest@ =~= orig.subrange(k + 1, orig.len() as int));
                let pre = views(orig.subrange(0, k));
                let pre1 = views(orig.subrange(0, k + 1));
                assert(pre1 =~= pre.push(t@));
                assert(pre1.drop_last() =~= pre);
                assert(pre1.last() == t@);
                assert(pre1.len() == k + 1);
                reveal(Seq::filter);
                assert(pre1.filter(other_than(id)) == (if t@.id != id {
                    pre.filter(other_than(id)).push(t@)
                } else {
                    pre.filter(other_than(id))
                }));
            }
            if !t.equals(id) {
                self.tasks.push(t);
                proof {
                    src = src.push(k);
                }
                assert(views(self.tasks@) =~= views(kept).push(t@));
            }
        }
        proof {
            assert(orig.subrange(0, orig.len() as int) =~= orig);
            let old_v = old(self)@;
            let new_v = self@;
            if old_v.wf() {
                assert forall|a: int, b: int|
                    0 <= a < new_v.tasks.len() && 0 <= b < new_v.tasks.len() && a != b
                    implies new_v.tasks[a].id != new_v.tasks[b].id by {
                    assert(new_v.tasks[a] == old_v.tasks[src[a]]);
                    assert(new_v.tasks[b] == old_v.tasks[src[b]]);
                };
                assert forall|a: int| 0 <= a < new_v.tasks.len()
                    implies new_v.tasks[a].id <= new_v.id_counter by {
                    assert(new_v.tasks[a] == old_v.tasks[src[a]]);
                };
            }
        }
    }

    /// Rebuilds a store from a counter and tasks read back from storage.
    /// Gives `None` where they break the store's invariant: two tasks with
    /// one id, or an id above the counter.
    pub fn from_parts(id_counter: u32, tasks: Vec<Task>) -> (r: Option<Tasks>)
        ensures
            match r {
                Some(s) => restored(id_counter, views(tasks@)) == Some(s@),
                None => restored(id_counter, views(tasks@)) is None,
            },
    {
        let n = tasks.len();
        let ghost v = TasksView { id_counter, tasks: views(tasks@) };
        let mut i: usize = 0;
        while i < n
            invariant
                n == tasks@.len(),
                v == (TasksView { id_counter, tasks: views(tasks@) }),
                0 <= i <= n,
                forall|a: int| 0 <= a < i ==> v.tasks[a].id <= id_counter,
                forall|a: int, b: int|
                    0 <= a < i && 0 <= b < n && a != b ==> v.tasks[a].id != v.tasks[b].id,
            decreases n - i,
        {
            if tasks[i].id() > id_counter {
                assert(!v.ids_issued());
                return None;
            }
            let mut j: usize = 0;
            while j < n
                invariant
                    n == tasks@.len(),
                    v == (TasksView { id_counter, tasks: views(tasks@) }),
                    0 <= i < n,
                    0 <= j <= n,
                    forall|b: int| 0 <= b < j && b != i ==> v.tasks[i as int].id != v.tasks[b].id,
                decreases n - j,
            {
                if j != i && tasks[j].id() == tasks[i].id() {
                    assert(v.tasks[i as int].id == v.tasks[j as int].id);
                    assert(!v.ids_unique());
                    return None;
                }
                j = j + 1;
            }
            i = i + 1;
        }
        let r = Tasks { id_counter, tasks };
        assert(r@ == v);
        Some(r)
    }

    /// The store that loading yields: what was read back where it holds
    /// together, and an empty store where nothing could be read or what was
    /// read breaks the invariant.
    pub fn from_loaded(loaded: Option<(u32, Vec<Task>)>) -> (r: Tasks)
        ensures
            r@.wf(),
            r@ == match loaded {
                Some((c, ts)) => match restored(c, views(ts@)) {
                    Some(v) => v,
                    None => TasksView { id_counter: 0, tasks: Seq::empty() },
                },
                None => TasksView { id_counter: 0, tasks: Seq::empty() },
            },
    {
        match loaded {
            Some((c, ts)) => match Tasks::from_parts(c, ts) {
                Some(s) => s,
                None => Tasks::new(),
            },
            None => Tasks::new(),
        }
    }

    /// The last id issued.
    pub fn id_counter(&self) -> (r: u32)
        ensures
            r == self@.id_counter,
    {
        self.id_counter
    }

    /// The tasks in display order.
    pub fn tasks(&self) -> (r: &Vec<Task>)
        ensures
            views(r@) == self@.tasks,
    {
        &self.tasks
    }
}

/// Ids issued one after another by a store rise strictly, whatever runs
/// between the draws, since nothing lowers the counter: the first is one
/// above the counter the store started from (so 1 for a new store), and each
/// later one is above all earlier ones. `before[k]` and `after[k]` are the
/// store around the k-th draw.
pub proof fn lemma_generated_ids_increase(before: Seq<TasksView>, after: Seq<TasksView>, ids: Seq<u32>)
    requires
        before.len() == ids.len(),
        after.len() == ids.len(),
        forall|k: int| 0 <= k < ids.len() ==> generated(#[trigger] before[k], after[k], ids[k]),
        forall|k: int| 0 <= k < ids.len() - 1 ==> after[k].id_counter <= #[trigger] before[k + 1].id_counter,
    ensures
        ids.len() > 0 ==> ids[0] == before[0].id_counter + 1,
        forall|j: int, k: int| 0 <= j < k < ids.len() ==> ids[j] < ids[k],
    decreases ids.len(),
{
    if ids.len() > 1 {
        let n = ids.len() - 1;
        lemma_generated_ids_increase(before.drop_last(), after.drop_last(), ids.drop_last());
        assert(generated(before[n - 1], after[n - 1], ids[n - 1]));
        assert(generated(before[n], after[n], ids[n]));
        assert(after[n - 1].id_counter <= before[(n - 1) + 1].id_counter);
        assert(ids[n - 1] < ids[n]);
        assert forall|j: int, k: int| 0 <= j < k < ids.len() implies ids[j] < ids[k] by {
            if k < n {
                assert(ids.drop_last()[j] < ids.drop_last()[k]);
            } else if j < n - 1 {
                assert(ids.drop_last()[j] < ids.drop_last()[n - 1]);
            }
        };
    }
}

/// After a clear, the next id issued is above every id the store ever
/// issued, those of the cleared tasks included.
pub proof fn lemma_id_after_clear_is_fresh(s: TasksView, after: TasksView, id: u32)
    requires
        s.wf(),
        generated(s.cleared(), after, id),
    ensures
        id > s.id_counter,
        forall|i: int| 0 <= i < s.tasks.len() ==> s.tasks[i].id < id,
{
}

/// Once the tasks with an id are removed, no task of the store carries it.
pub proof fn lemma_removed_id_is_absent(s: TasksView, id: u32)
    ensures
        !s.without(id).contains_id(id),
{
    assert forall|i: int| 0 <= i < s.without(id).tasks.len() implies s.without(id).tasks[i].id != id by {
        s.tasks.lemma_filter_pred(other_than(id), i);
    };
}

/// A task appended to a store with the invariant is what a lookup of its id
/// finds.
pub proof fn lemma_added_task_is_found(s: TasksView, t: TaskView)
    requires
        s.wf(),
        !s.contains_id(t.id),
    ensures
        s.with(t).contains_id(t.id),
        s.with(t).is_first_index(t.id, s.tasks.len() as int),
        forall|i: int| s.with(t).is_first_index(t.id, i) ==> s.with(t).tasks[i] == t,
{
    let w = s.with(t);
    assert(w.tasks[s.tasks.len() as int] == t);
    assert forall|i: int| s.with(t).is_first_index(t.id, i) implies s.with(t).tasks[i] == t by {
        if i < s.tasks.len() {
            assert(w.tasks[i] == s.tasks[i]);
        }
    };
}

/// A store with the invariant, rebuilt from its own counter and tasks, comes
/// back whole.
pub proof fn lemma_restore_round_trip(s: TasksView)
    requires
        s.wf(),
    ensures
        restored(s.id_counter, s.tasks) == Some(s),
{
}

} // verus!
