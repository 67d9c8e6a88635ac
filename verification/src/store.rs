//! The task store: a mapping from task name to points and completion
//! state, kept in insertion order so that the rendered dashboard is
//! deterministic. Lookup goes by the first entry with a matching name;
//! the store never holds two entries with the same name (see
//! [`lemma_store_names_unique`]).

use vstd::prelude::*;
use crate::text::str_eq;

verus! {

/// One task as the specification sees it.
pub ghost struct TaskView {
    pub name: Seq<char>,
    pub points: u8,
    pub completed: bool,
}

/// One stored task: the display name that keys it, its point value and
/// whether it has been completed.
#[derive(Debug)]
pub struct Task {
    pub name: String,
    pub points: u8,
    pub completed: bool,
}

impl View for Task {
    type V = TaskView;

    open spec fn view(&self) -> TaskView {
        TaskView { name: self.name@, points: self.points, completed: self.completed }
    }
}

impl DeepView for Task {
    type V = TaskView;

    open spec fn deep_view(&self) -> TaskView {
        self.view()
    }
}

/// Index of the first entry with the given name, or -1 when absent.
pub open spec fn first_idx(s: Seq<TaskView>, name: Seq<char>) -> int
    decreases s.len(),
{
    if s.len() == 0 {
        -1
    } else if s[0].name == name {
        0
    } else {
        let r = first_idx(s.drop_first(), name);
        if r == -1 {
            -1
        } else {
            r + 1
        }
    }
}

pub open spec fn store_contains(s: Seq<TaskView>, name: Seq<char>) -> bool {
    first_idx(s, name) >= 0
}

/// What inserting a task does: overwrite the entry with the same name in
/// place, or append a new one; either way the entry ends up with the
/// given points and is not completed.
pub open spec fn insert_spec(s: Seq<TaskView>, name: Seq<char>, points: u8) -> Seq<TaskView> {
    let t = TaskView { name, points, completed: false };
    if store_contains(s, name) {
        s.update(first_idx(s, name), t)
    } else {
        s.push(t)
    }
}

/// What removing a task does: drop the entry with the given name, if any.
pub open spec fn remove_spec(s: Seq<TaskView>, name: Seq<char>) -> Seq<TaskView> {
    if store_contains(s, name) {
        s.remove(first_idx(s, name))
    } else {
        s
    }
}

/// What completing a task does: mark the entry with the given name
/// completed, if any.
pub open spec fn complete_spec(s: Seq<TaskView>, name: Seq<char>) -> Seq<TaskView> {
    if store_contains(s, name) {
        let i = first_idx(s, name);
        s.update(i, TaskView { completed: true, ..s[i] })
    } else {
        s
    }
}

pub proof fn lemma_first_idx(s: Seq<TaskView>, name: Seq<char>)
    ensures
        -1 <= first_idx(s, name) < s.len(),
        first_idx(s, name) >= 0 ==> s[first_idx(s, name)].name == name,
        forall|k: int| 0 <= k < first_idx(s, name) ==> (#[trigger] s[k]).name != name,
        first_idx(s, name) == -1 ==> forall|k: int|
            0 <= k < s.len() ==> (#[trigger] s[k]).name != name,
    decreases s.len(),
{
    if s.len() == 0 {
    } else if s[0].name == name {
    } else {
        lemma_first_idx(s.drop_first(), name);
        assert forall|k: int| 0 <= k < s.len() && k >= 1 implies s[k]
            == s.drop_first()[k - 1] by {}
    }
}

pub proof fn lemma_first_idx_at(s: Seq<TaskView>, name: Seq<char>, i: int)
    requires
        0 <= i < s.len(),
        s[i].name == name,
        forall|k: int| 0 <= k < i ==> (#[trigger] s[k]).name != name,
    ensures
        first_idx(s, name) == i,
    decreases s.len(),
{
    if i == 0 {
    } else {
        assert forall|k: int| 0 <= k < i - 1 implies (#[trigger] s.drop_first()[k]).name
            != name by {
            assert(s.drop_first()[k] == s[k + 1]);
        }
        assert(s.drop_first()[i - 1] == s[i]);
        lemma_first_idx_at(s.drop_first(), name, i - 1);
    }
}

/// The task store itself. Entries stay in insertion order.
#[derive(Debug)]
pub struct TaskStore {
    items: Vec<Task>,
}

impl View for TaskStore {
    type V = Seq<TaskView>;

    closed spec fn view(&self) -> Seq<TaskView> {
        self.items.deep_view()
    }
}

impl TaskStore {
    pub fn new() -> (r: TaskStore)
        ensures
            r@ =~= Seq::<TaskView>::empty(),
    {
        TaskStore { items: Vec::new() }
    }

    pub fn len(&self) -> (r: usize)
        ensures
            r == self@.len(),
    {
        self.items.len()
    }

    pub fn get(&self, i: usize) -> (r: &Task)
        requires
            i < self@.len(),
        ensures
            r@ == self@[i as int],
    {
        &self.items[i]
    }

    /// Index of the entry with the given name, if any.
    pub fn find_index(&self, name: &str) -> (r: Option<usize>)
        ensures
            r is Some <==> store_contains(self@, name@),
            r matches Some(i) ==> i as int == first_idx(self@, name@),
    {
        let n: usize = self.items.len();
        let mut i: usize = 0;
        while i < n
            invariant
                i <= n,
                n == self@.len(),
                self@.len() == self.items@.len(),
                forall|k: int| 0 <= k < self@.len() ==> #[trigger] self@[k] == self.items@[k]@,
                forall|k: int| 0 <= k < i ==> (#[trigger] self@[k]).name != name@,
            decreases n - i,
        {
            if str_eq(self.items[i].name.as_str(), name) {
                proof {
                    lemma_first_idx_at(self@, name@, i as int);
                }
                return Some(i);
            }
            i = i + 1;
        }
        proof {
            lemma_first_idx(self@, name@);
        }
        None
    }

    /// Inserts or overwrites the task with the given name.
    pub fn insert(&mut self, name: String, points: u8)
        ensures
            final(self)@ =~= insert_spec(old(self)@, name@, points),
    {
        let t = Task { name, points, completed: false };
        let ghost tv = TaskView { name: t.name@, points, completed: false };
        let found = self.find_index(t.name.as_str());
        proof {
            lemma_first_idx(old(self)@, t.name@);
        }
        match found {
            Some(i) => {
                self.items.set(i, t);
                proof {
                    assert(self@ =~= old(self)@.update(i as int, tv));
                }
            },
            None => {
                self.items.push(t);
                proof {
                    assert(self@ =~= old(self)@.push(tv));
                }
            },
        }
    }

    /// Removes the task with the given name; reports whether it was there.
    pub fn remove(&mut self, name: &str) -> (r: bool)
        ensures
            r == store_contains(old(self)@, name@),
            final(self)@ =~= remove_spec(old(self)@, name@),
    {
        proof {
            lemma_first_idx(self@, name@);
        }
        match self.find_index(name) {
            Some(i) => {
                self.items.remove(i);
                true
            },
            None => false,
        }
    }

    /// Marks the entry at the given index completed, keeping its name and
    /// points.
    pub fn set_completed(&mut self, i: usize)
        requires
            i < old(self)@.len(),
        ensures
            final(self)@ =~= old(self)@.update(
                i as int,
                (TaskView { completed: true, ..old(self)@[i as int] }),
            ),
    {
        let name_copy: String = self.items[i].name.clone();
        let points: u8 = self.items[i].points;
        self.items.set(i, Task { name: name_copy, points, completed: true });
    }
}

/// The store invariant: no two entries share a name.
pub open spec fn names_unique(s: Seq<TaskView>) -> bool {
    forall|i: int, j: int| 0 <= i < j < s.len() ==> (#[trigger] s[i]).name != (#[trigger] s[j]).name
}

/// Every way the store is ever mutated keeps task names unique, so a
/// store grown from empty never holds two entries with the same name.
pub proof fn lemma_store_names_unique(s: Seq<TaskView>, name: Seq<char>, points: u8)
    requires
        names_unique(s),
    ensures
        names_unique(insert_spec(s, name, points)),
        names_unique(remove_spec(s, name)),
        names_unique(complete_spec(s, name)),
{
    lemma_first_idx(s, name);
    let i = first_idx(s, name);
    if store_contains(s, name) {
        let ins = insert_spec(s, name, points);
        assert forall|a: int, b: int| 0 <= a < b < ins.len() implies (#[trigger] ins[a]).name
            != (#[trigger] ins[b]).name by {
            assert(s[a].name != s[b].name);
        }
        let cmp = complete_spec(s, name);
        assert forall|a: int, b: int| 0 <= a < b < cmp.len() implies (#[trigger] cmp[a]).name
            != (#[trigger] cmp[b]).name by {
            assert(s[a].name != s[b].name);
        }
        let rem = remove_spec(s, name);
        assert forall|a: int, b: int| 0 <= a < b < rem.len() implies (#[trigger] rem[a]).name
            != (#[trigger] rem[b]).name by {
            let a0 = if a < i {
                a
            } else {
                a + 1
            };
            let b0 = if b < i {
                b
            } else {
                b + 1
            };
            assert(rem[a] == s[a0]);
            assert(rem[b] == s[b0]);
            assert(s[a0].name != s[b0].name);
        }
    } else {
        let ins = insert_spec(s, name, points);
        assert forall|a: int, b: int| 0 <= a < b < ins.len() implies (#[trigger] ins[a]).name
            != (#[trigger] ins[b]).name by {
            if b < s.len() {
                assert(s[a].name != s[b].name);
            } else {
                assert(ins[b].name == name);
                assert(s[a].name != name);
            }
        }
    }
}

} // verus!
