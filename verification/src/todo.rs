//! A minimal task list engine: the simplest application shape on the
//! platform, with a keyed collection and a monotone id counter.

use vstd::prelude::*;

verus! {

/// One task.
pub struct TodoItem {
    /// Identifier, minted from the monotone counter.
    pub id: u64,
    /// Task text.
    pub text: String,
    /// Whether the task is done.
    pub completed: bool,
    /// Creation time in microseconds.
    pub created_at: u64,
}

/// Operations accepted by the task list.
pub enum SimpleTodoOperation {
    AddTodo { text: String },
    EditTodo { id: u64, text: String },
    DeleteTodo { id: u64 },
    ToggleTodo { id: u64 },
}

/// The task list state.
pub struct SimpleTodoState {
    /// Tasks in creation order.
    pub todos: Vec<TodoItem>,
    /// Monotone counter for minting identifiers; never reused.
    pub next_id: u64,
}

/// The index of the task with an identifier, or -1 when unknown.
pub open spec fn spec_find_todo(ts: Seq<TodoItem>, id: u64) -> int
    decreases ts.len(),
{
    if ts.len() == 0 {
        -1
    } else if ts.first().id == id {
        0
    } else {
        let r = spec_find_todo(ts.drop_first(), id);
        if r == -1 {
            -1
        } else {
            r + 1
        }
    }
}

/// The found index is the first match; -1 means no match at all.
pub proof fn lemma_find_todo_is_first(ts: Seq<TodoItem>, id: u64)
    ensures
        spec_find_todo(ts, id) == -1 ==> forall|j: int|
            0 <= j < ts.len() ==> (#[trigger] ts[j]).id != id,
        spec_find_todo(ts, id) != -1 ==> {
            let r = spec_find_todo(ts, id);
            &&& 0 <= r < ts.len()
            &&& ts[r].id == id
            &&& forall|j: int| 0 <= j < r ==> (#[trigger] ts[j]).id != id
        },
    decreases ts.len(),
{
    if ts.len() > 0 && ts.first().id != id {
        let d = ts.drop_first();
        lemma_find_todo_is_first(d, id);
        assert(forall|j: int| 1 <= j < ts.len() ==> #[trigger] ts[j] == d[j - 1]);
        let rd = spec_find_todo(d, id);
        if rd == -1 {
            assert forall|j: int| 0 <= j < ts.len() implies (#[trigger] ts[j]).id != id by {
                if j > 0 {
                    assert(ts[j] == d[j - 1]);
                }
            }
        } else {
            assert(ts[rd + 1] == d[rd]);
            assert forall|j: int| 0 <= j < rd + 1 implies (#[trigger] ts[j]).id != id by {
                if j > 0 {
                    assert(ts[j] == d[j - 1]);
                }
            }
        }
    }
}

/// Finds the index of the task with an identifier.
fn find_todo_index(ts: &Vec<TodoItem>, id: u64) -> (r: Option<usize>)
    ensures
        r matches Some(i) ==> i == spec_find_todo(ts@, id),
        r is None ==> spec_find_todo(ts@, id) == -1,
{
    proof {
        lemma_find_todo_is_first(ts@, id);
    }
    let mut i: usize = 0;
    while i < ts.len()
        invariant
            i <= ts@.len(),
            forall|j: int| 0 <= j < i ==> (#[trigger] ts@[j]).id != id,
        decreases ts@.len() - i,
    {
        if ts[i].id == id {
            proof {
                lemma_find_todo_is_first(ts@, id);
            }
            return Some(i);
        }
        i += 1;
    }
    proof {
        lemma_find_todo_is_first(ts@, id);
    }
    None
}

/// Well-formedness: every identifier was minted below the counter, so
/// identifiers are unique and never reused.
pub open spec fn spec_todo_wf(s: SimpleTodoState) -> bool {
    &&& forall|i: int| 0 <= i < s.todos@.len() ==> (#[trigger] s.todos@[i]).id < s.next_id
    &&& forall|i: int, j: int|
        0 <= i < j < s.todos@.len() ==> (#[trigger] s.todos@[i]).id != (
        #[trigger] s.todos@[j]).id
}

impl SimpleTodoState {
    /// A fresh task list. The counter starts at 1, matching instantiation.
    pub fn instantiate() -> (r: Self)
        ensures
            spec_todo_wf(r),
            r.todos@.len() == 0,
            r.next_id == 1,
    {
        SimpleTodoState { todos: Vec::new(), next_id: 1 }
    }

    /// Applies one operation: adding appends a task under a fresh
    /// identifier; editing, toggling and deleting act on the identified task
    /// and change nothing when the identifier is unknown.
    pub fn execute_operation(&mut self, operation: SimpleTodoOperation, now: u64)
        requires
            spec_todo_wf(*old(self)),
        ensures
            spec_todo_wf(*final(self)),
            operation matches SimpleTodoOperation::AddTodo { text } ==> (old(self).next_id
                < u64::MAX ==> final(self).todos@.len() == old(self).todos@.len() + 1 && final(self).todos@.drop_last() == old(self).todos@ && final(self).todos@.last().id == old(self).next_id && final(self).todos@.last().text == text && final(self).todos@.last().completed == false && final(self).todos@.last().created_at == now
                && final(self).next_id == old(self).next_id + 1) && (old(self).next_id == u64::MAX
                ==> final(self).todos@ == old(self).todos@ && final(self).next_id == old(self).next_id),
            operation matches SimpleTodoOperation::EditTodo { id, text } ==> ({
                let ti = spec_find_todo(old(self).todos@, id);
                &&& (ti == -1 ==> final(self).todos@ == old(self).todos@)
                &&& (ti >= 0 ==> final(self).todos@ == old(self).todos@.update(
                    ti,
                    TodoItem { text: text, ..old(self).todos@[ti] },
                ))
                &&& final(self).next_id == old(self).next_id
            }),
            operation matches SimpleTodoOperation::DeleteTodo { id } ==> ({
                let ti = spec_find_todo(old(self).todos@, id);
                &&& (ti == -1 ==> final(self).todos@ == old(self).todos@)
                &&& (ti >= 0 ==> final(self).todos@ == old(self).todos@.remove(ti))
                &&& final(self).next_id == old(self).next_id
            }),
            operation matches SimpleTodoOperation::ToggleTodo { id } ==> ({
                let ti = spec_find_todo(old(self).todos@, id);
                &&& (ti == -1 ==> final(self).todos@ == old(self).todos@)
                &&& (ti >= 0 ==> final(self).todos@ == old(self).todos@.update(
                    ti,
                    TodoItem { completed: !old(self).todos@[ti].completed, ..old(self).todos@[ti] },
                ))
                &&& final(self).next_id == old(self).next_id
            }),
    {
        match operation {
            SimpleTodoOperation::AddTodo { text } => {
                if self.next_id == u64::MAX {
                    return ;
                }
                let ghost before = self.todos@;
                self.todos.push(
                    TodoItem { id: self.next_id, text, completed: false, created_at: now },
                );
                self.next_id = self.next_id + 1;
                proof {
                    assert(self.todos@.drop_last() =~= before);
                    assert forall|i: int, j: int| 0 <= i < j < self.todos@.len() implies (
                    #[trigger] self.todos@[i]).id != (#[trigger] self.todos@[j]).id by {
                        if j < self.todos@.len() - 1 {
                            assert(self.todos@[i] == before[i] && self.todos@[j] == before[j]);
                        } else {
                            assert(self.todos@[i] == before[i]);
                        }
                    }
                }
            },
            SimpleTodoOperation::EditTodo { id, text } => {
                if let Some(i) = find_todo_index(&self.todos, id) {
                    proof {
                        lemma_find_todo_is_first(self.todos@, id);
                    }
                    let t = &mut self.todos[i];
                    t.text = text;
                    proof {
                        let og = old(self).todos@;
                        assert forall|a: int, b: int| 0 <= a < b < self.todos@.len() implies (
                        #[trigger] self.todos@[a]).id != (#[trigger] self.todos@[b]).id by {
                            assert(self.todos@[a].id == og[a].id && self.todos@[b].id == og[b].id);
                        }
                    }
                }
            },
            SimpleTodoOperation::DeleteTodo { id } => {
                if let Some(i) = find_todo_index(&self.todos, id) {
                    proof {
                        lemma_find_todo_is_first(self.todos@, id);
                    }
                    let _ = self.todos.remove(i);
                    proof {
                        let og = old(self).todos@;
                        assert forall|a: int, b: int| 0 <= a < b < self.todos@.len() implies (
                        #[trigger] self.todos@[a]).id != (#[trigger] self.todos@[b]).id by {
                            if a < i as int {
                                assert(self.todos@[a] == og[a]);
                            } else {
                                assert(self.todos@[a] == og[a + 1]);
                            }
                            if b < i as int {
                                assert(self.todos@[b] == og[b]);
                            } else {
                                assert(self.todos@[b] == og[b + 1]);
                            }
                        }
                        assert forall|a: int|
                            0 <= a < self.todos@.len() implies (#[trigger] self.todos@[a]).id
                            < self.next_id by {
                            if a < i as int {
                                assert(self.todos@[a] == og[a]);
                            } else {
                                assert(self.todos@[a] == og[a + 1]);
                            }
                        }
                    }
                }
            },
            SimpleTodoOperation::ToggleTodo { id } => {
                if let Some(i) = find_todo_index(&self.todos, id) {
                    proof {
                        lemma_find_todo_is_first(self.todos@, id);
                    }
                    let done = self.todos[i].completed;
                    let t = &mut self.todos[i];
                    t.completed = !done;
                    proof {
                        let og = old(self).todos@;
                        assert forall|a: int, b: int| 0 <= a < b < self.todos@.len() implies (
                        #[trigger] self.todos@[a]).id != (#[trigger] self.todos@[b]).id by {
                            assert(self.todos@[a].id == og[a].id && self.todos@[b].id == og[b].id);
                        }
                    }
                }
            },
        }
    }
}

} // verus!
