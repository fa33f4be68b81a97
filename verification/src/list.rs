//! The task list and its basic operations.

use vstd::prelude::*;
use vstd::string::StringExecFns;

verus! {

/// The error conditions of the library, one variant per way an operation can
/// be refused.  No operation that returns one of these mutates the list.
#[derive(Clone, Copy, Debug, PartialEq, Eq, Structural)]
pub enum TodoError {
    /// The command word is unknown, or a required argument is missing.
    UsageError,
    /// An index argument is not a non-negative integer within machine range.
    ParseError,
    /// An index argument is not a valid position in the current list.
    IndexOutOfRange,
}

impl TodoError {
    /// A short diagnostic line for this error.
    pub fn message(&self) -> (r: String)
        ensures
            self is UsageError ==> r@ == "usage: get | add <name> | done <index> | delete <index>"@,
            self is ParseError ==> r@ == "the index is not a non-negative integer"@,
            self is IndexOutOfRange ==> r@ == "the index is out of range"@,
    {
        match self {
            TodoError::UsageError => String::from_str(
                "usage: get | add <name> | done <index> | delete <index>",
            ),
            TodoError::ParseError => String::from_str("the index is not a non-negative integer"),
            TodoError::IndexOutOfRange => String::from_str("the index is out of range"),
        }
    }
}

/// Mathematical model of one task: the name's characters and the completion
/// flag.
#[verifier::ext_equal]
pub ghost struct TaskSpec {
    pub name: Seq<char>,
    pub completed: bool,
}

/// One to-do item: a name and a completion flag, incomplete at creation.
pub struct TodoItem {
    name: String,
    completed: bool,
}

impl View for TodoItem {
    type V = TaskSpec;

    closed spec fn view(&self) -> TaskSpec {
        TaskSpec { name: self.name@, completed: self.completed }
    }
}

impl TodoItem {
    /// Creates an incomplete task with the given name.
    pub fn new(name: String) -> (r: TodoItem)
        ensures
            r@ == (TaskSpec { name: name@, completed: false }),
    {
        TodoItem { name, completed: false }
    }
}

/// The model of a sequence of items: each item replaced by its model.
spec fn items_view(items: Seq<TodoItem>) -> Seq<TaskSpec> {
    items.map_values(|t: TodoItem| t@)
}

/// The ordered task list.  Indices are 0-based positions in the current
/// sequence; deleting re-packs the positions that follow.
pub struct TodoList {
    list: Vec<TodoItem>,
}

impl View for TodoList {
    type V = Seq<TaskSpec>;

    closed spec fn view(&self) -> Seq<TaskSpec> {
        items_view(self.list@)
    }
}

impl TodoList {
    /// Creates an empty list.
    pub fn new() -> (r: TodoList)
        ensures
            r@ == Seq::<TaskSpec>::empty(),
    {
        let r = TodoList { list: Vec::new() };
        proof {
            assert(r@ =~= Seq::<TaskSpec>::empty());
        }
        r
    }

    /// Appends an incomplete task with the given name to the end of the list.
    pub fn add_task(&mut self, name: String)
        ensures
            final(self)@ == old(self)@.push(TaskSpec { name: name@, completed: false }),
    {
        self.list.push(TodoItem::new(name));
        proof {
            assert(self@ =~= old(self)@.push(TaskSpec { name: name@, completed: false }));
        }
    }

    /// Number of tasks currently in the list.
    pub fn len(&self) -> (r: usize)
        ensures
            r == self@.len(),
    {
        self.list.len()
    }

    /// The name of the task at a valid position.
    pub fn name_at(&self, index: usize) -> (r: &String)
        requires
            index < self@.len(),
        ensures
            r@ == self@[index as int].name,
    {
        &self.list[index].name
    }

    /// The completion flag of the task at a valid position.
    pub fn completed_at(&self, index: usize) -> (r: bool)
        requires
            index < self@.len(),
        ensures
            r == self@[index as int].completed,
    {
        self.list[index].completed
    }

    /// Marks the task at `index` complete.  A valid index marks exactly that
    /// task and leaves every other task unchanged; an invalid index is
    /// refused and the list is untouched.
    pub fn mark_completed(&mut self, index: usize) -> (r: Result<(), TodoError>)
        ensures
            index < old(self)@.len() ==> r == Ok::<(), TodoError>(())
                && final(self)@ == mark_spec(old(self)@, index as int),
            index >= old(self)@.len() ==> r == Err::<(), TodoError>(TodoError::IndexOutOfRange)
                && *final(self) == *old(self),
    {
        if index < self.list.len() {
            let name = self.list[index].name.clone();
            self.list[index] = TodoItem { name, completed: true };
            proof {
                assert(self@ =~= mark_spec(old(self)@, index as int));
            }
            Ok(())
        } else {
            Err(TodoError::IndexOutOfRange)
        }
    }

    /// Deletes the task at `index`, shifting every later task one position
    /// down.  An invalid index is refused and the list is untouched.
    pub fn delete_task(&mut self, index: usize) -> (r: Result<(), TodoError>)
        ensures
            index < old(self)@.len() ==> r == Ok::<(), TodoError>(())
                && final(self)@ == old(self)@.remove(index as int),
            index >= old(self)@.len() ==> r == Err::<(), TodoError>(TodoError::IndexOutOfRange)
                && *final(self) == *old(self),
    {
        if index < self.list.len() {
            self.list.remove(index);
            proof {
                assert(self@ =~= old(self)@.remove(index as int));
            }
            Ok(())
        } else {
            Err(TodoError::IndexOutOfRange)
        }
    }
}

/// The model of marking one task complete: the task at `i` keeps its name and
/// gains the flag; all other tasks stay as they were.
pub open spec fn mark_spec(ts: Seq<TaskSpec>, i: int) -> Seq<TaskSpec>
    recommends
        0 <= i < ts.len(),
{
    ts.update(i, TaskSpec { name: ts[i].name, completed: true })
}

/// The model of a run of `add` operations: each name in turn appended as an
/// incomplete task.
pub open spec fn add_all(ts: Seq<TaskSpec>, names: Seq<Seq<char>>) -> Seq<TaskSpec>
    decreases names.len(),
{
    if names.len() == 0 {
        ts
    } else {
        add_all(ts.push(TaskSpec { name: names.first(), completed: false }), names.drop_first())
    }
}

proof fn lemma_add_all(ts: Seq<TaskSpec>, names: Seq<Seq<char>>)
    ensures
        add_all(ts, names).len() == ts.len() + names.len(),
        forall|i: int| 0 <= i < ts.len() ==> add_all(ts, names)[i] == ts[i],
        forall|i: int|
            ts.len() <= i < ts.len() + names.len() ==> add_all(ts, names)[i] == (TaskSpec {
                name: names[i - ts.len()],
                completed: false,
            }),
    decreases names.len(),
{
    if names.len() > 0 {
        let grown = ts.push(TaskSpec { name: names.first(), completed: false });
        lemma_add_all(grown, names.drop_first());
        assert forall|i: int| 0 <= i < ts.len() implies add_all(ts, names)[i] == ts[i] by {
            assert(add_all(ts, names)[i] == grown[i]);
        }
        assert forall|i: int|
            ts.len() <= i < ts.len() + names.len() implies add_all(ts, names)[i] == (TaskSpec {
            name: names[i - ts.len()],
            completed: false,
        }) by {
            if i == ts.len() {
                assert(add_all(ts, names)[i] == grown[i]);
            } else {
                assert(add_all(ts, names)[i] == (TaskSpec {
                    name: names.drop_first()[i - grown.len()],
                    completed: false,
                }));
                assert(names.drop_first()[i - grown.len()] == names[i - ts.len()]);
            }
        }
    }
}

/// Law: a run of `add` operations starting from the empty list produces
/// exactly one task per added name, incomplete, standing at the index that
/// matches its insertion order.  `TodoList::add_task` performs one step of
/// `add_all`: its postcondition is the `push` that `add_all` folds over.
pub proof fn lemma_add_run(names: Seq<Seq<char>>)
    ensures
        add_all(Seq::<TaskSpec>::empty(), names).len() == names.len(),
        forall|i: int|
            0 <= i < names.len() ==> add_all(Seq::<TaskSpec>::empty(), names)[i] == (TaskSpec {
                name: names[i],
                completed: false,
            }),
{
    lemma_add_all(Seq::<TaskSpec>::empty(), names);
}

/// Law: marking a task complete is idempotent.  Marking a valid index a
/// second time changes nothing, and either marking leaves every other task
/// untouched.
pub proof fn lemma_mark_completed_idempotent(ts: Seq<TaskSpec>, i: int)
    requires
        0 <= i < ts.len(),
    ensures
        mark_spec(mark_spec(ts, i), i) == mark_spec(ts, i),
        mark_spec(ts, i)[i] == (TaskSpec { name: ts[i].name, completed: true }),
        forall|j: int| 0 <= j < ts.len() && j != i ==> mark_spec(ts, i)[j] == ts[j],
{
    assert(mark_spec(mark_spec(ts, i), i) =~= mark_spec(ts, i));
}

/// Law: deleting a valid index shortens the list by exactly one, leaves the
/// tasks before the index unchanged, and shifts every task after it one
/// position down.
pub proof fn lemma_delete_shifts(ts: Seq<TaskSpec>, i: int)
    requires
        0 <= i < ts.len(),
    ensures
        ts.remove(i).len() == ts.len() - 1,
        forall|j: int| 0 <= j < i ==> ts.remove(i)[j] == ts[j],
        forall|j: int| i <= j < ts.len() - 1 ==> ts.remove(i)[j] == ts[j + 1],
{
    ts.remove_ensures(i);
}

} // verus!
