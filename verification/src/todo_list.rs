//! The ordered list of todos held in memory.

use vstd::prelude::*;
use crate::chars::{push_range, to_chars};
use crate::text::{is_single_line, is_space, single_line, trim, trim_range};

verus! {

/// Whether `t` can be stored as a todo: it is not empty, holds no line
/// terminator, and neither starts nor ends with white space.
pub open spec fn is_todo(t: Seq<char>) -> bool {
    &&& t.len() > 0
    &&& single_line(t)
    &&& !is_space(t[0])
    &&& !is_space(t.last())
}

/// Whether every entry of `todos` can be stored as a todo.
pub open spec fn all_todos(todos: Seq<Seq<char>>) -> bool {
    forall|i: int| 0 <= i < todos.len() ==> is_todo(#[trigger] todos[i])
}

/// Why a change to the list was refused.
#[derive(Clone, Copy, Debug, PartialEq, Eq, Structural)]
pub enum TodoError {
    /// The text is empty once the white space around it is gone.
    EmptyTodo,
    /// The text spans more than one line.
    MultiLine,
    /// The number names no entry of the list.
    BadIndex,
}

/// Todos in the order in which they were added. Entries may repeat.
#[derive(Debug)]
pub struct TodoList {
    items: Vec<String>,
}

impl View for TodoList {
    type V = Seq<Seq<char>>;

    closed spec fn view(&self) -> Seq<Seq<char>> {
        Seq::new(self.items@.len(), |i: int| self.items@[i]@)
    }
}

impl TodoList {
    /// The invariant of the list: every entry can be stored as a todo.
    /// Every function that makes or changes a list establishes it.
    pub open spec fn wf(&self) -> bool {
        all_todos(self@)
    }

    /// The empty list.
    pub fn new() -> (list: TodoList)
        ensures
            list@ == Seq::<Seq<char>>::empty(),
            list.wf(),
    {
        let list = TodoList { items: Vec::new() };
        assert(list@ =~= Seq::<Seq<char>>::empty());
        list
    }

    /// Number of todos.
    pub fn len(&self) -> (n: usize)
        ensures
            n == self@.len(),
    {
        self.items.len()
    }

    /// Whether the list holds no todo.
    pub fn is_empty(&self) -> (b: bool)
        ensures
            b == (self@.len() == 0),
    {
        self.items.len() == 0
    }

    /// The todo at the zero-based position `i`.
    pub fn get(&self, i: usize) -> (todo: &str)
        requires
            i < self@.len(),
        ensures
            todo@ == self@[i as int],
    {
        self.items[i].as_str()
    }

    /// Appends `s[from..to]`, which is a todo, to the end of the list.
    pub(crate) fn push_chars(&mut self, s: &[char], from: usize, to: usize)
        requires
            old(self).wf(),
            from <= to <= s@.len(),
            is_todo(s@.subrange(from as int, to as int)),
        ensures
            final(self)@ == old(self)@.push(s@.subrange(from as int, to as int)),
            final(self).wf(),
    {
        let mut todo = String::new();
        push_range(&mut todo, s, from, to);
        assert(todo@ =~= s@.subrange(from as int, to as int));
        self.items.push(todo);
        assert(self@ =~= old(self)@.push(s@.subrange(from as int, to as int)));
    }

    /// Adds the trimmed `text` to the end of the list. Text that is empty
    /// once trimmed is refused, and so is text that still spans several
    /// lines; the list is then left as it was.
    pub fn add(&mut self, text: &str) -> (r: Result<(), TodoError>)
        requires
            old(self).wf(),
        ensures
            trim(text@).len() == 0 ==> r == Err::<(), TodoError>(TodoError::EmptyTodo),
            trim(text@).len() > 0 && !single_line(trim(text@)) ==> r == Err::<(), TodoError>(
                TodoError::MultiLine,
            ),
            trim(text@).len() > 0 && single_line(trim(text@)) ==> r is Ok,
            r is Ok ==> final(self)@ == old(self)@.push(trim(text@)),
            r is Err ==> final(self)@ == old(self)@,
            final(self).wf(),
    {
        let chars = to_chars(text);
        let n: usize = chars.len();
        assert(chars@.subrange(0, n as int) =~= text@);
        let (a, b) = trim_range(chars.as_slice(), 0, n);
        if a == b {
            return Err(TodoError::EmptyTodo);
        }
        if !is_single_line(chars.as_slice(), a, b) {
            return Err(TodoError::MultiLine);
        }
        self.push_chars(chars.as_slice(), a, b);
        Ok(())
    }

    /// Removes the todo with the one-based number `index` and returns it.
    /// A number that is zero or beyond the end is refused, and the list is
    /// then left as it was.
    pub fn remove(&mut self, index: usize) -> (r: Result<String, TodoError>)
        requires
            old(self).wf(),
        ensures
            1 <= index <= old(self)@.len() ==> r is Ok,
            !(1 <= index <= old(self)@.len()) ==> r == Err::<String, TodoError>(
                TodoError::BadIndex,
            ) && final(self)@ == old(self)@,
            r is Ok ==> {
                &&& r->Ok_0@ == old(self)@[index - 1]
                &&& final(self)@ == old(self)@.remove(index - 1)
                &&& final(self)@.len() == old(self)@.len() - 1
                &&& forall|i: int| 0 <= i < index - 1 ==> final(self)@[i] == old(self)@[i]
                &&& forall|i: int|
                    index - 1 <= i < final(self)@.len() ==> final(self)@[i] == old(self)@[i + 1]
            },
            final(self).wf(),
    {
        if index == 0 || index > self.items.len() {
            return Err(TodoError::BadIndex);
        }
        let removed = self.items.remove(index - 1);
        assert(self@ =~= old(self)@.remove(index - 1));
        Ok(removed)
    }
}

} // verus!
