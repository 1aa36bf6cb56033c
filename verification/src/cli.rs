//! The decisions of the interactive loop: what each line of input does to
//! the list, what is printed in answer, and what is written to the store.

use vstd::prelude::*;
use crate::chars::to_chars;
use crate::number::{digits, number_of, parse_number, push_decimal};
use crate::store::{lemma_round_trip, lemma_stored_lines, parse, render, save_todos};
use crate::text::{lines, single_line, trim, trim_range};
use crate::todo_list::{TodoError, TodoList};

verus! {

/// What a line typed at the command prompt asks for.
#[derive(Clone, Copy, Debug, PartialEq, Eq, Structural)]
pub enum Command {
    /// `1`: add a todo.
    Add,
    /// `2`: remove a todo.
    Remove,
    /// `3`: list the todos.
    List,
    /// `4`: show the menu again.
    Help,
    /// `5`: leave.
    Exit,
    /// Anything else.
    Unknown,
}

/// What the loop waits for.
#[derive(Clone, Copy, Debug, PartialEq, Eq, Structural)]
pub enum Phase {
    /// A command from the menu.
    AwaitingCommand,
    /// The text of the todo to add.
    AwaitingTodo,
    /// The number of the todo to remove.
    AwaitingIndex,
    /// Nothing: the loop has ended.
    Exited,
}

/// The answer to one line of input.
#[derive(Debug)]
pub struct Reply {
    /// What the loop waits for next.
    pub phase: Phase,
    /// The text to print.
    pub output: String,
    /// The text to write to the store, where the list has changed.
    pub save: Option<String>,
}

/// The command that `line` names: a single digit from the menu, with any
/// white space around it.
pub open spec fn command_of(line: Seq<char>) -> Command {
    let t = trim(line);
    if t == seq!['1'] {
        Command::Add
    } else if t == seq!['2'] {
        Command::Remove
    } else if t == seq!['3'] {
        Command::List
    } else if t == seq!['4'] {
        Command::Help
    } else if t == seq!['5'] {
        Command::Exit
    } else {
        Command::Unknown
    }
}

/// The greeting printed at the start.
pub open spec fn welcome_text() -> Seq<char> {
    "Hi user, welcome to the todo app\n"@
}

/// The menu: a heading, then the five commands with their digits.
pub open spec fn menu_text() -> Seq<char> {
    "Here are the commands you can use:\n1. Add\n2. Remove\n3. List\n4. List commands\n5. Exit\n"@
}

/// The notice for a line that names no command.
pub open spec fn unknown_command_text() -> Seq<char> {
    "Invalid command, please try again.\n"@
}

/// The notice for a line that names no entry to remove.
pub open spec fn bad_index_text() -> Seq<char> {
    "Please enter a valid todo number.\n"@
}

/// The notice for a removal from the empty list.
pub open spec fn nothing_to_remove_text() -> Seq<char> {
    "You don't have any todo to remove\n"@
}

/// The notice for a todo that is empty once trimmed.
pub open spec fn empty_todo_text() -> Seq<char> {
    "A todo cannot be empty.\n"@
}

/// The notice for a todo that spans several lines.
pub open spec fn multi_line_text() -> Seq<char> {
    "A todo must fit on one line.\n"@
}

/// The prompt shown while the loop is in `phase`.
pub open spec fn prompt_text(phase: Phase) -> Seq<char> {
    match phase {
        Phase::AwaitingCommand => "Enter command:\n"@,
        Phase::AwaitingTodo => "What would you like to do?\n"@,
        Phase::AwaitingIndex => "Which todo would you like to remove?\n"@,
        Phase::Exited => Seq::empty(),
    }
}

/// The first `n` rows of the listing of `todos`: each todo on a line of its
/// own, after its one-based number, a colon and a space.
pub open spec fn listing_rows(todos: Seq<Seq<char>>, n: nat) -> Seq<char>
    decreases n,
{
    if n == 0 || n > todos.len() {
        Seq::empty()
    } else {
        listing_rows(todos, (n - 1) as nat) + digits(n) + ": "@ + todos[n - 1] + "\n"@
    }
}

/// The listing of `todos`: a line that says how many there are, then a row
/// for each.
pub open spec fn listing(todos: Seq<Seq<char>>) -> Seq<char> {
    "You have "@ + digits(todos.len()) + " todos\n"@ + listing_rows(todos, todos.len())
}

/// The line that was read, or the empty line where the input has ended.
pub open spec fn line_of(input: Option<&str>) -> Seq<char> {
    match input {
        Some(line) => line@,
        None => Seq::empty(),
    }
}

/// `r` prints `output`, goes on to `phase` and writes nothing.
pub open spec fn says(r: Reply, phase: Phase, output: Seq<char>) -> bool {
    &&& r.phase == phase
    &&& r.output@ == output
    &&& r.save is None
}

/// `r` prints the listing of `todos`, has their stored form written, and
/// goes back to the command prompt.
pub open spec fn stores(r: Reply, todos: Seq<Seq<char>>) -> bool {
    &&& r.phase == Phase::AwaitingCommand
    &&& r.output@ == listing(todos)
    &&& r.save is Some
    &&& r.save->Some_0@ == render(todos)
}

/// What the text of a new todo does: the trimmed line joins the end of the
/// list, which is listed and stored, unless the line is empty once trimmed
/// or spans several lines, which earns a notice and changes nothing.
pub open spec fn adds(
    before: Seq<Seq<char>>,
    line: Seq<char>,
    after: Seq<Seq<char>>,
    r: Reply,
) -> bool {
    let todo = trim(line);
    if todo.len() == 0 {
        after == before && says(r, Phase::AwaitingCommand, empty_todo_text())
    } else if !single_line(todo) {
        after == before && says(r, Phase::AwaitingCommand, multi_line_text())
    } else {
        after == before.push(todo) && stores(r, after)
    }
}

/// Whether `line` writes the one-based number of an entry of a list of
/// `len` todos.
pub open spec fn names_entry(line: Seq<char>, len: nat) -> bool {
    number_of(line) is Some && 1 <= number_of(line)->Some_0 <= len
}

/// What the number of a todo to remove does: the entry with that one-based
/// number leaves the list, which is listed and stored, unless the line is
/// no number or names no entry, which earns a notice and changes nothing.
pub open spec fn removes(
    before: Seq<Seq<char>>,
    line: Seq<char>,
    after: Seq<Seq<char>>,
    r: Reply,
) -> bool {
    if names_entry(line, before.len()) {
        after == before.remove(number_of(line)->Some_0 - 1) && stores(r, after)
    } else {
        after == before && says(r, Phase::AwaitingCommand, bad_index_text())
    }
}

/// What a line at the command prompt does to a list of `todos`, which it
/// never changes.
pub open spec fn commands(todos: Seq<Seq<char>>, line: Seq<char>, r: Reply) -> bool {
    match command_of(line) {
        Command::Add => says(r, Phase::AwaitingTodo, Seq::empty()),
        Command::Remove => if todos.len() == 0 {
            says(r, Phase::AwaitingCommand, nothing_to_remove_text())
        } else {
            says(r, Phase::AwaitingIndex, Seq::empty())
        },
        Command::List => says(r, Phase::AwaitingCommand, listing(todos)),
        Command::Help => says(r, Phase::AwaitingCommand, menu_text()),
        Command::Exit => says(r, Phase::Exited, Seq::empty()),
        Command::Unknown => says(r, Phase::AwaitingCommand, unknown_command_text()),
    }
}

/// The command that `line` names.
pub fn parse_command(line: &str) -> (c: Command)
    ensures
        c == command_of(line@),
{
    let chars = to_chars(line);
    let s = chars.as_slice();
    let n: usize = s.len();
    assert(s@.subrange(0, n as int) =~= line@);
    let (a, b) = trim_range(s, 0, n);
    let ghost t = trim(line@);
    if b - a != 1 {
        assert(t.len() != 1);
        return Command::Unknown;
    }
    let c: char = s[a];
    assert(t =~= seq![c]);
    assert(seq![c][0] == c);
    if c == '1' {
        Command::Add
    } else if c == '2' {
        Command::Remove
    } else if c == '3' {
        Command::List
    } else if c == '4' {
        Command::Help
    } else if c == '5' {
        Command::Exit
    } else {
        assert(seq!['1'][0] == '1' && seq!['2'][0] == '2' && seq!['3'][0] == '3' && seq!['4'][0]
            == '4' && seq!['5'][0] == '5');
        Command::Unknown
    }
}

/// The menu of commands.
pub fn list_commands() -> (text: String)
    ensures
        text@ == menu_text(),
{
    String::from_str(
        "Here are the commands you can use:\n1. Add\n2. Remove\n3. List\n4. List commands\n5. Exit\n",
    )
}

/// What is printed at the start: a greeting, then the menu.
pub fn welcome() -> (text: String)
    ensures
        text@ == welcome_text() + menu_text(),
{
    let mut text = String::from_str("Hi user, welcome to the todo app\n");
    let menu = list_commands();
    text.append(menu.as_str());
    text
}

/// The prompt to show while the loop is in `phase`.
pub fn prompt(phase: Phase) -> (text: String)
    ensures
        text@ == prompt_text(phase),
{
    match phase {
        Phase::AwaitingCommand => String::from_str("Enter command:\n"),
        Phase::AwaitingTodo => String::from_str("What would you like to do?\n"),
        Phase::AwaitingIndex => String::from_str("Which todo would you like to remove?\n"),
        Phase::Exited => String::new(),
    }
}

/// The listing of `list`.
pub fn list_todos(list: &TodoList) -> (text: String)
    ensures
        text@ == listing(list@),
{
    let n: usize = list.len();
    let mut text = String::from_str("You have ");
    push_decimal(&mut text, n);
    text.append(" todos\n");
    let ghost head = text@;
    let mut i: usize = 0;
    assert(text@ =~= head + listing_rows(list@, 0));
    while i < n
        invariant
            n == list@.len(),
            i <= n,
            head == "You have "@ + digits(n as nat) + " todos\n"@,
            text@ == head + listing_rows(list@, i as nat),
        decreases n - i,
    {
        let ghost rows = listing_rows(list@, i as nat);
        push_decimal(&mut text, i + 1);
        text.append(": ");
        text.append(list.get(i));
        text.append("\n");
        assert(text@ =~= head + (rows + digits((i + 1) as nat) + ": "@ + list@[i as int] + "\n"@));
        i += 1;
    }
    text
}

/// A reply that prints `output`, goes on to `phase` and writes nothing.
fn say(phase: Phase, output: String) -> (r: Reply)
    ensures
        says(r, phase, output@),
{
    Reply { phase, output, save: None }
}

/// A reply that lists `list`, has it stored, and goes back to the command
/// prompt.
fn say_stored(list: &TodoList) -> (r: Reply)
    requires
        list.wf(),
    ensures
        stores(r, list@),
{
    Reply {
        phase: Phase::AwaitingCommand,
        output: list_todos(list),
        save: Some(save_todos(list)),
    }
}

/// Adds the todo that `line` holds to `list` and answers with the new
/// listing and the text to store, or with a notice where the line holds no
/// todo.
pub fn add_to(list: &mut TodoList, line: &str) -> (r: Reply)
    requires
        old(list).wf(),
    ensures
        final(list).wf(),
        adds(old(list)@, line@, final(list)@, r),
{
    match list.add(line) {
        Ok(()) => say_stored(list),
        Err(TodoError::EmptyTodo) => say(
            Phase::AwaitingCommand,
            String::from_str("A todo cannot be empty.\n"),
        ),
        Err(_) => say(Phase::AwaitingCommand, String::from_str("A todo must fit on one line.\n")),
    }
}

/// Removes from `list` the todo whose one-based number `line` holds and
/// answers with the new listing and the text to store, or with a notice
/// where the line names no entry.
pub fn remove_todo(list: &mut TodoList, line: &str) -> (r: Reply)
    requires
        old(list).wf(),
    ensures
        final(list).wf(),
        removes(old(list)@, line@, final(list)@, r),
{
    let len: usize = list.len();
    let removed = match parse_number(line) {
        Some(index) => list.remove(index),
        None => {
            assert(!names_entry(line@, len as nat));
            Err(TodoError::BadIndex)
        },
    };
    match removed {
        Ok(_) => say_stored(list),
        Err(_) => say(
            Phase::AwaitingCommand,
            String::from_str("Please enter a valid todo number.\n"),
        ),
    }
}

/// Answers a line typed at the command prompt.
pub fn dispatch(list: &TodoList, line: &str) -> (r: Reply)
    ensures
        commands(list@, line@, r),
{
    match parse_command(line) {
        Command::Add => say(Phase::AwaitingTodo, String::new()),
        Command::Remove => if list.is_empty() {
            say(Phase::AwaitingCommand, String::from_str("You don't have any todo to remove\n"))
        } else {
            say(Phase::AwaitingIndex, String::new())
        },
        Command::List => say(Phase::AwaitingCommand, list_todos(list)),
        Command::Help => say(Phase::AwaitingCommand, list_commands()),
        Command::Exit => say(Phase::Exited, String::new()),
        Command::Unknown => say(
            Phase::AwaitingCommand,
            String::from_str("Invalid command, please try again.\n"),
        ),
    }
}

/// One turn of the loop: what the line `input` does while the loop is in
/// `phase`. `None` stands for the end of the input: at the command prompt
/// it ends the loop, and at the other prompts it counts as an empty line.
/// Once the loop has ended nothing changes any more. Whenever the list
/// changes, the reply holds the text to store, and that text has one line
/// for each todo and reads back as the list.
pub fn step(phase: Phase, list: &mut TodoList, input: Option<&str>) -> (r: Reply)
    requires
        old(list).wf(),
    ensures
        final(list).wf(),
        phase == Phase::Exited ==> final(list)@ == old(list)@ && says(
            r,
            Phase::Exited,
            Seq::empty(),
        ),
        phase == Phase::AwaitingCommand && input is None ==> final(list)@ == old(list)@ && says(
            r,
            Phase::Exited,
            Seq::empty(),
        ),
        phase == Phase::AwaitingCommand && input is Some ==> final(list)@ == old(list)@
            && commands(old(list)@, line_of(input), r),
        phase == Phase::AwaitingTodo ==> adds(old(list)@, line_of(input), final(list)@, r),
        phase == Phase::AwaitingIndex ==> removes(old(list)@, line_of(input), final(list)@, r),
        r.save is None ==> final(list)@ == old(list)@,
        r.save is Some ==> lines(r.save->Some_0@) == final(list)@ && parse(r.save->Some_0@)
            == final(list)@,
{
    let line: &str = match input {
        Some(line) => line,
        None => {
            proof {
                reveal_strlit("");
            }
            assert(""@ =~= Seq::<char>::empty());
            ""
        },
    };
    let r = match phase {
        Phase::Exited => say(Phase::Exited, String::new()),
        Phase::AwaitingCommand => if input.is_some() {
            dispatch(list, line)
        } else {
            say(Phase::Exited, String::new())
        },
        Phase::AwaitingTodo => add_to(list, line),
        Phase::AwaitingIndex => remove_todo(list, line),
    };
    proof {
        lemma_stored_lines(list@);
        lemma_round_trip(list@);
    }
    r
}

} // verus!
