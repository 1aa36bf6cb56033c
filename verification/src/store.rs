//! The stored form of a todo list: text with one todo per line.

use vstd::prelude::*;
use crate::chars::to_chars;
use crate::text::{
    after_line, lemma_first_line, lemma_line_len, lemma_trim_is_range, lemma_trim_shape,
    lemma_trim_single_line, line_end, line_len, lines, newline, single_line, trim, trim_range,
};
use crate::todo_list::{all_todos, is_todo, TodoList};

verus! {

/// The todos that the text `s` holds: each line trimmed, in the order of the
/// text, without the lines that are empty once trimmed.
pub open spec fn parse(s: Seq<char>) -> Seq<Seq<char>>
    decreases s.len(),
{
    if s.len() == 0 {
        Seq::empty()
    } else {
        let todo = trim(s.take(line_len(s) as int));
        if todo.len() > 0 {
            seq![todo] + parse(after_line(s))
        } else {
            parse(after_line(s))
        }
    }
}

/// The text that stores `todos`: every entry followed by a line terminator.
pub open spec fn render(todos: Seq<Seq<char>>) -> Seq<char>
    decreases todos.len(),
{
    if todos.len() == 0 {
        Seq::empty()
    } else {
        todos[0] + seq![newline()] + render(todos.drop_first())
    }
}

/// Why stored bytes could not be read as a list.
#[derive(Clone, Copy, Debug, PartialEq, Eq, Structural)]
pub enum StoreError {
    /// The bytes are not UTF-8 text.
    Decoding,
}

/// A todo is its own trimmed form.
pub proof fn lemma_todo_is_trimmed(t: Seq<char>)
    requires
        is_todo(t),
    ensures
        trim(t) == t,
{
    lemma_trim_is_range(t, 0, t.len() as int);
    assert(t.subrange(0, t.len() as int) =~= t);
}

/// Whatever the text, what is read from it are todos: none is empty, none
/// starts or ends with white space, none spans several lines.
pub proof fn lemma_parse_gives_todos(s: Seq<char>)
    ensures
        all_todos(parse(s)),
    decreases s.len(),
{
    if s.len() > 0 {
        let line = s.take(line_len(s) as int);
        lemma_first_line(s);
        lemma_trim_shape(line);
        lemma_trim_single_line(line);
        lemma_parse_gives_todos(after_line(s));
        let rest = parse(after_line(s));
        if trim(line).len() > 0 {
            assert forall|i: int| 0 <= i < parse(s).len() implies is_todo(
                #[trigger] parse(s)[i],
            ) by {
                if i > 0 {
                    assert(parse(s)[i] == rest[i - 1]);
                }
            }
        }
    }
}

/// Storing one more todo appends its line to the text.
pub proof fn lemma_render_push(todos: Seq<Seq<char>>, todo: Seq<char>)
    ensures
        render(todos.push(todo)) == render(todos) + todo + seq![newline()],
    decreases todos.len(),
{
    let more = todos.push(todo);
    if todos.len() == 0 {
        assert(more.drop_first() =~= Seq::<Seq<char>>::empty());
        assert(render(more.drop_first()) =~= Seq::<char>::empty());
        assert(render(todos) =~= Seq::<char>::empty());
        assert(render(more) =~= render(todos) + todo + seq![newline()]);
    } else {
        lemma_render_push(todos.drop_first(), todo);
        assert(more.drop_first() =~= todos.drop_first().push(todo));
        assert(render(more) =~= render(todos) + todo + seq![newline()]);
    }
}

/// The first line of a stored text is its first entry, and what follows
/// that line is the stored form of the other entries.
proof fn lemma_render_first_line(todos: Seq<Seq<char>>)
    requires
        todos.len() > 0,
        single_line(todos[0]),
    ensures
        render(todos).len() > 0,
        render(todos).take(line_len(render(todos)) as int) == todos[0],
        after_line(render(todos)) == render(todos.drop_first()),
{
    let s = render(todos);
    let n = todos[0].len() as int;
    assert(s[n] == newline());
    lemma_line_len(s, n);
    assert(s.take(n) =~= todos[0]);
    assert(s.skip(n + 1) =~= render(todos.drop_first()));
}

/// The lines of the stored text of a list are the entries of the list, as
/// long as no entry spans several lines.
pub proof fn lemma_stored_lines(todos: Seq<Seq<char>>)
    requires
        forall|i: int| 0 <= i < todos.len() ==> single_line(#[trigger] todos[i]),
    ensures
        lines(render(todos)) == todos,
    decreases todos.len(),
{
    if todos.len() > 0 {
        lemma_render_first_line(todos);
        lemma_stored_lines(todos.drop_first());
        assert(seq![todos[0]] + todos.drop_first() =~= todos);
    }
}

/// The stored text of a list of todos has as many lines as the list has
/// entries, and none of them is empty.
pub proof fn lemma_stored_line_count(todos: Seq<Seq<char>>)
    requires
        all_todos(todos),
    ensures
        lines(render(todos)).len() == todos.len(),
        forall|i: int| 0 <= i < todos.len() ==> (#[trigger] lines(render(todos))[i]).len() > 0,
{
    lemma_stored_lines(todos);
}

/// Reading back the text that stores a list of todos gives that list.
pub proof fn lemma_round_trip(todos: Seq<Seq<char>>)
    requires
        all_todos(todos),
    ensures
        parse(render(todos)) == todos,
    decreases todos.len(),
{
    if todos.len() > 0 {
        lemma_render_first_line(todos);
        lemma_todo_is_trimmed(todos[0]);
        lemma_round_trip(todos.drop_first());
        assert(seq![todos[0]] + todos.drop_first() =~= todos);
    }
}

/// Reading back the bytes of the text that stores a list of todos gives
/// that list: the bytes are valid UTF-8, and the text that they encode
/// holds the todos that were stored.
pub proof fn lemma_round_trip_bytes(todos: Seq<Seq<char>>)
    requires
        all_todos(todos),
    ensures
        vstd::utf8::valid_utf8(vstd::utf8::encode_utf8(render(todos))),
        parse(vstd::utf8::decode_utf8(vstd::utf8::encode_utf8(render(todos)))) == todos,
{
    lemma_round_trip(todos);
    vstd::utf8::encode_utf8_valid_utf8(render(todos));
    vstd::utf8::encode_utf8_decode_utf8(render(todos));
}

/// The todos that the text `content` holds.
pub fn parse_todos(content: &str) -> (list: TodoList)
    ensures
        list@ == parse(content@),
        list.wf(),
{
    let chars = to_chars(content);
    let s = chars.as_slice();
    let n: usize = s.len();
    let mut list = TodoList::new();
    let mut i: usize = 0;
    assert(s@.skip(0) =~= s@);
    assert(list@ + parse(s@) =~= parse(s@));
    while i < n
        invariant
            n == s@.len(),
            i <= n,
            list.wf(),
            parse(s@) == list@ + parse(s@.skip(i as int)),
        decreases n - i,
    {
        let end = line_end(s, i);
        let (a, b) = trim_range(s, i, end);
        let ghost cur = s@.skip(i as int);
        let ghost before = list@;
        let next: usize = if end < n {
            end + 1
        } else {
            n
        };
        proof {
            assert(cur.take(line_len(cur) as int) =~= s@.subrange(i as int, end as int));
            assert(after_line(cur) =~= s@.skip(next as int));
        }
        if a < b {
            proof {
                let line = s@.subrange(i as int, end as int);
                let todo = s@.subrange(a as int, b as int);
                assert forall|k: int| 0 <= k < todo.len() implies todo[k] != newline() by {
                    assert(todo[k] == line[k + a - i]);
                }
            }
            list.push_chars(s, a, b);
            assert(before.push(s@.subrange(a as int, b as int)) + parse(s@.skip(next as int))
                =~= before + (seq![s@.subrange(a as int, b as int)] + parse(
                s@.skip(next as int),
            )));
        }
        i = next;
    }
    assert(list@ + parse(s@.skip(n as int)) =~= list@);
    list
}

/// `String::from_utf8` of the standard library: the text that `bytes`
/// encode where they are valid UTF-8, and nothing where they are not.
#[verifier::external_body]
fn text_of_bytes(bytes: Vec<u8>) -> (text: Option<String>)
    ensures
        text is Some <==> vstd::utf8::valid_utf8(bytes@),
        text is Some ==> text->Some_0@ == vstd::utf8::decode_utf8(bytes@),
{
    match String::from_utf8(bytes) {
        Ok(text) => Some(text),
        Err(_) => None,
    }
}

/// The list that a stored file holds. `file` is the file's bytes, or `None`
/// where no file exists yet, which gives the empty list. Bytes that are not
/// UTF-8 text are an error.
pub fn load_todos(file: Option<Vec<u8>>) -> (r: Result<TodoList, StoreError>)
    ensures
        file is None ==> r is Ok && r->Ok_0@ == Seq::<Seq<char>>::empty(),
        file is Some && vstd::utf8::valid_utf8(file->Some_0@) ==> r is Ok && r->Ok_0@ == parse(
            vstd::utf8::decode_utf8(file->Some_0@),
        ),
        file is Some && !vstd::utf8::valid_utf8(file->Some_0@) ==> r == Err::<
            TodoList,
            StoreError,
        >(StoreError::Decoding),
        r is Ok ==> r->Ok_0.wf(),
{
    match file {
        None => Ok(TodoList::new()),
        Some(bytes) => match text_of_bytes(bytes) {
            Some(text) => Ok(parse_todos(text.as_str())),
            None => Err(StoreError::Decoding),
        },
    }
}

/// The text that stores `list`: each todo on a line of its own. It has one
/// line for each todo, and reading it back gives the list again.
pub fn save_todos(list: &TodoList) -> (content: String)
    requires
        list.wf(),
    ensures
        content@ == render(list@),
        lines(content@) == list@,
        parse(content@) == list@,
{
    let mut content = String::new();
    let n: usize = list.len();
    let mut i: usize = 0;
    assert(list@.take(0) =~= Seq::<Seq<char>>::empty());
    while i < n
        invariant
            n == list@.len(),
            i <= n,
            content@ == render(list@.take(i as int)),
        decreases n - i,
    {
        content.append(list.get(i));
        content.push('\n');
        proof {
            lemma_render_push(list@.take(i as int), list@[i as int]);
            assert(list@.take(i + 1) =~= list@.take(i as int).push(list@[i as int]));
        }
        i += 1;
    }
    proof {
        assert(list@.take(n as int) =~= list@);
        lemma_stored_lines(list@);
        lemma_round_trip(list@);
    }
    content
}

} // verus!
