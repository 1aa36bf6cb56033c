use todos::cli::{prompt, step, welcome, Phase};
use todos::store::load_todos;

/// Runs the loop over `input` against the stored `file` and returns what
/// was printed.
fn run(file: &mut Option<Vec<u8>>, input: &str) -> String {
    let mut list = load_todos(file.clone()).unwrap();
    let mut printed = welcome();
    let mut phase = Phase::AwaitingCommand;
    let mut lines = input.split_inclusive('\n');
    let mut turns = 0;
    while phase != Phase::Exited {
        turns += 1;
        assert!(turns < 1000);
        printed.push_str(&prompt(phase));
        let reply = step(phase, &mut list, lines.next());
        printed.push_str(&reply.output);
        if let Some(content) = reply.save {
            *file = Some(content.into_bytes());
        }
        phase = reply.phase;
    }
    printed
}

fn stored(file: &Option<Vec<u8>>) -> Option<&str> {
    file.as_ref().map(|bytes| std::str::from_utf8(bytes).unwrap())
}

#[test]
fn fresh_start_add_two_list() {
    let mut file = None;
    let printed = run(&mut file, "1\nbuy milk\n1\nwrite spec\n3\n5\n");
    assert!(printed.ends_with(
        "Enter command:\nYou have 2 todos\n1: buy milk\n2: write spec\nEnter command:\n"
    ));
    assert!(printed.contains("1: buy milk\n"));
    assert!(printed.contains("2: write spec\n"));
    assert_eq!(stored(&file), Some("buy milk\nwrite spec\n"));
}

#[test]
fn persistence_across_runs() {
    let mut file = None;
    run(&mut file, "1\nalpha\n5\n");
    assert_eq!(stored(&file), Some("alpha\n"));
    let printed = run(&mut file, "3\n5\n");
    assert!(printed.contains("You have 1 todos\n1: alpha\n"));
    assert_eq!(stored(&file), Some("alpha\n"));
}

#[test]
fn remove_middle() {
    let mut file = Some(b"a\nb\nc\n".to_vec());
    let printed = run(&mut file, "2\n2\n3\n5\n");
    assert!(printed.ends_with("Enter command:\nYou have 2 todos\n1: a\n2: c\nEnter command:\n"));
    assert_eq!(stored(&file), Some("a\nc\n"));
}

#[test]
fn remove_from_empty() {
    let mut file = None;
    let printed = run(&mut file, "2\n5\n");
    let mut expected = welcome();
    expected.push_str("Enter command:\nYou don't have any todo to remove\nEnter command:\n");
    assert_eq!(printed, expected);
    assert!(!printed.contains("Which todo would you like to remove?"));
    assert_eq!(file, None);
}

#[test]
fn invalid_index_keeps_list_and_loop() {
    let mut file = Some(b"only\n".to_vec());
    let printed = run(&mut file, "2\nabc\n3\n5\n");
    assert!(printed.contains(
        "Which todo would you like to remove?\nPlease enter a valid todo number.\nEnter command:\n"
    ));
    assert!(printed.ends_with("You have 1 todos\n1: only\nEnter command:\n"));
    assert_eq!(stored(&file), Some("only\n"));
}

#[test]
fn index_out_of_range_keeps_list() {
    let mut file = Some(b"only\n".to_vec());
    for bad in ["0", "2", "-1", "", "1.0", "99999999999999999999999999999999"] {
        let printed = run(&mut file, &format!("2\n{}\n5\n", bad));
        assert!(printed.contains("Please enter a valid todo number.\n"));
        assert_eq!(stored(&file), Some("only\n"));
    }
}

#[test]
fn unknown_command() {
    let mut file = None;
    let printed = run(&mut file, "9\n5\n");
    let mut expected = welcome();
    expected.push_str("Enter command:\nInvalid command, please try again.\nEnter command:\n");
    assert_eq!(printed, expected);
    assert_eq!(file, None);
}

#[test]
fn end_of_input_exits_like_the_exit_command() {
    let mut file = None;
    let printed = run(&mut file, "");
    let mut expected = welcome();
    expected.push_str("Enter command:\n");
    assert_eq!(printed, expected);
    let printed = run(&mut file, "1\nlast");
    assert!(printed.ends_with("You have 1 todos\n1: last\nEnter command:\n"));
    assert_eq!(stored(&file), Some("last\n"));
}

#[test]
fn end_of_input_at_a_prompt_counts_as_an_empty_line() {
    let mut file = Some(b"a\n".to_vec());
    let printed = run(&mut file, "1\n");
    assert!(printed.ends_with(
        "What would you like to do?\nA todo cannot be empty.\nEnter command:\n"
    ));
    let printed = run(&mut file, "2\n");
    assert!(printed.ends_with(
        "Which todo would you like to remove?\nPlease enter a valid todo number.\nEnter command:\n"
    ));
    assert_eq!(stored(&file), Some("a\n"));
}

#[test]
fn empty_todo_is_refused_with_a_notice() {
    let mut file = None;
    let printed = run(&mut file, "1\n   \n3\n5\n");
    assert!(printed.contains("A todo cannot be empty.\n"));
    assert!(printed.ends_with("You have 0 todos\nEnter command:\n"));
    assert_eq!(file, None);
}

#[test]
fn menu_command_prints_the_menu_again() {
    let mut file = None;
    let printed = run(&mut file, "4\n5\n");
    let menu = "Here are the commands you can use:\n1. Add\n2. Remove\n3. List\n4. List commands\n5. Exit\n";
    assert_eq!(printed.matches(menu).count(), 2);
    assert!(printed.starts_with("Hi user, welcome to the todo app\n"));
}

#[test]
fn listing_does_not_touch_the_store() {
    let mut file = Some(b"  a  \n\n b\n".to_vec());
    let printed = run(&mut file, "3\n4\n9\n5\n");
    assert!(printed.contains("You have 2 todos\n1: a\n2: b\n"));
    assert_eq!(stored(&file), Some("  a  \n\n b\n"));
}

#[test]
fn every_mutation_stores_one_line_for_each_todo() {
    let mut file = None;
    run(&mut file, "1\none\n1\ntwo\n1\nthree\n2\n1\n1\nfour\n2\n3\n5\n");
    let text = stored(&file).unwrap();
    assert_eq!(text, "two\nthree\n");
    assert_eq!(text.lines().filter(|line| !line.is_empty()).count(), 2);
    assert_eq!(load_todos(file.clone()).unwrap().len(), 2);
}
