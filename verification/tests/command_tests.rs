use desk_utils::command::{classify, parse_command, run_command, step, Command, Reply};
use desk_utils::store::read_tasks;
use desk_utils::task::Task;

fn task(description: &str, completed: bool) -> Task {
    Task { description: String::from(description), completed }
}

fn sample() -> Vec<Task> {
    vec![task("buy milk", false), task("call home", true)]
}

fn shows(output: &str) -> Reply {
    Reply { output: String::from(output), save: None }
}

#[test]
fn classify_add() {
    assert_eq!(classify("add", Some("buy milk")), Command::Add(String::from("buy milk")));
    assert_eq!(classify("add", Some("")), Command::Add(String::new()));
    assert_eq!(classify("add", Some(" x ")), Command::Add(String::from(" x ")));
    assert_eq!(classify("add", None), Command::MissingDescription);
}

#[test]
fn classify_remove() {
    assert_eq!(classify("remove", Some("0")), Command::Remove(0));
    assert_eq!(classify("remove", Some("12")), Command::Remove(12));
    assert_eq!(classify("remove", Some("+3")), Command::Remove(3));
    assert_eq!(classify("remove", Some("x")), Command::InvalidIndex);
    assert_eq!(classify("remove", Some("-1")), Command::InvalidIndex);
    assert_eq!(classify("remove", Some("")), Command::InvalidIndex);
    assert_eq!(classify("remove", Some(" 1")), Command::InvalidIndex);
    assert_eq!(classify("remove", Some("1 2")), Command::InvalidIndex);
    assert_eq!(classify("remove", None), Command::MissingIndex);
}

#[test]
fn classify_complete() {
    assert_eq!(classify("complete", Some("0")), Command::Complete(0));
    assert_eq!(classify("complete", Some("007")), Command::Complete(7));
    assert_eq!(classify("complete", Some("one")), Command::InvalidIndex);
    assert_eq!(classify("complete", Some("99999999999999999999999")), Command::InvalidIndex);
    assert_eq!(classify("complete", None), Command::MissingIndex);
}

#[test]
fn classify_list_and_exit_ignore_the_argument() {
    assert_eq!(classify("list", None), Command::List);
    assert_eq!(classify("list", Some("all")), Command::List);
    assert_eq!(classify("exit", None), Command::Exit);
    assert_eq!(classify("exit", Some("now")), Command::Exit);
}

#[test]
fn classify_anything_else_is_unknown() {
    assert_eq!(classify("", None), Command::Unknown);
    assert_eq!(classify("", Some("add")), Command::Unknown);
    assert_eq!(classify("quit", None), Command::Unknown);
    assert_eq!(classify("adda", Some("x")), Command::Unknown);
    assert_eq!(classify("ad", Some("x")), Command::Unknown);
    assert_eq!(classify("ADD", Some("x")), Command::Unknown);
    assert_eq!(classify("delete", Some("1")), Command::Unknown);
}

#[test]
fn parse_command_reads_each_command() {
    assert_eq!(parse_command("add buy milk"), Command::Add(String::from("buy milk")));
    assert_eq!(parse_command("remove 1"), Command::Remove(1));
    assert_eq!(parse_command("complete 0"), Command::Complete(0));
    assert_eq!(parse_command("list"), Command::List);
    assert_eq!(parse_command("exit"), Command::Exit);
    assert_eq!(parse_command("help"), Command::Unknown);
}

#[test]
fn parse_command_drops_the_white_space_around_the_line() {
    assert_eq!(parse_command("list\n"), Command::List);
    assert_eq!(parse_command("  list  \r\n"), Command::List);
    assert_eq!(parse_command("\texit\n"), Command::Exit);
    assert_eq!(parse_command(" add buy milk \n"), Command::Add(String::from("buy milk")));
    assert_eq!(parse_command("remove 2\n"), Command::Remove(2));
    assert_eq!(parse_command("\u{a0}list\u{3000}"), Command::List);
}

#[test]
fn parse_command_takes_the_keyword_in_any_case() {
    assert_eq!(parse_command("ADD Buy Milk"), Command::Add(String::from("Buy Milk")));
    assert_eq!(parse_command("Add x"), Command::Add(String::from("x")));
    assert_eq!(parse_command("LIST"), Command::List);
    assert_eq!(parse_command("Exit"), Command::Exit);
    assert_eq!(parse_command("ReMoVe 3"), Command::Remove(3));
    assert_eq!(parse_command("COMPLETE 4"), Command::Complete(4));
}

#[test]
fn parse_command_splits_at_the_first_space_only() {
    assert_eq!(parse_command("add a b  c"), Command::Add(String::from("a b  c")));
    assert_eq!(parse_command("add  x"), Command::Add(String::from(" x")));
    assert_eq!(parse_command("remove  1"), Command::InvalidIndex);
    assert_eq!(parse_command("remove 1 2"), Command::InvalidIndex);
    assert_eq!(parse_command("list all"), Command::List);
    assert_eq!(parse_command("add\tx"), Command::Unknown);
}

#[test]
fn parse_command_without_an_argument() {
    assert_eq!(parse_command("add"), Command::MissingDescription);
    assert_eq!(parse_command("add \n"), Command::MissingDescription);
    assert_eq!(parse_command("remove"), Command::MissingIndex);
    assert_eq!(parse_command("complete\n"), Command::MissingIndex);
}

#[test]
fn parse_command_with_a_bad_index() {
    assert_eq!(parse_command("remove one"), Command::InvalidIndex);
    assert_eq!(parse_command("remove -1"), Command::InvalidIndex);
    assert_eq!(parse_command("complete 1.5"), Command::InvalidIndex);
    assert_eq!(parse_command("complete 18446744073709551616000"), Command::InvalidIndex);
}

#[test]
fn parse_command_of_an_empty_line_is_unknown() {
    assert_eq!(parse_command(""), Command::Unknown);
    assert_eq!(parse_command("\n"), Command::Unknown);
    assert_eq!(parse_command("   "), Command::Unknown);
}

#[test]
fn parse_command_agrees_with_classify_on_plain_input() {
    assert_eq!(parse_command("add x y"), classify("add", Some("x y")));
    assert_eq!(parse_command("remove 5"), classify("remove", Some("5")));
    assert_eq!(parse_command("nothing"), classify("nothing", None));
}

#[test]
fn run_add_appends_and_confirms() {
    let mut tasks = sample();
    let reply = run_command(&mut tasks, &Command::Add(String::from("read")));
    assert_eq!(reply, shows("Task added successfully!\n"));
    assert_eq!(tasks, vec![task("buy milk", false), task("call home", true), task("read", false)]);
}

#[test]
fn run_remove_in_range_is_silent() {
    let mut tasks = sample();
    let reply = run_command(&mut tasks, &Command::Remove(0));
    assert_eq!(reply, shows(""));
    assert_eq!(tasks, vec![task("call home", true)]);
}

#[test]
fn run_remove_out_of_range_reports() {
    let mut tasks = sample();
    let reply = run_command(&mut tasks, &Command::Remove(2));
    assert_eq!(reply, shows("Error: No task found at index 2\n"));
    assert_eq!(tasks, sample());
}

#[test]
fn run_complete_in_range_is_silent() {
    let mut tasks = sample();
    let reply = run_command(&mut tasks, &Command::Complete(0));
    assert_eq!(reply, shows(""));
    assert_eq!(tasks, vec![task("buy milk", true), task("call home", true)]);
}

#[test]
fn run_complete_out_of_range_reports() {
    let mut tasks = sample();
    let reply = run_command(&mut tasks, &Command::Complete(40));
    assert_eq!(reply, shows("Error: No task found at index 40\n"));
    assert_eq!(tasks, sample());
}

#[test]
fn run_list_shows_the_listing() {
    let mut tasks = sample();
    let reply = run_command(&mut tasks, &Command::List);
    assert_eq!(reply, shows("0 [ ] - buy milk\n1 [X] - call home\n"));
    assert_eq!(tasks, sample());
}

#[test]
fn run_reports_what_is_missing_or_wrong() {
    let mut tasks = sample();
    assert_eq!(
        run_command(&mut tasks, &Command::MissingDescription),
        shows("Error: Missing task description\n")
    );
    assert_eq!(run_command(&mut tasks, &Command::MissingIndex), shows("Error: Missing index\n"));
    assert_eq!(run_command(&mut tasks, &Command::InvalidIndex), shows("Error: Invalid index\n"));
    assert_eq!(run_command(&mut tasks, &Command::Unknown), shows("Invalid command\n"));
    assert_eq!(tasks, sample());
}

#[test]
fn run_exit_hands_out_the_file() {
    let mut tasks = sample();
    let reply = run_command(&mut tasks, &Command::Exit);
    assert_eq!(
        reply,
        Reply {
            output: String::from("Exiting program...\n"),
            save: Some(String::from("false\tbuy milk\ntrue\tcall home\n")),
        }
    );
    assert_eq!(tasks, sample());
}

#[test]
fn run_exit_on_an_empty_list_hands_out_an_empty_file() {
    let mut tasks: Vec<Task> = Vec::new();
    let reply = run_command(&mut tasks, &Command::Exit);
    assert_eq!(reply.save, Some(String::new()));
}

#[test]
fn session_from_an_empty_file() {
    let mut tasks = read_tasks(Some(""));
    assert_eq!(tasks, Vec::<Task>::new());
    assert_eq!(step(&mut tasks, "add buy milk\n"), shows("Task added successfully!\n"));
    assert_eq!(step(&mut tasks, "list\n"), shows("0 [ ] - buy milk\n"));
    assert_eq!(step(&mut tasks, "complete 0\n"), shows(""));
    assert_eq!(step(&mut tasks, "list\n"), shows("0 [X] - buy milk\n"));
    let last = step(&mut tasks, "exit\n");
    assert_eq!(last.output, "Exiting program...\n");
    assert_eq!(last.save, Some(String::from("true\tbuy milk\n")));
}

#[test]
fn session_with_mistakes_goes_on() {
    let mut tasks = read_tasks(None);
    assert_eq!(step(&mut tasks, "remove 0\n"), shows("Error: No task found at index 0\n"));
    assert_eq!(step(&mut tasks, "remove\n"), shows("Error: Missing index\n"));
    assert_eq!(step(&mut tasks, "complete x\n"), shows("Error: Invalid index\n"));
    assert_eq!(step(&mut tasks, "add\n"), shows("Error: Missing task description\n"));
    assert_eq!(step(&mut tasks, "what\n"), shows("Invalid command\n"));
    assert_eq!(step(&mut tasks, "\n"), shows("Invalid command\n"));
    assert_eq!(tasks, Vec::<Task>::new());
    assert_eq!(step(&mut tasks, "ADD one\n"), shows("Task added successfully!\n"));
    assert_eq!(step(&mut tasks, "Add two\n"), shows("Task added successfully!\n"));
    assert_eq!(step(&mut tasks, "remove 0\n"), shows(""));
    assert_eq!(tasks, vec![task("two", false)]);
    assert_eq!(step(&mut tasks, "complete 1\n"), shows("Error: No task found at index 1\n"));
    assert_eq!(step(&mut tasks, "EXIT\n").save, Some(String::from("false\ttwo\n")));
}

#[test]
fn what_was_saved_loads_again() {
    let mut tasks = read_tasks(Some("false\ta\ntrue\tb\n"));
    step(&mut tasks, "add c");
    step(&mut tasks, "complete 0");
    step(&mut tasks, "remove 1");
    let saved = step(&mut tasks, "exit").save.unwrap();
    assert_eq!(saved, "true\ta\nfalse\tc\n");
    assert_eq!(read_tasks(Some(&saved)), tasks);
}
