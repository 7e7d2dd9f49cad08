use crate::number::{decimal, index_of_text, parse_index};
use crate::store::{
    add_task, after_complete, after_remove, complete_task, file_of, list_tasks, listing,
    remove_task, write_tasks, NoSuchTask,
};
use crate::task::{Task, TaskView};
use crate::text::{
    chars_of, find_char, first_index, lemma_first_index, same_text, text_of, trim, trim_of,
};
use crate::unicode::{lowercase_of, to_lowercase};
use vstd::prelude::*;

verus! {

/// What one line of input asks for.
#[derive(Debug, PartialEq, Eq)]
pub enum Command {
    /// Add a task with this description.
    Add(String),
    /// `add` without a description.
    MissingDescription,
    /// Remove the task at this position.
    Remove(usize),
    /// Mark the task at this position as done.
    Complete(usize),
    /// `remove` or `complete` without a position.
    MissingIndex,
    /// `remove` or `complete` with something that is no position.
    InvalidIndex,
    /// Show the list.
    List,
    /// Save the list and stop.
    Exit,
    /// Anything else.
    Unknown,
}

/// A command as a plain value.
pub enum CommandView {
    Add(Seq<char>),
    MissingDescription,
    Remove(usize),
    Complete(usize),
    MissingIndex,
    InvalidIndex,
    List,
    Exit,
    Unknown,
}

impl View for Command {
    type V = CommandView;

    open spec fn view(&self) -> CommandView {
        match self {
            Command::Add(description) => CommandView::Add(description@),
            Command::MissingDescription => CommandView::MissingDescription,
            Command::Remove(index) => CommandView::Remove(*index),
            Command::Complete(index) => CommandView::Complete(*index),
            Command::MissingIndex => CommandView::MissingIndex,
            Command::InvalidIndex => CommandView::InvalidIndex,
            Command::List => CommandView::List,
            Command::Exit => CommandView::Exit,
            Command::Unknown => CommandView::Unknown,
        }
    }
}

/// The keyword of a line: what precedes its first space, or all of it.
pub open spec fn keyword_of(line: Seq<char>) -> Seq<char> {
    line.take(first_index(line, ' '))
}

/// The argument of a line: all that follows its first space, further spaces
/// included; none where the line holds no space.
pub open spec fn argument_of(line: Seq<char>) -> Option<Seq<char>> {
    let space = first_index(line, ' ');
    if 0 <= space < line.len() {
        Some(line.skip(space + 1))
    } else {
        None
    }
}

/// The command that a keyword in lower case and an argument stand for.
/// `list` and `exit` pay no heed to an argument.
pub open spec fn command_of(keyword: Seq<char>, argument: Option<Seq<char>>) -> CommandView {
    if keyword == "add"@ {
        match argument {
            Some(description) => CommandView::Add(description),
            None => CommandView::MissingDescription,
        }
    } else if keyword == "remove"@ || keyword == "complete"@ {
        match argument {
            None => CommandView::MissingIndex,
            Some(text) => match index_of_text(text) {
                None => CommandView::InvalidIndex,
                Some(index) => if keyword == "remove"@ {
                    CommandView::Remove(index)
                } else {
                    CommandView::Complete(index)
                },
            },
        }
    } else if keyword == "list"@ {
        CommandView::List
    } else if keyword == "exit"@ {
        CommandView::Exit
    } else {
        CommandView::Unknown
    }
}

/// The command that a line of input stands for: the line is taken without
/// the white space around it, and its keyword in its lowercase form.
pub open spec fn command_of_line(input: Seq<char>) -> CommandView {
    let line = trim_of(input);
    command_of(lowercase_of(keyword_of(line)), argument_of(line))
}

/// Tells which command a keyword, already in lower case, and its argument
/// stand for.
pub fn classify(keyword: &str, argument: Option<&str>) -> (command: Command)
    ensures
        command@ == command_of(keyword@, text_of(argument)),
{
    if same_text(keyword, "add") {
        match argument {
            Some(description) => Command::Add(description.to_owned()),
            None => Command::MissingDescription,
        }
    } else if same_text(keyword, "remove") {
        match argument {
            None => Command::MissingIndex,
            Some(text) => match parse_index(text) {
                Some(index) => Command::Remove(index),
                None => Command::InvalidIndex,
            },
        }
    } else if same_text(keyword, "complete") {
        match argument {
            None => Command::MissingIndex,
            Some(text) => match parse_index(text) {
                Some(index) => Command::Complete(index),
                None => Command::InvalidIndex,
            },
        }
    } else if same_text(keyword, "list") {
        Command::List
    } else if same_text(keyword, "exit") {
        Command::Exit
    } else {
        Command::Unknown
    }
}

/// Reads a command from one line of input.
pub fn parse_command(input: &str) -> (command: Command)
    ensures
        command@ == command_of_line(input@),
{
    let line = trim(input);
    let total = line.unicode_len();
    let space = find_char(line, ' ');
    proof {
        lemma_first_index(line@, ' ');
    }
    let keyword = to_lowercase(line.substring_char(0, space));
    let argument = if space < total {
        Some(line.substring_char(space + 1, total))
    } else {
        None
    };
    classify(keyword.as_str(), argument)
}

/// What a command leaves for the caller to do: text to show to the user
/// and, where the command ends the session, the text to put in the file in
/// place of what it held.
#[derive(Debug, PartialEq, Eq)]
pub struct Reply {
    pub output: String,
    pub save: Option<String>,
}

/// The list after a command. Only `add`, `remove` and `complete` change it,
/// the latter two only at a position that the list has.
pub open spec fn tasks_after(tasks: Seq<TaskView>, command: CommandView) -> Seq<TaskView> {
    match command {
        CommandView::Add(description) => tasks.push(TaskView { description, completed: false }),
        CommandView::Remove(index) => after_remove(tasks, index as int),
        CommandView::Complete(index) => after_complete(tasks, index as int),
        _ => tasks,
    }
}

/// What is shown when the list has no task at a position: a line of its
/// own.
pub open spec fn no_task_at(index: usize) -> Seq<char> {
    "Error: No task found at index "@ + decimal(index as nat) + "\n"@
}

/// The text that a command shows, every line of it ended by a line feed,
/// given the list that the command met.
pub open spec fn output_of(tasks: Seq<TaskView>, command: CommandView) -> Seq<char> {
    match command {
        CommandView::Add(_) => "Task added successfully!\n"@,
        CommandView::MissingDescription => "Error: Missing task description\n"@,
        CommandView::Remove(index) | CommandView::Complete(index) => if index < tasks.len() {
            Seq::empty()
        } else {
            no_task_at(index)
        },
        CommandView::MissingIndex => "Error: Missing index\n"@,
        CommandView::InvalidIndex => "Error: Invalid index\n"@,
        CommandView::List => listing(tasks),
        CommandView::Exit => "Exiting program...\n"@,
        CommandView::Unknown => "Invalid command\n"@,
    }
}

/// What a command has the caller write to the file: `exit` the whole list,
/// any other command nothing.
pub open spec fn saved_by(tasks: Seq<TaskView>, command: CommandView) -> Option<Seq<char>> {
    if command is Exit {
        Some(file_of(tasks))
    } else {
        None
    }
}

/// Gives the text to show for the outcome of `remove` or `complete`.
fn report(outcome: Result<(), NoSuchTask>) -> (text: String)
    ensures
        text@ == match outcome {
            Ok(_) => Seq::empty(),
            Err(missing) => no_task_at(missing.index),
        },
{
    match outcome {
        Ok(_) => String::new(),
        Err(missing) => {
            let mut text = missing.message();
            text.append("\n");
            text
        },
    }
}

/// Carries a command out on the list and says what to show. No command
/// fails: what cannot be done is reported in the text and leaves the list
/// as it was.
pub fn run_command(tasks: &mut Vec<Task>, command: &Command) -> (reply: Reply)
    ensures
        final(tasks).deep_view() == tasks_after(old(tasks).deep_view(), command@),
        reply.output@ == output_of(old(tasks).deep_view(), command@),
        chars_of(reply.save) == saved_by(old(tasks).deep_view(), command@),
{
    let output = match command {
        Command::Add(description) => {
            add_task(tasks, description.as_str());
            String::from_str("Task added successfully!\n")
        },
        Command::MissingDescription => String::from_str("Error: Missing task description\n"),
        Command::Remove(index) => report(remove_task(tasks, *index)),
        Command::Complete(index) => report(complete_task(tasks, *index)),
        Command::MissingIndex => String::from_str("Error: Missing index\n"),
        Command::InvalidIndex => String::from_str("Error: Invalid index\n"),
        Command::List => list_tasks(tasks.as_slice()),
        Command::Exit => String::from_str("Exiting program...\n"),
        Command::Unknown => String::from_str("Invalid command\n"),
    };
    let save = match command {
        Command::Exit => Some(write_tasks(tasks.as_slice())),
        _ => None,
    };
    Reply { output, save }
}

/// Takes one line of input through to its effect on the list: reads the
/// command and carries it out.
pub fn step(tasks: &mut Vec<Task>, input: &str) -> (reply: Reply)
    ensures
        final(tasks).deep_view() == tasks_after(old(tasks).deep_view(), command_of_line(input@)),
        reply.output@ == output_of(old(tasks).deep_view(), command_of_line(input@)),
        chars_of(reply.save) == saved_by(old(tasks).deep_view(), command_of_line(input@)),
{
    let command = parse_command(input);
    run_command(tasks, &command)
}

} // verus!
