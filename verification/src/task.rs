use crate::text::{find_char, first_index, same_text};
use vstd::prelude::*;

verus! {

/// One entry of the list: what is to be done, and whether it has been done.
#[derive(Debug, PartialEq, Eq)]
pub struct Task {
    pub description: String,
    pub completed: bool,
}

/// A task as a plain value: its description as a sequence of characters, and
/// its flag.
pub struct TaskView {
    pub description: Seq<char>,
    pub completed: bool,
}

impl View for Task {
    type V = TaskView;

    open spec fn view(&self) -> TaskView {
        TaskView { description: self.description@, completed: self.completed }
    }
}

impl Clone for Task {
    fn clone(&self) -> (copy: Task)
        ensures
            copy == *self,
    {
        Task { description: self.description.clone(), completed: self.completed }
    }
}

impl DeepView for Task {
    type V = TaskView;

    open spec fn deep_view(&self) -> TaskView {
        self@
    }
}

/// The stored text of a completion flag.
pub open spec fn flag_text(completed: bool) -> Seq<char> {
    if completed {
        "true"@
    } else {
        "false"@
    }
}

/// The record line of a task: the flag, a tab, the description as it is, and
/// a line feed.
pub open spec fn record_line(task: TaskView) -> Seq<char> {
    flag_text(task.completed) + seq!['\t'] + task.description + seq!['\n']
}

/// The task that a line of the file stands for. The flag is whatever
/// precedes the first tab, and is set only where that is exactly `true`; the
/// description is whatever follows the first tab, and empty where the line
/// holds no tab.
pub open spec fn parse_line(line: Seq<char>) -> TaskView {
    let tab = first_index(line, '\t');
    TaskView {
        description: if 0 <= tab < line.len() {
            line.skip(tab + 1)
        } else {
            Seq::empty()
        },
        completed: line.take(tab) == "true"@,
    }
}

impl Task {
    /// A task that is yet to be done.
    pub fn new(description: &str) -> (task: Task)
        ensures
            task@ == (TaskView { description: description@, completed: false }),
    {
        Task { description: description.to_owned(), completed: false }
    }

    /// Reads a task from one line of the file, without its line ending.
    /// Every line is accepted.
    pub fn from_file_line(line: &str) -> (task: Task)
        ensures
            task@ == parse_line(line@),
    {
        let total = line.unicode_len();
        let tab = find_char(line, '\t');
        proof {
            crate::text::lemma_first_index(line@, '\t');
        }
        let completed = same_text(line.substring_char(0, tab), "true");
        let description = if tab < total {
            line.substring_char(tab + 1, total).to_owned()
        } else {
            String::new()
        };
        Task { description, completed }
    }

    /// Writes the task as one line of the file, line ending included.
    pub fn to_file_line(&self) -> (line: String)
        ensures
            line@ == record_line(self@),
    {
        let mut line = String::from_str(if self.completed {
            "true"
        } else {
            "false"
        });
        line.append("\t");
        line.append(self.description.as_str());
        line.append("\n");
        proof {
            reveal_strlit("\t");
            reveal_strlit("\n");
            assert("\t"@ =~= seq!['\t']);
            assert("\n"@ =~= seq!['\n']);
        }
        line
    }
}

} // verus!
