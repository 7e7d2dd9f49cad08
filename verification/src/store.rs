use crate::number::{decimal, decimal_string};
use crate::task::{flag_text, parse_line, record_line, Task, TaskView};
use crate::text::{first_index, lemma_first_index_is, text_of};
use vstd::prelude::*;
use vstd::std_specs::iter::IteratorSpec;

verus! {

/// A line as it is handed on once its line feed is gone: one carriage return
/// just before the line feed goes with it.
pub open spec fn without_carriage_return(line: Seq<char>) -> Seq<char> {
    if line.len() > 0 && line.last() == '\r' {
        line.drop_last()
    } else {
        line
    }
}

/// The lines of a text. Each line feed ends a line; what follows the last
/// line feed is a line of its own unless it is empty, and keeps a carriage
/// return at its end.
pub open spec fn lines_of(content: Seq<char>) -> Seq<Seq<char>>
    decreases content.len(),
{
    let end = first_index(content, '\n');
    if content.len() == 0 {
        Seq::empty()
    } else if 0 <= end < content.len() {
        seq![without_carriage_return(content.take(end))] + lines_of(content.skip(end + 1))
    } else {
        seq![content]
    }
}

/// The tasks that a file's text stands for: one for each of its lines, in
/// the order of the lines.
pub open spec fn parse_file(content: Seq<char>) -> Seq<TaskView> {
    lines_of(content).map_values(|line: Seq<char>| parse_line(line))
}

/// The tasks that are there at the start: those of the file, or none where
/// there is no file.
pub open spec fn stored_tasks(content: Option<Seq<char>>) -> Seq<TaskView> {
    match content {
        Some(text) => parse_file(text),
        None => Seq::empty(),
    }
}

/// Reads the tasks from the text of the file, if there is a file. Every
/// text is accepted: a line without a tab gives a task with an empty
/// description. Without a file the list is empty.
pub fn read_tasks(content: Option<&str>) -> (tasks: Vec<Task>)
    ensures
        tasks.deep_view() == stored_tasks(text_of(content)),
{
    let mut tasks: Vec<Task> = Vec::new();
    let text = match content {
        Some(text) => text,
        None => {
            assert(tasks.deep_view() == Seq::<TaskView>::empty());
            return tasks;
        },
    };
    let total = text.unicode_len();
    let mut chars = text.chars();
    let mut start: usize = 0;
    let mut seen: usize = 0;
    let mut after_carriage_return = false;
    assert(text@.skip(0) == text@);
    loop
        invariant
            content == Some(text),
            total == text@.len(),
            start <= seen <= total,
            chars.remaining() == text@.skip(seen as int),
            forall|j: int| start <= j < seen ==> text@[j] != '\n',
            after_carriage_return == (start < seen && text@[seen - 1] == '\r'),
            tasks.deep_view() + parse_file(text@.skip(start as int)) == parse_file(text@),
        decreases total - seen,
    {
        let ghost rest = text@.skip(start as int);
        match chars.next() {
            Some('\n') => {
                let end = if after_carriage_return {
                    seen - 1
                } else {
                    seen
                };
                let task = Task::from_file_line(text.substring_char(start, end));
                proof {
                    lemma_first_index_is(rest, '\n', seen - start);
                    let line = rest.take(seen - start);
                    assert(line == text@.subrange(start as int, seen as int));
                    assert(without_carriage_return(line) == text@.subrange(
                        start as int,
                        end as int,
                    ));
                    assert(rest.skip(seen - start + 1) == text@.skip(seen + 1));
                    assert(tasks.deep_view().push(task@) + parse_file(text@.skip(seen + 1))
                        == tasks.deep_view() + parse_file(rest));
                }
                tasks.push(task);
                seen = seen + 1;
                start = seen;
                after_carriage_return = false;
            },
            Some(other) => {
                after_carriage_return = other == '\r';
                seen = seen + 1;
            },
            None => {
                if start < total {
                    let task = Task::from_file_line(text.substring_char(start, total));
                    proof {
                        lemma_first_index_is(rest, '\n', total - start);
                        assert(rest == text@.subrange(start as int, total as int));
                        assert(parse_file(rest) == seq![task@]);
                    }
                    tasks.push(task);
                } else {
                    assert(parse_file(rest) == Seq::<TaskView>::empty());
                }
                return tasks;
            },
        }
    }
}

/// The text of the file that holds the given tasks: their record lines, one
/// after the other, in the order of the tasks.
pub open spec fn file_of(tasks: Seq<TaskView>) -> Seq<char>
    decreases tasks.len(),
{
    if tasks.len() == 0 {
        Seq::empty()
    } else {
        record_line(tasks[0]) + file_of(tasks.drop_first())
    }
}

/// The file of a list with one more task at its end is the file of the list
/// followed by the record line of that task.
pub proof fn lemma_file_of_push(tasks: Seq<TaskView>, task: TaskView)
    ensures
        file_of(tasks.push(task)) == file_of(tasks) + record_line(task),
    decreases tasks.len(),
{
    if tasks.len() == 0 {
        assert(tasks.push(task).drop_first() == tasks);
    } else {
        lemma_file_of_push(tasks.drop_first(), task);
        assert(tasks.push(task).drop_first() == tasks.drop_first().push(task));
    }
}

/// Writes the tasks as the text of the file: the whole of it, to take the
/// place of whatever the file held before.
pub fn write_tasks(tasks: &[Task]) -> (text: String)
    ensures
        text@ == file_of(tasks.deep_view()),
{
    let mut text = String::new();
    let mut done: usize = 0;
    while done < tasks.len()
        invariant
            done <= tasks.len(),
            text@ == file_of(tasks.deep_view().take(done as int)),
        decreases tasks.len() - done,
    {
        let line = tasks[done].to_file_line();
        proof {
            let written = tasks.deep_view().take(done as int);
            lemma_file_of_push(written, tasks[done as int]@);
            assert(written.push(tasks[done as int]@) == tasks.deep_view().take(done + 1));
        }
        text.append(line.as_str());
        done = done + 1;
    }
    assert(tasks.deep_view().take(done as int) == tasks.deep_view());
    text
}

/// A description that the file can hold and give back: it holds no line
/// feed and does not end in a carriage return.
pub open spec fn storable(description: Seq<char>) -> bool {
    &&& !description.contains('\n')
    &&& description.len() > 0 ==> description.last() != '\r'
}

/// The record line of a task, read back without its line feed, is that
/// task, whatever its description holds.
pub proof fn lemma_line_round_trip(task: TaskView)
    ensures
        parse_line(record_line(task).drop_last()) == task,
{
    reveal_strlit("true");
    reveal_strlit("false");
    let flag = flag_text(task.completed);
    let body = flag + seq!['\t'] + task.description;
    assert(record_line(task).drop_last() == body);
    assert forall|j: int| 0 <= j < flag.len() implies body[j] != '\t' by {
        assert(body[j] == flag[j]);
    }
    lemma_first_index_is(body, '\t', flag.len() as int);
    assert(body.take(flag.len() as int) == flag);
    assert(body.skip(flag.len() as int + 1) == task.description);
    assert("false"@.len() != "true"@.len());
}

/// Writing a list of tasks as the text of the file and reading that text
/// gives the same tasks in the same order, where every description is one
/// that the file can hold.
pub proof fn lemma_round_trip(tasks: Seq<TaskView>)
    requires
        forall|i: int| 0 <= i < tasks.len() ==> storable(#[trigger] tasks[i].description),
    ensures
        parse_file(file_of(tasks)) == tasks,
    decreases tasks.len(),
{
    if tasks.len() == 0 {
        assert(parse_file(file_of(tasks)) == tasks);
    } else {
        reveal_strlit("true");
        reveal_strlit("false");
        let task = tasks[0];
        let rest = tasks.drop_first();
        let flag = flag_text(task.completed);
        let body = record_line(task).drop_last();
        let whole = file_of(tasks);
        assert(storable(task.description));
        assert(body == flag + seq!['\t'] + task.description);
        assert forall|j: int| 0 <= j < body.len() implies whole[j] != '\n' by {
            if j < flag.len() {
                assert(whole[j] == flag[j]);
            } else if j > flag.len() {
                assert(whole[j] == task.description[j - flag.len() - 1]);
                assert(task.description.contains(whole[j]));
            }
        }
        lemma_first_index_is(whole, '\n', body.len() as int);
        assert(whole.take(body.len() as int) == body);
        assert(whole.skip(body.len() as int + 1) == file_of(rest));
        assert(without_carriage_return(body) == body) by {
            if task.description.len() > 0 {
                assert(body.last() == task.description.last());
            }
        }
        assert(lines_of(whole) == seq![body] + lines_of(file_of(rest)));
        lemma_line_round_trip(task);
        assert forall|i: int| 0 <= i < rest.len() implies storable(
            #[trigger] rest[i].description,
        ) by {
            assert(rest[i] == tasks[i + 1]);
        }
        lemma_round_trip(rest);
        assert(parse_file(whole) == seq![task] + parse_file(file_of(rest)));
        assert(seq![task] + rest == tasks);
    }
}

/// Says that a list has no task at the position asked for.
#[derive(Debug, Clone, Copy, PartialEq, Eq, Structural)]
pub struct NoSuchTask {
    pub index: usize,
}

impl NoSuchTask {
    /// The message for the user.
    pub fn message(&self) -> (text: String)
        ensures
            text@ == "Error: No task found at index "@ + decimal(self.index as nat),
    {
        let mut text = String::from_str("Error: No task found at index ");
        text.append(decimal_string(self.index).as_str());
        text
    }
}

/// A list after the task at `index` has left it: the tasks behind it move
/// up by one place. A position outside the list changes nothing.
pub open spec fn after_remove(tasks: Seq<TaskView>, index: int) -> Seq<TaskView> {
    if 0 <= index < tasks.len() {
        tasks.remove(index)
    } else {
        tasks
    }
}

/// A list after the task at `index` has been done. A position outside the
/// list changes nothing.
pub open spec fn after_complete(tasks: Seq<TaskView>, index: int) -> Seq<TaskView> {
    if 0 <= index < tasks.len() {
        tasks.update(index, TaskView { completed: true, ..tasks[index] })
    } else {
        tasks
    }
}

/// Puts a new task, yet to be done, at the end of the list. Any description
/// is accepted, the empty one too.
pub fn add_task(tasks: &mut Vec<Task>, description: &str)
    ensures
        final(tasks)@.len() == old(tasks)@.len() + 1,
        final(tasks)@.drop_last() == old(tasks)@,
        final(tasks)@.last()@ == (TaskView { description: description@, completed: false }),
        final(tasks).deep_view() == old(tasks).deep_view().push(
            TaskView { description: description@, completed: false },
        ),
{
    let new_task = Task::new(description);
    tasks.push(new_task);
    assert(tasks@.drop_last() == old(tasks)@);
    assert(tasks.deep_view() == old(tasks).deep_view().push(
        TaskView { description: description@, completed: false },
    ));
}

/// Takes the task at `index` out of the list. Where the list has no such
/// position it stays as it is and the error says so.
pub fn remove_task(tasks: &mut Vec<Task>, index: usize) -> (result: Result<(), NoSuchTask>)
    ensures
        index < old(tasks)@.len() ==> result is Ok && final(tasks)@ == old(tasks)@.remove(
            index as int,
        ) && final(tasks)@.len() == old(tasks)@.len() - 1,
        index >= old(tasks)@.len() ==> result == Err::<(), NoSuchTask>(NoSuchTask { index })
            && final(tasks)@ == old(tasks)@,
        final(tasks).deep_view() == after_remove(old(tasks).deep_view(), index as int),
{
    if index < tasks.len() {
        tasks.remove(index);
        assert(tasks.deep_view() == old(tasks).deep_view().remove(index as int));
        Ok(())
    } else {
        Err(NoSuchTask { index })
    }
}

/// Marks the task at `index` as done. Where the list has no such position
/// it stays as it is and the error says so.
pub fn complete_task(tasks: &mut Vec<Task>, index: usize) -> (result: Result<(), NoSuchTask>)
    ensures
        index < old(tasks)@.len() ==> result is Ok && final(tasks)@ == old(tasks)@.update(
            index as int,
            Task { completed: true, ..old(tasks)@[index as int] },
        ),
        index >= old(tasks)@.len() ==> result == Err::<(), NoSuchTask>(NoSuchTask { index })
            && final(tasks)@ == old(tasks)@,
        final(tasks).deep_view() == after_complete(old(tasks).deep_view(), index as int),
{
    if index < tasks.len() {
        tasks[index].completed = true;
        assert(tasks.deep_view() == after_complete(old(tasks).deep_view(), index as int));
        Ok(())
    } else {
        Err(NoSuchTask { index })
    }
}

/// Completing a task sets its flag and changes nothing else: the list keeps
/// its length, the task keeps its description, and every other task stays
/// as it was.
pub proof fn lemma_complete_sets_one_flag(tasks: Seq<TaskView>, index: int)
    requires
        0 <= index < tasks.len(),
    ensures
        after_complete(tasks, index).len() == tasks.len(),
        after_complete(tasks, index)[index].completed,
        after_complete(tasks, index)[index].description == tasks[index].description,
        forall|j: int|
            0 <= j < tasks.len() && j != index ==> after_complete(tasks, index)[j] == tasks[j],
{
}

/// Completing the same task twice leaves the list as completing it once
/// does.
pub proof fn lemma_complete_twice(tasks: Seq<TaskView>, index: int)
    ensures
        after_complete(after_complete(tasks, index), index) == after_complete(tasks, index),
{
}

/// The mark that the listing shows for a completion flag.
pub open spec fn marker(completed: bool) -> Seq<char> {
    if completed {
        "[X]"@
    } else {
        "[ ]"@
    }
}

/// One line of the listing: the position in decimal, the mark, and the
/// description, then a line feed.
pub open spec fn listing_line(index: nat, task: TaskView) -> Seq<char> {
    decimal(index) + " "@ + marker(task.completed) + " - "@ + task.description + "\n"@
}

/// The listing of the tasks: one line for each, in their order, each under
/// its position in the list, counted from zero.
pub open spec fn listing(tasks: Seq<TaskView>) -> Seq<char>
    decreases tasks.len(),
{
    if tasks.len() == 0 {
        Seq::empty()
    } else {
        listing(tasks.drop_last()) + listing_line((tasks.len() - 1) as nat, tasks.last())
    }
}

/// Renders the tasks for the user. The list is only read.
pub fn list_tasks(tasks: &[Task]) -> (text: String)
    ensures
        text@ == listing(tasks.deep_view()),
{
    let mut text = String::new();
    let mut index: usize = 0;
    while index < tasks.len()
        invariant
            index <= tasks.len(),
            text@ == listing(tasks.deep_view().take(index as int)),
        decreases tasks.len() - index,
    {
        let task = &tasks[index];
        let status = if task.completed {
            "[X]"
        } else {
            "[ ]"
        };
        proof {
            let shown = tasks.deep_view().take(index + 1);
            assert(shown.drop_last() == tasks.deep_view().take(index as int));
            assert(shown.last() == task@);
        }
        text.append(decimal_string(index).as_str());
        text.append(" ");
        text.append(status);
        text.append(" - ");
        text.append(task.description.as_str());
        text.append("\n");
        index = index + 1;
    }
    assert(tasks.deep_view().take(index as int) == tasks.deep_view());
    text
}

} // verus!
