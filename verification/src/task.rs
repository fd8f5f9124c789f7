//! Tasks: what a checklist line becomes under the section it stands in, and
//! the flat list of the tasks of a document.

use crate::checklist::{
    checklist_line, lemma_checklist_parts, match_checklist, TaskLine, TaskLineView,
};
use crate::number::{decimal_digits, lemma_decimal_digits_injective, push_decimal};
use crate::task_config::{opt_text, opt_texts, parse_task_config, task_config_of, TaskConfig, TaskConfigView};
use crate::text::{
    chars_of, lines_of, split_lines, string_of, strip_prefix, texts, trim, trimmed,
};
use vstd::prelude::*;
use vstd::slice::slice_subrange;

verus! {

/// A task of the board.
#[derive(Debug)]
pub struct Task {
    pub id: String,
    pub title: String,
    pub completed: bool,
    /// The name of the section that the task stands in; empty before the
    /// first section.
    pub section: String,
    pub config: TaskConfig,
    /// Lines of a longer description. Always present and empty.
    pub description: Option<Vec<String>>,
    /// Tasks below this one. Always present and empty.
    pub children: Option<Vec<Task>>,
    /// The id of the task above this one. Always absent.
    pub parent_id: Option<String>,
}

/// A task as plain values.
pub struct TaskView {
    pub id: Seq<char>,
    pub title: Seq<char>,
    pub completed: bool,
    pub section: Seq<char>,
    pub config: TaskConfigView,
    pub description: Option<Seq<Seq<char>>>,
    pub children: Option<Seq<Task>>,
    pub parent_id: Option<Seq<char>>,
}

impl View for Task {
    type V = TaskView;

    open spec fn view(&self) -> TaskView {
        TaskView {
            id: self.id@,
            title: self.title@,
            completed: self.completed,
            section: self.section@,
            config: self.config@,
            description: opt_texts(self.description),
            children: match self.children {
                Some(v) => Some(v@),
                None => None,
            },
            parent_id: opt_text(self.parent_id),
        }
    }
}

/// The id of a task made at `ms` milliseconds after the epoch.
pub open spec fn task_id_text(ms: nat) -> Seq<char> {
    "task_"@ + decimal_digits(ms)
}

/// Whether `id` is the id of a task made at some millisecond.
pub open spec fn is_generated_id(id: Seq<char>) -> bool {
    exists|ms: nat| id == task_id_text(ms)
}

/// The task that a checklist line makes under `section`. Where the line
/// gives no id, `fallback_id` is the task's id.
pub open spec fn task_of(parts: TaskLineView, section: Seq<char>, fallback_id: Seq<char>) -> TaskView {
    TaskView {
        id: match parts.id {
            Some(id) => id,
            None => fallback_id,
        },
        title: parts.title,
        completed: parts.completed,
        section,
        config: task_config_of(
            match parts.config {
                Some(c) => c,
                None => Seq::empty(),
            },
        ),
        description: Some(Seq::empty()),
        children: Some(Seq::empty()),
        parent_id: None,
    }
}

/// Whether `t` is the task that a checklist line makes under `section`,
/// with a generated id where the line gives none.
pub open spec fn task_fits(t: TaskView, parts: TaskLineView, section: Seq<char>) -> bool {
    &&& t == task_of(parts, section, t.id)
    &&& parts.id is None ==> is_generated_id(t.id)
}

/// The name of the section that a trimmed line opens, if it opens one.
pub open spec fn section_header(t: Seq<char>) -> Option<Seq<char>> {
    if "## "@.is_prefix_of(t) {
        Some(trimmed(t.skip("## "@.len() as int)))
    } else {
        None
    }
}

/// The section that holds at line `i`: the one that the last section header
/// before that line names, or the empty name where none precedes it.
pub open spec fn section_at(lines: Seq<Seq<char>>, i: int) -> Seq<char>
    decreases i,
{
    if i <= 0 {
        Seq::empty()
    } else {
        match section_header(trimmed(lines[i - 1])) {
            Some(name) => name,
            None => section_at(lines, i - 1),
        }
    }
}

/// The checklist lines among the first `n` lines, in their order, each with
/// the section that holds where it stands.
pub open spec fn task_lines(lines: Seq<Seq<char>>, n: int) -> Seq<(TaskLineView, Seq<char>)>
    decreases n,
{
    if n <= 0 {
        Seq::empty()
    } else {
        match checklist_line(lines[n - 1]) {
            Some(parts) => task_lines(lines, n - 1).push((parts, section_at(lines, n - 1))),
            None => task_lines(lines, n - 1),
        }
    }
}

/// Whether `tasks` are the tasks of a document with these lines: one for
/// each checklist line, in the order of the lines.
pub open spec fn tasks_fit(tasks: Seq<Task>, lines: Seq<Seq<char>>) -> bool {
    let expected = task_lines(lines, lines.len() as int);
    &&& tasks.len() == expected.len()
    &&& forall|i: int|
        #![trigger tasks[i]]
        0 <= i < tasks.len() ==> task_fits(tasks[i]@, expected[i].0, expected[i].1)
}

/// Ids made at different milliseconds differ.
pub proof fn lemma_generated_ids_differ(a: nat, b: nat)
    requires
        a != b,
    ensures
        task_id_text(a) != task_id_text(b),
{
    if task_id_text(a) == task_id_text(b) {
        let n = "task_"@.len() as int;
        assert(task_id_text(a).skip(n) == decimal_digits(a));
        assert(task_id_text(b).skip(n) == decimal_digits(b));
        lemma_decimal_digits_injective(a, b);
    }
}

/// A generated id begins with `task_` and goes on with at least one digit.
pub proof fn lemma_generated_id_shape(id: Seq<char>)
    requires
        is_generated_id(id),
    ensures
        "task_"@.is_prefix_of(id),
        id.len() > "task_"@.len(),
{
    let ms = choose|ms: nat| id == task_id_text(ms);
    crate::number::lemma_decimal_round_trip(ms);
    assert(id.subrange(0, "task_"@.len() as int) == "task_"@);
}

/// A section header is no checklist line.
pub proof fn lemma_header_is_no_task(line: Seq<char>)
    requires
        section_header(trimmed(line)) is Some,
    ensures
        checklist_line(line) is None,
{
    reveal_strlit("## ");
    let t = trimmed(line);
    assert(t[0] == "## "@[0]);
}

/// A reading of the system clock, `std::time::SystemTime`. Nothing is known
/// of what a reading holds.
#[verifier::external_type_specification]
#[verifier::external_body]
pub struct ExSystemTime(std::time::SystemTime);

/// What `std::time::SystemTime::duration_since` fails with,
/// `std::time::SystemTimeError`.
#[verifier::external_type_specification]
#[verifier::external_body]
pub struct ExSystemTimeError(std::time::SystemTimeError);

/// Reads the system clock, by `std::time::SystemTime::now`. Nothing is
/// claimed of the reading.
#[verifier::external_body]
fn clock_now() -> (now: std::time::SystemTime) {
    std::time::SystemTime::now()
}

/// The time from the epoch to `now`, by
/// `std::time::SystemTime::duration_since` with `UNIX_EPOCH`; an error
/// where `now` lies before the epoch. Nothing is claimed of the result.
#[verifier::external_body]
fn since_epoch(now: &std::time::SystemTime) -> (r: Result<
    std::time::Duration,
    std::time::SystemTimeError,
>) {
    now.duration_since(std::time::UNIX_EPOCH)
}

/// The whole milliseconds of a span of time, by
/// `std::time::Duration::as_millis`. Nothing is claimed of the number.
#[verifier::external_body]
fn whole_millis(span: &std::time::Duration) -> (ms: u128) {
    span.as_millis()
}

/// The id of a task made at `ms` milliseconds after the epoch.
pub fn task_id_from_millis(ms: u128) -> (id: String)
    ensures
        id@ == task_id_text(ms as nat),
{
    let mut text = chars_of("task_");
    push_decimal(ms, &mut text);
    string_of(text.as_slice())
}

/// Makes an id for a task out of the time of the call. A clock that stands
/// before the epoch counts as the epoch.
pub fn generate_task_id() -> (id: String)
    ensures
        is_generated_id(id@),
        "task_"@.is_prefix_of(id@),
        id@.len() > "task_"@.len(),
{
    let now = clock_now();
    let ms: u128 = match since_epoch(&now) {
        Ok(span) => whole_millis(&span),
        Err(_) => 0,
    };
    let id = task_id_from_millis(ms);
    proof {
        assert(id@ == task_id_text(ms as nat));
        lemma_generated_id_shape(id@);
    }
    id
}

/// Makes the task of a checklist line under `section`.
pub fn task_from_line(parts: TaskLine, section: String, fallback_id: String) -> (task: Task)
    ensures
        task@ == task_of(parts@, section@, fallback_id@),
{
    let config = match &parts.config {
        Some(c) => parse_task_config(c.as_str()),
        None => {
            proof {
                reveal_strlit("");
                assert(""@ == Seq::<char>::empty());
            }
            parse_task_config("")
        },
    };
    let id = match parts.id {
        Some(id) => id,
        None => fallback_id,
    };
    let task = Task {
        id,
        title: parts.title,
        completed: parts.completed,
        section,
        config,
        description: Some(Vec::new()),
        children: Some(Vec::new()),
        parent_id: None,
    };
    assert(task@.description == Some(Seq::<Seq<char>>::empty()));
    task
}

/// Reads the task of one line under `section`, with an id of its own
/// making where the line gives none.
pub fn single_task(line: &[char], section: &[char]) -> (r: Option<Task>)
    ensures
        match checklist_line(line@) {
            Some(parts) => r matches Some(task) && task_fits(task@, parts, section@)
                && task.id@.len() > 0 && task.title@.len() > 0,
            None => r is None,
        },
{
    match match_checklist(line) {
        Some(parts) => {
            let fallback = if parts.id.is_none() {
                generate_task_id()
            } else {
                String::new()
            };
            proof {
                lemma_checklist_parts(line@);
            }
            Some(task_from_line(parts, string_of(section), fallback))
        },
        None => None,
    }
}

/// Reads the task of the line at `start_index` under `section`, and gives
/// with it the index of the line after. Gives nothing where the line is no
/// checklist line.
pub fn parse_single_task(lines: &[&str], start_index: usize, section: &str) -> (r: Option<
    (Task, usize),
>)
    requires
        start_index < lines@.len(),
    ensures
        match checklist_line(lines@[start_index as int]@) {
            Some(parts) => r matches Some((task, next)) && next == start_index + 1 && task_fits(
                task@,
                parts,
                section@,
            ) && task.id@.len() > 0 && task.title@.len() > 0,
            None => r is None,
        },
{
    let line = chars_of(lines[start_index]);
    let name = chars_of(section);
    match single_task(line.as_slice(), name.as_slice()) {
        Some(task) => Some((task, start_index + 1)),
        None => None,
    }
}

/// Reads the tasks of a document: one for each checklist line, in the order
/// of the lines, each under the section that the last `## ` line before it
/// names.
pub fn parse_tasks_from_markdown(content: &str) -> (tasks: Vec<Task>)
    ensures
        tasks_fit(tasks@, lines_of(content@)),
        forall|i: int|
            #![trigger tasks@[i]]
            0 <= i < tasks@.len() ==> tasks@[i].id@.len() > 0 && tasks@[i].title@.len() > 0,
{
    let chars = chars_of(content);
    let lines = split_lines(chars.as_slice());
    let ghost rows = texts(lines@);
    let mut tasks: Vec<Task> = Vec::new();
    let mut section: &[char] = slice_subrange(chars.as_slice(), 0, 0);
    let mut i: usize = 0;
    while i < lines.len()
        invariant
            i <= lines@.len(),
            rows == texts(lines@),
            section@ == section_at(rows, i as int),
            tasks@.len() == task_lines(rows, i as int).len(),
            forall|k: int|
                #![trigger tasks@[k]]
                0 <= k < tasks@.len() ==> task_fits(
                    tasks@[k]@,
                    task_lines(rows, i as int)[k].0,
                    task_lines(rows, i as int)[k].1,
                ) && tasks@[k].id@.len() > 0 && tasks@[k].title@.len() > 0,
        decreases lines@.len() - i,
    {
        let line = lines[i];
        assert(line@ == rows[i as int]);
        match strip_prefix(trim(line), "## ") {
            Some(rest) => {
                section = trim(rest);
                proof {
                    lemma_header_is_no_task(line@);
                }
            },
            None => {
                match single_task(line, section) {
                    Some(task) => {
                        tasks.push(task);
                    },
                    None => {},
                }
            },
        }
        i += 1;
    }
    tasks
}

} // verus!
