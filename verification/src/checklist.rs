//! The grammar of a checklist line: a box, an optional id in parentheses, a
//! title, and an optional configuration in braces.

use crate::text::{
    back_spaces, back_whitespace, chars_of, find, find_char, is_space, lemma_back_spaces,
    lemma_skip_spaces, lemma_trimmed, lemma_trimmed_fixed, skip_spaces, skip_whitespace,
    string_of, trim, trim_start, trimmed, trimmed_end, trimmed_start,
};
use vstd::prelude::*;
use vstd::slice::slice_subrange;

verus! {

/// What a checklist line says, before a task is made of it.
#[derive(Debug, Clone)]
pub struct TaskLine {
    /// The number of white-space characters before the box.
    pub indent: usize,
    pub completed: bool,
    pub id: Option<String>,
    pub title: String,
    /// The text between the braces, where the line has any.
    pub config: Option<String>,
}

/// A checklist line as plain values.
pub struct TaskLineView {
    pub indent: nat,
    pub completed: bool,
    pub id: Option<Seq<char>>,
    pub title: Seq<char>,
    pub config: Option<Seq<char>>,
}

impl View for TaskLine {
    type V = TaskLineView;

    open spec fn view(&self) -> TaskLineView {
        TaskLineView {
            indent: self.indent as nat,
            completed: self.completed,
            id: match self.id {
                Some(s) => Some(s@),
                None => None,
            },
            title: self.title@,
            config: match self.config {
                Some(s) => Some(s@),
                None => None,
            },
        }
    }
}

/// The view of an optional checklist line.
pub open spec fn task_line_view(o: Option<TaskLine>) -> Option<TaskLineView> {
    match o {
        Some(l) => Some(l@),
        None => None,
    }
}

/// Whether `t` begins with a box: `- [ ]` or `- [x]`.
pub open spec fn has_checkbox(t: Seq<char>) -> bool {
    &&& t.len() >= 5
    &&& t[0] == '-'
    &&& t[1] == ' '
    &&& t[2] == '['
    &&& (t[3] == ' ' || t[3] == 'x')
    &&& t[4] == ']'
}

/// The id that stands in parentheses at the head of `r`, after white space,
/// and the text behind it. An id is not empty and ends at the first closing
/// parenthesis; it counts only where text follows it.
pub open spec fn explicit_id(r: Seq<char>) -> Option<(Seq<char>, Seq<char>)> {
    let p = skip_spaces(r, 0);
    let q = find_char(r, ')', p + 1);
    if p < r.len() && r[p] == '(' && p + 1 < q && q + 1 < r.len() {
        Some((r.subrange(p + 1, q), r.skip(q + 1)))
    } else {
        None
    }
}

/// Whether a configuration block opens at `j` and closes `y`: a brace that
/// is not the first character, then text without a closing brace, then the
/// closing brace that ends `y`.
pub open spec fn is_config_open(y: Seq<char>, j: int) -> bool {
    &&& 1 <= j
    &&& j + 2 < y.len()
    &&& y[j] == '{'
    &&& find_char(y, '}', j + 1) == y.len() - 1
}

/// The first position from `j` on at which a configuration block opens, or
/// the length of `y`.
pub open spec fn config_open_from(y: Seq<char>, j: int) -> int
    decreases y.len() - j,
{
    if j < 1 || j >= y.len() {
        y.len() as int
    } else if is_config_open(y, j) {
        j
    } else {
        config_open_from(y, j + 1)
    }
}

/// The position at which the configuration block of `y` opens, or the
/// length of `y` where it has none. Of several braces that could open it,
/// the first does.
pub open spec fn config_open(y: Seq<char>) -> int {
    config_open_from(y, 1)
}

/// The title in `y`: what stands before the configuration block, without
/// the white space before the brace.
pub open spec fn title_of(y: Seq<char>) -> Seq<char> {
    if config_open(y) < y.len() {
        trimmed_end(y.take(config_open(y)))
    } else {
        y
    }
}

/// The text between the braces of the configuration block of `y`.
pub open spec fn config_of(y: Seq<char>) -> Option<Seq<char>> {
    if config_open(y) < y.len() {
        Some(y.subrange(config_open(y) + 1, y.len() - 1))
    } else {
        None
    }
}

/// What `line` says as a checklist line, if it is one. White space around
/// the line does not count, and a text that a line feed breaks is no line.
pub open spec fn checklist_line(line: Seq<char>) -> Option<TaskLineView> {
    let t = trimmed(line);
    if !has_checkbox(t) || find_char(t, '\n', 0) < t.len() {
        None
    } else {
        let r = t.skip(5);
        let body = match explicit_id(r) {
            Some((id, rest)) => rest,
            None => r,
        };
        if body.len() == 0 {
            None
        } else {
            Some(
                TaskLineView {
                    indent: skip_spaces(line, 0) as nat,
                    completed: t[3] == 'x',
                    id: match explicit_id(r) {
                        Some((id, rest)) => Some(id),
                        None => None,
                    },
                    title: title_of(trimmed_start(body)),
                    config: config_of(trimmed_start(body)),
                },
            )
        }
    }
}

/// Only a blank or an `x` in the box makes a checklist line, and the line
/// is completed exactly where the box holds an `x`.
pub proof fn lemma_check_mark(line: Seq<char>)
    requires
        checklist_line(line) is Some,
    ensures
        trimmed(line).len() > 5,
        trimmed(line)[3] == ' ' || trimmed(line)[3] == 'x',
        checklist_line(line)->0.completed <==> trimmed(line)[3] == 'x',
{
}

/// Where `config_open_from` ends.
pub proof fn lemma_config_open_from(y: Seq<char>, j: int)
    requires
        1 <= j,
    ensures
        config_open_from(y, j) == y.len() || (j <= config_open_from(y, j) < y.len()
            && is_config_open(y, config_open_from(y, j))),
    decreases y.len() - j,
{
    if j < y.len() && !is_config_open(y, j) {
        lemma_config_open_from(y, j + 1);
    }
}

/// The title of a checklist line is not empty and has no white space at
/// either end; an id is not empty; a configuration is not empty.
pub proof fn lemma_checklist_parts(line: Seq<char>)
    requires
        checklist_line(line) is Some,
    ensures
        checklist_line(line)->0.title.len() > 0,
        trimmed(checklist_line(line)->0.title) == checklist_line(line)->0.title,
        checklist_line(line)->0.id matches Some(id) ==> id.len() > 0,
        checklist_line(line)->0.config matches Some(c) ==> c.len() > 0,
{
    let t = trimmed(line);
    lemma_trimmed(line);
    let r = t.skip(5);
    lemma_skip_spaces(r, 0);
    let body = match explicit_id(r) {
        Some((id, rest)) => rest,
        None => r,
    };
    assert(body.last() == t.last());
    lemma_skip_spaces(body, 0);
    let y = trimmed_start(body);
    assert(y.len() > 0);
    assert(y.last() == body.last());
    lemma_config_open_from(y, 1);
    let j = config_open(y);
    if j < y.len() {
        let head = y.take(j);
        lemma_back_spaces(head, j);
        let title = trimmed_end(head);
        assert(back_spaces(head, j) > 0) by {
            if back_spaces(head, j) == 0 {
                assert(is_space(head[0]));
            }
        }
        assert(title[0] == y[0]);
        lemma_trimmed_fixed(title);
    } else {
        lemma_trimmed_fixed(y);
    }
}

/// The position at which the configuration block of `y` opens.
pub fn find_config_open(y: &[char]) -> (j: usize)
    ensures
        j == config_open(y@),
        j <= y@.len(),
        j < y@.len() ==> is_config_open(y@, j as int),
{
    let mut j: usize = 1;
    while j < y.len()
        invariant
            1 <= j,
            config_open(y@) == config_open_from(y@, j as int),
        decreases y@.len() - j,
    {
        if y[j] == '{' && y.len() - j > 2 && find(y, '}', j + 1) == y.len() - 1 {
            return j;
        }
        j += 1;
    }
    y.len()
}

/// Reads a checklist line from its characters.
pub fn match_checklist(line: &[char]) -> (r: Option<TaskLine>)
    ensures
        task_line_view(r) == checklist_line(line@),
{
    let indent = skip_whitespace(line, 0);
    let t = trim(line);
    if t.len() < 5 || t[0] != '-' || t[1] != ' ' || t[2] != '[' || (t[3] != ' ' && t[3] != 'x')
        || t[4] != ']' {
        return None;
    }
    if find(t, '\n', 0) < t.len() {
        return None;
    }
    let r = slice_subrange(t, 5, t.len());
    let p = skip_whitespace(r, 0);
    let mut id: Option<String> = None;
    let mut body = r;
    if p < r.len() && r[p] == '(' {
        let q = find(r, ')', p + 1);
        if p + 1 < q && q + 1 < r.len() {
            id = Some(string_of(slice_subrange(r, p + 1, q)));
            body = slice_subrange(r, q + 1, r.len());
        }
    }
    if body.len() == 0 {
        return None;
    }
    let y = trim_start(body);
    let j = find_config_open(y);
    if j < y.len() {
        let end = back_whitespace(y, j);
        assert(y@.take(j as int).take(end as int) == y@.subrange(0, end as int));
        assert(back_spaces(y@.take(j as int), j as int) == back_spaces(y@, j as int)) by {
            lemma_back_spaces_take(y@, j as int, j as int);
        }
        Some(
            TaskLine {
                indent,
                completed: t[3] == 'x',
                id,
                title: string_of(slice_subrange(y, 0, end)),
                config: Some(string_of(slice_subrange(y, j + 1, y.len() - 1))),
            },
        )
    } else {
        Some(TaskLine { indent, completed: t[3] == 'x', id, title: string_of(y), config: None })
    }
}

/// Reads a checklist line.
pub fn match_task_line(line: &str) -> (r: Option<TaskLine>)
    ensures
        task_line_view(r) == checklist_line(line@),
{
    let chars = chars_of(line);
    match_checklist(chars.as_slice())
}

/// Trailing white space is found alike in a text and in a beginning of it.
pub proof fn lemma_back_spaces_take(s: Seq<char>, n: int, j: int)
    requires
        0 <= j <= n <= s.len(),
    ensures
        back_spaces(s.take(n), j) == back_spaces(s, j),
    decreases j,
{
    if 0 < j && is_space(s[j - 1]) {
        lemma_back_spaces_take(s, n, j - 1);
    }
}

} // verus!
