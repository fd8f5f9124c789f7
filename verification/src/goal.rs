//! Goals: the header line that opens a goal, and what its configuration
//! says.

use crate::config::{config_value, lookup, slice_text};
use crate::text::{
    back_spaces, back_whitespace, chars_of, find, find_char, split, string_of, strip_prefix,
};
use vstd::prelude::*;
use vstd::slice::slice_subrange;

verus! {

/// A goal of the project.
#[derive(Debug, Clone)]
pub struct Goal {
    pub id: String,
    pub title: String,
    pub description: String,
    pub goal_type: String,
    pub kpi: String,
    pub start_date: String,
    pub end_date: String,
    pub status: String,
}

/// A goal as plain values.
pub struct GoalView {
    pub id: Seq<char>,
    pub title: Seq<char>,
    pub description: Seq<char>,
    pub goal_type: Seq<char>,
    pub kpi: Seq<char>,
    pub start_date: Seq<char>,
    pub end_date: Seq<char>,
    pub status: Seq<char>,
}

impl View for Goal {
    type V = GoalView;

    open spec fn view(&self) -> GoalView {
        GoalView {
            id: self.id@,
            title: self.title@,
            description: self.description@,
            goal_type: self.goal_type@,
            kpi: self.kpi@,
            start_date: self.start_date@,
            end_date: self.end_date@,
            status: self.status@,
        }
    }
}

/// The value, or `default` where there is none.
pub open spec fn value_or(o: Option<Seq<char>>, default: Seq<char>) -> Seq<char> {
    match o {
        Some(v) => v,
        None => default,
    }
}

/// The goal with this title, description and id that a configuration text
/// describes. A goal is of the type `project` and in the status `planning`
/// unless its configuration says otherwise; what else it does not say is
/// empty.
pub open spec fn goal_of(
    title: Seq<char>,
    config: Seq<char>,
    description: Seq<char>,
    id: Seq<char>,
) -> GoalView {
    GoalView {
        id,
        title,
        description,
        goal_type: value_or(config_value(config, "type"@), "project"@),
        kpi: value_or(config_value(config, "kpi"@), Seq::empty()),
        start_date: value_or(config_value(config, "start"@), Seq::empty()),
        end_date: value_or(config_value(config, "end"@), Seq::empty()),
        status: value_or(config_value(config, "status"@), "planning"@),
    }
}

/// The title and the configuration text of a goal's header line `t`, if `t`
/// is one: `## `, a title, and a configuration in braces that ends the
/// line. The configuration opens at the first brace behind the title's
/// first character and is not empty; white space before that brace belongs
/// to neither.
pub open spec fn goal_header(t: Seq<char>) -> Option<(Seq<char>, Seq<char>)> {
    let y = t.skip("## "@.len() as int);
    let j = find_char(y, '{', 1);
    if "## "@.is_prefix_of(t) && find_char(t, '\n', 0) >= t.len() && j + 2 < y.len() && y.last()
        == '}' {
        Some(
            (
                y.take(
                    if back_spaces(y, j) < 1 {
                        1
                    } else {
                        back_spaces(y, j)
                    },
                ),
                y.subrange(j + 1, y.len() - 1),
            ),
        )
    } else {
        None
    }
}

/// Reads the header line of a goal.
pub fn match_goal_header<'a>(t: &'a [char]) -> (r: Option<(&'a [char], &'a [char])>)
    ensures
        match r {
            Some((title, config)) => goal_header(t@) == Some((title@, config@)),
            None => goal_header(t@) is None,
        },
{
    match strip_prefix(t, "## ") {
        Some(y) => {
            if find(t, '\n', 0) < t.len() || y.len() < 1 {
                return None;
            }
            let j = find(y, '{', 1);
            if y.len() - j > 2 && y[y.len() - 1] == '}' {
                let b = back_whitespace(y, j);
                let end: usize = if b < 1 {
                    1
                } else {
                    b
                };
                Some((slice_subrange(y, 0, end), slice_subrange(y, j + 1, y.len() - 1)))
            } else {
                None
            }
        },
        None => None,
    }
}

fn owned_or(o: Option<&[char]>, default: &str) -> (r: String)
    ensures
        r@ == value_or(slice_text(o), default@),
{
    match o {
        Some(s) => string_of(s),
        None => default.to_owned(),
    }
}

fn owned_or_empty(o: Option<&[char]>) -> (r: String)
    ensures
        r@ == value_or(slice_text(o), Seq::empty()),
{
    match o {
        Some(s) => string_of(s),
        None => String::new(),
    }
}

/// Makes the goal that a configuration text describes, from characters.
pub fn goal_from(title: &[char], config: &[char], description: &[char], id: String) -> (goal: Goal)
    ensures
        goal@ == goal_of(title@, config@, description@, id@),
{
    let pieces = split(config, ';');
    Goal {
        id,
        title: string_of(title),
        description: string_of(description),
        goal_type: owned_or(lookup(&pieces, "type"), "project"),
        kpi: owned_or_empty(lookup(&pieces, "kpi")),
        start_date: owned_or_empty(lookup(&pieces, "start")),
        end_date: owned_or_empty(lookup(&pieces, "end")),
        status: owned_or(lookup(&pieces, "status"), "planning"),
    }
}

/// Makes the goal that a configuration text describes.
pub fn parse_goal_config(title: &str, config_str: &str, description: &str, id: &str) -> (goal: Goal)
    ensures
        goal@ == goal_of(title@, config_str@, description@, id@),
{
    let t = chars_of(title);
    let c = chars_of(config_str);
    let d = chars_of(description);
    goal_from(t.as_slice(), c.as_slice(), d.as_slice(), id.to_owned())
}

} // verus!
