use regex::Regex;
use taskboard_md::{
    generate_task_id, match_task_line, parse_single_task, parse_task_config,
    parse_tasks_from_markdown, task_from_line, task_id_from_millis,
};

fn strings(items: &[&str]) -> Vec<String> {
    items.iter().map(|s| s.to_string()).collect()
}

#[test]
fn line_with_id_and_config_under_a_section() {
    let tasks = parse_tasks_from_markdown(
        "## Today\n- [ ] (abc) Buy milk {priority: 2; tag: [home, errand]}",
    );
    assert_eq!(tasks.len(), 1);
    let task = &tasks[0];
    assert_eq!(task.id, "abc");
    assert_eq!(task.title, "Buy milk");
    assert!(!task.completed);
    assert_eq!(task.section, "Today");
    assert_eq!(task.config.priority, Some(2));
    assert_eq!(task.config.tag, Some(strings(&["home", "errand"])));
    assert_eq!(task.config.assignee, None);
    assert_eq!(task.config.effort, None);
    assert_eq!(task.config.due_date, None);
    assert_eq!(task.config.blocked_by, None);
    assert_eq!(task.config.milestone, None);
    assert_eq!(task.description, Some(Vec::new()));
    assert!(matches!(&task.children, Some(c) if c.is_empty()));
    assert_eq!(task.parent_id, None);
}

#[test]
fn line_without_id_gets_a_generated_id() {
    let tasks = parse_tasks_from_markdown("- [x] Ship release");
    assert_eq!(tasks.len(), 1);
    assert!(tasks[0].completed);
    assert_eq!(tasks[0].title, "Ship release");
    assert_eq!(tasks[0].section, "");
    assert!(tasks[0].id.starts_with("task_"));
    assert!(tasks[0].id.len() > "task_".len());
    assert!(tasks[0].id["task_".len()..].chars().all(|c| c.is_ascii_digit()));
}

#[test]
fn generated_id_is_prefix_and_milliseconds() {
    assert_eq!(task_id_from_millis(0), "task_0");
    assert_eq!(task_id_from_millis(7), "task_7");
    assert_eq!(task_id_from_millis(1_700_000_000_123), "task_1700000000123");
    assert_eq!(task_id_from_millis(u128::MAX), format!("task_{}", u128::MAX));
    assert_ne!(task_id_from_millis(41), task_id_from_millis(42));
    let id = generate_task_id();
    assert!(id.starts_with("task_"));
    let ms: u128 = id["task_".len()..].parse().unwrap();
    assert!(ms > 1_600_000_000_000);
}

#[test]
fn only_blank_and_x_mark_a_task() {
    assert_eq!(match_task_line("- [ ] a").map(|l| l.completed), Some(false));
    assert_eq!(match_task_line("- [x] a").map(|l| l.completed), Some(true));
    for mark in ["X", "-", "*", "o", "✓", "", "  ", "xx"] {
        let line = format!("- [{}] a", mark);
        assert!(match_task_line(&line).is_none(), "{}", line);
    }
    assert!(match_task_line("* [ ] a").is_none());
    assert!(match_task_line("-[ ] a").is_none());
    assert!(match_task_line("- [ ]").is_none());
    assert!(match_task_line("- [ ]   ").is_none());
    assert!(match_task_line("").is_none());
    assert!(match_task_line("Buy milk").is_none());
    assert!(match_task_line("- [ ] a\nb").is_none());
}

#[test]
fn parts_of_a_checklist_line() {
    let line = match_task_line("  \t- [x] (t-1) Write the report  {assignee: ann}  ").unwrap();
    assert_eq!(line.indent, 3);
    assert!(line.completed);
    assert_eq!(line.id.as_deref(), Some("t-1"));
    assert_eq!(line.title, "Write the report");
    assert_eq!(line.config.as_deref(), Some("assignee: ann"));

    let line = match_task_line("- [ ] plain title").unwrap();
    assert_eq!(line.indent, 0);
    assert_eq!(line.id, None);
    assert_eq!(line.title, "plain title");
    assert_eq!(line.config, None);
}

#[test]
fn edges_of_the_line_grammar() {
    let parts = |s: &str| {
        match_task_line(s).map(|l| (l.id, l.title, l.config))
    };
    let some = |id: Option<&str>, title: &str, config: Option<&str>| {
        Some((id.map(String::from), title.to_string(), config.map(String::from)))
    };
    assert_eq!(parts("- [ ](a)b{c}"), some(Some("a"), "b", Some("c")));
    assert_eq!(parts("- [ ]b"), some(None, "b", None));
    assert_eq!(parts("- [ ] (abc)"), some(None, "(abc)", None));
    assert_eq!(parts("- [ ] () x"), some(None, "() x", None));
    assert_eq!(parts("- [ ] (a)(b) c"), some(Some("a"), "(b) c", None));
    assert_eq!(parts("- [ ] (a) {c}"), some(Some("a"), "{c}", None));
    assert_eq!(parts("- [ ] {c}"), some(None, "{c}", None));
    assert_eq!(parts("- [ ] a {}"), some(None, "a {}", None));
    assert_eq!(parts("- [ ] a {b} {c}"), some(None, "a {b}", Some("c")));
    assert_eq!(parts("- [ ] a {b {c}"), some(None, "a", Some("b {c")));
    assert_eq!(parts("- [ ] a {b}}"), some(None, "a {b}}", None));
    assert_eq!(parts("- [ ] a {b} c"), some(None, "a {b} c", None));
    assert_eq!(parts("- [ ] a{ b }"), some(None, "a", Some(" b ")));
    assert_eq!(parts("- [ ] (a b) c"), some(Some("a b"), "c", None));
    assert_eq!(parts("- [ ] (a c"), some(None, "(a c", None));
}

#[test]
fn title_is_trimmed_and_not_empty() {
    for s in [
        "- [ ] a",
        "- [ ]    a   ",
        "- [ ] a    {b: c}",
        "- [x] (i)   a b   {k: v}   ",
        "\u{3000}- [ ]\u{a0}title\u{2003}{x: y}\u{2028}",
    ] {
        let line = match_task_line(s).unwrap();
        assert!(!line.title.is_empty(), "{:?}", s);
        assert_eq!(line.title.trim(), line.title, "{:?}", s);
    }
    let line = match_task_line("\u{3000}- [ ]\u{a0}title\u{2003}{x: y}\u{2028}").unwrap();
    assert_eq!(line.indent, 1);
    assert_eq!(line.title, "title");
    assert_eq!(line.config.as_deref(), Some("x: y"));
}

fn line_pattern() -> Regex {
    Regex::new(r"^(\s*)- \[([ x])\](?:\s*\(([^)]+)\))?\s*(.+?)(?:\s*\{([^}]+)\})?$").unwrap()
}

fn by_pattern(
    pattern: &Regex,
    line: &str,
) -> Option<(bool, Option<String>, String, Option<String>)> {
    pattern.captures(line.trim()).map(|c| {
        (
            c.get(2).unwrap().as_str() == "x",
            c.get(3).map(|m| m.as_str().to_string()),
            c.get(4).unwrap().as_str().to_string(),
            c.get(5).map(|m| m.as_str().to_string()),
        )
    })
}

fn by_library(line: &str) -> Option<(bool, Option<String>, String, Option<String>)> {
    match_task_line(line).map(|l| (l.completed, l.id, l.title, l.config))
}

#[test]
fn line_grammar_agrees_with_the_pattern_on_chosen_lines() {
    let pattern = line_pattern();
    for line in [
        "- [ ] a",
        "- [x] a",
        "- [X] a",
        "- [ ]",
        "- [ ] ",
        "- [ ]a",
        "  - [ ] indented",
        "- [ ] (id) title",
        "- [ ] (id)title",
        "- [ ](id) title",
        "- [ ] (id)",
        "- [ ] (id) ",
        "- [ ] ( ) x",
        "- [ ] () x",
        "- [ ] (a)(b)",
        "- [ ] (a)(b) c",
        "- [ ] (a) (b) c {d}",
        "- [ ] ((a)) b",
        "- [ ] (a {b}) c",
        "- [ ] (a {b})",
        "- [ ] a (b) c",
        "- [ ] a {b}",
        "- [ ] a{b}",
        "- [ ] a  \t {b}",
        "- [ ] {b}",
        "- [ ]  {b}",
        "- [ ] {b} {c}",
        "- [ ] {{b}",
        "- [ ] a {{b}",
        "- [ ] a {b}}",
        "- [ ] a {}",
        "- [ ] a { }",
        "- [ ] a {b} ",
        "- [ ] a {b} c",
        "- [ ] a {b} {c} {d}",
        "- [ ] a { {b} }",
        "- [ ] a }{b}",
        "- [ ] a {b}{c}",
        "- [ ] (x) {y}",
        "- [ ] (x){y}",
        "- [ ] a\r",
        "- [ ] a\u{a0}{b}",
        "-  [ ] a",
        "- [  ] a",
        "-[ ] a",
        "# - [ ] a",
        "## Today",
        "- [ ] ## not a header",
    ] {
        assert_eq!(by_library(line), by_pattern(&pattern, line), "{:?}", line);
    }
}

#[test]
fn line_grammar_agrees_with_the_pattern_on_many_lines() {
    let pattern = line_pattern();
    let alphabet: Vec<char> = " -[]x(){}a:\t".chars().collect();
    let mut state: u64 = 0x2545F4914F6CDD1D;
    let mut checked = 0;
    for round in 0..4000 {
        let mut line = String::new();
        if round % 3 != 0 {
            line.push_str(if round % 2 == 0 { "- [ ]" } else { "- [x]" });
        }
        state ^= state << 13;
        state ^= state >> 7;
        state ^= state << 17;
        let len = (state % 12) as usize;
        for _ in 0..len {
            state ^= state << 13;
            state ^= state >> 7;
            state ^= state << 17;
            line.push(alphabet[(state % alphabet.len() as u64) as usize]);
        }
        assert_eq!(by_library(&line), by_pattern(&pattern, &line), "{:?}", line);
        checked += 1;
    }
    assert_eq!(checked, 4000);
}

#[test]
fn tasks_stand_under_the_last_section_header() {
    let doc = "- [ ] (first) before any section\n\
               ## Today\n\
               - [ ] (a) one\n\
               some prose\n\
               - [x] (b) two\n\
               ##   Later  \n\
               \t- [ ] (c) three\n\
               # Top level does not count\n\
               - [ ] (d) four\n\
               ##NoSpace\n\
               - [ ] (e) five\n";
    let tasks = parse_tasks_from_markdown(doc);
    let got: Vec<(&str, &str, &str, bool)> = tasks
        .iter()
        .map(|t| (t.id.as_str(), t.title.as_str(), t.section.as_str(), t.completed))
        .collect();
    assert_eq!(
        got,
        vec![
            ("first", "before any section", "", false),
            ("a", "one", "Today", false),
            ("b", "two", "Today", true),
            ("c", "three", "Later", false),
            ("d", "four", "Later", false),
            ("e", "five", "Later", false),
        ]
    );
}

#[test]
fn document_without_tasks_gives_none() {
    assert!(parse_tasks_from_markdown("").is_empty());
    assert!(parse_tasks_from_markdown("# Title\n\nprose\n## Section\n").is_empty());
    assert!(parse_tasks_from_markdown("- [y] no\n- [] no\n-[ ] no").is_empty());
}

#[test]
fn windows_line_ends_do_not_reach_the_titles() {
    let tasks = parse_tasks_from_markdown("## S\r\n- [ ] (a) one {effort: 3}\r\n- [x] (b) two\r\n");
    assert_eq!(tasks.len(), 2);
    assert_eq!(tasks[0].title, "one");
    assert_eq!(tasks[0].config.effort, Some(3));
    assert_eq!(tasks[0].section, "S");
    assert_eq!(tasks[1].title, "two");
}

#[test]
fn every_task_has_an_id_and_a_title() {
    let doc = "- [ ] a\n- [x] (k) b\n- [ ] (z)\n- [ ] {c}\n  - [ ] d {priority: 1}";
    let tasks = parse_tasks_from_markdown(doc);
    assert_eq!(tasks.len(), 5);
    for task in &tasks {
        assert!(!task.id.is_empty());
        assert!(!task.title.is_empty());
        assert_eq!(task.title.trim(), task.title);
    }
    assert_eq!(tasks[1].id, "k");
    assert_eq!(tasks[2].title, "(z)");
    assert!(tasks[2].id.starts_with("task_"));
}

#[test]
fn single_task_gives_the_task_and_the_next_index() {
    let lines = ["intro", "- [x] (n1) Done thing {milestone: m2}", "- [ ] other"];
    assert!(parse_single_task(&lines, 0, "S").is_none());
    let (task, next) = parse_single_task(&lines, 1, "S").unwrap();
    assert_eq!(next, 2);
    assert_eq!(task.id, "n1");
    assert_eq!(task.title, "Done thing");
    assert!(task.completed);
    assert_eq!(task.section, "S");
    assert_eq!(task.config.milestone.as_deref(), Some("m2"));
    let (task, next) = parse_single_task(&lines, 2, "").unwrap();
    assert_eq!(next, 3);
    assert!(task.id.starts_with("task_"));
    assert_eq!(task.section, "");
}

#[test]
fn task_from_line_uses_the_fallback_only_without_an_id() {
    let line = match_task_line("- [ ] (own) t {effort: 5}").unwrap();
    let task = task_from_line(line, "S".to_string(), "spare".to_string());
    assert_eq!(task.id, "own");
    assert_eq!(task.config.effort, Some(5));
    let line = match_task_line("- [ ] t").unwrap();
    let task = task_from_line(line, "S".to_string(), "spare".to_string());
    assert_eq!(task.id, "spare");
    assert_eq!(task.title, "t");
    assert_eq!(task.section, "S");
    assert_eq!(task.config.effort, None);
}

#[test]
fn config_fields_and_their_coercions() {
    let c = parse_task_config(
        "assignee: ann ; effort: 3; due_date: 2024-05-01; priority: 1; milestone: v1 ; \
         tag: [a, b , c]; blocked_by: [t1,t2]",
    );
    assert_eq!(c.assignee.as_deref(), Some("ann"));
    assert_eq!(c.effort, Some(3));
    assert_eq!(c.due_date.as_deref(), Some("2024-05-01"));
    assert_eq!(c.priority, Some(1));
    assert_eq!(c.milestone.as_deref(), Some("v1"));
    assert_eq!(c.tag, Some(strings(&["a", "b", "c"])));
    assert_eq!(c.blocked_by, Some(strings(&["t1", "t2"])));
}

#[test]
fn empty_config_sets_nothing() {
    for text in ["", " ", ";", ";;", "no entry here"] {
        let c = parse_task_config(text);
        assert_eq!(c.assignee, None);
        assert_eq!(c.effort, None);
        assert_eq!(c.tag, None);
        assert_eq!(c.due_date, None);
        assert_eq!(c.priority, None);
        assert_eq!(c.blocked_by, None);
        assert_eq!(c.milestone, None);
    }
}

#[test]
fn numbers_that_do_not_parse_stay_unset() {
    assert_eq!(parse_task_config("effort: three").effort, None);
    assert_eq!(parse_task_config("effort: -1").effort, None);
    assert_eq!(parse_task_config("effort: 1.5").effort, None);
    assert_eq!(parse_task_config("effort: ").effort, None);
    assert_eq!(parse_task_config("effort: 4294967296").effort, None);
    assert_eq!(parse_task_config("effort: 4294967295").effort, Some(u32::MAX));
    assert_eq!(parse_task_config("effort: +7").effort, Some(7));
    assert_eq!(parse_task_config("effort: 007").effort, Some(7));
    assert_eq!(parse_task_config("priority: high").priority, None);
    assert_eq!(parse_task_config("priority: 0").priority, Some(0));
    assert_eq!(parse_task_config("priority: 1.5").priority, None);
    assert_eq!(parse_task_config("priority: ").priority, None);
    assert_eq!(parse_task_config("priority: -").priority, None);
    assert_eq!(parse_task_config("priority: 2; priority: x").priority, None);
    assert_eq!(parse_task_config("effort: 3; effort: x").effort, None);
    assert_eq!(parse_task_config("effort: x; effort: 3").effort, Some(3));
}

#[test]
fn priority_is_any_integer_and_effort_is_not_negative() {
    let c = parse_task_config("priority: -1");
    assert_eq!(c.priority, Some(-1));
    assert_eq!(c.assignee, None);
    assert_eq!(c.effort, None);
    assert_eq!(c.tag, None);
    assert_eq!(c.due_date, None);
    assert_eq!(c.blocked_by, None);
    assert_eq!(c.milestone, None);
    assert_eq!(parse_task_config("priority: +3").priority, Some(3));
    assert_eq!(parse_task_config("priority: -0").priority, Some(0));
    assert_eq!(parse_task_config("priority: 4294967296").priority, Some(4294967296));
    assert_eq!(parse_task_config("priority: 9223372036854775807").priority, Some(i64::MAX));
    assert_eq!(parse_task_config("priority: 9223372036854775808").priority, None);
    assert_eq!(parse_task_config("priority: -9223372036854775808").priority, Some(i64::MIN));
    assert_eq!(parse_task_config("priority: -9223372036854775809").priority, None);
    assert_eq!(parse_task_config("priority: - 1").priority, None);
    assert_eq!(parse_task_config("priority: --1").priority, None);
    let c = parse_task_config("effort: -1; priority: -1");
    assert_eq!(c.effort, None);
    assert_eq!(c.priority, Some(-1));
    let tasks = parse_tasks_from_markdown("- [ ] (a) t {priority: -5}");
    assert_eq!(tasks[0].config.priority, Some(-5));
}

#[test]
fn unknown_keys_leave_no_trace() {
    let with = parse_task_config("foo: bar; priority: 2; baz: [1, 2]; tag: [x]; Priority: 9");
    let without = parse_task_config("priority: 2; tag: [x]");
    assert_eq!(with.priority, without.priority);
    assert_eq!(with.tag, without.tag);
    assert_eq!(with.assignee, None);
    assert_eq!(with.effort, None);
    assert_eq!(with.due_date, None);
    assert_eq!(with.blocked_by, None);
    assert_eq!(with.milestone, None);
    let alone = parse_task_config("foo: bar");
    assert_eq!(alone.priority, None);
    assert_eq!(alone.assignee, None);
    let tasks = parse_tasks_from_markdown("- [ ] (a) t {foo: bar; effort: 1}");
    assert_eq!(tasks.len(), 1);
    assert_eq!(tasks[0].config.effort, Some(1));
}

#[test]
fn entries_need_exactly_one_colon() {
    assert_eq!(parse_task_config("assignee").assignee, None);
    assert_eq!(parse_task_config("assignee: a: b").assignee, None);
    assert_eq!(parse_task_config("due_date: 12:30").due_date, None);
    assert_eq!(parse_task_config("assignee:").assignee.as_deref(), Some(""));
    assert_eq!(parse_task_config(" assignee :  a b ").assignee.as_deref(), Some("a b"));
    assert_eq!(parse_task_config("assignee: a; assignee: b").assignee.as_deref(), Some("b"));
    assert_eq!(
        parse_task_config("assignee: a; assignee: b: c").assignee.as_deref(),
        Some("a")
    );
}

#[test]
fn lists_lose_one_bracket_at_each_end() {
    assert_eq!(parse_task_config("tag: [a]").tag, Some(strings(&["a"])));
    assert_eq!(parse_task_config("tag: a, b").tag, Some(strings(&["a", "b"])));
    assert_eq!(parse_task_config("tag: [a, b").tag, Some(strings(&["a", "b"])));
    assert_eq!(parse_task_config("tag: a, b]").tag, Some(strings(&["a", "b"])));
    assert_eq!(parse_task_config("tag: [[a]]").tag, Some(strings(&["[a]"])));
    assert_eq!(parse_task_config("tag: []").tag, Some(strings(&[""])));
    assert_eq!(parse_task_config("tag: [").tag, Some(strings(&[""])));
    assert_eq!(parse_task_config("tag: ]").tag, Some(strings(&[""])));
    assert_eq!(parse_task_config("tag:").tag, Some(strings(&[""])));
    assert_eq!(parse_task_config("tag: [a,,b, ]").tag, Some(strings(&["a", "", "b", ""])));
    assert_eq!(parse_task_config("tag: [a, a, b]").tag, Some(strings(&["a", "a", "b"])));
    assert_eq!(parse_task_config("blocked_by: [ x , y ]").blocked_by, Some(strings(&["x", "y"])));
}
