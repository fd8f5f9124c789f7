//! Reading a task board out of a markdown document: checklist lines with
//! inline configuration, notes, goals and the project's description.

pub mod block;
pub mod checklist;
pub mod config;
pub mod goal;
pub mod number;
pub mod project;
pub mod session;
pub mod task;
pub mod task_config;
pub mod text;

pub use checklist::{match_task_line, TaskLine};
pub use goal::{parse_goal_config, Goal};
pub use project::{parse_project_info_from_markdown, Note, ProjectInfo};
pub use session::{project_info_from_read, tasks_from_read, Session};
pub use task::{
    generate_task_id, parse_single_task, parse_tasks_from_markdown, task_from_line,
    task_id_from_millis, Task,
};
pub use task_config::{parse_task_config, TaskConfig};
