//! The file that a board is read from, and what becomes of an attempt to
//! read it. Nothing here touches a file: the caller asks the file system
//! and hands over what it said.

use crate::project::{parse_project_info_from_markdown, project_info_of, ProjectInfo};
use crate::task::{parse_tasks_from_markdown, tasks_fit, Task};
use crate::text::lines_of;
use vstd::prelude::*;
use vstd::string::StringExecFns;

verus! {

/// The path of the file that is open, if one is.
#[derive(Debug, Clone)]
pub struct Session {
    pub current_file: Option<String>,
}

/// The message for a failed read with the given cause.
pub open spec fn read_failure(detail: Seq<char>) -> Seq<char> {
    "Error reading file: "@ + detail
}

impl Session {
    /// A session with no file open.
    pub fn new() -> (s: Session)
        ensures
            s.current_file is None,
    {
        Session { current_file: None }
    }

    /// Opens the file at `file_path`, of which the file system said
    /// whether it exists. A file that exists becomes the open file; one
    /// that does not is refused, and the open file stays as it was.
    pub fn open_markdown_file(&mut self, file_path: String, exists: bool) -> (r: Result<
        bool,
        String,
    >)
        ensures
            exists ==> r == Ok::<bool, String>(true) && final(self).current_file == Some(file_path),
            !exists ==> (r matches Err(e) && e@ == "File does not exist"@) && *final(self) == *old(
                self,
            ),
    {
        if exists {
            self.current_file = Some(file_path);
            Ok(true)
        } else {
            Err("File does not exist".to_owned())
        }
    }

    /// The path of the open file; an error where none is open.
    pub fn current_path(&self) -> (r: Result<String, String>)
        ensures
            match self.current_file {
                Some(path) => r matches Ok(p) && p@ == path@,
                None => r matches Err(e) && e@ == "No file opened"@,
            },
    {
        match &self.current_file {
            Some(path) => Ok(path.clone()),
            None => Err("No file opened".to_owned()),
        }
    }
}

fn failed_read(detail: String) -> (e: String)
    ensures
        e@ == read_failure(detail@),
{
    let mut e = "Error reading file: ".to_owned();
    e.append(detail.as_str());
    e
}

/// The tasks of the open file, from what reading it gave: the file's text,
/// or the cause of the failure.
pub fn tasks_from_read(read: Result<String, String>) -> (r: Result<Vec<Task>, String>)
    ensures
        match read {
            Ok(content) => r matches Ok(tasks) && tasks_fit(tasks@, lines_of(content@)),
            Err(detail) => r matches Err(e) && e@ == read_failure(detail@),
        },
{
    match read {
        Ok(content) => Ok(parse_tasks_from_markdown(content.as_str())),
        Err(detail) => Err(failed_read(detail)),
    }
}

/// The project of the open file, from what reading it gave: the file's
/// text, or the cause of the failure.
pub fn project_info_from_read(read: Result<String, String>) -> (r: Result<ProjectInfo, String>)
    ensures
        match read {
            Ok(content) => r matches Ok(info) && info@ == project_info_of(content@),
            Err(detail) => r matches Err(e) && e@ == read_failure(detail@),
        },
{
    match read {
        Ok(content) => Ok(parse_project_info_from_markdown(content.as_str())),
        Err(detail) => Err(failed_read(detail)),
    }
}

} // verus!
