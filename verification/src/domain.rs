//! The typed domain entities that the parser produces from API payloads,
//! together with their mathematical views.

use vstd::prelude::*;
use crate::strutil;

verus! {

/// An exercise of a course, as the dashboard listing reports it.
#[derive(Debug, Clone)]
pub struct Task {
    /// Unique within its course.
    pub id: u64,
    pub title: String,
    /// Whether participation has been started.
    pub is_active: bool,
    /// Whether any grading result scored a full 100 percent.
    pub completed: bool,
    /// The repository, present once participation exists.
    pub repo_uri: Option<String>,
}

/// The mathematical value of a [`Task`].
pub struct TaskView {
    pub id: u64,
    pub title: Seq<char>,
    pub is_active: bool,
    pub completed: bool,
    pub repo_uri: Option<Seq<char>>,
}

/// The characters of an optional string.
pub open spec fn view_opt_str(o: Option<String>) -> Option<Seq<char>> {
    match o {
        Some(s) => Some(s@),
        None => None,
    }
}

impl View for Task {
    type V = TaskView;

    open spec fn view(&self) -> TaskView {
        TaskView {
            id: self.id,
            title: self.title@,
            is_active: self.is_active,
            completed: self.completed,
            repo_uri: view_opt_str(self.repo_uri),
        }
    }
}

/// An enrolled course with its ordered exercises.
#[derive(Debug, Clone)]
pub struct Course {
    pub id: u64,
    pub title: String,
    pub description: String,
    pub tasks: Vec<Task>,
}

/// The mathematical value of a [`Course`].
pub struct CourseView {
    pub id: u64,
    pub title: Seq<char>,
    pub description: Seq<char>,
    pub tasks: Seq<TaskView>,
}

impl View for Course {
    type V = CourseView;

    open spec fn view(&self) -> CourseView {
        CourseView {
            id: self.id,
            title: self.title@,
            description: self.description@,
            tasks: Seq::new(self.tasks@.len(), |i: int| self.tasks@[i]@),
        }
    }
}

/// One automated test of a grading run.
#[derive(Debug, Clone)]
pub struct Test {
    pub name: String,
    pub passed: bool,
    /// Present only when the test failed.
    pub explanation: Option<String>,
}

/// The mathematical value of a [`Test`].
pub struct TestView {
    pub name: Seq<char>,
    pub passed: bool,
    pub explanation: Option<Seq<char>>,
}

impl View for Test {
    type V = TestView;

    open spec fn view(&self) -> TestView {
        TestView {
            name: self.name@,
            passed: self.passed,
            explanation: view_opt_str(self.explanation),
        }
    }
}

/// One line of a build log, shown when a submission failed to build.
#[derive(Debug, Clone)]
pub struct LogStatement {
    /// The timestamp text as the build-log payload carries it.
    pub time: String,
    pub log: String,
}

/// The mathematical value of a [`LogStatement`].
pub struct LogStatementView {
    pub time: Seq<char>,
    pub log: Seq<char>,
}

impl View for LogStatement {
    type V = LogStatementView;

    open spec fn view(&self) -> LogStatementView {
        LogStatementView {
            time: self.time@,
            log: self.log@,
        }
    }
}

/// How a build-log line is highlighted when displayed.
#[derive(Debug, Clone, Copy, PartialEq, Eq, Structural)]
pub enum LogLevel {
    Error,
    Info,
    Plain,
}

/// The level a log line is classified as: by the marker it starts with.
pub open spec fn spec_log_level(line: Seq<char>) -> LogLevel {
    if strutil::spec_has_prefix(line, "[ERROR]"@) {
        LogLevel::Error
    } else if strutil::spec_has_prefix(line, "[INFO]"@) {
        LogLevel::Info
    } else {
        LogLevel::Plain
    }
}

impl LogStatement {
    /// Classifies this line for display by the marker it starts with.
    pub fn level(&self) -> (r: LogLevel)
        ensures
            r == spec_log_level(self.log@),
    {
        if strutil::has_prefix(self.log.as_str(), "[ERROR]") {
            LogLevel::Error
        } else if strutil::has_prefix(self.log.as_str(), "[INFO]") {
            LogLevel::Info
        } else {
            LogLevel::Plain
        }
    }
}

} // verus!
