//! A verified core for a command-line client of a university
//! learning-management API: typed domain entities parsed from JSON
//! payloads, the session retry state machine, configuration handling,
//! and the small string computations around the git repository adapter.

use vstd::prelude::*;

mod adapter;
mod config;
mod domain;
mod json;
mod parser;
mod session;
mod strutil;
mod time;

pub use adapter::{buildlogs_uri, dashboard_uri, derive_ssh_uri, details_uri, login_uri, participations_uri, result_details_uri, spec_derive_ssh_uri, task_dir_name};
pub use config::{parse_config, render_config, ArtemisConfig, lemma_config_round_trip, spec_config_prefix, spec_escape, spec_escape_char, spec_parse_body, spec_parse_config, spec_render_config, spec_unescape_char};
pub use domain::{Course, CourseView, LogLevel, LogStatement, LogStatementView, Task, TaskView,
    Test, TestView, spec_log_level, view_opt_str};
pub use json::JsonValue;
pub use session::{ReplyStep, RequestFsm, SessionAction, SessionEvent, SessionState, lemma_single_retry, login_outcome, reply_error, session_step, spec_is_success, spec_is_unauthorized, spec_reply_step, spec_session_step};
pub use parser::{lemma_no_participation_inactive, lemma_full_score_completes, lemma_no_results_incomplete, parse_build_logs, parse_test_result_details, spec_parse_build_logs, spec_parse_log, spec_parse_logs, spec_parse_test, spec_parse_test_details, spec_parse_tests, ExerciseDetails, ResultMeta, lemma_latest_is_max, parse_exercise_details, spec_exercise_details, spec_latest, spec_result_meta, spec_result_metas, parse_course, parse_dashboard, parse_task, spec_course_entry, spec_parse_course, spec_parse_course_list, spec_parse_dashboard, spec_parse_tasks, spec_all_scored, spec_completed, spec_parse_participation, spec_parse_task, spec_result_has_score, spec_score_is_full};
pub use time::rfc3339_millis;
pub use strutil::{find_char, has_prefix, spec_find, spec_has_prefix, spec_u64_dec, u64_to_dec};

verus! {

/// The error taxonomy of the client.
#[derive(Clone, Debug)]
pub enum ClientError {
    /// Login failed, or a request stayed unauthorized after one re-login.
    Authentication,
    /// A request came back with a non-success status other than unauthorized.
    Fetch { uri: String, status: u16 },
    /// A JSON payload missed a field or held one of the wrong type.
    Parse,
    /// A git clone, commit or push failed.
    Repository,
}

} // verus!
