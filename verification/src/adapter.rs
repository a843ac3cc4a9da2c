//! The request targets the client derives: the endpoint for each call,
//! the SSH form of a repository URI, and the per-task clone directory.

use vstd::prelude::*;
use vstd::string::{StrSliceExecFns, StringExecFns};
use crate::ClientError;
use crate::strutil::{self, spec_find, spec_u64_dec};

verus! {

/// The endpoint listing the enrolled courses.
pub fn dashboard_uri(base: &str) -> (r: String)
    ensures
        r@ == base@ + "/api/courses/for-dashboard"@,
{
    let mut out: String = base.to_owned();
    out.append("/api/courses/for-dashboard");
    out
}

/// The endpoint answering the details of one exercise.
pub fn details_uri(base: &str, taskid: u64) -> (r: String)
    ensures
        r@ == base@ + "/api/exercises/"@ + spec_u64_dec(taskid as int) + "/details"@,
{
    let mut out: String = base.to_owned();
    out.append("/api/exercises/");
    let idstr = strutil::u64_to_dec(taskid);
    out.append(idstr.as_str());
    out.append("/details");
    out
}

/// The endpoint creating a participation in one exercise.
pub fn participations_uri(base: &str, taskid: u64) -> (r: String)
    ensures
        r@ == base@ + "/api/exercises/"@ + spec_u64_dec(taskid as int) + "/participations"@,
{
    let mut out: String = base.to_owned();
    out.append("/api/exercises/");
    let idstr = strutil::u64_to_dec(taskid);
    out.append(idstr.as_str());
    out.append("/participations");
    out
}

/// The endpoint answering the build logs of one result.
pub fn buildlogs_uri(base: &str, participation_id: u64, result_id: u64) -> (r: String)
    ensures
        r@ == base@ + "/api/repository/"@ + spec_u64_dec(participation_id as int)
            + "/buildlogs?resultId="@ + spec_u64_dec(result_id as int),
{
    let mut out: String = base.to_owned();
    out.append("/api/repository/");
    let pidstr = strutil::u64_to_dec(participation_id);
    out.append(pidstr.as_str());
    out.append("/buildlogs?resultId=");
    let ridstr = strutil::u64_to_dec(result_id);
    out.append(ridstr.as_str());
    out
}

/// The endpoint answering the per-test details of one result.
pub fn result_details_uri(base: &str, participation_id: u64, result_id: u64) -> (r: String)
    ensures
        r@ == base@ + "/api/participations/"@ + spec_u64_dec(participation_id as int)
            + "/results/"@ + spec_u64_dec(result_id as int) + "/details"@,
{
    let mut out: String = base.to_owned();
    out.append("/api/participations/");
    let pidstr = strutil::u64_to_dec(participation_id);
    out.append(pidstr.as_str());
    out.append("/results/");
    let ridstr = strutil::u64_to_dec(result_id);
    out.append(ridstr.as_str());
    out.append("/details");
    out
}

/// The endpoint of the login exchange.
pub fn login_uri(base: &str) -> (r: String)
    ensures
        r@ == base@ + "/api/public/authenticate"@,
{
    let mut out: String = base.to_owned();
    out.append("/api/public/authenticate");
    out
}

/// The SSH form of a repository URI: everything after the first `@`,
/// behind an SSH scheme and the `git` user.
pub open spec fn spec_derive_ssh_uri(s: Seq<char>) -> Option<Seq<char>> {
    match spec_find(s, '@') {
        None => None,
        Some(i) => Some("ssh://git@"@ + s.skip(i + 1)),
    }
}

/// Rewrites the repository URI a participation reports into the SSH
/// form the clone uses; a URI without `@` does not parse.
pub fn derive_ssh_uri(repo_uri: &str) -> (r: Result<String, ClientError>)
    ensures
        match r {
            Ok(u) => spec_derive_ssh_uri(repo_uri@) == Some(u@),
            Err(e) => spec_derive_ssh_uri(repo_uri@) is None && e is Parse,
        },
{
    let n = repo_uri.unicode_len();
    match strutil::find_char(repo_uri, '@') {
        None => Err(ClientError::Parse),
        Some(i) => {
            let suffix = repo_uri.substring_char(i + 1, n);
            let mut out: String = "ssh://git@".to_owned();
            out.append(suffix);
            proof {
                assert(repo_uri@.subrange(i + 1, n as int) =~= repo_uri@.skip(i + 1));
            }
            Ok(out)
        },
    }
}

/// The directory a task's repository is cloned into, named by the
/// task id so that two tasks never collide.
pub fn task_dir_name(taskid: u64) -> (r: String)
    ensures
        r@ == "artemis-task-"@ + spec_u64_dec(taskid as int),
{
    let mut out: String = "artemis-task-".to_owned();
    let idstr = strutil::u64_to_dec(taskid);
    out.append(idstr.as_str());
    out
}

} // verus!
