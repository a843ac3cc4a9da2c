//! The domain parser: pure functions from JSON trees to typed entities.
//!
//! Every missing or mistyped field is a [`ClientError::Parse`]; the
//! specification functions beside each parser say exactly which trees
//! parse and to what.

use vstd::prelude::*;
use crate::ClientError;
use crate::domain::{Course, CourseView, LogStatement, LogStatementView, Task, TaskView, Test,
    TestView};
use crate::json::JsonValue;
use crate::time::{parse_rfc3339_millis, rfc3339_millis};

verus! {

/// Whether this grading result carries a numeric score.
pub open spec fn spec_result_has_score(r: JsonValue) -> bool {
    r.spec_get("score"@) matches Some(v) && v is Num
}

/// Whether this grading result scored a full 100 percent.
pub open spec fn spec_score_is_full(r: JsonValue) -> bool {
    r.spec_get("score"@) matches Some(v) && v.spec_is_whole(100)
}

/// Whether every result of `results` carries a numeric score.
pub open spec fn spec_all_scored(results: Seq<JsonValue>) -> bool {
    forall|i: int| 0 <= i < results.len() ==> spec_result_has_score(#[trigger] results[i])
}

/// Whether at least one result of `results` scored a full 100 percent.
pub open spec fn spec_completed(results: Seq<JsonValue>) -> bool {
    exists|i: int| 0 <= i < results.len() && spec_score_is_full(#[trigger] results[i])
}

/// The task parsed from the participation `p` of a task with the given
/// id and title: active, with its repository, and completed exactly
/// when some result scored a full 100 percent.
pub open spec fn spec_parse_participation(id: u64, title: Seq<char>, p: JsonValue) -> Option<
    TaskView,
> {
    match p.spec_get("repositoryUri"@) {
        None => None,
        Some(uriv) => match uriv.spec_as_str() {
            None => None,
            Some(uri) => match p.spec_get("results"@) {
                None => Some(
                    TaskView { id, title, is_active: true, completed: false, repo_uri: Some(uri) },
                ),
                Some(resv) => match resv.spec_as_arr() {
                    None => None,
                    Some(results) => if spec_all_scored(results) {
                        Some(
                            TaskView {
                                id,
                                title,
                                is_active: true,
                                completed: spec_completed(results),
                                repo_uri: Some(uri),
                            },
                        )
                    } else {
                        None
                    },
                },
            },
        },
    }
}

/// The task parsed from one element of a course's exercise listing.
/// A task without participation data is inactive and not completed.
pub open spec fn spec_parse_task(j: JsonValue) -> Option<TaskView> {
    match j.spec_get("id"@) {
        None => None,
        Some(idv) => match idv.spec_as_u64() {
            None => None,
            Some(id) => match j.spec_get("title"@) {
                None => None,
                Some(titlev) => match titlev.spec_as_str() {
                    None => None,
                    Some(title) => match j.spec_get("studentParticipations"@) {
                        None => Some(
                            TaskView {
                                id,
                                title,
                                is_active: false,
                                completed: false,
                                repo_uri: None,
                            },
                        ),
                        Some(partsv) => match partsv.spec_as_arr() {
                            None => None,
                            Some(parts) => if parts.len() == 0 {
                                None
                            } else {
                                spec_parse_participation(id, title, parts[0])
                            },
                        },
                    },
                },
            },
        },
    }
}

/// A later result seen makes the prefix completed exactly when it is
/// full or the prefix already was.
proof fn lemma_completed_push(results: Seq<JsonValue>, i: int)
    requires
        0 <= i < results.len(),
    ensures
        spec_completed(results.take(i + 1)) == (spec_completed(results.take(i))
            || spec_score_is_full(results[i])),
{
    let a = results.take(i);
    let b = results.take(i + 1);
    assert(b[i] == results[i]);
    if spec_completed(a) {
        let k = choose|k: int| 0 <= k < a.len() && spec_score_is_full(a[k]);
        assert(b[k] == a[k]);
        assert(spec_completed(b));
    }
    if spec_score_is_full(results[i]) {
        assert(spec_score_is_full(b[i]));
        assert(spec_completed(b));
    }
    if spec_completed(b) {
        let k = choose|k: int| 0 <= k < b.len() && spec_score_is_full(b[k]);
        if k < i {
            assert(a[k] == b[k]);
            assert(spec_completed(a));
        }
    }
}

/// Parses one exercise entry of a course listing into a [`Task`].
#[verifier::loop_isolation(false)]
pub fn parse_task(raw: &JsonValue) -> (r: Result<Task, ClientError>)
    ensures
        match r {
            Ok(t) => spec_parse_task(*raw) == Some(t@),
            Err(e) => spec_parse_task(*raw) is None && e is Parse,
        },
{
    let id = match raw.get("id") {
        Some(idv) => match idv.as_u64() {
            Some(id) => id,
            None => {
                return Err(ClientError::Parse);
            },
        },
        None => {
            return Err(ClientError::Parse);
        },
    };
    let title: String = match raw.get("title") {
        Some(titlev) => match titlev.as_str() {
            Some(t) => t.to_owned(),
            None => {
                return Err(ClientError::Parse);
            },
        },
        None => {
            return Err(ClientError::Parse);
        },
    };
    let parts = match raw.get("studentParticipations") {
        None => {
            return Ok(
                Task { id, title, is_active: false, completed: false, repo_uri: None },
            );
        },
        Some(partsv) => match partsv.as_array() {
            Some(parts) => parts,
            None => {
                return Err(ClientError::Parse);
            },
        },
    };
    if parts.len() == 0 {
        return Err(ClientError::Parse);
    }
    let p = &parts[0];
    let repo_uri: String = match p.get("repositoryUri") {
        Some(uriv) => match uriv.as_str() {
            Some(u) => u.to_owned(),
            None => {
                return Err(ClientError::Parse);
            },
        },
        None => {
            return Err(ClientError::Parse);
        },
    };
    let results = match p.get("results") {
        None => {
            return Ok(
                Task { id, title, is_active: true, completed: false, repo_uri: Some(repo_uri) },
            );
        },
        Some(resv) => match resv.as_array() {
            Some(results) => results,
            None => {
                return Err(ClientError::Parse);
            },
        },
    };
    let n = results.len();
    let mut completed = false;
    let mut i: usize = 0;
    while i < n
        invariant
            0 <= i <= n,
            n == results@.len(),
            forall|j: int| 0 <= j < i ==> spec_result_has_score(#[trigger] results@[j]),
            completed == spec_completed(results@.take(i as int)),
        decreases n - i,
    {
        let rv = &results[i];
        let full = match rv.get("score") {
            Some(score) => match score {
                JsonValue::Num(m) => *m == 100_000i64,
                _ => {
                    return Err(ClientError::Parse);
                },
            },
            None => {
                return Err(ClientError::Parse);
            },
        };
        proof {
            lemma_completed_push(results@, i as int);
        }
        completed = completed || full;
        i += 1;
    }
    proof {
        assert(results@.take(n as int) =~= results@);
    }
    Ok(Task { id, title, is_active: true, completed, repo_uri: Some(repo_uri) })
}

/// A task parsed from an entry without participation data is neither
/// active nor completed.
pub proof fn lemma_no_participation_inactive(j: JsonValue, t: TaskView)
    requires
        spec_parse_task(j) == Some(t),
        j.spec_get("studentParticipations"@) is None,
    ensures
        !t.is_active,
        !t.completed,
{
}

/// A task whose participation holds at least one result with a full
/// score parses as completed.
pub proof fn lemma_full_score_completes(j: JsonValue, t: TaskView)
    requires
        spec_parse_task(j) == Some(t),
        ({
            &&& j.spec_get("studentParticipations"@) matches Some(partsv)
            &&& partsv.spec_as_arr() matches Some(parts)
            &&& parts.len() > 0
            &&& parts[0].spec_get("results"@) matches Some(resv)
            &&& resv.spec_as_arr() matches Some(results)
            &&& spec_completed(results)
        }),
    ensures
        t.completed,
{
}

/// A task parsed from an entry whose participation carries no results
/// is active but not completed.
pub proof fn lemma_no_results_incomplete(j: JsonValue, t: TaskView)
    requires
        spec_parse_task(j) == Some(t),
        ({
            &&& j.spec_get("studentParticipations"@) matches Some(partsv)
            &&& partsv.spec_as_arr() matches Some(parts)
            &&& parts.len() > 0
            &&& parts[0].spec_get("results"@) is None
        }),
    ensures
        t.is_active,
        !t.completed,
{
}

/// The tasks parsed from the exercise listing of a course, in order;
/// one exercise that does not parse fails the whole listing.
pub open spec fn spec_parse_tasks(elems: Seq<JsonValue>) -> Option<Seq<TaskView>>
    decreases elems.len(),
{
    if elems.len() == 0 {
        Some(Seq::empty())
    } else {
        match spec_parse_tasks(elems.drop_last()) {
            None => None,
            Some(rest) => match spec_parse_task(elems.last()) {
                None => None,
                Some(t) => Some(rest.push(t)),
            },
        }
    }
}

/// One exercise that does not parse fails the whole listing.
proof fn lemma_parse_tasks_none(elems: Seq<JsonValue>, i: int)
    requires
        0 <= i < elems.len(),
        spec_parse_task(elems[i]) is None,
    ensures
        spec_parse_tasks(elems) is None,
    decreases elems.len(),
{
    if i < elems.len() - 1 {
        assert(elems.drop_last()[i] == elems[i]);
        lemma_parse_tasks_none(elems.drop_last(), i);
    }
}

/// The course parsed from one course object of the dashboard listing.
pub open spec fn spec_parse_course(j: JsonValue) -> Option<CourseView> {
    match j.spec_get("id"@) {
        None => None,
        Some(idv) => match idv.spec_as_u64() {
            None => None,
            Some(id) => match j.spec_get("title"@) {
                None => None,
                Some(titlev) => match titlev.spec_as_str() {
                    None => None,
                    Some(title) => match j.spec_get("description"@) {
                        None => None,
                        Some(descv) => match descv.spec_as_str() {
                            None => None,
                            Some(description) => match j.spec_get("exercises"@) {
                                None => None,
                                Some(exv) => match exv.spec_as_arr() {
                                    None => None,
                                    Some(elems) => match spec_parse_tasks(elems) {
                                        None => None,
                                        Some(tasks) => Some(
                                            CourseView { id, title, description, tasks },
                                        ),
                                    },
                                },
                            },
                        },
                    },
                },
            },
        },
    }
}

/// Parses one course object of the dashboard listing into a [`Course`].
#[verifier::loop_isolation(false)]
pub fn parse_course(raw: &JsonValue) -> (r: Result<Course, ClientError>)
    ensures
        match r {
            Ok(c) => spec_parse_course(*raw) == Some(c@),
            Err(e) => spec_parse_course(*raw) is None && e is Parse,
        },
{
    let id = match raw.get("id") {
        Some(idv) => match idv.as_u64() {
            Some(id) => id,
            None => {
                return Err(ClientError::Parse);
            },
        },
        None => {
            return Err(ClientError::Parse);
        },
    };
    let title: String = match raw.get("title") {
        Some(titlev) => match titlev.as_str() {
            Some(t) => t.to_owned(),
            None => {
                return Err(ClientError::Parse);
            },
        },
        None => {
            return Err(ClientError::Parse);
        },
    };
    let description: String = match raw.get("description") {
        Some(descv) => match descv.as_str() {
            Some(d) => d.to_owned(),
            None => {
                return Err(ClientError::Parse);
            },
        },
        None => {
            return Err(ClientError::Parse);
        },
    };
    let elems = match raw.get("exercises") {
        Some(exv) => match exv.as_array() {
            Some(elems) => elems,
            None => {
                return Err(ClientError::Parse);
            },
        },
        None => {
            return Err(ClientError::Parse);
        },
    };
    let n = elems.len();
    let mut tasks: Vec<Task> = Vec::new();
    let mut i: usize = 0;
    while i < n
        invariant
            0 <= i <= n,
            n == elems@.len(),
            i == tasks@.len(),
            spec_parse_tasks(elems@.take(i as int)) == Some(
                Seq::new(tasks@.len(), |k: int| tasks@[k]@),
            ),
        decreases n - i,
    {
        let task = match parse_task(&elems[i]) {
            Ok(t) => t,
            Err(e) => {
                proof {
                    lemma_parse_tasks_none(elems@, i as int);
                }
                return Err(ClientError::Parse);
            },
        };
        proof {
            let pre = elems@.take(i as int);
            let post = elems@.take(i as int + 1);
            assert(post.drop_last() =~= pre);
            assert(post.last() == elems@[i as int]);
        }
        tasks.push(task);
        proof {
            assert(Seq::new(tasks@.len(), |k: int| tasks@[k]@) =~= Seq::new(
                (tasks@.len() - 1) as nat,
                |k: int| tasks@[k]@,
            ).push(tasks@.last()@));
        }
        i += 1;
    }
    proof {
        assert(elems@.take(n as int) =~= elems@);
    }
    Ok(Course { id, title, description, tasks })
}

/// The course parsed from one entry of the dashboard listing, which
/// wraps each course object under a `course` key.
pub open spec fn spec_course_entry(e: JsonValue) -> Option<CourseView> {
    match e.spec_get("course"@) {
        None => None,
        Some(c) => spec_parse_course(c),
    }
}

/// The courses parsed from the entries of the dashboard listing.
pub open spec fn spec_parse_course_list(elems: Seq<JsonValue>) -> Option<Seq<CourseView>>
    decreases elems.len(),
{
    if elems.len() == 0 {
        Some(Seq::empty())
    } else {
        match spec_parse_course_list(elems.drop_last()) {
            None => None,
            Some(rest) => match spec_course_entry(elems.last()) {
                None => None,
                Some(c) => Some(rest.push(c)),
            },
        }
    }
}

/// One entry that does not parse fails the whole listing.
proof fn lemma_parse_course_list_none(elems: Seq<JsonValue>, i: int)
    requires
        0 <= i < elems.len(),
        spec_course_entry(elems[i]) is None,
    ensures
        spec_parse_course_list(elems) is None,
    decreases elems.len(),
{
    if i < elems.len() - 1 {
        assert(elems.drop_last()[i] == elems[i]);
        lemma_parse_course_list_none(elems.drop_last(), i);
    }
}

/// The courses parsed from the dashboard payload, which lists the
/// enrolled courses under a `courses` key.
pub open spec fn spec_parse_dashboard(j: JsonValue) -> Option<Seq<CourseView>> {
    match j.spec_get("courses"@) {
        None => None,
        Some(cv) => match cv.spec_as_arr() {
            None => None,
            Some(elems) => spec_parse_course_list(elems),
        },
    }
}

/// Parses the dashboard payload into the list of enrolled courses.
#[verifier::loop_isolation(false)]
pub fn parse_dashboard(raw: &JsonValue) -> (r: Result<Vec<Course>, ClientError>)
    ensures
        match r {
            Ok(cs) => spec_parse_dashboard(*raw) == Some(
                Seq::new(cs@.len(), |k: int| cs@[k]@),
            ),
            Err(e) => spec_parse_dashboard(*raw) is None && e is Parse,
        },
{
    let elems = match raw.get("courses") {
        Some(cv) => match cv.as_array() {
            Some(elems) => elems,
            None => {
                return Err(ClientError::Parse);
            },
        },
        None => {
            return Err(ClientError::Parse);
        },
    };
    let n = elems.len();
    let mut courses: Vec<Course> = Vec::new();
    let mut i: usize = 0;
    while i < n
        invariant
            0 <= i <= n,
            n == elems@.len(),
            i == courses@.len(),
            spec_parse_course_list(elems@.take(i as int)) == Some(
                Seq::new(courses@.len(), |k: int| courses@[k]@),
            ),
        decreases n - i,
    {
        let entry = &elems[i];
        let course = match entry.get("course") {
            Some(c) => match parse_course(c) {
                Ok(c) => c,
                Err(e) => {
                    proof {
                        lemma_parse_course_list_none(elems@, i as int);
                    }
                    return Err(ClientError::Parse);
                },
            },
            None => {
                proof {
                    lemma_parse_course_list_none(elems@, i as int);
                }
                return Err(ClientError::Parse);
            },
        };
        proof {
            let pre = elems@.take(i as int);
            let post = elems@.take(i as int + 1);
            assert(post.drop_last() =~= pre);
            assert(post.last() == elems@[i as int]);
        }
        courses.push(course);
        proof {
            assert(Seq::new(courses@.len(), |k: int| courses@[k]@) =~= Seq::new(
                (courses@.len() - 1) as nat,
                |k: int| courses@[k]@,
            ).push(courses@.last()@));
        }
        i += 1;
    }
    proof {
        assert(elems@.take(n as int) =~= elems@);
    }
    Ok(courses)
}

/// What the exercise-details parser reads of one grading result: its
/// completion instant, its id, and whether its submission failed to
/// build.
#[derive(Debug, Clone, Copy, PartialEq, Eq, Structural)]
pub struct ResultMeta {
    /// Completion instant, in milliseconds since the Unix epoch.
    pub ts: i64,
    pub id: u64,
    pub build_failed: bool,
}

/// What a details request answers: which participation and which
/// result to ask about further, and whether that result's submission
/// failed to build.
#[derive(Debug, Clone, Copy, PartialEq, Eq, Structural)]
pub struct ExerciseDetails {
    pub participation_id: u64,
    pub result_id: u64,
    pub build_failed: bool,
}

/// The metadata read from one grading result of a details payload.
pub open spec fn spec_result_meta(r: JsonValue) -> Option<ResultMeta> {
    match r.spec_get("id"@) {
        None => None,
        Some(idv) => match idv.spec_as_u64() {
            None => None,
            Some(id) => match r.spec_get("completionDate"@) {
                None => None,
                Some(datev) => match datev.spec_as_str() {
                    None => None,
                    Some(date) => match rfc3339_millis(date) {
                        None => None,
                        Some(ts) => match r.spec_get("submission"@) {
                            None => None,
                            Some(sub) => match sub.spec_get("buildFailed"@) {
                                None => None,
                                Some(bfv) => match bfv.spec_as_bool() {
                                    None => None,
                                    Some(build_failed) => Some(
                                        ResultMeta { ts, id, build_failed },
                                    ),
                                },
                            },
                        },
                    },
                },
            },
        },
    }
}

/// The metadata of every result of a details payload, in order.
pub open spec fn spec_result_metas(rs: Seq<JsonValue>) -> Option<Seq<ResultMeta>>
    decreases rs.len(),
{
    if rs.len() == 0 {
        Some(Seq::empty())
    } else {
        match spec_result_metas(rs.drop_last()) {
            None => None,
            Some(rest) => match spec_result_meta(rs.last()) {
                None => None,
                Some(m) => Some(rest.push(m)),
            },
        }
    }
}

/// One result that does not parse fails the whole payload.
proof fn lemma_result_metas_none(rs: Seq<JsonValue>, i: int)
    requires
        0 <= i < rs.len(),
        spec_result_meta(rs[i]) is None,
    ensures
        spec_result_metas(rs) is None,
    decreases rs.len(),
{
    if i < rs.len() - 1 {
        assert(rs.drop_last()[i] == rs[i]);
        lemma_result_metas_none(rs.drop_last(), i);
    }
}

/// The latest of a run of results: the one with the greatest completion
/// instant, the later listed of two equally late ones.
pub open spec fn spec_latest(subs: Seq<ResultMeta>) -> ResultMeta
    recommends
        subs.len() > 0,
    decreases subs.len(),
{
    if subs.len() <= 1 {
        subs[0]
    } else {
        let prev = spec_latest(subs.drop_last());
        if subs.last().ts >= prev.ts {
            subs.last()
        } else {
            prev
        }
    }
}

/// Latest-result selection picks a result of the run, and one whose
/// completion instant no other result of the run exceeds.
pub proof fn lemma_latest_is_max(subs: Seq<ResultMeta>)
    requires
        subs.len() > 0,
    ensures
        exists|i: int| 0 <= i < subs.len() && subs[i] == spec_latest(subs),
        forall|i: int| 0 <= i < subs.len() ==> subs[i].ts <= spec_latest(subs).ts,
    decreases subs.len(),
{
    if subs.len() == 1 {
        assert(subs[0] == spec_latest(subs));
    } else {
        lemma_latest_is_max(subs.drop_last());
        let prev = spec_latest(subs.drop_last());
        let j = choose|j: int|
            0 <= j < subs.drop_last().len() && subs.drop_last()[j] == prev;
        assert(subs[j] == prev);
        if subs.last().ts >= prev.ts {
            assert(subs[subs.len() - 1] == spec_latest(subs));
        } else {
            assert(subs[j] == spec_latest(subs));
        }
        assert forall|i: int| 0 <= i < subs.len() implies subs[i].ts <= spec_latest(
            subs,
        ).ts by {
            if i < subs.len() - 1 {
                assert(subs.drop_last()[i] == subs[i]);
            }
        }
    }
}

/// The details parsed from an exercise-details payload: the first
/// participation's id and the latest result's id and build flag.
pub open spec fn spec_exercise_details(j: JsonValue) -> Option<ExerciseDetails> {
    match j.spec_get("exercise"@) {
        None => None,
        Some(ex) => match ex.spec_get("studentParticipations"@) {
            None => None,
            Some(pv) => match pv.spec_as_arr() {
                None => None,
                Some(parts) => if parts.len() == 0 {
                    None
                } else {
                    let p = parts[0];
                    match p.spec_get("id"@) {
                        None => None,
                        Some(pidv) => match pidv.spec_as_u64() {
                            None => None,
                            Some(pid) => match p.spec_get("results"@) {
                                None => None,
                                Some(rv) => match rv.spec_as_arr() {
                                    None => None,
                                    Some(rs) => match spec_result_metas(rs) {
                                        None => None,
                                        Some(subs) => if subs.len() == 0 {
                                            None
                                        } else {
                                            let m = spec_latest(subs);
                                            Some(
                                                ExerciseDetails {
                                                    participation_id: pid,
                                                    result_id: m.id,
                                                    build_failed: m.build_failed,
                                                },
                                            )
                                        },
                                    },
                                },
                            },
                        },
                    }
                },
            },
        },
    }
}

/// Reads the metadata of one grading result of a details payload.
fn parse_result_meta(rv: &JsonValue) -> (r: Result<ResultMeta, ClientError>)
    ensures
        match r {
            Ok(m) => spec_result_meta(*rv) == Some(m),
            Err(e) => spec_result_meta(*rv) is None && e is Parse,
        },
{
    let id = match rv.get("id") {
        Some(idv) => match idv.as_u64() {
            Some(id) => id,
            None => {
                return Err(ClientError::Parse);
            },
        },
        None => {
            return Err(ClientError::Parse);
        },
    };
    let ts = match rv.get("completionDate") {
        Some(datev) => match datev.as_str() {
            Some(date) => match parse_rfc3339_millis(date) {
                Some(ts) => ts,
                None => {
                    return Err(ClientError::Parse);
                },
            },
            None => {
                return Err(ClientError::Parse);
            },
        },
        None => {
            return Err(ClientError::Parse);
        },
    };
    let build_failed = match rv.get("submission") {
        Some(sub) => match sub.get("buildFailed") {
            Some(bfv) => match bfv.as_bool() {
                Some(b) => b,
                None => {
                    return Err(ClientError::Parse);
                },
            },
            None => {
                return Err(ClientError::Parse);
            },
        },
        None => {
            return Err(ClientError::Parse);
        },
    };
    Ok(ResultMeta { ts, id, build_failed })
}

/// Parses an exercise-details payload and selects the latest result.
#[verifier::loop_isolation(false)]
pub fn parse_exercise_details(raw: &JsonValue) -> (r: Result<ExerciseDetails, ClientError>)
    ensures
        match r {
            Ok(d) => spec_exercise_details(*raw) == Some(d),
            Err(e) => spec_exercise_details(*raw) is None && e is Parse,
        },
{
    let ex = match raw.get("exercise") {
        Some(ex) => ex,
        None => {
            return Err(ClientError::Parse);
        },
    };
    let parts = match ex.get("studentParticipations") {
        Some(pv) => match pv.as_array() {
            Some(parts) => parts,
            None => {
                return Err(ClientError::Parse);
            },
        },
        None => {
            return Err(ClientError::Parse);
        },
    };
    if parts.len() == 0 {
        return Err(ClientError::Parse);
    }
    let p = &parts[0];
    let pid = match p.get("id") {
        Some(pidv) => match pidv.as_u64() {
            Some(pid) => pid,
            None => {
                return Err(ClientError::Parse);
            },
        },
        None => {
            return Err(ClientError::Parse);
        },
    };
    let results = match p.get("results") {
        Some(rv) => match rv.as_array() {
            Some(results) => results,
            None => {
                return Err(ClientError::Parse);
            },
        },
        None => {
            return Err(ClientError::Parse);
        },
    };
    let n = results.len();
    let mut subs: Vec<ResultMeta> = Vec::new();
    let mut i: usize = 0;
    while i < n
        invariant
            0 <= i <= n,
            n == results@.len(),
            i == subs@.len(),
            spec_result_metas(results@.take(i as int)) == Some(subs@),
        decreases n - i,
    {
        let m = match parse_result_meta(&results[i]) {
            Ok(m) => m,
            Err(e) => {
                proof {
                    lemma_result_metas_none(results@, i as int);
                }
                return Err(ClientError::Parse);
            },
        };
        proof {
            let pre = results@.take(i as int);
            let post = results@.take(i as int + 1);
            assert(post.drop_last() =~= pre);
            assert(post.last() == results@[i as int]);
        }
        subs.push(m);
        i += 1;
    }
    proof {
        assert(results@.take(n as int) =~= results@);
    }
    if subs.len() == 0 {
        return Err(ClientError::Parse);
    }
    let mut best = subs[0];
    let mut k: usize = 1;
    while k < subs.len()
        invariant
            1 <= k <= subs@.len(),
            best == spec_latest(subs@.take(k as int)),
        decreases subs@.len() - k,
    {
        proof {
            let pre = subs@.take(k as int);
            let post = subs@.take(k as int + 1);
            assert(post.drop_last() =~= pre);
            assert(post.last() == subs@[k as int]);
        }
        if subs[k].ts >= best.ts {
            best = subs[k];
        }
        k += 1;
    }
    proof {
        assert(subs@.take(subs@.len() as int) =~= subs@);
    }
    Ok(ExerciseDetails { participation_id: pid, result_id: best.id, build_failed: best.build_failed })
}

/// The test parsed from one entry of a test-details payload: its name,
/// whether it passed, and an explanation exactly when it failed.
pub open spec fn spec_parse_test(r: JsonValue) -> Option<TestView> {
    match r.spec_get("positive"@) {
        None => None,
        Some(posv) => match posv.spec_as_bool() {
            None => None,
            Some(passed) => match r.spec_get("testCase"@) {
                None => None,
                Some(tc) => match tc.spec_get("testName"@) {
                    None => None,
                    Some(namev) => match namev.spec_as_str() {
                        None => None,
                        Some(name) => if passed {
                            Some(TestView { name, passed: true, explanation: None })
                        } else {
                            match r.spec_get("detailText"@) {
                                None => None,
                                Some(dv) => match dv.spec_as_str() {
                                    None => None,
                                    Some(d) => Some(
                                        TestView { name, passed: false, explanation: Some(d) },
                                    ),
                                },
                            }
                        },
                    },
                },
            },
        },
    }
}

/// The tests parsed from the entries of a test-details payload.
pub open spec fn spec_parse_tests(rs: Seq<JsonValue>) -> Option<Seq<TestView>>
    decreases rs.len(),
{
    if rs.len() == 0 {
        Some(Seq::empty())
    } else {
        match spec_parse_tests(rs.drop_last()) {
            None => None,
            Some(rest) => match spec_parse_test(rs.last()) {
                None => None,
                Some(t) => Some(rest.push(t)),
            },
        }
    }
}

/// One entry that does not parse fails the whole payload.
proof fn lemma_parse_tests_none(rs: Seq<JsonValue>, i: int)
    requires
        0 <= i < rs.len(),
        spec_parse_test(rs[i]) is None,
    ensures
        spec_parse_tests(rs) is None,
    decreases rs.len(),
{
    if i < rs.len() - 1 {
        assert(rs.drop_last()[i] == rs[i]);
        lemma_parse_tests_none(rs.drop_last(), i);
    }
}

/// The tests parsed from a test-details payload, one per entry of the
/// array the payload is.
pub open spec fn spec_parse_test_details(j: JsonValue) -> Option<Seq<TestView>> {
    match j.spec_as_arr() {
        None => None,
        Some(rs) => spec_parse_tests(rs),
    }
}

/// Reads one entry of a test-details payload.
fn parse_test(rv: &JsonValue) -> (r: Result<Test, ClientError>)
    ensures
        match r {
            Ok(t) => spec_parse_test(*rv) == Some(t@),
            Err(e) => spec_parse_test(*rv) is None && e is Parse,
        },
{
    let passed = match rv.get("positive") {
        Some(posv) => match posv.as_bool() {
            Some(p) => p,
            None => {
                return Err(ClientError::Parse);
            },
        },
        None => {
            return Err(ClientError::Parse);
        },
    };
    let name: String = match rv.get("testCase") {
        Some(tc) => match tc.get("testName") {
            Some(namev) => match namev.as_str() {
                Some(n) => n.to_owned(),
                None => {
                    return Err(ClientError::Parse);
                },
            },
            None => {
                return Err(ClientError::Parse);
            },
        },
        None => {
            return Err(ClientError::Parse);
        },
    };
    if passed {
        return Ok(Test { name, passed: true, explanation: None });
    }
    let explanation: String = match rv.get("detailText") {
        Some(dv) => match dv.as_str() {
            Some(d) => d.to_owned(),
            None => {
                return Err(ClientError::Parse);
            },
        },
        None => {
            return Err(ClientError::Parse);
        },
    };
    Ok(Test { name, passed: false, explanation: Some(explanation) })
}

/// Parses a test-details payload into the per-test outcomes.
#[verifier::loop_isolation(false)]
pub fn parse_test_result_details(raw: &JsonValue) -> (r: Result<Vec<Test>, ClientError>)
    ensures
        match r {
            Ok(ts) => spec_parse_test_details(*raw) == Some(
                Seq::new(ts@.len(), |k: int| ts@[k]@),
            ),
            Err(e) => spec_parse_test_details(*raw) is None && e is Parse,
        },
{
    let elems = match raw.as_array() {
        Some(elems) => elems,
        None => {
            return Err(ClientError::Parse);
        },
    };
    let n = elems.len();
    let mut tests: Vec<Test> = Vec::new();
    let mut i: usize = 0;
    while i < n
        invariant
            0 <= i <= n,
            n == elems@.len(),
            i == tests@.len(),
            spec_parse_tests(elems@.take(i as int)) == Some(
                Seq::new(tests@.len(), |k: int| tests@[k]@),
            ),
        decreases n - i,
    {
        let t = match parse_test(&elems[i]) {
            Ok(t) => t,
            Err(e) => {
                proof {
                    lemma_parse_tests_none(elems@, i as int);
                }
                return Err(ClientError::Parse);
            },
        };
        proof {
            let pre = elems@.take(i as int);
            let post = elems@.take(i as int + 1);
            assert(post.drop_last() =~= pre);
            assert(post.last() == elems@[i as int]);
        }
        tests.push(t);
        proof {
            assert(Seq::new(tests@.len(), |k: int| tests@[k]@) =~= Seq::new(
                (tests@.len() - 1) as nat,
                |k: int| tests@[k]@,
            ).push(tests@.last()@));
        }
        i += 1;
    }
    proof {
        assert(elems@.take(n as int) =~= elems@);
    }
    Ok(tests)
}

/// The log line parsed from one entry of a build-log payload.
pub open spec fn spec_parse_log(r: JsonValue) -> Option<LogStatementView> {
    match r.spec_get("time"@) {
        None => None,
        Some(tv) => match tv.spec_as_str() {
            None => None,
            Some(time) => match r.spec_get("log"@) {
                None => None,
                Some(lv) => match lv.spec_as_str() {
                    None => None,
                    Some(log) => Some(LogStatementView { time, log }),
                },
            },
        },
    }
}

/// The log lines parsed from the entries of a build-log payload.
pub open spec fn spec_parse_logs(rs: Seq<JsonValue>) -> Option<Seq<LogStatementView>>
    decreases rs.len(),
{
    if rs.len() == 0 {
        Some(Seq::empty())
    } else {
        match spec_parse_logs(rs.drop_last()) {
            None => None,
            Some(rest) => match spec_parse_log(rs.last()) {
                None => None,
                Some(l) => Some(rest.push(l)),
            },
        }
    }
}

/// One entry that does not parse fails the whole payload.
proof fn lemma_parse_logs_none(rs: Seq<JsonValue>, i: int)
    requires
        0 <= i < rs.len(),
        spec_parse_log(rs[i]) is None,
    ensures
        spec_parse_logs(rs) is None,
    decreases rs.len(),
{
    if i < rs.len() - 1 {
        assert(rs.drop_last()[i] == rs[i]);
        lemma_parse_logs_none(rs.drop_last(), i);
    }
}

/// The log lines parsed from a build-log payload, one per entry of the
/// array the payload is.
pub open spec fn spec_parse_build_logs(j: JsonValue) -> Option<Seq<LogStatementView>> {
    match j.spec_as_arr() {
        None => None,
        Some(rs) => spec_parse_logs(rs),
    }
}

/// Parses a build-log payload into its log lines.
#[verifier::loop_isolation(false)]
pub fn parse_build_logs(raw: &JsonValue) -> (r: Result<Vec<LogStatement>, ClientError>)
    ensures
        match r {
            Ok(ls) => spec_parse_build_logs(*raw) == Some(
                Seq::new(ls@.len(), |k: int| ls@[k]@),
            ),
            Err(e) => spec_parse_build_logs(*raw) is None && e is Parse,
        },
{
    let elems = match raw.as_array() {
        Some(elems) => elems,
        None => {
            return Err(ClientError::Parse);
        },
    };
    let n = elems.len();
    let mut logs: Vec<LogStatement> = Vec::new();
    let mut i: usize = 0;
    while i < n
        invariant
            0 <= i <= n,
            n == elems@.len(),
            i == logs@.len(),
            spec_parse_logs(elems@.take(i as int)) == Some(
                Seq::new(logs@.len(), |k: int| logs@[k]@),
            ),
        decreases n - i,
    {
        let rv = &elems[i];
        let time: String = match rv.get("time") {
            Some(tv) => match tv.as_str() {
                Some(t) => t.to_owned(),
                None => {
                    proof {
                        lemma_parse_logs_none(elems@, i as int);
                    }
                    return Err(ClientError::Parse);
                },
            },
            None => {
                proof {
                    lemma_parse_logs_none(elems@, i as int);
                }
                return Err(ClientError::Parse);
            },
        };
        let log: String = match rv.get("log") {
            Some(lv) => match lv.as_str() {
                Some(l) => l.to_owned(),
                None => {
                    proof {
                        lemma_parse_logs_none(elems@, i as int);
                    }
                    return Err(ClientError::Parse);
                },
            },
            None => {
                proof {
                    lemma_parse_logs_none(elems@, i as int);
                }
                return Err(ClientError::Parse);
            },
        };
        proof {
            let pre = elems@.take(i as int);
            let post = elems@.take(i as int + 1);
            assert(post.drop_last() =~= pre);
            assert(post.last() == elems@[i as int]);
        }
        logs.push(LogStatement { time, log });
        proof {
            assert(Seq::new(logs@.len(), |k: int| logs@[k]@) =~= Seq::new(
                (logs@.len() - 1) as nat,
                |k: int| logs@[k]@,
            ).push(logs@.last()@));
        }
        i += 1;
    }
    proof {
        assert(elems@.take(n as int) =~= elems@);
    }
    Ok(logs)
}

} // verus!
