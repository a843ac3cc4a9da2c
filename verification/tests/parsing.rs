use artemis_cli::{
    parse_build_logs, parse_course, parse_dashboard, parse_exercise_details, parse_task,
    parse_test_result_details, ClientError, JsonValue, LogLevel, LogStatement,
};

fn entry(k: &str, v: JsonValue) -> (String, JsonValue) {
    (k.to_string(), v)
}

fn participation(repo: &str, results: Option<Vec<JsonValue>>) -> JsonValue {
    let mut fields = vec![entry("repositoryUri", JsonValue::of_str(repo))];
    if let Some(rs) = results {
        fields.push(entry("results", JsonValue::Arr(rs)));
    }
    JsonValue::Obj(fields)
}

fn scored(score_milli: i64) -> JsonValue {
    JsonValue::Obj(vec![entry("score", JsonValue::Num(score_milli))])
}

#[test]
fn task_without_participation_is_inactive() {
    let raw = JsonValue::Obj(vec![
        entry("id", JsonValue::of_u64(3)),
        entry("title", JsonValue::of_str("intro")),
    ]);
    let t = parse_task(&raw).unwrap();
    assert_eq!(t.id, 3);
    assert_eq!(t.title, "intro");
    assert!(!t.is_active);
    assert!(!t.completed);
    assert!(t.repo_uri.is_none());
}

#[test]
fn task_with_participation_without_results_is_active() {
    let raw = JsonValue::Obj(vec![
        entry("id", JsonValue::of_u64(4)),
        entry("title", JsonValue::of_str("lists")),
        entry(
            "studentParticipations",
            JsonValue::Arr(vec![participation("https://stu@git.example/r.git", None)]),
        ),
    ]);
    let t = parse_task(&raw).unwrap();
    assert!(t.is_active);
    assert!(!t.completed);
    assert_eq!(t.repo_uri.as_deref(), Some("https://stu@git.example/r.git"));
}

#[test]
fn task_with_empty_results_is_not_completed() {
    let raw = JsonValue::Obj(vec![
        entry("id", JsonValue::of_u64(4)),
        entry("title", JsonValue::of_str("lists")),
        entry(
            "studentParticipations",
            JsonValue::Arr(vec![participation("u@h", Some(vec![]))]),
        ),
    ]);
    let t = parse_task(&raw).unwrap();
    assert!(t.is_active);
    assert!(!t.completed);
}

#[test]
fn task_with_one_full_score_is_completed() {
    let raw = JsonValue::Obj(vec![
        entry("id", JsonValue::of_u64(4)),
        entry("title", JsonValue::of_str("lists")),
        entry(
            "studentParticipations",
            JsonValue::Arr(vec![participation(
                "u@h",
                Some(vec![scored(40_000), scored(100_000), scored(99_500)]),
            )]),
        ),
    ]);
    let t = parse_task(&raw).unwrap();
    assert!(t.completed);
}

#[test]
fn task_with_almost_full_scores_is_not_completed() {
    let raw = JsonValue::Obj(vec![
        entry("id", JsonValue::of_u64(4)),
        entry("title", JsonValue::of_str("lists")),
        entry(
            "studentParticipations",
            JsonValue::Arr(vec![participation(
                "u@h",
                Some(vec![scored(99_500), scored(0)]),
            )]),
        ),
    ]);
    let t = parse_task(&raw).unwrap();
    assert!(!t.completed);
}

#[test]
fn task_without_id_is_a_parse_error() {
    let raw = JsonValue::Obj(vec![entry("title", JsonValue::of_str("x"))]);
    let e = parse_task(&raw).unwrap_err();
    assert!(matches!(e, ClientError::Parse));
}

#[test]
fn task_with_fractional_id_is_a_parse_error() {
    let raw = JsonValue::Obj(vec![
        entry("id", JsonValue::Num(1_500)),
        entry("title", JsonValue::of_str("x")),
    ]);
    assert!(parse_task(&raw).is_err());
}

#[test]
fn task_with_unscored_result_is_a_parse_error() {
    let raw = JsonValue::Obj(vec![
        entry("id", JsonValue::of_u64(4)),
        entry("title", JsonValue::of_str("lists")),
        entry(
            "studentParticipations",
            JsonValue::Arr(vec![participation(
                "u@h",
                Some(vec![JsonValue::Obj(vec![entry("other", JsonValue::Null)])]),
            )]),
        ),
    ]);
    assert!(parse_task(&raw).is_err());
}

fn algorithms_course() -> JsonValue {
    let ex0 = JsonValue::Obj(vec![
        entry("id", JsonValue::of_u64(10)),
        entry("title", JsonValue::of_str("warmup")),
    ]);
    let ex1 = JsonValue::Obj(vec![
        entry("id", JsonValue::of_u64(11)),
        entry("title", JsonValue::of_str("graphs")),
        entry(
            "studentParticipations",
            JsonValue::Arr(vec![participation("u@h", Some(vec![scored(100_000)]))]),
        ),
    ]);
    JsonValue::Obj(vec![
        entry("id", JsonValue::of_u64(5)),
        entry("title", JsonValue::of_str("Algorithms")),
        entry("description", JsonValue::of_str("graphs and sorting")),
        entry("exercises", JsonValue::Arr(vec![ex0, ex1])),
    ])
}

#[test]
fn course_scenario_parses_to_expected_tasks() {
    let c = parse_course(&algorithms_course()).unwrap();
    assert_eq!(c.id, 5);
    assert_eq!(c.title, "Algorithms");
    assert_eq!(c.tasks.len(), 2);
    assert!(!c.tasks[0].is_active);
    assert!(!c.tasks[0].completed);
    assert!(c.tasks[1].is_active);
    assert!(c.tasks[1].completed);
}

#[test]
fn dashboard_listing_parses_each_course_entry() {
    let dashboard = JsonValue::Obj(vec![entry(
        "courses",
        JsonValue::Arr(vec![JsonValue::Obj(vec![entry("course", algorithms_course())])]),
    )]);
    let cs = parse_dashboard(&dashboard).unwrap();
    assert_eq!(cs.len(), 1);
    assert_eq!(cs[0].id, 5);
    assert_eq!(cs[0].tasks.len(), 2);
}

#[test]
fn dashboard_without_courses_key_is_a_parse_error() {
    let dashboard = JsonValue::Obj(vec![]);
    assert!(parse_dashboard(&dashboard).is_err());
}

fn graded(id: u64, date: &str, build_failed: bool) -> JsonValue {
    JsonValue::Obj(vec![
        entry("id", JsonValue::of_u64(id)),
        entry("completionDate", JsonValue::of_str(date)),
        entry(
            "submission",
            JsonValue::Obj(vec![entry("buildFailed", JsonValue::Bool(build_failed))]),
        ),
    ])
}

fn details(results: Vec<JsonValue>) -> JsonValue {
    JsonValue::Obj(vec![entry(
        "exercise",
        JsonValue::Obj(vec![entry(
            "studentParticipations",
            JsonValue::Arr(vec![JsonValue::Obj(vec![
                entry("id", JsonValue::of_u64(33)),
                entry("results", JsonValue::Arr(results)),
            ])]),
        )]),
    )])
}

#[test]
fn latest_result_wins_even_when_listed_first() {
    let d = details(vec![
        graded(7, "2024-05-01T10:00:00+00:00", false),
        graded(8, "2023-01-01T00:00:00+00:00", true),
    ]);
    let got = parse_exercise_details(&d).unwrap();
    assert_eq!(got.participation_id, 33);
    assert_eq!(got.result_id, 7);
    assert!(!got.build_failed);
}

#[test]
fn latest_result_honors_timezone_offsets() {
    // 09:00+00:00 is later than 09:30+02:00 (07:30 UTC).
    let d = details(vec![
        graded(2, "2024-05-01T09:30:00+02:00", true),
        graded(1, "2024-05-01T09:00:00+00:00", false),
    ]);
    let got = parse_exercise_details(&d).unwrap();
    assert_eq!(got.result_id, 1);
    assert!(!got.build_failed);
}

#[test]
fn equal_timestamps_pick_the_later_listed_result() {
    let d = details(vec![
        graded(1, "2024-05-01T10:00:00+00:00", false),
        graded(2, "2024-05-01T10:00:00+00:00", true),
    ]);
    let got = parse_exercise_details(&d).unwrap();
    assert_eq!(got.result_id, 2);
    assert!(got.build_failed);
}

#[test]
fn empty_results_are_a_parse_error() {
    let d = details(vec![]);
    assert!(parse_exercise_details(&d).is_err());
}

#[test]
fn malformed_completion_date_is_a_parse_error() {
    let d = details(vec![graded(1, "yesterday at noon", false)]);
    assert!(matches!(
        parse_exercise_details(&d).unwrap_err(),
        ClientError::Parse
    ));
}

#[test]
fn test_details_keep_explanations_of_failures_only() {
    let payload = JsonValue::Arr(vec![
        JsonValue::Obj(vec![
            entry("positive", JsonValue::Bool(true)),
            entry(
                "testCase",
                JsonValue::Obj(vec![entry("testName", JsonValue::of_str("testSort"))]),
            ),
        ]),
        JsonValue::Obj(vec![
            entry("positive", JsonValue::Bool(false)),
            entry(
                "testCase",
                JsonValue::Obj(vec![entry("testName", JsonValue::of_str("testMerge"))]),
            ),
            entry("detailText", JsonValue::of_str("expected 3, got 4")),
        ]),
    ]);
    let tests = parse_test_result_details(&payload).unwrap();
    assert_eq!(tests.len(), 2);
    assert_eq!(tests[0].name, "testSort");
    assert!(tests[0].passed);
    assert!(tests[0].explanation.is_none());
    assert_eq!(tests[1].name, "testMerge");
    assert!(!tests[1].passed);
    assert_eq!(tests[1].explanation.as_deref(), Some("expected 3, got 4"));
}

#[test]
fn failed_test_without_explanation_is_a_parse_error() {
    let payload = JsonValue::Arr(vec![JsonValue::Obj(vec![
        entry("positive", JsonValue::Bool(false)),
        entry(
            "testCase",
            JsonValue::Obj(vec![entry("testName", JsonValue::of_str("testMerge"))]),
        ),
    ])]);
    assert!(parse_test_result_details(&payload).is_err());
}

#[test]
fn build_logs_parse_time_and_line() {
    let payload = JsonValue::Arr(vec![JsonValue::Obj(vec![
        entry("time", JsonValue::of_str("2024-05-01T10:00:00+00:00")),
        entry("log", JsonValue::of_str("[ERROR] compilation failed")),
    ])]);
    let logs = parse_build_logs(&payload).unwrap();
    assert_eq!(logs.len(), 1);
    assert_eq!(logs[0].time, "2024-05-01T10:00:00+00:00");
    assert_eq!(logs[0].log, "[ERROR] compilation failed");
}

#[test]
fn log_lines_classify_by_marker() {
    let err = LogStatement {
        time: "t".to_string(),
        log: "[ERROR] boom".to_string(),
    };
    let info = LogStatement {
        time: "t".to_string(),
        log: "[INFO] fine".to_string(),
    };
    let plain = LogStatement {
        time: "t".to_string(),
        log: "nothing".to_string(),
    };
    let short = LogStatement {
        time: "t".to_string(),
        log: "x".to_string(),
    };
    assert_eq!(err.level(), LogLevel::Error);
    assert_eq!(info.level(), LogLevel::Info);
    assert_eq!(plain.level(), LogLevel::Plain);
    assert_eq!(short.level(), LogLevel::Plain);
}

#[test]
fn object_lookup_finds_only_present_keys() {
    let v = JsonValue::Obj(vec![entry("a", JsonValue::of_u64(1))]);
    assert!(v.get("a").is_some());
    assert!(v.get("b").is_none());
    assert_eq!(v.get("a").unwrap().as_u64(), Some(1));
    assert_eq!(JsonValue::Null.as_u64(), None);
    assert_eq!(JsonValue::Num(2_500).as_u64(), None);
    assert_eq!(JsonValue::Num(2_000).as_u64(), Some(2));
}
