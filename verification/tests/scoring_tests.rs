use ats_ranker::model::{checked_scoring, ScoreError};
use ats_ranker::schema::build_schema;
use ats_ranker::scoring::{retry_delay_ms, RETRY_BASE_DELAY_MS};
use ats_ranker::json::Json;
use ats_ranker::model::{
    reply_content, ChatChoice, ChatResponse, ChatResponseMessage, ReplyError, ResponseFormat, Usage,
};
use ats_ranker::scoring::{
    classify_remote_type, coerce_scoring, job_message, normalize_remote_type, resume_prompt,
    retry_after_failure, SCORE_ATTEMPTS,
};

fn usage() -> Usage {
    Usage {
        prompt_tokens: 1,
        completion_tokens: 2,
        total_tokens: 3,
        prompt_cache_hit_tokens: 0,
        prompt_cache_miss_tokens: 1,
    }
}

fn reply(contents: &[&str]) -> ChatResponse {
    ChatResponse {
        choices: contents
            .iter()
            .map(|c| ChatChoice {
                message: ChatResponseMessage { content: c.to_string(), reasoning_content: None },
                finish_reason: Some("stop".to_string()),
            })
            .collect(),
        usage: usage(),
    }
}

fn s(x: &str) -> Json {
    Json::Str(x.to_string())
}

fn member<'a>(j: &'a Json, key: &str) -> Option<&'a Json> {
    j.get(key)
}

#[test]
fn json_object_format() {
    assert_eq!(ResponseFormat::json_object().format_type, "json_object");
}

#[test]
fn normalize_remote_type_maps_descriptions_to_labels() {
    assert_eq!(normalize_remote_type("Remote-First"), "remote_first");
    assert_eq!(normalize_remote_type("Fully Remote"), "remote_first");
    assert_eq!(normalize_remote_type("REMOTE_FIRST"), "remote_first");
    assert_eq!(normalize_remote_type("Remote (US only)"), "remote_friendly");
    assert_eq!(normalize_remote_type("Hybrid, 3 days"), "hybrid");
    assert_eq!(normalize_remote_type("On-site"), "office");
    assert_eq!(normalize_remote_type("ONSITE"), "office");
    assert_eq!(normalize_remote_type("In the office"), "office");
    assert_eq!(normalize_remote_type(""), "unknown");
    assert_eq!(normalize_remote_type("flexible"), "unknown");
}

#[test]
fn normalize_remote_type_keeps_labels() {
    for l in ["remote_first", "remote_friendly", "hybrid", "office", "unknown"] {
        assert_eq!(normalize_remote_type(l), l);
        assert_eq!(normalize_remote_type(&normalize_remote_type(l)), l);
    }
}

#[test]
fn classify_remote_type_reads_lowercased_text() {
    assert_eq!(classify_remote_type("fully_remote"), "remote_first");
    // an upper-case description is not lowered here
    assert_eq!(classify_remote_type("REMOTE"), "unknown");
    assert_eq!(classify_remote_type("on_site"), "office");
}

#[test]
fn coerce_scoring_fixes_red_flags_b2b_and_remote_type() {
    let raw = Json::Object(vec![
        ("ats_score".to_string(), Json::Number("80".to_string())),
        ("b2b_friendly".to_string(), s("yes")),
        (
            "red_flags".to_string(),
            Json::Array(vec![
                s("no Rust"),
                Json::Object(vec![
                    ("severity".to_string(), s("high")),
                    ("reason".to_string(), s("visa")),
                ]),
            ]),
        ),
        ("remote_type".to_string(), s("Hybrid (London)")),
    ]);
    let out = coerce_scoring(raw);
    assert!(matches!(member(&out, "ats_score"), Some(Json::Number(n)) if n == "80"));
    assert!(matches!(member(&out, "b2b_friendly"), Some(Json::Null)));
    assert!(matches!(member(&out, "remote_type"), Some(Json::Str(t)) if t == "hybrid"));
    match member(&out, "red_flags") {
        Some(Json::Array(items)) => {
            assert_eq!(items.len(), 2);
            assert!(matches!(member(&items[0], "severity"), Some(Json::Str(t)) if t == "unknown"));
            assert!(matches!(member(&items[0], "reason"), Some(Json::Str(t)) if t == "no Rust"));
            assert!(matches!(member(&items[1], "severity"), Some(Json::Str(t)) if t == "high"));
        }
        other => panic!("red_flags: {other:?}"),
    }
}

#[test]
fn coerce_scoring_keeps_booleans_and_non_objects() {
    let raw = Json::Object(vec![
        ("b2b_friendly".to_string(), Json::Bool(true)),
        ("remote_type".to_string(), Json::Number("3".to_string())),
        ("red_flags".to_string(), s("none")),
    ]);
    let out = coerce_scoring(raw);
    assert!(matches!(member(&out, "b2b_friendly"), Some(Json::Bool(true))));
    assert!(matches!(member(&out, "remote_type"), Some(Json::Number(n)) if n == "3"));
    assert!(matches!(member(&out, "red_flags"), Some(Json::Str(t)) if t == "none"));
    let arr = coerce_scoring(Json::Array(vec![s("x")]));
    assert!(matches!(arr, Json::Array(ref v) if matches!(&v[0], Json::Str(t) if t == "x")));
}

#[test]
fn json_get_finds_the_first_member() {
    let j = Json::Object(vec![("a".to_string(), s("1")), ("a".to_string(), s("2"))]);
    assert!(matches!(j.get("a"), Some(Json::Str(t)) if t == "1"));
    assert!(j.get("b").is_none());
    assert!(s("a").get("a").is_none());
    assert_eq!(s("x").as_str(), Some("x"));
    assert_eq!(Json::Null.as_str(), None);
}

#[test]
fn reply_content_errors() {
    assert_eq!(reply_content(&reply(&[])).unwrap_err(), ReplyError::NoChoices);
    assert_eq!(reply_content(&reply(&[" \n\t"])).unwrap_err(), ReplyError::EmptyContent);
    assert_eq!(reply_content(&reply(&[""])).unwrap_err(), ReplyError::EmptyContent);
    assert_eq!(reply_content(&reply(&[" {} ", "x"])).unwrap(), " {} ");
    assert_eq!(reply_content(&reply(&["", "x"])).unwrap_err(), ReplyError::EmptyContent);
}

#[test]
fn scoring_is_tried_twice() {
    assert_eq!(SCORE_ATTEMPTS, 2);
    assert!(retry_after_failure(1));
    assert!(!retry_after_failure(2));
}

#[test]
fn prompts_are_filled_with_trimmed_text() {
    assert_eq!(
        resume_prompt("CV:\n{{resume}}\nend {{resume}}", "  Jane Doe \n"),
        "CV:\nJane Doe\nend Jane Doe"
    );
    let m = job_message("PREFIX", "JD: {{job}}", "\n Rust dev  ");
    assert_eq!(m.role, "user");
    assert_eq!(m.content, "PREFIX\nJD: Rust dev");
    assert_eq!(job_message("", "no slot", "x").content, "\nno slot");
}

#[test]
fn retries_back_off_exponentially() {
    assert_eq!(RETRY_BASE_DELAY_MS, 1000);
    assert_eq!(retry_delay_ms(1), 1000);
    assert_eq!(retry_delay_ms(2), 2000);
    assert_eq!(retry_delay_ms(3), 4000);
    assert_eq!(retry_delay_ms(5), 16000);
}

fn scoring(ats: u32, rec: u32) -> ats_ranker::model::AtsScoring {
    ats_ranker::model::AtsScoring {
        ats_score: ats,
        recruiter_score: rec,
        remote_type: "hybrid".to_string(),
        b2b_friendly: true,
        strengths: vec!["Rust".to_string()],
        red_flags: vec![],
        summary: "A good match for the role overall.".to_string(),
    }
}

#[test]
fn scores_must_lie_within_0_to_100() {
    assert_eq!(checked_scoring(scoring(100, 0)).unwrap().ats_score, 100);
    assert_eq!(checked_scoring(scoring(101, 5)).unwrap_err(), ScoreError::AtsScoreOutOfRange);
    assert_eq!(checked_scoring(scoring(150, 500)).unwrap_err(), ScoreError::AtsScoreOutOfRange);
    assert_eq!(checked_scoring(scoring(50, 101)).unwrap_err(), ScoreError::RecruiterScoreOutOfRange);
}

#[test]
fn remote_type_ignores_case_and_separators() {
    for (a, b) in [
        ("REMOTE-FIRST", "remote first"),
        ("Hybrid_Work", "hybrid work"),
        ("ON-SITE", "on_site"),
        ("fully remote", "Fully-Remote"),
    ] {
        assert_eq!(normalize_remote_type(a), normalize_remote_type(b));
    }
}

#[test]
fn prompts_share_a_prefix_and_ignore_padding() {
    let a = job_message("FIXED", "JD: {{job}}", "Rust dev");
    let b = job_message("FIXED", "JD: {{job}}", " Rust dev\n");
    let c = job_message("FIXED", "JD: {{job}}", "Go dev");
    assert_eq!(a.content, b.content);
    assert!(a.content.starts_with("FIXED\n") && c.content.starts_with("FIXED\n"));
}

#[test]
fn schema_lists_fields_bounds_and_labels() {
    let schema = build_schema();
    assert!(matches!(schema.get("type"), Some(Json::Str(t)) if t == "object"));
    assert!(matches!(schema.get("additionalProperties"), Some(Json::Bool(false))));
    match schema.get("required") {
        Some(Json::Array(names)) => assert_eq!(names.len(), 7),
        other => panic!("required: {other:?}"),
    }
    let props = schema.get("properties").unwrap();
    let ats = props.get("ats_score").unwrap();
    assert!(matches!(ats.get("maximum"), Some(Json::Number(n)) if n == "100"));
    assert!(matches!(ats.get("minimum"), Some(Json::Number(n)) if n == "0"));
    match props.get("remote_type").unwrap().get("enum") {
        Some(Json::Array(labels)) => {
            let got: Vec<&str> = labels.iter().map(|l| l.as_str().unwrap()).collect();
            assert_eq!(got, vec!["remote_first", "remote_friendly", "hybrid", "office", "unknown"]);
            for l in got {
                assert_eq!(normalize_remote_type(l), l);
            }
        }
        other => panic!("enum: {other:?}"),
    }
    let flags = props.get("red_flags").unwrap();
    assert!(matches!(flags.get("minItems"), Some(Json::Number(n)) if n == "1"));
    assert!(matches!(flags.get("maxItems"), Some(Json::Number(n)) if n == "6"));
}
