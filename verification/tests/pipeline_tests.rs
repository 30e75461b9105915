use ats_ranker::json::Json;
use ats_ranker::providers::{postings_from_jobs, posting_from_job, should_write, GreenhouseJob};
use ats_ranker::slugs::{
    board_from_record, board_from_segment, board_matcher, board_pattern, host_pattern, SlugOutcome,
};
use ats_ranker::vectorize::{cv_label, prepare_batch, processed_after_batch, BATCH_SIZE};
use ats_ranker::utils::hash_content;

fn record(url: &str) -> Json {
    Json::Object(vec![
        ("urlkey".to_string(), Json::Str("x".to_string())),
        ("url".to_string(), Json::Str(url.to_string())),
    ])
}

fn job(id: i64, title: Option<&str>, content: Option<&str>) -> GreenhouseJob {
    GreenhouseJob {
        id,
        internal_job_id: Some(id * 10),
        title: title.map(|t| t.to_string()),
        updated_at: Some(1_700_000_000_000_000_000),
        requisition_id: None,
        location: Some("{\"name\":\"Berlin\"}".to_string()),
        absolute_url: Some(format!("https://example.com/{id}")),
        language: Some("en".to_string()),
        metadata: None,
        content: content.map(|c| c.to_string()),
        departments: Some("[]".to_string()),
        offices: None,
    }
}

#[test]
fn board_slugs_are_taken_from_board_urls() {
    assert!(board_pattern().is_some() && host_pattern().is_some());
    let p = board_matcher().expect("the board patterns compile");
    assert_eq!(
        board_from_record(&p, &record("https://boards.greenhouse.io/acme/jobs/123")),
        SlugOutcome::Board("acme".to_string())
    );
    assert_eq!(
        board_from_record(&p, &record("http://boards.greenhouse.io/ac%20me/")),
        SlugOutcome::Board("acme".to_string())
    );
    assert_eq!(
        board_from_record(&p, &record("https://boards.greenhouse.io/a%2Fb/jobs")),
        SlugOutcome::PercentEncoded
    );
    assert_eq!(
        board_from_record(&p, &record("https://boards.greenhouse.io/acme")),
        SlugOutcome::NoBoard
    );
    assert_eq!(board_from_record(&p, &record("https://example.com/")), SlugOutcome::NoBoard);
    let no_url = Json::Object(vec![("status".to_string(), Json::Number("200".to_string()))]);
    assert_eq!(board_from_record(&p, &no_url), SlugOutcome::NoBoard);
    let num_url = Json::Object(vec![("url".to_string(), Json::Number("1".to_string()))]);
    assert_eq!(board_from_record(&p, &num_url), SlugOutcome::NoBoard);
}

#[test]
fn board_segments_are_cleaned() {
    assert_eq!(board_from_segment(None), SlugOutcome::NoBoard);
    assert_eq!(
        board_from_segment(Some(" my%20board ".to_string())),
        SlugOutcome::Board("myboard".to_string())
    );
    assert_eq!(board_from_segment(Some("%2520".to_string())), SlugOutcome::PercentEncoded);
}

#[test]
fn postings_keep_only_complete_jobs_in_order() {
    let jobs = vec![
        job(1, Some("Dev"), Some("<p>x</p>")),
        job(2, None, Some("y")),
        job(3, Some("Ops"), None),
        job(4, Some("QA"), Some("z")),
    ];
    let ps = postings_from_jobs(jobs);
    assert_eq!(ps.len(), 2);
    assert_eq!(ps[0].external_id, 1);
    assert_eq!(ps[0].internal_job_id, Some(10));
    assert_eq!(ps[0].title, "Dev");
    assert_eq!(ps[0].location, "{\"name\":\"Berlin\"}");
    assert_eq!(ps[0].metadata, "null");
    assert_eq!(ps[0].departments, "[]");
    assert_eq!(ps[0].offices, "null");
    assert_eq!(ps[0].absolute_url, "https://example.com/1");
    assert_eq!(ps[1].external_id, 4);
    assert_eq!(ps[1].content, "z");
}

#[test]
fn a_job_without_update_time_is_dropped() {
    let mut j = job(5, Some("T"), Some("c"));
    j.updated_at = None;
    assert!(posting_from_job(j).is_none());
}

#[test]
fn only_newer_versions_are_written() {
    assert!(should_write(None, 5));
    assert!(should_write(Some(4), 5));
    assert!(!should_write(Some(5), 5));
    assert!(!should_write(Some(6), 5));
}

#[test]
fn embedding_batches_carry_ids_hashes_and_text() {
    let rows = vec![
        (7i64, "<b>Hi</b> there".to_string(), Some("stored".to_string())),
        (8i64, "plain".to_string(), None),
    ];
    let b = prepare_batch(&rows);
    assert_eq!(b.job_ids, vec![7, 8]);
    assert_eq!(b.hashes, vec!["stored".to_string(), hash_content("plain")]);
    assert_eq!(b.texts, vec!["Hi there".to_string(), "plain".to_string()]);
}

#[test]
fn progress_is_capped_by_the_total() {
    assert_eq!(BATCH_SIZE, 32);
    assert_eq!(processed_after_batch(0, 10), 10);
    assert_eq!(processed_after_batch(0, 100), 32);
    assert_eq!(processed_after_batch(2, 100), 96);
    assert_eq!(processed_after_batch(3, 100), 100);
    assert_eq!(processed_after_batch(0, 32), 32);
    assert_eq!(processed_after_batch(usize::MAX, 5), 5);
}

#[test]
fn cv_labels_default_to_cv() {
    assert_eq!(cv_label(Some("resume")), "resume");
    assert_eq!(cv_label(None), "cv");
}

#[test]
fn board_slugs_are_taken_from_company_subdomains() {
    let p = board_matcher().expect("the board patterns compile");
    assert_eq!(
        board_from_record(&p, &record("https://acme.greenhouse.io/jobs/1")),
        SlugOutcome::Board("acme".to_string())
    );
    assert_eq!(
        board_from_record(&p, &record("http://beta-co.greenhouse.io")),
        SlugOutcome::Board("beta-co".to_string())
    );
    assert_eq!(
        board_from_record(&p, &record("https://acme.greenhouse.io:443/?gh_src=x")),
        SlugOutcome::Board("acme".to_string())
    );
    // the boards host itself and other service hosts name no company
    assert_eq!(
        board_from_record(&p, &record("https://boards.greenhouse.io/")),
        SlugOutcome::NoBoard
    );
    assert_eq!(
        board_from_record(&p, &record("https://api.greenhouse.io/v1/")),
        SlugOutcome::NoBoard
    );
    // a deeper host or a look-alike domain is no company subdomain
    assert_eq!(
        board_from_record(&p, &record("https://x.acme.greenhouse.io/")),
        SlugOutcome::NoBoard
    );
    assert_eq!(
        board_from_record(&p, &record("https://acme.greenhouse.io.evil.com/")),
        SlugOutcome::NoBoard
    );
    // the boards-host path wins over the subdomain
    assert_eq!(
        board_from_record(&p, &record("https://job-boards.greenhouse.io/acme/jobs/2")),
        SlugOutcome::Board("acme".to_string())
    );
}
