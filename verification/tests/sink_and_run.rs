use ml_parser::convert::entry::TsvEntry;
use ml_parser::limiter::RateLimiter;
use ml_parser::runner::{CircuitBreaker, RetryPolicy, RunDecision};
use ml_parser::storage::TsvSink;

fn row(name: &str) -> TsvEntry {
    TsvEntry {
        name_romaji: name.to_string(),
        name_english: "?".to_string(),
        name_japanese: "?".to_string(),
        is_unverified: false,
        is_external: false,
        is_movie: true,
        is_adult: false,
        is_action: false,
        is_adventure: false,
        is_comedy: false,
        is_drama: false,
        is_ecchi: false,
        is_fantasy: false,
        is_horror: false,
        is_mahou_shoujo: false,
        is_mecha: false,
        is_music: false,
        is_mystery: false,
        is_psychological: false,
        is_romance: false,
        is_sci_fi: false,
        is_slice_of_life: false,
        is_sports: false,
        is_supernatural: false,
        is_thriller: false,
        format: "Movie".to_string(),
        status: "?".to_string(),
        source: "?".to_string(),
        episodes_amount: 1,
        time_required: 0,
        start_date: -60,
        end_date: 0,
        rating_value: 83,
        rating_count: 10,
        company_production: 0,
        company_producer: 0,
        company_creator: 0,
        last_modified: 555,
        file_modified_first: 0,
        file_modified_last: 1,
        file_modified_median: 0,
        filesize_min: 5,
        filesize_max: 5,
        filesize_median: 5,
    }
}

const HEADER: &str = "name_romaji\tname_english\tname_japanese\tis_unverified\tis_external\t\
is_movie\tis_adult\tis_action\tis_adventure\tis_comedy\tis_drama\tis_ecchi\tis_fantasy\t\
is_horror\tis_mahou_shoujo\tis_mecha\tis_music\tis_mystery\tis_psychological\tis_romance\t\
is_sci_fi\tis_slice_of_life\tis_sports\tis_supernatural\tis_thriller\tformat\tstatus\tsource\t\
episodes_amount\ttime_required\tstart_date\tend_date\trating_value\trating_count\t\
company_production\tcompany_producer\tcompany_creator\tlast_modified\tfile_modified_first\t\
file_modified_last\tfile_modified_median\tfilesize_min\tfilesize_max\tfilesize_median";

#[test]
fn two_appends_yield_one_header_and_two_rows() {
    let mut sink = TsvSink::new();
    let mut out = sink.append(&row("Alpha"));
    out.push_str(&sink.append(&row("Beta")));
    let lines: Vec<&str> = out.lines().collect();
    assert_eq!(lines.len(), 3);
    assert_eq!(lines[0], HEADER);
    assert!(lines[1].starts_with("Alpha\t?\t?\tfalse\tfalse\ttrue\t"));
    assert!(lines[1].ends_with("\t1\t0\t-60\t0\t83\t10\t0\t0\t0\t555\t0\t1\t0\t5\t5\t5"));
    assert!(lines[2].starts_with("Beta\t"));
    // exactly one header over the sink's lifetime
    assert_eq!(out.matches("name_romaji").count(), 1);
}

#[test]
fn resumed_sink_adds_no_second_header() {
    let mut sink = TsvSink::new();
    let mut out = sink.append(&row("Alpha"));
    out.push_str(&sink.append(&row("Beta")));
    // a later run against the same, already initialized destination
    let mut resumed = TsvSink::resume(true);
    out.push_str(&resumed.append(&row("Gamma")));
    let lines: Vec<&str> = out.lines().collect();
    assert_eq!(lines.len(), 4);
    assert_eq!(out.matches("name_romaji").count(), 1);
    assert!(lines[3].starts_with("Gamma\t"));
}

#[test]
fn field_with_delimiter_is_quoted() {
    let mut entry = row("Tab\there");
    entry.status = "say \"hi\"".to_string();
    let mut sink = TsvSink::resume(true);
    let out = sink.append(&entry);
    assert!(out.starts_with("\"Tab\there\"\t"));
    assert!(out.contains("\"say \"\"hi\"\"\""));
}

#[test]
fn rate_limiter_enforces_spacing() {
    let mut limiter = RateLimiter::new();
    // the first request is permitted immediately
    assert_eq!(limiter.permit(1000, 100), 0);
    // thirty units later the caller still owes seventy
    assert_eq!(limiter.permit(1030, 100), 70);
    assert_eq!(limiter.last_permitted, Some(1100));
    // well past the spacing, no wait is owed
    assert_eq!(limiter.permit(1500, 100), 0);
    assert_eq!(limiter.last_permitted, Some(1500));
}

#[test]
fn five_consecutive_failures_abort_the_run() {
    let mut breaker = CircuitBreaker::new();
    for _ in 0..4 {
        assert_eq!(breaker.record_failure(), RunDecision::SkipEntry);
    }
    assert_eq!(breaker.record_failure(), RunDecision::Abort);
}

#[test]
fn success_resets_the_breaker() {
    let mut breaker = CircuitBreaker::new();
    for _ in 0..4 {
        assert_eq!(breaker.record_failure(), RunDecision::SkipEntry);
    }
    breaker.record_success();
    // four more failures after the reset do not abort
    for _ in 0..4 {
        assert_eq!(breaker.record_failure(), RunDecision::SkipEntry);
    }
    assert_eq!(breaker.record_failure(), RunDecision::Abort);
}

#[test]
fn retry_policy_allows_ten_attempts() {
    let mut policy = RetryPolicy::new();
    let mut attempts = 0;
    while policy.should_attempt() {
        policy.record_attempt();
        attempts += 1;
    }
    assert_eq!(attempts, 10);
}
