use ml_parser::convert::entry::{calculate_file_stats, get_tsv_entry};
use ml_parser::convert::flags::EntryFlags;
use ml_parser::errors::ParseError;
use ml_parser::parse::anilist;
use ml_parser::parse::anilist::format::Format;
use ml_parser::parse::anilist::genre::Genre;
use ml_parser::parse::jimaku;
use ml_parser::parse::jimaku::file::FileData;

fn file(size: i64, modified: &str) -> FileData {
    FileData { name: "f".to_string(), size, last_modified: modified.to_string() }
}

fn jimaku_entry() -> jimaku::entry::Entry {
    jimaku::entry::Entry {
        id: 123,
        name: "Alpha".to_string(),
        flags: 0b11010,
        last_modified: 555,
        anilist_id: Some(42),
        tmdb_id: None,
        english_name: Some("Alpha EN".to_string()),
        japanese_name: None,
    }
}

fn anilist_entry() -> anilist::entry::Entry {
    anilist::entry::Entry {
        format: Some(Format::Movie),
        status: None,
        source: None,
        genres: vec![Genre::Action, Genre::SciFi],
        episodes_amount: Some(24),
        time_required: Some("PT24M".to_string()),
        start_date: Some("2024-01-01".to_string()),
        end_date: None,
        rating_value: Some(83),
        rating_count: None,
        production_company: Some(7),
        producer: None,
        creator: None,
    }
}

#[test]
fn flags_read_their_bits() {
    let f = EntryFlags::new(0b10101);
    assert!(f.is_anime());
    assert!(!f.is_unverified());
    assert!(f.is_external());
    assert!(!f.is_movie());
    assert!(f.is_adult());
}

#[test]
fn stats_of_four_sizes() {
    let files = vec![
        file(100, "2024-01-04T00:00:00+00:00"),
        file(300, "2024-01-02T00:00:00+00:00"),
        file(200, "2024-01-03T00:00:00+00:00"),
        file(400, "2024-01-01T00:00:00+00:00"),
    ];
    let stats = calculate_file_stats(&files);
    assert_eq!(stats.filesize_min, 100);
    assert_eq!(stats.filesize_max, 400);
    assert_eq!(stats.filesize_median, 250);
}

#[test]
fn stats_of_single_file() {
    let files = vec![file(5, "2024-01-01T00:00:00+00:00")];
    let stats = calculate_file_stats(&files);
    assert_eq!(stats.filesize_min, 5);
    assert_eq!(stats.filesize_max, 5);
    assert_eq!(stats.filesize_median, 5);
    assert_eq!(stats.file_modified_first, 1704067200);
    assert_eq!(stats.file_modified_last, 1704067200);
    assert_eq!(stats.file_modified_median, 1704067200);
}

#[test]
fn timestamps_sorted_independently_of_sizes() {
    let files = vec![
        file(400, "1970-01-01T00:01:00+00:00"),
        file(100, "1970-01-01T00:03:00+00:00"),
        file(200, "1970-01-01T00:02:00+00:00"),
    ];
    let stats = calculate_file_stats(&files);
    assert_eq!(stats.file_modified_first, 60);
    assert_eq!(stats.file_modified_last, 180);
    assert_eq!(stats.file_modified_median, 120);
    assert_eq!(stats.filesize_min, 100);
    assert_eq!(stats.filesize_max, 400);
    assert_eq!(stats.filesize_median, 200);
}

#[test]
fn unparseable_timestamp_reads_as_epoch_zero() {
    let files = vec![
        file(1, "not a timestamp"),
        file(2, "1970-01-01T00:01:00+00:00"),
    ];
    let stats = calculate_file_stats(&files);
    assert_eq!(stats.file_modified_first, 0);
    assert_eq!(stats.file_modified_last, 60);
}

#[test]
fn joins_entry_metadata_and_stats_into_one_row() {
    let files = vec![
        file(100, "2024-01-01T00:00:00+00:00"),
        file(300, "2024-01-02T00:00:00+00:00"),
    ];
    let row = get_tsv_entry(&jimaku_entry(), &files, &anilist_entry()).unwrap();
    assert_eq!(row.name_romaji, "Alpha");
    assert_eq!(row.name_english, "Alpha EN");
    assert_eq!(row.name_japanese, "?");
    assert!(row.is_unverified);
    assert!(!row.is_external);
    assert!(row.is_movie);
    assert!(row.is_adult);
    assert!(row.is_action);
    assert!(row.is_sci_fi);
    assert!(!row.is_comedy);
    assert_eq!(row.format, "Movie");
    assert_eq!(row.status, "?");
    assert_eq!(row.source, "?");
    assert_eq!(row.episodes_amount, 24);
    // PT24M is twenty-four minutes of milliseconds
    assert_eq!(row.time_required, 1440000);
    // midnight starting 2024-01-01, in epoch seconds
    assert_eq!(row.start_date, 1704067200);
    assert_eq!(row.end_date, 0);
    assert_eq!(row.rating_value, 83);
    assert_eq!(row.rating_count, 0);
    assert_eq!(row.company_production, 7);
    assert_eq!(row.company_producer, 0);
    assert_eq!(row.company_creator, 0);
    assert_eq!(row.last_modified, 555);
    assert_eq!(row.filesize_min, 100);
    assert_eq!(row.filesize_max, 300);
    assert_eq!(row.filesize_median, 200);
    assert_eq!(row.file_modified_first, 1704067200);
    assert_eq!(row.file_modified_last, 1704153600);
}

#[test]
fn unusable_duration_fails_the_entry() {
    let mut a = anilist_entry();
    a.time_required = Some("garbage".to_string());
    let files = vec![file(1, "2024-01-01T00:00:00+00:00")];
    assert_eq!(get_tsv_entry(&jimaku_entry(), &files, &a).unwrap_err(), ParseError::BadDuration);
}

#[test]
fn unusable_date_fails_the_entry() {
    let mut a = anilist_entry();
    a.start_date = Some("soon".to_string());
    let files = vec![file(1, "2024-01-01T00:00:00+00:00")];
    assert_eq!(get_tsv_entry(&jimaku_entry(), &files, &a).unwrap_err(), ParseError::BadDate);
}

#[test]
fn oversized_duration_is_rejected_not_aborted() {
    // far beyond what calendar arithmetic could hold
    let mut a = anilist_entry();
    a.time_required = Some("P200000000000D".to_string());
    let files = vec![file(1, "2024-01-01T00:00:00+00:00")];
    assert_eq!(get_tsv_entry(&jimaku_entry(), &files, &a).unwrap_err(), ParseError::BadDuration);
}

#[test]
fn duration_with_exponent_or_sign_is_rejected() {
    let files = vec![file(1, "2024-01-01T00:00:00+00:00")];
    let mut a = anilist_entry();
    a.time_required = Some("PT1e15S".to_string());
    assert_eq!(get_tsv_entry(&jimaku_entry(), &files, &a).unwrap_err(), ParseError::BadDuration);
    a.time_required = Some("P-5D".to_string());
    assert_eq!(get_tsv_entry(&jimaku_entry(), &files, &a).unwrap_err(), ParseError::BadDuration);
}

#[test]
fn duration_with_calendar_components_is_rejected() {
    let mut a = anilist_entry();
    a.time_required = Some("P1M".to_string());
    let files = vec![file(1, "2024-01-01T00:00:00+00:00")];
    assert_eq!(get_tsv_entry(&jimaku_entry(), &files, &a).unwrap_err(), ParseError::BadDuration);
}
