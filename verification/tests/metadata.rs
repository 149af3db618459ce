use ml_parser::errors::ParseError;
use ml_parser::parse::anilist::entry::{
    extract_id_from_url, merge_pending, parse_anilist_entry, parse_body_airing_episodes_amount,
    parse_body_format, parse_body_source, parse_body_status, parse_head_data, PendingEntry,
};
use ml_parser::parse::anilist::format::{to_format, Format};
use ml_parser::parse::anilist::genre::{convert_genres, Genre};
use ml_parser::parse::anilist::source::{to_source, Source};
use ml_parser::parse::anilist::status::{to_status, Status};

fn empty_pending() -> PendingEntry {
    PendingEntry {
        format: None,
        status: None,
        source: None,
        genres: Vec::new(),
        episodes_amount: None,
        time_required: None,
        start_date: None,
        end_date: None,
        rating_value: None,
        rating_count: None,
        production_companies: None,
        producers: None,
        creators: None,
    }
}

fn head_fragment() -> String {
    let mut h = String::new();
    h.push_str("<head><script type=\"application/ld+json\">");
    h.push_str("{\"mainEntity\":{");
    h.push_str("\"numberOfEpisodes\":24,");
    h.push_str("\"timeRequired\":\"PT24M\",");
    h.push_str("\"startDate\":\"2024-01-01\",");
    h.push_str("\"endDate\":\"2024-06-30\",");
    h.push_str("\"aggregateRating\":{\"ratingValue\":83,\"ratingCount\":1200},");
    h.push_str("\"genre\":[\"Action\",\"Drama\"],");
    h.push_str("\"productionCompany\":[{\"@id\":\"https://anilist.co/company/7\"}],");
    h.push_str("\"producer\":[{\"@id\":\"https://anilist.co/company/8\"},{\"@id\":\"https://anilist.co/company/9\"}],");
    h.push_str("\"creator\":[]");
    h.push_str("}}");
    h.push_str("</script></head>");
    h
}

fn body_fragment(format: &str, status: &str, source: &str, airing: Option<&str>) -> String {
    let mut b = String::new();
    b.push_str("<body>");
    if !format.is_empty() {
        b.push_str("<div class=\"data-set\"><div class=\"type\">Format</div><div class=\"value\">");
        b.push_str(format);
        b.push_str("</div></div>");
    }
    if !status.is_empty() {
        b.push_str("<div class=\"data-set\"><div class=\"type\">Status</div><div class=\"value\">");
        b.push_str(status);
        b.push_str("</div></div>");
    }
    if !source.is_empty() {
        b.push_str("<div class=\"data-set\"><div class=\"type\">Source</div><div class=\"value\">");
        b.push_str(source);
        b.push_str("</div></div>");
    }
    if let Some(a) = airing {
        b.push_str("<div class=\"data-set\"><div class=\"type\">Airing</div><div class=\"value\">");
        b.push_str(a);
        b.push_str("</div></div>");
    }
    b.push_str("</body>");
    b
}

#[test]
fn vocabulary_round_trips() {
    assert!(matches!(to_format("Movie"), Ok(Format::Movie)));
    assert!(matches!(to_format("TV"), Ok(Format::TvShow)));
    assert!(matches!(to_status("Finished"), Ok(Status::Finished)));
    assert!(matches!(to_source("Light Novel"), Ok(Source::LightNovel)));
    let gs = convert_genres(&vec!["Mahou Shoujo".to_string(), "Sci-Fi".to_string()]).unwrap();
    assert_eq!(gs, vec![Genre::MahouShoujo, Genre::SciFi]);
}

#[test]
fn unknown_vocabulary_values_are_rejected() {
    assert_eq!(to_format("Telenovela").unwrap_err(), ParseError::UnknownFormat);
    assert_eq!(to_status("Paused").unwrap_err(), ParseError::UnknownStatus);
    assert_eq!(to_source("Dream").unwrap_err(), ParseError::UnknownSource);
    let err = convert_genres(&vec!["Action".to_string(), "Cooking".to_string()]).unwrap_err();
    assert_eq!(err, ParseError::UnknownGenre);
}

fn head_fragment_with(extra: &str) -> String {
    let mut h = String::new();
    h.push_str("<head><script type=\"application/ld+json\">");
    h.push_str("{\"mainEntity\":{");
    h.push_str(extra);
    h.push_str("\"numberOfEpisodes\":24");
    h.push_str("}}");
    h.push_str("</script></head>");
    h
}

#[test]
fn head_block_declares_format_status_source() {
    let head = head_fragment_with(
        "\"format\":\"Movie\",\"status\":\"Finished\",\"source\":\"Manga\",",
    );
    let pending = parse_head_data(&head).unwrap();
    assert_eq!(pending.format, Some(Format::Movie));
    assert_eq!(pending.status, Some(Status::Finished));
    assert_eq!(pending.source, Some(Source::Manga));
}

#[test]
fn head_format_wins_over_body_value() {
    let head = head_fragment_with("\"format\":\"Movie\",");
    let body = body_fragment("TV", "Finished", "", None);
    let entry = parse_anilist_entry(&head, &body).unwrap();
    // the head value wins when present
    assert_eq!(entry.format, Some(Format::Movie));
    assert_eq!(entry.status, Some(Status::Finished));
}

#[test]
fn head_with_unknown_format_fails() {
    let head = head_fragment_with("\"format\":\"Telenovela\",");
    assert_eq!(parse_head_data(&head).unwrap_err(), ParseError::UnknownFormat);
}

#[test]
fn head_with_unknown_status_fails() {
    let head = head_fragment_with("\"status\":\"Paused\",");
    assert_eq!(parse_head_data(&head).unwrap_err(), ParseError::UnknownStatus);
}

#[test]
fn head_with_unknown_source_stays_unset() {
    let head = head_fragment_with("\"source\":\"Dream\",");
    let pending = parse_head_data(&head).unwrap();
    assert_eq!(pending.source, None);
}

#[test]
fn body_value_with_nonbreaking_space_is_trimmed() {
    let body = body_fragment("\u{00A0}Movie\u{00A0}", "", "", None);
    assert!(matches!(parse_body_format(&body), Ok(Format::Movie)));
}

#[test]
fn merge_precedence_head_wins() {
    let mut pending = empty_pending();
    pending.format = Some(Format::Movie);
    let merged = merge_pending(pending, Some(Format::TvShow), None, None, None);
    assert_eq!(merged.format, Some(Format::Movie));
}

#[test]
fn merge_precedence_body_fills_unset() {
    let pending = empty_pending();
    let merged = merge_pending(pending, Some(Format::TvShow), Some(Status::Finished), None, None);
    assert_eq!(merged.format, Some(Format::TvShow));
    assert_eq!(merged.status, Some(Status::Finished));
}

#[test]
fn merge_precedence_both_unset_stays_unset() {
    let merged = merge_pending(empty_pending(), None, None, None, None);
    assert_eq!(merged.format, None);
    assert_eq!(merged.status, None);
    assert_eq!(merged.source, None);
}

#[test]
fn airing_count_supersedes_episode_count() {
    let mut pending = empty_pending();
    pending.episodes_amount = Some(24);
    let merged = merge_pending(pending, None, None, None, Some(13));
    assert_eq!(merged.episodes_amount, Some(13));
}

#[test]
fn merge_keeps_first_relation_only() {
    let mut pending = empty_pending();
    pending.producers = Some(vec![8, 9]);
    pending.creators = Some(Vec::new());
    let merged = merge_pending(pending, None, None, None, None);
    assert_eq!(merged.producer, Some(8));
    assert_eq!(merged.creator, None);
    assert_eq!(merged.production_company, None);
}

#[test]
fn parses_head_fragment_fields() {
    let pending = parse_head_data(&head_fragment()).unwrap();
    assert_eq!(pending.format, None);
    assert_eq!(pending.status, None);
    assert_eq!(pending.episodes_amount, Some(24));
    assert_eq!(pending.time_required.as_deref(), Some("PT24M"));
    assert_eq!(pending.start_date.as_deref(), Some("2024-01-01"));
    assert_eq!(pending.end_date.as_deref(), Some("2024-06-30"));
    assert_eq!(pending.rating_value, Some(83));
    assert_eq!(pending.rating_count, Some(1200));
    assert_eq!(pending.genres, vec![Genre::Action, Genre::Drama]);
    assert_eq!(pending.production_companies, Some(vec![7]));
    assert_eq!(pending.producers, Some(vec![8, 9]));
    assert_eq!(pending.creators, Some(Vec::new()));
}

#[test]
fn head_without_script_block_fails() {
    let err = parse_head_data("<head><title>x</title></head>").unwrap_err();
    assert_eq!(err, ParseError::MissingScript);
}

#[test]
fn head_with_invalid_json_fails() {
    let head = "<head><script type=\"application/ld+json\">{oops</script></head>";
    assert_eq!(parse_head_data(head).unwrap_err(), ParseError::InvalidJson);
}

#[test]
fn head_with_unknown_genre_fails() {
    let head = "<head><script type=\"application/ld+json\">{\"mainEntity\":{\"genre\":[\"Cooking\"]}}</script></head>";
    assert_eq!(parse_head_data(head).unwrap_err(), ParseError::UnknownGenre);
}

#[test]
fn head_with_relation_without_numeric_id_fails() {
    let head = "<head><script type=\"application/ld+json\">{\"mainEntity\":{\"producer\":[{\"@id\":\"https://anilist.co/company/none\"}]}}</script></head>";
    assert_eq!(parse_head_data(head).unwrap_err(), ParseError::MissingRelationId);
}

#[test]
fn head_with_overflowing_rating_fails() {
    let head = "<head><script type=\"application/ld+json\">{\"mainEntity\":{\"aggregateRating\":{\"ratingValue\":4294967296}}}</script></head>";
    assert_eq!(parse_head_data(head).unwrap_err(), ParseError::BadNumber);
}

#[test]
fn body_fields_are_scanned_and_validated() {
    let body = body_fragment(" Movie ", "Finished", "Manga", None);
    assert!(matches!(parse_body_format(&body), Ok(Format::Movie)));
    assert!(matches!(parse_body_status(&body), Ok(Status::Finished)));
    assert!(matches!(parse_body_source(&body), Ok(Source::Manga)));
}

#[test]
fn body_without_field_reports_missing() {
    let body = body_fragment("", "", "", None);
    assert_eq!(parse_body_format(&body).unwrap_err(), ParseError::MissingField);
    assert_eq!(
        parse_body_airing_episodes_amount(&body).unwrap_err(),
        ParseError::MissingField
    );
}

#[test]
fn airing_count_is_read_from_pattern() {
    let body = body_fragment("", "", "", Some("Ep 13: airs in 4 days"));
    assert_eq!(parse_body_airing_episodes_amount(&body).unwrap(), 13);
}

#[test]
fn airing_without_pattern_is_bad_number() {
    let body = body_fragment("", "", "", Some("untimed"));
    assert_eq!(
        parse_body_airing_episodes_amount(&body).unwrap_err(),
        ParseError::BadNumber
    );
}

#[test]
fn reconciles_head_and_body_fragments() {
    let head = head_fragment();
    let body = body_fragment("Movie", "Releasing", "Manga", Some("Ep 13: soon"));
    let entry = parse_anilist_entry(&head, &body).unwrap();
    assert_eq!(entry.format, Some(Format::Movie));
    assert_eq!(entry.status, Some(Status::Releasing));
    assert_eq!(entry.source, Some(Source::Manga));
    // the live airing count supersedes the head's episode count
    assert_eq!(entry.episodes_amount, Some(13));
    assert_eq!(entry.rating_value, Some(83));
    assert_eq!(entry.production_company, Some(7));
    assert_eq!(entry.producer, Some(8));
    assert_eq!(entry.creator, None);
}

#[test]
fn reconciliation_tolerates_missing_optional_fields() {
    let head = head_fragment();
    let body = body_fragment("", "", "", None);
    let entry = parse_anilist_entry(&head, &body).unwrap();
    assert_eq!(entry.format, None);
    assert_eq!(entry.status, None);
    assert_eq!(entry.source, None);
    assert_eq!(entry.episodes_amount, Some(24));
}

#[test]
fn reconciliation_rejects_unknown_format() {
    let head = head_fragment();
    let body = body_fragment("Telenovela", "Finished", "", None);
    assert_eq!(parse_anilist_entry(&head, &body).unwrap_err(), ParseError::UnknownFormat);
}

#[test]
fn unknown_source_is_tolerated_as_unset() {
    let head = head_fragment();
    let body = body_fragment("Movie", "Finished", "Dream", None);
    let entry = parse_anilist_entry(&head, &body).unwrap();
    assert_eq!(entry.source, None);
}

#[test]
fn extracts_first_numeric_url_segment() {
    assert_eq!(extract_id_from_url("https://anilist.co/company/123").unwrap(), 123);
    assert_eq!(extract_id_from_url("/a/42/b/77").unwrap(), 42);
    assert_eq!(
        extract_id_from_url("https://anilist.co/company/none").unwrap_err(),
        ParseError::MissingRelationId
    );
}
