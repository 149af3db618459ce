use ml_parser::parse::jimaku::entry::{collect_entries, parse_entries};
use ml_parser::parse::jimaku::file::parse_files_data;

fn listing_page() -> String {
    let mut html = String::new();
    html.push_str("<html><body>");
    html.push_str(
        "<div class=\"entry\" data-extra='{\"name\":\"Alpha\",\"flags\":3,\"last_modified\":100,\"anilist_id\":42}'>",
    );
    html.push_str("<a class=\"table-data file-name\" href=\"/entry/123\">Alpha</a></div>");
    html.push_str(
        "<div class=\"entry\" data-extra='{\"name\":\"Beta\",\"flags\":0,\"last_modified\":200}'>",
    );
    html.push_str("<a class=\"table-data file-name\" href=\"/entry/456\">Beta</a></div>");
    html.push_str(
        "<div class=\"entry\" data-extra='{\"name\":\"Gamma\",\"flags\":1,\"last_modified\":300}'>",
    );
    html.push_str("<a class=\"table-data file-name\" href=\"/entry/789\">Gamma</a></div>");
    html.push_str("</body></html>");
    html
}

#[test]
fn parses_listing_entries_in_order() {
    let entries = parse_entries(&listing_page()).unwrap();
    assert_eq!(entries.len(), 3);
    assert_eq!(entries[0].id, 123);
    assert_eq!(entries[0].name, "Alpha");
    assert_eq!(entries[0].flags, 3);
    assert_eq!(entries[0].last_modified, 100);
    assert_eq!(entries[0].anilist_id, Some(42));
    assert_eq!(entries[1].id, 456);
    assert_eq!(entries[1].anilist_id, None);
    assert_eq!(entries[2].id, 789);
}

#[test]
fn entry_with_nonnumeric_link_segment_is_excluded() {
    let mut html = String::new();
    html.push_str(
        "<div class=\"entry\" data-extra='{\"name\":\"Alpha\",\"flags\":0,\"last_modified\":1}'>",
    );
    html.push_str("<a class=\"table-data file-name\" href=\"/entry/not-a-number\">x</a></div>");
    html.push_str(
        "<div class=\"entry\" data-extra='{\"name\":\"Beta\",\"flags\":0,\"last_modified\":2}'>",
    );
    html.push_str("<a class=\"table-data file-name\" href=\"/entry/77\">y</a></div>");
    let entries = parse_entries(&html).unwrap();
    assert_eq!(entries.len(), 1);
    assert_eq!(entries[0].id, 77);
    assert_eq!(entries[0].name, "Beta");
}

#[test]
fn entry_with_malformed_json_is_excluded() {
    let mut html = String::new();
    html.push_str("<div class=\"entry\" data-extra='{\"name\": oops'>");
    html.push_str("<a class=\"table-data file-name\" href=\"/entry/5\">x</a></div>");
    html.push_str(
        "<div class=\"entry\" data-extra='{\"name\":\"Ok\",\"flags\":0,\"last_modified\":2}'>",
    );
    html.push_str("<a class=\"table-data file-name\" href=\"/entry/6\">y</a></div>");
    let entries = parse_entries(&html).unwrap();
    assert_eq!(entries.len(), 1);
    assert_eq!(entries[0].id, 6);
}

#[test]
fn entry_missing_required_field_is_excluded() {
    let mut html = String::new();
    html.push_str("<div class=\"entry\" data-extra='{\"name\":\"NoFlags\",\"last_modified\":2}'>");
    html.push_str("<a class=\"table-data file-name\" href=\"/entry/5\">x</a></div>");
    let entries = parse_entries(&html).unwrap();
    assert_eq!(entries.len(), 0);
}

#[test]
fn one_failed_listing_does_not_suppress_the_other() {
    let bodies = vec![Some(listing_page()), None];
    let entries = collect_entries(&bodies);
    assert_eq!(entries.len(), 3);
    assert_eq!(entries[0].id, 123);
    assert_eq!(entries[2].id, 789);

    let bodies = vec![None, Some(listing_page())];
    let entries = collect_entries(&bodies);
    assert_eq!(entries.len(), 3);
}

#[test]
fn parses_file_records_from_json_attributes() {
    let mut html = String::new();
    html.push_str(
        "<div class=\"entry\" data-extra='{\"name\":\"ep1.srt\",\"size\":2048,\"last_modified\":\"2024-01-01T00:00:00+00:00\"}'></div>",
    );
    html.push_str("<div class=\"entry\" data-extra='{\"name\":\"bad\"}'></div>");
    html.push_str(
        "<div class=\"entry\" data-extra='{\"name\":\"ep2.srt\",\"size\":4096,\"last_modified\":\"2024-01-02T00:00:00+00:00\"}'></div>",
    );
    let files = parse_files_data(&html).unwrap();
    assert_eq!(files.len(), 2);
    assert_eq!(files[0].name, "ep1.srt");
    assert_eq!(files[0].size, 2048);
    assert_eq!(files[1].size, 4096);
}

#[test]
fn decoded_listing_variant_reads_escaped_attributes() {
    let mut html = String::new();
    html.push_str(
        "<div class=\"entry\" data-extra=\"{&amp;quot;name&amp;quot;:&amp;quot;Esc&amp;quot;,&amp;quot;flags&amp;quot;:0,&amp;quot;last_modified&amp;quot;:9}\">",
    );
    html.push_str("<a class=\"table-data file-name\" href=\"/entry/11\">x</a></div>");
    let entries = ml_parser::parse::parse(&html);
    assert_eq!(entries.len(), 1);
    assert_eq!(entries[0].name, "Esc");
    assert_eq!(entries[0].id, 11);
}

#[test]
fn option_variant_parses_entries() {
    let entries = ml_parser::parse::entry::parse_entries(&listing_page()).unwrap();
    assert_eq!(entries.len(), 3);
    assert_eq!(entries[0].id, 123);
}

#[test]
fn dom_variant_reads_sizes_with_unit_suffix() {
    let mut html = String::new();
    html.push_str("<div class=\"entry\">");
    html.push_str("<a class=\"table-data file-name\">ep1.srt</a>");
    html.push_str("<span class=\"table-data file-size\">12.5 kB</span>");
    html.push_str("<span class=\"table-data file-modified\">2024-01-01T00:00:00+00:00</span>");
    html.push_str("</div>");
    html.push_str("<div class=\"entry\">");
    html.push_str("<a class=\"table-data file-name\">ep2.srt</a>");
    html.push_str("<span class=\"table-data file-size\">100 kB</span>");
    html.push_str("<span class=\"table-data file-modified\">2024-01-02T00:00:00+00:00</span>");
    html.push_str("</div>");
    html.push_str("<div class=\"entry\">");
    html.push_str("<a class=\"table-data file-name\">nosize.srt</a>");
    html.push_str("<span class=\"table-data file-size\">100 MB</span>");
    html.push_str("<span class=\"table-data file-modified\">2024-01-03T00:00:00+00:00</span>");
    html.push_str("</div>");
    let files = ml_parser::parse::file::parse_files_info(&html).unwrap();
    assert_eq!(files.len(), 2);
    assert_eq!(files[0].name, "ep1.srt");
    assert_eq!(files[0].size, 12800);
    assert_eq!(files[1].size, 102400);
}
