//! Trusted boundary: the declarations through which the verified library
//! uses the outside crates (scraper, serde_json, chrono, iso8601-duration)
//! and the few std functions that vstd leaves unspecified.
//!
//! Each outside call whose result is a pure function of its arguments but
//! too large to state is given a name (an `uninterp spec fn`); the wrapper's
//! contract equates its result with that name, and the verified logic is
//! proved for every value the name may take.

use vstd::prelude::*;

verus! {

/// Relies on std's `String::push`: appends one character at the end.
pub assume_specification[ std::string::String::push ](s: &mut String, c: char)
    ensures
        final(s)@ == old(s)@.push(c),
;

pub open spec fn opt_str_view(o: Option<String>) -> Option<Seq<char>> {
    match o {
        Some(s) => Some(s@),
        None => None,
    }
}

pub open spec fn path_view(path: Seq<&str>) -> Seq<Seq<char>> {
    path.map_values(|p: &str| p@)
}

// ---------------------------------------------------------------------------
// scraper: DOM queries over HTML text
// ---------------------------------------------------------------------------

/// One entry-marker element of a listing document: its JSON attribute and
/// the href of its nested file link, either of which may be absent.
pub struct EntryMarker {
    pub data_extra: Option<String>,
    pub href: Option<String>,
}

impl EntryMarker {
    pub open spec fn view_pair(self) -> (Option<Seq<char>>, Option<Seq<char>>) {
        (opt_str_view(self.data_extra), opt_str_view(self.href))
    }
}

/// The entry markers of a listing document, in document order.
pub uninterp spec fn entry_markers_of(doc: Seq<char>) -> Seq<(Option<Seq<char>>, Option<Seq<char>>)>;

/// Relies on scraper's `Html::parse_document`, `Selector::parse`, `select`,
/// and `Element::attr`: for each `div.entry` element, the `data-extra`
/// attribute and the `href` of the first nested `a.table-data.file-name`.
#[verifier::external_body]
pub(crate) fn entry_markers(doc: &str) -> (r: Vec<EntryMarker>)
    ensures
        r@.map_values(|m: EntryMarker| m.view_pair()) == entry_markers_of(doc@),
{
    let html = scraper::Html::parse_document(doc);
    let row = scraper::Selector::parse("div.entry").unwrap();
    let link = scraper::Selector::parse("a.table-data.file-name").unwrap();
    let mut out = Vec::new();
    for el in html.select(&row) {
        out.push(EntryMarker {
            data_extra: el.value().attr("data-extra").map(|s| s.to_string()),
            href: el.select(&link).next().and_then(|a| a.value().attr("href")).map(
                |s| s.to_string(),
            ),
        });
    }
    out
}

/// One file-row marker element of a detail document: the inner markup of
/// its name, size and modified cells, any of which may be absent.
pub struct FileCells {
    pub name: Option<String>,
    pub size: Option<String>,
    pub modified: Option<String>,
}

impl FileCells {
    pub open spec fn view_triple(self) -> (
        Option<Seq<char>>,
        Option<Seq<char>>,
        Option<Seq<char>>,
    ) {
        (opt_str_view(self.name), opt_str_view(self.size), opt_str_view(self.modified))
    }
}

/// The file-row cells of a detail document, in document order.
pub uninterp spec fn file_cells_of(doc: Seq<char>) -> Seq<
    (Option<Seq<char>>, Option<Seq<char>>, Option<Seq<char>>),
>;

/// Relies on scraper's `Html::parse_document`, `Selector::parse`, `select`
/// and `inner_html`: for each `div.entry` element, the inner markup of its
/// first `a.table-data.file-name`, `span.table-data.file-size` and
/// `span.table-data.file-modified` descendants.
#[verifier::external_body]
pub(crate) fn file_cells(doc: &str) -> (r: Vec<FileCells>)
    ensures
        r@.map_values(|m: FileCells| m.view_triple()) == file_cells_of(doc@),
{
    let html = scraper::Html::parse_document(doc);
    let row = scraper::Selector::parse("div.entry").unwrap();
    let name = scraper::Selector::parse("a.table-data.file-name").unwrap();
    let size = scraper::Selector::parse("span.table-data.file-size").unwrap();
    let modified = scraper::Selector::parse("span.table-data.file-modified").unwrap();
    let mut out = Vec::new();
    for el in html.select(&row) {
        out.push(FileCells {
            name: el.select(&name).next().map(|e| e.inner_html()),
            size: el.select(&size).next().map(|e| e.inner_html()),
            modified: el.select(&modified).next().map(|e| e.inner_html()),
        });
    }
    out
}

/// The inner content of the first `application/ld+json` script element of
/// a head fragment, if any.
pub uninterp spec fn script_block_of(head: Seq<char>) -> Option<Seq<char>>;

/// Relies on scraper's `Html::parse_document`, `Selector::parse`, `select`
/// and `inner_html`: the content of the first structured-data script tag.
#[verifier::external_body]
pub(crate) fn script_block(head: &str) -> (r: Option<String>)
    ensures
        opt_str_view(r) == script_block_of(head@),
{
    let html = scraper::Html::parse_document(head);
    let sel = scraper::Selector::parse("script[type=\"application/ld+json\"]").unwrap();
    html.select(&sel).next().map(|el| el.inner_html())
}

/// One label/value element pair of a body fragment: the label's text and
/// the text of the first paired value element, which may be absent.
pub struct DataSetPair {
    pub label: String,
    pub value: Option<String>,
}

impl DataSetPair {
    pub open spec fn view_pair(self) -> (Seq<char>, Option<Seq<char>>) {
        (self.label@, opt_str_view(self.value))
    }
}

/// The label/value pairs of a body fragment's `div.data-set` elements, in
/// document order; an element without a `div.type` contributes nothing.
pub uninterp spec fn data_sets_of(body: Seq<char>) -> Seq<(Seq<char>, Option<Seq<char>>)>;

/// Relies on scraper's `Html::parse_document`, `Selector::parse`, `select`
/// and `text`: for each `div.data-set` with a `div.type`, the label's
/// concatenated text and the first `div.value`'s concatenated text,
/// untrimmed. Which pair a field marker names is decided in verified code.
#[verifier::external_body]
pub(crate) fn data_set_pairs(body: &str) -> (r: Vec<DataSetPair>)
    ensures
        r@.map_values(|p: DataSetPair| p.view_pair()) == data_sets_of(body@),
{
    let html = scraper::Html::parse_document(body);
    let row = scraper::Selector::parse("div.data-set").unwrap();
    let ty = scraper::Selector::parse("div.type").unwrap();
    let val = scraper::Selector::parse("div.value").unwrap();
    let mut out = Vec::new();
    for el in html.select(&row) {
        if let Some(t) = el.select(&ty).next() {
            out.push(DataSetPair {
                label: t.text().collect::<Vec<_>>().join(""),
                value: el.select(&val).next().map(|v| v.text().collect::<Vec<_>>().join("")),
            });
        }
    }
    out
}

// ---------------------------------------------------------------------------
// serde_json: reads into a JSON document
// ---------------------------------------------------------------------------

/// Whether `s` is a well-formed JSON document.
pub uninterp spec fn json_valid_of(s: Seq<char>) -> bool;

/// Relies on serde_json's `from_str`: whether the text parses as JSON.
#[verifier::external_body]
pub(crate) fn json_valid(s: &str) -> (r: bool)
    ensures
        r == json_valid_of(s@),
{
    serde_json::from_str::<serde_json::Value>(s).is_ok()
}

/// The integer at `path` in the JSON document `s`: `None` when the text is
/// not valid JSON, the path is absent, or the value there is not an `i64`.
pub uninterp spec fn json_i64_of(s: Seq<char>, path: Seq<Seq<char>>) -> Option<i64>;

/// Relies on serde_json's `from_str`, `Value::get` and `Value::as_i64`.
#[verifier::external_body]
pub(crate) fn json_i64_at(s: &str, path: &[&str]) -> (r: Option<i64>)
    ensures
        r == json_i64_of(s@, path_view(path@)),
{
    let v = serde_json::from_str::<serde_json::Value>(s).ok()?;
    let mut cur = &v;
    for key in path {
        cur = cur.get(*key)?;
    }
    cur.as_i64()
}

/// The string at `path` in the JSON document `s`, under the same absence
/// rules as the integer read.
pub uninterp spec fn json_str_of(s: Seq<char>, path: Seq<Seq<char>>) -> Option<Seq<char>>;

/// Relies on serde_json's `from_str`, `Value::get` and `Value::as_str`.
#[verifier::external_body]
pub(crate) fn json_str_at(s: &str, path: &[&str]) -> (r: Option<String>)
    ensures
        opt_str_view(r) == json_str_of(s@, path_view(path@)),
{
    let v = serde_json::from_str::<serde_json::Value>(s).ok()?;
    let mut cur = &v;
    for key in path {
        cur = cur.get(*key)?;
    }
    cur.as_str().map(|x| x.to_string())
}

/// The array at `path` in the JSON document `s`, each element read as a
/// string (`None` for a non-string element); `None` when the path is
/// absent or does not hold an array.
pub uninterp spec fn json_str_items_of(s: Seq<char>, path: Seq<Seq<char>>) -> Option<
    Seq<Option<Seq<char>>>,
>;

/// Relies on serde_json's `from_str`, `Value::get`, `Value::as_array` and
/// `Value::as_str`.
#[verifier::external_body]
pub(crate) fn json_str_items_at(s: &str, path: &[&str]) -> (r: Option<Vec<Option<String>>>)
    ensures
        match r {
            Some(items) => json_str_items_of(s@, path_view(path@)) == Some(
                items@.map_values(|o: Option<String>| opt_str_view(o)),
            ),
            None => json_str_items_of(s@, path_view(path@)) is None,
        },
{
    let v = serde_json::from_str::<serde_json::Value>(s).ok()?;
    let mut cur = &v;
    for key in path {
        cur = cur.get(*key)?;
    }
    let arr = cur.as_array()?;
    let mut out = Vec::new();
    for item in arr {
        out.push(item.as_str().map(|x| x.to_string()));
    }
    Some(out)
}

/// The array at `path` in the JSON document `s`, each element read as the
/// string under `key` of that element (`None` when the element lacks a
/// string there); `None` when the path is absent or not an array.
pub uninterp spec fn json_key_items_of(s: Seq<char>, path: Seq<Seq<char>>, key: Seq<char>) -> Option<
    Seq<Option<Seq<char>>>,
>;

/// Relies on serde_json's `from_str`, `Value::get`, `Value::as_array` and
/// `Value::as_str`.
#[verifier::external_body]
pub(crate) fn json_key_items_at(s: &str, path: &[&str], key: &str) -> (r: Option<
    Vec<Option<String>>,
>)
    ensures
        match r {
            Some(items) => json_key_items_of(s@, path_view(path@), key@) == Some(
                items@.map_values(|o: Option<String>| opt_str_view(o)),
            ),
            None => json_key_items_of(s@, path_view(path@), key@) is None,
        },
{
    let v = serde_json::from_str::<serde_json::Value>(s).ok()?;
    let mut cur = &v;
    for k in path {
        cur = cur.get(*k)?;
    }
    let arr = cur.as_array()?;
    let mut out = Vec::new();
    for item in arr {
        out.push(item.get(key).and_then(|x| x.as_str()).map(|x| x.to_string()));
    }
    Some(out)
}

// ---------------------------------------------------------------------------
// Verified adapters: fixed-depth paths over the JSON wrappers
// ---------------------------------------------------------------------------

pub fn json_str_field(d: &str, k: &str) -> (r: Option<String>)
    ensures
        opt_str_view(r) == json_str_of(d@, seq![k@]),
{
    let path: &[&str] = &[k];
    proof {
        assert(path_view(path@) =~= seq![k@]);
    }
    json_str_at(d, path)
}

pub fn json_i64_field(d: &str, k: &str) -> (r: Option<i64>)
    ensures
        r == json_i64_of(d@, seq![k@]),
{
    let path: &[&str] = &[k];
    proof {
        assert(path_view(path@) =~= seq![k@]);
    }
    json_i64_at(d, path)
}

pub fn json_str_field2(d: &str, k1: &str, k2: &str) -> (r: Option<String>)
    ensures
        opt_str_view(r) == json_str_of(d@, seq![k1@, k2@]),
{
    let path: &[&str] = &[k1, k2];
    proof {
        assert(path_view(path@) =~= seq![k1@, k2@]);
    }
    json_str_at(d, path)
}

pub fn json_i64_field2(d: &str, k1: &str, k2: &str) -> (r: Option<i64>)
    ensures
        r == json_i64_of(d@, seq![k1@, k2@]),
{
    let path: &[&str] = &[k1, k2];
    proof {
        assert(path_view(path@) =~= seq![k1@, k2@]);
    }
    json_i64_at(d, path)
}

pub fn json_i64_field3(d: &str, k1: &str, k2: &str, k3: &str) -> (r: Option<i64>)
    ensures
        r == json_i64_of(d@, seq![k1@, k2@, k3@]),
{
    let path: &[&str] = &[k1, k2, k3];
    proof {
        assert(path_view(path@) =~= seq![k1@, k2@, k3@]);
    }
    json_i64_at(d, path)
}

pub fn json_str_items_field2(d: &str, k1: &str, k2: &str) -> (r: Option<Vec<Option<String>>>)
    ensures
        match r {
            Some(items) => json_str_items_of(d@, seq![k1@, k2@]) == Some(
                items@.map_values(|o: Option<String>| opt_str_view(o)),
            ),
            None => json_str_items_of(d@, seq![k1@, k2@]) is None,
        },
{
    let path: &[&str] = &[k1, k2];
    proof {
        assert(path_view(path@) =~= seq![k1@, k2@]);
    }
    json_str_items_at(d, path)
}

pub fn json_key_items_field2(d: &str, k1: &str, k2: &str, key: &str) -> (r: Option<
    Vec<Option<String>>,
>)
    ensures
        match r {
            Some(items) => json_key_items_of(d@, seq![k1@, k2@], key@) == Some(
                items@.map_values(|o: Option<String>| opt_str_view(o)),
            ),
            None => json_key_items_of(d@, seq![k1@, k2@], key@) is None,
        },
{
    let path: &[&str] = &[k1, k2];
    proof {
        assert(path_view(path@) =~= seq![k1@, k2@]);
    }
    json_key_items_at(d, path, key)
}

// ---------------------------------------------------------------------------
// chrono and iso8601-duration: calendar arithmetic
// ---------------------------------------------------------------------------

/// Epoch seconds of an RFC 3339 timestamp; `None` when it does not parse.
pub uninterp spec fn rfc3339_epoch_of(s: Seq<char>) -> Option<i64>;

/// Relies on chrono's `DateTime::parse_from_rfc3339` and `timestamp`.
#[verifier::external_body]
pub(crate) fn rfc3339_epoch(s: &str) -> (r: Option<i64>)
    ensures
        r == rfc3339_epoch_of(s@),
{
    chrono::DateTime::parse_from_rfc3339(s).ok().map(|dt| dt.timestamp())
}

/// Epoch seconds of the midnight starting a `YYYY-MM-DD` calendar date;
/// `None` when the text is not such a date.
pub uninterp spec fn date_epoch_of(s: Seq<char>) -> Option<i64>;

/// Relies on chrono's `NaiveDate::parse_from_str`, `and_hms_opt`,
/// `and_utc` and `timestamp`.
#[verifier::external_body]
pub(crate) fn date_epoch_seconds(s: &str) -> (r: Option<i64>)
    ensures
        r == date_epoch_of(s@),
{
    chrono::NaiveDate::parse_from_str(s, "%Y-%m-%d").ok().and_then(|d| d.and_hms_opt(0, 0, 0)).map(
        |dt| dt.and_utc().timestamp(),
    )
}

/// Total milliseconds of a plain ISO 8601 duration text; `None` when the
/// text does not parse or the duration carries year or month components,
/// whose length depends on a start date.
pub uninterp spec fn duration_millis_of(s: Seq<char>) -> Option<i64>;

/// Relies on iso8601-duration's `Duration::parse` and `to_chrono`, and on
/// chrono's `Duration::num_milliseconds`. The precondition admits only
/// plain component characters with digit runs shorter than ten: each
/// parsed component is then below ten billion, the total stays under a
/// millionth of what chrono's seconds constructor aborts on, and the text
/// can carry no sign or exponent that would let the parser's float reach
/// farther. Without it a long enough duration aborts the process.
#[verifier::external_body]
pub(crate) fn duration_milliseconds(s: &str) -> (r: Option<i64>)
    requires
        crate::text::duration_text_ok(s@),
    ensures
        r == duration_millis_of(s@),
{
    s.parse::<iso8601_duration::Duration>().ok().and_then(|d| d.to_chrono()).map(
        |d| d.num_milliseconds(),
    )
}

} // verus!
