//! Two-source reconciliation of one metadata entry: a structured JSON
//! block in the head fragment is read first, then label/value pairs of
//! the body fragment fill what the head left unset. Head wins when
//! present; a live airing count always supersedes the episode count.

use crate::errors::ParseError;
use crate::external;
use crate::parse::anilist::format::{format_of, to_format, Format};
use crate::parse::anilist::genre::{convert_genres, genres_of, Genre};
use crate::parse::anilist::source::{source_of, to_source, Source};
use crate::parse::anilist::status::{status_of, to_status, Status};
use crate::text;
use crate::util::{lemma_unwrap_all_prefix_none, lemma_unwrap_all_snoc, unwrap_all};
use vstd::prelude::*;

verus! {

/// The reconciled metadata of one entry. Fields the sources left unset
/// stay unset here; rendering decides their sentinel.
#[derive(Debug)]
pub struct Entry {
    pub format: Option<Format>,
    pub status: Option<Status>,
    pub source: Option<Source>,
    pub genres: Vec<Genre>,
    pub episodes_amount: Option<i32>,
    pub time_required: Option<String>,
    pub start_date: Option<String>,
    pub end_date: Option<String>,
    pub rating_value: Option<i32>,
    pub rating_count: Option<i32>,
    pub production_company: Option<i32>,
    pub producer: Option<i32>,
    pub creator: Option<i32>,
}

/// Ghost image of an [`Entry`].
pub ghost struct EntryModel {
    pub format: Option<Format>,
    pub status: Option<Status>,
    pub source: Option<Source>,
    pub genres: Seq<Genre>,
    pub episodes_amount: Option<i32>,
    pub time_required: Option<Seq<char>>,
    pub start_date: Option<Seq<char>>,
    pub end_date: Option<Seq<char>>,
    pub rating_value: Option<i32>,
    pub rating_count: Option<i32>,
    pub production_company: Option<i32>,
    pub producer: Option<i32>,
    pub creator: Option<i32>,
}

impl View for Entry {
    type V = EntryModel;

    open spec fn view(&self) -> EntryModel {
        EntryModel {
            format: self.format,
            status: self.status,
            source: self.source,
            genres: self.genres@,
            episodes_amount: self.episodes_amount,
            time_required: external::opt_str_view(self.time_required),
            start_date: external::opt_str_view(self.start_date),
            end_date: external::opt_str_view(self.end_date),
            rating_value: self.rating_value,
            rating_count: self.rating_count,
            production_company: self.production_company,
            producer: self.producer,
            creator: self.creator,
        }
    }
}

/// Accumulator for the fields of one entry while the two fragments are
/// consulted; reconciliation produces an immutable [`Entry`] only once
/// both have been.
#[derive(Debug)]
pub struct PendingEntry {
    pub format: Option<Format>,
    pub status: Option<Status>,
    pub source: Option<Source>,
    pub genres: Vec<Genre>,
    pub episodes_amount: Option<i32>,
    pub time_required: Option<String>,
    pub start_date: Option<String>,
    pub end_date: Option<String>,
    pub rating_value: Option<i32>,
    pub rating_count: Option<i32>,
    pub production_companies: Option<Vec<i32>>,
    pub producers: Option<Vec<i32>>,
    pub creators: Option<Vec<i32>>,
}

/// Ghost image of a [`PendingEntry`].
pub ghost struct PendingModel {
    pub format: Option<Format>,
    pub status: Option<Status>,
    pub source: Option<Source>,
    pub genres: Seq<Genre>,
    pub episodes_amount: Option<i32>,
    pub time_required: Option<Seq<char>>,
    pub start_date: Option<Seq<char>>,
    pub end_date: Option<Seq<char>>,
    pub rating_value: Option<i32>,
    pub rating_count: Option<i32>,
    pub production_companies: Option<Seq<i32>>,
    pub producers: Option<Seq<i32>>,
    pub creators: Option<Seq<i32>>,
}

pub open spec fn opt_ids_view(o: Option<Vec<i32>>) -> Option<Seq<i32>> {
    match o {
        Some(v) => Some(v@),
        None => None,
    }
}

impl View for PendingEntry {
    type V = PendingModel;

    open spec fn view(&self) -> PendingModel {
        PendingModel {
            format: self.format,
            status: self.status,
            source: self.source,
            genres: self.genres@,
            episodes_amount: self.episodes_amount,
            time_required: external::opt_str_view(self.time_required),
            start_date: external::opt_str_view(self.start_date),
            end_date: external::opt_str_view(self.end_date),
            rating_value: self.rating_value,
            rating_count: self.rating_count,
            production_companies: opt_ids_view(self.production_companies),
            producers: opt_ids_view(self.producers),
            creators: opt_ids_view(self.creators),
        }
    }
}

// ---------------------------------------------------------------------------
// Cross-reference ids in relation URLs
// ---------------------------------------------------------------------------

/// The first slash-separated segment of a URL that reads as an `i32`.
pub open spec fn first_parsable(segs: Seq<Seq<char>>) -> Option<i32>
    decreases segs.len(),
{
    if segs.len() == 0 {
        None
    } else {
        match text::parse_i32_spec(segs[0]) {
            Some(v) => Some(v),
            None => first_parsable(segs.drop_first()),
        }
    }
}

/// The numeric cross-reference id a URL carries, if any.
pub open spec fn extract_id_spec(url: Seq<char>) -> Option<i32> {
    first_parsable(text::split_char(url, '/'))
}

/// Extracts the numeric id from a URL-shaped reference: the first
/// slash-separated segment that reads as an `i32`.
#[verifier::loop_isolation(false)]
pub fn extract_id_from_url(url: &str) -> (r: Result<i32, ParseError>)
    ensures
        match r {
            Ok(id) => extract_id_spec(url@) == Some(id),
            Err(e) => extract_id_spec(url@) is None && e == ParseError::MissingRelationId,
        },
{
    let parts = text::split(url, '/');
    let ghost segs = text::split_char(url@, '/');
    proof {
        assert(segs.skip(0) =~= segs);
    }
    let mut i: usize = 0;
    while i < parts.len()
        invariant
            parts.deep_view() == segs,
            i <= parts.len(),
            first_parsable(segs) == first_parsable(segs.skip(i as int)),
        decreases parts.len() - i,
    {
        proof {
            assert(segs.skip(i as int).len() > 0);
            assert(segs.skip(i as int)[0] == segs[i as int]);
            assert(segs.skip(i as int).drop_first() =~= segs.skip(i + 1));
            assert(segs[i as int] == parts@[i as int]@);
        }
        match text::parse_i32(parts[i].as_str()) {
            Some(v) => {
                proof {
                    assert(text::parse_i32_spec(segs.skip(i as int)[0]) == Some(v));
                    assert(first_parsable(segs.skip(i as int)) == Some(v));
                }
                return Ok(v);
            },
            None => {},
        }
        i += 1;
    }
    proof {
        assert(segs.skip(parts@.len() as int) =~= Seq::<Seq<char>>::empty());
    }
    Err(ParseError::MissingRelationId)
}

/// The ids a relation array yields: `None` as soon as an element lacks
/// its reference or the reference carries no numeric segment.
pub open spec fn relation_fold(items: Seq<Option<Seq<char>>>) -> Option<Seq<i32>>
    decreases items.len(),
{
    if items.len() == 0 {
        Some(Seq::empty())
    } else {
        match items[0] {
            None => None,
            Some(url) => match extract_id_spec(url) {
                None => None,
                Some(id) => match relation_fold(items.drop_first()) {
                    None => None,
                    Some(rest) => Some(seq![id] + rest),
                },
            },
        }
    }
}

proof fn lemma_relation_fold_snoc(items: Seq<Option<Seq<char>>>, o: Option<Seq<char>>)
    ensures
        relation_fold(items.push(o)) == match (relation_fold(items), o) {
            (Some(ids), Some(url)) => match extract_id_spec(url) {
                Some(id) => Some::<Seq<i32>>(ids.push(id)),
                None => None::<Seq<i32>>,
            },
            _ => None::<Seq<i32>>,
        },
    decreases items.len(),
{
    if items.len() == 0 {
        assert(items.push(o).drop_first() =~= items);
        match o {
            Some(url) => {
                match extract_id_spec(url) {
                    Some(id) => {
                        assert(seq![id] + Seq::<i32>::empty() =~= relation_fold(
                            items,
                        )->Some_0.push(id));
                    },
                    None => {},
                }
            },
            None => {},
        }
    } else {
        lemma_relation_fold_snoc(items.drop_first(), o);
        assert(items.push(o).drop_first() =~= items.drop_first().push(o));
        match (items[0], o) {
            (Some(url0), Some(url)) => {
                match (
                    extract_id_spec(url0),
                    relation_fold(items.drop_first()),
                    extract_id_spec(url),
                ) {
                    (Some(id0), Some(rest), Some(id)) => {
                        assert(seq![id0] + rest.push(id) =~= (seq![id0] + rest).push(id));
                    },
                    _ => {},
                }
            },
            _ => {},
        }
    }
}

proof fn lemma_relation_fold_prefix_none(items: Seq<Option<Seq<char>>>, n: int)
    requires
        0 <= n <= items.len(),
        relation_fold(items.subrange(0, n)) is None,
    ensures
        relation_fold(items) is None,
    decreases items.len() - n,
{
    if n < items.len() {
        assert(items.subrange(0, n + 1) =~= items.subrange(0, n).push(items[n]));
        lemma_relation_fold_snoc(items.subrange(0, n), items[n]);
        lemma_relation_fold_prefix_none(items, n + 1);
    } else {
        assert(items.subrange(0, n) =~= items);
    }
}

/// The cross-reference ids of one relation of the head block: the outer
/// `None` is a parse failure; `Some(None)` an absent relation.
pub open spec fn relation_ids(js: Seq<char>, key: Seq<char>) -> Option<Option<Seq<i32>>> {
    match external::json_key_items_of(js, seq!["mainEntity"@, key], "@id"@) {
        None => Some(None),
        Some(items) => match relation_fold(items) {
            None => None,
            Some(ids) => Some(Some(ids)),
        },
    }
}

#[verifier::loop_isolation(false)]
fn parse_relation(js: &str, key: &str) -> (r: Result<Option<Vec<i32>>, ParseError>)
    ensures
        match r {
            Ok(v) => relation_ids(js@, key@) == Some(opt_ids_view(v)),
            Err(e) => relation_ids(js@, key@) is None && e == ParseError::MissingRelationId,
        },
{
    let items = match external::json_key_items_field2(js, "mainEntity", key, "@id") {
        None => {
            return Ok(None);
        },
        Some(items) => items,
    };
    let ghost views = items@.map_values(|o: Option<String>| external::opt_str_view(o));
    let mut ids: Vec<i32> = Vec::new();
    let mut i: usize = 0;
    while i < items.len()
        invariant
            views == items@.map_values(|o: Option<String>| external::opt_str_view(o)),
            external::json_key_items_of(js@, seq!["mainEntity"@, key@], "@id"@) == Some(views),
            i <= items.len(),
            relation_fold(views.subrange(0, i as int)) == Some(ids@),
        decreases items.len() - i,
    {
        proof {
            assert(views.subrange(0, i + 1) =~= views.subrange(0, i as int).push(views[i as int]));
            lemma_relation_fold_snoc(views.subrange(0, i as int), views[i as int]);
        }
        match &items[i] {
            Some(url) => {
                match extract_id_from_url(url.as_str()) {
                    Ok(id) => {
                        ids.push(id);
                    },
                    Err(_) => {
                        proof {
                            lemma_relation_fold_prefix_none(views, i + 1);
                        }
                        return Err(ParseError::MissingRelationId);
                    },
                }
            },
            None => {
                proof {
                    lemma_relation_fold_prefix_none(views, i + 1);
                }
                return Err(ParseError::MissingRelationId);
            },
        }
        i += 1;
    }
    proof {
        assert(views.subrange(0, items@.len() as int) =~= views);
    }
    Ok(Some(ids))
}

// ---------------------------------------------------------------------------
// The head block
// ---------------------------------------------------------------------------

pub open spec fn head_episodes(js: Seq<char>) -> Option<i32> {
    match external::json_i64_of(js, seq!["mainEntity"@, "numberOfEpisodes"@]) {
        Some(v) => if i32::MIN <= v <= i32::MAX {
            Some(v as i32)
        } else {
            None
        },
        None => None,
    }
}

pub open spec fn head_rating_raw(js: Seq<char>, key: Seq<char>) -> Option<i64> {
    external::json_i64_of(js, seq!["mainEntity"@, "aggregateRating"@, key])
}

/// The genre names of the head block: an absent list reads as empty; a
/// non-string element is a parse failure.
pub open spec fn head_genre_names(js: Seq<char>) -> Option<Seq<Seq<char>>> {
    match external::json_str_items_of(js, seq!["mainEntity"@, "genre"@]) {
        None => Some(Seq::empty()),
        Some(items) => unwrap_all(items),
    }
}

/// The format the head block declares, if any: an unrecognized textual
/// value is a parse failure, never coerced.
pub open spec fn head_format(js: Seq<char>) -> Result<Option<Format>, ParseError> {
    match external::json_str_of(js, seq!["mainEntity"@, "format"@]) {
        None => Ok(None),
        Some(text) => match format_of(text) {
            Some(f) => Ok(Some(f)),
            None => Err(ParseError::UnknownFormat),
        },
    }
}

/// The status the head block declares, if any.
pub open spec fn head_status(js: Seq<char>) -> Result<Option<Status>, ParseError> {
    match external::json_str_of(js, seq!["mainEntity"@, "status"@]) {
        None => Ok(None),
        Some(text) => match status_of(text) {
            Some(s) => Ok(Some(s)),
            None => Err(ParseError::UnknownStatus),
        },
    }
}

/// The source the head block declares, if any; as with the body fragment,
/// an unrecognized source leaves the field unset.
pub open spec fn head_source(js: Seq<char>) -> Option<Source> {
    match external::json_str_of(js, seq!["mainEntity"@, "source"@]) {
        None => None,
        Some(text) => source_of(text),
    }
}

/// What reading the head fragment yields: the pending entry, or the first
/// failure in reading order (script block, JSON shape, format and status
/// vocabulary, rating bounds, genres, then each relation).
pub open spec fn head_result(head: Seq<char>) -> Result<PendingModel, ParseError> {
    match external::script_block_of(head) {
        None => Err(ParseError::MissingScript),
        Some(js) => if !external::json_valid_of(js) {
            Err(ParseError::InvalidJson)
        } else if head_format(js) is Err {
            Err(head_format(js)->Err_0)
        } else if head_status(js) is Err {
            Err(head_status(js)->Err_0)
        } else {
            let rating_value = head_rating_raw(js, "ratingValue"@);
            let rating_count = head_rating_raw(js, "ratingCount"@);
            if rating_value is Some && !(i32::MIN <= rating_value->Some_0 <= i32::MAX) {
                Err(ParseError::BadNumber)
            } else if rating_count is Some && !(i32::MIN <= rating_count->Some_0 <= i32::MAX) {
                Err(ParseError::BadNumber)
            } else {
                match head_genre_names(js) {
                    None => Err(ParseError::UnknownGenre),
                    Some(names) => match genres_of(names) {
                        None => Err(ParseError::UnknownGenre),
                        Some(genres) => match relation_ids(js, "productionCompany"@) {
                            None => Err(ParseError::MissingRelationId),
                            Some(production_companies) => match relation_ids(js, "producer"@) {
                                None => Err(ParseError::MissingRelationId),
                                Some(producers) => match relation_ids(js, "creator"@) {
                                    None => Err(ParseError::MissingRelationId),
                                    Some(creators) => Ok(
                                        PendingModel {
                                            format: head_format(js)->Ok_0,
                                            status: head_status(js)->Ok_0,
                                            source: head_source(js),
                                            genres: genres,
                                            episodes_amount: head_episodes(js),
                                            time_required: external::json_str_of(
                                                js,
                                                seq!["mainEntity"@, "timeRequired"@],
                                            ),
                                            start_date: external::json_str_of(
                                                js,
                                                seq!["mainEntity"@, "startDate"@],
                                            ),
                                            end_date: external::json_str_of(
                                                js,
                                                seq!["mainEntity"@, "endDate"@],
                                            ),
                                            rating_value: match rating_value {
                                                Some(v) => Some(v as i32),
                                                None => None,
                                            },
                                            rating_count: match rating_count {
                                                Some(v) => Some(v as i32),
                                                None => None,
                                            },
                                            production_companies: production_companies,
                                            producers: producers,
                                            creators: creators,
                                        },
                                    ),
                                },
                            },
                        },
                    },
                }
            }
        },
    }
}

/// Reads the structured JSON block of the head fragment into a pending
/// entry: format, status and source when the block declares them, the
/// episode count, the raw duration and date strings, the rating pair, the
/// genre list, and the first-kept company relations.
#[verifier::loop_isolation(false)]
pub fn parse_head_data(head_data: &str) -> (r: Result<PendingEntry, ParseError>)
    ensures
        match r {
            Ok(p) => head_result(head_data@) == Ok::<PendingModel, ParseError>(p@),
            Err(e) => head_result(head_data@) == Err::<PendingModel, ParseError>(e),
        },
{
    let script = match external::script_block(head_data) {
        Some(s) => s,
        None => {
            return Err(ParseError::MissingScript);
        },
    };
    let js = script.as_str();
    if !external::json_valid(js) {
        return Err(ParseError::InvalidJson);
    }
    let format: Option<Format> = match external::json_str_field2(js, "mainEntity", "format") {
        None => None,
        Some(text) => match to_format(text.as_str()) {
            Ok(f) => Some(f),
            Err(e) => {
                return Err(e);
            },
        },
    };
    let status: Option<Status> = match external::json_str_field2(js, "mainEntity", "status") {
        None => None,
        Some(text) => match to_status(text.as_str()) {
            Ok(s) => Some(s),
            Err(e) => {
                return Err(e);
            },
        },
    };
    let source: Option<Source> = match external::json_str_field2(js, "mainEntity", "source") {
        None => None,
        Some(text) => match to_source(text.as_str()) {
            Ok(s) => Some(s),
            Err(_) => None,
        },
    };
    let rating_value = match external::json_i64_field3(js, "mainEntity", "aggregateRating",
        "ratingValue") {
        Some(v) => {
            if -2147483648i64 <= v && v <= 2147483647i64 {
                Some(v as i32)
            } else {
                return Err(ParseError::BadNumber);
            }
        },
        None => None,
    };
    let rating_count = match external::json_i64_field3(js, "mainEntity", "aggregateRating",
        "ratingCount") {
        Some(v) => {
            if -2147483648i64 <= v && v <= 2147483647i64 {
                Some(v as i32)
            } else {
                return Err(ParseError::BadNumber);
            }
        },
        None => None,
    };
    let genre_names: Vec<String> = match external::json_str_items_field2(js, "mainEntity",
        "genre") {
        None => Vec::new(),
        Some(items) => {
            let ghost views = items@.map_values(|o: Option<String>| external::opt_str_view(o));
            let mut names: Vec<String> = Vec::new();
            let mut i: usize = 0;
            while i < items.len()
                invariant
                    views == items@.map_values(|o: Option<String>| external::opt_str_view(o)),
                    i <= items.len(),
                    unwrap_all(views.subrange(0, i as int)) == Some(names.deep_view()),
                decreases items.len() - i,
            {
                proof {
                    assert(views.subrange(0, i + 1) =~= views.subrange(0, i as int).push(
                        views[i as int],
                    ));
                    lemma_unwrap_all_snoc(views.subrange(0, i as int), views[i as int]);
                }
                match &items[i] {
                    Some(name) => {
                        names.push(name.clone());
                        proof {
                            assert(names.deep_view() =~= unwrap_all(
                                views.subrange(0, i + 1),
                            )->Some_0);
                        }
                    },
                    None => {
                        proof {
                            lemma_unwrap_all_prefix_none(views, i + 1);
                        }
                        return Err(ParseError::UnknownGenre);
                    },
                }
                i += 1;
            }
            proof {
                assert(views.subrange(0, items@.len() as int) =~= views);
            }
            names
        },
    };
    proof {
        if external::json_str_items_of(js@, seq!["mainEntity"@, "genre"@]) is None {
            assert(genre_names.deep_view() =~= Seq::<Seq<char>>::empty());
        }
    }
    proof {
        assert(external::script_block_of(head_data@) == Some(script@));
        assert(head_genre_names(script@) == Some(genre_names.deep_view()));
    }
    let genres = match convert_genres(&genre_names) {
        Ok(gs) => gs,
        Err(_) => {
            proof {
                assert(head_result(head_data@) == Err::<PendingModel, ParseError>(
                    ParseError::UnknownGenre,
                ));
            }
            return Err(ParseError::UnknownGenre);
        },
    };
    let production_companies = match parse_relation(js, "productionCompany") {
        Ok(v) => v,
        Err(e) => {
            return Err(e);
        },
    };
    let producers = match parse_relation(js, "producer") {
        Ok(v) => v,
        Err(e) => {
            return Err(e);
        },
    };
    let creators = match parse_relation(js, "creator") {
        Ok(v) => v,
        Err(e) => {
            return Err(e);
        },
    };
    let episodes_amount = match external::json_i64_field2(js, "mainEntity", "numberOfEpisodes") {
        Some(v) => {
            if -2147483648i64 <= v && v <= 2147483647i64 {
                Some(v as i32)
            } else {
                None
            }
        },
        None => None,
    };
    Ok(
        PendingEntry {
            format,
            status,
            source,
            genres,
            episodes_amount,
            time_required: external::json_str_field2(js, "mainEntity", "timeRequired"),
            start_date: external::json_str_field2(js, "mainEntity", "startDate"),
            end_date: external::json_str_field2(js, "mainEntity", "endDate"),
            rating_value,
            rating_count,
            production_companies,
            producers,
            creators,
        },
    )
}

// ---------------------------------------------------------------------------
// The body fragment
// ---------------------------------------------------------------------------

/// The value of the first label/value pair whose label carries the
/// marker and whose value element is present; later pairs are reached
/// only while neither holds.
pub open spec fn field_lookup(
    pairs: Seq<(Seq<char>, Option<Seq<char>>)>,
    label: Seq<char>,
) -> Option<Seq<char>>
    decreases pairs.len(),
{
    if pairs.len() == 0 {
        None
    } else if text::contains_sub(pairs[0].0, label) && pairs[0].1 is Some {
        pairs[0].1
    } else {
        field_lookup(pairs.drop_first(), label)
    }
}

/// The text of the body field a marker substring names, if any.
pub open spec fn body_field(body: Seq<char>, label: Seq<char>) -> Option<Seq<char>> {
    field_lookup(external::data_sets_of(body), label)
}

/// Scans the body fragment's label/value pairs for the first whose label
/// carries the marker and whose value is present.
#[verifier::loop_isolation(false)]
fn body_field_value(body_data: &str, label: &str) -> (r: Option<String>)
    ensures
        external::opt_str_view(r) == body_field(body_data@, label@),
{
    let pairs = external::data_set_pairs(body_data);
    let ghost all = pairs@.map_values(|p: external::DataSetPair| p.view_pair());
    proof {
        assert(all.skip(0) =~= all);
    }
    let mut i: usize = 0;
    while i < pairs.len()
        invariant
            all == pairs@.map_values(|p: external::DataSetPair| p.view_pair()),
            all == external::data_sets_of(body_data@),
            i <= pairs.len(),
            field_lookup(all, label@) == field_lookup(all.skip(i as int), label@),
        decreases pairs.len() - i,
    {
        proof {
            assert(all.skip(i as int).len() > 0);
            assert(all.skip(i as int)[0] == all[i as int]);
            assert(all.skip(i as int).drop_first() =~= all.skip(i + 1));
            assert(all[i as int] == pairs@[i as int].view_pair());
        }
        if text::str_contains(pairs[i].label.as_str(), label) {
            match &pairs[i].value {
                Some(v) => {
                    return Some(v.clone());
                },
                None => {},
            }
        }
        i += 1;
    }
    proof {
        assert(all.skip(pairs@.len() as int) =~= Seq::<(Seq<char>, Option<Seq<char>>)>::empty());
    }
    None
}

/// What scanning the body for its format field yields.
pub open spec fn body_format_result(body: Seq<char>) -> Result<Format, ParseError> {
    match body_field(body, "Format"@) {
        None => Err(ParseError::MissingField),
        Some(raw) => match format_of(text::trim_spec(raw)) {
            Some(f) => Ok(f),
            None => Err(ParseError::UnknownFormat),
        },
    }
}

/// Scans the body fragment's label/value pairs for the format field and
/// validates its value against the fixed vocabulary.
pub fn parse_body_format(body_data: &str) -> (r: Result<Format, ParseError>)
    ensures
        r == body_format_result(body_data@),
{
    match body_field_value(body_data, "Format") {
        None => Err(ParseError::MissingField),
        Some(raw) => {
            let trimmed = text::trim(raw.as_str());
            to_format(trimmed.as_str())
        },
    }
}

/// What scanning the body for its status field yields.
pub open spec fn body_status_result(body: Seq<char>) -> Result<Status, ParseError> {
    match body_field(body, "Status"@) {
        None => Err(ParseError::MissingField),
        Some(raw) => match status_of(text::trim_spec(raw)) {
            Some(s) => Ok(s),
            None => Err(ParseError::UnknownStatus),
        },
    }
}

/// Scans the body fragment's label/value pairs for the status field and
/// validates its value against the fixed vocabulary.
pub fn parse_body_status(body_data: &str) -> (r: Result<Status, ParseError>)
    ensures
        r == body_status_result(body_data@),
{
    match body_field_value(body_data, "Status") {
        None => Err(ParseError::MissingField),
        Some(raw) => {
            let trimmed = text::trim(raw.as_str());
            to_status(trimmed.as_str())
        },
    }
}

/// What scanning the body for its source field yields.
pub open spec fn body_source_result(body: Seq<char>) -> Result<Source, ParseError> {
    match body_field(body, "Source"@) {
        None => Err(ParseError::MissingField),
        Some(raw) => match source_of(text::trim_spec(raw)) {
            Some(s) => Ok(s),
            None => Err(ParseError::UnknownSource),
        },
    }
}

/// Scans the body fragment's label/value pairs for the source field and
/// validates its value against the fixed vocabulary.
pub fn parse_body_source(body_data: &str) -> (r: Result<Source, ParseError>)
    ensures
        r == body_source_result(body_data@),
{
    match body_field_value(body_data, "Source") {
        None => Err(ParseError::MissingField),
        Some(raw) => {
            let trimmed = text::trim(raw.as_str());
            to_source(trimmed.as_str())
        },
    }
}

/// What scanning the body for a live airing count yields: the count token
/// between the episode marker and its colon, read as an `i32`.
pub open spec fn body_airing_result(body: Seq<char>) -> Result<i32, ParseError> {
    match body_field(body, "Airing"@) {
        None => Err(ParseError::MissingField),
        Some(raw) => {
            let value = text::trim_spec(raw);
            match text::find_sub(value, "Ep"@) {
                None => Err(ParseError::BadNumber),
                Some(ep) => {
                    let tail = value.skip(ep);
                    match text::find_sub(tail, ":"@) {
                        None => Err(ParseError::BadNumber),
                        Some(colon) => match text::parse_i32_spec(
                            text::trim_spec(tail.subrange(2, colon)),
                        ) {
                            Some(v) => Ok(v),
                            None => Err(ParseError::BadNumber),
                        },
                    }
                },
            }
        },
    }
}

/// Scans the body fragment for the live airing episode count: the token
/// between the episode marker and the following colon.
pub fn parse_body_airing_episodes_amount(body_data: &str) -> (r: Result<i32, ParseError>)
    ensures
        r == body_airing_result(body_data@),
{
    let raw = match body_field_value(body_data, "Airing") {
        None => {
            return Err(ParseError::MissingField);
        },
        Some(raw) => raw,
    };
    let value = text::trim(raw.as_str());
    let ep = match text::str_find(value.as_str(), "Ep") {
        None => {
            return Err(ParseError::BadNumber);
        },
        Some(p) => p,
    };
    proof {
        text::lemma_find_sub_characterization(value@, "Ep"@);
        reveal_strlit("Ep");
    }
    let vlen = value.as_str().unicode_len();
    let tail = value.as_str().substring_char(ep, vlen);
    proof {
        assert(tail@ =~= value@.skip(ep as int));
    }
    let colon = match text::str_find(tail, ":") {
        None => {
            return Err(ParseError::BadNumber);
        },
        Some(c) => c,
    };
    proof {
        text::lemma_find_sub_characterization(tail@, ":"@);
        reveal_strlit(":");
    }
    if colon < 2 {
        proof {
            assert(text::matches_at(value@, "Ep"@, ep as int));
            assert(tail@[0] == "Ep"@[0] && tail@.len() >= 2 && tail@[1] == "Ep"@[1]) by {
                assert(value@.skip(ep as int).subrange(0, 2) =~= value@.subrange(
                    ep as int,
                    ep + 2,
                ));
            };
            assert(text::matches_at(tail@, ":"@, colon as int));
            assert(tail@[colon as int] == ':') by {
                assert(tail@.subrange(colon as int, colon + 1)[0] == ':');
            };
            assert(false);
        }
    }
    let token = tail.substring_char(2, colon);
    let trimmed = text::trim(token);
    match text::parse_i32(trimmed.as_str()) {
        Some(v) => Ok(v),
        None => Err(ParseError::BadNumber),
    }
}

// ---------------------------------------------------------------------------
// Reconciliation
// ---------------------------------------------------------------------------

pub open spec fn first_id(ids: Option<Seq<i32>>) -> Option<i32> {
    match ids {
        None => None,
        Some(s) => if s.len() == 0 {
            None
        } else {
            Some(s[0])
        },
    }
}

/// The deterministic merge of the two fragments' fields: the head value
/// wins when present, the body value fills what the head left unset, and
/// a live airing count supersedes any episode count.
pub open spec fn merged(
    p: PendingModel,
    body_format: Option<Format>,
    body_status: Option<Status>,
    body_source: Option<Source>,
    airing: Option<i32>,
) -> EntryModel {
    EntryModel {
        format: if p.format is Some {
            p.format
        } else {
            body_format
        },
        status: if p.status is Some {
            p.status
        } else {
            body_status
        },
        source: if p.source is Some {
            p.source
        } else {
            body_source
        },
        genres: p.genres,
        episodes_amount: if airing is Some {
            airing
        } else {
            p.episodes_amount
        },
        time_required: p.time_required,
        start_date: p.start_date,
        end_date: p.end_date,
        rating_value: p.rating_value,
        rating_count: p.rating_count,
        production_company: first_id(p.production_companies),
        producer: first_id(p.producers),
        creator: first_id(p.creators),
    }
}

/// Runs the one deterministic merge pass over the accumulated fields:
/// head wins when present, otherwise the body value, otherwise the field
/// stays unset; a live airing count always supersedes the episode count;
/// of each relation list the first element is kept.
pub fn merge_pending(
    pending: PendingEntry,
    body_format: Option<Format>,
    body_status: Option<Status>,
    body_source: Option<Source>,
    airing_episodes: Option<i32>,
) -> (r: Entry)
    ensures
        r@ == merged(pending@, body_format, body_status, body_source, airing_episodes),
{
    let format = match pending.format {
        Some(f) => Some(f),
        None => body_format,
    };
    let status = match pending.status {
        Some(s) => Some(s),
        None => body_status,
    };
    let source = match pending.source {
        Some(s) => Some(s),
        None => body_source,
    };
    let episodes_amount = match airing_episodes {
        Some(v) => Some(v),
        None => pending.episodes_amount,
    };
    let production_company = match &pending.production_companies {
        Some(ids) => if ids.len() > 0 {
            Some(ids[0])
        } else {
            None
        },
        None => None,
    };
    let producer = match &pending.producers {
        Some(ids) => if ids.len() > 0 {
            Some(ids[0])
        } else {
            None
        },
        None => None,
    };
    let creator = match &pending.creators {
        Some(ids) => if ids.len() > 0 {
            Some(ids[0])
        } else {
            None
        },
        None => None,
    };
    Entry {
        format,
        status,
        source,
        genres: pending.genres,
        episodes_amount,
        time_required: pending.time_required,
        start_date: pending.start_date,
        end_date: pending.end_date,
        rating_value: pending.rating_value,
        rating_count: pending.rating_count,
        production_company,
        producer,
        creator,
    }
}

/// The body-derived format, with an absent field reading as unset and an
/// unrecognized value as a failure.
pub open spec fn body_format_opt(body: Seq<char>) -> Result<Option<Format>, ParseError> {
    match body_format_result(body) {
        Ok(f) => Ok(Some(f)),
        Err(ParseError::MissingField) => Ok(None),
        Err(e) => Err(e),
    }
}

pub open spec fn body_status_opt(body: Seq<char>) -> Result<Option<Status>, ParseError> {
    match body_status_result(body) {
        Ok(s) => Ok(Some(s)),
        Err(ParseError::MissingField) => Ok(None),
        Err(e) => Err(e),
    }
}

/// The body-derived source: any failure reads as unset.
pub open spec fn body_source_opt(body: Seq<char>) -> Option<Source> {
    match body_source_result(body) {
        Ok(s) => Some(s),
        Err(_) => None,
    }
}

/// The body-derived airing count: any failure reads as unset.
pub open spec fn body_airing_opt(body: Seq<char>) -> Option<i32> {
    match body_airing_result(body) {
        Ok(v) => Some(v),
        Err(_) => None,
    }
}

/// What reconciling the two fragments yields for one entry.
pub open spec fn anilist_result(head: Seq<char>, body: Seq<char>) -> Result<
    EntryModel,
    ParseError,
> {
    match head_result(head) {
        Err(e) => Err(e),
        Ok(p) => match body_status_opt(body) {
            Err(e) => Err(e),
            Ok(bs) => match body_format_opt(body) {
                Err(e) => Err(e),
                Ok(bf) => Ok(
                    merged(p, bf, bs, body_source_opt(body), body_airing_opt(body)),
                ),
            },
        },
    }
}

/// Reconciles the head fragment's structured block with the body
/// fragment's label/value pairs into one immutable entry: head wins when
/// present; an absent optional field stays unset rather than dropping the
/// entry; an unrecognized format or status fails the entry; a live airing
/// count supersedes the episode count.
pub fn parse_anilist_entry(head_data: &str, body_data: &str) -> (r: Result<Entry, ParseError>)
    ensures
        match r {
            Ok(e) => anilist_result(head_data@, body_data@) == Ok::<EntryModel, ParseError>(e@),
            Err(e) => anilist_result(head_data@, body_data@) == Err::<EntryModel, ParseError>(e),
        },
{
    let pending = match parse_head_data(head_data) {
        Ok(p) => p,
        Err(e) => {
            return Err(e);
        },
    };
    let body_status = match parse_body_status(body_data) {
        Ok(s) => Some(s),
        Err(ParseError::MissingField) => None,
        Err(e) => {
            return Err(e);
        },
    };
    let body_format = match parse_body_format(body_data) {
        Ok(f) => Some(f),
        Err(ParseError::MissingField) => None,
        Err(e) => {
            return Err(e);
        },
    };
    let body_source = match parse_body_source(body_data) {
        Ok(s) => Some(s),
        Err(_) => None,
    };
    let airing = match parse_body_airing_episodes_amount(body_data) {
        Ok(v) => Some(v),
        Err(_) => None,
    };
    Ok(merge_pending(pending, body_format, body_status, body_source, airing))
}

} // verus!
