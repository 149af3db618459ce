//! Parsers for the two catalog sources and the ARFF table format.

pub mod anilist;
pub mod arff;
pub mod entry;
pub mod file;
pub mod jimaku;

use crate::external;
use crate::external::EntryMarker;
use crate::util::collect_some;
use crate::util::lemma_collect_some_snoc;
use vstd::prelude::*;

verus! {

/// One catalog entry of a listing page: the decoded JSON attribute plus
/// the id taken from the trailing segment of its file link.
pub struct Entry {
    pub id: i32,
    pub name: String,
    pub flags: i32,
    pub last_modified: i64,
    pub anilist_id: Option<i32>,
    pub tmdb_id: Option<String>,
    pub english_name: Option<String>,
    pub japanese_name: Option<String>,
}

/// Ghost image of an [`Entry`].
pub ghost struct EntryModel {
    pub id: i32,
    pub name: Seq<char>,
    pub flags: i32,
    pub last_modified: i64,
    pub anilist_id: Option<i32>,
    pub tmdb_id: Option<Seq<char>>,
    pub english_name: Option<Seq<char>>,
    pub japanese_name: Option<Seq<char>>,
}

impl View for Entry {
    type V = EntryModel;

    open spec fn view(&self) -> EntryModel {
        EntryModel {
            id: self.id,
            name: self.name@,
            flags: self.flags,
            last_modified: self.last_modified,
            anilist_id: self.anilist_id,
            tmdb_id: external::opt_str_view(self.tmdb_id),
            english_name: external::opt_str_view(self.english_name),
            japanese_name: external::opt_str_view(self.japanese_name),
        }
    }
}

/// The entry a marker element yields after decoding, before its id is
/// assigned from the link.
pub open spec fn decoded_extra(json: Seq<char>) -> Option<EntryModel> {
    let d = crate::text::decode_quot_spec(json);
    if !external::json_valid_of(d) {
        None
    } else {
        let name = external::json_str_of(d, seq!["name"@]);
        let flags = external::json_i64_of(d, seq!["flags"@]);
        let last_modified = external::json_i64_of(d, seq!["last_modified"@]);
        let anilist_id = external::json_i64_of(d, seq!["anilist_id"@]);
        if name is None || flags is None || last_modified is None {
            None
        } else if !(i32::MIN <= flags->Some_0 <= i32::MAX) {
            None
        } else if anilist_id is Some && !(i32::MIN <= anilist_id->Some_0 <= i32::MAX) {
            None
        } else {
            Some(
                EntryModel {
                    id: 0,
                    name: name->Some_0,
                    flags: flags->Some_0 as i32,
                    last_modified: last_modified->Some_0,
                    anilist_id: match anilist_id {
                        Some(v) => Some(v as i32),
                        None => None,
                    },
                    tmdb_id: external::json_str_of(d, seq!["tmdb_id"@]),
                    english_name: external::json_str_of(d, seq!["english_name"@]),
                    japanese_name: external::json_str_of(d, seq!["japanese_name"@]),
                },
            )
        }
    }
}

/// The numeric id carried by the trailing path segment of a link.
pub open spec fn link_id(href: Seq<char>) -> Option<i32> {
    crate::text::parse_i32_spec(crate::text::after_last(href, '/'))
}

/// The entry one marker element contributes: both the JSON attribute and
/// the trailing id segment must decode, or the marker yields nothing.
pub open spec fn marker_entry(m: (Option<Seq<char>>, Option<Seq<char>>)) -> Option<EntryModel> {
    match m.0 {
        None => None,
        Some(json) => match decoded_extra(json) {
            None => None,
            Some(e) => match m.1 {
                None => None,
                Some(href) => match link_id(href) {
                    None => None,
                    Some(id) => Some(EntryModel { id: id, ..e }),
                },
            },
        },
    }
}

/// The entries a listing document yields, in document order.
pub open spec fn listing_entries(doc: Seq<char>) -> Seq<EntryModel> {
    collect_some(external::entry_markers_of(doc).map_values(|m| marker_entry(m)))
}

fn entry_from_marker(m: &EntryMarker) -> (r: Option<Entry>)
    ensures
        match r {
            Some(e) => marker_entry(m.view_pair()) == Some(e@),
            None => marker_entry(m.view_pair()) is None,
        },
{
    let json = match &m.data_extra {
        Some(j) => j,
        None => {
            return None;
        },
    };
    let decoded = crate::text::decode_quot(json.as_str());
    let d = decoded.as_str();
    if !external::json_valid(d) {
        return None;
    }
    let name = match external::json_str_field(d, "name") {
        Some(n) => n,
        None => {
            return None;
        },
    };
    let flags = match external::json_i64_field(d, "flags") {
        Some(f) => f,
        None => {
            return None;
        },
    };
    let last_modified = match external::json_i64_field(d, "last_modified") {
        Some(l) => l,
        None => {
            return None;
        },
    };
    if !(-2147483648i64 <= flags && flags <= 2147483647i64) {
        return None;
    }
    let anilist_id = match external::json_i64_field(d, "anilist_id") {
        Some(a) => {
            if -2147483648i64 <= a && a <= 2147483647i64 {
                Some(a as i32)
            } else {
                return None;
            }
        },
        None => None,
    };
    let href = match &m.href {
        Some(h) => h,
        None => {
            return None;
        },
    };
    let seg = crate::text::str_after_last(href.as_str(), '/');
    let id = match crate::text::parse_i32(seg.as_str()) {
        Some(id) => id,
        None => {
            return None;
        },
    };
    Some(
        Entry {
            id,
            name,
            flags: flags as i32,
            last_modified,
            anilist_id,
            tmdb_id: external::json_str_field(d, "tmdb_id"),
            english_name: external::json_str_field(d, "english_name"),
            japanese_name: external::json_str_field(d, "japanese_name"),
        },
    )
}

/// Parses a listing document: each entry-marker element whose JSON
/// attribute decodes and whose nested link ends in a numeric id segment
/// contributes one entry, in document order; every other marker is
/// dropped on its own, without affecting its neighbours.
pub fn parse(data: &str) -> (r: Vec<Entry>)
    ensures
        r@.map_values(|e: Entry| e@) == listing_entries(data@),
{
    let markers = external::entry_markers(data);
    let ghost pairs = markers@.map_values(|m: EntryMarker| m.view_pair());
    let mut out: Vec<Entry> = Vec::new();
    let mut i: usize = 0;
    while i < markers.len()
        invariant
            pairs == markers@.map_values(|m: EntryMarker| m.view_pair()),
            pairs == external::entry_markers_of(data@),
            i <= markers.len(),
            out@.map_values(|e: Entry| e@) == collect_some(
                pairs.subrange(0, i as int).map_values(|m| marker_entry(m)),
            ),
        decreases markers.len() - i,
    {
        let ghost prefix = pairs.subrange(0, i as int).map_values(|m| marker_entry(m));
        proof {
            assert(pairs.subrange(0, i + 1).map_values(|m| marker_entry(m)) =~= prefix.push(
                marker_entry(pairs[i as int]),
            ));
            lemma_collect_some_snoc(prefix, marker_entry(pairs[i as int]));
        }
        match entry_from_marker(&markers[i]) {
            Some(e) => {
                out.push(e);
                proof {
                    assert(out@.map_values(|e: Entry| e@) =~= collect_some(
                        pairs.subrange(0, i + 1).map_values(|m| marker_entry(m)),
                    ));
                }
            },
            None => {},
        }
        i += 1;
    }
    proof {
        assert(pairs.subrange(0, markers@.len() as int) =~= pairs);
    }
    out
}

} // verus!
