//! File records of one archive entry, read from the JSON attributes of
//! the file-row marker elements of a detail page.

use crate::errors::ParseError;
use crate::external;
use crate::external::EntryMarker;
use crate::util::collect_some;
use crate::util::lemma_collect_some_snoc;
use vstd::prelude::*;

verus! {

/// One linked file: name, size in bytes, and the raw last-modified
/// timestamp string.
pub struct FileData {
    pub name: String,
    pub size: i64,
    pub last_modified: String,
}

/// Ghost image of a [`FileData`].
pub ghost struct FileDataModel {
    pub name: Seq<char>,
    pub size: i64,
    pub last_modified: Seq<char>,
}

impl View for FileData {
    type V = FileDataModel;

    open spec fn view(&self) -> FileDataModel {
        FileDataModel { name: self.name@, size: self.size, last_modified: self.last_modified@ }
    }
}

/// The file record one marker element contributes: its JSON attribute
/// must be present and valid and carry all three fields, or the row
/// yields nothing.
pub open spec fn marker_file(m: (Option<Seq<char>>, Option<Seq<char>>)) -> Option<FileDataModel> {
    match m.0 {
        None => None,
        Some(d) => if !external::json_valid_of(d) {
            None
        } else {
            let name = external::json_str_of(d, seq!["name"@]);
            let size = external::json_i64_of(d, seq!["size"@]);
            let last_modified = external::json_str_of(d, seq!["last_modified"@]);
            if name is None || size is None || last_modified is None {
                None
            } else {
                Some(
                    FileDataModel {
                        name: name->Some_0,
                        size: size->Some_0,
                        last_modified: last_modified->Some_0,
                    },
                )
            }
        },
    }
}

/// The file records a detail document yields, in document order.
pub open spec fn listing_files(doc: Seq<char>) -> Seq<FileDataModel> {
    collect_some(external::entry_markers_of(doc).map_values(|m| marker_file(m)))
}

fn file_from_marker(m: &EntryMarker) -> (r: Option<FileData>)
    ensures
        match r {
            Some(f) => marker_file(m.view_pair()) == Some(f@),
            None => marker_file(m.view_pair()) is None,
        },
{
    let json = match &m.data_extra {
        Some(j) => j,
        None => {
            return None;
        },
    };
    let d = json.as_str();
    if !external::json_valid(d) {
        return None;
    }
    let name = match external::json_str_field(d, "name") {
        Some(n) => n,
        None => {
            return None;
        },
    };
    let size = match external::json_i64_field(d, "size") {
        Some(s) => s,
        None => {
            return None;
        },
    };
    let last_modified = match external::json_str_field(d, "last_modified") {
        Some(l) => l,
        None => {
            return None;
        },
    };
    Some(FileData { name, size, last_modified })
}

/// Parses a detail document into file records, in document order. A row
/// whose JSON attribute fails to decode is dropped on its own; the call
/// itself never fails.
pub fn parse_files_data(body: &str) -> (r: Result<Vec<FileData>, ParseError>)
    ensures
        r is Ok,
        r->Ok_0@.map_values(|f: FileData| f@) == listing_files(body@),
{
    let markers = external::entry_markers(body);
    let ghost pairs = markers@.map_values(|m: EntryMarker| m.view_pair());
    let mut out: Vec<FileData> = Vec::new();
    let mut i: usize = 0;
    while i < markers.len()
        invariant
            pairs == markers@.map_values(|m: EntryMarker| m.view_pair()),
            pairs == external::entry_markers_of(body@),
            i <= markers.len(),
            out@.map_values(|f: FileData| f@) == collect_some(
                pairs.subrange(0, i as int).map_values(|m| marker_file(m)),
            ),
        decreases markers.len() - i,
    {
        let ghost prefix = pairs.subrange(0, i as int).map_values(|m| marker_file(m));
        proof {
            assert(pairs.subrange(0, i + 1).map_values(|m| marker_file(m)) =~= prefix.push(
                marker_file(pairs[i as int]),
            ));
            lemma_collect_some_snoc(prefix, marker_file(pairs[i as int]));
        }
        match file_from_marker(&markers[i]) {
            Some(f) => {
                out.push(f);
                proof {
                    assert(out@.map_values(|f: FileData| f@) =~= collect_some(
                        pairs.subrange(0, i + 1).map_values(|m| marker_file(m)),
                    ));
                }
            },
            None => {},
        }
        i += 1;
    }
    proof {
        assert(pairs.subrange(0, markers@.len() as int) =~= pairs);
    }
    Ok(out)
}

} // verus!
