//! File-row parsing from detail-page markup cells: name, a size with a
//! unit suffix converted to bytes, and a raw modified-timestamp string.

use crate::errors::ParseError;
use crate::external;
use crate::external::FileCells;
use crate::text;
use crate::util::collect_some;
use crate::util::lemma_collect_some_snoc;
use vstd::prelude::*;

verus! {

/// One linked file: name, size in bytes, and the raw last-modified
/// timestamp string.
pub struct FileInfo {
    pub name: String,
    pub size: i64,
    pub last_modified: String,
}

/// Ghost image of a [`FileInfo`].
pub ghost struct FileInfoModel {
    pub name: Seq<char>,
    pub size: i64,
    pub last_modified: Seq<char>,
}

impl View for FileInfo {
    type V = FileInfoModel;

    open spec fn view(&self) -> FileInfoModel {
        FileInfoModel { name: self.name@, size: self.size, last_modified: self.last_modified@ }
    }
}

pub open spec fn kb_suffix() -> Seq<char> {
    seq![' ', 'k', 'B']
}

/// Bytes named by a trimmed decimal count of kilobytes, with an optional
/// fractional part: the value times 1024, truncated. `None` when the text
/// is not a plain decimal, carries more than eighteen fractional digits,
/// or the byte count does not fit.
pub open spec fn kb_value(t: Seq<char>) -> Option<i64> {
    match text::find_sub(t, seq!['.']) {
        None => if t.len() > 0 && text::all_digits(t) && 1024 * text::dec_value(t) <= i64::MAX {
            Some((1024 * text::dec_value(t)) as i64)
        } else {
            None
        },
        Some(p) => {
            let ip = t.subrange(0, p);
            let fp = t.subrange(p + 1, t.len() as int);
            if (ip.len() > 0 || fp.len() > 0) && (ip.len() == 0 || text::all_digits(ip)) && (
            fp.len() == 0 || text::all_digits(fp)) && fp.len() <= 18 {
                let whole = 1024 * text::dec_value(ip);
                let frac = 1024 * text::dec_value(fp) / text::pow10(fp.len() as int);
                if whole + frac <= i64::MAX {
                    Some((whole + frac) as i64)
                } else {
                    None
                }
            } else {
                None
            }
        },
    }
}

/// Bytes named by a size cell: the cell must end in the kilobyte suffix,
/// and what precedes it, trimmed, must be a plain decimal.
pub open spec fn size_bytes(s: Seq<char>) -> Option<i64> {
    if text::ends_with(s, kb_suffix()) {
        kb_value(text::trim_spec(s.subrange(0, s.len() - 3)))
    } else {
        None
    }
}

proof fn lemma_pow10_pos(k: int)
    ensures
        text::pow10(k) >= 1,
    decreases k,
{
    if k > 0 {
        lemma_pow10_pos(k - 1);
    }
}

proof fn lemma_pow10_monotone(a: int, b: int)
    requires
        0 <= a <= b,
    ensures
        text::pow10(a) <= text::pow10(b),
    decreases b - a,
{
    if a < b {
        lemma_pow10_monotone(a, b - 1);
        lemma_pow10_pos(b - 1);
    }
}

proof fn lemma_pow10_eighteen()
    ensures
        text::pow10(18) == 1000000000000000000,
{
    assert(text::pow10(0) == 1);
    assert(text::pow10(1) == 10);
    assert(text::pow10(2) == 100);
    assert(text::pow10(3) == 1000);
    assert(text::pow10(4) == 10000);
    assert(text::pow10(5) == 100000);
    assert(text::pow10(6) == 1000000);
    assert(text::pow10(7) == 10000000);
    assert(text::pow10(8) == 100000000);
    assert(text::pow10(9) == 1000000000);
    assert(text::pow10(10) == 10000000000);
    assert(text::pow10(11) == 100000000000);
    assert(text::pow10(12) == 1000000000000);
    assert(text::pow10(13) == 10000000000000);
    assert(text::pow10(14) == 100000000000000);
    assert(text::pow10(15) == 1000000000000000);
    assert(text::pow10(16) == 10000000000000000);
    assert(text::pow10(17) == 100000000000000000);
    assert(text::pow10(18) == 1000000000000000000);
}

fn pow10_exec(k: usize) -> (r: u64)
    requires
        k <= 18,
    ensures
        r == text::pow10(k as int),
        r >= 1,
{
    proof {
        lemma_pow10_eighteen();
    }
    let mut r: u64 = 1;
    let mut i: usize = 0;
    while i < k
        invariant
            i <= k <= 18,
            r == text::pow10(i as int),
            r >= 1,
            text::pow10(18) == 1000000000000000000,
        decreases k - i,
    {
        proof {
            lemma_pow10_monotone(i as int, 17);
            lemma_pow10_monotone(17, 18);
        }
        r = r * 10;
        i += 1;
    }
    r
}

/// Converts a trimmed kilobyte count to bytes.
fn kb_to_bytes(t: &str) -> (r: Option<i64>)
    ensures
        r == kb_value(t@),
{
    let dot = text::str_find(t, ".");
    proof {
        reveal_strlit(".");
        assert("."@ =~= seq!['.']);
    }
    match dot {
        None => {
            match text::parse_u64_digits(t) {
                Some(v) => {
                    proof {
                        text::lemma_dec_value_nonneg(t@);
                    }
                    if v <= 9007199254740991u64 {
                        Some((v * 1024) as i64)
                    } else {
                        None
                    }
                },
                None => None,
            }
        },
        Some(p) => {
            proof {
                text::lemma_find_sub_characterization(t@, "."@);
            }
            let len = t.unicode_len();
            let ipart = t.substring_char(0, p);
            let fpart = t.substring_char(p + 1, len);
            let flen = fpart.unicode_len();
            let ghost ip = t@.subrange(0, p as int);
            let ghost fp = t@.subrange(p + 1, t@.len() as int);
            if p == 0 && flen == 0 {
                return None;
            }
            let iv: u64 = if p == 0 {
                0u64
            } else {
                match text::parse_u64_digits(ipart) {
                    Some(v) => v,
                    None => {
                        proof {
                            if text::all_digits(ip) && (fp.len() == 0 || text::all_digits(fp)) {
                                text::lemma_dec_value_nonneg(fp);
                                lemma_pow10_pos(fp.len() as int);
                                assert(1024 * text::dec_value(fp) / text::pow10(
                                    fp.len() as int,
                                ) >= 0) by (nonlinear_arith)
                                    requires
                                        text::dec_value(fp) >= 0,
                                        text::pow10(fp.len() as int) >= 1,
                                ;
                            }
                        }
                        return None;
                    },
                }
            };
            proof {
                if p == 0 {
                    assert(ip =~= Seq::<char>::empty());
                }
                text::lemma_dec_value_nonneg(ip);
            }
            let fv: u64 = if flen == 0 {
                0u64
            } else {
                match text::parse_u64_digits(fpart) {
                    Some(v) => v,
                    None => {
                        proof {
                            if text::all_digits(fp) {
                                text::lemma_dec_value_bound(fp);
                                if fp.len() <= 18 {
                                    lemma_pow10_monotone(fp.len() as int, 18);
                                    lemma_pow10_eighteen();
                                }
                            }
                        }
                        return None;
                    },
                }
            };
            proof {
                if flen == 0 {
                    assert(fp =~= Seq::<char>::empty());
                }
                text::lemma_dec_value_nonneg(fp);
            }
            if flen > 18 {
                return None;
            }
            proof {
                text::lemma_dec_value_bound(fp);
                lemma_pow10_pos(flen as int);
            }
            let scale = pow10_exec(flen);
            proof {
                assert(1024 * (fv as int) / (scale as int) < 1024) by (nonlinear_arith)
                    requires
                        0 <= fv,
                        fv < scale,
                ;
                assert(1024 * (fv as int) / (scale as int) >= 0) by (nonlinear_arith)
                    requires
                        0 <= fv,
                        1 <= scale,
                ;
            }
            let fbytes: u64 = ((fv as u128 * 1024u128) / (scale as u128)) as u64;
            if iv > 9007199254740991u64 {
                return None;
            }
            let whole: u64 = iv * 1024;
            let total: u64 = whole + fbytes;
            if total <= 9223372036854775807u64 {
                Some(total as i64)
            } else {
                None
            }
        },
    }
}

/// The file record one row of cells contributes: all three cells must be
/// present and the size cell must name a byte count.
pub open spec fn cells_file(
    m: (Option<Seq<char>>, Option<Seq<char>>, Option<Seq<char>>),
) -> Option<FileInfoModel> {
    match m {
        (Some(name), Some(size), Some(modified)) => match size_bytes(size) {
            Some(bytes) => Some(
                FileInfoModel { name: name, size: bytes, last_modified: modified },
            ),
            None => None,
        },
        _ => None,
    }
}

/// The file records a detail document yields, in document order.
pub open spec fn listing_file_infos(doc: Seq<char>) -> Seq<FileInfoModel> {
    collect_some(external::file_cells_of(doc).map_values(|m| cells_file(m)))
}

fn file_from_cells(m: &FileCells) -> (r: Option<FileInfo>)
    ensures
        match r {
            Some(f) => cells_file(m.view_triple()) == Some(f@),
            None => cells_file(m.view_triple()) is None,
        },
{
    let name = match &m.name {
        Some(n) => n,
        None => {
            return None;
        },
    };
    let size_text = match &m.size {
        Some(s) => s,
        None => {
            return None;
        },
    };
    let modified = match &m.modified {
        Some(t) => t,
        None => {
            return None;
        },
    };
    proof {
        reveal_strlit(" kB");
        assert(" kB"@ =~= kb_suffix());
    }
    if !text::str_ends_with(size_text.as_str(), " kB") {
        return None;
    }
    let slen = size_text.as_str().unicode_len();
    let digits = size_text.as_str().substring_char(0, slen - 3);
    let trimmed = text::trim(digits);
    let bytes = match kb_to_bytes(trimmed.as_str()) {
        Some(b) => b,
        None => {
            return None;
        },
    };
    Some(FileInfo { name: name.clone(), size: bytes, last_modified: modified.clone() })
}

/// Parses a detail document into file records, in document order. A row
/// with a missing cell or an unusable size is dropped on its own; the
/// call itself never fails.
pub fn parse_files_info(body: &str) -> (r: Result<Vec<FileInfo>, ParseError>)
    ensures
        r is Ok,
        r->Ok_0@.map_values(|f: FileInfo| f@) == listing_file_infos(body@),
{
    let cells = external::file_cells(body);
    let ghost triples = cells@.map_values(|m: FileCells| m.view_triple());
    let mut out: Vec<FileInfo> = Vec::new();
    let mut i: usize = 0;
    while i < cells.len()
        invariant
            triples == cells@.map_values(|m: FileCells| m.view_triple()),
            triples == external::file_cells_of(body@),
            i <= cells.len(),
            out@.map_values(|f: FileInfo| f@) == collect_some(
                triples.subrange(0, i as int).map_values(|m| cells_file(m)),
            ),
        decreases cells.len() - i,
    {
        let ghost prefix = triples.subrange(0, i as int).map_values(|m| cells_file(m));
        proof {
            assert(triples.subrange(0, i + 1).map_values(|m| cells_file(m)) =~= prefix.push(
                cells_file(triples[i as int]),
            ));
            lemma_collect_some_snoc(prefix, cells_file(triples[i as int]));
        }
        match file_from_cells(&cells[i]) {
            Some(f) => {
                out.push(f);
                proof {
                    assert(out@.map_values(|f: FileInfo| f@) =~= collect_some(
                        triples.subrange(0, i + 1).map_values(|m| cells_file(m)),
                    ));
                }
            },
            None => {},
        }
        i += 1;
    }
    proof {
        assert(triples.subrange(0, cells@.len() as int) =~= triples);
    }
    Ok(out)
}

} // verus!
