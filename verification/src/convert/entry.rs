//! The flat join of one listing entry, its file statistics and its
//! reconciled metadata into one denormalized output row.

use crate::convert::flags::{EntryFlags, ADULT_FLAG, EXTERNAL_FLAG, MOVIE_FLAG, UNVERIFIED_FLAG};
use crate::errors::ParseError;
use crate::external;
use crate::parse::anilist;
use crate::parse::anilist::format::format_name;
use crate::parse::anilist::genre::Genre;
use crate::parse::anilist::source::source_name;
use crate::parse::anilist::status::status_name;
use crate::parse::jimaku;
use crate::parse::jimaku::file::{FileData, FileDataModel};
use vstd::prelude::*;
use vstd::relations::{sorted_by, total_ordering};
use vstd::seq_lib::lemma_sorted_unique;

verus! {

/// One denormalized output row.
#[derive(Debug)]
pub struct TsvEntry {
    pub name_romaji: String,
    pub name_english: String,
    pub name_japanese: String,
    pub is_unverified: bool,
    pub is_external: bool,
    pub is_movie: bool,
    pub is_adult: bool,
    pub is_action: bool,
    pub is_adventure: bool,
    pub is_comedy: bool,
    pub is_drama: bool,
    pub is_ecchi: bool,
    pub is_fantasy: bool,
    pub is_horror: bool,
    pub is_mahou_shoujo: bool,
    pub is_mecha: bool,
    pub is_music: bool,
    pub is_mystery: bool,
    pub is_psychological: bool,
    pub is_romance: bool,
    pub is_sci_fi: bool,
    pub is_slice_of_life: bool,
    pub is_sports: bool,
    pub is_supernatural: bool,
    pub is_thriller: bool,
    pub format: String,
    pub status: String,
    pub source: String,
    pub episodes_amount: i32,
    pub time_required: i64,
    pub start_date: i64,
    pub end_date: i64,
    pub rating_value: i32,
    pub rating_count: i32,
    pub company_production: i32,
    pub company_producer: i32,
    pub company_creator: i32,
    pub last_modified: i64,
    pub file_modified_first: i64,
    pub file_modified_last: i64,
    pub file_modified_median: i64,
    pub filesize_min: i64,
    pub filesize_max: i64,
    pub filesize_median: i64,
}

// ---------------------------------------------------------------------------
// File statistics
// ---------------------------------------------------------------------------

/// Earliest/latest/median modified timestamp and min/max/median size of
/// one entry's file list; computed once, never mutated afterwards.
pub struct FileStats {
    pub file_modified_first: i64,
    pub file_modified_last: i64,
    pub file_modified_median: i64,
    pub filesize_min: i64,
    pub filesize_max: i64,
    pub filesize_median: i64,
}

pub open spec fn i64_le() -> spec_fn(i64, i64) -> bool {
    |x: i64, y: i64| x <= y
}

/// The ascending rearrangement of a sequence.
pub open spec fn sorted_of(s: Seq<i64>) -> Seq<i64> {
    s.sort_by(i64_le())
}

/// Integer-truncated average, as machine division computes it.
pub open spec fn avg_trunc(a: int, b: int) -> int {
    if a + b >= 0 {
        (a + b) / 2
    } else {
        -((-(a + b)) / 2)
    }
}

/// The median of a sorted, non-empty sequence: the central element, or
/// for even length the truncated average of the two central elements.
pub open spec fn median_of(sorted: Seq<i64>) -> int {
    if sorted.len() % 2 == 0 {
        avg_trunc(
            sorted[sorted.len() as int / 2 - 1] as int,
            sorted[sorted.len() as int / 2] as int,
        )
    } else {
        sorted[sorted.len() as int / 2] as int
    }
}

/// Each file's modified timestamp in epoch seconds; a timestamp that does
/// not parse reads as epoch zero, never dropping the record.
pub open spec fn file_times(files: Seq<FileDataModel>) -> Seq<i64> {
    files.map_values(
        |f: FileDataModel|
            match external::rfc3339_epoch_of(f.last_modified) {
                Some(t) => t,
                None => 0i64,
            },
    )
}

pub open spec fn file_sizes(files: Seq<FileDataModel>) -> Seq<i64> {
    files.map_values(|f: FileDataModel| f.size)
}

/// Sorts ascending.
#[verifier::loop_isolation(false)]
fn sort_i64(v: &Vec<i64>) -> (r: Vec<i64>)
    ensures
        r@ == sorted_of(v@),
{
    broadcast use vstd::seq_lib::group_to_multiset_ensures;

    let mut out: Vec<i64> = Vec::new();
    let mut i: usize = 0;
    while i < v.len()
        invariant
            i <= v@.len(),
            forall|p: int, q: int| 0 <= p < q < out@.len() ==> out@[p] <= out@[q],
            out@.to_multiset() == v@.subrange(0, i as int).to_multiset(),
        decreases v@.len() - i,
    {
        let x = v[i];
        let mut k: usize = 0;
        while k < out.len() && out[k] <= x
            invariant
                k <= out@.len(),
                forall|a: int| 0 <= a < k ==> out@[a] <= x,
            decreases out@.len() - k,
        {
            k += 1;
        }
        let ghost before = out@;
        out.insert(k, x);
        proof {
            assert(v@.subrange(0, i + 1) =~= v@.subrange(0, i as int).push(v@[i as int]));
            assert(out@ =~= before.insert(k as int, x));
            vstd::seq_lib::to_multiset_insert(before, k as int, x);
            assert(out@.to_multiset() == v@.subrange(0, i + 1).to_multiset());
            assert forall|p: int, q: int| 0 <= p < q < out@.len() implies out@[p] <= out@[q] by {
                if q < k {
                    assert(out@[p] == before[p] && out@[q] == before[q]);
                } else if p > k {
                    assert(out@[p] == before[p - 1] && out@[q] == before[q - 1]);
                } else if p == k {
                    assert(out@[p] == x && out@[q] == before[q - 1] && q - 1 >= k);
                    assert(before[k as int] <= before[q - 1]);
                } else if q == k {
                    assert(out@[p] == before[p] && out@[q] == x);
                } else {
                    assert(p < k && q > k);
                    assert(out@[p] == before[p] && out@[q] == before[q - 1] && q - 1 >= k);
                    assert(before[p] <= x);
                    if q - 1 == k {
                        assert(x <= before[q - 1] || k == before.len());
                    } else {
                        assert(before[k as int] <= before[q - 1]);
                    }
                }
            };
        }
        i += 1;
    }
    proof {
        assert(v@.subrange(0, v@.len() as int) =~= v@);
        assert(sorted_by(out@, i64_le())) by {
            assert forall|p: int, q: int| 0 <= p < q < out@.len() implies i64_le()(
                out@[p],
                out@[q],
            ) by {
                assert(out@[p] <= out@[q]);
            };
        };
        v@.lemma_sort_by_ensures(i64_le());
        assert(total_ordering(i64_le()));
        lemma_sorted_unique(out@, v@.sort_by(i64_le()), i64_le());
    }
    out
}

/// Truncated average without overflow.
fn avg_trunc_exec(a: i64, b: i64) -> (r: i64)
    ensures
        r as int == avg_trunc(a as int, b as int),
{
    let s: i128 = a as i128 + b as i128;
    if s >= 0 {
        let half: u128 = (s as u128) / 2;
        half as i64
    } else {
        let m: u128 = ((-s) as u128) / 2;
        if m >= 9223372036854775808u128 {
            i64::MIN
        } else {
            -(m as i64)
        }
    }
}

/// Reduces a non-empty file list to its summary statistics: timestamps
/// and sizes are sorted independently; min and max are the ends, the
/// median the central element (or the truncated average of the two
/// central elements); an unparseable timestamp reads as epoch zero.
#[verifier::loop_isolation(false)]
pub fn calculate_file_stats(files_info: &Vec<FileData>) -> (r: FileStats)
    requires
        files_info@.len() > 0,
    ensures
        ({
            let models = files_info@.map_values(|f: FileData| f@);
            let st = sorted_of(file_times(models));
            let ss = sorted_of(file_sizes(models));
            r.file_modified_first == st[0] && r.file_modified_last == st.last()
                && r.file_modified_median as int == median_of(st) && r.filesize_min == ss[0]
                && r.filesize_max == ss.last() && r.filesize_median as int == median_of(ss)
        }),
{
    let ghost models = files_info@.map_values(|f: FileData| f@);
    let mut times: Vec<i64> = Vec::new();
    let mut sizes: Vec<i64> = Vec::new();
    let mut i: usize = 0;
    while i < files_info.len()
        invariant
            i <= files_info@.len(),
            times@ == file_times(models.subrange(0, i as int)),
            sizes@ == file_sizes(models.subrange(0, i as int)),
        decreases files_info@.len() - i,
    {
        let t = match external::rfc3339_epoch(files_info[i].last_modified.as_str()) {
            Some(t) => t,
            None => 0i64,
        };
        times.push(t);
        sizes.push(files_info[i].size);
        proof {
            assert(models.subrange(0, i + 1) =~= models.subrange(0, i as int).push(
                models[i as int],
            ));
            assert(file_times(models.subrange(0, i + 1)) =~= file_times(
                models.subrange(0, i as int),
            ).push(
                match external::rfc3339_epoch_of(models[i as int].last_modified) {
                    Some(t) => t,
                    None => 0i64,
                },
            ));
            assert(file_sizes(models.subrange(0, i + 1)) =~= file_sizes(
                models.subrange(0, i as int),
            ).push(models[i as int].size));
        }
        i += 1;
    }
    proof {
        assert(models.subrange(0, files_info@.len() as int) =~= models);
    }
    let times = sort_i64(&times);
    let sizes = sort_i64(&sizes);
    proof {
        file_times(models).lemma_sort_by_ensures(i64_le());
        file_sizes(models).lemma_sort_by_ensures(i64_le());
        vstd::seq_lib::to_multiset_len(file_times(models));
        vstd::seq_lib::to_multiset_len(sorted_of(file_times(models)));
        vstd::seq_lib::to_multiset_len(file_sizes(models));
        vstd::seq_lib::to_multiset_len(sorted_of(file_sizes(models)));
    }
    let n = times.len();
    let file_modified_first = times[0];
    let file_modified_last = times[n - 1];
    let file_modified_median = if n % 2 == 0 {
        avg_trunc_exec(times[n / 2 - 1], times[n / 2])
    } else {
        times[n / 2]
    };
    let filesize_min = sizes[0];
    let filesize_max = sizes[n - 1];
    let filesize_median = if n % 2 == 0 {
        avg_trunc_exec(sizes[n / 2 - 1], sizes[n / 2])
    } else {
        sizes[n / 2]
    };
    FileStats {
        file_modified_first,
        file_modified_last,
        file_modified_median,
        filesize_min,
        filesize_max,
        filesize_median,
    }
}

// ---------------------------------------------------------------------------
// The flat join
// ---------------------------------------------------------------------------

fn genres_contain(genres: &Vec<Genre>, g: Genre) -> (r: bool)
    ensures
        r == genres@.contains(g),
{
    let mut i: usize = 0;
    while i < genres.len()
        invariant
            i <= genres@.len(),
            forall|j: int| 0 <= j < i ==> genres@[j] != g,
        decreases genres@.len() - i,
    {
        if genres[i] == g {
            return true;
        }
        i += 1;
    }
    false
}

/// The milliseconds a present time-required string names; unset reads as
/// zero. A text outside the plain duration shape (signs, exponents, or a
/// component of ten or more digits) is unusable.
pub open spec fn time_required_millis(a: anilist::entry::EntryModel) -> Option<i64> {
    match a.time_required {
        Some(t) => if crate::text::duration_text_ok(t) {
            external::duration_millis_of(t)
        } else {
            None
        },
        None => Some(0i64),
    }
}

/// The epoch seconds a present date string names; unset reads as zero.
pub open spec fn date_seconds(d: Option<Seq<char>>) -> Option<i64> {
    match d {
        Some(t) => external::date_epoch_of(t),
        None => Some(0i64),
    }
}

pub open spec fn unknown_sentinel() -> Seq<char> {
    "?"@
}

pub open spec fn opt_or_zero_i32(o: Option<i32>) -> i32 {
    match o {
        Some(v) => v,
        None => 0,
    }
}

/// Builds the denormalized output row for one successfully enriched
/// entry: listing fields, reconciled metadata and file statistics, with
/// unset string fields rendered as the unknown sentinel and unset numeric
/// fields as zero. Fails only when a present time-required or date string
/// is unusable.
#[verifier::loop_isolation(false)]
pub fn get_tsv_entry(
    jimaku_entry: &jimaku::entry::Entry,
    jimaku_files_info: &Vec<FileData>,
    anilist_entry: &anilist::entry::Entry,
) -> (r: Result<TsvEntry, ParseError>)
    requires
        jimaku_files_info@.len() > 0,
    ensures
        ({
            let e = jimaku_entry@;
            let a = anilist_entry@;
            let models = jimaku_files_info@.map_values(|f: FileData| f@);
            let st = sorted_of(file_times(models));
            let ss = sorted_of(file_sizes(models));
            match r {
                Ok(t) => time_required_millis(a) is Some && date_seconds(a.start_date) is Some
                    && date_seconds(a.end_date) is Some && t.name_romaji@ == e.name
                    && t.name_english@ == match e.english_name {
                    Some(n) => n,
                    None => unknown_sentinel(),
                } && t.name_japanese@ == match e.japanese_name {
                    Some(n) => n,
                    None => unknown_sentinel(),
                } && t.is_unverified == EntryFlags(e.flags).spec_has_flag(UNVERIFIED_FLAG)
                    && t.is_external == EntryFlags(e.flags).spec_has_flag(EXTERNAL_FLAG)
                    && t.is_movie == EntryFlags(e.flags).spec_has_flag(MOVIE_FLAG) && t.is_adult
                    == EntryFlags(e.flags).spec_has_flag(ADULT_FLAG) && t.format@ == match a.format {
                    Some(f) => format_name(f),
                    None => unknown_sentinel(),
                } && t.status@ == match a.status {
                    Some(s) => status_name(s),
                    None => unknown_sentinel(),
                } && t.source@ == match a.source {
                    Some(s) => source_name(s),
                    None => unknown_sentinel(),
                } && t.episodes_amount == opt_or_zero_i32(a.episodes_amount) && t.time_required
                    == time_required_millis(a)->Some_0 && t.start_date == date_seconds(
                    a.start_date,
                )->Some_0 && t.end_date == date_seconds(a.end_date)->Some_0 && t.rating_value
                    == opt_or_zero_i32(a.rating_value) && t.rating_count == opt_or_zero_i32(
                    a.rating_count,
                ) && t.company_production == opt_or_zero_i32(a.production_company)
                    && t.company_producer == opt_or_zero_i32(a.producer) && t.company_creator
                    == opt_or_zero_i32(a.creator) && t.last_modified == e.last_modified
                    && t.file_modified_first == st[0] && t.file_modified_last == st.last()
                    && t.file_modified_median as int == median_of(st) && t.filesize_min == ss[0]
                    && t.filesize_max == ss.last() && t.filesize_median as int == median_of(ss)
                    && t.is_action == a.genres.contains(Genre::Action) && t.is_adventure
                    == a.genres.contains(Genre::Adventure) && t.is_comedy == a.genres.contains(
                    Genre::Comedy,
                ) && t.is_drama == a.genres.contains(Genre::Drama) && t.is_ecchi
                    == a.genres.contains(Genre::Ecchi) && t.is_fantasy == a.genres.contains(
                    Genre::Fantasy,
                ) && t.is_horror == a.genres.contains(Genre::Horror) && t.is_mahou_shoujo
                    == a.genres.contains(Genre::MahouShoujo) && t.is_mecha == a.genres.contains(
                    Genre::Mecha,
                ) && t.is_music == a.genres.contains(Genre::Music) && t.is_mystery
                    == a.genres.contains(Genre::Mystery) && t.is_psychological == a.genres.contains(
                    Genre::Psychological,
                ) && t.is_romance == a.genres.contains(Genre::Romance) && t.is_sci_fi
                    == a.genres.contains(Genre::SciFi) && t.is_slice_of_life == a.genres.contains(
                    Genre::SliceOfLife,
                ) && t.is_sports == a.genres.contains(Genre::Sports) && t.is_supernatural
                    == a.genres.contains(Genre::Supernatural) && t.is_thriller
                    == a.genres.contains(Genre::Thriller),
                Err(err) => (err == ParseError::BadDuration && time_required_millis(a) is None) || (
                err == ParseError::BadDate && time_required_millis(a) is Some && (date_seconds(
                    a.start_date,
                ) is None || (date_seconds(a.start_date) is Some && date_seconds(
                    a.end_date,
                ) is None))),
            }
        }),
{
    let file_stats = calculate_file_stats(jimaku_files_info);
    let time_required: i64 = match &anilist_entry.time_required {
        Some(t) => {
            if !crate::text::duration_text_bounded(t.as_str()) {
                return Err(ParseError::BadDuration);
            }
            match external::duration_milliseconds(t.as_str()) {
                Some(ms) => ms,
                None => {
                    return Err(ParseError::BadDuration);
                },
            }
        },
        None => 0,
    };
    let start_date: i64 = match &anilist_entry.start_date {
        Some(d) => match external::date_epoch_seconds(d.as_str()) {
            Some(s) => s,
            None => {
                return Err(ParseError::BadDate);
            },
        },
        None => 0,
    };
    let end_date: i64 = match &anilist_entry.end_date {
        Some(d) => match external::date_epoch_seconds(d.as_str()) {
            Some(s) => s,
            None => {
                return Err(ParseError::BadDate);
            },
        },
        None => 0,
    };
    let name_english: String = match &jimaku_entry.english_name {
        Some(n) => n.clone(),
        None => "?".to_owned(),
    };
    let name_japanese: String = match &jimaku_entry.japanese_name {
        Some(n) => n.clone(),
        None => "?".to_owned(),
    };
    let format: String = match &anilist_entry.format {
        Some(f) => f.as_str().to_owned(),
        None => "?".to_owned(),
    };
    let status: String = match &anilist_entry.status {
        Some(s) => s.as_str().to_owned(),
        None => "?".to_owned(),
    };
    let source: String = match &anilist_entry.source {
        Some(s) => s.as_str().to_owned(),
        None => "?".to_owned(),
    };
    Ok(
        TsvEntry {
            name_romaji: jimaku_entry.name.clone(),
            name_english,
            name_japanese,
            is_unverified: EntryFlags::new(jimaku_entry.flags).is_unverified(),
            is_external: EntryFlags::new(jimaku_entry.flags).is_external(),
            is_movie: EntryFlags::new(jimaku_entry.flags).is_movie(),
            is_adult: EntryFlags::new(jimaku_entry.flags).is_adult(),
            is_action: genres_contain(&anilist_entry.genres, Genre::Action),
            is_adventure: genres_contain(&anilist_entry.genres, Genre::Adventure),
            is_comedy: genres_contain(&anilist_entry.genres, Genre::Comedy),
            is_drama: genres_contain(&anilist_entry.genres, Genre::Drama),
            is_ecchi: genres_contain(&anilist_entry.genres, Genre::Ecchi),
            is_fantasy: genres_contain(&anilist_entry.genres, Genre::Fantasy),
            is_horror: genres_contain(&anilist_entry.genres, Genre::Horror),
            is_mahou_shoujo: genres_contain(&anilist_entry.genres, Genre::MahouShoujo),
            is_mecha: genres_contain(&anilist_entry.genres, Genre::Mecha),
            is_music: genres_contain(&anilist_entry.genres, Genre::Music),
            is_mystery: genres_contain(&anilist_entry.genres, Genre::Mystery),
            is_psychological: genres_contain(&anilist_entry.genres, Genre::Psychological),
            is_romance: genres_contain(&anilist_entry.genres, Genre::Romance),
            is_sci_fi: genres_contain(&anilist_entry.genres, Genre::SciFi),
            is_slice_of_life: genres_contain(&anilist_entry.genres, Genre::SliceOfLife),
            is_sports: genres_contain(&anilist_entry.genres, Genre::Sports),
            is_supernatural: genres_contain(&anilist_entry.genres, Genre::Supernatural),
            is_thriller: genres_contain(&anilist_entry.genres, Genre::Thriller),
            format,
            status,
            source,
            episodes_amount: match anilist_entry.episodes_amount {
                Some(v) => v,
                None => 0,
            },
            time_required,
            start_date,
            end_date,
            rating_value: match anilist_entry.rating_value {
                Some(v) => v,
                None => 0,
            },
            rating_count: match anilist_entry.rating_count {
                Some(v) => v,
                None => 0,
            },
            company_production: match anilist_entry.production_company {
                Some(v) => v,
                None => 0,
            },
            company_producer: match anilist_entry.producer {
                Some(v) => v,
                None => 0,
            },
            company_creator: match anilist_entry.creator {
                Some(v) => v,
                None => 0,
            },
            last_modified: jimaku_entry.last_modified,
            file_modified_first: file_stats.file_modified_first,
            file_modified_last: file_stats.file_modified_last,
            file_modified_median: file_stats.file_modified_median,
            filesize_min: file_stats.filesize_min,
            filesize_max: file_stats.filesize_max,
            filesize_median: file_stats.filesize_median,
        },
    )
}

} // verus!
