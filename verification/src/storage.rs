//! The append-only output sink: renders the column header and one
//! tab-separated row per entry. The sink instance holds the explicit
//! header state for one destination; whoever opens the destination in a
//! new process hands that state in, since nothing here survives a
//! restart. Writing the rendered bytes is the caller's concern.

use crate::convert::entry::TsvEntry;
use crate::text;
use vstd::prelude::*;
use vstd::string::*;

verus! {

/// Whether a field must be quoted: it carries the delimiter, a record
/// terminator, or a quote.
pub open spec fn needs_quoting(f: Seq<char>) -> bool {
    f.contains('\t') || f.contains('\n') || f.contains('\r') || f.contains('"')
}

/// A field's characters with every quote doubled.
pub open spec fn escaped(f: Seq<char>) -> Seq<char>
    decreases f.len(),
{
    if f.len() == 0 {
        f
    } else if f[0] == '"' {
        seq!['"', '"'] + escaped(f.drop_first())
    } else {
        seq![f[0]] + escaped(f.drop_first())
    }
}

/// A field as it stands in the row: quoted and escaped only when needed.
pub open spec fn quoted_field(f: Seq<char>) -> Seq<char> {
    if needs_quoting(f) {
        seq!['"'] + escaped(f) + seq!['"']
    } else {
        f
    }
}

/// The cells of a row from one field on, each preceded by the delimiter
/// unless it opens the row, closed by the record terminator.
pub open spec fn render_cells(fields: Seq<Seq<char>>, first: bool) -> Seq<char>
    decreases fields.len(),
{
    if fields.len() == 0 {
        seq!['\n']
    } else {
        (if first {
            quoted_field(fields[0])
        } else {
            seq!['\t'] + quoted_field(fields[0])
        }) + render_cells(fields.drop_first(), false)
    }
}

/// One tab-separated row holding `fields`, terminated by a newline.
pub open spec fn render_row(fields: Seq<Seq<char>>) -> Seq<char> {
    render_cells(fields, true)
}

/// The output column names, in their fixed order.
pub open spec fn header_fields() -> Seq<Seq<char>> {
    seq![
        "name_romaji"@,
        "name_english"@,
        "name_japanese"@,
        "is_unverified"@,
        "is_external"@,
        "is_movie"@,
        "is_adult"@,
        "is_action"@,
        "is_adventure"@,
        "is_comedy"@,
        "is_drama"@,
        "is_ecchi"@,
        "is_fantasy"@,
        "is_horror"@,
        "is_mahou_shoujo"@,
        "is_mecha"@,
        "is_music"@,
        "is_mystery"@,
        "is_psychological"@,
        "is_romance"@,
        "is_sci_fi"@,
        "is_slice_of_life"@,
        "is_sports"@,
        "is_supernatural"@,
        "is_thriller"@,
        "format"@,
        "status"@,
        "source"@,
        "episodes_amount"@,
        "time_required"@,
        "start_date"@,
        "end_date"@,
        "rating_value"@,
        "rating_count"@,
        "company_production"@,
        "company_producer"@,
        "company_creator"@,
        "last_modified"@,
        "file_modified_first"@,
        "file_modified_last"@,
        "file_modified_median"@,
        "filesize_min"@,
        "filesize_max"@,
        "filesize_median"@,
    ]
}

/// The identifying columns: names and listing flags.
pub open spec fn row_fields_names(t: TsvEntry) -> Seq<Seq<char>> {
    seq![
        t.name_romaji@,
        t.name_english@,
        t.name_japanese@,
        text::bool_str(t.is_unverified),
        text::bool_str(t.is_external),
        text::bool_str(t.is_movie),
        text::bool_str(t.is_adult),
    ]
}

/// The genre flag columns, first half.
pub open spec fn row_fields_genres_a(t: TsvEntry) -> Seq<Seq<char>> {
    seq![
        text::bool_str(t.is_action),
        text::bool_str(t.is_adventure),
        text::bool_str(t.is_comedy),
        text::bool_str(t.is_drama),
        text::bool_str(t.is_ecchi),
        text::bool_str(t.is_fantasy),
        text::bool_str(t.is_horror),
        text::bool_str(t.is_mahou_shoujo),
        text::bool_str(t.is_mecha),
    ]
}

/// The genre flag columns, second half.
pub open spec fn row_fields_genres_b(t: TsvEntry) -> Seq<Seq<char>> {
    seq![
        text::bool_str(t.is_music),
        text::bool_str(t.is_mystery),
        text::bool_str(t.is_psychological),
        text::bool_str(t.is_romance),
        text::bool_str(t.is_sci_fi),
        text::bool_str(t.is_slice_of_life),
        text::bool_str(t.is_sports),
        text::bool_str(t.is_supernatural),
        text::bool_str(t.is_thriller),
    ]
}

/// The genre flag columns.
pub open spec fn row_fields_genres(t: TsvEntry) -> Seq<Seq<char>> {
    row_fields_genres_a(t) + row_fields_genres_b(t)
}

/// The metadata columns.
pub open spec fn row_fields_meta(t: TsvEntry) -> Seq<Seq<char>> {
    seq![
        t.format@,
        t.status@,
        t.source@,
        text::int_str(t.episodes_amount as int),
        text::int_str(t.time_required as int),
        text::int_str(t.start_date as int),
        text::int_str(t.end_date as int),
        text::int_str(t.rating_value as int),
        text::int_str(t.rating_count as int),
        text::int_str(t.company_production as int),
        text::int_str(t.company_producer as int),
        text::int_str(t.company_creator as int),
    ]
}

/// The timestamp and size columns.
pub open spec fn row_fields_stats(t: TsvEntry) -> Seq<Seq<char>> {
    seq![
        text::int_str(t.last_modified as int),
        text::int_str(t.file_modified_first as int),
        text::int_str(t.file_modified_last as int),
        text::int_str(t.file_modified_median as int),
        text::int_str(t.filesize_min as int),
        text::int_str(t.filesize_max as int),
        text::int_str(t.filesize_median as int),
    ]
}

/// One row's fields, in column order: names verbatim, flags as literal
/// booleans, dates and sizes as decimal integers.
pub open spec fn row_fields(t: TsvEntry) -> Seq<Seq<char>> {
    row_fields_names(t) + row_fields_genres(t) + row_fields_meta(t) + row_fields_stats(t)
}

/// What one append hands back for writing: the row alone, or the header
/// first when none has been written to this destination yet.
pub open spec fn append_output(header_written: bool, t: TsvEntry) -> Seq<char> {
    if header_written {
        render_row(row_fields(t))
    } else {
        render_row(header_fields()) + render_row(row_fields(t))
    }
}

fn quote_exec(f: &str) -> (r: String)
    ensures
        r@ == quoted_field(f@),
{
    let quoting = text::str_contains_char(f, '\t') || text::str_contains_char(f, '\n')
        || text::str_contains_char(f, '\r') || text::str_contains_char(f, '"');
    if !quoting {
        return f.to_owned();
    }
    let len = f.unicode_len();
    let mut out = String::new();
    out.push('"');
    proof {
        assert(f@.skip(0) =~= f@);
        assert(Seq::<char>::empty().push('"') =~= seq!['"']);
        assert(seq!['"'] + escaped(f@) =~= seq!['"'] + (Seq::<char>::empty() + escaped(f@)));
    }
    let mut i: usize = 0;
    while i < len
        invariant
            len == f@.len(),
            i <= len,
            seq!['"'] + escaped(f@) == out@ + escaped(f@.skip(i as int)),
        decreases len - i,
    {
        let ghost rest = f@.skip(i as int);
        let c = f.get_char(i);
        proof {
            assert(rest[0] == f@[i as int]);
            assert(rest.drop_first() =~= f@.skip(i + 1));
        }
        if c == '"' {
            out.push('"');
            out.push('"');
            proof {
                assert(out@ + escaped(f@.skip(i + 1)) =~= (out@.drop_last().drop_last() + (
                seq!['"', '"'] + escaped(f@.skip(i + 1)))));
            }
        } else {
            out.push(c);
            proof {
                assert(out@ + escaped(f@.skip(i + 1)) =~= (out@.drop_last() + (seq![c] + escaped(
                    f@.skip(i + 1),
                ))));
            }
        }
        i += 1;
    }
    proof {
        assert(f@.skip(len as int) =~= Seq::<char>::empty());
        assert(escaped(Seq::<char>::empty()) =~= Seq::<char>::empty());
        assert(out@ + Seq::<char>::empty() =~= out@);
    }
    out.push('"');
    proof {
        assert((seq!['"'] + escaped(f@)).push('"') =~= quoted_field(f@));
    }
    out
}

/// Renders one row from its fields.
#[verifier::loop_isolation(false)]
fn render_row_exec(fields: &Vec<String>) -> (r: String)
    ensures
        r@ == render_row(fields.deep_view()),
{
    let ghost all = fields.deep_view();
    let mut out = String::new();
    proof {
        assert(all.skip(0) =~= all);
        assert(Seq::<char>::empty() + render_cells(all, true) =~= render_cells(all, true));
    }
    let mut i: usize = 0;
    while i < fields.len()
        invariant
            i <= fields@.len(),
            render_row(all) == out@ + render_cells(all.skip(i as int), i == 0),
        decreases fields@.len() - i,
    {
        let ghost rest = all.skip(i as int);
        proof {
            assert(rest[0] == all[i as int]);
            assert(rest.drop_first() =~= all.skip(i + 1));
            assert(all[i as int] == fields@[i as int]@);
        }
        if i > 0 {
            out.push('\t');
        }
        let cell = quote_exec(fields[i].as_str());
        out.append(cell.as_str());
        proof {
            if i > 0 {
                assert(out@ + render_cells(all.skip(i + 1), false) =~= (out@.subrange(
                    0,
                    out@.len() - 1 - quoted_field(all[i as int]).len(),
                ) + ((seq!['\t'] + quoted_field(all[i as int])) + render_cells(
                    all.skip(i + 1),
                    false,
                ))));
            } else {
                assert(out@ + render_cells(all.skip(i + 1), false) =~= (out@.subrange(
                    0,
                    out@.len() - quoted_field(all[i as int]).len(),
                ) + (quoted_field(all[i as int]) + render_cells(all.skip(i + 1), false))));
            }
        }
        i += 1;
    }
    proof {
        assert(all.skip(fields@.len() as int) =~= Seq::<Seq<char>>::empty());
    }
    out.push('\n');
    proof {
        if fields@.len() == 0 {
            assert(out@ =~= render_row(all));
        } else {
            assert(out@ =~= (out@.drop_last() + seq!['\n']));
            assert(render_cells(Seq::<Seq<char>>::empty(), false) =~= seq!['\n']);
            assert(out@.drop_last() + render_cells(Seq::<Seq<char>>::empty(), false) =~= out@);
        }
    }
    out
}

#[verifier::rlimit(100)]
fn header_row() -> (r: String)
    ensures
        r@ == render_row(header_fields()),
{
    let mut fields: Vec<String> = Vec::new();
    fields.push("name_romaji".to_owned());
    fields.push("name_english".to_owned());
    fields.push("name_japanese".to_owned());
    fields.push("is_unverified".to_owned());
    fields.push("is_external".to_owned());
    fields.push("is_movie".to_owned());
    fields.push("is_adult".to_owned());
    fields.push("is_action".to_owned());
    fields.push("is_adventure".to_owned());
    fields.push("is_comedy".to_owned());
    fields.push("is_drama".to_owned());
    fields.push("is_ecchi".to_owned());
    fields.push("is_fantasy".to_owned());
    fields.push("is_horror".to_owned());
    fields.push("is_mahou_shoujo".to_owned());
    fields.push("is_mecha".to_owned());
    fields.push("is_music".to_owned());
    fields.push("is_mystery".to_owned());
    fields.push("is_psychological".to_owned());
    fields.push("is_romance".to_owned());
    fields.push("is_sci_fi".to_owned());
    fields.push("is_slice_of_life".to_owned());
    fields.push("is_sports".to_owned());
    fields.push("is_supernatural".to_owned());
    fields.push("is_thriller".to_owned());
    fields.push("format".to_owned());
    fields.push("status".to_owned());
    fields.push("source".to_owned());
    fields.push("episodes_amount".to_owned());
    fields.push("time_required".to_owned());
    fields.push("start_date".to_owned());
    fields.push("end_date".to_owned());
    fields.push("rating_value".to_owned());
    fields.push("rating_count".to_owned());
    fields.push("company_production".to_owned());
    fields.push("company_producer".to_owned());
    fields.push("company_creator".to_owned());
    fields.push("last_modified".to_owned());
    fields.push("file_modified_first".to_owned());
    fields.push("file_modified_last".to_owned());
    fields.push("file_modified_median".to_owned());
    fields.push("filesize_min".to_owned());
    fields.push("filesize_max".to_owned());
    fields.push("filesize_median".to_owned());
    proof {
        assert(fields.deep_view() =~= header_fields());
    }
    render_row_exec(&fields)
}

fn row_part_names(t: &TsvEntry) -> (r: Vec<String>)
    ensures
        r.deep_view() == row_fields_names(*t),
{
    let mut fields: Vec<String> = Vec::new();
    fields.push(t.name_romaji.clone());
    fields.push(t.name_english.clone());
    fields.push(t.name_japanese.clone());
    fields.push(text::bool_to_string(t.is_unverified));
    fields.push(text::bool_to_string(t.is_external));
    fields.push(text::bool_to_string(t.is_movie));
    fields.push(text::bool_to_string(t.is_adult));
    proof {
        assert(fields.deep_view() =~= row_fields_names(*t));
    }
    fields
}

fn row_part_genres_a(t: &TsvEntry) -> (r: Vec<String>)
    ensures
        r.deep_view() == row_fields_genres_a(*t),
{
    let mut fields: Vec<String> = Vec::new();
    fields.push(text::bool_to_string(t.is_action));
    fields.push(text::bool_to_string(t.is_adventure));
    fields.push(text::bool_to_string(t.is_comedy));
    fields.push(text::bool_to_string(t.is_drama));
    fields.push(text::bool_to_string(t.is_ecchi));
    fields.push(text::bool_to_string(t.is_fantasy));
    fields.push(text::bool_to_string(t.is_horror));
    fields.push(text::bool_to_string(t.is_mahou_shoujo));
    fields.push(text::bool_to_string(t.is_mecha));
    proof {
        assert(fields.deep_view() =~= row_fields_genres_a(*t));
    }
    fields
}

fn row_part_genres_b(t: &TsvEntry) -> (r: Vec<String>)
    ensures
        r.deep_view() == row_fields_genres_b(*t),
{
    let mut fields: Vec<String> = Vec::new();
    fields.push(text::bool_to_string(t.is_music));
    fields.push(text::bool_to_string(t.is_mystery));
    fields.push(text::bool_to_string(t.is_psychological));
    fields.push(text::bool_to_string(t.is_romance));
    fields.push(text::bool_to_string(t.is_sci_fi));
    fields.push(text::bool_to_string(t.is_slice_of_life));
    fields.push(text::bool_to_string(t.is_sports));
    fields.push(text::bool_to_string(t.is_supernatural));
    fields.push(text::bool_to_string(t.is_thriller));
    proof {
        assert(fields.deep_view() =~= row_fields_genres_b(*t));
    }
    fields
}

fn row_part_genres(t: &TsvEntry) -> (r: Vec<String>)
    ensures
        r.deep_view() == row_fields_genres(*t),
{
    let mut fields = row_part_genres_a(t);
    let mut b = row_part_genres_b(t);
    fields.append(&mut b);
    proof {
        assert(fields.deep_view() =~= row_fields_genres(*t));
    }
    fields
}

#[verifier::rlimit(100)]
fn row_part_meta(t: &TsvEntry) -> (r: Vec<String>)
    ensures
        r.deep_view() == row_fields_meta(*t),
{
    let mut fields: Vec<String> = Vec::new();
    fields.push(t.format.clone());
    fields.push(t.status.clone());
    fields.push(t.source.clone());
    fields.push(text::i32_to_string(t.episodes_amount));
    fields.push(text::i64_to_string(t.time_required));
    fields.push(text::i64_to_string(t.start_date));
    fields.push(text::i64_to_string(t.end_date));
    fields.push(text::i32_to_string(t.rating_value));
    fields.push(text::i32_to_string(t.rating_count));
    fields.push(text::i32_to_string(t.company_production));
    fields.push(text::i32_to_string(t.company_producer));
    fields.push(text::i32_to_string(t.company_creator));
    proof {
        assert(fields.deep_view() =~= row_fields_meta(*t));
    }
    fields
}

fn row_part_stats(t: &TsvEntry) -> (r: Vec<String>)
    ensures
        r.deep_view() == row_fields_stats(*t),
{
    let mut fields: Vec<String> = Vec::new();
    fields.push(text::i64_to_string(t.last_modified));
    fields.push(text::i64_to_string(t.file_modified_first));
    fields.push(text::i64_to_string(t.file_modified_last));
    fields.push(text::i64_to_string(t.file_modified_median));
    fields.push(text::i64_to_string(t.filesize_min));
    fields.push(text::i64_to_string(t.filesize_max));
    fields.push(text::i64_to_string(t.filesize_median));
    proof {
        assert(fields.deep_view() =~= row_fields_stats(*t));
    }
    fields
}

#[verifier::rlimit(100)]
fn entry_row(t: &TsvEntry) -> (r: String)
    ensures
        r@ == render_row(row_fields(*t)),
{
    let mut fields = row_part_names(t);
    let mut genres = row_part_genres(t);
    let mut meta = row_part_meta(t);
    let mut stats = row_part_stats(t);
    let ghost a = fields@;
    let ghost b = genres@;
    let ghost c = meta@;
    let ghost d = stats@;
    fields.append(&mut genres);
    fields.append(&mut meta);
    fields.append(&mut stats);
    proof {
        assert(fields@ =~= a + b + c + d);
        assert(fields.deep_view() =~= row_fields(*t));
    }
    render_row_exec(&fields)
}

/// The sink for one destination path: renders what each append must
/// write, and writes the column header exactly once over this instance's
/// lifetime. The flag does not survive a process restart; a new instance
/// for a destination that already holds rows is built with
/// [`TsvSink::resume`].
pub struct TsvSink {
    pub header_written: bool,
}

impl TsvSink {
    /// A sink for a fresh destination: the first append carries the
    /// header.
    pub fn new() -> (r: TsvSink)
        ensures
            !r.header_written,
    {
        TsvSink { header_written: false }
    }

    /// A sink for a destination whose header state is already known,
    /// e.g. one that holds rows from an earlier run.
    pub fn resume(header_written: bool) -> (r: TsvSink)
        ensures
            r.header_written == header_written,
    {
        TsvSink { header_written }
    }

    /// Renders what this append must write: one delimited row, preceded
    /// by the column header when none has been written here yet. After
    /// the call the header counts as written.
    pub fn append(&mut self, entry: &TsvEntry) -> (r: String)
        ensures
            r@ == append_output(old(self).header_written, *entry),
            final(self).header_written,
    {
        let row = entry_row(entry);
        if self.header_written {
            row
        } else {
            self.header_written = true;
            let mut out = header_row();
            out.append(row.as_str());
            out
        }
    }
}

/// Over a sink's lifetime the header is rendered exactly once: the first
/// append on a fresh sink carries it, every later append and every
/// append on a resumed sink carries its row alone.
pub proof fn lemma_header_once(t1: TsvEntry, t2: TsvEntry, t3: TsvEntry)
    ensures
        append_output(false, t1) + append_output(true, t2) == render_row(header_fields())
            + render_row(row_fields(t1)) + render_row(row_fields(t2)),
        append_output(true, t3) == render_row(row_fields(t3)),
{
}

} // verus!
