//! The ARFF table format: parsing a document into its relation,
//! attribute declarations and data records, and the integer-valued parts
//! of its normalization (header expansion, modes, one-hot encoding).

use crate::errors::ParseError;
use crate::text;
use crate::text::{attr_quote_escaped, ends_with, is_space, starts_with, trim_spec};
use vstd::prelude::*;
use vstd::string::*;

verus! {

#[derive(Debug)]
pub enum AttributeType {
    String,
    Numeric,
    Nominal(Vec<String>),
    BooleanNominal,
    Date,
}

pub ghost enum AttrTypeModel {
    String,
    Numeric,
    Nominal(Seq<Seq<char>>),
    BooleanNominal,
    Date,
}

impl View for AttributeType {
    type V = AttrTypeModel;

    open spec fn view(&self) -> AttrTypeModel {
        match self {
            AttributeType::String => AttrTypeModel::String,
            AttributeType::Numeric => AttrTypeModel::Numeric,
            AttributeType::Nominal(vs) => AttrTypeModel::Nominal(vs.deep_view()),
            AttributeType::BooleanNominal => AttrTypeModel::BooleanNominal,
            AttributeType::Date => AttrTypeModel::Date,
        }
    }
}

#[derive(Debug)]
pub struct Attribute {
    pub name: String,
    pub attr_type: AttributeType,
}

pub ghost struct AttributeModel {
    pub name: Seq<char>,
    pub attr_type: AttrTypeModel,
}

impl View for Attribute {
    type V = AttributeModel;

    open spec fn view(&self) -> AttributeModel {
        AttributeModel { name: self.name@, attr_type: self.attr_type@ }
    }
}

#[derive(Debug)]
pub struct DataRecord {
    pub values: Vec<String>,
}

impl View for DataRecord {
    type V = Seq<Seq<char>>;

    open spec fn view(&self) -> Seq<Seq<char>> {
        self.values.deep_view()
    }
}

#[derive(Debug)]
pub struct ARFFData {
    pub relation: String,
    pub attributes: Vec<Attribute>,
    pub data: Vec<DataRecord>,
}

pub ghost struct ArffModel {
    pub relation: Seq<char>,
    pub attributes: Seq<AttributeModel>,
    pub data: Seq<Seq<Seq<char>>>,
}

impl View for ARFFData {
    type V = ArffModel;

    open spec fn view(&self) -> ArffModel {
        ArffModel {
            relation: self.relation@,
            attributes: self.attributes@.map_values(|a: Attribute| a@),
            data: self.data@.map_values(|d: DataRecord| d@),
        }
    }
}

// ---------------------------------------------------------------------------
// Tokenization
// ---------------------------------------------------------------------------

/// Scanning state after reading a prefix: the complete whitespace-
/// separated tokens, and the partial token still open.
pub open spec fn tokens_fold(s: Seq<char>) -> (Seq<Seq<char>>, Seq<char>)
    decreases s.len(),
{
    if s.len() == 0 {
        (Seq::empty(), Seq::empty())
    } else {
        let (ts, cur) = tokens_fold(s.drop_last());
        if is_space(s.last()) {
            if cur.len() > 0 {
                (ts.push(cur), Seq::empty())
            } else {
                (ts, Seq::empty())
            }
        } else {
            (ts, cur.push(s.last()))
        }
    }
}

/// The whitespace-separated tokens of a line.
pub open spec fn ws_tokens(s: Seq<char>) -> Seq<Seq<char>> {
    let (ts, cur) = tokens_fold(s);
    if cur.len() > 0 {
        ts.push(cur)
    } else {
        ts
    }
}

#[verifier::loop_isolation(false)]
fn split_tokens(s: &str) -> (r: Vec<String>)
    ensures
        r.deep_view() == ws_tokens(s@),
{
    let len = s.unicode_len();
    let mut out: Vec<String> = Vec::new();
    let mut cur = String::new();
    let mut i: usize = 0;
    while i < len
        invariant
            i <= len,
            out.deep_view() == tokens_fold(s@.subrange(0, i as int)).0,
            cur@ == tokens_fold(s@.subrange(0, i as int)).1,
        decreases len - i,
    {
        proof {
            assert(s@.subrange(0, i + 1).drop_last() =~= s@.subrange(0, i as int));
            assert(s@.subrange(0, i + 1).last() == s@[i as int]);
        }
        let c = s.get_char(i);
        if text::is_space_exec(c) {
            if cur.unicode_len() > 0 {
                out.push(cur);
                cur = String::new();
            }
        } else {
            cur.push(c);
        }
        i += 1;
    }
    proof {
        assert(s@.subrange(0, len as int) =~= s@);
    }
    if cur.unicode_len() > 0 {
        out.push(cur);
    }
    out
}

/// Scanning state of the quote-aware value list of a nominal attribute:
/// finished values, the open value, and whether a quote is open. Quotes
/// toggle and are dropped; commas outside quotes close a value, trimmed.
pub open spec fn attr_vals_fold(s: Seq<char>) -> (Seq<Seq<char>>, Seq<char>, bool)
    decreases s.len(),
{
    if s.len() == 0 {
        (Seq::empty(), Seq::empty(), false)
    } else {
        let (vs, cur, q) = attr_vals_fold(s.drop_last());
        let c = s.last();
        if c == '\'' {
            (vs, cur, !q)
        } else if c == ',' && !q {
            (vs.push(trim_spec(cur)), Seq::empty(), q)
        } else {
            (vs, cur.push(c), q)
        }
    }
}

/// The values of a nominal attribute's braced list.
pub open spec fn attr_vals(s: Seq<char>) -> Seq<Seq<char>> {
    let (vs, cur, q) = attr_vals_fold(s);
    if cur.len() > 0 {
        vs.push(trim_spec(cur))
    } else {
        vs
    }
}

#[verifier::loop_isolation(false)]
fn attr_values(s: &str) -> (r: Vec<String>)
    ensures
        r.deep_view() == attr_vals(s@),
{
    let len = s.unicode_len();
    let mut out: Vec<String> = Vec::new();
    let mut cur = String::new();
    let mut in_quotes = false;
    let mut i: usize = 0;
    while i < len
        invariant
            i <= len,
            out.deep_view() == attr_vals_fold(s@.subrange(0, i as int)).0,
            cur@ == attr_vals_fold(s@.subrange(0, i as int)).1,
            in_quotes == attr_vals_fold(s@.subrange(0, i as int)).2,
        decreases len - i,
    {
        proof {
            assert(s@.subrange(0, i + 1).drop_last() =~= s@.subrange(0, i as int));
            assert(s@.subrange(0, i + 1).last() == s@[i as int]);
        }
        let c = s.get_char(i);
        if c == '\'' {
            in_quotes = !in_quotes;
        } else if c == ',' && !in_quotes {
            out.push(text::trim(cur.as_str()));
            cur = String::new();
        } else {
            cur.push(c);
        }
        i += 1;
    }
    proof {
        assert(s@.subrange(0, len as int) =~= s@);
    }
    if cur.unicode_len() > 0 {
        out.push(text::trim(cur.as_str()));
    }
    out
}

/// Scanning state of a data row: finished values, the open value, whether
/// a quote is open, and the previous character. A quote preceded by a
/// backslash does not toggle; commas outside quotes close a value,
/// trimmed.
pub open spec fn row_vals_fold(s: Seq<char>) -> (Seq<Seq<char>>, Seq<char>, bool, char)
    decreases s.len(),
{
    if s.len() == 0 {
        (Seq::empty(), Seq::empty(), false, ' ')
    } else {
        let (vs, cur, q, prev) = row_vals_fold(s.drop_last());
        let c = s.last();
        if c == '\'' && prev != '\\' {
            (vs, cur, !q, c)
        } else if c == ',' && !q {
            (vs.push(trim_spec(cur)), Seq::empty(), q, c)
        } else {
            (vs, cur.push(c), q, c)
        }
    }
}

/// The values of one data row.
pub open spec fn row_vals(s: Seq<char>) -> Seq<Seq<char>> {
    let (vs, cur, q, prev) = row_vals_fold(s);
    if cur.len() > 0 {
        vs.push(trim_spec(cur))
    } else {
        vs
    }
}

#[verifier::loop_isolation(false)]
fn row_values(s: &str) -> (r: Vec<String>)
    ensures
        r.deep_view() == row_vals(s@),
{
    let len = s.unicode_len();
    let mut out: Vec<String> = Vec::new();
    let mut cur = String::new();
    let mut in_quotes = false;
    let mut prev: char = ' ';
    let mut i: usize = 0;
    while i < len
        invariant
            i <= len,
            out.deep_view() == row_vals_fold(s@.subrange(0, i as int)).0,
            cur@ == row_vals_fold(s@.subrange(0, i as int)).1,
            in_quotes == row_vals_fold(s@.subrange(0, i as int)).2,
            prev == row_vals_fold(s@.subrange(0, i as int)).3,
        decreases len - i,
    {
        proof {
            assert(s@.subrange(0, i + 1).drop_last() =~= s@.subrange(0, i as int));
            assert(s@.subrange(0, i + 1).last() == s@[i as int]);
        }
        let c = s.get_char(i);
        if c == '\'' && prev != '\\' {
            in_quotes = !in_quotes;
        } else if c == ',' && !in_quotes {
            out.push(text::trim(cur.as_str()));
            cur = String::new();
        } else {
            cur.push(c);
        }
        prev = c;
        i += 1;
    }
    proof {
        assert(s@.subrange(0, len as int) =~= s@);
    }
    if cur.unicode_len() > 0 {
        out.push(text::trim(cur.as_str()));
    }
    out
}

// ---------------------------------------------------------------------------
// Attribute declarations
// ---------------------------------------------------------------------------

/// The rest of a braced value section: tokens joined by single spaces up
/// to and including the first token ending in the closing brace.
pub open spec fn sec_rest(toks: Seq<Seq<char>>, i: int) -> Seq<char>
    decreases toks.len() - i,
{
    if i < 0 || i >= toks.len() {
        Seq::empty()
    } else {
        seq![' '] + toks[i] + (if ends_with(toks[i], seq!['}']) {
            Seq::<char>::empty()
        } else {
            sec_rest(toks, i + 1)
        })
    }
}

/// The type a declaration's tokens name: the fixed words, the boolean
/// list's exact opening token, or a braced value list.
pub open spec fn attr_type_of(toks: Seq<Seq<char>>) -> Result<AttrTypeModel, ParseError>
    recommends
        toks.len() >= 3,
{
    let t2 = toks[2];
    if t2 == "date"@ {
        Ok(AttrTypeModel::Date)
    } else if t2 == "numeric"@ {
        Ok(AttrTypeModel::Numeric)
    } else if t2 == "string"@ {
        Ok(AttrTypeModel::String)
    } else if t2 == "{false,"@ {
        Ok(AttrTypeModel::BooleanNominal)
    } else if t2.len() > 0 && t2[0] == '{' {
        let section = t2 + sec_rest(toks, 3);
        if section.len() >= 2 {
            Ok(AttrTypeModel::Nominal(attr_vals(section.subrange(1, section.len() - 1))))
        } else {
            Err(ParseError::MalformedLine)
        }
    } else {
        Err(ParseError::MalformedLine)
    }
}

#[verifier::loop_isolation(false)]
fn parse_attr_type(toks: &Vec<String>) -> (r: Result<AttributeType, ParseError>)
    requires
        toks@.len() >= 3,
    ensures
        match r {
            Ok(ty) => attr_type_of(toks.deep_view()) == Ok::<AttrTypeModel, ParseError>(ty@),
            Err(e) => attr_type_of(toks.deep_view()) == Err::<AttrTypeModel, ParseError>(e),
        },
{
    let ghost dv = toks.deep_view();
    let t2 = &toks[2];
    proof {
        assert(dv[2] == toks@[2]@);
    }
    if text::str_eq(t2.as_str(), "date") {
        return Ok(AttributeType::Date);
    }
    if text::str_eq(t2.as_str(), "numeric") {
        return Ok(AttributeType::Numeric);
    }
    if text::str_eq(t2.as_str(), "string") {
        return Ok(AttributeType::String);
    }
    if text::str_eq(t2.as_str(), "{false,") {
        return Ok(AttributeType::BooleanNominal);
    }
    if t2.as_str().unicode_len() == 0 || t2.as_str().get_char(0) != '{' {
        return Err(ParseError::MalformedLine);
    }
    let mut section = t2.clone();
    let mut closed = false;
    let mut i: usize = 3;
    proof {
        reveal_strlit("}");
        assert("}"@ =~= seq!['}']);
    }
    while i < toks.len() && !closed
        invariant
            3 <= i <= toks@.len(),
            closed ==> section@ == dv[2] + sec_rest(dv, 3),
            !closed ==> dv[2] + sec_rest(dv, 3) == section@ + sec_rest(dv, i as int),
        decreases toks@.len() - i,
    {
        proof {
            assert(dv[i as int] == toks@[i as int]@);
        }
        let ghost prev = section@;
        section.push(' ');
        section.append(toks[i].as_str());
        proof {
            assert(section@ =~= prev + (seq![' '] + dv[i as int]));
        }
        if text::str_ends_with(toks[i].as_str(), "}") {
            closed = true;
            proof {
                assert(prev + sec_rest(dv, i as int) =~= section@);
            }
        } else {
            proof {
                assert(prev + sec_rest(dv, i as int) =~= section@ + sec_rest(dv, i + 1));
            }
        }
        i += 1;
    }
    proof {
        if !closed {
            assert(sec_rest(dv, i as int) =~= Seq::<char>::empty());
            assert(section@ + Seq::<char>::empty() =~= section@);
        }
    }
    let slen = section.as_str().unicode_len();
    if slen < 2 {
        return Err(ParseError::MalformedLine);
    }
    let inner = section.as_str().substring_char(1, slen - 1);
    let vals = attr_values(inner);
    Ok(AttributeType::Nominal(vals))
}

// ---------------------------------------------------------------------------
// The document fold
// ---------------------------------------------------------------------------

pub ghost struct ArffState {
    pub relation: Seq<char>,
    pub attributes: Seq<AttributeModel>,
    pub data: Seq<Seq<Seq<char>>>,
    pub in_data: bool,
}

pub open spec fn arff_init() -> ArffState {
    ArffState { relation: Seq::empty(), attributes: Seq::empty(), data: Seq::empty(), in_data: false }
}

/// What one line does to the parse state: comments and blank lines are
/// skipped, declarations extend the schema, the data marker switches
/// modes, and a data row must match the schema's width.
pub open spec fn arff_step(st: ArffState, line: Seq<char>) -> Result<ArffState, ParseError> {
    let t = trim_spec(line);
    if t.len() == 0 || t[0] == '%' {
        Ok(st)
    } else if starts_with(t, "@relation"@) {
        let toks = ws_tokens(t);
        if toks.len() >= 2 {
            Ok(ArffState { relation: toks[1], ..st })
        } else {
            Err(ParseError::MalformedLine)
        }
    } else if starts_with(t, "@attribute"@) {
        let toks = ws_tokens(t);
        if toks.len() < 3 {
            Err(ParseError::MalformedLine)
        } else {
            match attr_type_of(toks) {
                Ok(ty) => Ok(
                    ArffState {
                        attributes: st.attributes.push(
                            AttributeModel { name: toks[1], attr_type: ty },
                        ),
                        ..st
                    },
                ),
                Err(e) => Err(e),
            }
        }
    } else if starts_with(t, "@data"@) {
        Ok(ArffState { in_data: true, ..st })
    } else if st.in_data {
        let vals = row_vals(t);
        if vals.len() == st.attributes.len() {
            Ok(ArffState { data: st.data.push(vals), ..st })
        } else {
            Err(ParseError::MalformedLine)
        }
    } else {
        Ok(st)
    }
}

pub open spec fn arff_fold(lines: Seq<Seq<char>>) -> Result<ArffState, ParseError>
    decreases lines.len(),
{
    if lines.len() == 0 {
        Ok(arff_init())
    } else {
        match arff_fold(lines.drop_last()) {
            Err(e) => Err(e),
            Ok(st) => arff_step(st, lines.last()),
        }
    }
}

/// What parsing a whole document yields.
pub open spec fn arff_result(content: Seq<char>) -> Result<ArffModel, ParseError> {
    match arff_fold(text::split_char(content, '\n')) {
        Err(e) => Err(e),
        Ok(st) => Ok(ArffModel { relation: st.relation, attributes: st.attributes, data: st.data }),
    }
}

/// A failing prefix of lines fails the whole document.
proof fn lemma_arff_fold_err(lines: Seq<Seq<char>>, n: int)
    requires
        0 <= n <= lines.len(),
        arff_fold(lines.subrange(0, n)) is Err,
    ensures
        arff_fold(lines) == arff_fold(lines.subrange(0, n)),
    decreases lines.len() - n,
{
    if n < lines.len() {
        assert(lines.subrange(0, n + 1).drop_last() =~= lines.subrange(0, n));
        lemma_arff_fold_err(lines, n + 1);
    } else {
        assert(lines.subrange(0, n) =~= lines);
    }
}

impl ARFFData {
    /// Parses an ARFF document: its relation name, attribute declarations
    /// and data records. Fails on a declaration it cannot read and on a
    /// data row whose width does not match the declared attributes.
    #[verifier::loop_isolation(false)]
    pub fn from_arff(content: &str) -> (r: Result<ARFFData, ParseError>)
        ensures
            match r {
                Ok(d) => arff_result(content@) == Ok::<ArffModel, ParseError>(d@),
                Err(e) => arff_result(content@) == Err::<ArffModel, ParseError>(e),
            },
    {
        let lines = text::split(content, '\n');
        let ghost lv = lines.deep_view();
        let mut relation = String::new();
        let mut attributes: Vec<Attribute> = Vec::new();
        let mut data: Vec<DataRecord> = Vec::new();
        let mut is_data_section = false;
        let mut i: usize = 0;
        proof {
            assert(lv.subrange(0, 0) =~= Seq::<Seq<char>>::empty());
            assert(attributes@.map_values(|a: Attribute| a@) =~= Seq::<AttributeModel>::empty());
            assert(data@.map_values(|d: DataRecord| d@) =~= Seq::<Seq<Seq<char>>>::empty());
        }
        while i < lines.len()
            invariant
                i <= lines@.len(),
                lv == lines.deep_view(),
                lv == text::split_char(content@, '\n'),
                arff_fold(lv.subrange(0, i as int)) == Ok::<ArffState, ParseError>(
                    ArffState {
                        relation: relation@,
                        attributes: attributes@.map_values(|a: Attribute| a@),
                        data: data@.map_values(|d: DataRecord| d@),
                        in_data: is_data_section,
                    },
                ),
            decreases lines@.len() - i,
        {
            proof {
                assert(lv.subrange(0, i + 1).drop_last() =~= lv.subrange(0, i as int));
                assert(lv.subrange(0, i + 1).last() == lv[i as int]);
                assert(lv[i as int] == lines@[i as int]@);
            }
            let trimmed = text::trim(lines[i].as_str());
            let t = trimmed.as_str();
            let tlen = t.unicode_len();
            if tlen == 0 || t.get_char(0) == '%' {
                // skipped
            } else if text::str_starts_with(t, "@relation") {
                let toks = split_tokens(t);
                if toks.len() >= 2 {
                    relation = toks[1].clone();
                    proof {
                        assert(toks.deep_view()[1] == toks@[1]@);
                    }
                } else {
                    proof {
                        lemma_arff_fold_err(lv, i + 1);
                    }
                    return Err(ParseError::MalformedLine);
                }
            } else if text::str_starts_with(t, "@attribute") {
                let toks = split_tokens(t);
                if toks.len() < 3 {
                    proof {
                        lemma_arff_fold_err(lv, i + 1);
                    }
                    return Err(ParseError::MalformedLine);
                }
                match parse_attr_type(&toks) {
                    Ok(ty) => {
                        let ghost before = attributes@.map_values(|a: Attribute| a@);
                        attributes.push(Attribute { name: toks[1].clone(), attr_type: ty });
                        proof {
                            assert(toks.deep_view()[1] == toks@[1]@);
                            assert(attributes@.map_values(|a: Attribute| a@) =~= before.push(
                                attributes@.last()@,
                            ));
                        }
                    },
                    Err(e) => {
                        proof {
                            lemma_arff_fold_err(lv, i + 1);
                        }
                        return Err(e);
                    },
                }
            } else if text::str_starts_with(t, "@data") {
                is_data_section = true;
            } else if is_data_section {
                let vals = row_values(t);
                if vals.len() == attributes.len() {
                    let ghost before = data@.map_values(|d: DataRecord| d@);
                    data.push(DataRecord { values: vals });
                    proof {
                        assert(data@.map_values(|d: DataRecord| d@) =~= before.push(
                            data@.last()@,
                        ));
                    }
                } else {
                    proof {
                        lemma_arff_fold_err(lv, i + 1);
                    }
                    return Err(ParseError::MalformedLine);
                }
            }
            i += 1;
        }
        proof {
            assert(lv.subrange(0, lines@.len() as int) =~= lv);
        }
        Ok(ARFFData { relation, attributes, data })
    }
}

// ---------------------------------------------------------------------------
// Normalization: the integer-valued parts
// ---------------------------------------------------------------------------

/// The output columns one attribute expands to: strings are dropped, a
/// nominal attribute (other than the source column, which stays as is)
/// becomes one column per vocabulary value, everything else keeps its
/// name.
pub open spec fn header_cols(a: AttributeModel) -> Seq<Seq<char>> {
    match a.attr_type {
        AttrTypeModel::String => Seq::empty(),
        AttrTypeModel::Nominal(values) => if a.name == "source"@ {
            seq![a.name]
        } else {
            values.map_values(|v: Seq<char>| a.name + seq!['_'] + v)
        },
        _ => seq![a.name],
    }
}

/// The normalized header row's columns.
pub open spec fn normalized_headers_spec(attrs: Seq<AttributeModel>) -> Seq<Seq<char>> {
    crate::util::concat_all(attrs.map_values(|a: AttributeModel| header_cols(a)))
}

impl ARFFData {
    /// The column names of the normalized table.
    #[verifier::loop_isolation(false)]
    pub fn normalized_headers(&self) -> (r: Vec<String>)
        ensures
            r.deep_view() == normalized_headers_spec(self@.attributes),
    {
        let ghost attrs = self@.attributes;
        let mut out: Vec<String> = Vec::new();
        let mut i: usize = 0;
        proof {
            assert(attrs.subrange(0, 0).map_values(|a: AttributeModel| header_cols(a))
                =~= Seq::<Seq<Seq<char>>>::empty());
            assert(out.deep_view() =~= Seq::<Seq<char>>::empty());
        }
        while i < self.attributes.len()
            invariant
                i <= self.attributes@.len(),
                attrs == self@.attributes,
                out.deep_view() == normalized_headers_spec(attrs.subrange(0, i as int)),
            decreases self.attributes@.len() - i,
        {
            let ghost prefix = attrs.subrange(0, i as int).map_values(
                |a: AttributeModel| header_cols(a),
            );
            proof {
                assert(attrs.subrange(0, i + 1).map_values(|a: AttributeModel| header_cols(a))
                    =~= prefix.push(header_cols(attrs[i as int])));
                crate::util::lemma_concat_all_snoc(prefix, header_cols(attrs[i as int]));
                assert(attrs[i as int] == self.attributes@[i as int]@);
            }
            let a = &self.attributes[i];
            let ghost out_before = out.deep_view();
            match &a.attr_type {
                AttributeType::String => {
                    proof {
                        assert(out.deep_view() =~= out_before + header_cols(attrs[i as int]));
                    }
                },
                AttributeType::Nominal(values) => {
                    if text::str_eq(a.name.as_str(), "source") {
                        out.push(a.name.clone());
                        proof {
                            assert(out.deep_view() =~= out_before + header_cols(attrs[i as int]));
                        }
                    } else {
                        let ghost vals = values.deep_view();
                        let ghost aname = a.name@;
                        let mut j: usize = 0;
                        proof {
                            let f = |v: Seq<char>| aname + seq!['_'] + v;
                            assert(vals.subrange(0, 0).map_values(f)
                                =~= Seq::<Seq<char>>::empty());
                            assert(out.deep_view() =~= out_before + vals.subrange(0, 0).map_values(
                                f,
                            ));
                        }
                        while j < values.len()
                            invariant
                                j <= values@.len(),
                                vals == values.deep_view(),
                                aname == a.name@,
                                out.deep_view() == out_before + vals.subrange(
                                    0,
                                    j as int,
                                ).map_values(|v: Seq<char>| aname + seq!['_'] + v),
                            decreases values@.len() - j,
                        {
                            proof {
                                assert(vals[j as int] == values@[j as int]@);
                            }
                            let mut h = a.name.clone();
                            h.push('_');
                            h.append(values[j].as_str());
                            proof {
                                assert(h@ =~= aname + seq!['_'] + vals[j as int]);
                            }
                            let ghost mid = out.deep_view();
                            out.push(h);
                            proof {
                                let f = |v: Seq<char>| aname + seq!['_'] + v;
                                assert(vals.subrange(0, j + 1).map_values(f) =~= vals.subrange(
                                    0,
                                    j as int,
                                ).map_values(f).push(aname + seq!['_'] + vals[j as int]));
                                assert(out.deep_view() =~= mid.push(
                                    aname + seq!['_'] + vals[j as int],
                                ));
                                assert(out.deep_view() =~= out_before + vals.subrange(
                                    0,
                                    j + 1,
                                ).map_values(f));
                            }
                            j += 1;
                        }
                        proof {
                            assert(vals.subrange(0, values@.len() as int) =~= vals);
                            assert(out.deep_view() =~= out_before + header_cols(attrs[i as int]));
                        }
                    }
                },
                AttributeType::BooleanNominal => {
                    out.push(a.name.clone());
                    proof {
                        assert(out.deep_view() =~= out_before + header_cols(attrs[i as int]));
                    }
                },
                AttributeType::Numeric => {
                    out.push(a.name.clone());
                    proof {
                        assert(out.deep_view() =~= out_before + header_cols(attrs[i as int]));
                    }
                },
                AttributeType::Date => {
                    out.push(a.name.clone());
                    proof {
                        assert(out.deep_view() =~= out_before + header_cols(attrs[i as int]));
                    }
                },
            }
            i += 1;
        }
        proof {
            assert(attrs.subrange(0, self.attributes@.len() as int) =~= attrs);
        }
        out
    }
}

/// How often `v` occurs in a column.
pub open spec fn count_occ(vals: Seq<Seq<char>>, v: Seq<char>) -> int
    decreases vals.len(),
{
    if vals.len() == 0 {
        0int
    } else {
        count_occ(vals.drop_last(), v) + if vals.last() == v {
            1int
        } else {
            0int
        }
    }
}

pub proof fn lemma_count_occ_bounds(vals: Seq<Seq<char>>, v: Seq<char>)
    ensures
        0 <= count_occ(vals, v),
        count_occ(vals, v) > 0 <==> vals.contains(v),
    decreases vals.len(),
{
    if vals.len() > 0 {
        lemma_count_occ_bounds(vals.drop_last(), v);
        if vals.last() != v && vals.contains(v) {
            let k = choose|k: int| 0 <= k < vals.len() && vals[k] == v;
            assert(vals.drop_last()[k] == v);
        }
    }
}

/// The known values of one column, unknown markers dropped.
pub open spec fn col_values(rows: Seq<Seq<Seq<char>>>, index: int) -> Seq<Seq<char>>
    decreases rows.len(),
{
    if rows.len() == 0 {
        Seq::empty()
    } else {
        col_values(rows.drop_last(), index) + (if rows.last()[index] == "?"@ {
            Seq::<Seq<char>>::empty()
        } else {
            seq![rows.last()[index]]
        })
    }
}

fn count_exec(vals: &Vec<String>, v: &str) -> (r: usize)
    requires
        vals@.len() <= usize::MAX,
    ensures
        r == count_occ(vals.deep_view(), v@),
{
    let ghost dv = vals.deep_view();
    proof {
        lemma_count_occ_bounds(dv, v@);
        lemma_count_occ_le_len(dv, v@);
    }
    let mut c: usize = 0;
    let mut i: usize = 0;
    while i < vals.len()
        invariant
            i <= vals@.len(),
            dv == vals.deep_view(),
            c == count_occ(dv.subrange(0, i as int), v@),
            count_occ(dv.subrange(0, i as int), v@) <= i,
        decreases vals@.len() - i,
    {
        proof {
            assert(dv.subrange(0, i + 1).drop_last() =~= dv.subrange(0, i as int));
            assert(dv.subrange(0, i + 1).last() == dv[i as int]);
            assert(dv[i as int] == vals@[i as int]@);
        }
        if text::str_eq(vals[i].as_str(), v) {
            c += 1;
        }
        i += 1;
    }
    proof {
        assert(dv.subrange(0, vals@.len() as int) =~= dv);
    }
    c
}

proof fn lemma_count_occ_le_len(vals: Seq<Seq<char>>, v: Seq<char>)
    ensures
        count_occ(vals, v) <= vals.len(),
    decreases vals.len(),
{
    if vals.len() > 0 {
        lemma_count_occ_le_len(vals.drop_last(), v);
    }
}

impl ARFFData {
    /// The known values of one column of the data records.
    #[verifier::loop_isolation(false)]
    pub fn column_values(&self, index: usize) -> (r: Vec<String>)
        requires
            forall|j: int| 0 <= j < self@.data.len() ==> index < (#[trigger] self@.data[j]).len(),
        ensures
            r.deep_view() == col_values(self@.data, index as int),
    {
        let ghost rows = self@.data;
        let mut out: Vec<String> = Vec::new();
        let mut i: usize = 0;
        proof {
            assert(rows.subrange(0, 0) =~= Seq::<Seq<Seq<char>>>::empty());
            assert(out.deep_view() =~= Seq::<Seq<char>>::empty());
        }
        while i < self.data.len()
            invariant
                i <= self.data@.len(),
                rows == self@.data,
                out.deep_view() == col_values(rows.subrange(0, i as int), index as int),
            decreases self.data@.len() - i,
        {
            proof {
                assert(rows.subrange(0, i + 1).drop_last() =~= rows.subrange(0, i as int));
                assert(rows.subrange(0, i + 1).last() == rows[i as int]);
                assert(rows[i as int] == self.data@[i as int]@);
                assert(rows[i as int][index as int] == self.data@[i as int].values@[index as int]@);
            }
            let row = &self.data[i];
            let val = &row.values[index];
            proof {
                reveal_strlit("?");
            }
            if !text::str_eq(val.as_str(), "?") {
                out.push(val.clone());
            }
            proof {
                assert(out.deep_view() =~= col_values(rows.subrange(0, i + 1), index as int));
            }
            i += 1;
        }
        proof {
            assert(rows.subrange(0, self.data@.len() as int) =~= rows);
        }
        out
    }

    /// The most frequent known value of one column: `None` when the
    /// column holds only unknown markers. Among equally frequent values
    /// the choice is not pinned down, as the table gives them no order of
    /// preference.
    #[verifier::loop_isolation(false)]
    pub fn nominal_mode(&self, index: usize) -> (r: Option<String>)
        requires
            forall|j: int| 0 <= j < self@.data.len() ==> index < (#[trigger] self@.data[j]).len(),
        ensures
            ({
                let col = col_values(self@.data, index as int);
                match r {
                    None => col.len() == 0,
                    Some(m) => col.contains(m@) && forall|v: Seq<char>|
                        #[trigger] count_occ(col, v) <= count_occ(col, m@),
                }
            }),
    {
        let col = self.column_values(index);
        let ghost cv = col.deep_view();
        if col.len() == 0 {
            return None;
        }
        proof {
            assert(cv[0] == col@[0]@);
        }
        let mut best: usize = 0;
        let mut best_count = count_exec(&col, col[0].as_str());
        let mut j: usize = 1;
        while j < col.len()
            invariant
                1 <= j <= col@.len(),
                cv == col.deep_view(),
                best < col@.len(),
                best_count == count_occ(cv, cv[best as int]),
                forall|k: int| 0 <= k < j ==> count_occ(cv, #[trigger] cv[k]) <= best_count,
            decreases col@.len() - j,
        {
            proof {
                assert(cv[j as int] == col@[j as int]@);
            }
            let c = count_exec(&col, col[j].as_str());
            if c > best_count {
                best = j;
                best_count = c;
            }
            j += 1;
        }
        let m = col[best].clone();
        proof {
            assert(cv[best as int] == col@[best as int]@);
            assert(cv.contains(cv[best as int]));
            assert forall|v: Seq<char>| #[trigger] count_occ(cv, v) <= count_occ(
                cv,
                cv[best as int],
            ) by {
                lemma_count_occ_bounds(cv, v);
                if count_occ(cv, v) > 0 {
                    let k = choose|k: int| 0 <= k < cv.len() && cv[k] == v;
                }
            };
        }
        Some(m)
    }
}

/// The one-hot cells a nominal value expands to: a one for the matching
/// vocabulary value, a zero for every other.
pub open spec fn one_hot_spec(values: Seq<Seq<char>>, actual: Seq<char>) -> Seq<Seq<char>> {
    values.map_values(
        |v: Seq<char>|
            if v == actual {
                "1"@
            } else {
                "0"@
            },
    )
}

/// Expands one nominal cell into its one-hot encoding over the
/// attribute's vocabulary.
#[verifier::loop_isolation(false)]
pub fn one_hot_row(nominal_values: &Vec<String>, actual: &str) -> (r: Vec<String>)
    ensures
        r.deep_view() == one_hot_spec(nominal_values.deep_view(), actual@),
{
    let ghost vals = nominal_values.deep_view();
    let mut out: Vec<String> = Vec::new();
    let mut i: usize = 0;
    proof {
        assert(out.deep_view() =~= vals.subrange(0, 0).map_values(
            |v: Seq<char>|
                if v == actual@ {
                    "1"@
                } else {
                    "0"@
                },
        ));
    }
    while i < nominal_values.len()
        invariant
            i <= nominal_values@.len(),
            vals == nominal_values.deep_view(),
            out.deep_view() == one_hot_spec(vals.subrange(0, i as int), actual@),
        decreases nominal_values@.len() - i,
    {
        proof {
            assert(vals[i as int] == nominal_values@[i as int]@);
        }
        let ghost mid = out.deep_view();
        if text::str_eq(nominal_values[i].as_str(), actual) {
            out.push("1".to_owned());
        } else {
            out.push("0".to_owned());
        }
        proof {
            assert(one_hot_spec(vals.subrange(0, i + 1), actual@) =~= one_hot_spec(
                vals.subrange(0, i as int),
                actual@,
            ).push(
                if vals[i as int] == actual@ {
                    "1"@
                } else {
                    "0"@
                },
            ));
            assert(out.deep_view() =~= one_hot_spec(vals.subrange(0, i + 1), actual@));
        }
        i += 1;
    }
    proof {
        assert(vals.subrange(0, nominal_values@.len() as int) =~= vals);
    }
    out
}

/// The numeric encoding of a boolean cell: one for the true literal, zero
/// for anything else.
pub fn boolean_cell(value: &str) -> (r: String)
    ensures
        value@ == "true"@ ==> r@ == "1"@,
        value@ != "true"@ ==> r@ == "0"@,
{
    if text::str_eq(value, "true") {
        "1".to_owned()
    } else {
        "0".to_owned()
    }
}

// ---------------------------------------------------------------------------
// Quoting for the tabular writer
// ---------------------------------------------------------------------------

/// A value as the tabular writer emits it: wrapped in single quotes, with
/// inner quotes doubled, when it carries a space, comma or quote.
pub open spec fn quoted_if_needed(v: Seq<char>) -> Seq<char> {
    if v.contains(' ') || v.contains(',') || v.contains('\'') {
        seq!['\''] + attr_quote_escaped(v) + seq!['\'']
    } else {
        v
    }
}

/// Quotes a value when it carries a space, comma or quote, doubling the
/// quotes inside.
pub fn quote_if_needed(value: &str) -> (r: String)
    ensures
        r@ == quoted_if_needed(value@),
{
    let quoting = text::str_contains_char(value, ' ') || text::str_contains_char(value, ',')
        || text::str_contains_char(value, '\'');
    if !quoting {
        return value.to_owned();
    }
    let mut out = String::new();
    out.push('\'');
    proof {
        assert(value@.skip(0) =~= value@);
        assert(Seq::<char>::empty().push('\'') =~= seq!['\'']);
        assert(seq!['\''] + attr_quote_escaped(value@) =~= seq!['\''] + (Seq::<char>::empty()
            + attr_quote_escaped(value@)));
    }
    let len = value.unicode_len();
    let mut i: usize = 0;
    while i < len
        invariant
            len == value@.len(),
            i <= len,
            seq!['\''] + attr_quote_escaped(value@) == out@ + attr_quote_escaped(
                value@.skip(i as int),
            ),
        decreases len - i,
    {
        let ghost rest = value@.skip(i as int);
        let c = value.get_char(i);
        proof {
            assert(rest[0] == value@[i as int]);
            assert(rest.drop_first() =~= value@.skip(i + 1));
        }
        if c == '\'' {
            out.push('\'');
            out.push('\'');
            proof {
                assert(out@ + attr_quote_escaped(value@.skip(i + 1)) =~= (
                out@.drop_last().drop_last() + (seq!['\'', '\''] + attr_quote_escaped(
                    value@.skip(i + 1),
                ))));
            }
        } else {
            out.push(c);
            proof {
                assert(out@ + attr_quote_escaped(value@.skip(i + 1)) =~= (out@.drop_last() + (
                seq![c] + attr_quote_escaped(value@.skip(i + 1)))));
            }
        }
        i += 1;
    }
    proof {
        assert(value@.skip(len as int) =~= Seq::<char>::empty());
        assert(attr_quote_escaped(Seq::<char>::empty()) =~= Seq::<char>::empty());
        assert(out@ + Seq::<char>::empty() =~= out@);
    }
    out.push('\'');
    proof {
        assert((seq!['\''] + attr_quote_escaped(value@)).push('\'') =~= quoted_if_needed(value@));
    }
    out
}

// ---------------------------------------------------------------------------
// Writing declarations
// ---------------------------------------------------------------------------

/// Whether a column is declared nominal when the table is written: the
/// boolean flags, the three vocabulary fields, and the company ids.
pub open spec fn nominal_header(h: Seq<char>) -> bool {
    starts_with(h, "is_"@) || h == "format"@ || h == "status"@ || h == "source"@ || starts_with(
        h,
        "company_"@,
    )
}

/// Decides whether a column is declared nominal.
pub fn is_nominal_header(header: &str) -> (r: bool)
    ensures
        r == nominal_header(header@),
{
    text::str_starts_with(header, "is_") || text::str_eq(header, "format") || text::str_eq(
        header,
        "status",
    ) || text::str_eq(header, "source") || text::str_starts_with(header, "company_")
}

/// The declared type of a non-nominal column: names are strings, date
/// columns are epoch dates, everything else is numeric.
pub open spec fn plain_type_word(h: Seq<char>) -> Seq<char> {
    if starts_with(h, "name_"@) {
        "string"@
    } else {
        if ends_with(h, "date"@) {
            "date 'S'"@
        } else {
            "numeric"@
        }
    }
}

/// Renders the declared type of a non-nominal column.
pub fn plain_type_declaration(header: &str) -> (r: String)
    ensures
        r@ == plain_type_word(header@),
{
    if text::str_starts_with(header, "name_") {
        "string".to_owned()
    } else {
        if text::str_ends_with(header, "date") {
            "date 'S'".to_owned()
        } else {
            "numeric".to_owned()
        }
    }
}

/// The tail of a braced nominal declaration from one value on: each value
/// quoted when needed, separated by comma-space, closed by the brace.
pub open spec fn declaration_cells(values: Seq<Seq<char>>, first: bool) -> Seq<char>
    decreases values.len(),
{
    if values.len() == 0 {
        seq!['}']
    } else {
        (if first {
            quoted_if_needed(values[0])
        } else {
            seq![',', ' '] + quoted_if_needed(values[0])
        }) + declaration_cells(values.drop_first(), false)
    }
}

/// The braced value list declaring a nominal column.
pub open spec fn nominal_declaration_spec(values: Seq<Seq<char>>) -> Seq<char> {
    seq!['{'] + declaration_cells(values, true)
}

/// Renders the braced value list declaring a nominal column, quoting each
/// value that needs it.
#[verifier::loop_isolation(false)]
pub fn nominal_declaration(values: &Vec<String>) -> (r: String)
    ensures
        r@ == nominal_declaration_spec(values.deep_view()),
{
    let ghost all = values.deep_view();
    let mut out = String::new();
    out.push('{');
    proof {
        assert(all.skip(0) =~= all);
        assert(Seq::<char>::empty().push('{') =~= seq!['{']);
        assert(seq!['{'] + declaration_cells(all, true) =~= out@ + declaration_cells(all, true));
    }
    let mut i: usize = 0;
    while i < values.len()
        invariant
            i <= values@.len(),
            nominal_declaration_spec(all) == out@ + declaration_cells(all.skip(i as int), i == 0),
        decreases values@.len() - i,
    {
        let ghost rest = all.skip(i as int);
        proof {
            assert(rest[0] == all[i as int]);
            assert(rest.drop_first() =~= all.skip(i + 1));
            assert(all[i as int] == values@[i as int]@);
        }
        if i > 0 {
            out.push(',');
            out.push(' ');
        }
        let cell = quote_if_needed(values[i].as_str());
        out.append(cell.as_str());
        proof {
            if i > 0 {
                assert(out@ + declaration_cells(all.skip(i + 1), false) =~= (out@.subrange(
                    0,
                    out@.len() - 2 - quoted_if_needed(all[i as int]).len(),
                ) + ((seq![',', ' '] + quoted_if_needed(all[i as int])) + declaration_cells(
                    all.skip(i + 1),
                    false,
                ))));
            } else {
                assert(out@ + declaration_cells(all.skip(i + 1), false) =~= (out@.subrange(
                    0,
                    out@.len() - quoted_if_needed(all[i as int]).len(),
                ) + (quoted_if_needed(all[i as int]) + declaration_cells(all.skip(i + 1), false))));
            }
        }
        i += 1;
    }
    proof {
        assert(all.skip(values@.len() as int) =~= Seq::<Seq<char>>::empty());
    }
    out.push('}');
    proof {
        if values@.len() == 0 {
            assert(out@ =~= nominal_declaration_spec(all));
        } else {
            assert(declaration_cells(Seq::<Seq<char>>::empty(), false) =~= seq!['}']);
            assert(out@.drop_last() + declaration_cells(Seq::<Seq<char>>::empty(), false)
                =~= out@);
        }
    }
    out
}

} // verus!
