use ml_parser::errors::ParseError;
use ml_parser::parse::arff::{
    boolean_cell, is_nominal_header, nominal_declaration, one_hot_row, plain_type_declaration,
    quote_if_needed, ARFFData, AttributeType,
};

fn document() -> String {
    let mut d = String::new();
    d.push_str("% a comment\n");
    d.push_str("@relation data\n");
    d.push_str("\n");
    d.push_str("@attribute name string\n");
    d.push_str("@attribute episodes numeric\n");
    d.push_str("@attribute start_date date 'S'\n");
    d.push_str("@attribute is_movie {false, true}\n");
    d.push_str("@attribute source {Manga, Original, 'Light Novel'}\n");
    d.push_str("\n@data\n");
    d.push_str("'Alpha One', 24, 1704067200, true, Manga\n");
    d.push_str("Beta, 12, 0, false, 'Light Novel'\n");
    d
}

#[test]
fn parses_relation_attributes_and_rows() {
    let table = ARFFData::from_arff(&document()).unwrap();
    assert_eq!(table.relation, "data");
    assert_eq!(table.attributes.len(), 5);
    assert_eq!(table.attributes[0].name, "name");
    assert!(matches!(table.attributes[0].attr_type, AttributeType::String));
    assert!(matches!(table.attributes[1].attr_type, AttributeType::Numeric));
    assert!(matches!(table.attributes[2].attr_type, AttributeType::Date));
    assert!(matches!(table.attributes[3].attr_type, AttributeType::BooleanNominal));
    match &table.attributes[4].attr_type {
        AttributeType::Nominal(values) => {
            assert_eq!(values, &vec!["Manga", "Original", "Light Novel"]);
        },
        _ => panic!("expected a nominal attribute"),
    }
    assert_eq!(table.data.len(), 2);
    assert_eq!(
        table.data[0].values,
        vec!["Alpha One", "24", "1704067200", "true", "Manga"]
    );
    assert_eq!(table.data[1].values[4], "Light Novel");
}

#[test]
fn row_width_mismatch_is_rejected() {
    let mut d = String::new();
    d.push_str("@relation data\n");
    d.push_str("@attribute a numeric\n");
    d.push_str("@attribute b numeric\n");
    d.push_str("@data\n");
    d.push_str("1, 2, 3\n");
    assert_eq!(ARFFData::from_arff(&d).unwrap_err(), ParseError::MalformedLine);
}

#[test]
fn unknown_attribute_type_is_rejected() {
    let d = "@relation data\n@attribute a complexity\n";
    assert_eq!(ARFFData::from_arff(d).unwrap_err(), ParseError::MalformedLine);
}

#[test]
fn quotes_values_that_need_it() {
    assert_eq!(quote_if_needed("plain"), "plain");
    assert_eq!(quote_if_needed("two words"), "'two words'");
    assert_eq!(quote_if_needed("a,b"), "'a,b'");
    assert_eq!(quote_if_needed("it's"), "'it''s'");
}

#[test]
fn expands_headers_for_normalization() {
    let table = ARFFData::from_arff(&document()).unwrap();
    let headers = table.normalized_headers();
    // the string column is dropped; the source column stays singular
    assert_eq!(headers, vec!["episodes", "start_date", "is_movie", "source"]);
}

#[test]
fn source_named_column_stays_singular() {
    let mut d = String::new();
    d.push_str("@relation data\n");
    d.push_str("@attribute source {a, b}\n");
    d.push_str("@attribute other {a, b}\n");
    let table = ARFFData::from_arff(&d).unwrap();
    let headers = table.normalized_headers();
    assert_eq!(headers, vec!["source", "other_a", "other_b"]);
}

#[test]
fn mode_picks_most_frequent_known_value() {
    let mut d = String::new();
    d.push_str("@relation data\n");
    d.push_str("@attribute c {a, b}\n");
    d.push_str("@data\n");
    d.push_str("a\nb\na\n?\n");
    let table = ARFFData::from_arff(&d).unwrap();
    assert_eq!(table.nominal_mode(0), Some("a".to_string()));
}

#[test]
fn mode_of_all_unknown_column_is_none() {
    let mut d = String::new();
    d.push_str("@relation data\n");
    d.push_str("@attribute c {a, b}\n");
    d.push_str("@data\n");
    d.push_str("?\n?\n");
    let table = ARFFData::from_arff(&d).unwrap();
    assert_eq!(table.nominal_mode(0), None);
}

#[test]
fn one_hot_marks_the_matching_value() {
    let values = vec!["a".to_string(), "b".to_string(), "c".to_string()];
    assert_eq!(one_hot_row(&values, "b"), vec!["0", "1", "0"]);
    assert_eq!(one_hot_row(&values, "z"), vec!["0", "0", "0"]);
}

#[test]
fn boolean_cells_become_numeric() {
    assert_eq!(boolean_cell("true"), "1");
    assert_eq!(boolean_cell("false"), "0");
    assert_eq!(boolean_cell("?"), "0");
}

#[test]
fn classifies_headers_for_declarations() {
    assert!(is_nominal_header("is_movie"));
    assert!(is_nominal_header("format"));
    assert!(is_nominal_header("company_producer"));
    assert!(!is_nominal_header("episodes_amount"));
    assert_eq!(plain_type_declaration("name_romaji"), "string");
    assert_eq!(plain_type_declaration("start_date"), "date 'S'");
    assert_eq!(plain_type_declaration("episodes_amount"), "numeric");
}

#[test]
fn renders_nominal_declarations() {
    let values = vec!["Manga".to_string(), "Light Novel".to_string()];
    assert_eq!(nominal_declaration(&values), "{Manga, 'Light Novel'}");
    assert_eq!(nominal_declaration(&Vec::new()), "{}");
}
