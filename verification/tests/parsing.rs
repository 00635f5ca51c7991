use mkdata::coltype::{header_names, parse_col_types, ColType};
use mkdata::text::{decimal_string, fixed3_string};
use mkdata::usage::{big_help_text, show_banner};

#[test]
fn parse_default_columns() {
    let cols = parse_col_types("int,float,word,name,phone");
    assert_eq!(
        cols,
        vec![
            ColType::Int,
            ColType::Float,
            ColType::Word,
            ColType::Name,
            ColType::Phone
        ]
    );
}

#[test]
fn parse_unknown_token_falls_back_to_word() {
    assert_eq!(parse_col_types("blah"), vec![ColType::Word]);
    assert_eq!(
        parse_col_types("int,xyz,float"),
        vec![ColType::Int, ColType::Word, ColType::Float]
    );
    assert_eq!(parse_col_types("integer"), vec![ColType::Word]);
}

#[test]
fn parse_trims_and_lowercases() {
    assert_eq!(
        parse_col_types(" INT , Float "),
        vec![ColType::Int, ColType::Float]
    );
    assert_eq!(parse_col_types("PHONE"), vec![ColType::Phone]);
    assert_eq!(parse_col_types("\tname\t"), vec![ColType::Name]);
}

#[test]
fn parse_empty_string_gives_one_fallback_column() {
    assert_eq!(parse_col_types(""), vec![ColType::Word]);
}

#[test]
fn parse_keeps_duplicates_in_order() {
    assert_eq!(
        parse_col_types("int,int,int"),
        vec![ColType::Int, ColType::Int, ColType::Int]
    );
}

#[test]
fn col_type_names() {
    assert_eq!(ColType::Int.to_string(), "int");
    assert_eq!(ColType::Float.to_string(), "float");
    assert_eq!(ColType::Word.to_string(), "word");
    assert_eq!(ColType::Name.to_string(), "name");
    assert_eq!(ColType::Phone.to_string(), "phone");
}

#[test]
fn header_names_number_and_label_columns() {
    let cols = vec![ColType::Int, ColType::Word];
    let header = header_names(&cols);
    assert_eq!(header, vec!["col1_int".to_string(), "col2_word".to_string()]);
}

#[test]
fn decimal_rendering_exact() {
    assert_eq!(decimal_string(0), "0");
    assert_eq!(decimal_string(7), "7");
    assert_eq!(decimal_string(12345), "12345");
    assert_eq!(decimal_string(1000), "1000");
}

#[test]
fn fixed3_rendering_has_three_decimals() {
    assert_eq!(fixed3_string(12345), "12.345");
    assert_eq!(fixed3_string(5), "0.005");
    assert_eq!(fixed3_string(50), "0.050");
    assert_eq!(fixed3_string(999), "0.999");
    assert_eq!(fixed3_string(1000), "1.000");
    assert_eq!(fixed3_string(0), "0.000");
}

#[test]
fn banner_and_help_texts() {
    let banner = show_banner();
    assert!(banner.contains("Make data for testing, using fake data generator"));
    let help = big_help_text();
    assert!(help.contains("int, float, word, name, phone"));
    assert!(help.contains("--myrange"));
}
