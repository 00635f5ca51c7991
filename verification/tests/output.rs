use mkdata::coltype::{parse_col_types, ColType};
use mkdata::csvout::render_csv;
use mkdata::naming::get_unique_filename;
use mkdata::rowgen::{generate_csv, generate_row, generate_table};

#[test]
fn unique_filename_free_name_kept() {
    let existing: Vec<String> = Vec::new();
    let path = get_unique_filename("0_out", "output.csv", &existing);
    assert_eq!(path, "0_out/output.csv");
}

#[test]
fn unique_filename_first_collision_gets_suffix_one() {
    let existing = vec!["output.csv".to_string()];
    let path = get_unique_filename("0_out", "output.csv", &existing);
    assert_eq!(path, "0_out/output_1.csv");
}

#[test]
fn unique_filename_second_collision_gets_suffix_two() {
    let existing = vec!["output.csv".to_string(), "output_1.csv".to_string()];
    let path = get_unique_filename("0_out", "output.csv", &existing);
    assert_eq!(path, "0_out/output_2.csv");
}

#[test]
fn unique_filename_skips_all_taken_suffixes() {
    let mut existing = vec!["output.csv".to_string()];
    for k in 1..=5 {
        existing.push(format!("output_{}.csv", k));
    }
    let path = get_unique_filename("0_out", "output.csv", &existing);
    assert_eq!(path, "0_out/output_6.csv");
}

#[test]
fn unique_filename_without_extension() {
    let existing = vec!["data".to_string()];
    let path = get_unique_filename("0_out", "data", &existing);
    assert_eq!(path, "0_out/data_1");
}

#[test]
fn unique_filename_hidden_file_keeps_whole_stem() {
    let existing = vec![".conf".to_string()];
    let path = get_unique_filename("0_out", ".conf", &existing);
    assert_eq!(path, "0_out/.conf_1");
}

#[test]
fn unique_filename_double_extension_splits_at_last_dot() {
    let existing = vec!["archive.tar.gz".to_string()];
    let path = get_unique_filename("0_out", "archive.tar.gz", &existing);
    assert_eq!(path, "0_out/archive.tar_1.gz");
}

#[test]
fn render_csv_exact_text() {
    let records = vec![
        vec!["a".to_string(), "b".to_string()],
        vec!["c".to_string(), "d".to_string()],
    ];
    let text = render_csv(&records);
    assert_eq!(text, "a,b\nc,d\n");
}

#[test]
fn generated_integers_stay_below_range() {
    let cols = vec![ColType::Int];
    for _ in 0..100 {
        let row = generate_row(&cols, 10);
        assert_eq!(row.len(), 1);
        let value: usize = row[0].parse().expect("integer cell parses");
        assert!(value < 10);
    }
}

#[test]
fn range_of_one_only_generates_zero() {
    let cols = vec![ColType::Int, ColType::Int];
    for _ in 0..20 {
        let row = generate_row(&cols, 1);
        assert_eq!(row, vec!["0".to_string(), "0".to_string()]);
    }
}

#[test]
fn generated_floats_have_three_decimals_below_range() {
    let cols = vec![ColType::Float];
    for _ in 0..100 {
        let row = generate_row(&cols, 7);
        let cell = &row[0];
        let dot = cell.find('.').expect("float cell has a point");
        assert_eq!(cell.len() - dot - 1, 3, "three digits after the point: {}", cell);
        let whole: usize = cell[..dot].parse().expect("whole part parses");
        let frac: usize = cell[dot + 1..].parse().expect("fraction parses");
        assert!(whole * 1000 + frac < 7000, "value below the range: {}", cell);
    }
}

#[test]
fn generated_text_cells_are_plain_and_non_empty() {
    let cols = vec![ColType::Word, ColType::Name, ColType::Phone];
    for _ in 0..50 {
        let row = generate_row(&cols, 5);
        assert_eq!(row.len(), 3);
        for cell in &row {
            assert!(!cell.is_empty());
            assert!(!cell.contains(','));
            assert!(!cell.contains('"'));
            assert!(!cell.contains('\n'));
            assert!(!cell.contains('\r'));
        }
    }
}

#[test]
fn generated_table_has_header_and_row_per_line() {
    let cols = parse_col_types("int,word");
    let table = generate_table(&cols, 3, 10);
    assert_eq!(table.len(), 4);
    assert_eq!(table[0], vec!["col1_int".to_string(), "col2_word".to_string()]);
    for row in &table[1..] {
        assert_eq!(row.len(), 2);
    }
}

#[test]
fn generated_csv_matches_requested_shape() {
    let cols = parse_col_types("int,word");
    let text = generate_csv(&cols, 3, 10);
    assert!(text.ends_with('\n'));
    let lines: Vec<&str> = text[..text.len() - 1].split('\n').collect();
    assert_eq!(lines.len(), 4, "header plus three rows");
    assert_eq!(lines[0], "col1_int,col2_word");
    for line in &lines[1..] {
        let fields: Vec<&str> = line.split(',').collect();
        assert_eq!(fields.len(), 2);
        let value: usize = fields[0].parse().expect("integer field parses");
        assert!(value < 10);
        assert!(!fields[1].is_empty());
    }
}

#[test]
fn zero_rows_still_writes_the_header() {
    let cols = parse_col_types("int");
    let text = generate_csv(&cols, 0, 100);
    assert_eq!(text, "col1_int\n");
}
