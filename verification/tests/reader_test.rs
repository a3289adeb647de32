use easydb::error::AppError;
use easydb::excel::{
    convert_arrow_data_type, infer_cell_data_type, infer_field_schema, read_float, read_int,
    read_text, read_timestamp, Cell, Column, DataType, ExcelParseOptions, ExcelReader, Schema,
    Sheet,
};

fn int_cell(value: i64) -> Cell {
    Cell::Int { value, as_float: (value as f64).to_bits(), text: value.to_string() }
}

fn float_cell(value: f64) -> Cell {
    Cell::Float { bits: value.to_bits(), as_int: value as i64, text: value.to_string() }
}

fn text_cell(text: &str) -> Cell {
    Cell::Text { text: text.to_string() }
}

fn date_cell(date_time: &str) -> Cell {
    Cell::DateTime { text: "45293.127835648".to_string(), date_time: date_time.to_string() }
}

fn other_cell(text: &str) -> Cell {
    Cell::Other { text: text.to_string() }
}

fn header_row(names: &[&str]) -> Vec<Cell> {
    names.iter().map(|n| text_cell(n)).collect()
}

fn sheet(names: &[&str], data: Vec<Vec<Cell>>) -> Sheet {
    let mut rows = vec![header_row(names)];
    rows.extend(data);
    Sheet { headers: Some(names.iter().map(|n| n.to_string()).collect()), rows }
}

fn types(schema: &Schema) -> Vec<DataType> {
    schema.fields.iter().map(|f| f.data_type).collect()
}

fn field_names(schema: &Schema) -> Vec<String> {
    schema.fields.iter().map(|f| f.name.clone()).collect()
}

fn header_not_found() -> AppError {
    AppError::BadRequest { message: "Header not found".to_string() }
}

#[test]
fn reader_defaults_and_builders() {
    let reader = ExcelReader::new("data/*.xlsx".to_string());
    assert_eq!(reader.path, "data/*.xlsx");
    assert_eq!(reader.sheet_name, "Sheet1");
    assert_eq!(reader.infer_schema_length, 100);
    assert!(!reader.try_parse_dates);
    let reader = reader.with_sheet_name("Totals".to_string()).with_infer_schema_length(7);
    assert_eq!(reader.path, "data/*.xlsx");
    assert_eq!(reader.sheet_name, "Totals");
    assert_eq!(reader.infer_schema_length, 7);
    let _options: ExcelParseOptions = Default::default();
}

#[test]
fn cell_types() {
    assert_eq!(infer_cell_data_type(&int_cell(1)), DataType::Int64);
    assert_eq!(infer_cell_data_type(&float_cell(1.5)), DataType::Float64);
    assert_eq!(infer_cell_data_type(&date_cell("45000.5")), DataType::Timestamp);
    assert_eq!(infer_cell_data_type(&text_cell("a")), DataType::Utf8);
    assert_eq!(infer_cell_data_type(&other_cell("true")), DataType::Utf8);
    assert_eq!(infer_cell_data_type(&Cell::Empty), DataType::Utf8);
    for cell in [int_cell(1), float_cell(1.5), date_cell("x"), text_cell("a"), other_cell("true"), Cell::Empty] {
        assert_eq!(convert_arrow_data_type(&cell), infer_cell_data_type(&cell));
    }
}

#[test]
fn schema_of_integers_floats_dates_and_text() {
    let sheet = sheet(
        &["id", "price", "day", "name", "blank"],
        vec![
            vec![int_cell(1), float_cell(1.5), date_cell("2024-01-02 00:00:00"), text_cell("a"), Cell::Empty],
            vec![int_cell(2), float_cell(2.5), date_cell("2024-01-03 00:00:00"), text_cell("b"), Cell::Empty],
        ],
    );
    let schema = infer_field_schema(&sheet, 100).unwrap();
    assert_eq!(field_names(&schema), vec!["id", "price", "day", "name", "blank"]);
    assert_eq!(
        types(&schema),
        vec![
            DataType::Int64,
            DataType::Float64,
            DataType::Timestamp,
            DataType::Utf8,
            DataType::Utf8
        ]
    );
    assert!(schema.fields.iter().all(|f| f.nullable));
}

#[test]
fn schema_priority_in_mixed_columns() {
    let sheet = sheet(
        &["a", "b", "c", "d", "e"],
        vec![
            vec![text_cell("x"), float_cell(1.5), date_cell("d"), text_cell("x"), Cell::Empty],
            vec![int_cell(1), int_cell(2), float_cell(2.5), date_cell("d"), other_cell("true")],
            vec![Cell::Empty, date_cell("d"), text_cell("x"), text_cell("y"), Cell::Empty],
        ],
    );
    assert_eq!(
        types(&infer_field_schema(&sheet, 100).unwrap()),
        vec![
            DataType::Int64,
            DataType::Int64,
            DataType::Float64,
            DataType::Timestamp,
            DataType::Utf8
        ]
    );
}

#[test]
fn schema_looks_at_the_sample_only() {
    let sheet = sheet(
        &["a"],
        vec![vec![text_cell("x")], vec![text_cell("y")], vec![int_cell(3)], vec![float_cell(4.5)]],
    );
    assert_eq!(types(&infer_field_schema(&sheet, 0).unwrap()), vec![DataType::Utf8]);
    assert_eq!(types(&infer_field_schema(&sheet, 2).unwrap()), vec![DataType::Utf8]);
    assert_eq!(types(&infer_field_schema(&sheet, 3).unwrap()), vec![DataType::Int64]);
    assert_eq!(types(&infer_field_schema(&sheet, usize::MAX).unwrap()), vec![DataType::Int64]);
    let floats_first = sheet_of_floats_then_int();
    assert_eq!(types(&infer_field_schema(&floats_first, 1).unwrap()), vec![DataType::Float64]);
    assert_eq!(types(&infer_field_schema(&floats_first, 2).unwrap()), vec![DataType::Int64]);
}

fn sheet_of_floats_then_int() -> Sheet {
    sheet(&["a"], vec![vec![float_cell(1.5)], vec![int_cell(2)]])
}

#[test]
fn schema_does_not_sample_the_header_row() {
    let sheet = Sheet {
        headers: Some(vec!["2024".to_string()]),
        rows: vec![vec![int_cell(2024)], vec![text_cell("x")]],
    };
    assert_eq!(types(&infer_field_schema(&sheet, 100).unwrap()), vec![DataType::Utf8]);
}

#[test]
fn schema_without_a_header() {
    let sheet = Sheet { headers: None, rows: vec![vec![int_cell(1), text_cell("a"), Cell::Empty]] };
    let schema = infer_field_schema(&sheet, 100).unwrap();
    assert_eq!(field_names(&schema), vec!["t1", "t2", "t3"]);
    let wide = Sheet { headers: None, rows: vec![(0..12).map(int_cell).collect()] };
    let names = field_names(&infer_field_schema(&wide, 100).unwrap());
    assert_eq!(names[8], "t9");
    assert_eq!(names[9], "t10");
    assert_eq!(names[11], "t12");
    let empty = Sheet { headers: None, rows: Vec::new() };
    assert_eq!(infer_field_schema(&empty, 100).err(), Some(header_not_found()));
}

#[test]
fn readings_of_a_cell() {
    assert_eq!(read_int(&int_cell(7)), Some(7));
    assert_eq!(read_int(&float_cell(7.9)), Some(7));
    assert_eq!(read_int(&text_cell("7")), None);
    assert_eq!(read_int(&Cell::Empty), None);
    assert_eq!(read_float(&float_cell(1.5)), Some(1.5f64.to_bits()));
    assert_eq!(read_float(&int_cell(2)), Some(2.0f64.to_bits()));
    assert_eq!(read_float(&date_cell("2024-01-02 00:00:00")), None);
    assert_eq!(read_timestamp(&date_cell("2024-01-02 03:04:05")), Some(1_704_164_645_000_000_000));
    assert_eq!(read_timestamp(&date_cell("45000.5")), None);
    assert_eq!(read_timestamp(&text_cell("2024-01-02 03:04:05")), None);
    assert_eq!(read_text(&Cell::Empty), None);
    assert_eq!(read_text(&text_cell("a")), Some("a".to_string()));
    assert_eq!(read_text(&int_cell(7)), Some("7".to_string()));
    assert_eq!(read_text(&float_cell(1.5)), Some("1.5".to_string()));
    assert_eq!(read_text(&other_cell("#DIV/0!")), Some("#DIV/0!".to_string()));
    assert_eq!(read_text(&date_cell("2024-01-02 03:04:05")), Some("45293.127835648".to_string()));
}

#[test]
fn finish_reads_every_sheet_against_the_first_schema() {
    let first = sheet(
        &["id", "name", "price"],
        vec![
            vec![int_cell(1), text_cell("a"), float_cell(1.5)],
            vec![int_cell(2), text_cell("b"), float_cell(3.0)],
        ],
    );
    let second = sheet(
        &["id", "name", "price"],
        vec![
            vec![text_cell("three"), int_cell(9), text_cell("free")],
            vec![float_cell(4.9), Cell::Empty, float_cell(0.25)],
            vec![Cell::Empty, other_cell("true"), int_cell(7)],
        ],
    );
    let batch = ExcelReader::new("*.xlsx".to_string()).finish(&vec![first, second]).unwrap();
    assert_eq!(field_names(&batch.schema), vec!["id", "name", "price"]);
    assert_eq!(types(&batch.schema), vec![DataType::Int64, DataType::Utf8, DataType::Float64]);
    assert_eq!(batch.columns.len(), 3);
    match &batch.columns[0] {
        Column::Int64(values) => assert_eq!(values, &vec![Some(1), Some(2), None, Some(4), None]),
        _ => panic!("the first column holds integers"),
    }
    match &batch.columns[1] {
        Column::Utf8(values) => assert_eq!(
            values,
            &vec![
                Some("a".to_string()),
                Some("b".to_string()),
                Some("9".to_string()),
                None,
                Some("true".to_string())
            ]
        ),
        _ => panic!("the second column holds text"),
    }
    match &batch.columns[2] {
        Column::Float64(values) => assert_eq!(
            values,
            &vec![
                Some(1.5f64.to_bits()),
                Some(3.0f64.to_bits()),
                None,
                Some(0.25f64.to_bits()),
                Some(7.0f64.to_bits())
            ]
        ),
        _ => panic!("the third column holds floating-point numbers"),
    }
}

#[test]
fn a_text_after_the_sample_is_null_in_an_integer_column() {
    let sheet = sheet(&["n"], vec![vec![int_cell(1)], vec![int_cell(2)], vec![text_cell("three")]]);
    let batch = ExcelReader::new("a.xlsx".to_string())
        .with_infer_schema_length(2)
        .finish(&vec![sheet])
        .unwrap();
    assert_eq!(types(&batch.schema), vec![DataType::Int64]);
    match &batch.columns[0] {
        Column::Int64(values) => assert_eq!(values, &vec![Some(1), Some(2), None]),
        _ => panic!("the column holds integers"),
    }
}

#[test]
fn finish_without_inference_reads_text() {
    let sheet = sheet(&["n", "d"], vec![vec![int_cell(1), date_cell("45000.5")], vec![float_cell(2.5), Cell::Empty]]);
    let batch = ExcelReader::new("a.xlsx".to_string())
        .with_infer_schema_length(0)
        .finish(&vec![sheet])
        .unwrap();
    assert_eq!(types(&batch.schema), vec![DataType::Utf8, DataType::Utf8]);
    match &batch.columns[0] {
        Column::Utf8(values) => {
            assert_eq!(values, &vec![Some("1".to_string()), Some("2.5".to_string())])
        }
        _ => panic!("the column holds text"),
    }
    match &batch.columns[1] {
        Column::Utf8(values) => assert_eq!(values, &vec![Some("45293.127835648".to_string()), None]),
        _ => panic!("the column holds text"),
    }
}

#[test]
fn finish_reads_timestamps() {
    let sheet = sheet(
        &["day"],
        vec![
            vec![date_cell("2024-01-02 03:04:05")],
            vec![date_cell("45000.5")],
            vec![text_cell("2024-01-02 03:04:05")],
        ],
    );
    let batch = ExcelReader::new("a.xlsx".to_string()).finish(&vec![sheet]).unwrap();
    assert_eq!(types(&batch.schema), vec![DataType::Timestamp]);
    match &batch.columns[0] {
        Column::Timestamp(values) => {
            assert_eq!(values, &vec![Some(1_704_164_645_000_000_000), None, None])
        }
        _ => panic!("the column holds timestamps"),
    }
}

#[test]
fn finish_drops_cells_beyond_the_schema_and_does_not_pad() {
    let first = sheet(&["a", "b"], vec![vec![int_cell(1), int_cell(2)]]);
    let wide = sheet(&["a", "b", "c"], vec![vec![int_cell(3), int_cell(4), int_cell(5)]]);
    let narrow = sheet(&["a"], vec![vec![int_cell(6)]]);
    let batch =
        ExcelReader::new("*.xlsx".to_string()).finish(&vec![first, wide, narrow]).unwrap();
    assert_eq!(batch.columns.len(), 2);
    match &batch.columns[0] {
        Column::Int64(values) => assert_eq!(values, &vec![Some(1), Some(3), Some(6)]),
        _ => panic!("the column holds integers"),
    }
    match &batch.columns[1] {
        Column::Int64(values) => assert_eq!(values, &vec![Some(2), Some(4)]),
        _ => panic!("the column holds integers"),
    }
}

#[test]
fn finish_without_a_header() {
    let reader = || ExcelReader::new("*.xlsx".to_string());
    assert_eq!(reader().finish(&Vec::new()).err(), Some(header_not_found()));
    let empty = Sheet { headers: None, rows: Vec::new() };
    assert_eq!(reader().finish(&vec![empty]).err(), Some(header_not_found()));
    let header_only = sheet(&["a", "b"], Vec::new());
    let batch = reader().finish(&vec![header_only]).unwrap();
    assert_eq!(types(&batch.schema), vec![DataType::Utf8, DataType::Utf8]);
    match &batch.columns[0] {
        Column::Utf8(values) => assert!(values.is_empty()),
        _ => panic!("the column holds text"),
    }
}
