use easydb::error::AppError;
use easydb::generator::{
    extract_rows_from_batches, format_value_for_sql, generate_sql_inserts, generate_sql_update,
    sql_value_of, Dialect, ResultSet,
};

fn strings(cells: &[&str]) -> Vec<String> {
    cells.iter().map(|c| c.to_string()).collect()
}

fn result(header: &[&str], rows: &[&[&str]]) -> ResultSet {
    ResultSet::new(strings(header), rows.iter().map(|r| strings(r)).collect()).unwrap()
}

/// Reads the values of one `(…)` tuple back: numbers and words as they
/// are, string literals without their quotes and with doubled quotes
/// written once.
fn parse_tuple(tuple: &str) -> Vec<String> {
    let inner: Vec<char> = tuple[1..tuple.len() - 1].chars().collect();
    let mut values = Vec::new();
    let mut i = 0;
    while i < inner.len() {
        let mut value = String::new();
        if inner[i] == '\'' {
            i += 1;
            loop {
                if inner[i] == '\'' {
                    if i + 1 < inner.len() && inner[i + 1] == '\'' {
                        value.push('\'');
                        i += 2;
                    } else {
                        i += 1;
                        break;
                    }
                } else {
                    value.push(inner[i]);
                    i += 1;
                }
            }
        } else {
            while i < inner.len() && inner[i] != ',' {
                value.push(inner[i]);
                i += 1;
            }
        }
        values.push(value);
        if i < inner.len() {
            assert_eq!(inner[i], ',');
            assert_eq!(inner[i + 1], ' ');
            i += 2;
        }
    }
    values
}

#[test]
fn result_set_must_be_aligned() {
    assert!(ResultSet::new(strings(&["a", "b"]), vec![strings(&["1", "2"])]).is_some());
    assert!(ResultSet::new(strings(&["a", "b"]), vec![strings(&["1"])]).is_none());
    assert!(ResultSet::new(strings(&["a"]), vec![strings(&["1"]), strings(&["1", "2"])]).is_none());
    assert!(ResultSet::new(Vec::new(), Vec::new()).is_some());
    let set = result(&["a", "b"], &[&["1", "2"]]);
    assert_eq!(set.header(), &strings(&["a", "b"]));
    assert_eq!(set.rows(), &vec![strings(&["1", "2"])]);
}

#[test]
fn format_value_quotes_everything_but_null() {
    assert_eq!(format_value_for_sql("NULL"), "NULL");
    assert_eq!(format_value_for_sql("abc"), "'abc'");
    assert_eq!(format_value_for_sql(""), "''");
    assert_eq!(format_value_for_sql("O'Brien"), "'O''Brien'");
    assert_eq!(format_value_for_sql("''"), "''''''");
    assert_eq!(format_value_for_sql("12"), "'12'");
    assert_eq!(format_value_for_sql("null"), "'null'");
}

#[test]
fn sql_value_leaves_numbers_and_booleans_bare() {
    assert_eq!(sql_value_of("NULL"), "NULL");
    assert_eq!(sql_value_of("12"), "12");
    assert_eq!(sql_value_of("-12"), "-12");
    assert_eq!(sql_value_of("1.5"), "1.5");
    assert_eq!(sql_value_of("1e3"), "1e3");
    assert_eq!(sql_value_of("99999999999999999999"), "99999999999999999999");
    assert_eq!(sql_value_of("true"), "true");
    assert_eq!(sql_value_of("false"), "false");
    assert_eq!(sql_value_of("True"), "'True'");
    assert_eq!(sql_value_of("abc"), "'abc'");
    assert_eq!(sql_value_of("it's"), "'it''s'");
    assert_eq!(sql_value_of(""), "''");
    assert_eq!(sql_value_of("2024-01-02"), "'2024-01-02'");
    assert_eq!(sql_value_of("NaN"), "NaN");
}

#[test]
fn extract_rows_renders_every_cell() {
    let rows = vec![strings(&["1", "a'b", "NULL"]), strings(&["x", "true", "2.5"])];
    assert_eq!(
        extract_rows_from_batches(&rows),
        vec![strings(&["1", "'a''b'", "NULL"]), strings(&["'x'", "true", "2.5"])]
    );
    assert_eq!(extract_rows_from_batches(&Vec::new()), Vec::<Vec<String>>::new());
}

#[test]
fn inserts_in_chunks_of_two() {
    let set = result(&["id", "name"], &[&["1", "Ann"], &["2", "O'Brien"], &["3", "NULL"]]);
    let sql = generate_sql_inserts(&set, "t", 2, &Dialect::MySQL);
    assert_eq!(
        sql,
        "INSERT INTO `t` (`id`, `name`) VALUES\n(1, 'Ann'),\n(2, 'O''Brien');\n\n\
         INSERT INTO `t` (`id`, `name`) VALUES\n(3, NULL);"
    );
    let statements: Vec<&str> = sql.split("\n\n").collect();
    assert_eq!(statements.len(), 2);
    let first: Vec<&str> = statements[0].lines().skip(1).collect();
    let second: Vec<&str> = statements[1].lines().skip(1).collect();
    assert_eq!(first.len(), 2);
    assert_eq!(second.len(), 1);
    assert_eq!(parse_tuple(first[0].trim_end_matches(',')), strings(&["1", "Ann"]));
    assert_eq!(parse_tuple(first[1].trim_end_matches(';')), strings(&["2", "O'Brien"]));
    assert_eq!(parse_tuple(second[0].trim_end_matches(';')), strings(&["3", "NULL"]));
}

#[test]
fn inserts_with_double_quotes_for_postgres() {
    let set = result(&["id", "name"], &[&["1", "Ann"]]);
    assert_eq!(
        generate_sql_inserts(&set, "people", 10, &Dialect::PostgreSQL),
        "INSERT INTO \"people\" (\"id\", \"name\") VALUES\n(1, 'Ann');"
    );
}

#[test]
fn inserts_chunk_size_is_at_least_one() {
    let set = result(&["id"], &[&["1"], &["2"]]);
    assert_eq!(
        generate_sql_inserts(&set, "t", 0, &Dialect::MySQL),
        "INSERT INTO `t` (`id`) VALUES\n(1);\n\nINSERT INTO `t` (`id`) VALUES\n(2);"
    );
    assert_eq!(
        generate_sql_inserts(&set, "t", 1, &Dialect::MySQL),
        generate_sql_inserts(&set, "t", 0, &Dialect::MySQL)
    );
}

#[test]
fn inserts_exact_multiple_of_the_chunk() {
    let set = result(&["id"], &[&["1"], &["2"], &["3"], &["4"]]);
    assert_eq!(
        generate_sql_inserts(&set, "t", 2, &Dialect::MySQL),
        "INSERT INTO `t` (`id`) VALUES\n(1),\n(2);\n\nINSERT INTO `t` (`id`) VALUES\n(3),\n(4);"
    );
    assert_eq!(
        generate_sql_inserts(&set, "t", usize::MAX, &Dialect::MySQL),
        "INSERT INTO `t` (`id`) VALUES\n(1),\n(2),\n(3),\n(4);"
    );
}

#[test]
fn inserts_of_nothing() {
    let no_columns = result(&[], &[]);
    assert_eq!(generate_sql_inserts(&no_columns, "t", 2, &Dialect::MySQL), "");
    let no_rows = result(&["id"], &[]);
    assert_eq!(generate_sql_inserts(&no_rows, "t", 2, &Dialect::MySQL), "");
}

#[test]
fn updates_one_statement_per_row() {
    let set = result(&["id", "name", "age"], &[&["1", "Ann", "30"], &["2", "O'Brien", "NULL"]]);
    assert_eq!(
        generate_sql_update(&set, "people", "id", &Dialect::MySQL),
        Ok("UPDATE `people` SET `name` = 'Ann', `age` = 30 WHERE `id` = 1;\n\
            UPDATE `people` SET `name` = 'O''Brien', `age` = NULL WHERE `id` = 2;\n"
            .to_string())
    );
    assert_eq!(
        generate_sql_update(&set, "people", "name", &Dialect::PostgreSQL),
        Ok("UPDATE \"people\" SET \"id\" = 1, \"age\" = 30 WHERE \"name\" = 'Ann';\n\
            UPDATE \"people\" SET \"id\" = 2, \"age\" = NULL WHERE \"name\" = 'O''Brien';\n"
            .to_string())
    );
}

#[test]
fn updates_without_the_key_column_fail() {
    let set = result(&["id", "name"], &[&["1", "Ann"]]);
    assert_eq!(
        generate_sql_update(&set, "people", "email", &Dialect::MySQL),
        Err(AppError::BadRequest {
            message: "WHERE column 'email' not found in data".to_string()
        })
    );
    let empty = result(&[], &[]);
    assert_eq!(
        generate_sql_update(&empty, "people", "id", &Dialect::MySQL),
        Err(AppError::BadRequest { message: "WHERE column 'id' not found in data".to_string() })
    );
}

#[test]
fn updates_skip_rows_with_the_key_alone() {
    let set = result(&["id"], &[&["1"], &["2"]]);
    assert_eq!(generate_sql_update(&set, "t", "id", &Dialect::MySQL), Ok(String::new()));
}

#[test]
fn updates_key_on_the_first_column_of_that_name() {
    let set = result(&["k", "v", "k"], &[&["1", "a", "2"]]);
    assert_eq!(
        generate_sql_update(&set, "t", "k", &Dialect::MySQL),
        Ok("UPDATE `t` SET `v` = 'a', `k` = 2 WHERE `k` = 1;\n".to_string())
    );
}
