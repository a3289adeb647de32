use easydb::args::{ArgValue, FunctionArg, TableFunctionArgs};
use easydb::context::{
    register, Bound, Query, ReaderOptions, RegisteredSource, SetExpr, Statement, TableFactor,
    TableFunction, TableWithJoins,
};
use easydb::error::AppError;
use easydb::parse::EasyDBDialect;
use sqlparser::ast;
use sqlparser::dialect::Dialect;
use sqlparser::parser::Parser;

#[derive(Debug)]
struct SqlDialect(EasyDBDialect);

impl Dialect for SqlDialect {
    fn is_identifier_start(&self, ch: char) -> bool {
        self.0.is_identifier_start(ch)
    }

    fn is_identifier_part(&self, ch: char) -> bool {
        self.0.is_identifier_part(ch)
    }

    fn supports_named_fn_args_with_expr_name(&self) -> bool {
        self.0.supports_named_fn_args_with_expr_name()
    }
}

fn to_value(expr: &ast::FunctionArgExpr) -> ArgValue {
    match expr {
        ast::FunctionArgExpr::Expr(ast::Expr::Value(ast::Value::Boolean(b))) => {
            ArgValue::Boolean(*b)
        }
        ast::FunctionArgExpr::Expr(ast::Expr::Value(ast::Value::SingleQuotedString(s))) => {
            ArgValue::SingleQuotedString(s.clone())
        }
        _ => ArgValue::Other,
    }
}

fn to_argument(arg: &ast::FunctionArg) -> FunctionArg {
    match arg {
        ast::FunctionArg::Named { name, arg, .. } => {
            FunctionArg::Named { name: name.value.clone(), value: to_value(arg) }
        }
        ast::FunctionArg::ExprNamed { .. } => FunctionArg::ExprNamed,
        ast::FunctionArg::Unnamed(arg) => FunctionArg::Unnamed(to_value(arg)),
    }
}

fn to_factor(factor: &ast::TableFactor) -> TableFactor {
    match factor {
        ast::TableFactor::Table { name, args, .. } => TableFactor::Table {
            name: name.to_string(),
            args: args
                .as_ref()
                .map(|a| TableFunctionArgs { args: a.args.iter().map(to_argument).collect() }),
        },
        ast::TableFactor::Derived { subquery, .. } => {
            TableFactor::Derived { subquery: Box::new(to_query(subquery)) }
        }
        _ => TableFactor::Other,
    }
}

fn to_bound(expr: &ast::Expr) -> Bound {
    match expr {
        ast::Expr::Value(ast::Value::Number(text, _)) => Bound::Number(text.clone()),
        _ => Bound::Other,
    }
}

fn to_query(query: &ast::Query) -> Query {
    Query {
        body: match &*query.body {
            ast::SetExpr::Select(select) => SetExpr::Select {
                from: select
                    .from
                    .iter()
                    .map(|t| TableWithJoins {
                        relation: to_factor(&t.relation),
                        joins: t.joins.iter().map(|j| to_factor(&j.relation)).collect(),
                    })
                    .collect(),
            },
            _ => SetExpr::Other,
        },
        limit: query.limit.as_ref().map(to_bound),
        offset: query.offset.as_ref().map(|o| to_bound(&o.value)),
    }
}

fn to_statement(statement: &ast::Statement) -> Statement {
    match statement {
        ast::Statement::Query(q) => Statement::Query(Box::new(to_query(q))),
        _ => Statement::Other,
    }
}

fn number_expr(text: &str) -> ast::Expr {
    ast::Expr::Value(ast::Value::Number(text.to_string(), false))
}

fn write_factor(target: &mut ast::TableFactor, resolved: &TableFactor) {
    match (target, resolved) {
        (
            ast::TableFactor::Table { name, args, .. },
            TableFactor::Table { name: new_name, args: new_args },
        ) => {
            *name = ast::ObjectName(vec![ast::Ident::new(new_name.as_str())]);
            if new_args.is_none() {
                *args = None;
            }
        }
        (ast::TableFactor::Derived { subquery, .. }, TableFactor::Derived { subquery: inner }) => {
            write_query(subquery, inner)
        }
        _ => {}
    }
}

fn write_query(target: &mut ast::Query, resolved: &Query) {
    if let (ast::SetExpr::Select(select), SetExpr::Select { from }) =
        (&mut *target.body, &resolved.body)
    {
        for (item, new_item) in select.from.iter_mut().zip(from) {
            write_factor(&mut item.relation, &new_item.relation);
            for (join, new_join) in item.joins.iter_mut().zip(&new_item.joins) {
                write_factor(&mut join.relation, new_join);
            }
        }
    }
    if let (None, Some(Bound::Number(text))) = (&target.limit, &resolved.limit) {
        target.limit = Some(number_expr(text));
    }
    if let (None, Some(Bound::Number(text))) = (&target.offset, &resolved.offset) {
        target.offset = Some(ast::Offset { value: number_expr(text), rows: ast::OffsetRows::None });
    }
}

/// Parses `sql`, resolves it, and writes the statement out again: the
/// sources in the order of their registration, and the rewritten text or
/// the error.
fn resolve(
    sql: &str,
    limit: Option<usize>,
    offset: Option<usize>,
) -> (Vec<RegisteredSource>, Result<String, AppError>) {
    let dialect = SqlDialect(EasyDBDialect);
    let mut parsed =
        Parser::new(&dialect).try_with_sql(sql).unwrap().parse_statements().unwrap();
    let statements: Vec<Statement> = parsed.iter().map(to_statement).collect();
    let resolution = register(&statements, limit, offset);
    let text = resolution.outcome.map(|resolved| match &mut parsed[0] {
        ast::Statement::Query(query) => {
            write_query(query, &resolved);
            query.to_string()
        }
        _ => unreachable!(),
    });
    (resolution.sources, text)
}

fn rewritten(sql: &str, limit: Option<usize>, offset: Option<usize>) -> String {
    resolve(sql, limit, offset).1.unwrap()
}

fn failure(sql: &str) -> String {
    match resolve(sql, None, None).1 {
        Err(AppError::BadRequest { message }) => message,
        other => panic!("expected a bad request, got {:?}", other),
    }
}

#[test]
fn test_1() {
    let sql = "select * from read_excel('/Users/shencangsheng/Downloads/20250916111918.xlsx', sheet_name => '其他')";
    let (sources, new_sql) = resolve(sql, Some(200), None);
    assert_eq!(new_sql.unwrap(), "SELECT * FROM table1 LIMIT 200");
    assert_eq!(sources.len(), 1);
    assert_eq!(sources[0].generated_name, "table1");
    assert_eq!(sources[0].origin.function_name, TableFunction::ReadExcel);
    assert_eq!(
        sources[0].origin.positional_path,
        "/Users/shencangsheng/Downloads/20250916111918.xlsx"
    );
    match &sources[0].origin.options {
        ReaderOptions::Excel(reader) => {
            assert_eq!(reader.path, "/Users/shencangsheng/Downloads/20250916111918.xlsx");
            assert_eq!(reader.sheet_name, "其他");
            assert_eq!(reader.infer_schema_length, 100);
        }
        _ => panic!("a workbook is read by the spreadsheet reader"),
    }
}

#[test]
fn test_2() {
    let sql = "select * from read_tsv('/Users/shencangsheng/Downloads/nightly-VariantSummaries.tsv', infer_schema => false)";
    let (sources, new_sql) = resolve(sql, Some(200), None);
    assert_eq!(new_sql.unwrap(), "SELECT * FROM table1 LIMIT 200");
    assert_eq!(sources.len(), 1);
    assert_eq!(sources[0].generated_name, "table1");
    assert_eq!(sources[0].origin.function_name, TableFunction::ReadTsv);
    match &sources[0].origin.options {
        ReaderOptions::Csv(options) => {
            assert_eq!(options.schema_infer_max_records, 0);
            assert_eq!(options.delimiter, b'\t');
            assert_eq!(options.file_extension, ".tsv");
            assert!(options.has_header);
        }
        _ => panic!("a tab-separated file is read as delimited text"),
    }
}

#[test]
fn sql_of_each_table_function() {
    for function in
        ["read_csv", "read_tsv", "read_ndjson", "read_parquet", "read_excel", "read_xlsx"]
    {
        let sql = format!("SELECT a, b FROM {}('/data/in') WHERE a > 1", function);
        let (sources, text) = resolve(&sql, None, None);
        let text = text.unwrap();
        assert_eq!(text, "SELECT a, b FROM table1 WHERE a > 1");
        assert!(!text.contains('('));
        assert_eq!(sources.len(), 1);
        assert_eq!(sources[0].generated_name, "table1");
        assert_eq!(sources[0].origin.positional_path, "/data/in");
    }
    let (sources, text) =
        resolve("SELECT * FROM read_mysql('orders', conn => 'mysql://u:p@h:3306/db')", None, None);
    assert_eq!(text.unwrap(), "SELECT * FROM table1");
    match &sources[0].origin.options {
        ReaderOptions::Mysql { connection_string, sslmode } => {
            assert_eq!(connection_string, "mysql://u:p@h:3306/db");
            assert_eq!(sslmode, "disabled");
        }
        _ => panic!("a database table is read over a connection"),
    }
    assert_eq!(sources[0].origin.positional_path, "orders");
}

#[test]
fn sql_page_two_of_fifty() {
    let sql = "select * from read_csv('a.csv')";
    assert_eq!(rewritten(sql, Some(50), Some(2)), "SELECT * FROM table1 LIMIT 50 OFFSET 100");
    assert_eq!(rewritten(sql, Some(50), Some(0)), "SELECT * FROM table1 LIMIT 50");
    assert_eq!(rewritten(sql, Some(50), None), "SELECT * FROM table1 LIMIT 50");
    assert_eq!(rewritten(sql, None, Some(2)), "SELECT * FROM table1");
    assert_eq!(rewritten(sql, None, None), "SELECT * FROM table1");
}

#[test]
fn sql_with_its_own_bounds() {
    assert_eq!(
        rewritten("select * from read_csv('a.csv') limit 10", Some(50), Some(3)),
        "SELECT * FROM table1 LIMIT 10 OFFSET 30"
    );
    assert_eq!(
        rewritten("select * from read_csv('a.csv') limit 10 offset 5", Some(50), Some(3)),
        "SELECT * FROM table1 LIMIT 10 OFFSET 5"
    );
    assert_eq!(
        rewritten("select * from read_csv('a.csv') offset 5", Some(50), Some(3)),
        "SELECT * FROM table1 LIMIT 50 OFFSET 5"
    );
    assert_eq!(
        rewritten("select * from read_csv('a.csv') limit 2 + 3", Some(50), Some(3)),
        "SELECT * FROM table1 LIMIT 2 + 3"
    );
}

#[test]
fn sql_joins_and_derived_tables() {
    let sql = "select * from read_csv('a.csv') as a \
               inner join (select * from read_tsv('b.tsv') t join read_ndjson('c.json') u on t.k = u.k) as b on a.id = b.id \
               left join read_parquet('d.parquet') as d on a.id = d.id, \
               (select * from (select * from read_excel('e.xlsx')) x) y, \
               read_csv('f.csv') f";
    let (sources, text) = resolve(sql, Some(5), Some(1));
    assert_eq!(
        text.unwrap(),
        "SELECT * FROM table1 AS a \
         JOIN (SELECT * FROM table2 AS t JOIN table3 AS u ON t.k = u.k) AS b ON a.id = b.id \
         LEFT JOIN table4 AS d ON a.id = d.id, \
         (SELECT * FROM (SELECT * FROM table5) AS x) AS y, \
         table6 AS f LIMIT 5 OFFSET 5"
    );
    let names: Vec<&str> = sources.iter().map(|s| s.generated_name.as_str()).collect();
    assert_eq!(names, vec!["table1", "table2", "table3", "table4", "table5", "table6"]);
    let paths: Vec<&str> = sources.iter().map(|s| s.origin.positional_path.as_str()).collect();
    assert_eq!(paths, vec!["a.csv", "b.tsv", "c.json", "d.parquet", "e.xlsx", "f.csv"]);
}

#[test]
fn sql_arguments_of_a_call() {
    let sql = "select * from read_csv('a.txt', infer_schema => false, has_header => false, \
               delimiter => '\\t', file_extension => '.txt')";
    let (sources, text) = resolve(sql, None, None);
    assert_eq!(text.unwrap(), "SELECT * FROM table1");
    match &sources[0].origin.options {
        ReaderOptions::Csv(options) => {
            assert_eq!(options.schema_infer_max_records, 0);
            assert!(!options.has_header);
            assert_eq!(options.delimiter, b'\t');
            assert_eq!(options.file_extension, ".txt");
        }
        _ => panic!("a comma-separated file is read as delimited text"),
    }
    let (sources, _) = resolve("select * from read_csv('a.csv', delimiter => '65')", None, None);
    match &sources[0].origin.options {
        ReaderOptions::Csv(options) => assert_eq!(options.delimiter, b'A'),
        _ => panic!("a comma-separated file is read as delimited text"),
    }
}

#[test]
fn sql_that_is_rejected() {
    assert_eq!(failure("select 1; select 2"), "invalid SQL statement");
    assert_eq!(failure(""), "invalid SQL statement");
    assert_eq!(failure("insert into t values (1)"), "Only supports Select statements.");
    assert_eq!(failure("select * from users"), "The file path is missing.");
    assert_eq!(failure("select * from read_csv()"), "The file path is missing. 2");
    assert_eq!(failure("select * from read_csv(1)"), "The file path is missing. 3");
    assert_eq!(
        failure("select * from read_csv(path => 'a.csv')"),
        "The file path is missing. 3"
    );
    assert_eq!(
        failure("select * from read_json('a.json')"),
        "'read_json' is not a supported table function"
    );
    assert_eq!(
        failure("select * from READ_CSV('a.csv')"),
        "'READ_CSV' is not a supported table function"
    );
    assert_eq!(failure("select * from read_mysql('orders')"), "'conn' parameter is required");
    assert!(failure("select * from read_csv('a.csv', delimiter => 'ab')")
        .starts_with("Invalid delimiter format: 'ab'."));
}

#[test]
fn sql_failure_keeps_the_sources_before_it() {
    let (sources, text) =
        resolve("select * from read_csv('a.csv') a join read_nothing('b') b on a.id = b.id", None, None);
    assert!(text.is_err());
    assert_eq!(sources.len(), 1);
    assert_eq!(sources[0].generated_name, "table1");
}

#[test]
fn sql_without_table_functions_in_from() {
    assert_eq!(rewritten("select 1", Some(10), Some(2)), "SELECT 1 LIMIT 10 OFFSET 20");
    assert_eq!(
        rewritten("select 1 union select 2", Some(10), None),
        "SELECT 1 UNION SELECT 2 LIMIT 10"
    );
}
