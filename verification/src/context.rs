//! Resolving the table functions of a query.
//!
//! A query may name, wherever a table can stand, a call such as
//! `read_csv('sales/*.csv')`. Resolving walks the `FROM` clause and its
//! joins, into derived tables first, decodes each call to a source that the
//! engine can register, gives the source the next generated name, and puts
//! that name in place of the call. Then it adds the page bounds.
//!
//! The statement is held as a tree of the library's own, with what the
//! resolver reads and nothing else. Nothing here opens a file or a
//! connection: the sources come back as a list, in the order in which they
//! are to be registered.
use crate::args::{
    args_view, connection_of, csv_read_options_of, get_connection, get_csv_read_options,
    get_function_args, get_table_path, table_path_of, ArgValue, ArgValueView, CsvReadOptions,
    CsvReadOptionsView, FunctionArg, FunctionArgView, TableFunctionArgs,
};
use crate::error::{agrees, bad_request_view, AppError, AppErrorView, AppResult};
use crate::excel::{default_reader, ExcelReader, ExcelReaderView};
use crate::text::{
    decimal_digits, decimal_string, decimal_text, i64_of, parse_i64, push_decimal, same_text,
    signed_decimal_string,
};
use vstd::prelude::*;
use vstd::string::StringExecFns;

verus! {

// ---------------------------------------------------------------------------
// Calls and sources
// ---------------------------------------------------------------------------
/// The table functions.
#[derive(Clone, Copy, Debug, PartialEq, Eq, Structural)]
pub enum TableFunction {
    ReadCsv,
    ReadTsv,
    ReadNdjson,
    ReadParquet,
    ReadExcel,
    ReadMysql,
}

/// The table function of a name. Names are matched letter for letter;
/// `read_xlsx` is another name for `read_excel`.
pub open spec fn table_function_of(name: Seq<char>) -> Option<TableFunction> {
    if name == "read_csv"@ {
        Some(TableFunction::ReadCsv)
    } else if name == "read_tsv"@ {
        Some(TableFunction::ReadTsv)
    } else if name == "read_ndjson"@ {
        Some(TableFunction::ReadNdjson)
    } else if name == "read_parquet"@ {
        Some(TableFunction::ReadParquet)
    } else if name == "read_excel"@ || name == "read_xlsx"@ {
        Some(TableFunction::ReadExcel)
    } else if name == "read_mysql"@ {
        Some(TableFunction::ReadMysql)
    } else {
        None
    }
}

/// The table function of a name.
pub fn table_function(name: &str) -> (r: Option<TableFunction>)
    ensures
        r == table_function_of(name@),
{
    if same_text(name, "read_csv") {
        Some(TableFunction::ReadCsv)
    } else if same_text(name, "read_tsv") {
        Some(TableFunction::ReadTsv)
    } else if same_text(name, "read_ndjson") {
        Some(TableFunction::ReadNdjson)
    } else if same_text(name, "read_parquet") {
        Some(TableFunction::ReadParquet)
    } else if same_text(name, "read_excel") || same_text(name, "read_xlsx") {
        Some(TableFunction::ReadExcel)
    } else if same_text(name, "read_mysql") {
        Some(TableFunction::ReadMysql)
    } else {
        None
    }
}

/// How the source of a call is read.
pub enum ReaderOptions {
    /// Delimited text.
    Csv(CsvReadOptions),
    /// One JSON value to a line.
    Ndjson,
    /// A Parquet file.
    Parquet,
    /// A worksheet.
    Excel(ExcelReader),
    /// A table of a MySQL database.
    Mysql { connection_string: String, sslmode: String },
}

/// [`ReaderOptions`] with each text as a sequence of characters.
pub enum ReaderOptionsView {
    Csv(CsvReadOptionsView),
    Ndjson,
    Parquet,
    Excel(ExcelReaderView),
    Mysql { connection_string: Seq<char>, sslmode: Seq<char> },
}

impl View for ReaderOptions {
    type V = ReaderOptionsView;

    open spec fn view(&self) -> ReaderOptionsView {
        match self {
            ReaderOptions::Csv(o) => ReaderOptionsView::Csv(o@),
            ReaderOptions::Ndjson => ReaderOptionsView::Ndjson,
            ReaderOptions::Parquet => ReaderOptionsView::Parquet,
            ReaderOptions::Excel(r) => ReaderOptionsView::Excel(r@),
            ReaderOptions::Mysql { connection_string, sslmode } => ReaderOptionsView::Mysql {
                connection_string: connection_string@,
                sslmode: sslmode@,
            },
        }
    }
}

/// One call of a table function, decoded.
pub struct TableFunctionCall {
    /// Which function is called.
    pub function_name: TableFunction,
    /// The first argument: a path or glob pattern, or for `read_mysql` the
    /// name of the table in the database.
    pub positional_path: String,
    /// What the named arguments decode to.
    pub options: ReaderOptions,
}

/// A [`TableFunctionCall`] with each text as a sequence of characters.
pub struct TableFunctionCallView {
    pub function_name: TableFunction,
    pub positional_path: Seq<char>,
    pub options: ReaderOptionsView,
}

impl View for TableFunctionCall {
    type V = TableFunctionCallView;

    open spec fn view(&self) -> TableFunctionCallView {
        TableFunctionCallView {
            function_name: self.function_name,
            positional_path: self.positional_path@,
            options: self.options@,
        }
    }
}

/// A source to register with the engine, under its generated name.
pub struct RegisteredSource {
    pub generated_name: String,
    pub origin: TableFunctionCall,
}

/// A [`RegisteredSource`] with each text as a sequence of characters.
pub struct RegisteredSourceView {
    pub generated_name: Seq<char>,
    pub origin: TableFunctionCallView,
}

impl View for RegisteredSource {
    type V = RegisteredSourceView;

    open spec fn view(&self) -> RegisteredSourceView {
        RegisteredSourceView { generated_name: self.generated_name@, origin: self.origin@ }
    }
}

/// The sources of a list of sources.
pub open spec fn source_views(sources: Seq<RegisteredSource>) -> Seq<RegisteredSourceView> {
    sources.map_values(|s: RegisteredSource| s@)
}

/// The name of the `n`-th source of a pass: `table1`, `table2`, and so on.
pub open spec fn generated_name(n: nat) -> Seq<char> {
    "table"@ + decimal_digits(n)
}

/// The message for a name that is no table function.
pub open spec fn unsupported_function_text(name: Seq<char>) -> Seq<char> {
    "'"@ + name + "' is not a supported table function"@
}

/// The options of a tab-separated file: those of the call, but with a tab
/// between fields and files ending in `.tsv`, whatever the call says of
/// either.
pub open spec fn tsv_options(o: CsvReadOptionsView) -> CsvReadOptionsView {
    CsvReadOptionsView { delimiter: 9u8, file_extension: ".tsv"@, ..o }
}

/// The reader after one more argument: `sheet_name` with a string names the
/// sheet, `infer_schema => false` ends the inference. Everything else
/// leaves the reader as it is.
pub open spec fn excel_reader_step(
    reader: ExcelReaderView,
    arg: FunctionArgView,
) -> ExcelReaderView {
    match arg {
        FunctionArgView::Named { name, value } => {
            if name == "sheet_name"@ {
                match value {
                    ArgValueView::SingleQuotedString(text) => ExcelReaderView {
                        sheet_name: text,
                        ..reader
                    },
                    _ => reader,
                }
            } else if name == "infer_schema"@ {
                match value {
                    ArgValueView::Boolean(false) => ExcelReaderView {
                        infer_schema_length: 0,
                        ..reader
                    },
                    _ => reader,
                }
            } else {
                reader
            }
        },
        _ => reader,
    }
}

/// The reader after a list of arguments, taken in order.
pub open spec fn excel_reader_after(
    reader: ExcelReaderView,
    args: Seq<FunctionArgView>,
) -> ExcelReaderView
    decreases args.len(),
{
    if args.len() == 0 {
        reader
    } else {
        excel_reader_step(excel_reader_after(reader, args.drop_last()), args.last())
    }
}

/// The reader that a call configures.
pub open spec fn excel_reader_of(
    reader: ExcelReaderView,
    args: Option<Seq<FunctionArgView>>,
) -> ExcelReaderView {
    match args {
        Some(a) => excel_reader_after(reader, a),
        None => reader,
    }
}

/// The options of a database source with the given connection string:
/// TLS is off.
pub open spec fn mysql_options(connection_string: Seq<char>) -> ReaderOptionsView {
    ReaderOptionsView::Mysql { connection_string, sslmode: "disabled"@ }
}

/// What the call of the function `name` with the arguments `args` decodes
/// to. The path comes first: a call without one fails before its name is
/// looked at. Then the name must be that of a table function, and the named
/// arguments must decode for that function.
pub open spec fn call_of(name: Seq<char>, args: Option<Seq<FunctionArgView>>) -> Result<
    TableFunctionCallView,
    AppErrorView,
> {
    match table_path_of(args) {
        Err(e) => Err(e),
        Ok(path) => match table_function_of(name) {
            None => Err(bad_request_view(unsupported_function_text(name))),
            Some(function) => {
                let options: Result<ReaderOptionsView, AppErrorView> = match function {
                    TableFunction::ReadCsv => match csv_read_options_of(args) {
                        Ok(o) => Ok(ReaderOptionsView::Csv(o)),
                        Err(e) => Err(e),
                    },
                    TableFunction::ReadTsv => match csv_read_options_of(args) {
                        Ok(o) => Ok(ReaderOptionsView::Csv(tsv_options(o))),
                        Err(e) => Err(e),
                    },
                    TableFunction::ReadNdjson => Ok(ReaderOptionsView::Ndjson),
                    TableFunction::ReadParquet => Ok(ReaderOptionsView::Parquet),
                    TableFunction::ReadExcel => Ok(
                        ReaderOptionsView::Excel(excel_reader_of(default_reader(path), args)),
                    ),
                    TableFunction::ReadMysql => mysql_options_of(args),
                };
                match options {
                    Ok(o) => Ok(
                        TableFunctionCallView {
                            function_name: function,
                            positional_path: path,
                            options: o,
                        },
                    ),
                    Err(e) => Err(e),
                }
            },
        },
    }
}

/// Configures a reader from the arguments of a `read_excel` call.
pub fn read_excel(reader: ExcelReader, args: &Option<TableFunctionArgs>) -> (r: ExcelReader)
    ensures
        r@ == excel_reader_of(reader@, args_view(*args)),
{
    let mut reader = reader;
    match get_function_args(args) {
        Some(list) => {
            let ghost start = reader@;
            let ghost views = args_view(*args)->0;
            let mut i: usize = 0;
            while i < list.len()
                invariant
                    i <= list.len(),
                    views == list@.map_values(|a: FunctionArg| a@),
                    reader@ == excel_reader_after(start, views.take(i as int)),
                decreases list.len() - i,
            {
                proof {
                    assert(views.take(i + 1).drop_last() =~= views.take(i as int));
                    assert(views.take(i + 1).last() == list@[i as int]@);
                }
                match &list[i] {
                    FunctionArg::Named { name, value } => {
                        if same_text(name.as_str(), "sheet_name") {
                            match value {
                                ArgValue::SingleQuotedString(text) => {
                                    reader = reader.with_sheet_name(text.clone());
                                },
                                _ => {},
                            }
                        } else if same_text(name.as_str(), "infer_schema") {
                            match value {
                                ArgValue::Boolean(false) => {
                                    reader = reader.with_infer_schema_length(0);
                                },
                                _ => {},
                            }
                        }
                    },
                    _ => {},
                }
                i += 1;
            }
            assert(views.take(i as int) =~= views);
        },
        None => {},
    }
    reader
}

/// What the database source of a call is read with.
pub open spec fn mysql_options_of(args: Option<Seq<FunctionArgView>>) -> Result<
    ReaderOptionsView,
    AppErrorView,
> {
    match connection_of(args) {
        Ok(conn) => Ok(mysql_options(conn)),
        Err(e) => Err(e),
    }
}

/// Decodes the arguments of a `read_mysql` call: the `conn` argument is
/// the connection string, and there must be one.
pub fn register_mysql(args: &Option<TableFunctionArgs>) -> (r: AppResult<ReaderOptions>)
    ensures
        agrees(r, mysql_options_of(args_view(*args))),
{
    match get_connection(args) {
        Ok(conn) => Ok(
            ReaderOptions::Mysql {
                connection_string: conn,
                sslmode: String::from_str("disabled"),
            },
        ),
        Err(e) => Err(e),
    }
}

/// Decodes the call of the function `name` with the arguments `args`.
pub fn decode_call(name: &str, args: &Option<TableFunctionArgs>) -> (r: AppResult<
    TableFunctionCall,
>)
    ensures
        agrees(r, call_of(name@, args_view(*args))),
{
    let path = match get_table_path(args) {
        Ok(path) => path,
        Err(e) => {
            return Err(e);
        },
    };
    let function = match table_function(name) {
        Some(function) => function,
        None => {
            let message = String::from_str("'").concat(name).concat(
                "' is not a supported table function",
            );
            return Err(AppError::BadRequest { message });
        },
    };
    let options = match function {
        TableFunction::ReadCsv => match get_csv_read_options(args) {
            Ok(o) => ReaderOptions::Csv(o),
            Err(e) => {
                return Err(e);
            },
        },
        TableFunction::ReadTsv => match get_csv_read_options(args) {
            Ok(o) => {
                let mut o = o;
                o.delimiter = 9u8;
                o.file_extension = String::from_str(".tsv");
                ReaderOptions::Csv(o)
            },
            Err(e) => {
                return Err(e);
            },
        },
        TableFunction::ReadNdjson => ReaderOptions::Ndjson,
        TableFunction::ReadParquet => ReaderOptions::Parquet,
        TableFunction::ReadExcel => ReaderOptions::Excel(
            read_excel(ExcelReader::new(path.clone()), args),
        ),
        TableFunction::ReadMysql => match register_mysql(args) {
            Ok(o) => o,
            Err(e) => {
                return Err(e);
            },
        },
    };
    Ok(TableFunctionCall { function_name: function, positional_path: path, options })
}

// ---------------------------------------------------------------------------
// The statement
// ---------------------------------------------------------------------------
/// What stands where a table can stand.
pub enum TableFactor {
    /// A name, with the argument list of a call if it is written as one.
    Table { name: String, args: Option<TableFunctionArgs> },
    /// A subquery in parentheses.
    Derived { subquery: Box<Query> },
    /// Anything else. The resolver leaves it alone.
    Other,
}

/// One entry of a `FROM` clause: a table reference and those joined to it.
pub struct TableWithJoins {
    pub relation: TableFactor,
    pub joins: Vec<TableFactor>,
}

/// The body of a query.
pub enum SetExpr {
    /// A plain `SELECT`.
    Select { from: Vec<TableWithJoins> },
    /// Anything else: a set operation, `VALUES`, and so on.
    Other,
}

/// The expression of a `LIMIT` or `OFFSET` clause.
pub enum Bound {
    /// A number, as it is written.
    Number(String),
    /// Any other expression.
    Other,
}

/// A query.
pub struct Query {
    pub body: SetExpr,
    pub limit: Option<Bound>,
    pub offset: Option<Bound>,
}

/// A statement.
pub enum Statement {
    /// A query.
    Query(Box<Query>),
    /// Anything else.
    Other,
}

/// A [`TableFactor`] as a value of mathematics.
pub enum TableFactorView {
    Table { name: Seq<char>, args: Option<Seq<FunctionArgView>> },
    Derived { subquery: Box<QueryView> },
    Other,
}

/// A [`TableWithJoins`] as a value of mathematics.
pub struct TableWithJoinsView {
    pub relation: TableFactorView,
    pub joins: Seq<TableFactorView>,
}

/// A [`SetExpr`] as a value of mathematics.
pub enum SetExprView {
    Select { from: Seq<TableWithJoinsView> },
    Other,
}

/// A [`Bound`] as a value of mathematics.
pub enum BoundView {
    Number(Seq<char>),
    Other,
}

/// A [`Query`] as a value of mathematics.
pub struct QueryView {
    pub body: SetExprView,
    pub limit: Option<BoundView>,
    pub offset: Option<BoundView>,
}

/// A [`Statement`] as a value of mathematics.
pub enum StatementView {
    Query(QueryView),
    Other,
}

impl View for Bound {
    type V = BoundView;

    open spec fn view(&self) -> BoundView {
        match self {
            Bound::Number(text) => BoundView::Number(text@),
            Bound::Other => BoundView::Other,
        }
    }
}

/// The view of an optional bound.
pub open spec fn bound_view(b: Option<Bound>) -> Option<BoundView> {
    match b {
        Some(b) => Some(b@),
        None => None,
    }
}

/// The view of a table reference.
pub open spec fn factor_view(f: TableFactor) -> TableFactorView
    decreases f,
{
    match f {
        TableFactor::Table { name, args } => TableFactorView::Table {
            name: name@,
            args: args_view(args),
        },
        TableFactor::Derived { subquery } => TableFactorView::Derived {
            subquery: Box::new(query_view(*subquery)),
        },
        TableFactor::Other => TableFactorView::Other,
    }
}

/// The views of a list of table references.
pub open spec fn factors_view(fs: Seq<TableFactor>) -> Seq<TableFactorView>
    decreases fs,
{
    Seq::new(
        fs.len(),
        |i: int|
            if 0 <= i < fs.len() {
                factor_view(fs[i])
            } else {
                TableFactorView::Other
            },
    )
}

/// The view of an entry of a `FROM` clause.
pub open spec fn item_view(t: TableWithJoins) -> TableWithJoinsView
    decreases t,
{
    TableWithJoinsView { relation: factor_view(t.relation), joins: factors_view(t.joins@) }
}

/// The views of the entries of a `FROM` clause.
pub open spec fn items_view(ts: Seq<TableWithJoins>) -> Seq<TableWithJoinsView>
    decreases ts,
{
    Seq::new(
        ts.len(),
        |i: int|
            if 0 <= i < ts.len() {
                item_view(ts[i])
            } else {
                TableWithJoinsView { relation: TableFactorView::Other, joins: Seq::empty() }
            },
    )
}

/// The view of a query.
pub open spec fn query_view(q: Query) -> QueryView
    decreases q,
{
    QueryView {
        body: match q.body {
            SetExpr::Select { from } => SetExprView::Select { from: items_view(from@) },
            SetExpr::Other => SetExprView::Other,
        },
        limit: bound_view(q.limit),
        offset: bound_view(q.offset),
    }
}

impl View for TableFactor {
    type V = TableFactorView;

    open spec fn view(&self) -> TableFactorView {
        factor_view(*self)
    }
}

impl View for TableWithJoins {
    type V = TableWithJoinsView;

    open spec fn view(&self) -> TableWithJoinsView {
        item_view(*self)
    }
}

impl View for Query {
    type V = QueryView;

    open spec fn view(&self) -> QueryView {
        query_view(*self)
    }
}

impl View for Statement {
    type V = StatementView;

    open spec fn view(&self) -> StatementView {
        match self {
            Statement::Query(q) => StatementView::Query(query_view(**q)),
            Statement::Other => StatementView::Other,
        }
    }
}

/// The views of a list of statements.
pub open spec fn statements_view(statements: Seq<Statement>) -> Seq<StatementView> {
    statements.map_values(|s: Statement| s@)
}

// ---------------------------------------------------------------------------
// Resolving
// ---------------------------------------------------------------------------
/// Where a pass stands: the sources registered so far, and what the part of
/// the statement walked so far has become, or the error that ended the
/// pass.
pub struct Pass<T> {
    pub sources: Seq<RegisteredSourceView>,
    pub result: Result<T, AppErrorView>,
}

/// One table reference resolved, `sources` being registered before it.
///
/// A derived table is resolved as a query. A name is decoded as a call; its
/// source gets the next generated name, and the reference becomes that
/// name without arguments. Anything else stays.
pub open spec fn resolve_factor(f: TableFactorView, sources: Seq<RegisteredSourceView>) -> Pass<
    TableFactorView,
>
    decreases f,
{
    match f {
        TableFactorView::Table { name, args } => match call_of(name, args) {
            Ok(call) => {
                let generated = generated_name(sources.len() + 1);
                Pass {
                    sources: sources.push(
                        RegisteredSourceView { generated_name: generated, origin: call },
                    ),
                    result: Ok(TableFactorView::Table { name: generated, args: None }),
                }
            },
            Err(e) => Pass { sources, result: Err(e) },
        },
        TableFactorView::Derived { subquery } => {
            let inner = resolve_query(*subquery, sources);
            Pass {
                sources: inner.sources,
                result: match inner.result {
                    Ok(q) => Ok(TableFactorView::Derived { subquery: Box::new(q) }),
                    Err(e) => Err(e),
                },
            }
        },
        TableFactorView::Other => Pass { sources, result: Ok(TableFactorView::Other) },
    }
}

/// A list of table references resolved one after the other. The first
/// error ends the pass.
pub open spec fn resolve_factors(
    fs: Seq<TableFactorView>,
    sources: Seq<RegisteredSourceView>,
) -> Pass<Seq<TableFactorView>>
    decreases fs,
{
    if fs.len() == 0 {
        Pass { sources, result: Ok(Seq::empty()) }
    } else {
        let before = resolve_factors(fs.drop_last(), sources);
        match before.result {
            Ok(done) => {
                let last = resolve_factor(fs.last(), before.sources);
                Pass {
                    sources: last.sources,
                    result: match last.result {
                        Ok(f) => Ok(done.push(f)),
                        Err(e) => Err(e),
                    },
                }
            },
            Err(e) => Pass { sources: before.sources, result: Err(e) },
        }
    }
}

/// An entry of a `FROM` clause resolved: its own reference, then those
/// joined to it.
pub open spec fn resolve_item(t: TableWithJoinsView, sources: Seq<RegisteredSourceView>) -> Pass<
    TableWithJoinsView,
>
    decreases t,
{
    let first = resolve_factor(t.relation, sources);
    match first.result {
        Ok(relation) => {
            let rest = resolve_factors(t.joins, first.sources);
            Pass {
                sources: rest.sources,
                result: match rest.result {
                    Ok(joins) => Ok(TableWithJoinsView { relation, joins }),
                    Err(e) => Err(e),
                },
            }
        },
        Err(e) => Pass { sources: first.sources, result: Err(e) },
    }
}

/// The entries of a `FROM` clause resolved one after the other.
pub open spec fn resolve_items(
    ts: Seq<TableWithJoinsView>,
    sources: Seq<RegisteredSourceView>,
) -> Pass<Seq<TableWithJoinsView>>
    decreases ts,
{
    if ts.len() == 0 {
        Pass { sources, result: Ok(Seq::empty()) }
    } else {
        let before = resolve_items(ts.drop_last(), sources);
        match before.result {
            Ok(done) => {
                let last = resolve_item(ts.last(), before.sources);
                Pass {
                    sources: last.sources,
                    result: match last.result {
                        Ok(t) => Ok(done.push(t)),
                        Err(e) => Err(e),
                    },
                }
            },
            Err(e) => Pass { sources: before.sources, result: Err(e) },
        }
    }
}

/// A query resolved: the `FROM` clause of a plain `SELECT`, entry by
/// entry. Any other query stays as it is.
pub open spec fn resolve_query(q: QueryView, sources: Seq<RegisteredSourceView>) -> Pass<QueryView>
    decreases q,
{
    match q.body {
        SetExprView::Select { from } => {
            let walked = resolve_items(from, sources);
            Pass {
                sources: walked.sources,
                result: match walked.result {
                    Ok(items) => Ok(
                        QueryView {
                            body: SetExprView::Select { from: items },
                            limit: q.limit,
                            offset: q.offset,
                        },
                    ),
                    Err(e) => Err(e),
                },
            }
        },
        SetExprView::Other => Pass { sources, result: Ok(q) },
    }
}

/// An error among the first `k` references is the outcome of the whole
/// list.
pub proof fn lemma_resolve_factors_error(
    fs: Seq<TableFactorView>,
    sources: Seq<RegisteredSourceView>,
    k: int,
)
    requires
        0 <= k <= fs.len(),
        resolve_factors(fs.take(k), sources).result is Err,
    ensures
        resolve_factors(fs, sources) == resolve_factors(fs.take(k), sources),
    decreases fs.len(),
{
    if k == fs.len() {
        assert(fs.take(k) =~= fs);
    } else {
        assert(fs.drop_last().take(k) =~= fs.take(k));
        lemma_resolve_factors_error(fs.drop_last(), sources, k);
    }
}

/// An error among the first `k` entries is the outcome of the whole
/// `FROM` clause.
pub proof fn lemma_resolve_items_error(
    ts: Seq<TableWithJoinsView>,
    sources: Seq<RegisteredSourceView>,
    k: int,
)
    requires
        0 <= k <= ts.len(),
        resolve_items(ts.take(k), sources).result is Err,
    ensures
        resolve_items(ts, sources) == resolve_items(ts.take(k), sources),
    decreases ts.len(),
{
    if k == ts.len() {
        assert(ts.take(k) =~= ts);
    } else {
        assert(ts.drop_last().take(k) =~= ts.take(k));
        lemma_resolve_items_error(ts.drop_last(), sources, k);
    }
}

/// A copy of an optional bound.
fn copy_bound(b: &Option<Bound>) -> (r: Option<Bound>)
    ensures
        bound_view(r) == bound_view(*b),
{
    match b {
        Some(Bound::Number(text)) => Some(Bound::Number(text.clone())),
        Some(Bound::Other) => Some(Bound::Other),
        None => None,
    }
}

/// Resolves one table reference. The sources that it registers are added
/// to `sources`, in order; the reference comes back rewritten.
pub fn register_table(relation: &TableFactor, sources: &mut Vec<RegisteredSource>) -> (r: AppResult<
    TableFactor,
>)
    ensures
        source_views(final(sources)@) == resolve_factor(
            relation@,
            source_views(old(sources)@),
        ).sources,
        agrees(r, resolve_factor(relation@, source_views(old(sources)@)).result),
    decreases relation,
{
    match relation {
        TableFactor::Table { name, args } => {
            match decode_call(name.as_str(), args) {
                Ok(call) => {
                    let mut generated = String::from_str("table");
                    push_decimal(&mut generated, sources.len() as u128 + 1);
                    let ghost before = sources@;
                    let source = RegisteredSource {
                        generated_name: generated.clone(),
                        origin: call,
                    };
                    sources.push(source);
                    proof {
                        assert(source_views(sources@) =~= source_views(before).push(source@));
                    }
                    Ok(TableFactor::Table { name: generated, args: None })
                },
                Err(e) => Err(e),
            }
        },
        TableFactor::Derived { subquery } => {
            match convert_table_name(subquery, sources) {
                Ok(q) => Ok(TableFactor::Derived { subquery: Box::new(q) }),
                Err(e) => Err(e),
            }
        },
        TableFactor::Other => Ok(TableFactor::Other),
    }
}

/// Resolves the table references of a query, in the order of the walk:
/// each entry of the `FROM` clause, its own reference before those joined
/// to it, and a derived table through and through before what follows it.
pub fn convert_table_name(query: &Query, sources: &mut Vec<RegisteredSource>) -> (r: AppResult<
    Query,
>)
    ensures
        source_views(final(sources)@) == resolve_query(
            query@,
            source_views(old(sources)@),
        ).sources,
        agrees(r, resolve_query(query@, source_views(old(sources)@)).result),
    decreases query,
{
    let from = match &query.body {
        SetExpr::Select { from } => from,
        SetExpr::Other => {
            return Ok(
                Query {
                    body: SetExpr::Other,
                    limit: copy_bound(&query.limit),
                    offset: copy_bound(&query.offset),
                },
            );
        },
    };
    let ghost start = source_views(old(sources)@);
    let ghost items = items_view(from@);
    let mut new_from: Vec<TableWithJoins> = Vec::new();
    let mut i: usize = 0;
    assert(items_view(new_from@) =~= Seq::<TableWithJoinsView>::empty());
    while i < from.len()
        invariant
            i <= from.len(),
            query.body == (SetExpr::Select { from: *from }),
            start == source_views(old(sources)@),
            items == items_view(from@),
            resolve_items(items.take(i as int), start).sources == source_views(sources@),
            resolve_items(items.take(i as int), start).result == Ok::<
                Seq<TableWithJoinsView>,
                AppErrorView,
            >(items_view(new_from@)),
        decreases from.len() - i,
    {
        let item = &from[i];
        let ghost before = source_views(sources@);
        proof {
            assert(items.take(i + 1).drop_last() =~= items.take(i as int));
            assert(items.take(i + 1).last() == item@);
        }
        let relation = match register_table(&item.relation, sources) {
            Ok(f) => f,
            Err(e) => {
                proof {
                    assert(resolve_item(item@, before).result is Err);
                    assert(resolve_items(items.take(i + 1), start).result is Err);
                    lemma_resolve_items_error(items, start, i + 1);
                }
                return Err(e);
            },
        };
        let ghost mid = source_views(sources@);
        let ghost joins = factors_view(item.joins@);
        let mut new_joins: Vec<TableFactor> = Vec::new();
        let mut j: usize = 0;
        assert(factors_view(new_joins@) =~= Seq::<TableFactorView>::empty());
        while j < item.joins.len()
            invariant
                j <= item.joins.len(),
                i < from.len(),
                item == &from[i as int],
                query.body == (SetExpr::Select { from: *from }),
                start == source_views(old(sources)@),
                items == items_view(from@),
                joins == factors_view(item.joins@),
                items.take(i + 1).drop_last() == items.take(i as int),
                items.take(i + 1).last() == item@,
                resolve_items(items.take(i as int), start).sources == before,
                resolve_items(items.take(i as int), start).result is Ok,
                resolve_factor(item@.relation, before).sources == mid,
                resolve_factor(item@.relation, before).result is Ok,
                resolve_factors(joins.take(j as int), mid).sources == source_views(sources@),
                resolve_factors(joins.take(j as int), mid).result == Ok::<
                    Seq<TableFactorView>,
                    AppErrorView,
                >(factors_view(new_joins@)),
            decreases item.joins.len() - j,
        {
            proof {
                assert(joins.take(j + 1).drop_last() =~= joins.take(j as int));
                assert(joins.take(j + 1).last() == item.joins@[j as int]@);
            }
            let ghost old_joins = new_joins@;
            match register_table(&item.joins[j], sources) {
                Ok(f) => {
                    new_joins.push(f);
                    proof {
                        assert(factors_view(new_joins@) =~= factors_view(old_joins).push(f@));
                    }
                },
                Err(e) => {
                    proof {
                        assert(resolve_factors(joins.take(j + 1), mid).result is Err);
                        lemma_resolve_factors_error(joins, mid, j + 1);
                        assert(resolve_item(item@, before).result is Err);
                        assert(resolve_items(items.take(i + 1), start).result is Err);
                        lemma_resolve_items_error(items, start, i + 1);
                    }
                    return Err(e);
                },
            }
            j += 1;
        }
        proof {
            assert(joins.take(j as int) =~= joins);
        }
        let ghost old_from = new_from@;
        let new_item = TableWithJoins { relation, joins: new_joins };
        new_from.push(new_item);
        proof {
            assert(items_view(new_from@) =~= items_view(old_from).push(new_item@));
        }
        i += 1;
    }
    proof {
        assert(items.take(i as int) =~= items);
    }
    Ok(
        Query {
            body: SetExpr::Select { from: new_from },
            limit: copy_bound(&query.limit),
            offset: copy_bound(&query.offset),
        },
    )
}

// ---------------------------------------------------------------------------
// Paging
// ---------------------------------------------------------------------------
/// The limit in force: that of the query where it has one, else the one
/// asked for, written in base ten.
pub open spec fn limit_in_force(existing: Option<BoundView>, limit: Option<usize>) -> Option<
    BoundView,
> {
    match existing {
        Some(b) => Some(b),
        None => match limit {
            Some(n) => Some(BoundView::Number(decimal_digits(n as nat))),
            None => None,
        },
    }
}

/// The number of rows to skip for page `offset` under the limit in force:
/// limit times page. There is one only for a page after the first and a
/// limit written as an integer of 64 bits, and only where the product is
/// such an integer too.
pub open spec fn rows_to_skip(limit: Option<BoundView>, offset: Option<usize>) -> Option<int> {
    match (limit, offset) {
        (Some(BoundView::Number(text)), Some(page)) => match i64_of(text) {
            Some(size) => if page > 0 && i64::MIN <= size * page <= i64::MAX {
                Some(size * page)
            } else {
                None
            },
            None => None,
        },
        _ => None,
    }
}

/// The query with the page bounds added. A limit or an offset that the
/// query has already stays. An offset counts pages, not rows, and without a
/// limit to multiply it with it is dropped.
pub open spec fn paginated(q: QueryView, limit: Option<usize>, offset: Option<usize>) -> QueryView {
    let limit = limit_in_force(q.limit, limit);
    QueryView {
        body: q.body,
        limit,
        offset: match q.offset {
            Some(b) => Some(b),
            None => match rows_to_skip(limit, offset) {
                Some(rows) => Some(BoundView::Number(decimal_text(rows))),
                None => None,
            },
        },
    }
}

/// Adds the page bounds to a query.
pub fn paginate(query: Query, limit: Option<usize>, offset: Option<usize>) -> (r: Query)
    ensures
        r@ == paginated(query@, limit, offset),
{
    let mut query = query;
    if query.limit.is_none() {
        match limit {
            Some(n) => {
                query.limit = Some(Bound::Number(decimal_string(n as u64)));
            },
            None => {},
        }
    }
    if query.offset.is_none() {
        let rows: Option<i64> = match (&query.limit, offset) {
            (Some(Bound::Number(text)), Some(page)) => match parse_i64(text.as_str()) {
                Some(size) => {
                    if page > 0 {
                        match (size as i128).checked_mul(page as i128) {
                            Some(product) => if -9223372036854775808i128 <= product && product
                                <= 9223372036854775807i128 {
                                Some(product as i64)
                            } else {
                                None
                            },
                            None => None,
                        }
                    } else {
                        None
                    }
                },
                None => None,
            },
            _ => None,
        };
        match rows {
            Some(rows) => {
                query.offset = Some(Bound::Number(signed_decimal_string(rows)));
            },
            None => {},
        }
    }
    query
}

// ---------------------------------------------------------------------------
// The whole pass
// ---------------------------------------------------------------------------
/// What a pass over the statements of a request gives. There must be
/// exactly one statement, and it must be a query; its table references are
/// resolved from an empty list of sources, and the page bounds are added to
/// what comes out.
pub open spec fn resolution_of(
    statements: Seq<StatementView>,
    limit: Option<usize>,
    offset: Option<usize>,
) -> Pass<QueryView> {
    if statements.len() != 1 {
        Pass { sources: Seq::empty(), result: Err(bad_request_view("invalid SQL statement"@)) }
    } else {
        match statements[0] {
            StatementView::Query(q) => {
                let pass = resolve_query(q, Seq::empty());
                Pass {
                    sources: pass.sources,
                    result: match pass.result {
                        Ok(resolved) => Ok(paginated(resolved, limit, offset)),
                        Err(e) => Err(e),
                    },
                }
            },
            StatementView::Other => Pass {
                sources: Seq::empty(),
                result: Err(bad_request_view("Only supports Select statements."@)),
            },
        }
    }
}

/// The outcome of a pass: the sources to register, in order, and the
/// rewritten query or the error that ended the pass. After an error the
/// sources are those resolved before it.
pub struct Resolution {
    pub sources: Vec<RegisteredSource>,
    pub outcome: AppResult<Query>,
}

/// Resolves the statements of one request and adds the page bounds.
pub fn register(statements: &Vec<Statement>, limit: Option<usize>, offset: Option<usize>) -> (r:
    Resolution)
    ensures
        source_views(r.sources@) == resolution_of(
            statements_view(statements@),
            limit,
            offset,
        ).sources,
        agrees(r.outcome, resolution_of(statements_view(statements@), limit, offset).result),
{
    let mut sources: Vec<RegisteredSource> = Vec::new();
    assert(source_views(sources@) =~= Seq::<RegisteredSourceView>::empty());
    if statements.len() != 1 {
        return Resolution {
            sources,
            outcome: Err(AppError::bad_request("invalid SQL statement")),
        };
    }
    assert(statements_view(statements@)[0] == statements@[0]@);
    match &statements[0] {
        Statement::Query(query) => {
            match convert_table_name(query, &mut sources) {
                Ok(resolved) => {
                    let paged = paginate(resolved, limit, offset);
                    Resolution { sources, outcome: Ok(paged) }
                },
                Err(e) => Resolution { sources, outcome: Err(e) },
            }
        },
        Statement::Other => Resolution {
            sources,
            outcome: Err(AppError::bad_request("Only supports Select statements.")),
        },
    }
}

// ---------------------------------------------------------------------------
// What holds of every pass
// ---------------------------------------------------------------------------
/// A name where a table can stand, with its arguments if it is a call.
pub struct TableRef {
    pub name: Seq<char>,
    pub args: Option<Seq<FunctionArgView>>,
}

/// The names that stand for tables in a table reference, in the order of
/// the walk.
pub open spec fn factor_tables(f: TableFactorView) -> Seq<TableRef>
    decreases f,
{
    match f {
        TableFactorView::Table { name, args } => seq![TableRef { name, args }],
        TableFactorView::Derived { subquery } => query_tables(*subquery),
        TableFactorView::Other => Seq::empty(),
    }
}

/// The names that stand for tables in a list of table references.
pub open spec fn factors_tables(fs: Seq<TableFactorView>) -> Seq<TableRef>
    decreases fs,
{
    if fs.len() == 0 {
        Seq::empty()
    } else {
        factors_tables(fs.drop_last()) + factor_tables(fs.last())
    }
}

/// The names that stand for tables in an entry of a `FROM` clause.
pub open spec fn item_tables(t: TableWithJoinsView) -> Seq<TableRef>
    decreases t,
{
    factor_tables(t.relation) + factors_tables(t.joins)
}

/// The names that stand for tables in the entries of a `FROM` clause.
pub open spec fn items_tables(ts: Seq<TableWithJoinsView>) -> Seq<TableRef>
    decreases ts,
{
    if ts.len() == 0 {
        Seq::empty()
    } else {
        items_tables(ts.drop_last()) + item_tables(ts.last())
    }
}

/// The names that stand for tables in a query, in the order of the walk:
/// those of a plain `SELECT`, derived tables included; none of any other
/// query.
pub open spec fn query_tables(q: QueryView) -> Seq<TableRef>
    decreases q,
{
    match q.body {
        SetExprView::Select { from } => items_tables(from),
        SetExprView::Other => Seq::empty(),
    }
}

/// `count` generated names without arguments, the first being the name
/// after `start`.
pub open spec fn generated_tables(start: nat, count: nat) -> Seq<TableRef> {
    Seq::new(count, |k: int| TableRef { name: generated_name((start + k + 1) as nat), args: None })
}

/// What a step of a pass does to the list of sources, and to the names in
/// the part of the statement that it walks: the sources registered before
/// stay; each new source has the generated name of its place in the list;
/// and where the step succeeds, there is one new source for each name
/// walked, and the names after the step are the generated ones, in order
/// and without arguments.
pub open spec fn step_is_numbered(
    before: Seq<RegisteredSourceView>,
    after: Seq<RegisteredSourceView>,
    succeeded: bool,
    walked: Seq<TableRef>,
    rewritten: Seq<TableRef>,
) -> bool {
    &&& before.len() <= after.len()
    &&& after.take(before.len() as int) == before
    &&& forall|k: int|
        before.len() <= k < after.len() ==> (#[trigger] after[k]).generated_name == generated_name(
            (k + 1) as nat,
        )
    &&& succeeded ==> {
        &&& after.len() == before.len() + walked.len()
        &&& rewritten == generated_tables(before.len(), walked.len())
    }
}

/// The names after a step, or none where it failed.
pub open spec fn factor_tables_after(r: Result<TableFactorView, AppErrorView>) -> Seq<TableRef> {
    match r {
        Ok(f) => factor_tables(f),
        Err(_) => Seq::empty(),
    }
}

/// The names after a step, or none where it failed.
pub open spec fn factors_tables_after(r: Result<Seq<TableFactorView>, AppErrorView>) -> Seq<
    TableRef,
> {
    match r {
        Ok(fs) => factors_tables(fs),
        Err(_) => Seq::empty(),
    }
}

/// The names after a step, or none where it failed.
pub open spec fn item_tables_after(r: Result<TableWithJoinsView, AppErrorView>) -> Seq<TableRef> {
    match r {
        Ok(t) => item_tables(t),
        Err(_) => Seq::empty(),
    }
}

/// The names after a step, or none where it failed.
pub open spec fn items_tables_after(r: Result<Seq<TableWithJoinsView>, AppErrorView>) -> Seq<
    TableRef,
> {
    match r {
        Ok(ts) => items_tables(ts),
        Err(_) => Seq::empty(),
    }
}

/// The names after a step, or none where it failed.
pub open spec fn query_tables_after(r: Result<QueryView, AppErrorView>) -> Seq<TableRef> {
    match r {
        Ok(q) => query_tables(q),
        Err(_) => Seq::empty(),
    }
}

/// Two runs of generated names, one after the other, are one run.
pub proof fn lemma_generated_tables_append(start: nat, first: nat, second: nat)
    ensures
        generated_tables(start, first) + generated_tables(start + first, second)
            == generated_tables(start, first + second),
{
    assert(generated_tables(start, first) + generated_tables(start + first, second)
        =~= generated_tables(start, first + second));
}

/// Two steps that are numbered, one after the other, are one numbered
/// step.
pub proof fn lemma_steps_compose(
    s0: Seq<RegisteredSourceView>,
    s1: Seq<RegisteredSourceView>,
    s2: Seq<RegisteredSourceView>,
    ok1: bool,
    ok2: bool,
    walked1: Seq<TableRef>,
    walked2: Seq<TableRef>,
    rewritten1: Seq<TableRef>,
    rewritten2: Seq<TableRef>,
)
    requires
        step_is_numbered(s0, s1, ok1, walked1, rewritten1),
        step_is_numbered(s1, s2, ok2, walked2, rewritten2),
    ensures
        step_is_numbered(s0, s2, ok1 && ok2, walked1 + walked2, rewritten1 + rewritten2),
{
    assert(s2.take(s0.len() as int) =~= s0) by {
        assert forall|k: int| 0 <= k < s0.len() implies s2[k] == s0[k] by {
            assert(s2.take(s1.len() as int)[k] == s1[k]);
            assert(s1.take(s0.len() as int)[k] == s0[k]);
        }
    }
    assert forall|k: int| s0.len() <= k < s2.len() implies (#[trigger] s2[k]).generated_name
        == generated_name((k + 1) as nat) by {
        if k < s1.len() {
            assert(s2.take(s1.len() as int)[k] == s1[k]);
        }
    }
    if ok1 && ok2 {
        lemma_generated_tables_append(s0.len(), walked1.len(), walked2.len());
    }
}

/// Resolving a table reference is a numbered step.
pub proof fn lemma_resolve_factor_numbered(f: TableFactorView, sources: Seq<RegisteredSourceView>)
    ensures
        step_is_numbered(
            sources,
            resolve_factor(f, sources).sources,
            resolve_factor(f, sources).result is Ok,
            factor_tables(f),
            factor_tables_after(resolve_factor(f, sources).result),
        ),
    decreases f,
{
    let pass = resolve_factor(f, sources);
    match f {
        TableFactorView::Table { name, args } => {
            assert(pass.sources.take(sources.len() as int) =~= sources);
            if pass.result is Ok {
                assert(factor_tables_after(pass.result) =~= generated_tables(sources.len(), 1));
            }
        },
        TableFactorView::Derived { subquery } => {
            lemma_resolve_query_numbered(*subquery, sources);
        },
        TableFactorView::Other => {
            assert(pass.sources.take(sources.len() as int) =~= sources);
            assert(factor_tables_after(pass.result) =~= generated_tables(sources.len(), 0));
        },
    }
}

/// Resolving a list of table references is a numbered step.
pub proof fn lemma_resolve_factors_numbered(
    fs: Seq<TableFactorView>,
    sources: Seq<RegisteredSourceView>,
)
    ensures
        step_is_numbered(
            sources,
            resolve_factors(fs, sources).sources,
            resolve_factors(fs, sources).result is Ok,
            factors_tables(fs),
            factors_tables_after(resolve_factors(fs, sources).result),
        ),
    decreases fs,
{
    let pass = resolve_factors(fs, sources);
    if fs.len() == 0 {
        assert(pass.sources.take(sources.len() as int) =~= sources);
        assert(factors_tables_after(pass.result) =~= generated_tables(sources.len(), 0));
    } else {
        let before = resolve_factors(fs.drop_last(), sources);
        lemma_resolve_factors_numbered(fs.drop_last(), sources);
        match before.result {
            Ok(done) => {
                let last = resolve_factor(fs.last(), before.sources);
                lemma_resolve_factor_numbered(fs.last(), before.sources);
                lemma_steps_compose(
                    sources,
                    before.sources,
                    last.sources,
                    true,
                    last.result is Ok,
                    factors_tables(fs.drop_last()),
                    factor_tables(fs.last()),
                    factors_tables(done),
                    factor_tables_after(last.result),
                );
                if last.result is Ok {
                    let f = last.result->Ok_0;
                    assert(done.push(f).drop_last() =~= done);
                    assert(done.push(f).last() == f);
                }
            },
            Err(e) => {},
        }
    }
}

/// Resolving an entry of a `FROM` clause is a numbered step.
pub proof fn lemma_resolve_item_numbered(t: TableWithJoinsView, sources: Seq<RegisteredSourceView>)
    ensures
        step_is_numbered(
            sources,
            resolve_item(t, sources).sources,
            resolve_item(t, sources).result is Ok,
            item_tables(t),
            item_tables_after(resolve_item(t, sources).result),
        ),
    decreases t,
{
    let first = resolve_factor(t.relation, sources);
    lemma_resolve_factor_numbered(t.relation, sources);
    match first.result {
        Ok(relation) => {
            let rest = resolve_factors(t.joins, first.sources);
            lemma_resolve_factors_numbered(t.joins, first.sources);
            lemma_steps_compose(
                sources,
                first.sources,
                rest.sources,
                true,
                rest.result is Ok,
                factor_tables(t.relation),
                factors_tables(t.joins),
                factor_tables(relation),
                factors_tables_after(rest.result),
            );
        },
        Err(e) => {},
    }
}

/// Resolving the entries of a `FROM` clause is a numbered step.
pub proof fn lemma_resolve_items_numbered(
    ts: Seq<TableWithJoinsView>,
    sources: Seq<RegisteredSourceView>,
)
    ensures
        step_is_numbered(
            sources,
            resolve_items(ts, sources).sources,
            resolve_items(ts, sources).result is Ok,
            items_tables(ts),
            items_tables_after(resolve_items(ts, sources).result),
        ),
    decreases ts,
{
    let pass = resolve_items(ts, sources);
    if ts.len() == 0 {
        assert(pass.sources.take(sources.len() as int) =~= sources);
        assert(items_tables_after(pass.result) =~= generated_tables(sources.len(), 0));
    } else {
        let before = resolve_items(ts.drop_last(), sources);
        lemma_resolve_items_numbered(ts.drop_last(), sources);
        match before.result {
            Ok(done) => {
                let last = resolve_item(ts.last(), before.sources);
                lemma_resolve_item_numbered(ts.last(), before.sources);
                lemma_steps_compose(
                    sources,
                    before.sources,
                    last.sources,
                    true,
                    last.result is Ok,
                    items_tables(ts.drop_last()),
                    item_tables(ts.last()),
                    items_tables(done),
                    item_tables_after(last.result),
                );
                if last.result is Ok {
                    let t = last.result->Ok_0;
                    assert(done.push(t).drop_last() =~= done);
                    assert(done.push(t).last() == t);
                }
            },
            Err(e) => {},
        }
    }
}

/// Resolving a query is a numbered step.
pub proof fn lemma_resolve_query_numbered(q: QueryView, sources: Seq<RegisteredSourceView>)
    ensures
        step_is_numbered(
            sources,
            resolve_query(q, sources).sources,
            resolve_query(q, sources).result is Ok,
            query_tables(q),
            query_tables_after(resolve_query(q, sources).result),
        ),
    decreases q,
{
    match q.body {
        SetExprView::Select { from } => {
            lemma_resolve_items_numbered(from, sources);
        },
        SetExprView::Other => {
            let pass = resolve_query(q, sources);
            assert(pass.sources.take(sources.len() as int) =~= sources);
            assert(query_tables_after(pass.result) =~= generated_tables(sources.len(), 0));
        },
    }
}

/// Two places of a pass have different generated names.
pub proof fn lemma_generated_names_differ(a: nat, b: nat)
    requires
        a != b,
    ensures
        generated_name(a) != generated_name(b),
{
    let prefix = "table"@;
    if generated_name(a) == generated_name(b) {
        assert((prefix + decimal_digits(a)).skip(prefix.len() as int) =~= decimal_digits(a));
        assert((prefix + decimal_digits(b)).skip(prefix.len() as int) =~= decimal_digits(b));
        crate::text::lemma_decimal_digits_injective(a, b);
    }
}

/// In every pass, failed or not, the sources are named `table1`, `table2`
/// and so on in the order in which they are registered, so that no two
/// have one name. A pass that succeeds registers one source for each name
/// that stood for a table in the query, derived tables included, and
/// leaves in the query the generated names alone, in the order of the walk
/// and without arguments.
pub proof fn lemma_pass_is_numbered(
    statements: Seq<StatementView>,
    limit: Option<usize>,
    offset: Option<usize>,
)
    ensures
        ({
            let pass = resolution_of(statements, limit, offset);
            &&& forall|k: int|
                0 <= k < pass.sources.len() ==> (#[trigger] pass.sources[k]).generated_name
                    == generated_name((k + 1) as nat)
            &&& forall|i: int, j: int|
                0 <= i < j < pass.sources.len() ==> (#[trigger] pass.sources[i]).generated_name != (
                #[trigger] pass.sources[j]).generated_name
            &&& pass.result matches Ok(rewritten) ==> {
                &&& statements.len() == 1
                &&& statements[0] matches StatementView::Query(q)
                &&& pass.sources.len() == query_tables(q).len()
                &&& query_tables(rewritten) == generated_tables(0, query_tables(q).len())
            }
        }),
{
    let pass = resolution_of(statements, limit, offset);
    if statements.len() == 1 {
        match statements[0] {
            StatementView::Query(q) => {
                lemma_resolve_query_numbered(q, Seq::empty());
            },
            StatementView::Other => {},
        }
    }
    assert forall|i: int, j: int| 0 <= i < j < pass.sources.len() implies (
    #[trigger] pass.sources[i]).generated_name != (#[trigger] pass.sources[j]).generated_name by {
        lemma_generated_names_differ((i + 1) as nat, (j + 1) as nat);
    }
}

/// A query with one call of a table function resolves, if it resolves, to
/// one source named `table1`, and `table1` without arguments is then the
/// one name in the query.
pub proof fn lemma_single_call(q: QueryView, limit: Option<usize>, offset: Option<usize>)
    requires
        query_tables(q).len() == 1,
        resolution_of(seq![StatementView::Query(q)], limit, offset).result is Ok,
    ensures
        ({
            let pass = resolution_of(seq![StatementView::Query(q)], limit, offset);
            &&& pass.sources.len() == 1
            &&& pass.sources[0].generated_name == "table"@ + seq!['1']
            &&& query_tables(pass.result->Ok_0) == seq![
                TableRef { name: "table"@ + seq!['1'], args: None },
            ]
        }),
{
    let statements = seq![StatementView::Query(q)];
    let pass = resolution_of(statements, limit, offset);
    lemma_pass_is_numbered(statements, limit, offset);
    assert(decimal_digits(1) =~= seq!['1']);
    assert(query_tables(pass.result->Ok_0) =~= seq![
        TableRef { name: "table"@ + seq!['1'], args: None },
    ]);
}

/// A `read_excel` call with `infer_schema => false` among its arguments
/// infers from no row: every column is then text.
pub proof fn lemma_excel_inference_off(reader: ExcelReaderView, args: Seq<FunctionArgView>, k: int)
    requires
        0 <= k < args.len(),
        crate::args::turns_inference_off(args[k]),
    ensures
        excel_reader_after(reader, args).infer_schema_length == 0,
    decreases args.len(),
{
    reveal_strlit("sheet_name");
    reveal_strlit("infer_schema");
    assert("sheet_name"@.len() != "infer_schema"@.len());
    let before = excel_reader_after(reader, args.drop_last());
    if k < args.len() - 1 {
        assert(args.drop_last()[k] == args[k]);
        lemma_excel_inference_off(reader, args.drop_last(), k);
        assert(excel_reader_step(before, args.last()).infer_schema_length == 0);
    } else {
        assert(args.last() == args[k]);
        assert(excel_reader_step(before, args.last()).infer_schema_length == 0);
    }
}

} // verus!
