//! The arguments of a table-function call, and the typed options that they
//! decode to.
//!
//! A call such as `read_csv('data/*.csv', delimiter => ';')` arrives here as a
//! list of [`FunctionArg`]: the first, positional argument is the path, the
//! named ones configure the reader.
use crate::error::{agrees, bad_request_view, AppError, AppErrorView, AppResult};
use crate::text::{chars_of, parse_u8, same_text, u8_of};
use vstd::prelude::*;
use vstd::string::StringExecFns;

verus! {

/// The value of one argument, as far as a reader looks at it.
pub enum ArgValue {
    /// `TRUE` or `FALSE`.
    Boolean(bool),
    /// A string literal in single quotes, without the quotes.
    SingleQuotedString(String),
    /// Any other expression. No reader uses it.
    Other,
}

/// One argument of a table-function call.
pub enum FunctionArg {
    /// `name => value`.
    Named { name: String, value: ArgValue },
    /// An argument whose name is itself an expression. No reader uses it.
    ExprNamed,
    /// A positional argument.
    Unnamed(ArgValue),
}

/// The arguments of a table-function call, in the order written.
pub struct TableFunctionArgs {
    pub args: Vec<FunctionArg>,
}

/// An [`ArgValue`] with its text as a sequence of characters.
pub enum ArgValueView {
    Boolean(bool),
    SingleQuotedString(Seq<char>),
    Other,
}

/// A [`FunctionArg`] with its texts as sequences of characters.
pub enum FunctionArgView {
    Named { name: Seq<char>, value: ArgValueView },
    ExprNamed,
    Unnamed(ArgValueView),
}

impl View for ArgValue {
    type V = ArgValueView;

    open spec fn view(&self) -> ArgValueView {
        match self {
            ArgValue::Boolean(b) => ArgValueView::Boolean(*b),
            ArgValue::SingleQuotedString(s) => ArgValueView::SingleQuotedString(s@),
            ArgValue::Other => ArgValueView::Other,
        }
    }
}

impl View for FunctionArg {
    type V = FunctionArgView;

    open spec fn view(&self) -> FunctionArgView {
        match self {
            FunctionArg::Named { name, value } => FunctionArgView::Named {
                name: name@,
                value: value@,
            },
            FunctionArg::ExprNamed => FunctionArgView::ExprNamed,
            FunctionArg::Unnamed(value) => FunctionArgView::Unnamed(value@),
        }
    }
}

impl View for TableFunctionArgs {
    type V = Seq<FunctionArgView>;

    open spec fn view(&self) -> Seq<FunctionArgView> {
        self.args@.map_values(|a: FunctionArg| a@)
    }
}

/// The view of an optional argument list.
pub open spec fn args_view(args: Option<TableFunctionArgs>) -> Option<Seq<FunctionArgView>> {
    match args {
        Some(a) => Some(a@),
        None => None,
    }
}

/// The argument list of a call, if it has one.
pub fn get_function_args(args: &Option<TableFunctionArgs>) -> (r: Option<&Vec<FunctionArg>>)
    ensures
        match r {
            Some(v) => args matches Some(a) && *v == a.args,
            None => args is None,
        },
{
    match args {
        Some(table_args) => Some(&table_args.args),
        None => None,
    }
}

// ---------------------------------------------------------------------------
// Delimiters
// ---------------------------------------------------------------------------
/// The byte that the letter after a backslash stands for, for the five
/// escapes that a delimiter may be written with.
pub open spec fn escape_byte(c: char) -> Option<u8> {
    if c == 't' {
        Some(9u8)
    } else if c == 'n' {
        Some(10u8)
    } else if c == 'r' {
        Some(13u8)
    } else if c == '\\' {
        Some(92u8)
    } else if c == '0' {
        Some(0u8)
    } else {
        None
    }
}

/// The delimiter byte that the text `s` stands for, if any. In this order:
/// a backslash and one of `t n r \ 0` is that escape; a single ASCII
/// character is its own byte; a number from 0 to 255 in base ten is that
/// byte.
pub open spec fn delimiter_of(s: Seq<char>) -> Option<u8> {
    if s.len() == 2 && s[0] == '\\' && escape_byte(s[1]) is Some {
        escape_byte(s[1])
    } else if s.len() == 1 && (s[0] as u32) < 128 {
        Some(s[0] as u8)
    } else {
        u8_of(s)
    }
}

/// The message for a text that stands for no delimiter.
pub open spec fn invalid_delimiter_text(s: Seq<char>) -> Seq<char> {
    "Invalid delimiter format: '"@ + s
        + "'. Expected a single character, escape sequence (\\t, \\n, \\r), or numeric value (0-255)"@
}

/// What decoding the delimiter text `s` gives: its byte, or the error that
/// names the text.
pub open spec fn delimiter_result(s: Seq<char>) -> Result<u8, AppErrorView> {
    match delimiter_of(s) {
        Some(b) => Ok(b),
        None => Err(bad_request_view(invalid_delimiter_text(s))),
    }
}

/// Decodes the value of a `delimiter` argument to the byte it stands for.
pub fn parse_delimiter(value: &str) -> (r: AppResult<u8>)
    ensures
        agrees(r, delimiter_result(value@)),
{
    let v = chars_of(value);
    if v.len() == 2 && v[0] == '\\' {
        let c = v[1];
        if c == 't' {
            return Ok(9u8);
        } else if c == 'n' {
            return Ok(10u8);
        } else if c == 'r' {
            return Ok(13u8);
        } else if c == '\\' {
            return Ok(92u8);
        } else if c == '0' {
            return Ok(0u8);
        }
    }
    if v.len() == 1 && (v[0] as u32) < 128 {
        return Ok(v[0] as u8);
    }
    match parse_u8(value) {
        Some(b) => Ok(b),
        None => {
            let message = String::from_str("Invalid delimiter format: '").concat(value).concat(
                "'. Expected a single character, escape sequence (\\t, \\n, \\r), or numeric value (0-255)",
            );
            Err(AppError::BadRequest { message })
        },
    }
}

// ---------------------------------------------------------------------------
// The path
// ---------------------------------------------------------------------------
/// The path of a call: its first argument, which must be positional and a
/// string literal. Each way of missing it has its own message.
pub open spec fn table_path_of(args: Option<Seq<FunctionArgView>>) -> Result<
    Seq<char>,
    AppErrorView,
> {
    match args {
        None => Err(bad_request_view("The file path is missing."@)),
        Some(a) => if a.len() == 0 {
            Err(bad_request_view("The file path is missing. 2"@))
        } else {
            match a[0] {
                FunctionArgView::Unnamed(ArgValueView::SingleQuotedString(path)) => Ok(path),
                _ => Err(bad_request_view("The file path is missing. 3"@)),
            }
        },
    }
}

/// The path that a table-function call names.
pub fn get_table_path(args: &Option<TableFunctionArgs>) -> (r: AppResult<String>)
    ensures
        agrees(r, table_path_of(args_view(*args))),
{
    match args {
        None => Err(AppError::bad_request("The file path is missing.")),
        Some(table_args) => {
            if table_args.args.len() == 0 {
                return Err(AppError::bad_request("The file path is missing. 2"));
            }
            assert(table_args@[0] == table_args.args@[0]@);
            match &table_args.args[0] {
                FunctionArg::Unnamed(ArgValue::SingleQuotedString(value)) => Ok(value.clone()),
                _ => Err(AppError::bad_request("The file path is missing. 3")),
            }
        },
    }
}

/// The path that a table-function call names. The same as
/// [`get_table_path`].
pub fn get_path(args: &Option<TableFunctionArgs>) -> (r: AppResult<String>)
    ensures
        agrees(r, table_path_of(args_view(*args))),
{
    get_table_path(args)
}

// ---------------------------------------------------------------------------
// Options of the CSV reader
// ---------------------------------------------------------------------------
/// How a delimited text file is read.
pub struct CsvReadOptions {
    /// Whether the first line names the columns.
    pub has_header: bool,
    /// The byte between two fields.
    pub delimiter: u8,
    /// How many records are sampled to infer the column types. With 0 no
    /// record is sampled, and every column is text.
    pub schema_infer_max_records: usize,
    /// Only files whose name ends so are read.
    pub file_extension: String,
}

/// [`CsvReadOptions`] with the extension as a sequence of characters.
pub struct CsvReadOptionsView {
    pub has_header: bool,
    pub delimiter: u8,
    pub schema_infer_max_records: usize,
    pub file_extension: Seq<char>,
}

impl View for CsvReadOptions {
    type V = CsvReadOptionsView;

    open spec fn view(&self) -> CsvReadOptionsView {
        CsvReadOptionsView {
            has_header: self.has_header,
            delimiter: self.delimiter,
            schema_infer_max_records: self.schema_infer_max_records,
            file_extension: self.file_extension@,
        }
    }
}

/// The options of a call that names none: a header line, commas, a sample
/// of 1000 records, files ending in `.csv`.
pub open spec fn default_csv_options() -> CsvReadOptionsView {
    CsvReadOptionsView {
        has_header: true,
        delimiter: 44u8,
        schema_infer_max_records: 1000,
        file_extension: ".csv"@,
    }
}

/// The options after one more argument. Only four names count, and each
/// only with a value of its kind: `infer_schema => false` ends sampling,
/// `has_header => false` ends the header, `delimiter` and `file_extension`
/// take a string. Everything else leaves the options as they are; a
/// delimiter that cannot be decoded is an error.
pub open spec fn csv_options_step(o: CsvReadOptionsView, arg: FunctionArgView) -> Result<
    CsvReadOptionsView,
    AppErrorView,
> {
    match arg {
        FunctionArgView::Named { name, value } => {
            if name == "infer_schema"@ {
                match value {
                    ArgValueView::Boolean(false) => Ok(
                        CsvReadOptionsView { schema_infer_max_records: 0, ..o },
                    ),
                    _ => Ok(o),
                }
            } else if name == "has_header"@ {
                match value {
                    ArgValueView::Boolean(false) => Ok(
                        CsvReadOptionsView { has_header: false, ..o },
                    ),
                    _ => Ok(o),
                }
            } else if name == "delimiter"@ {
                match value {
                    ArgValueView::SingleQuotedString(text) => match delimiter_result(text) {
                        Ok(b) => Ok(CsvReadOptionsView { delimiter: b, ..o }),
                        Err(e) => Err(e),
                    },
                    _ => Ok(o),
                }
            } else if name == "file_extension"@ {
                match value {
                    ArgValueView::SingleQuotedString(text) => Ok(
                        CsvReadOptionsView { file_extension: text, ..o },
                    ),
                    _ => Ok(o),
                }
            } else {
                Ok(o)
            }
        },
        _ => Ok(o),
    }
}

/// The options that a list of arguments decodes to, taking them in order
/// from the defaults. The first error ends the decoding.
pub open spec fn csv_options_of(args: Seq<FunctionArgView>) -> Result<
    CsvReadOptionsView,
    AppErrorView,
>
    decreases args.len(),
{
    if args.len() == 0 {
        Ok(default_csv_options())
    } else {
        match csv_options_of(args.drop_last()) {
            Ok(o) => csv_options_step(o, args.last()),
            Err(e) => Err(e),
        }
    }
}

/// The options of a call with or without an argument list.
pub open spec fn csv_read_options_of(args: Option<Seq<FunctionArgView>>) -> Result<
    CsvReadOptionsView,
    AppErrorView,
> {
    match args {
        Some(a) => csv_options_of(a),
        None => Ok(default_csv_options()),
    }
}

impl CsvReadOptions {
    /// The options of a call that names none.
    pub fn new() -> (o: CsvReadOptions)
        ensures
            o@ == default_csv_options(),
    {
        CsvReadOptions {
            has_header: true,
            delimiter: 44u8,
            schema_infer_max_records: 1000,
            file_extension: String::from_str(".csv"),
        }
    }
}

/// Decodes the arguments of a `read_csv` or `read_tsv` call.
pub fn get_csv_read_options(args: &Option<TableFunctionArgs>) -> (r: AppResult<CsvReadOptions>)
    ensures
        agrees(r, csv_read_options_of(args_view(*args))),
{
    let mut options = CsvReadOptions::new();
    let list = match get_function_args(args) {
        Some(list) => list,
        None => {
            return Ok(options);
        },
    };
    let ghost views = args_view(*args)->0;
    let mut i: usize = 0;
    while i < list.len()
        invariant
            i <= list.len(),
            views == list@.map_values(|a: FunctionArg| a@),
            args_view(*args) == Some(views),
            csv_options_of(views.take(i as int)) == Ok::<CsvReadOptionsView, AppErrorView>(
                options@,
            ),
        decreases list.len() - i,
    {
        proof {
            assert(views.take(i + 1).drop_last() =~= views.take(i as int));
            assert(views.take(i + 1).last() == list@[i as int]@);
        }
        match &list[i] {
            FunctionArg::Named { name, value } => {
                if same_text(name.as_str(), "infer_schema") {
                    match value {
                        ArgValue::Boolean(false) => {
                            options.schema_infer_max_records = 0;
                        },
                        _ => {},
                    }
                } else if same_text(name.as_str(), "has_header") {
                    match value {
                        ArgValue::Boolean(false) => {
                            options.has_header = false;
                        },
                        _ => {},
                    }
                } else if same_text(name.as_str(), "delimiter") {
                    match value {
                        ArgValue::SingleQuotedString(text) => {
                            match parse_delimiter(text.as_str()) {
                                Ok(b) => {
                                    options.delimiter = b;
                                },
                                Err(e) => {
                                    proof {
                                        let arg = views.take(i + 1).last();
                                        assert(csv_options_of(views.take(i + 1))
                                            == csv_options_step(options@, arg));
                                        assert(csv_options_step(options@, arg) == Err::<
                                            CsvReadOptionsView,
                                            AppErrorView,
                                        >(e@));
                                        lemma_csv_options_error(views, i as int + 1);
                                    }
                                    return Err(e);
                                },
                            }
                        },
                        _ => {},
                    }
                } else if same_text(name.as_str(), "file_extension") {
                    match value {
                        ArgValue::SingleQuotedString(text) => {
                            options.file_extension = text.clone();
                        },
                        _ => {},
                    }
                }
            },
            _ => {},
        }
        i += 1;
    }
    assert(views.take(i as int) =~= views);
    Ok(options)
}

/// An error in decoding a prefix of the arguments is the error of the whole
/// list.
pub proof fn lemma_csv_options_error(args: Seq<FunctionArgView>, k: int)
    requires
        0 <= k <= args.len(),
        csv_options_of(args.take(k)) is Err,
    ensures
        csv_options_of(args) == csv_options_of(args.take(k)),
    decreases args.len(),
{
    if k == args.len() {
        assert(args.take(k) =~= args);
    } else {
        assert(args.drop_last().take(k) =~= args.take(k));
        lemma_csv_options_error(args.drop_last(), k);
    }
}

// ---------------------------------------------------------------------------
// The connection string of a database call
// ---------------------------------------------------------------------------
/// The connection string after one more argument: a `conn` argument with a
/// string value replaces it, everything else leaves it.
pub open spec fn conn_step(found: Option<Seq<char>>, arg: FunctionArgView) -> Option<Seq<char>> {
    match arg {
        FunctionArgView::Named { name, value: ArgValueView::SingleQuotedString(text) } => {
            if name == "conn"@ {
                Some(text)
            } else {
                found
            }
        },
        _ => found,
    }
}

/// The connection string that a list of arguments names: that of its last
/// `conn` argument with a string value.
pub open spec fn conn_of(args: Seq<FunctionArgView>) -> Option<Seq<char>>
    decreases args.len(),
{
    if args.len() == 0 {
        None
    } else {
        conn_step(conn_of(args.drop_last()), args.last())
    }
}

/// What a `read_mysql` call connects with: its connection string, or the
/// error that asks for one.
pub open spec fn connection_of(args: Option<Seq<FunctionArgView>>) -> Result<
    Seq<char>,
    AppErrorView,
> {
    let found = match args {
        Some(a) => conn_of(a),
        None => None,
    };
    match found {
        Some(text) => Ok(text),
        None => Err(bad_request_view("'conn' parameter is required"@)),
    }
}

/// The connection string of a `read_mysql` call.
pub fn get_connection(args: &Option<TableFunctionArgs>) -> (r: AppResult<String>)
    ensures
        agrees(r, connection_of(args_view(*args))),
{
    let mut conn: Option<String> = None;
    match get_function_args(args) {
        Some(list) => {
            let ghost views = args_view(*args)->0;
            let mut i: usize = 0;
            while i < list.len()
                invariant
                    i <= list.len(),
                    views == list@.map_values(|a: FunctionArg| a@),
                    conn_of(views.take(i as int)) == match conn {
                        Some(s) => Some(s@),
                        None => None,
                    },
                decreases list.len() - i,
            {
                proof {
                    assert(views.take(i + 1).drop_last() =~= views.take(i as int));
                    assert(views.take(i + 1).last() == list@[i as int]@);
                }
                match &list[i] {
                    FunctionArg::Named { name, value: ArgValue::SingleQuotedString(text) } => {
                        if same_text(name.as_str(), "conn") {
                            conn = Some(text.clone());
                        }
                    },
                    _ => {},
                }
                i += 1;
            }
            assert(views.take(i as int) =~= views);
        },
        None => {},
    }
    match conn {
        Some(text) => Ok(text),
        None => Err(AppError::bad_request("'conn' parameter is required")),
    }
}

/// Whether an argument is `infer_schema => false`.
pub open spec fn turns_inference_off(arg: FunctionArgView) -> bool {
    arg == (FunctionArgView::Named {
        name: "infer_schema"@,
        value: ArgValueView::Boolean(false),
    })
}

/// A call with `infer_schema => false` among its arguments, wherever it
/// stands and whatever else the call says, samples no record: every column
/// is then text.
pub proof fn lemma_infer_schema_off(args: Seq<FunctionArgView>, k: int)
    requires
        0 <= k < args.len(),
        turns_inference_off(args[k]),
        csv_options_of(args) is Ok,
    ensures
        csv_options_of(args)->Ok_0.schema_infer_max_records == 0,
    decreases args.len(),
{
    let before = csv_options_of(args.drop_last());
    if k < args.len() - 1 {
        assert(args.drop_last()[k] == args[k]);
        lemma_infer_schema_off(args.drop_last(), k);
    }
}

} // verus!
