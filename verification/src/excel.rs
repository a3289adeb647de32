//! Spreadsheets as typed columns.
//!
//! A worksheet carries no column types. The reader looks at the first data
//! rows of the first sheet, fixes one type per column, and then reads every
//! sheet against that schema: a cell that does not fit its column is null.
use crate::error::{agrees, bad_request_view, AppError, AppErrorView, AppResult};
use crate::text::{decimal_digits, push_decimal, texts};
use crate::timestamp::{parse_timestamp, timestamp_of};
use vstd::prelude::*;
use vstd::string::StringExecFns;

verus! {

/// The type of a column.
#[derive(Clone, Copy, Debug, PartialEq, Eq, Structural)]
pub enum DataType {
    /// 64-bit signed integers.
    Int64,
    /// Double-precision floating-point numbers.
    Float64,
    /// Nanoseconds since 1970-01-01 00:00:00, without a time zone.
    Timestamp,
    /// Text.
    Utf8,
}

/// One cell of a worksheet, with each reading that a column may ask of it.
pub enum Cell {
    /// Nothing.
    Empty,
    /// An integer: its value, the bits of the double nearest to it, and how
    /// it is written.
    Int { value: i64, as_float: u64, text: String },
    /// A floating-point number: its bits as a double, the integer it
    /// truncates to, and how it is written.
    Float { bits: u64, as_int: i64, text: String },
    /// A date or a time: how the cell is written, and the moment it stands
    /// for as a date with a time and without a time zone.
    DateTime { text: String, date_time: String },
    /// Text.
    Text { text: String },
    /// Anything else (a boolean, an ISO date or duration, an error), as it
    /// is written.
    Other { text: String },
}

/// A [`Cell`] with its text as a sequence of characters.
pub enum CellView {
    Empty,
    Int { value: i64, as_float: u64, text: Seq<char> },
    Float { bits: u64, as_int: i64, text: Seq<char> },
    DateTime { text: Seq<char>, date_time: Seq<char> },
    Text { text: Seq<char> },
    Other { text: Seq<char> },
}

impl View for Cell {
    type V = CellView;

    open spec fn view(&self) -> CellView {
        match self {
            Cell::Empty => CellView::Empty,
            Cell::Int { value, as_float, text } => CellView::Int {
                value: *value,
                as_float: *as_float,
                text: text@,
            },
            Cell::Float { bits, as_int, text } => CellView::Float {
                bits: *bits,
                as_int: *as_int,
                text: text@,
            },
            Cell::DateTime { text, date_time } => CellView::DateTime {
                text: text@,
                date_time: date_time@,
            },
            Cell::Text { text } => CellView::Text { text: text@ },
            Cell::Other { text } => CellView::Other { text: text@ },
        }
    }
}

/// One worksheet: its header, if it has one, and all of its rows, the
/// header row first.
pub struct Sheet {
    pub headers: Option<Vec<String>>,
    pub rows: Vec<Vec<Cell>>,
}

/// A [`Sheet`] as sequences.
pub struct SheetView {
    pub headers: Option<Seq<Seq<char>>>,
    pub rows: Seq<Seq<CellView>>,
}

/// The cells of a row.
pub open spec fn row_view(row: Vec<Cell>) -> Seq<CellView> {
    row@.map_values(|c: Cell| c@)
}

/// The rows of a sheet.
pub open spec fn rows_view(rows: Seq<Vec<Cell>>) -> Seq<Seq<CellView>> {
    rows.map_values(|r: Vec<Cell>| row_view(r))
}

impl View for Sheet {
    type V = SheetView;

    open spec fn view(&self) -> SheetView {
        SheetView {
            headers: match self.headers {
                Some(h) => Some(texts(h@)),
                None => None,
            },
            rows: rows_view(self.rows@),
        }
    }
}

/// The sheets of a list of sheets.
pub open spec fn sheets_view(sheets: Seq<Sheet>) -> Seq<SheetView> {
    sheets.map_values(|s: Sheet| s@)
}

/// One column of a schema.
pub struct Field {
    pub name: String,
    pub data_type: DataType,
    pub nullable: bool,
}

/// A [`Field`] with its name as a sequence of characters.
pub struct FieldView {
    pub name: Seq<char>,
    pub data_type: DataType,
    pub nullable: bool,
}

impl View for Field {
    type V = FieldView;

    open spec fn view(&self) -> FieldView {
        FieldView { name: self.name@, data_type: self.data_type, nullable: self.nullable }
    }
}

/// The columns of a table, in order.
pub struct Schema {
    pub fields: Vec<Field>,
}

impl View for Schema {
    type V = Seq<FieldView>;

    open spec fn view(&self) -> Seq<FieldView> {
        self.fields@.map_values(|f: Field| f@)
    }
}

/// The values of one column. A floating-point value is held by its bits.
pub enum Column {
    Int64(Vec<Option<i64>>),
    Float64(Vec<Option<u64>>),
    Timestamp(Vec<Option<i64>>),
    Utf8(Vec<Option<String>>),
}

/// A [`Column`] as a sequence.
pub enum ColumnView {
    Int64(Seq<Option<i64>>),
    Float64(Seq<Option<u64>>),
    Timestamp(Seq<Option<i64>>),
    Utf8(Seq<Option<Seq<char>>>),
}

/// The text of an optional string.
pub open spec fn optional_text(o: Option<String>) -> Option<Seq<char>> {
    match o {
        Some(s) => Some(s@),
        None => None,
    }
}

impl View for Column {
    type V = ColumnView;

    open spec fn view(&self) -> ColumnView {
        match self {
            Column::Int64(v) => ColumnView::Int64(v@),
            Column::Float64(v) => ColumnView::Float64(v@),
            Column::Timestamp(v) => ColumnView::Timestamp(v@),
            Column::Utf8(v) => ColumnView::Utf8(
                v@.map_values(|o: Option<String>| optional_text(o)),
            ),
        }
    }
}

impl ColumnView {
    /// How many values the column holds.
    pub open spec fn len(self) -> nat {
        match self {
            ColumnView::Int64(v) => v.len(),
            ColumnView::Float64(v) => v.len(),
            ColumnView::Timestamp(v) => v.len(),
            ColumnView::Utf8(v) => v.len(),
        }
    }
}

/// A schema and one column of values for each of its fields.
pub struct RecordBatch {
    pub schema: Schema,
    pub columns: Vec<Column>,
}

/// A [`RecordBatch`] as sequences.
pub struct RecordBatchView {
    pub schema: Seq<FieldView>,
    pub columns: Seq<ColumnView>,
}

impl View for RecordBatch {
    type V = RecordBatchView;

    open spec fn view(&self) -> RecordBatchView {
        RecordBatchView {
            schema: self.schema@,
            columns: self.columns@.map_values(|c: Column| c@),
        }
    }
}

// ---------------------------------------------------------------------------
// Inference
// ---------------------------------------------------------------------------
/// The type that a single cell suggests for its column.
pub open spec fn cell_type(c: CellView) -> DataType {
    match c {
        CellView::Int { .. } => DataType::Int64,
        CellView::Float { .. } => DataType::Float64,
        CellView::DateTime { .. } => DataType::Timestamp,
        _ => DataType::Utf8,
    }
}

/// The type that a single cell suggests for its column.
pub fn infer_cell_data_type(cell: &Cell) -> (t: DataType)
    ensures
        t == cell_type(cell@),
{
    match cell {
        Cell::Int { .. } => DataType::Int64,
        Cell::Float { .. } => DataType::Float64,
        Cell::DateTime { .. } => DataType::Timestamp,
        _ => DataType::Utf8,
    }
}

/// The column type in which a cell keeps all that it holds. It is the type
/// that the cell suggests.
pub fn convert_arrow_data_type(cell: &Cell) -> (t: DataType)
    ensures
        t == cell_type(cell@),
{
    match cell {
        Cell::Text { .. } => DataType::Utf8,
        Cell::Float { .. } => DataType::Float64,
        Cell::Int { .. } => DataType::Int64,
        Cell::DateTime { .. } => DataType::Timestamp,
        _ => DataType::Utf8,
    }
}

/// The name of the column at position `i` (from 0) of a sheet without a
/// header: `t1`, `t2`, and so on.
pub open spec fn synthetic_name(i: nat) -> Seq<char> {
    "t"@ + decimal_digits(i + 1)
}

/// The message of the error for a source without a header.
pub open spec fn header_not_found() -> AppErrorView {
    bad_request_view("Header not found"@)
}

/// The names of the columns of a sheet: its header where it has one; else
/// one synthetic name for each cell of its first row; none for a sheet with
/// neither.
pub open spec fn column_names(sheet: SheetView) -> Option<Seq<Seq<char>>> {
    match sheet.headers {
        Some(h) => Some(h),
        None => if sheet.rows.len() > 0 {
            Some(Seq::new(sheet.rows[0].len(), |i: int| synthetic_name(i as nat)))
        } else {
            None
        },
    }
}

/// Whether the row `row` has, at position `col`, a cell that is not empty
/// and suggests the type `t`.
pub open spec fn row_suggests(row: Seq<CellView>, col: int, t: DataType) -> bool {
    0 <= col < row.len() && !(row[col] is Empty) && cell_type(row[col]) == t
}

/// Whether some row among `rows[1]`, ..., `rows[end - 1]` suggests the type
/// `t` for the column `col`. Row 0 is the header and suggests nothing.
pub open spec fn column_suggests(rows: Seq<Seq<CellView>>, col: int, t: DataType, end: int) -> bool
    decreases end,
{
    if end <= 1 || end > rows.len() {
        false
    } else {
        column_suggests(rows, col, t, end - 1) || row_suggests(rows[end - 1], col, t)
    }
}

/// Where the sample of a sheet of `len` rows ends: after the header and
/// `limit` data rows, or with the sheet.
pub open spec fn sample_end(len: nat, limit: nat) -> int {
    if len <= limit {
        len as int
    } else {
        1 + limit as int
    }
}

/// The type of the column `col`, from the first `limit` data rows: integer
/// if one sampled cell is an integer; else floating point if one is; else
/// timestamp if one is; else text.
pub open spec fn column_type(rows: Seq<Seq<CellView>>, col: int, limit: nat) -> DataType {
    let end = sample_end(rows.len(), limit);
    if column_suggests(rows, col, DataType::Int64, end) {
        DataType::Int64
    } else if column_suggests(rows, col, DataType::Float64, end) {
        DataType::Float64
    } else if column_suggests(rows, col, DataType::Timestamp, end) {
        DataType::Timestamp
    } else {
        DataType::Utf8
    }
}

/// The schema of a sheet: one nullable field for each column name, typed
/// from the first `limit` data rows.
pub open spec fn inferred_schema(sheet: SheetView, limit: nat) -> Result<
    Seq<FieldView>,
    AppErrorView,
> {
    match column_names(sheet) {
        Some(names) => Ok(
            Seq::new(
                names.len(),
                |i: int|
                    FieldView {
                        name: names[i],
                        data_type: column_type(sheet.rows, i, limit),
                        nullable: true,
                    },
            ),
        ),
        None => Err(header_not_found()),
    }
}

/// The names of the columns of a sheet.
fn read_column_names(sheet: &Sheet) -> (r: Option<Vec<String>>)
    ensures
        match r {
            Some(names) => column_names(sheet@) == Some(texts(names@)),
            None => column_names(sheet@) is None,
        },
{
    match &sheet.headers {
        Some(h) => {
            let mut names: Vec<String> = Vec::new();
            let mut i: usize = 0;
            while i < h.len()
                invariant
                    i <= h.len(),
                    names@.len() == i,
                    forall|k: int| 0 <= k < i ==> names@[k]@ == h@[k]@,
                decreases h.len() - i,
            {
                names.push(h[i].clone());
                i += 1;
            }
            assert(texts(names@) =~= texts(h@));
            Some(names)
        },
        None => {
            if sheet.rows.len() == 0 {
                return None;
            }
            let width = sheet.rows[0].len();
            assert(sheet@.rows[0].len() == width);
            let mut names: Vec<String> = Vec::new();
            let mut i: usize = 0;
            while i < width
                invariant
                    i <= width,
                    names@.len() == i,
                    forall|k: int| 0 <= k < i ==> names@[k]@ == synthetic_name(k as nat),
                decreases width - i,
            {
                let mut name = String::from_str("t");
                push_decimal(&mut name, i as u128 + 1);
                names.push(name);
                i += 1;
            }
            assert(texts(names@) =~= Seq::new(
                width as nat,
                |k: int| synthetic_name(k as nat),
            ));
            Some(names)
        },
    }
}

/// The type of one column of a sheet, from the first `limit` data rows.
fn infer_column_type(rows: &Vec<Vec<Cell>>, col: usize, limit: usize) -> (t: DataType)
    ensures
        t == column_type(rows_view(rows@), col as int, limit as nat),
{
    let end: usize = if rows.len() <= limit {
        rows.len()
    } else {
        limit + 1
    };
    let ghost views = rows_view(rows@);
    assert(end == sample_end(views.len(), limit as nat));
    if end <= 1 {
        return DataType::Utf8;
    }
    let mut has_int = false;
    let mut has_float = false;
    let mut has_timestamp = false;
    let mut r: usize = 1;
    while r < end
        invariant
            1 <= r <= end <= rows.len(),
            views == rows_view(rows@),
            has_int == column_suggests(views, col as int, DataType::Int64, r as int),
            has_float == column_suggests(views, col as int, DataType::Float64, r as int),
            has_timestamp == column_suggests(views, col as int, DataType::Timestamp, r as int),
        decreases end - r,
    {
        let row = &rows[r];
        assert(views[r as int] == row_view(*row));
        if col < row.len() {
            assert(views[r as int][col as int] == row@[col as int]@);
            match &row[col] {
                Cell::Int { .. } => {
                    has_int = true;
                },
                Cell::Float { .. } => {
                    has_float = true;
                },
                Cell::DateTime { .. } => {
                    has_timestamp = true;
                },
                _ => {},
            }
        }
        r += 1;
    }
    if has_int {
        DataType::Int64
    } else if has_float {
        DataType::Float64
    } else if has_timestamp {
        DataType::Timestamp
    } else {
        DataType::Utf8
    }
}

/// Infers the schema of a sheet from its header and its first
/// `infer_schema_length` data rows.
pub fn infer_field_schema(sheet: &Sheet, infer_schema_length: usize) -> (r: AppResult<Schema>)
    ensures
        agrees(r, inferred_schema(sheet@, infer_schema_length as nat)),
{
    let names = match read_column_names(sheet) {
        Some(names) => names,
        None => {
            return Err(AppError::bad_request("Header not found"));
        },
    };
    let ghost expected = inferred_schema(sheet@, infer_schema_length as nat)->Ok_0;
    let mut fields: Vec<Field> = Vec::new();
    let mut i: usize = 0;
    while i < names.len()
        invariant
            i <= names.len(),
            fields@.len() == i,
            column_names(sheet@) == Some(texts(names@)),
            expected == inferred_schema(sheet@, infer_schema_length as nat)->Ok_0,
            forall|k: int| 0 <= k < i ==> fields@[k]@ == expected[k],
        decreases names.len() - i,
    {
        let data_type = infer_column_type(&sheet.rows, i, infer_schema_length);
        fields.push(Field { name: names[i].clone(), data_type, nullable: true });
        i += 1;
    }
    let schema = Schema { fields };
    assert(schema@ =~= expected);
    Ok(schema)
}

// ---------------------------------------------------------------------------
// Reading against the schema
// ---------------------------------------------------------------------------
/// What an integer column reads from a cell: an integer itself, a
/// floating-point number truncated, nothing from any other cell.
pub open spec fn int_reading(c: CellView) -> Option<i64> {
    match c {
        CellView::Int { value, .. } => Some(value),
        CellView::Float { as_int, .. } => Some(as_int),
        _ => None,
    }
}

/// What a floating-point column reads from a cell, as bits: a
/// floating-point number itself, an integer as the double nearest to it,
/// nothing from any other cell.
pub open spec fn float_reading(c: CellView) -> Option<u64> {
    match c {
        CellView::Float { bits, .. } => Some(bits),
        CellView::Int { as_float, .. } => Some(as_float),
        _ => None,
    }
}

/// What a timestamp column reads from a cell: the timestamp that the date
/// and time of a date or time cell stand for, nothing from any other cell.
pub open spec fn timestamp_reading(c: CellView) -> Option<i64> {
    match c {
        CellView::DateTime { date_time, .. } => timestamp_of(date_time),
        _ => None,
    }
}

/// What a text column reads from a cell: nothing from an empty cell, and
/// from any other cell how it is written.
pub open spec fn text_reading(c: CellView) -> Option<Seq<char>> {
    match c {
        CellView::Empty => None,
        CellView::Int { text, .. } => Some(text),
        CellView::Float { text, .. } => Some(text),
        CellView::DateTime { text, .. } => Some(text),
        CellView::Text { text } => Some(text),
        CellView::Other { text } => Some(text),
    }
}

/// The cells at position `col` of the data rows of a sheet, top down. Row 0
/// is the header and holds no data; a row too short to have the position
/// gives no cell.
pub open spec fn data_cells(rows: Seq<Seq<CellView>>, col: int) -> Seq<CellView>
    decreases rows.len(),
{
    if rows.len() <= 1 {
        Seq::empty()
    } else {
        let above = data_cells(rows.drop_last(), col);
        if 0 <= col < rows.last().len() {
            above.push(rows.last()[col])
        } else {
            above
        }
    }
}

/// The cells at position `col` of the data rows of all the sheets, sheet
/// after sheet.
pub open spec fn column_cells(sheets: Seq<SheetView>, col: int) -> Seq<CellView>
    decreases sheets.len(),
{
    if sheets.len() == 0 {
        Seq::empty()
    } else {
        column_cells(sheets.drop_last(), col) + data_cells(sheets.last().rows, col)
    }
}

/// The column of type `t` that a run of cells reads as.
pub open spec fn column_of(t: DataType, cells: Seq<CellView>) -> ColumnView {
    match t {
        DataType::Int64 => ColumnView::Int64(cells.map_values(|c: CellView| int_reading(c))),
        DataType::Float64 => ColumnView::Float64(cells.map_values(|c: CellView| float_reading(c))),
        DataType::Timestamp => ColumnView::Timestamp(
            cells.map_values(|c: CellView| timestamp_reading(c)),
        ),
        DataType::Utf8 => ColumnView::Utf8(cells.map_values(|c: CellView| text_reading(c))),
    }
}

/// The batch that a list of sheets reads as: the schema of the first sheet,
/// and for each of its fields the cells of that position in all the sheets,
/// read as the type of the field. Without a sheet there is no header.
pub open spec fn batch_of(sheets: Seq<SheetView>, limit: nat) -> Result<
    RecordBatchView,
    AppErrorView,
> {
    if sheets.len() == 0 {
        Err(header_not_found())
    } else {
        match inferred_schema(sheets[0], limit) {
            Ok(schema) => Ok(
                RecordBatchView {
                    schema,
                    columns: Seq::new(
                        schema.len(),
                        |j: int| column_of(schema[j].data_type, column_cells(sheets, j)),
                    ),
                },
            ),
            Err(e) => Err(e),
        }
    }
}

/// What an integer column reads from a cell.
pub fn read_int(cell: &Cell) -> (r: Option<i64>)
    ensures
        r == int_reading(cell@),
{
    match cell {
        Cell::Int { value, .. } => Some(*value),
        Cell::Float { as_int, .. } => Some(*as_int),
        _ => None,
    }
}

/// What a floating-point column reads from a cell, as bits.
pub fn read_float(cell: &Cell) -> (r: Option<u64>)
    ensures
        r == float_reading(cell@),
{
    match cell {
        Cell::Float { bits, .. } => Some(*bits),
        Cell::Int { as_float, .. } => Some(*as_float),
        _ => None,
    }
}

/// What a timestamp column reads from a cell.
pub fn read_timestamp(cell: &Cell) -> (r: Option<i64>)
    ensures
        r == timestamp_reading(cell@),
{
    match cell {
        Cell::DateTime { date_time, .. } => parse_timestamp(date_time.as_str()),
        _ => None,
    }
}

/// What a text column reads from a cell.
pub fn read_text(cell: &Cell) -> (r: Option<String>)
    ensures
        optional_text(r) == text_reading(cell@),
{
    match cell {
        Cell::Empty => None,
        Cell::Int { text, .. } => Some(text.clone()),
        Cell::Float { text, .. } => Some(text.clone()),
        Cell::DateTime { text, .. } => Some(text.clone()),
        Cell::Text { text } => Some(text.clone()),
        Cell::Other { text } => Some(text.clone()),
    }
}

/// The cells at position `col` of the data rows of all the sheets.
fn collect_cells<'a>(sheets: &'a Vec<Sheet>, col: usize) -> (cells: Vec<&'a Cell>)
    ensures
        cells@.map_values(|c: &Cell| c@) == column_cells(sheets_view(sheets@), col as int),
{
    let ghost views = sheets_view(sheets@);
    let mut cells: Vec<&Cell> = Vec::new();
    let mut s: usize = 0;
    while s < sheets.len()
        invariant
            s <= sheets.len(),
            views == sheets_view(sheets@),
            cells@.map_values(|c: &Cell| c@) == column_cells(views.take(s as int), col as int),
        decreases sheets.len() - s,
    {
        let rows = &sheets[s].rows;
        let ghost row_views = rows_view(rows@);
        let ghost before = cells@.map_values(|c: &Cell| c@);
        assert(views[s as int].rows == row_views);
        if rows.len() > 1 {
            assert(before + data_cells(row_views.take(1), col as int) =~= before);
            let mut r: usize = 1;
            while r < rows.len()
                invariant
                    1 <= r <= rows.len(),
                    row_views == rows_view(rows@),
                    cells@.map_values(|c: &Cell| c@) == before + data_cells(
                        row_views.take(r as int),
                        col as int,
                    ),
                decreases rows.len() - r,
            {
                let row = &rows[r];
                proof {
                    assert(row_views.take(r + 1).drop_last() =~= row_views.take(r as int));
                    assert(row_views.take(r + 1).last() == row_view(*row));
                }
                if col < row.len() {
                    let ghost old_cells = cells@;
                    cells.push(&row[col]);
                    proof {
                        assert(row_view(*row)[col as int] == row@[col as int]@);
                        assert(cells@.map_values(|c: &Cell| c@) =~= old_cells.map_values(
                            |c: &Cell| c@,
                        ).push(row@[col as int]@));
                        assert(before + data_cells(row_views.take(r + 1), col as int) =~= (before
                            + data_cells(row_views.take(r as int), col as int)).push(
                            row@[col as int]@,
                        ));
                    }
                }
                r += 1;
            }
            assert(row_views.take(r as int) =~= row_views);
        } else {
            assert(before + data_cells(row_views, col as int) =~= before);
        }
        proof {
            assert(views.take(s + 1).drop_last() =~= views.take(s as int));
            assert(views.take(s + 1).last() == views[s as int]);
        }
        s += 1;
    }
    assert(views.take(s as int) =~= views);
    cells
}

/// Reads a run of cells as a column of type `t`.
fn read_column(t: DataType, cells: &Vec<&Cell>) -> (column: Column)
    ensures
        column@ == column_of(t, cells@.map_values(|c: &Cell| c@)),
{
    let ghost views = cells@.map_values(|c: &Cell| c@);
    match t {
        DataType::Int64 => {
            let mut out: Vec<Option<i64>> = Vec::new();
            let mut i: usize = 0;
            while i < cells.len()
                invariant
                    i <= cells.len(),
                    out@.len() == i,
                    views == cells@.map_values(|c: &Cell| c@),
                    forall|k: int| 0 <= k < i ==> out@[k] == int_reading(views[k]),
                decreases cells.len() - i,
            {
                out.push(read_int(cells[i]));
                i += 1;
            }
            assert(out@ =~= views.map_values(|c: CellView| int_reading(c)));
            Column::Int64(out)
        },
        DataType::Float64 => {
            let mut out: Vec<Option<u64>> = Vec::new();
            let mut i: usize = 0;
            while i < cells.len()
                invariant
                    i <= cells.len(),
                    out@.len() == i,
                    views == cells@.map_values(|c: &Cell| c@),
                    forall|k: int| 0 <= k < i ==> out@[k] == float_reading(views[k]),
                decreases cells.len() - i,
            {
                out.push(read_float(cells[i]));
                i += 1;
            }
            assert(out@ =~= views.map_values(|c: CellView| float_reading(c)));
            Column::Float64(out)
        },
        DataType::Timestamp => {
            let mut out: Vec<Option<i64>> = Vec::new();
            let mut i: usize = 0;
            while i < cells.len()
                invariant
                    i <= cells.len(),
                    out@.len() == i,
                    views == cells@.map_values(|c: &Cell| c@),
                    forall|k: int| 0 <= k < i ==> out@[k] == timestamp_reading(views[k]),
                decreases cells.len() - i,
            {
                out.push(read_timestamp(cells[i]));
                i += 1;
            }
            assert(out@ =~= views.map_values(|c: CellView| timestamp_reading(c)));
            Column::Timestamp(out)
        },
        DataType::Utf8 => {
            let mut out: Vec<Option<String>> = Vec::new();
            let mut i: usize = 0;
            while i < cells.len()
                invariant
                    i <= cells.len(),
                    out@.len() == i,
                    views == cells@.map_values(|c: &Cell| c@),
                    forall|k: int| 0 <= k < i ==> optional_text(out@[k]) == text_reading(views[k]),
                decreases cells.len() - i,
            {
                out.push(read_text(cells[i]));
                i += 1;
            }
            assert(out@.map_values(|o: Option<String>| optional_text(o)) =~= views.map_values(
                |c: CellView| text_reading(c),
            ));
            Column::Utf8(out)
        },
    }
}

// ---------------------------------------------------------------------------
// The reader
// ---------------------------------------------------------------------------
/// Options for reading a workbook. There are none yet.
pub struct ExcelReadOptions {}

/// Options for parsing a worksheet. There are none yet.
pub struct ExcelParseOptions {}

impl Default for ExcelParseOptions {
    fn default() -> (r: Self)
        ensures
            r == (ExcelParseOptions {  }),
    {
        ExcelParseOptions {  }
    }
}

/// Reads the sheet of one name from every workbook that a path pattern
/// matches, as one batch.
pub struct ExcelReader {
    /// The path, or glob pattern, of the workbooks.
    pub path: String,
    /// The name of the sheet to read in each workbook.
    pub sheet_name: String,
    /// How many data rows of the first sheet the column types are inferred
    /// from. With 0 every column is text.
    pub infer_schema_length: usize,
    /// Whether text that looks like a date is read as one. Not used.
    pub try_parse_dates: bool,
}

/// An [`ExcelReader`] with its texts as sequences of characters.
pub struct ExcelReaderView {
    pub path: Seq<char>,
    pub sheet_name: Seq<char>,
    pub infer_schema_length: usize,
    pub try_parse_dates: bool,
}

impl View for ExcelReader {
    type V = ExcelReaderView;

    open spec fn view(&self) -> ExcelReaderView {
        ExcelReaderView {
            path: self.path@,
            sheet_name: self.sheet_name@,
            infer_schema_length: self.infer_schema_length,
            try_parse_dates: self.try_parse_dates,
        }
    }
}

/// The reader for `path` before any option is set: the sheet `Sheet1`, and
/// types inferred from 100 rows.
pub open spec fn default_reader(path: Seq<char>) -> ExcelReaderView {
    ExcelReaderView {
        path,
        sheet_name: "Sheet1"@,
        infer_schema_length: 100,
        try_parse_dates: false,
    }
}

impl ExcelReader {
    /// A reader for the workbooks that `path` matches.
    pub fn new(path: String) -> (reader: Self)
        ensures
            reader@ == default_reader(path@),
    {
        ExcelReader {
            path,
            sheet_name: String::from_str("Sheet1"),
            infer_schema_length: 100,
            try_parse_dates: false,
        }
    }

    /// The same reader for the sheet `sheet_name`.
    pub fn with_sheet_name(self, sheet_name: String) -> (reader: Self)
        ensures
            reader@ == (ExcelReaderView { sheet_name: sheet_name@, ..self@ }),
    {
        let mut reader = self;
        reader.sheet_name = sheet_name;
        reader
    }

    /// The same reader inferring from `infer_schema_length` rows.
    pub fn with_infer_schema_length(self, infer_schema_length: usize) -> (reader: Self)
        ensures
            reader@ == (ExcelReaderView { infer_schema_length, ..self@ }),
    {
        let mut reader = self;
        reader.infer_schema_length = infer_schema_length;
        reader
    }

    /// Reads `sheets`, the sheet of this reader's name from each workbook in
    /// listing order, as one batch.
    pub fn finish(self, sheets: &Vec<Sheet>) -> (r: AppResult<RecordBatch>)
        ensures
            agrees(r, batch_of(sheets_view(sheets@), self.infer_schema_length as nat)),
    {
        if sheets.len() == 0 {
            return Err(AppError::bad_request("Header not found"));
        }
        let ghost views = sheets_view(sheets@);
        assert(views[0] == sheets@[0]@);
        let schema = match infer_field_schema(&sheets[0], self.infer_schema_length) {
            Ok(schema) => schema,
            Err(e) => {
                return Err(e);
            },
        };
        let ghost expected = batch_of(views, self.infer_schema_length as nat)->Ok_0;
        let mut columns: Vec<Column> = Vec::new();
        let mut j: usize = 0;
        while j < schema.fields.len()
            invariant
                j <= schema.fields.len(),
                columns@.len() == j,
                views == sheets_view(sheets@),
                expected.schema == schema@,
                expected.columns.len() == schema@.len(),
                forall|k: int|
                    0 <= k < schema@.len() ==> #[trigger] expected.columns[k] == column_of(
                        schema@[k].data_type,
                        column_cells(views, k),
                    ),
                forall|k: int| 0 <= k < j ==> #[trigger] columns@[k]@ == expected.columns[k],
            decreases schema.fields.len() - j,
        {
            let cells = collect_cells(sheets, j);
            assert(schema@[j as int] == schema.fields@[j as int]@);
            let column = read_column(schema.fields[j].data_type, &cells);
            columns.push(column);
            j += 1;
        }
        let batch = RecordBatch { schema, columns };
        assert(batch@.columns =~= expected.columns);
        Ok(batch)
    }
}

// ---------------------------------------------------------------------------
// What holds of every schema and every batch
// ---------------------------------------------------------------------------
/// A type is suggested for a column up to a row exactly if some data row
/// before it suggests it.
pub proof fn lemma_column_suggests(rows: Seq<Seq<CellView>>, col: int, t: DataType, end: int)
    requires
        end <= rows.len(),
    ensures
        column_suggests(rows, col, t, end) <==> exists|r: int|
            1 <= r < end && row_suggests(#[trigger] rows[r], col, t),
    decreases end,
{
    if end > 1 {
        lemma_column_suggests(rows, col, t, end - 1);
        if column_suggests(rows, col, t, end) {
            if row_suggests(rows[end - 1], col, t) {
                assert(1 <= end - 1 < end && row_suggests(rows[end - 1], col, t));
            } else {
                let r = choose|r: int| 1 <= r < end - 1 && row_suggests(#[trigger] rows[r], col, t);
                assert(1 <= r < end && row_suggests(rows[r], col, t));
            }
        }
    }
}

/// Without a sample every column is text.
pub proof fn lemma_no_sample_is_text(sheet: SheetView)
    requires
        inferred_schema(sheet, 0) is Ok,
    ensures
        forall|i: int|
            0 <= i < inferred_schema(sheet, 0)->Ok_0.len() ==> (#[trigger] inferred_schema(
                sheet,
                0,
            )->Ok_0[i]).data_type == DataType::Utf8,
{
}

/// A column whose sampled cells are integers, as far as they are not
/// empty, and that has such a cell, is an integer column.
pub proof fn lemma_integer_column(rows: Seq<Seq<CellView>>, col: int, limit: nat, r: int)
    requires
        1 <= r < sample_end(rows.len(), limit),
        row_suggests(rows[r], col, DataType::Int64),
    ensures
        column_type(rows, col, limit) == DataType::Int64,
{
    lemma_column_suggests(rows, col, DataType::Int64, sample_end(rows.len(), limit));
}

/// A column with no sampled cell but text or empty ones is a text column.
pub proof fn lemma_text_column(rows: Seq<Seq<CellView>>, col: int, limit: nat)
    requires
        forall|r: int|
            1 <= r < sample_end(rows.len(), limit) && 0 <= col < (#[trigger] rows[r]).len()
                ==> cell_type(rows[r][col]) == DataType::Utf8,
    ensures
        column_type(rows, col, limit) == DataType::Utf8,
{
    let end = sample_end(rows.len(), limit);
    lemma_column_suggests(rows, col, DataType::Int64, end);
    lemma_column_suggests(rows, col, DataType::Float64, end);
    lemma_column_suggests(rows, col, DataType::Timestamp, end);
}

/// Once the schema is fixed, a cell that does not fit its column is null:
/// text, like everything that is no number, in an integer or a
/// floating-point column, and everything that is no date or time in a
/// timestamp column.
pub proof fn lemma_misfit_is_null(c: CellView)
    ensures
        !(c is Int) && !(c is Float) ==> int_reading(c) is None && float_reading(c) is None,
        !(c is DateTime) ==> timestamp_reading(c) is None,
{
}

/// Every batch has one column for each field of its schema, of the type
/// of the field, with one value for each cell at its position.
pub proof fn lemma_batch_shape(sheets: Seq<SheetView>, limit: nat, j: int)
    requires
        batch_of(sheets, limit) is Ok,
        0 <= j < batch_of(sheets, limit)->Ok_0.schema.len(),
    ensures
        ({
            let batch = batch_of(sheets, limit)->Ok_0;
            &&& batch.columns.len() == batch.schema.len()
            &&& batch.columns[j].len() == column_cells(sheets, j).len()
            &&& match batch.schema[j].data_type {
                DataType::Int64 => batch.columns[j] is Int64,
                DataType::Float64 => batch.columns[j] is Float64,
                DataType::Timestamp => batch.columns[j] is Timestamp,
                DataType::Utf8 => batch.columns[j] is Utf8,
            }
        }),
{
}

} // verus!
