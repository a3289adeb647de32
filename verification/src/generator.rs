//! A result set written out as `INSERT` or `UPDATE` statements.
//!
//! The statements are text for another program to run; nothing here
//! executes them.
use crate::error::{agrees, bad_request_view, AppError, AppErrorView, AppResult};
use crate::text::{
    double_quotes, float_literal_test, i64_of, is_float_literal, join, lemma_undouble_doubled,
    literal_content, parse_i64, push_doubling_quotes, quoted_literal, same_text, table_texts,
    texts,
};
use vstd::prelude::*;
use vstd::string::StringExecFns;

verus! {

/// Which convention quotes an identifier.
#[derive(Clone, Copy, Debug, PartialEq, Eq, Structural)]
pub enum Dialect {
    /// Backticks.
    MySQL,
    /// Double quotes.
    PostgreSQL,
}

/// The rows of a query result as text, under the names of their columns.
/// Every row has one cell for each column. A null is the text `NULL`.
pub struct ResultSet {
    header: Vec<String>,
    rows: Vec<Vec<String>>,
}

/// A [`ResultSet`] as sequences.
pub struct ResultSetView {
    pub header: Seq<Seq<char>>,
    pub rows: Seq<Seq<Seq<char>>>,
}

/// Whether every row has one cell for each column of the header.
pub open spec fn aligned(header: Seq<Seq<char>>, rows: Seq<Seq<Seq<char>>>) -> bool {
    forall|i: int| 0 <= i < rows.len() ==> (#[trigger] rows[i]).len() == header.len()
}

impl View for ResultSet {
    type V = ResultSetView;

    closed spec fn view(&self) -> ResultSetView {
        ResultSetView { header: texts(self.header@), rows: table_texts(self.rows@) }
    }
}

impl ResultSet {
    #[verifier::type_invariant]
    spec fn well_formed(self) -> bool {
        aligned(texts(self.header@), table_texts(self.rows@))
    }

    /// The result set of the given columns and rows, if every row has one
    /// cell for each column.
    pub fn new(header: Vec<String>, rows: Vec<Vec<String>>) -> (r: Option<ResultSet>)
        ensures
            r is Some <==> aligned(texts(header@), table_texts(rows@)),
            r matches Some(set) ==> set@ == (ResultSetView {
                header: texts(header@),
                rows: table_texts(rows@),
            }),
    {
        let mut i: usize = 0;
        while i < rows.len()
            invariant
                i <= rows.len(),
                forall|k: int| 0 <= k < i ==> (#[trigger] rows@[k]).len() == header.len(),
            decreases rows.len() - i,
        {
            if rows[i].len() != header.len() {
                assert(table_texts(rows@)[i as int].len() != texts(header@).len());
                return None;
            }
            i += 1;
        }
        assert(aligned(texts(header@), table_texts(rows@))) by {
            assert forall|k: int| 0 <= k < table_texts(rows@).len() implies (
            #[trigger] table_texts(rows@)[k]).len() == texts(header@).len() by {
                assert(rows@[k].len() == header.len());
            }
        }
        Some(ResultSet { header, rows })
    }

    /// The names of the columns.
    pub fn header(&self) -> (h: &Vec<String>)
        ensures
            texts(h@) == self@.header,
    {
        &self.header
    }

    /// The rows.
    pub fn rows(&self) -> (r: &Vec<Vec<String>>)
        ensures
            table_texts(r@) == self@.rows,
            aligned(self@.header, self@.rows),
    {
        proof {
            use_type_invariant(self);
        }
        &self.rows
    }
}

// ---------------------------------------------------------------------------
// Values
// ---------------------------------------------------------------------------
/// `value` as SQL text when it is not a number: the null marker `NULL` as
/// it is, everything else as a string literal.
pub open spec fn formatted_value(value: Seq<char>) -> Seq<char> {
    if value == "NULL"@ {
        value
    } else {
        quoted_literal(value)
    }
}

/// Whether a cell is written without quotes: a 64-bit integer, a
/// floating-point number, or one of the words `true` and `false`.
pub open spec fn is_unquoted(cell: Seq<char>) -> bool {
    i64_of(cell) is Some || is_float_literal(cell) || cell == "true"@ || cell == "false"@
}

/// A cell as SQL text: `NULL`, numbers and booleans as they are, everything
/// else as a string literal.
pub open spec fn sql_value(cell: Seq<char>) -> Seq<char> {
    if is_unquoted(cell) {
        cell
    } else {
        formatted_value(cell)
    }
}

/// One row as SQL text, cell by cell.
pub open spec fn sql_row(row: Seq<Seq<char>>) -> Seq<Seq<char>> {
    row.map_values(|c: Seq<char>| sql_value(c))
}

/// All rows as SQL text.
pub open spec fn sql_rows(rows: Seq<Seq<Seq<char>>>) -> Seq<Seq<Seq<char>>> {
    rows.map_values(|r: Seq<Seq<char>>| sql_row(r))
}

/// Writes `value` as SQL text when it is not a number.
pub fn format_value_for_sql(value: &str) -> (r: String)
    ensures
        r@ == formatted_value(value@),
{
    if same_text(value, "NULL") {
        String::from_str("NULL")
    } else {
        let mut out = String::from_str("'");
        push_doubling_quotes(&mut out, value);
        out.append("'");
        proof {
            reveal_strlit("'");
            assert(out@ =~= quoted_literal(value@));
        }
        out
    }
}

/// Writes one cell as SQL text.
pub fn sql_value_of(cell: &str) -> (r: String)
    ensures
        r@ == sql_value(cell@),
{
    if same_text(cell, "NULL") {
        String::from_str("NULL")
    } else if parse_i64(cell).is_some() || float_literal_test(cell) || same_text(cell, "true")
        || same_text(cell, "false") {
        String::from_str(cell)
    } else {
        format_value_for_sql(cell)
    }
}

/// Writes every cell of every row as SQL text.
pub fn extract_rows_from_batches(rows: &Vec<Vec<String>>) -> (r: Vec<Vec<String>>)
    ensures
        table_texts(r@) == sql_rows(table_texts(rows@)),
{
    let mut out: Vec<Vec<String>> = Vec::new();
    let mut i: usize = 0;
    while i < rows.len()
        invariant
            i <= rows.len(),
            out@.len() == i,
            forall|k: int| 0 <= k < i ==> texts(#[trigger] out@[k]@) == sql_row(texts(rows@[k]@)),
        decreases rows.len() - i,
    {
        let row = &rows[i];
        let mut cells: Vec<String> = Vec::with_capacity(row.len());
        let mut j: usize = 0;
        while j < row.len()
            invariant
                j <= row.len(),
                cells@.len() == j,
                forall|k: int| 0 <= k < j ==> (#[trigger] cells@[k])@ == sql_value(row@[k]@),
            decreases row.len() - j,
        {
            cells.push(sql_value_of(row[j].as_str()));
            j += 1;
        }
        assert(texts(cells@) =~= sql_row(texts(row@)));
        out.push(cells);
        i += 1;
    }
    assert(table_texts(out@) =~= sql_rows(table_texts(rows@)));
    out
}

// ---------------------------------------------------------------------------
// Identifiers
// ---------------------------------------------------------------------------
/// The mark that a dialect puts on both sides of an identifier.
pub open spec fn quote_mark(dialect: Dialect) -> Seq<char> {
    match dialect {
        Dialect::MySQL => "`"@,
        Dialect::PostgreSQL => "\""@,
    }
}

/// An identifier between the quote marks of the dialect.
pub open spec fn quoted_identifier(dialect: Dialect, name: Seq<char>) -> Seq<char> {
    quote_mark(dialect) + name + quote_mark(dialect)
}

/// The quoted names of the columns, separated by a comma and a space.
pub open spec fn column_list(dialect: Dialect, header: Seq<Seq<char>>) -> Seq<char> {
    join(header.map_values(|h: Seq<char>| quoted_identifier(dialect, h)), ", "@)
}

/// The mark that a dialect puts on both sides of an identifier.
fn quote_mark_of(dialect: &Dialect) -> (mark: &'static str)
    ensures
        mark@ == quote_mark(*dialect),
{
    match dialect {
        Dialect::MySQL => "`",
        Dialect::PostgreSQL => "\"",
    }
}

/// Appends an identifier between the quote marks of the dialect.
fn push_quoted_identifier(out: &mut String, dialect: &Dialect, name: &str)
    ensures
        final(out)@ == old(out)@ + quoted_identifier(*dialect, name@),
{
    let mark = quote_mark_of(dialect);
    out.append(mark);
    out.append(name);
    out.append(mark);
    assert(final(out)@ =~= old(out)@ + quoted_identifier(*dialect, name@));
}

/// Appends the parts with `sep` between each two.
fn push_joined(out: &mut String, parts: &Vec<String>, sep: &str)
    ensures
        final(out)@ == old(out)@ + join(texts(parts@), sep@),
{
    let ghost views = texts(parts@);
    let mut i: usize = 0;
    while i < parts.len()
        invariant
            i <= parts.len(),
            views == texts(parts@),
            out@ == old(out)@ + join(views.take(i as int), sep@),
        decreases parts.len() - i,
    {
        proof {
            assert(views.take(i + 1).drop_last() =~= views.take(i as int));
            assert(views.take(i + 1).last() == parts@[i as int]@);
        }
        if i > 0 {
            out.append(sep);
        }
        out.append(parts[i].as_str());
        assert(out@ =~= old(out)@ + join(views.take(i + 1), sep@));
        i += 1;
    }
    assert(views.take(i as int) =~= views);
}

// ---------------------------------------------------------------------------
// INSERT
// ---------------------------------------------------------------------------
/// The first line of an `INSERT` statement.
pub open spec fn insert_head(dialect: Dialect, table: Seq<char>, header: Seq<Seq<char>>) -> Seq<
    char,
> {
    "INSERT INTO "@ + quoted_identifier(dialect, table) + " ("@ + column_list(dialect, header)
        + ") VALUES\n"@
}

/// One row of values between parentheses.
pub open spec fn row_tuple(row: Seq<Seq<char>>) -> Seq<char> {
    "("@ + join(sql_row(row), ", "@) + ")"@
}

/// The rows of one statement, each on its own line.
pub open spec fn value_lines(chunk: Seq<Seq<Seq<char>>>) -> Seq<char> {
    join(chunk.map_values(|r: Seq<Seq<char>>| row_tuple(r)), ",\n"@)
}

/// One `INSERT` statement for the rows of `chunk`.
pub open spec fn insert_statement(
    dialect: Dialect,
    table: Seq<char>,
    header: Seq<Seq<char>>,
    chunk: Seq<Seq<Seq<char>>>,
) -> Seq<char> {
    insert_head(dialect, table, header) + value_lines(chunk) + ";"@
}

/// One `INSERT` statement for each run of `size` rows, and one for the
/// rows left over; a blank line between each two statements.
pub open spec fn insert_statements(
    dialect: Dialect,
    table: Seq<char>,
    header: Seq<Seq<char>>,
    rows: Seq<Seq<Seq<char>>>,
    size: int,
) -> Seq<char>
    decreases rows.len(),
{
    if rows.len() == 0 || size <= 0 {
        Seq::empty()
    } else if rows.len() <= size {
        insert_statement(dialect, table, header, rows)
    } else {
        insert_statement(dialect, table, header, rows.take(size)) + "\n\n"@ + insert_statements(
            dialect,
            table,
            header,
            rows.skip(size),
            size,
        )
    }
}

/// The number of rows in one statement: the maximum asked for, and at
/// least one.
pub open spec fn chunk_limit(max_values_per_insert: usize) -> int {
    if max_values_per_insert == 0 {
        1
    } else {
        max_values_per_insert as int
    }
}

/// The `INSERT` statements for a result set. A result without columns gives
/// no text.
pub open spec fn inserts_text(
    dialect: Dialect,
    table: Seq<char>,
    result: ResultSetView,
    max_values_per_insert: usize,
) -> Seq<char> {
    if result.header.len() == 0 {
        Seq::empty()
    } else {
        insert_statements(
            dialect,
            table,
            result.header,
            result.rows,
            chunk_limit(max_values_per_insert),
        )
    }
}

/// Appends the quoted names of the columns.
fn push_column_list(out: &mut String, dialect: &Dialect, header: &Vec<String>)
    ensures
        final(out)@ == old(out)@ + column_list(*dialect, texts(header@)),
{
    let ghost names = texts(header@).map_values(|h: Seq<char>| quoted_identifier(*dialect, h));
    let mut i: usize = 0;
    while i < header.len()
        invariant
            i <= header.len(),
            names == texts(header@).map_values(|h: Seq<char>| quoted_identifier(*dialect, h)),
            out@ == old(out)@ + join(names.take(i as int), ", "@),
        decreases header.len() - i,
    {
        proof {
            assert(names.take(i + 1).drop_last() =~= names.take(i as int));
            assert(names.take(i + 1).last() == quoted_identifier(*dialect, header@[i as int]@));
        }
        if i > 0 {
            out.append(", ");
        }
        push_quoted_identifier(out, dialect, header[i].as_str());
        assert(out@ =~= old(out)@ + join(names.take(i + 1), ", "@));
        i += 1;
    }
    assert(names.take(i as int) =~= names);
}

/// Appends one row of values between parentheses.
fn push_row_tuple(out: &mut String, row: &Vec<String>)
    ensures
        final(out)@ == old(out)@ + row_tuple(texts(row@)),
{
    let ghost values = sql_row(texts(row@));
    out.append("(");
    let mut i: usize = 0;
    while i < row.len()
        invariant
            i <= row.len(),
            values == sql_row(texts(row@)),
            out@ == old(out)@ + "("@ + join(values.take(i as int), ", "@),
        decreases row.len() - i,
    {
        proof {
            assert(values.take(i + 1).drop_last() =~= values.take(i as int));
            assert(values.take(i + 1).last() == sql_value(row@[i as int]@));
        }
        if i > 0 {
            out.append(", ");
        }
        let value = sql_value_of(row[i].as_str());
        out.append(value.as_str());
        assert(out@ =~= old(out)@ + "("@ + join(values.take(i + 1), ", "@));
        i += 1;
    }
    assert(values.take(i as int) =~= values);
    out.append(")");
    assert(final(out)@ =~= old(out)@ + row_tuple(texts(row@)));
}

/// Appends one `INSERT` statement for the rows from `start` up to `end`.
fn push_insert_statement(
    out: &mut String,
    head: &str,
    rows: &Vec<Vec<String>>,
    start: usize,
    end: usize,
)
    requires
        start <= end <= rows.len(),
    ensures
        final(out)@ == old(out)@ + head@ + value_lines(
            table_texts(rows@).subrange(start as int, end as int),
        ) + ";"@,
{
    let ghost chunk = table_texts(rows@).subrange(start as int, end as int);
    let ghost lines = chunk.map_values(|r: Seq<Seq<char>>| row_tuple(r));
    out.append(head);
    let mut i: usize = start;
    while i < end
        invariant
            start <= i <= end <= rows.len(),
            chunk == table_texts(rows@).subrange(start as int, end as int),
            lines == chunk.map_values(|r: Seq<Seq<char>>| row_tuple(r)),
            out@ == old(out)@ + head@ + join(lines.take(i - start), ",\n"@),
        decreases end - i,
    {
        proof {
            assert(lines.take(i - start + 1).drop_last() =~= lines.take(i - start));
            assert(lines.take(i - start + 1).last() == row_tuple(texts(rows@[i as int]@)));
        }
        if i > start {
            out.append(",\n");
        }
        push_row_tuple(out, &rows[i]);
        assert(out@ =~= old(out)@ + head@ + join(lines.take(i - start + 1), ",\n"@));
        i += 1;
    }
    assert(lines.take(i - start) =~= lines);
    out.append(";");
}

/// Writes a result set as `INSERT` statements into the table `table_name`,
/// at most `max_values_per_insert` rows to a statement.
pub fn generate_sql_inserts(
    result: &ResultSet,
    table_name: &str,
    max_values_per_insert: usize,
    db_dialect: &Dialect,
) -> (sql: String)
    ensures
        sql@ == inserts_text(*db_dialect, table_name@, result@, max_values_per_insert),
{
    let header = result.header();
    let rows = result.rows();
    let mut sql_statements = String::new();
    if header.len() == 0 {
        return sql_statements;
    }
    let mut head = String::from_str("INSERT INTO ");
    push_quoted_identifier(&mut head, db_dialect, table_name);
    head.append(" (");
    push_column_list(&mut head, db_dialect, header);
    head.append(") VALUES\n");
    assert(head@ =~= insert_head(*db_dialect, table_name@, result@.header));
    let chunk_size: usize = if max_values_per_insert == 0 {
        1
    } else {
        max_values_per_insert
    };
    let ghost all = table_texts(rows@);
    let ghost total = insert_statements(
        *db_dialect,
        table_name@,
        result@.header,
        all,
        chunk_size as int,
    );
    let mut start: usize = 0;
    assert(all.skip(0) =~= all);
    while start < rows.len()
        invariant
            start <= rows.len(),
            chunk_size >= 1,
            all == table_texts(rows@),
            head@ == insert_head(*db_dialect, table_name@, result@.header),
            total == sql_statements@ + insert_statements(
                *db_dialect,
                table_name@,
                result@.header,
                all.skip(start as int),
                chunk_size as int,
            ),
        decreases rows.len() - start,
    {
        let left = rows.len() - start;
        let end: usize = if left <= chunk_size {
            rows.len()
        } else {
            start + chunk_size
        };
        let ghost rest = all.skip(start as int);
        let ghost before = sql_statements@;
        push_insert_statement(&mut sql_statements, head.as_str(), rows, start, end);
        proof {
            assert(all.subrange(start as int, end as int) =~= rest.take(end - start));
            if left <= chunk_size {
                assert(rest.take(end - start) =~= rest);
                assert(all.skip(end as int).len() == 0);
            } else {
                assert(rest.skip(chunk_size as int) =~= all.skip(end as int));
            }
        }
        if end < rows.len() {
            sql_statements.append("\n\n");
        }
        proof {
            let tail = insert_statements(
                *db_dialect,
                table_name@,
                result@.header,
                all.skip(end as int),
                chunk_size as int,
            );
            assert(total =~= sql_statements@ + tail);
        }
        start = end;
    }
    assert(total =~= sql_statements@);
    sql_statements
}

// ---------------------------------------------------------------------------
// UPDATE
// ---------------------------------------------------------------------------
/// The position of the first column named `name`, if there is one.
pub open spec fn first_index(header: Seq<Seq<char>>, name: Seq<char>) -> Option<int>
    decreases header.len(),
{
    if header.len() == 0 {
        None
    } else {
        match first_index(header.drop_last(), name) {
            Some(i) => Some(i),
            None => if header.last() == name {
                Some(header.len() - 1)
            } else {
                None
            },
        }
    }
}

/// `column = value`, the column quoted and the value as SQL text.
pub open spec fn assignment(dialect: Dialect, column: Seq<char>, cell: Seq<char>) -> Seq<char> {
    quoted_identifier(dialect, column) + " = "@ + sql_value(cell)
}

/// The assignments of a row for its first `n` columns, the key column left
/// out.
pub open spec fn set_clauses(
    dialect: Dialect,
    header: Seq<Seq<char>>,
    row: Seq<Seq<char>>,
    key: int,
    n: int,
) -> Seq<Seq<char>>
    decreases n,
{
    if n <= 0 {
        Seq::empty()
    } else {
        let before = set_clauses(dialect, header, row, key, n - 1);
        if n - 1 != key && n - 1 < header.len() && n - 1 < row.len() {
            before.push(assignment(dialect, header[n - 1], row[n - 1]))
        } else {
            before
        }
    }
}

/// The `UPDATE` statement for one row, on a line of its own: every column
/// but the key is set, and the key selects the row. A row with nothing to
/// set gives no text.
pub open spec fn update_statement(
    dialect: Dialect,
    table: Seq<char>,
    header: Seq<Seq<char>>,
    row: Seq<Seq<char>>,
    key: int,
) -> Seq<char> {
    let sets = set_clauses(dialect, header, row, key, header.len() as int);
    if sets.len() == 0 {
        Seq::empty()
    } else {
        "UPDATE "@ + quoted_identifier(dialect, table) + " SET "@ + join(sets, ", "@) + " WHERE "@
            + assignment(dialect, header[key], row[key]) + ";\n"@
    }
}

/// The `UPDATE` statements for the rows, in order.
pub open spec fn update_statements(
    dialect: Dialect,
    table: Seq<char>,
    header: Seq<Seq<char>>,
    rows: Seq<Seq<Seq<char>>>,
    key: int,
) -> Seq<char>
    decreases rows.len(),
{
    if rows.len() == 0 {
        Seq::empty()
    } else {
        update_statements(dialect, table, header, rows.drop_last(), key) + update_statement(
            dialect,
            table,
            header,
            rows.last(),
            key,
        )
    }
}

/// The message for a key column that the result does not have.
pub open spec fn column_not_found_text(column: Seq<char>) -> Seq<char> {
    "WHERE column '"@ + column + "' not found in data"@
}

/// The `UPDATE` statements for a result set keyed by `where_column`, or
/// the error for a result without that column.
pub open spec fn updates_text(
    dialect: Dialect,
    table: Seq<char>,
    result: ResultSetView,
    where_column: Seq<char>,
) -> Result<Seq<char>, AppErrorView> {
    match first_index(result.header, where_column) {
        Some(key) => Ok(update_statements(dialect, table, result.header, result.rows, key)),
        None => Err(bad_request_view(column_not_found_text(where_column))),
    }
}

/// The first column named `name` lies within the header and has that name.
pub proof fn lemma_first_index(header: Seq<Seq<char>>, name: Seq<char>)
    ensures
        first_index(header, name) matches Some(i) ==> 0 <= i < header.len() && header[i] == name,
        first_index(header, name) is None ==> forall|i: int|
            0 <= i < header.len() ==> header[i] != name,
    decreases header.len(),
{
    if header.len() > 0 {
        lemma_first_index(header.drop_last(), name);
        if first_index(header.drop_last(), name) is None {
            assert forall|i: int| 0 <= i < header.len() - 1 implies header[i] != name by {
                assert(header.drop_last()[i] == header[i]);
            }
        } else {
            let i = first_index(header.drop_last(), name)->0;
            assert(header.drop_last()[i] == header[i]);
        }
    }
}

/// The position of the first column named `name`.
fn find_column(header: &Vec<String>, name: &str) -> (r: Option<usize>)
    ensures
        match r {
            Some(i) => first_index(texts(header@), name@) == Some(i as int),
            None => first_index(texts(header@), name@) is None,
        },
{
    let ghost views = texts(header@);
    let mut i: usize = 0;
    while i < header.len()
        invariant
            i <= header.len(),
            views == texts(header@),
            first_index(views.take(i as int), name@) is None,
        decreases header.len() - i,
    {
        proof {
            assert(views.take(i + 1).drop_last() =~= views.take(i as int));
            assert(views.take(i + 1).last() == header@[i as int]@);
        }
        if same_text(header[i].as_str(), name) {
            proof {
                lemma_first_index_prefix(views, name@, i as int + 1);
            }
            return Some(i);
        }
        i += 1;
    }
    assert(views.take(i as int) =~= views);
    None
}

/// A column found among the first `k` names is the one found in the whole
/// header.
pub proof fn lemma_first_index_prefix(header: Seq<Seq<char>>, name: Seq<char>, k: int)
    requires
        0 <= k <= header.len(),
        first_index(header.take(k), name) is Some,
    ensures
        first_index(header, name) == first_index(header.take(k), name),
    decreases header.len(),
{
    if k == header.len() {
        assert(header.take(k) =~= header);
    } else {
        assert(header.drop_last().take(k) =~= header.take(k));
        lemma_first_index_prefix(header.drop_last(), name, k);
    }
}

/// Appends the `UPDATE` statement for one row.
fn push_update_statement(
    out: &mut String,
    dialect: &Dialect,
    table_name: &str,
    header: &Vec<String>,
    row: &Vec<String>,
    key: usize,
)
    requires
        key < header.len(),
        row.len() == header.len(),
    ensures
        final(out)@ == old(out)@ + update_statement(
            *dialect,
            table_name@,
            texts(header@),
            texts(row@),
            key as int,
        ),
{
    let ghost names = texts(header@);
    let ghost cells = texts(row@);
    let mut sets = String::new();
    let mut count: usize = 0;
    let mut i: usize = 0;
    while i < header.len()
        invariant
            i <= header.len(),
            row.len() == header.len(),
            names == texts(header@),
            cells == texts(row@),
            count == set_clauses(*dialect, names, cells, key as int, i as int).len(),
            count <= i,
            sets@ == join(set_clauses(*dialect, names, cells, key as int, i as int), ", "@),
        decreases header.len() - i,
    {
        if i != key {
            let ghost before = set_clauses(*dialect, names, cells, key as int, i as int);
            if count > 0 {
                sets.append(", ");
            }
            push_quoted_identifier(&mut sets, dialect, header[i].as_str());
            sets.append(" = ");
            let value = sql_value_of(row[i].as_str());
            sets.append(value.as_str());
            count += 1;
            proof {
                let clause = assignment(*dialect, names[i as int], cells[i as int]);
                let after = set_clauses(*dialect, names, cells, key as int, i + 1);
                assert(after == before.push(clause));
                assert(after.drop_last() =~= before);
                assert(sets@ =~= join(after, ", "@));
            }
        }
        i += 1;
    }
    if count > 0 {
        out.append("UPDATE ");
        push_quoted_identifier(out, dialect, table_name);
        out.append(" SET ");
        out.append(sets.as_str());
        out.append(" WHERE ");
        push_quoted_identifier(out, dialect, header[key].as_str());
        out.append(" = ");
        let value = sql_value_of(row[key].as_str());
        out.append(value.as_str());
        out.append(";\n");
        assert(final(out)@ =~= old(out)@ + update_statement(
            *dialect,
            table_name@,
            names,
            cells,
            key as int,
        ));
    } else {
        assert(final(out)@ =~= old(out)@ + update_statement(
            *dialect,
            table_name@,
            names,
            cells,
            key as int,
        ));
    }
}

/// Writes a result set as `UPDATE` statements on the table `table_name`,
/// one for each row, with the column `where_column` as the key.
pub fn generate_sql_update(
    result: &ResultSet,
    table_name: &str,
    where_column: &str,
    db_dialect: &Dialect,
) -> (r: AppResult<String>)
    ensures
        agrees(r, updates_text(*db_dialect, table_name@, result@, where_column@)),
{
    let header = result.header();
    let rows = result.rows();
    let key = match find_column(header, where_column) {
        Some(key) => key,
        None => {
            let message = String::from_str("WHERE column '").concat(where_column).concat(
                "' not found in data",
            );
            return Err(AppError::BadRequest { message });
        },
    };
    proof {
        lemma_first_index(texts(header@), where_column@);
    }
    let ghost all = table_texts(rows@);
    let mut sql_statements = String::new();
    let mut i: usize = 0;
    while i < rows.len()
        invariant
            i <= rows.len(),
            key < header.len(),
            all == table_texts(rows@),
            aligned(texts(header@), all),
            sql_statements@ == update_statements(
                *db_dialect,
                table_name@,
                texts(header@),
                all.take(i as int),
                key as int,
            ),
        decreases rows.len() - i,
    {
        proof {
            assert(all.take(i + 1).drop_last() =~= all.take(i as int));
            assert(all.take(i + 1).last() == texts(rows@[i as int]@));
            assert(all[i as int].len() == texts(header@).len());
        }
        push_update_statement(&mut sql_statements, db_dialect, table_name, header, &rows[i], key);
        i += 1;
    }
    assert(all.take(i as int) =~= all);
    Ok(sql_statements)
}

/// A string literal stands for the text it was written from.
pub proof fn lemma_literal_round_trip(s: Seq<char>)
    ensures
        literal_content(quoted_literal(s)) == s,
{
    lemma_undouble_doubled(s, Seq::empty());
    let q = quoted_literal(s);
    assert(q.subrange(1, q.len() - 1) =~= double_quotes(s));
    assert(double_quotes(s) + Seq::<char>::empty() =~= double_quotes(s));
    assert(s + Seq::<char>::empty() =~= s);
}

/// Every cell can be read back from its SQL text: a null, a number or a
/// boolean is written as it is, and everything else as a string literal
/// that stands for it.
pub proof fn lemma_sql_value_round_trip(cell: Seq<char>)
    ensures
        is_unquoted(cell) || cell == "NULL"@ ==> sql_value(cell) == cell,
        !is_unquoted(cell) && cell != "NULL"@ ==> sql_value(cell) == quoted_literal(cell)
            && literal_content(sql_value(cell)) == cell,
{
    lemma_literal_round_trip(cell);
}

} // verus!
