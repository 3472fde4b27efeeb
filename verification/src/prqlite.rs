//! The computing side of the database front end: compiling PRQL to SQL,
//! rendering tables and result messages, and showing cell values. Opening
//! the database and running statements are left to the caller.
use vstd::prelude::*;

use crate::text::{
    append_str, chars_of, decimal, int_text, join_strings, joined, push_decimal, push_int,
    push_spaced, spaced, split_chars, split_on, split_words, string_from_chars, text_result,
    words, lemma_joined_push, lemma_split_on_without_separator, lemma_spaced_flatten,
    lemma_words_are_words, lemma_words_spaced, lemma_int_text_reads_back, parse_int,
};

verus! {

/// What `prql_compiler::compile` returns for `prql` with the given
/// `format` and `signature_comment` options (and the default target): the
/// SQL text, or the text of the error messages.
pub uninterp spec fn prql_compiled(prql: Seq<char>, format: bool, signature_comment: bool) -> Result<
    Seq<char>,
    Seq<char>,
>;

/// Calls `prql_compiler::compile` on `prql` with `Options::default()` where
/// `format` and `signature_comment` are set as given; an error is turned
/// into its `Display` text. The contract claims only that the result is a
/// function of these arguments, named `prql_compiled`.
#[verifier::external_body]
fn prql_compile(prql: &str, format: bool, signature_comment: bool) -> (r: Result<String, String>)
    ensures
        text_result(r) == prql_compiled(prql@, format, signature_comment),
{
    let mut options = prql_compiler::Options::default();
    options.format = format;
    options.signature_comment = signature_comment;
    match prql_compiler::compile(prql, options) {
        Ok(sql) => Ok(sql),
        Err(e) => Err(e.to_string()),
    }
}

/// Compiles one PRQL query to SQL, unformatted and without the compiler's
/// signature comment.
pub fn compile_query(prql: &str) -> (r: Result<String, String>)
    ensures
        text_result(r) == prql_compiled(prql@, false, false),
{
    prql_compile(prql, false, false)
}

/// Compiles each piece in turn; the first error stops it.
pub open spec fn compile_all(ps: Seq<Seq<char>>) -> Result<Seq<Seq<char>>, Seq<char>>
    decreases ps.len(),
{
    if ps.len() == 0 {
        Ok(Seq::empty())
    } else {
        match prql_compiled(ps[0], false, false) {
            Err(e) => Err(e),
            Ok(q) => match compile_all(ps.drop_first()) {
                Err(e) => Err(e),
                Ok(qs) => Ok(seq![q] + qs),
            },
        }
    }
}

/// The SQL batch for a PRQL text: the text is split at every `;`, each
/// piece is compiled, and the results are joined with `;`.
pub open spec fn compiled_batch(prql: Seq<char>) -> Result<Seq<char>, Seq<char>> {
    match compile_all(split_on(prql, ';')) {
        Ok(qs) => Ok(joined(qs, ";"@)),
        Err(e) => Err(e),
    }
}

/// Compiling a list whose front compiled.
proof fn lemma_compile_all_split(ps: Seq<Seq<char>>, k: int, qs: Seq<Seq<char>>)
    requires
        0 <= k <= ps.len(),
        qs.len() == k,
        forall|i: int| 0 <= i < k ==> prql_compiled(#[trigger] ps[i], false, false) == Ok::<
            Seq<char>,
            Seq<char>,
        >(qs[i]),
    ensures
        compile_all(ps) == match compile_all(ps.skip(k)) {
            Ok(rest) => Ok(qs + rest),
            Err(e) => Err(e),
        },
    decreases k,
{
    if k == 0 {
        assert(ps.skip(0) =~= ps);
        match compile_all(ps) {
            Ok(rest) => {
                assert(qs + rest =~= rest);
            },
            Err(e) => {},
        }
    } else {
        let tail = ps.drop_first();
        let qtail = qs.drop_first();
        assert forall|i: int| 0 <= i < k - 1 implies prql_compiled(#[trigger] tail[i], false, false)
            == Ok::<Seq<char>, Seq<char>>(qtail[i]) by {
            assert(tail[i] == ps[i + 1]);
            assert(qtail[i] == qs[i + 1]);
        }
        lemma_compile_all_split(tail, k - 1, qtail);
        assert(tail.skip(k - 1) =~= ps.skip(k));
        assert(prql_compiled(ps[0], false, false) == Ok::<Seq<char>, Seq<char>>(qs[0]));
        match compile_all(ps.skip(k)) {
            Ok(rest) => {
                assert(seq![qs[0]] + (qtail + rest) =~= qs + rest);
            },
            Err(e) => {},
        }
    }
}

/// Compiles a PRQL text of several queries separated by `;` into one SQL
/// batch (see `compiled_batch`).
pub fn compile_batch(prql: &str) -> (r: Result<String, String>)
    ensures
        text_result(r) == compiled_batch(prql@),
{
    let v = chars_of(prql);
    let pieces = split_chars(&v, ';');
    let ghost ps = split_on(v@, ';');
    let mut queries: Vec<String> = Vec::new();
    let mut k: usize = 0;
    while k < pieces.len()
        invariant
            k <= pieces@.len(),
            pieces@.map_values(|p: Vec<char>| p@) == ps,
            ps == split_on(prql@, ';'),
            queries@.len() == k,
            forall|i: int| 0 <= i < k ==> prql_compiled(#[trigger] ps[i], false, false) == Ok::<
                Seq<char>,
                Seq<char>,
            >(queries@[i]@),
        decreases pieces@.len() - k,
    {
        let piece = string_from_chars(&pieces[k]);
        assert(piece@ == ps[k as int]);
        match compile_query(piece.as_str()) {
            Ok(sql) => {
                queries.push(sql);
            },
            Err(e) => {
                proof {
                    lemma_compile_all_split(ps, k as int, queries.deep_view());
                    assert(ps.skip(k as int)[0] == ps[k as int]);
                    assert(compile_all(ps.skip(k as int)) == Err::<Seq<Seq<char>>, Seq<char>>(
                        e@,
                    ));
                    assert(compile_all(ps) == Err::<Seq<Seq<char>>, Seq<char>>(e@));
                    assert(compiled_batch(prql@) == Err::<Seq<char>, Seq<char>>(e@));
                }
                return Err(e);
            },
        }
        k = k + 1;
    }
    proof {
        lemma_compile_all_split(ps, ps.len() as int, queries.deep_view());
        assert(ps.skip(ps.len() as int) =~= Seq::<Seq<char>>::empty());
        assert(queries.deep_view() + Seq::<Seq<char>>::empty() =~= queries.deep_view());
    }
    Ok(join_strings(&queries, ";"))
}

/// What the `compile` command shows for a compilation result: the SQL as
/// its words, each followed by one space; or the error under a heading.
pub open spec fn compile_report(compiled: Result<Seq<char>, Seq<char>>) -> Result<
    Seq<char>,
    Seq<char>,
> {
    match compiled {
        Ok(sql) => Ok(spaced(words(sql))),
        Err(e) => Err("Cannot compile your query into SQL: \n"@ + e),
    }
}

/// The `compile` command's report for a compilation result (see
/// `compile_report`).
pub fn report_compiled(compiled: Result<String, String>) -> (r: Result<String, String>)
    ensures
        text_result(r) == compile_report(text_result(compiled)),
{
    match compiled {
        Ok(sql) => {
            let v = chars_of(sql.as_str());
            let ws = split_words(&v);
            let mut out: Vec<char> = Vec::new();
            push_spaced(&ws, 0, &mut out);
            proof {
                assert(ws@.skip(0).map_values(|w: Vec<char>| w@) =~= words(v@));
            }
            Ok(string_from_chars(&out))
        },
        Err(e) => {
            let mut out = chars_of("Cannot compile your query into SQL: \n");
            append_str(&mut out, e.as_str());
            Err(string_from_chars(&out))
        },
    }
}

/// The `compile` report of SQL is already in its final form: reporting it
/// again changes nothing.
pub proof fn lemma_compile_report_idempotent(sql: Seq<char>)
    ensures
        compile_report(Ok(compile_report(Ok(sql))->Ok_0)) == compile_report(Ok(sql)),
{
    crate::text::lemma_words_are_words(sql);
    crate::text::lemma_words_spaced(words(sql));
}

/// The `compile` report keeps every word of the SQL, in order, and
/// nothing else: it is those words, each followed by one space.
pub proof fn lemma_compile_report_keeps_every_word(sql: Seq<char>)
    ensures
        compile_report(Ok(sql)) matches Ok(report) && words(report) == words(sql) && report
            == words(sql).map_values(|w: Seq<char>| w.push(' ')).flatten(),
{
    lemma_words_are_words(sql);
    lemma_words_spaced(words(sql));
    lemma_spaced_flatten(words(sql));
}

/// When every `;`-separated piece of a PRQL text compiles, the batch is
/// the compiled pieces, one per piece and in order, joined by `;`.
pub proof fn lemma_batch_compiles_every_piece(prql: Seq<char>, qs: Seq<Seq<char>>)
    requires
        qs.len() == split_on(prql, ';').len(),
        forall|i: int|
            0 <= i < qs.len() ==> prql_compiled(#[trigger] split_on(prql, ';')[i], false, false)
                == Ok::<Seq<char>, Seq<char>>(qs[i]),
    ensures
        compiled_batch(prql) == Ok::<Seq<char>, Seq<char>>(joined(qs, ";"@)),
{
    let ps = split_on(prql, ';');
    lemma_compile_all_split(ps, ps.len() as int, qs);
    assert(ps.skip(ps.len() as int) =~= Seq::<Seq<char>>::empty());
    assert(qs + Seq::<Seq<char>>::empty() =~= qs);
}

/// A batch whose pieces compile up to piece `k`, and piece `k` does not,
/// fails with piece `k`'s error.
pub proof fn lemma_batch_stops_at_first_error(
    prql: Seq<char>,
    k: int,
    qs: Seq<Seq<char>>,
    e: Seq<char>,
)
    requires
        0 <= k < split_on(prql, ';').len(),
        qs.len() == k,
        forall|i: int|
            0 <= i < k ==> prql_compiled(#[trigger] split_on(prql, ';')[i], false, false) == Ok::<
                Seq<char>,
                Seq<char>,
            >(qs[i]),
        prql_compiled(split_on(prql, ';')[k], false, false) == Err::<Seq<char>, Seq<char>>(e),
    ensures
        compiled_batch(prql) == Err::<Seq<char>, Seq<char>>(e),
{
    let ps = split_on(prql, ';');
    lemma_compile_all_split(ps, k, qs);
    assert(ps.skip(k)[0] == ps[k]);
}

/// A PRQL text without `;` compiles as a batch to what it compiles to as a
/// single query.
pub proof fn lemma_batch_of_one_query(prql: Seq<char>)
    requires
        !prql.contains(';'),
    ensures
        compiled_batch(prql) == prql_compiled(prql, false, false),
{
    lemma_split_on_without_separator(prql, ';');
    let ps = split_on(prql, ';');
    assert(ps.drop_first() =~= Seq::<Seq<char>>::empty());
    assert(ps[0] == prql);
    assert(compile_all(Seq::<Seq<char>>::empty()) == Ok::<Seq<Seq<char>>, Seq<char>>(
        Seq::empty(),
    ));
    match prql_compiled(prql, false, false) {
        Ok(q) => {
            assert(seq![q] + Seq::<Seq<char>>::empty() =~= seq![q]);
            assert(compile_all(ps) == Ok::<Seq<Seq<char>>, Seq<char>>(seq![q]));
            assert(joined(seq![q], ";"@) == q);
        },
        Err(e) => {
            assert(compile_all(ps) == Err::<Seq<Seq<char>>, Seq<char>>(e));
        },
    }
}


/// The border set of a table.
#[derive(Debug, Copy, Clone, PartialEq, Eq, Structural)]
pub enum TableStyle {
    /// No borders (comfy-table's `NOTHING` preset).
    Plain,
    /// Full UTF-8 box borders (comfy-table's `UTF8_FULL` preset).
    Bordered,
}

/// How a table fits its content to its width (comfy-table's
/// `ContentArrangement`).
#[derive(Debug, Copy, Clone, PartialEq, Eq, Structural)]
pub enum Arrangement {
    Disabled,
    Dynamic,
    DynamicFullWidth,
}

/// The text of the comfy-table `Table` with the given preset, content
/// arrangement, width, header row and rows, as its `Display` writes it.
pub uninterp spec fn rendered_table(
    style: TableStyle,
    arrangement: Arrangement,
    width: u16,
    header: Seq<Seq<char>>,
    rows: Seq<Seq<Seq<char>>>,
) -> Seq<char>;

/// Builds a `comfy_table::Table` (`Table::new`, then `load_preset`,
/// `set_content_arrangement`, `set_width`, `set_header` and `add_rows` with
/// the arguments as they are) and returns its `Display` text. The table's
/// width is set, so comfy-table does not ask the terminal for one, and no
/// cell carries a style. The contract claims only that the text is a
/// function of these arguments, named `rendered_table`.
#[verifier::external_body]
fn render_table(
    style: TableStyle,
    arrangement: Arrangement,
    width: u16,
    header: &Vec<String>,
    rows: &Vec<Vec<String>>,
) -> (r: String)
    ensures
        r@ == rendered_table(style, arrangement, width, header.deep_view(), rows.deep_view()),
{
    let mut table = comfy_table::Table::new();
    table.load_preset(match style {
        TableStyle::Plain => comfy_table::presets::NOTHING,
        TableStyle::Bordered => comfy_table::presets::UTF8_FULL,
    }).set_content_arrangement(match arrangement {
        Arrangement::Disabled => comfy_table::ContentArrangement::Disabled,
        Arrangement::Dynamic => comfy_table::ContentArrangement::Dynamic,
        Arrangement::DynamicFullWidth => comfy_table::ContentArrangement::DynamicFullWidth,
    }).set_width(width).set_header(header.clone()).add_rows(rows.clone());
    table.to_string()
}

/// The width that tables of the shell are laid out to.
pub const TABLE_WIDTH: u16 = 80;

/// The help table's header row.
pub open spec fn help_header() -> Seq<Seq<char>> {
    seq!["Command"@, "Args"@, "Description"@]
}

/// The help table's rows.
pub open spec fn help_rows() -> Seq<Seq<Seq<char>>> {
    seq![
        seq!["quit"@, ""@, "Exit PRQLite program"@],
        seq!["compile"@, "<PRQL_QUERY>"@, "Compile PRQL into SQL"@],
        seq!["exit"@, "<CODE>"@, "Exit PRQLite program with custom exit code"@],
        seq!["compile"@, "<SQL_QUERY>"@, "Execute SQL query instead of PRQL"@],
    ]
}

/// Three owned strings.
fn row3(a: &str, b: &str, c: &str) -> (r: Vec<String>)
    ensures
        r.deep_view() == seq![a@, b@, c@],
{
    let mut r: Vec<String> = Vec::new();
    r.push(a.to_owned());
    r.push(b.to_owned());
    r.push(c.to_owned());
    assert(r.deep_view() =~= seq![a@, b@, c@]);
    r
}

/// The text of the help table: borderless, laid out to 80 columns.
pub fn help_text() -> (r: String)
    ensures
        r@ == rendered_table(
            TableStyle::Plain,
            Arrangement::Dynamic,
            TABLE_WIDTH,
            help_header(),
            help_rows(),
        ),
{
    let header = row3("Command", "Args", "Description");
    let mut rows: Vec<Vec<String>> = Vec::new();
    rows.push(row3("quit", "", "Exit PRQLite program"));
    rows.push(row3("compile", "<PRQL_QUERY>", "Compile PRQL into SQL"));
    rows.push(row3("exit", "<CODE>", "Exit PRQLite program with custom exit code"));
    rows.push(row3("compile", "<SQL_QUERY>", "Execute SQL query instead of PRQL"));
    assert(rows.deep_view() =~= help_rows());
    render_table(TableStyle::Plain, Arrangement::Dynamic, TABLE_WIDTH, &header, &rows)
}

/// The text of a query result: a bordered table laid out to 80 columns,
/// with the column names as its header.
pub fn render_rows(column_names: &Vec<String>, rows: &Vec<Vec<String>>) -> (r: String)
    ensures
        r@ == rendered_table(
            TableStyle::Bordered,
            Arrangement::Dynamic,
            TABLE_WIDTH,
            column_names.deep_view(),
            rows.deep_view(),
        ),
{
    render_table(TableStyle::Bordered, Arrangement::Dynamic, TABLE_WIDTH, column_names, rows)
}

/// The message for a statement that changed `n` rows.
pub open spec fn affected_rows_text(n: nat) -> Seq<char> {
    decimal(n) + " row"@ + (if n > 1 {
        "s"@
    } else {
        ""@
    }) + " effected"@
}

/// The message for a statement that changed `n` rows (see
/// `affected_rows_text`).
pub fn affected_rows_message(n: usize) -> (r: String)
    ensures
        r@ == affected_rows_text(n as nat),
{
    let mut out: Vec<char> = Vec::new();
    push_decimal(n as u64, &mut out);
    append_str(&mut out, " row");
    if n > 1 {
        append_str(&mut out, "s");
    } else {
        append_str(&mut out, "");
    }
    append_str(&mut out, " effected");
    string_from_chars(&out)
}

/// What to do with a prepared SQL statement.
#[derive(Debug, Copy, Clone, PartialEq, Eq, Structural)]
pub enum SqlPlan {
    /// Run it as a query and show its rows as a table.
    ShowRows,
    /// Execute it and report the number of rows it changed.
    Execute,
}

/// A prepared statement is shown as a table when it yields columns and does
/// not write; it is executed otherwise.
pub fn plan_sql(column_count: usize, readonly: bool) -> (r: SqlPlan)
    ensures
        (r is ShowRows) == (column_count > 0 && readonly),
{
    if column_count > 0 && readonly {
        SqlPlan::ShowRows
    } else {
        SqlPlan::Execute
    }
}

/// What the database gave for a statement: the caller prepares it, then
/// queries or executes it as `plan_sql` says.
#[derive(Debug, Clone, PartialEq, Eq)]
pub enum SqlRun {
    /// Preparing or running the statement failed with this message.
    Failed(String),
    /// The statement was queried: its column names, then each row with
    /// each cell as text.
    Rows { column_names: Vec<String>, rows: Vec<Vec<String>> },
    /// The statement was executed and changed this many rows.
    Changed(usize),
}

/// The value of a `SqlRun`: the message, the table's header and rows, or
/// the count of changed rows.
pub open spec fn sql_run_view(run: SqlRun) -> Result<
    Result<(Seq<Seq<char>>, Seq<Seq<Seq<char>>>), nat>,
    Seq<char>,
> {
    match run {
        SqlRun::Failed(m) => Err(m@),
        SqlRun::Rows { column_names, rows } => Ok(Ok((column_names.deep_view(), rows.deep_view()))),
        SqlRun::Changed(n) => Ok(Err(n as nat)),
    }
}

/// What the shell shows for a statement's run: a failure is reported with
/// its message as the error, rows as a bordered table laid out to 80
/// columns, a change as `"{n} row effected"` (`rows` when `n` is above 1).
pub open spec fn sql_run_text(run: Result<
    Result<(Seq<Seq<char>>, Seq<Seq<Seq<char>>>), nat>,
    Seq<char>,
>) -> Result<Seq<char>, Seq<char>> {
    match run {
        Err(m) => Err(m),
        Ok(Ok((header, rows))) => Ok(
            rendered_table(TableStyle::Bordered, Arrangement::Dynamic, TABLE_WIDTH, header, rows),
        ),
        Ok(Err(n)) => Ok(affected_rows_text(n)),
    }
}

/// The text of a statement's run (see `sql_run_text`).
pub fn sql_run_output(run: &SqlRun) -> (r: Result<String, String>)
    ensures
        text_result(r) == sql_run_text(sql_run_view(*run)),
{
    match run {
        SqlRun::Failed(m) => Err(m.clone()),
        SqlRun::Rows { column_names, rows } => Ok(render_rows(column_names, rows)),
        SqlRun::Changed(n) => Ok(affected_rows_message(*n)),
    }
}

/// A value read from a result row, other than a floating-point one.
#[derive(Debug, Clone, PartialEq, Eq)]
pub enum CellValue {
    Null,
    Integer(i64),
    Text(String),
    Blob(Vec<u8>),
}

/// The text of a byte list as `{:?}` writes it: `[1, 2, 3]`.
pub open spec fn byte_list_text(bytes: Seq<u8>) -> Seq<char> {
    "["@ + joined(bytes.map_values(|b: u8| decimal(b as nat)), ", "@) + "]"@
}

/// How a cell value is shown: `-` for NULL, the decimal text of an integer,
/// the text itself, or the list of a blob's bytes.
pub open spec fn cell_text(v: CellValue) -> Seq<char> {
    match v {
        CellValue::Null => "-"@,
        CellValue::Integer(i) => int_text(i as int),
        CellValue::Text(t) => t@,
        CellValue::Blob(b) => byte_list_text(b@),
    }
}

/// An integer cell shows as text that reads back as that integer, so no
/// integer is shown like NULL.
pub proof fn lemma_integer_cell_reads_back(i: i64)
    ensures
        parse_int(cell_text(CellValue::Integer(i))) == Some(i as int),
        cell_text(CellValue::Integer(i)) != cell_text(CellValue::Null),
{
    lemma_int_text_reads_back(i as int);
    reveal_strlit("-");
    let t = cell_text(CellValue::Null);
    assert(t.len() == 1 && t[0] == '-');
    assert(crate::text::unsigned_part(t).len() == 0);
    assert(parse_int(t) is None);
}

/// The text that shows a cell value (see `cell_text`).
pub fn row_value_parser(value: &CellValue) -> (r: String)
    ensures
        r@ == cell_text(*value),
{
    match value {
        CellValue::Null => "-".to_owned(),
        CellValue::Integer(i) => {
            let mut out: Vec<char> = Vec::new();
            push_int(*i, &mut out);
            string_from_chars(&out)
        },
        CellValue::Text(t) => t.clone(),
        CellValue::Blob(b) => {
            let mut out = chars_of("[");
            let ghost start = out@;
            let ghost ds = b@.map_values(|x: u8| decimal(x as nat));
            let mut k: usize = 0;
            while k < b.len()
                invariant
                    k <= b@.len(),
                    ds == b@.map_values(|x: u8| decimal(x as nat)),
                    out@ == start + joined(ds.take(k as int), ", "@),
                decreases b@.len() - k,
            {
                proof {
                    assert(ds.take(k + 1) =~= ds.take(k as int).push(ds[k as int]));
                    lemma_joined_push(ds.take(k as int), ", "@, ds[k as int]);
                }
                if k > 0 {
                    append_str(&mut out, ", ");
                }
                push_decimal(b[k] as u64, &mut out);
                k = k + 1;
                assert(out@ =~= start + joined(ds.take(k as int), ", "@));
            }
            append_str(&mut out, "]");
            proof {
                assert(ds.take(b@.len() as int) =~= ds);
                assert(out@ =~= byte_list_text(b@));
            }
            string_from_chars(&out)
        },
    }
}

} // verus!
