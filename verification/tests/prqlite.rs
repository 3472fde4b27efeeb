use comfy_table::{presets, ContentArrangement, Table};
use prqlite::prqlite::{
    affected_rows_message, compile_batch, compile_query, help_text, plan_sql, render_rows,
    report_compiled, row_value_parser, sql_run_output, CellValue, SqlPlan, SqlRun,
};
use prqlite::text::lines_chars;

#[test]
fn compile_query_gives_unformatted_sql_without_signature() {
    assert_eq!(
        compile_query("from employees | select [name,age] "),
        Ok("SELECT name, age FROM employees".to_string())
    );
    assert_eq!(compile_query("from persons"), Ok("SELECT * FROM persons".to_string()));
}

#[test]
fn compile_query_reports_errors_as_text() {
    let e = compile_query("from a | select [").unwrap_err();
    assert!(!e.is_empty());
    assert_ne!(e, "from a | select [");
}

#[test]
fn compile_batch_joins_compiled_pieces() {
    assert_eq!(
        compile_batch("from a;from b"),
        Ok("SELECT * FROM a;SELECT * FROM b".to_string())
    );
}

#[test]
fn compile_batch_of_one_query_is_that_query() {
    assert_eq!(compile_batch("from persons"), compile_query("from persons"));
}

#[test]
fn compile_batch_stops_at_first_error() {
    let first = compile_query("from a | select [").unwrap_err();
    assert_eq!(compile_batch("from a | select [;from b"), Err(first));
}

#[test]
fn report_compiled_collapses_white_space() {
    assert_eq!(
        report_compiled(Ok("SELECT\n  a,\n  b\nFROM\n  t".to_string())),
        Ok("SELECT a, b FROM t ".to_string())
    );
    assert_eq!(report_compiled(Ok(String::new())), Ok(String::new()));
    assert_eq!(
        report_compiled(Err("bad".to_string())),
        Err("Cannot compile your query into SQL: \nbad".to_string())
    );
}

#[test]
fn report_compiled_is_idempotent() {
    let once = report_compiled(Ok("SELECT\t*\n FROM  t ".to_string())).unwrap();
    assert_eq!(report_compiled(Ok(once.clone())), Ok(once));
}

#[test]
fn affected_rows_messages() {
    assert_eq!(affected_rows_message(0), "0 row effected");
    assert_eq!(affected_rows_message(1), "1 row effected");
    assert_eq!(affected_rows_message(2), "2 rows effected");
    assert_eq!(affected_rows_message(1234), "1234 rows effected");
}

#[test]
fn sql_plan_shows_rows_of_read_only_queries() {
    assert_eq!(plan_sql(3, true), SqlPlan::ShowRows);
    assert_eq!(plan_sql(0, true), SqlPlan::Execute);
    assert_eq!(plan_sql(3, false), SqlPlan::Execute);
}

#[test]
fn cell_values_as_text() {
    assert_eq!(row_value_parser(&CellValue::Null), "-");
    assert_eq!(row_value_parser(&CellValue::Integer(-17)), "-17");
    assert_eq!(row_value_parser(&CellValue::Integer(i64::MIN)), i64::MIN.to_string());
    assert_eq!(row_value_parser(&CellValue::Integer(i64::MAX)), i64::MAX.to_string());
    assert_eq!(row_value_parser(&CellValue::Text("héllo".to_string())), "héllo");
    assert_eq!(row_value_parser(&CellValue::Blob(vec![])), format!("{:?}", Vec::<u8>::new()));
    assert_eq!(row_value_parser(&CellValue::Blob(vec![0, 10, 255])), "[0, 10, 255]");
}

fn comfy(preset: &str, header: Vec<&str>, rows: Vec<Vec<&str>>) -> String {
    let mut t = Table::new();
    t.load_preset(preset)
        .set_content_arrangement(ContentArrangement::Dynamic)
        .set_width(80)
        .set_header(header);
    for r in rows {
        t.add_row(r);
    }
    format!("{t}")
}

#[test]
fn help_text_is_the_borderless_help_table() {
    let expected = comfy(
        presets::NOTHING,
        vec!["Command", "Args", "Description"],
        vec![
            vec!["quit", "", "Exit PRQLite program"],
            vec!["compile", "<PRQL_QUERY>", "Compile PRQL into SQL"],
            vec!["exit", "<CODE>", "Exit PRQLite program with custom exit code"],
            vec!["compile", "<SQL_QUERY>", "Execute SQL query instead of PRQL"],
        ],
    );
    assert_eq!(help_text(), expected);
}

#[test]
fn render_rows_is_a_bordered_table() {
    let names = vec!["ID".to_string(), "Name".to_string()];
    let rows = vec![
        vec!["1".to_string(), "ann".to_string()],
        vec!["2".to_string(), "-".to_string()],
    ];
    let text = render_rows(&names, &rows);
    assert_eq!(
        text,
        comfy(presets::UTF8_FULL, vec!["ID", "Name"], vec![vec!["1", "ann"], vec!["2", "-"]])
    );
    assert!(text.starts_with('┌'));
    assert!(text.contains("ann"));
}

#[test]
fn sql_runs_are_shown_as_text() {
    assert_eq!(sql_run_output(&SqlRun::Changed(0)), Ok("0 row effected".to_string()));
    assert_eq!(sql_run_output(&SqlRun::Changed(1)), Ok("1 row effected".to_string()));
    assert_eq!(sql_run_output(&SqlRun::Changed(3)), Ok("3 rows effected".to_string()));
    assert_eq!(
        sql_run_output(&SqlRun::Failed("no such table: t".to_string())),
        Err("no such table: t".to_string())
    );
    let run = SqlRun::Rows {
        column_names: vec!["a".to_string()],
        rows: vec![vec!["1".to_string()], vec!["NULL".to_string()]],
    };
    assert_eq!(
        sql_run_output(&run),
        Ok(comfy(presets::UTF8_FULL, vec!["a"], vec![vec!["1"], vec!["NULL"]]))
    );
}

fn lines(s: &str) -> Vec<String> {
    let v: Vec<char> = s.chars().collect();
    lines_chars(&v).iter().map(|l| l.iter().collect()).collect()
}

#[test]
fn lines_follow_str_lines() {
    for s in ["", "a", "a\n", "\n", "a\r\nb", "a\n\nb\n", "a\r", "a\rb\r\n", "\r\n\r\n"] {
        let expected: Vec<String> = s.lines().map(|l| l.to_string()).collect();
        assert_eq!(lines(s), expected, "{s:?}");
    }
    assert_eq!(lines("x\r\ny\n"), vec!["x", "y"]);
}
