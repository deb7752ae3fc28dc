use chumsky::error::Rich;
use chumsky::extra;
use chumsky::primitive::just;
use chumsky::text;
use chumsky::{IterParser, Parser};
use endb_lib::diagnostic::endb_annotate_input_with_error;
use endb_lib::parse::{endb_ast_vec_len, endb_parse_sql, ParseResult, SqlParseStep};

fn statements<'a>() -> impl Parser<'a, &'a str, Vec<u64>, extra::Err<Rich<'a, char>>> {
    just("SELECT")
        .padded()
        .ignore_then(text::int(10).padded())
        .map(|digits: &str| digits.parse::<u64>().unwrap())
        .separated_by(just(';'))
        .collect::<Vec<u64>>()
}

fn run(input: &str) -> ParseResult<Vec<u64>, (usize, usize)> {
    let (output, errors) = statements().parse(input).into_output_errors();
    let spans = errors
        .iter()
        .map(|e| (e.span().start, e.span().end))
        .collect();
    ParseResult::new(output, spans)
}

#[test]
fn select_one_yields_one_statement() {
    match endb_parse_sql(run("SELECT 1")) {
        SqlParseStep::Success(ast) => {
            assert_eq!(endb_ast_vec_len(&ast), 1);
            assert_eq!(ast, vec![1]);
        }
        SqlParseStep::Fallback => panic!("valid text must reach the success continuation"),
    }
}

#[test]
fn two_statements_yield_two_nodes() {
    match endb_parse_sql(run("SELECT 1; SELECT 22")) {
        SqlParseStep::Success(ast) => assert_eq!(ast, vec![1, 22]),
        SqlParseStep::Fallback => panic!("valid text must reach the success continuation"),
    }
}

#[test]
fn empty_input_is_an_artifact_without_statements() {
    match endb_parse_sql(run("")) {
        SqlParseStep::Success(ast) => assert_eq!(endb_ast_vec_len(&ast), 0),
        SqlParseStep::Fallback => panic!("empty text is valid"),
    }
}

#[test]
fn truncated_select_is_diagnosed_at_end_of_input() {
    let input = "SELECT";
    let fast = run(input);
    assert!(!fast.has_output());
    assert_eq!(endb_parse_sql(fast), SqlParseStep::Fallback);
    let second = run(input);
    let errors = second.into_errors();
    assert_eq!(errors, vec![(6, 6)]);
    let (start, end) = errors[0];
    let rendered =
        endb_annotate_input_with_error(input.as_bytes(), b"found end of input", start, end);
    assert_eq!(
        String::from_utf8(rendered.unwrap()).unwrap(),
        "error: found end of input\nSELECT\n      ^\n"
    );
}
