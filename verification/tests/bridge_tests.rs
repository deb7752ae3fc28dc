use endb_lib::fault::{endb_set_panic_hook, FaultChain, FaultStep};
use endb_lib::logging::{
    do_log, endb_init_logger, endb_log_debug, endb_log_error, endb_log_info, endb_log_trace,
    endb_log_warn, Level, Record,
};
use endb_lib::parse::{
    endb_ast_size, endb_ast_vec_element, endb_ast_vec_len, endb_ast_vec_ptr, endb_parse_sql,
    ParseResult, SqlParseStep,
};
use endb_lib::stream::{endb_arrow_array_stream_consumer, endb_arrow_array_stream_producer};
use endb_lib::text::{input_text, is_nul_free, string_callback, Continuation, TextError};

#[test]
fn text_gets_its_terminator() {
    assert_eq!(string_callback(b"abc".to_vec()), b"abc\0".to_vec());
    assert_eq!(string_callback(Vec::new()), vec![0u8]);
}

#[test]
fn text_with_a_terminator_inside_is_unfit() {
    assert!(is_nul_free(b"abc"));
    assert!(is_nul_free(b""));
    assert!(!is_nul_free(b"a\0c"));
    assert!(!is_nul_free(b"\0"));
    assert!(!is_nul_free(b"abc\0"));
}

#[test]
fn parse_result_accessors() {
    let r: ParseResult<u32, &str> = ParseResult::new(Some(5), vec!["late"]);
    assert!(r.has_output());
    assert!(r.has_errors());
    assert_eq!(r.into_output(), Some(5));
    let r: ParseResult<u32, &str> = ParseResult::new(None, vec!["a", "b"]);
    assert!(!r.has_output());
    assert_eq!(r.into_errors(), vec!["a", "b"]);
    let r: ParseResult<u32, &str> = ParseResult::new(Some(1), vec![]);
    assert!(!r.has_errors());
}

#[test]
fn parse_with_output_succeeds_with_one_statement() {
    let fast: ParseResult<Vec<&str>, &str> = ParseResult::new(Some(vec!["SELECT 1"]), vec![]);
    match endb_parse_sql(fast) {
        SqlParseStep::Success(ast) => {
            assert_eq!(endb_ast_vec_len(&ast), 1);
            assert_eq!(*endb_ast_vec_element(&ast, 0), "SELECT 1");
        }
        SqlParseStep::Fallback => panic!("the fast parse had an output"),
    }
}

#[test]
fn parse_of_empty_input_succeeds_with_no_statement() {
    let fast: ParseResult<Vec<u8>, &str> = ParseResult::new(Some(vec![]), vec![]);
    assert_eq!(endb_parse_sql(fast), SqlParseStep::Success(vec![]));
}

#[test]
fn parse_with_output_and_errors_still_succeeds() {
    let fast: ParseResult<Vec<u8>, &str> = ParseResult::new(Some(vec![1, 2]), vec!["noted"]);
    assert_eq!(endb_parse_sql(fast), SqlParseStep::Success(vec![1, 2]));
}

#[test]
fn parse_without_output_falls_back() {
    let fast: ParseResult<Vec<u8>, &str> = ParseResult::new(None, vec![]);
    assert_eq!(endb_parse_sql(fast), SqlParseStep::Fallback);
    let fast: ParseResult<Vec<u8>, &str> = ParseResult::new(None, vec!["found end of input"]);
    assert_eq!(endb_parse_sql(fast), SqlParseStep::Fallback);
}

#[test]
fn artifact_view() {
    let ast: Vec<u64> = vec![10, 20, 30];
    assert_eq!(endb_ast_vec_len(&ast), 3);
    assert_eq!(endb_ast_vec_ptr(&ast), &[10u64, 20, 30][..]);
    assert_eq!(*endb_ast_vec_element(&ast, 0), 10);
    assert_eq!(*endb_ast_vec_element(&ast, 2), 30);
    assert_eq!(endb_ast_size::<u64>(), 8);
    assert_eq!(endb_ast_size::<(u32, u8)>(), 8);
    let none: Vec<u64> = vec![];
    assert_eq!(endb_ast_vec_len(&none), 0);
    assert!(endb_ast_vec_ptr(&none).is_empty());
}

#[test]
fn producer_writes_the_decoded_stream() {
    let mut slot: Vec<u32> = vec![];
    let error = endb_arrow_array_stream_producer(&mut slot, Ok(vec![1, 2, 3]));
    assert_eq!(error, None);
    assert_eq!(slot, vec![1, 2, 3]);
}

#[test]
fn producer_reports_a_malformed_buffer() {
    let mut slot: Vec<u32> = vec![9];
    let error = endb_arrow_array_stream_producer(&mut slot, Err(b"unexpected end".to_vec()));
    assert_eq!(error, Some(b"unexpected end\0".to_vec()));
    assert_eq!(slot, vec![9]);
}

#[test]
fn consumer_hands_over_the_whole_buffer() {
    let buffer = vec![255u8, 255, 255, 255, 0, 0, 0, 0];
    let call = endb_arrow_array_stream_consumer(Ok(buffer.clone()));
    assert_eq!(call, Continuation::Success(buffer));
    let call = endb_arrow_array_stream_consumer(Ok(vec![]));
    assert_eq!(call, Continuation::Success(vec![]));
}

#[test]
fn consumer_reports_a_failed_pull() {
    let call = endb_arrow_array_stream_consumer(Err(b"pull failed".to_vec()));
    assert_eq!(call, Continuation::Error(b"pull failed\0".to_vec()));
}

#[test]
fn logger_setup_reports_only_failure() {
    assert_eq!(endb_init_logger(Ok(())), None);
    assert_eq!(
        endb_init_logger(Err(b"already initialized".to_vec())),
        Some(b"already initialized\0".to_vec())
    );
}

#[test]
fn records_carry_level_target_and_message() {
    let expected = |level: Level| Record {
        level,
        target: b"endb".to_vec(),
        message: b"started".to_vec(),
    };
    let target = || b"endb".to_vec();
    let message = || b"started".to_vec();
    assert_eq!(endb_log_error(target(), message()), expected(Level::Error));
    assert_eq!(endb_log_warn(target(), message()), expected(Level::Warn));
    assert_eq!(endb_log_info(target(), message()), expected(Level::Info));
    assert_eq!(endb_log_debug(target(), message()), expected(Level::Debug));
    assert_eq!(endb_log_trace(target(), message()), expected(Level::Trace));
    assert_eq!(
        do_log(Level::Warn, target(), message()),
        expected(Level::Warn)
    );
}

#[test]
fn fault_without_observers_goes_to_the_platform() {
    let chain = FaultChain::new();
    assert_eq!(chain.on_fault(b"boom"), vec![FaultStep::Default]);
}

#[test]
fn fault_is_reported_newest_observer_first() {
    let mut chain = FaultChain::new();
    endb_set_panic_hook(&mut chain, 1);
    endb_set_panic_hook(&mut chain, 2);
    assert_eq!(chain.observers, vec![1, 2]);
    assert_eq!(
        chain.on_fault(b"index out of bounds"),
        vec![
            FaultStep::Report {
                observer: 2,
                text: b"index out of bounds\0".to_vec()
            },
            FaultStep::Report {
                observer: 1,
                text: b"index out of bounds\0".to_vec()
            },
            FaultStep::Default,
        ]
    );
}

#[test]
fn fault_runs_the_platform_handler_once() {
    let mut chain = FaultChain::new();
    endb_set_panic_hook(&mut chain, 5);
    let steps = chain.on_fault(b"");
    let defaults = steps
        .iter()
        .filter(|s| matches!(s, FaultStep::Default))
        .count();
    assert_eq!(defaults, 1);
    assert_eq!(steps.last(), Some(&FaultStep::Default));
    assert_eq!(
        steps[0],
        FaultStep::Report {
            observer: 5,
            text: vec![0u8]
        }
    );
}

#[test]
fn input_text_ends_at_the_first_terminator() {
    assert_eq!(input_text(b"abc\0"), Ok(&b"abc"[..]));
    assert_eq!(input_text(b"abc\0def\0"), Ok(&b"abc"[..]));
    assert_eq!(input_text(b"\0"), Ok(&b""[..]));
    assert_eq!(input_text(b"\0abc"), Ok(&b""[..]));
}

#[test]
fn input_text_without_terminator_is_no_text() {
    assert_eq!(input_text(b"abc"), Err(TextError::Unterminated));
    assert_eq!(input_text(b""), Err(TextError::Unterminated));
    assert_eq!(input_text(&[0xff, 0xfe]), Err(TextError::Unterminated));
}

#[test]
fn input_text_accepts_well_formed_utf8() {
    let text = "SELECT 'h\u{e9}llo \u{20ac} \u{1f600}'";
    let mut buf = text.as_bytes().to_vec();
    buf.push(0);
    assert_eq!(input_text(&buf), Ok(text.as_bytes()));
}

#[test]
fn input_text_rejects_malformed_utf8() {
    assert_eq!(input_text(&[0xff, 0xfe, 0]), Err(TextError::NotUtf8));
    assert_eq!(input_text(&[b'a', 0x80, 0]), Err(TextError::NotUtf8));
    assert_eq!(input_text(&[0xc0, 0x80, 0]), Err(TextError::NotUtf8));
    assert_eq!(input_text(&[0xed, 0xa0, 0x80, 0]), Err(TextError::NotUtf8));
    assert_eq!(input_text(&[0xe2, 0x82, 0]), Err(TextError::NotUtf8));
    assert_eq!(input_text(&[0xf4, 0x90, 0x80, 0x80, 0]), Err(TextError::NotUtf8));
}

#[test]
fn input_text_ignores_what_follows_the_terminator() {
    assert_eq!(input_text(&[b'a', 0, 0xff]), Ok(&b"a"[..]));
}

#[test]
fn boundary_form_reads_back_as_the_text() {
    let text = b"SELECT 1".to_vec();
    let buf = string_callback(text.clone());
    assert_eq!(input_text(&buf), Ok(&text[..]));
    let buf = string_callback(Vec::new());
    assert_eq!(input_text(&buf), Ok(&b""[..]));
}
