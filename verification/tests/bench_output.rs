use ussal::bench_output::{
    parse_bench_names, parse_wall_time_tokens, select_wall_time, ParseError, Reading,
};

fn reading(token: &str) -> Reading {
    Reading { token: token.to_owned(), bits: token.parse::<f32>().ok().map(f32::to_bits) }
}

#[test]
fn bench_names_are_what_stands_before_the_marker() {
    let output = "mat4_mul_mat4: benchmark\nvec3 dot: benchmark\n";
    assert_eq!(parse_bench_names(output), vec!["mat4_mul_mat4", "vec3 dot"]);
}

#[test]
fn lines_without_the_marker_are_passed_over() {
    let output = "warning: unused\nfoo: benchmark\n\nbar: bench\nbaz: benchmark \nqux: benchmark";
    assert_eq!(parse_bench_names(output), vec!["foo", "qux"]);
}

#[test]
fn output_without_benches_gives_no_names() {
    assert_eq!(parse_bench_names(""), Vec::<String>::new());
    assert_eq!(parse_bench_names("\n\n"), Vec::<String>::new());
    assert_eq!(parse_bench_names("nothing here"), Vec::<String>::new());
}

#[test]
fn bench_line_may_end_with_carriage_return_and_line_feed() {
    assert_eq!(parse_bench_names("foo: benchmark\r\nbar: benchmark\r\n"), vec!["foo", "bar"]);
    // A carriage return that no line feed follows belongs to the line.
    assert_eq!(parse_bench_names("foo: benchmark\r"), Vec::<String>::new());
}

#[test]
fn bench_name_may_be_empty_or_hold_the_marker_itself() {
    assert_eq!(parse_bench_names(": benchmark"), vec![""]);
    assert_eq!(parse_bench_names("a: benchmark: benchmark"), vec!["a: benchmark"]);
}

#[test]
fn bench_names_keep_characters_outside_ascii() {
    assert_eq!(parse_bench_names("größe/ünï→: benchmark\n"), vec!["größe/ünï→"]);
}

#[test]
fn bench_names_agree_with_line_splitting_of_the_standard_library() {
    let outputs = [
        "a: benchmark\nb: benchmark",
        "a: benchmark\r\n\r\nb: benchmark\n",
        "\r\na: benchmark\n\rb: benchmark\n",
        "a: benchmark\n\n\n",
        "x\r\r\na: benchmark\r\r\n",
    ];
    for output in outputs {
        let expected: Vec<String> = output
            .lines()
            .filter_map(|line| line.strip_suffix(": benchmark").map(|x| x.to_owned()))
            .collect();
        assert_eq!(parse_bench_names(output), expected, "for {output:?}");
    }
}

#[test]
fn wall_time_is_the_middle_measurement_of_the_time_line() {
    let line = "mat4_mul_mat4   time:   [1.0012 ns 1.2050 ns 1.5003 ns]";
    let tokens = parse_wall_time_tokens(line).unwrap();
    assert_eq!(tokens, vec!["1.2050"]);
    let readings: Vec<Reading> = tokens.iter().map(|token| reading(token)).collect();
    let bits = select_wall_time(&readings).unwrap();
    assert_eq!(bits, 1.2050f32.to_bits());
    assert!((f32::from_bits(bits) - 1.2050).abs() < 1e-6);
}

#[test]
fn line_without_time_marker_is_a_parse_error() {
    assert_eq!(
        parse_wall_time_tokens("mat4_mul_mat4   [1.0012 ns 1.2050 ns 1.5003 ns]"),
        Err(ParseError::MissingTimeMarker)
    );
    assert_eq!(parse_wall_time_tokens(""), Err(ParseError::MissingTimeMarker));
    // The marker ends with a space.
    assert_eq!(parse_wall_time_tokens("time:[1 ns 2 ns 3 ns]"), Err(ParseError::MissingTimeMarker));
}

#[test]
fn wall_time_is_found_inside_a_full_report() {
    let output = "Benchmarking foo\nBenchmarking foo: Warming up for 3.0000 s\n\
foo                     time:   [12.345 us 12.400 us 12.456 us]\n\
Found 3 outliers among 100 measurements (3.00%)\n";
    assert_eq!(parse_wall_time_tokens(output), Ok(vec!["12.400".to_owned()]));
}

#[test]
fn every_time_line_gives_a_token_and_the_last_reading_is_the_wall_time() {
    let output = "a time: [1 ns 2 ns 3 ns]\nnoise\nb time: [4 ns 5 ns 6 ns]\r\n";
    let tokens = parse_wall_time_tokens(output).unwrap();
    assert_eq!(tokens, vec!["2", "5"]);
    let readings: Vec<Reading> = tokens.iter().map(|token| reading(token)).collect();
    assert_eq!(select_wall_time(&readings), Ok(5.0f32.to_bits()));
}

#[test]
fn time_line_without_bracket_is_an_error() {
    assert_eq!(
        parse_wall_time_tokens("ok time: [1 ns 2 ns 3 ns]\nfoo time: 1 ns 2 ns 3 ns\n"),
        Err(ParseError::MissingBracket { line: "foo time: 1 ns 2 ns 3 ns".to_owned() })
    );
}

#[test]
fn time_line_with_fewer_than_three_words_is_an_error() {
    assert_eq!(
        parse_wall_time_tokens("foo time: [1.0 ns]"),
        Err(ParseError::MissingValue { line: "foo time: [1.0 ns]".to_owned() })
    );
    assert_eq!(
        parse_wall_time_tokens("foo time: ["),
        Err(ParseError::MissingValue { line: "foo time: [".to_owned() })
    );
    // Only what stands before the next `[` counts.
    assert_eq!(
        parse_wall_time_tokens("foo time: [1.0 ns [2.0 ns 3.0 ns]"),
        Err(ParseError::MissingValue { line: "foo time: [1.0 ns [2.0 ns 3.0 ns]".to_owned() })
    );
}

#[test]
fn the_first_bad_time_line_decides_the_error() {
    let output = "a time: [1 ns]\nb time: nothing\n";
    assert_eq!(
        parse_wall_time_tokens(output),
        Err(ParseError::MissingValue { line: "a time: [1 ns]".to_owned() })
    );
}

#[test]
fn words_are_separated_by_any_white_space() {
    assert_eq!(
        parse_wall_time_tokens("x time: [\t1.5\u{a0}ns\u{2003}\u{3000}2.5 ns 3.5 ns]"),
        Ok(vec!["2.5".to_owned()])
    );
    // A zero-width space is no white space.
    assert_eq!(
        parse_wall_time_tokens("x time: [1.5\u{200b}ns 2.5 ns 3.5 ns]"),
        Ok(vec!["ns".to_owned()])
    );
}

#[test]
fn third_word_agrees_with_word_splitting_of_the_standard_library() {
    let lines = [
        "a time: [1 2 3]",
        "a time: [ 1  2  3 ",
        "[x y z] time: [1 2 3]",
        "time: [\u{85}1\u{1680}2\u{2028}3\u{2029}4\u{202f}5\u{205f}6",
        "time: [1\u{b}2\u{c}3\u{d}4",
        "time: [1\u{1c}2 3 4",
        "time: [a b c[d e f",
    ];
    for line in lines {
        let expected = line.split('[').nth(1).unwrap().split_whitespace().nth(2).unwrap();
        assert_eq!(parse_wall_time_tokens(line), Ok(vec![expected.to_owned()]), "for {line:?}");
    }
}

#[test]
fn token_that_is_no_number_is_an_error() {
    let readings = vec![reading("1.5"), reading("fast"), reading("nope")];
    assert_eq!(
        select_wall_time(&readings),
        Err(ParseError::InvalidNumber { token: "fast".to_owned() })
    );
}

#[test]
fn no_reading_is_an_error() {
    assert_eq!(select_wall_time(&vec![]), Err(ParseError::MissingTimeMarker));
}

#[test]
fn parse_errors_say_what_is_wrong() {
    assert_eq!(ParseError::MissingTimeMarker.message(), "Did not find wall time in output");
    assert_eq!(
        ParseError::MissingBracket { line: "t time: x".to_owned() }.message(),
        "Did not find '[' in time report: t time: x"
    );
    assert_eq!(
        ParseError::MissingValue { line: "t time: [".to_owned() }.message(),
        "Did not find the wall time in time report: t time: ["
    );
    assert_eq!(
        ParseError::InvalidNumber { token: "ns]".to_owned() }.message(),
        "Failed to parse ns] as float"
    );
}
