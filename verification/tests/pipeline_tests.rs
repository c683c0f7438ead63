use ulac::discovery::select_units;
use ulac::error::join_lines;
use ulac::error::Error;
use ulac::outcome::annotate_diagnostics;
use ulac::outcome::batch_outcomes;
use ulac::outcome::read_failure_outcome;
use ulac::outcome::unit_outcome;
use ulac::outcome::CompileOutcome;
use ulac::plan::plan_run;
use ulac::plan::RunMode;
use ulac::report::finalize_single;
use ulac::report::finalize_tree;
use ulac::report::success_message;
use ulac::report::u64_to_decimal;

fn s(text: &str) -> String {
    text.to_string()
}

#[test]
fn discovery_keeps_only_matching_suffix_files() {
    let all = vec![
        s("/a/x/y.ula"),
        s("/a/readme.md"),
        s("/a/x/deep/z.ula"),
        s("/a/x/deep/z.lua"),
        s("/a/top.ula"),
    ];
    let units = select_units("/a", &all);
    assert_eq!(units.len(), 3);
    assert_eq!(units[0].abs_path, "/a/x/y.ula");
    assert_eq!(units[0].rel_path, "x/y.ula");
    assert_eq!(units[1].abs_path, "/a/x/deep/z.ula");
    assert_eq!(units[1].rel_path, "x/deep/z.ula");
    assert_eq!(units[2].abs_path, "/a/top.ula");
    assert_eq!(units[2].rel_path, "top.ula");
}

#[test]
fn annotation_names_the_offending_file() {
    let outcome = unit_outcome("/a/z.src", Some(Err(vec![s("syntax error")])));
    match outcome {
        CompileOutcome::Failure(lines) => {
            assert_eq!(lines, vec![s("syntax error in </a/z.src>")]);
        }
        CompileOutcome::Success(_) => panic!("a failed compile must stay a failure"),
    }
}

#[test]
fn annotation_keeps_diagnostic_order() {
    let lines = annotate_diagnostics(&vec![s("first"), s("second")], "/p/q.ula");
    assert_eq!(
        lines,
        vec![s("first in </p/q.ula>"), s("second in </p/q.ula>")]
    );
}

#[test]
fn successful_compile_passes_text_through() {
    let outcome = unit_outcome("/a/ok.ula", Some(Ok(s("translated"))));
    match outcome {
        CompileOutcome::Success(text) => assert_eq!(text, "translated"),
        CompileOutcome::Failure(_) => panic!("a successful compile must stay a success"),
    }
}

#[test]
fn unreadable_source_names_the_file() {
    let outcome = read_failure_outcome("/a/locked.ula");
    match outcome {
        CompileOutcome::Failure(lines) => {
            assert_eq!(lines, vec![s("could not read source file in </a/locked.ula>")]);
        }
        CompileOutcome::Success(_) => panic!("an unreadable source must be a failure"),
    }
}

#[test]
fn single_file_outcome_maps_one_to_one() {
    let (artifact, report) = finalize_single(
        "/b/one.lua",
        CompileOutcome::Success(s("return 1")),
        7,
    );
    let artifact = artifact.expect("a success owes exactly one artifact");
    assert_eq!(artifact.output_path, "/b/one.lua");
    assert_eq!(artifact.content, "return 1");
    assert_eq!(report.total, 1);
    assert_eq!(report.failed, 0);
    assert_eq!(report.elapsed_ms, 7);
    assert!(report.is_success());

    let (artifact, report) = finalize_single(
        "/b/two.lua",
        CompileOutcome::Failure(vec![s("boom in </a/two.ula>")]),
        9,
    );
    assert!(artifact.is_none());
    assert_eq!(report.total, 1);
    assert_eq!(report.failed, 1);
    assert!(!report.is_success());
    assert_eq!(report.diagnostics, vec![s("boom in </a/two.ula>")]);
}

#[test]
fn failing_unit_leaves_sibling_artifact_intact() {
    let inputs = vec![
        (s("/a/bad.ula"), Some(Err(vec![s("syntax error")]))),
        (s("/a/good.ula"), Some(Ok(s("print('ok')")))),
    ];
    let results = batch_outcomes(inputs);
    let (artifacts, report) = finalize_tree("/a", "/b", &results, 3);
    assert_eq!(report.total, 2);
    assert_eq!(report.failed, 1);
    assert!(!report.is_success());
    assert_eq!(report.diagnostics, vec![s("syntax error in </a/bad.ula>")]);
    assert_eq!(artifacts.len(), 1);
    assert_eq!(artifacts[0].output_path, "/b/good.lua");
    assert_eq!(artifacts[0].content, "print('ok')");
}

#[test]
fn rerun_over_unchanged_inputs_is_byte_identical() {
    let make_inputs = || {
        vec![
            (s("/a/x/y.ula"), Some(Ok(s("local y = 1")))),
            (s("/a/z.ula"), Some(Ok(s("local z = 2")))),
        ]
    };
    let first = finalize_tree("/a", "/b", &batch_outcomes(make_inputs()), 1);
    let second = finalize_tree("/a", "/b", &batch_outcomes(make_inputs()), 1);
    assert_eq!(first.0.len(), second.0.len());
    for (a, b) in first.0.iter().zip(second.0.iter()) {
        assert_eq!(a.output_path, b.output_path);
        assert_eq!(a.content.as_bytes(), b.content.as_bytes());
    }
    assert_eq!(first.1.failed, second.1.failed);
}

#[test]
fn empty_unit_set_reports_success() {
    let results = batch_outcomes(Vec::new());
    assert_eq!(results.len(), 0);
    let (artifacts, report) = finalize_tree("/a", "/b", &results, 2);
    assert_eq!(artifacts.len(), 0);
    assert_eq!(report.total, 0);
    assert_eq!(report.failed, 0);
    assert!(report.is_success());
    assert!(report.diagnostics.is_empty());
}

#[test]
fn missing_input_root_rejects_the_run() {
    let r = plan_run("/no/in", "/b", false, false, false, true, false, true);
    match r {
        Err(e) => assert_eq!(
            e.message(),
            "Error: File or directory </no/in> does not exist"
        ),
        Ok(_) => panic!("a missing input root must reject the run"),
    }
}

#[test]
fn missing_output_root_rejects_a_directory_run() {
    let r = plan_run("/a", "/no/out", true, false, true, false, false, false);
    match r {
        Err(e) => assert_eq!(
            e.message(),
            "Error: File or directory </no/out> does not exist"
        ),
        Ok(_) => panic!("a directory run without an output root must be rejected"),
    }
}

#[test]
fn directory_input_demands_directory_output() {
    let r = plan_run("/a", "/b/file", true, false, true, true, true, false);
    match r {
        Err(e) => assert_eq!(
            e.message(),
            "If the input path is a directory, the output path must also be a directory"
        ),
        Ok(_) => panic!("a file output root must reject a directory run"),
    }
}

#[test]
fn run_modes_are_decided_from_the_roots() {
    match plan_run("/a/f.ula", "/b/f.lua", true, true, false, false, false, false) {
        Ok(RunMode::SingleFile { create_output }) => assert!(create_output),
        _ => panic!("a file input with a fresh output path is single-file mode"),
    }
    match plan_run("/a/f.ula", "/b/f.lua", true, true, false, true, true, false) {
        Ok(RunMode::SingleFile { create_output }) => assert!(!create_output),
        _ => panic!("a file input with an existing output file is single-file mode"),
    }
    match plan_run("/a", "/b", true, false, true, true, false, true) {
        Ok(RunMode::Tree) => {}
        _ => panic!("a directory pair runs in tree mode"),
    }
    match plan_run("/a/f.ula", "/b", true, true, false, true, false, true) {
        Err(e) => assert_eq!(e.message(), "Unsupported input / output type combination"),
        Ok(_) => panic!("a file input with a directory output path is rejected"),
    }
}

#[test]
fn error_carries_its_message() {
    let e = Error::new(s("something went wrong"));
    assert_eq!(e.message(), "something went wrong");
}

#[test]
fn error_converts_from_a_message_string() {
    let e = Error::from(s("boom"));
    assert_eq!(e.message(), "boom");
}

#[test]
fn success_message_carries_elapsed_milliseconds() {
    assert_eq!(u64_to_decimal(0), "0");
    assert_eq!(u64_to_decimal(7), "7");
    assert_eq!(u64_to_decimal(1230), "1230");
    assert_eq!(u64_to_decimal(u64::MAX), "18446744073709551615");
    assert_eq!(success_message(42), "Compiled successfully in 42ms");
}

#[test]
fn lines_join_with_crlf() {
    assert_eq!(join_lines(&Vec::new()), "");
    assert_eq!(join_lines(&vec![s("only")]), "only");
    assert_eq!(join_lines(&vec![s("a"), s("b"), s("c")]), "a\r\nb\r\nc");
    let e = Error::from_lines(&vec![s("x in </p>"), s("y in </p>")]);
    assert_eq!(e.message(), "x in </p>\r\ny in </p>");
}
