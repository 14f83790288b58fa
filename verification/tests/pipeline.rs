use c_import::classify::LanguageMode;
use c_import::pipeline::{Action, Event, Failure, Pipeline, Stage, Warning};

fn names(v: &[String]) -> Vec<&str> {
    v.iter().map(|s| s.as_str()).collect()
}

fn arguments(input: &str) -> Event {
    Event::Arguments { input: input.to_string(), millis: 1700000000000 }
}

fn exited(success: bool, stdout: &str, stderr: &str) -> Event {
    Event::GeneratorExited {
        success,
        stdout: stdout.to_string(),
        stderr: stderr.as_bytes().to_vec(),
    }
}

#[test]
fn a_new_machine_waits_for_the_arguments() {
    let p = Pipeline::new(LanguageMode::C);
    assert_eq!(p.stage(), Stage::Parsing);
    assert!(p.warnings().is_empty());
    assert!(p.accepts(&arguments("x")));
    assert!(!p.accepts(&Event::HeaderRemoved));
    assert!(!p.accepts(&Event::GeneratorMissing));
}

#[test]
fn stub_generator_output_is_followed_by_one_link_block() {
    let mut p = Pipeline::new(LanguageMode::C);
    match p.step(arguments("\"<stdio.h>\", \"--link m\"")) {
        Action::WriteHeader { file_name, body } => {
            assert_eq!(body, "#pragma once\n#include <stdio.h>\n");
            assert!(file_name.starts_with("1700000000000"));
            assert!(file_name.ends_with("temphdr.h"));
        },
        other => panic!("unexpected: {:?}", other),
    }
    assert_eq!(p.stage(), Stage::Writing);
    match p.step(Event::HeaderWritten { path: "/tmp/x.h".to_string() }) {
        Action::RunGenerator(cmd) => {
            assert_eq!(cmd.program, "bindgen");
            assert_eq!(cmd.args[0], "/tmp/x.h");
            assert_eq!(names(&cmd.args[cmd.args.len() - 4..]), vec!["--", "-std=c17", "-w", "-I."]);
        },
        other => panic!("unexpected: {:?}", other),
    }
    assert_eq!(p.stage(), Stage::Invoking);
    match p.step(exited(true, "FIXED", "")) {
        Action::RemoveHeader { path } => assert_eq!(path.as_deref(), Some("/tmp/x.h")),
        other => panic!("unexpected: {:?}", other),
    }
    assert_eq!(p.stage(), Stage::CleaningUp);
    assert!(matches!(p.step(Event::HeaderRemoved), Action::Finish));
    assert_eq!(p.stage(), Stage::Done);
    assert!(p.warnings().is_empty());
    assert_eq!(p.into_result().unwrap(), "FIXED\n#[link(name = \"m\")]extern \"C\" {}");
}

#[test]
fn shell_directives_are_expanded_in_order_before_the_header_is_written() {
    let mut p = Pipeline::new(LanguageMode::Cpp);
    match p.step(arguments("\"<a.h>\", \"$echo -DFOO\", \"-DFIRST\", \"$pkg-config --cflags x\"")) {
        Action::RunShell(cmd) => {
            assert_eq!(cmd.program, "echo");
            assert_eq!(names(&cmd.args), vec!["-DFOO"]);
        },
        other => panic!("unexpected: {:?}", other),
    }
    assert_eq!(p.stage(), Stage::Expanding);
    match p.step(Event::ShellOutput { stdout: "-DFOO\n".to_string() }) {
        Action::RunShell(cmd) => {
            assert_eq!(cmd.program, "pkg-config");
            assert_eq!(names(&cmd.args), vec!["--cflags", "x"]);
        },
        other => panic!("unexpected: {:?}", other),
    }
    assert_eq!(p.stage(), Stage::Expanding);
    match p.step(Event::ShellOutput { stdout: "-I/x -I/y".to_string() }) {
        Action::WriteHeader { file_name, body } => {
            assert_eq!(body, "#pragma once\n#include <a.h>\n");
            assert!(file_name.ends_with("temphdr.hpp"));
        },
        other => panic!("unexpected: {:?}", other),
    }
    match p.step(Event::HeaderWritten { path: "h.hpp".to_string() }) {
        Action::RunGenerator(cmd) => {
            let sep = cmd.args.iter().position(|a| a == "--").unwrap();
            assert_eq!(names(&cmd.args[sep + 1..]), vec![
                "-xc++",
                "-w",
                "-std=c++17",
                "-I.",
                "-DFIRST",
                "-DFOO",
                "-I/x",
                "-I/y"
            ]);
            assert!(!cmd.args[..sep].iter().any(|a| a == "-DFOO"));
        },
        other => panic!("unexpected: {:?}", other),
    }
}

#[test]
fn failed_generator_exit_still_returns_its_output_with_a_warning() {
    let mut p = Pipeline::new(LanguageMode::C);
    p.step(arguments("\"<stdio.h>\""));
    p.step(Event::HeaderWritten { path: "/tmp/y.h".to_string() });
    match p.step(exited(false, "partial bindings", "error: boom")) {
        Action::RemoveHeader { path } => assert_eq!(path.as_deref(), Some("/tmp/y.h")),
        other => panic!("unexpected: {:?}", other),
    }
    assert!(matches!(p.step(Event::HeaderRemoved), Action::Finish));
    assert_eq!(p.warnings().len(), 1);
    assert!(
        matches!(&p.warnings()[0], Warning::GeneratorNonZeroExit { stderr } if stderr == b"error: boom")
    );
    assert_eq!(p.into_result().unwrap(), "partial bindings");
}

#[test]
fn failed_generator_exit_with_no_output_returns_the_empty_text() {
    let mut p = Pipeline::new(LanguageMode::C);
    p.step(arguments("\"<stdio.h>\""));
    p.step(Event::HeaderWritten { path: "/tmp/y.h".to_string() });
    p.step(exited(false, "", "fatal"));
    p.step(Event::HeaderRemoved);
    assert_eq!(p.stage(), Stage::Done);
    assert_eq!(p.into_result().unwrap(), "");
}

#[test]
fn missing_generator_fails_after_the_header_is_removed() {
    let mut p = Pipeline::new(LanguageMode::C);
    p.step(arguments("\"<stdio.h>\""));
    p.step(Event::HeaderWritten { path: "/tmp/z.h".to_string() });
    match p.step(Event::GeneratorMissing) {
        Action::RemoveHeader { path } => assert_eq!(path.as_deref(), Some("/tmp/z.h")),
        other => panic!("unexpected: {:?}", other),
    }
    assert_eq!(p.stage(), Stage::CleaningUp);
    assert!(matches!(p.step(Event::HeaderRemoved), Action::Finish));
    assert_eq!(p.stage(), Stage::Done);
    assert!(matches!(p.into_result(), Err(Failure::GeneratorNotFound)));
}

#[test]
fn failed_shell_directive_fails_the_invocation_through_the_cleanup() {
    let mut p = Pipeline::new(LanguageMode::C);
    p.step(arguments("\"<stdio.h>\", \"$no-such-program --flag\""));
    match p.step(Event::ShellFailed { exit_code: Some(3) }) {
        Action::RemoveHeader { path } => assert!(path.is_none()),
        other => panic!("unexpected: {:?}", other),
    }
    assert_eq!(p.stage(), Stage::CleaningUp);
    assert!(matches!(p.step(Event::HeaderRemoved), Action::Finish));
    assert_eq!(p.stage(), Stage::Done);
    match p.into_result() {
        Err(Failure::ShellExpansionFailed { directive, exit_code }) => {
            assert_eq!(directive, "no-such-program --flag");
            assert_eq!(exit_code, Some(3));
        },
        other => panic!("unexpected: {:?}", other),
    }
}

#[test]
fn shell_directive_that_cannot_be_started_has_no_exit_code() {
    let mut p = Pipeline::new(LanguageMode::C);
    p.step(arguments("\"$first\", \"$second\""));
    p.step(Event::ShellOutput { stdout: String::new() });
    p.step(Event::ShellFailed { exit_code: None });
    p.step(Event::HeaderRemoved);
    match p.into_result() {
        Err(Failure::ShellExpansionFailed { directive, exit_code }) => {
            assert_eq!(directive, "second");
            assert_eq!(exit_code, None);
        },
        other => panic!("unexpected: {:?}", other),
    }
}

#[test]
fn header_that_cannot_be_written_fails_the_invocation() {
    let mut p = Pipeline::new(LanguageMode::C);
    p.step(arguments("\"<stdio.h>\""));
    match p.step(Event::HeaderWriteFailed) {
        Action::RemoveHeader { path } => assert!(path.is_none()),
        other => panic!("unexpected: {:?}", other),
    }
    p.step(Event::HeaderRemoved);
    assert!(matches!(p.into_result(), Err(Failure::TempFileWriteFailed)));
}

#[test]
fn empty_argument_list_fails_the_invocation() {
    let mut p = Pipeline::new(LanguageMode::C);
    match p.step(arguments("   ")) {
        Action::RemoveHeader { path } => assert!(path.is_none()),
        other => panic!("unexpected: {:?}", other),
    }
    assert_eq!(p.stage(), Stage::CleaningUp);
    p.step(Event::HeaderRemoved);
    assert!(matches!(p.into_result(), Err(Failure::EmptyInvocation)));
}

#[test]
fn malformed_argument_fails_the_invocation_with_token_and_position() {
    let mut p = Pipeline::new(LanguageMode::C);
    p.step(arguments("\"<stdio.h>\", \"<broken\""));
    p.step(Event::HeaderRemoved);
    match p.into_result() {
        Err(Failure::MalformedArgument { token, position }) => {
            assert_eq!(token, "\"<broken\"");
            assert_eq!(position, 1);
        },
        other => panic!("unexpected: {:?}", other),
    }
}

#[test]
fn failed_cleanup_is_a_warning_and_keeps_the_result() {
    let mut p = Pipeline::new(LanguageMode::C);
    p.step(arguments("\"<stdio.h>\""));
    p.step(Event::HeaderWritten { path: "/tmp/w.h".to_string() });
    p.step(exited(true, "ok", ""));
    assert!(matches!(p.step(Event::HeaderRemoveFailed), Action::Finish));
    assert_eq!(p.stage(), Stage::Done);
    assert_eq!(p.warnings().len(), 1);
    assert!(matches!(&p.warnings()[0], Warning::TempFileCleanupFailed));
    assert_eq!(p.into_result().unwrap(), "ok");
}

#[test]
fn an_event_that_is_not_waited_for_changes_nothing() {
    let mut p = Pipeline::new(LanguageMode::C);
    assert!(matches!(p.step(Event::GeneratorMissing), Action::Finish));
    assert_eq!(p.stage(), Stage::Parsing);
    p.step(arguments("\"<stdio.h>\""));
    assert!(!p.accepts(&exited(true, "x", "")));
    assert!(matches!(p.step(exited(true, "x", "")), Action::Finish));
    assert_eq!(p.stage(), Stage::Writing);
    assert!(p.accepts(&Event::HeaderWriteFailed));
    p.step(Event::HeaderWritten { path: "p".to_string() });
    p.step(exited(true, "x", ""));
    p.step(Event::HeaderRemoved);
    assert_eq!(p.stage(), Stage::Done);
    assert!(!p.accepts(&Event::HeaderRemoved));
    assert!(matches!(p.step(arguments("\"<again.h>\"")), Action::Finish));
    assert_eq!(p.stage(), Stage::Done);
    assert_eq!(p.into_result().unwrap(), "x");
}

#[test]
fn the_entry_points_fix_the_language() {
    let (p, action) = c_import::pipeline::c_import("\"<a.h>\"".to_string(), 12);
    assert_eq!(p.stage(), Stage::Writing);
    match action {
        Action::WriteHeader { file_name, body } => {
            assert!(file_name.starts_with("12"));
            assert!(file_name.ends_with("temphdr.h"));
            assert_eq!(body, "#pragma once\n#include <a.h>\n");
        },
        other => panic!("unexpected: {:?}", other),
    }
    let (mut p, action) = c_import::pipeline::cpp_import("\"<a.h>\"".to_string(), 12);
    match action {
        Action::WriteHeader { file_name, .. } => assert!(file_name.ends_with("temphdr.hpp")),
        other => panic!("unexpected: {:?}", other),
    }
    match p.step(Event::HeaderWritten { path: "a.hpp".to_string() }) {
        Action::RunGenerator(cmd) => assert!(cmd.args.iter().any(|a| a == "-xc++")),
        other => panic!("unexpected: {:?}", other),
    }
    let (p, action) = c_import::pipeline::c_import(String::new(), 0);
    assert_eq!(p.stage(), Stage::CleaningUp);
    assert!(matches!(action, Action::RemoveHeader { path: None }));
}

#[test]
fn one_link_after_a_fixed_output_gives_the_output_and_one_block() {
    let (mut p, _) = c_import::pipeline::c_import("\"<stdio.h>\", \"--link m\"".to_string(), 1);
    p.step(Event::HeaderWritten { path: "/tmp/s.h".to_string() });
    p.step(exited(true, "pub const X: u32 = 1;", ""));
    p.step(Event::HeaderRemoved);
    assert_eq!(
        p.into_result().unwrap(),
        "pub const X: u32 = 1;\n#[link(name = \"m\")]extern \"C\" {}"
    );
}

#[test]
fn link_argument_reaches_the_text_and_not_the_command() {
    let (mut p, _) = c_import::pipeline::c_import(
        "\"<stdio.h>\", \"--link m\", \"--allowlist-function=f\", \"-DX\"".to_string(),
        1,
    );
    match p.step(Event::HeaderWritten { path: "/tmp/p.h".to_string() }) {
        Action::RunGenerator(cmd) => {
            assert_eq!(cmd.program, "bindgen");
            assert_eq!(names(&cmd.args), vec![
                "/tmp/p.h",
                "--use-core",
                "--no-layout-tests",
                "--no-doc-comments",
                "--no-prepend-enum-name",
                "--disable-header-comment",
                "--allowlist-function=f",
                "--",
                "-std=c17",
                "-w",
                "-I.",
                "-DX",
            ]);
            assert!(!cmd.args.iter().any(|a| a.starts_with("--link")));
        },
        other => panic!("unexpected: {:?}", other),
    }
    p.step(exited(true, "", ""));
    p.step(Event::HeaderRemoved);
    assert_eq!(p.into_result().unwrap(), "\n#[link(name = \"m\")]extern \"C\" {}");
}

#[test]
fn the_error_stream_is_kept_byte_for_byte() {
    let mut p = Pipeline::new(LanguageMode::C);
    p.step(arguments("\"<stdio.h>\""));
    p.step(Event::HeaderWritten { path: "/tmp/e.h".to_string() });
    p.step(Event::GeneratorExited {
        success: false,
        stdout: "out".to_string(),
        stderr: vec![0xff, 0x00, b'x', 0xfe],
    });
    p.step(Event::HeaderRemoved);
    assert!(matches!(
        &p.warnings()[0],
        Warning::GeneratorNonZeroExit { stderr } if stderr == &vec![0xff, 0x00, b'x', 0xfe]
    ));
    assert_eq!(p.into_result().unwrap(), "out");
}
