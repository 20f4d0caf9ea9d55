use text_transform::command::Command;
use text_transform::parse_args;
use text_transform::pipeline::ConsumerOutput;
use text_transform::pipeline::InputSource;
use text_transform::pipeline::Mode;
use text_transform::pipeline::ProducerState;
use text_transform::pipeline::Request;
use text_transform::pipeline::format_output;
use text_transform::pipeline::input_source;
use text_transform::pipeline::plan;
use text_transform::pipeline::process;
use text_transform::pipeline::process_all;
use text_transform::pipeline::producer_step;
use text_transform::pipeline::strip_line_ending;

fn args(list: &[&str]) -> Vec<String> {
    list.iter().map(|s| s.to_string()).collect()
}

const BANNER_TOP: &str = "---------------------------\nTransformed text:\n";
const BANNER_BOTTOM: &str = "\n---------------------------";

fn banner(text: &str) -> String {
    format!("{}{}{}", BANNER_TOP, text, BANNER_BOTTOM)
}

#[test]
fn parse_args_picks_the_second_argument() {
    assert!(matches!(parse_args(args(&["prog", "csv"])), Ok(Command::Csv)));
    assert!(matches!(parse_args(args(&["prog", "exit", "x"])), Ok(Command::Exit)));
    let err = parse_args(args(&["prog", "nope"])).unwrap_err();
    assert_eq!(err.invalid_command, "nope");
}

#[test]
fn plan_chooses_mode_by_argument_count() {
    assert!(matches!(plan(&args(&["prog"])), Ok(Mode::Interactive)));
    assert!(matches!(plan(&args(&["prog", "slugify"])), Ok(Mode::CommandOnly(Command::Slugify))));
    match plan(&args(&["prog", "uppercase", "hello world"])) {
        Ok(Mode::CommandWithText(Command::Uppercase, text)) => assert_eq!(text, "hello world"),
        other => panic!("unexpected plan: {:?}", other.is_ok()),
    }
    assert!(matches!(plan(&args(&["prog", "a", "b", "c"])), Ok(Mode::Interactive)));
}

#[test]
fn plan_rejects_an_unknown_command_fatally() {
    let err = plan(&args(&["prog", "frobnicate"])).unwrap_err();
    assert_eq!(err.invalid_command, "frobnicate");
}

#[test]
fn csv_reads_the_whole_stream_and_the_rest_one_line() {
    assert_eq!(input_source(Command::Csv), InputSource::WholeStream);
    assert_eq!(input_source(Command::Uppercase), InputSource::SingleLine);
    assert_eq!(input_source(Command::Slugify), InputSource::SingleLine);
}

#[test]
fn inline_arguments_run_without_standard_input() {
    // The whole non-interactive path: ["prog", "uppercase", "hello world"].
    let mode = plan(&args(&["prog", "uppercase", "hello world"])).unwrap();
    let request = match mode {
        Mode::CommandWithText(command, text) => Request { command, text },
        _ => panic!("expected inline text"),
    };
    match process(&request) {
        ConsumerOutput::Printed(block) => assert_eq!(block, banner("HELLO WORLD")),
        ConsumerOutput::Reported(_) => panic!("transformation should succeed"),
    }
}

#[test]
fn command_only_reads_its_text_from_a_line() {
    // The whole ["prog", "slugify"] path with stdin line "Hello World!\n".
    let mode = plan(&args(&["prog", "slugify"])).unwrap();
    let command = match mode {
        Mode::CommandOnly(command) => command,
        _ => panic!("expected command-only mode"),
    };
    assert_eq!(input_source(command), InputSource::SingleLine);
    let text = strip_line_ending("Hello World!\n");
    assert_eq!(text, "Hello World!");
    match process(&Request { command, text }) {
        ConsumerOutput::Printed(block) => assert_eq!(block, banner("hello-world")),
        ConsumerOutput::Reported(_) => panic!("transformation should succeed"),
    }
}

#[test]
fn strip_line_ending_takes_one_terminator() {
    assert_eq!(strip_line_ending("hi\n"), "hi");
    assert_eq!(strip_line_ending("hi\r\n"), "hi");
    assert_eq!(strip_line_ending("hi"), "hi");
    assert_eq!(strip_line_ending("\n"), "");
    assert_eq!(strip_line_ending(""), "");
    assert_eq!(strip_line_ending("a\nb\n"), "a\nb");
}

#[test]
fn interactive_session_produces_one_output_then_stops() {
    // stdin stream "uppercase\nhi\nexit\n", one line per step.
    let mut state = ProducerState::AwaitCommand;
    let mut requests: Vec<Request> = Vec::new();

    let (next, request, err) = producer_step(state, Some("uppercase".to_string()));
    assert!(request.is_none() && err.is_none());
    state = next;
    assert_eq!(state, ProducerState::AwaitText(Command::Uppercase));

    let (next, request, err) = producer_step(state, Some("hi".to_string()));
    assert!(err.is_none());
    requests.extend(request);
    state = next;
    assert_eq!(state, ProducerState::AwaitCommand);

    let (next, request, err) = producer_step(state, Some("exit".to_string()));
    assert!(request.is_none() && err.is_none());
    state = next;
    assert_eq!(state, ProducerState::Finished);

    // Nothing follows the exit, even if more input were to arrive.
    let (next, request, err) = producer_step(state, Some("uppercase".to_string()));
    assert!(request.is_none() && err.is_none());
    assert_eq!(next, ProducerState::Finished);

    assert_eq!(requests.len(), 1);
    assert_eq!(requests[0].command, Command::Uppercase);
    assert_eq!(requests[0].text, "hi");
    match process(&requests[0]) {
        ConsumerOutput::Printed(block) => assert_eq!(block, banner("HI")),
        ConsumerOutput::Reported(_) => panic!("transformation should succeed"),
    }
}

#[test]
fn interactive_session_ends_at_end_of_input() {
    let (next, request, err) = producer_step(ProducerState::AwaitCommand, None);
    assert_eq!(next, ProducerState::Finished);
    assert!(request.is_none() && err.is_none());

    let (next, request, err) =
        producer_step(ProducerState::AwaitText(Command::Csv), None);
    assert_eq!(next, ProducerState::Finished);
    assert!(request.is_none() && err.is_none());
}

#[test]
fn interactive_session_reports_a_bad_command_and_goes_on() {
    let (next, request, err) =
        producer_step(ProducerState::AwaitCommand, Some("frobnicate".to_string()));
    assert_eq!(next, ProducerState::AwaitCommand);
    assert!(request.is_none());
    assert_eq!(err.unwrap().invalid_command, "frobnicate");
}

#[test]
fn requests_are_consumed_in_arrival_order() {
    let requests = vec![
        Request { command: Command::Uppercase, text: "a b".to_string() },
        Request { command: Command::NoSpaces, text: "a b".to_string() },
        Request { command: Command::Lowercase, text: "AB".to_string() },
        Request { command: Command::Csv, text: "x,y\n1".to_string() },
    ];
    let outputs = process_all(&requests);
    assert_eq!(outputs.len(), 4);
    match &outputs[0] {
        ConsumerOutput::Printed(block) => assert_eq!(*block, banner("A B")),
        _ => panic!("first request should print"),
    }
    match &outputs[1] {
        ConsumerOutput::Printed(block) => assert_eq!(*block, banner("ab")),
        _ => panic!("second request should print"),
    }
    match &outputs[2] {
        ConsumerOutput::Printed(block) => assert_eq!(*block, banner("ab")),
        _ => panic!("third request should print"),
    }
    // The failing request is reported in its place and ends nothing.
    match &outputs[3] {
        ConsumerOutput::Reported(diag) => {
            assert_eq!(*diag, "malformed CSV: record 1 has 1 fields, expected 2")
        },
        _ => panic!("fourth request should report its error"),
    }
}

#[test]
fn the_banner_wraps_the_transformed_text() {
    assert_eq!(format_output("X"), banner("X"));
}
