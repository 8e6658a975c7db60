use taru::arguments::{
    check_argument, is_line_of, judge, resolve, substitute, substitute_segment, ArgumentError,
    Refusal,
};
use taru::cfg::{Argument, ArgumentType};
use taru::dict::Dict;
use taru::status::TaskStatus;
use taru::task::TaskState;

fn dict(pairs: &[(&str, &str)]) -> Dict<String> {
    let mut dict = Dict::new();
    for (name, value) in pairs {
        dict.insert(name.to_string(), value.to_string());
    }
    dict
}

fn argument(name: &str, datatype: ArgumentType, source: Option<&str>) -> Argument {
    Argument { name: name.to_string(), datatype, enum_source: source.map(|s| s.to_string()) }
}

fn registry_with(name: &str, status: TaskStatus, output: &[u8]) -> Dict<TaskState> {
    let mut record = TaskState::new(name.to_string());
    record.status = status;
    record.output.extend_from_slice(output);
    let mut tasks = Dict::new();
    tasks.insert(name.to_string(), record);
    tasks
}

#[test]
fn lines_of_an_output() {
    let output = b"alpha\nbeta\ngamma";
    assert!(is_line_of(output, b"alpha"));
    assert!(is_line_of(output, b"beta"));
    assert!(is_line_of(output, b"gamma"));
    assert!(!is_line_of(output, b"alph"));
    assert!(!is_line_of(output, b"lpha"));
    assert!(!is_line_of(output, b"alpha\n"));
    assert!(!is_line_of(output, b"alpha\nbeta"));
    assert!(!is_line_of(output, b""));
    assert!(!is_line_of(output, b"delta"));
}

#[test]
fn empty_lines_of_an_output() {
    assert!(is_line_of(b"", b""));
    assert!(is_line_of(b"a\n", b""));
    assert!(is_line_of(b"a\n", b"a"));
    assert!(is_line_of(b"\na", b""));
    assert!(is_line_of(b"a\n\nb", b""));
    assert!(!is_line_of(b"a\nb", b""));
    assert!(!is_line_of(b"", b"a"));
}

#[test]
fn segments_without_a_dollar_stay() {
    let arguments = dict(&[("target", "x86")]);
    assert_eq!(substitute_segment(&"make".to_string(), &arguments, None), "make");
    assert_eq!(substitute_segment(&"target".to_string(), &arguments, None), "target");
    assert_eq!(substitute_segment(&"".to_string(), &arguments, None), "");
    assert_eq!(substitute_segment(&"a$target".to_string(), &arguments, None), "a$target");
}

#[test]
fn argument_names_are_replaced_by_their_values() {
    let arguments = dict(&[("target", "x86"), ("jobs", "4")]);
    assert_eq!(substitute_segment(&"$target".to_string(), &arguments, None), "x86");
    assert_eq!(substitute_segment(&"$jobs".to_string(), &arguments, None), "4");
    assert_eq!(substitute_segment(&"$other".to_string(), &arguments, None), "$other");
    assert_eq!(substitute_segment(&"$".to_string(), &arguments, None), "$");
    assert_eq!(substitute_segment(&"$targets".to_string(), &arguments, None), "$targets");
}

#[test]
fn the_user_is_put_in_for_its_marker() {
    let arguments = dict(&[]);
    let user = "alice".to_string();
    assert_eq!(substitute_segment(&"$taru_user".to_string(), &arguments, Some(&user)), "alice");
    assert_eq!(substitute_segment(&"$taru_user".to_string(), &arguments, None), "");
}

#[test]
fn an_argument_named_like_the_marker_wins() {
    let arguments = dict(&[("taru_user", "bob")]);
    let user = "alice".to_string();
    assert_eq!(substitute_segment(&"$taru_user".to_string(), &arguments, Some(&user)), "bob");
}

#[test]
fn a_command_line_with_the_arguments_put_in() {
    let command: Vec<String> =
        ["deploy", "$env", "--by", "$taru_user", "$unknown"].iter().map(|s| s.to_string()).collect();
    let user = "alice".to_string();
    let line = substitute(&command, &dict(&[("env", "prod")]), Some(&user));
    assert_eq!(line, vec!["deploy", "prod", "--by", "alice", "$unknown"]);
    assert_eq!(substitute(&Vec::new(), &dict(&[]), None), Vec::<String>::new());
}

#[test]
fn any_text_will_do_for_a_string() {
    let tasks = Dict::new();
    let arg = argument("name", ArgumentType::String, None);
    assert_eq!(check_argument(&arg, "anything at all", &tasks), None);
    assert_eq!(check_argument(&arg, "", &tasks), None);
}

#[test]
fn a_number_must_be_a_number() {
    let tasks = Dict::new();
    let arg = argument("jobs", ArgumentType::Int, None);
    assert_eq!(check_argument(&arg, "4", &tasks), None);
    assert_eq!(check_argument(&arg, "-17", &tasks), None);
    assert_eq!(check_argument(&arg, "+3", &tasks), None);
    assert_eq!(check_argument(&arg, "2147483647", &tasks), None);
    assert_eq!(check_argument(&arg, "2147483648", &tasks), Some(Refusal::NotANumber));
    assert_eq!(check_argument(&arg, "four", &tasks), Some(Refusal::NotANumber));
    assert_eq!(check_argument(&arg, "", &tasks), Some(Refusal::NotANumber));
    assert_eq!(check_argument(&arg, " 4", &tasks), Some(Refusal::NotANumber));
    assert_eq!(check_argument(&arg, "4.0", &tasks), Some(Refusal::NotANumber));
}

#[test]
fn judge_goes_by_what_it_is_told_of_the_number() {
    let tasks = Dict::new();
    let arg = argument("jobs", ArgumentType::Int, None);
    assert_eq!(judge(&arg, "4", false, &tasks), Some(Refusal::NotANumber));
    assert_eq!(judge(&arg, "four", true, &tasks), None);
    let text = argument("name", ArgumentType::String, None);
    assert_eq!(judge(&text, "x", false, &tasks), None);
}

#[test]
fn a_choice_must_be_a_line_of_its_source() {
    let tasks = registry_with("branches", TaskStatus::Finished(Some(0)), b"main\ndev\n");
    let arg = argument("branch", ArgumentType::Enum, Some("branches"));
    assert_eq!(check_argument(&arg, "main", &tasks), None);
    assert_eq!(check_argument(&arg, "dev", &tasks), None);
    assert_eq!(check_argument(&arg, "de", &tasks), Some(Refusal::Invalid));
    assert_eq!(check_argument(&arg, "main\ndev", &tasks), Some(Refusal::Invalid));
    assert_eq!(check_argument(&arg, "", &tasks), Some(Refusal::Empty));
}

#[test]
fn a_choice_needs_a_source_that_has_finished() {
    let arg = argument("branch", ArgumentType::Enum, Some("branches"));
    let new = registry_with("branches", TaskStatus::New, b"");
    assert_eq!(check_argument(&arg, "main", &new), Some(Refusal::SourceNotReady));
    let running = registry_with("branches", TaskStatus::Running, b"main\n");
    assert_eq!(check_argument(&arg, "main", &running), Some(Refusal::SourceNotReady));
    let killed = registry_with("branches", TaskStatus::Finished(None), b"main\n");
    assert_eq!(check_argument(&arg, "main", &killed), None);
}

#[test]
fn a_choice_needs_a_source() {
    let tasks = registry_with("branches", TaskStatus::Finished(Some(0)), b"main\n");
    let unnamed = argument("branch", ArgumentType::Enum, None);
    assert_eq!(check_argument(&unnamed, "main", &tasks), Some(Refusal::NoSource));
    let unknown = argument("branch", ArgumentType::Enum, Some("tags"));
    assert_eq!(check_argument(&unknown, "main", &tasks), Some(Refusal::UnknownSource));
}

#[test]
fn resolve_takes_each_value_from_the_address_or_the_form() {
    let arguments = vec![
        argument("a", ArgumentType::String, None),
        argument("b", ArgumentType::Int, None),
        argument("c", ArgumentType::String, None),
    ];
    let params = dict(&[("a", "from address"), ("c", "address wins"), ("extra", "ignored")]);
    let form = dict(&[("b", "7"), ("c", "form loses")]);
    let values = resolve(&arguments, &params, &form, &Dict::new()).unwrap();
    assert_eq!(values.len(), 3);
    assert_eq!(values.key_at(0), "a");
    assert_eq!(values.get("a"), Some(&"from address".to_string()));
    assert_eq!(values.get("b"), Some(&"7".to_string()));
    assert_eq!(values.get("c"), Some(&"address wins".to_string()));
    assert!(!values.contains_key("extra"));
}

#[test]
fn resolve_without_arguments() {
    let values = resolve(&Vec::new(), &dict(&[("a", "1")]), &dict(&[]), &Dict::new()).unwrap();
    assert_eq!(values.len(), 0);
}

#[test]
fn resolve_reports_the_first_argument_that_fails() {
    let arguments = vec![
        argument("a", ArgumentType::String, None),
        argument("b", ArgumentType::Int, None),
        argument("c", ArgumentType::String, None),
    ];
    let err = resolve(&arguments, &dict(&[("a", "x"), ("b", "nope")]), &dict(&[]), &Dict::new());
    assert_eq!(err.err(), Some(ArgumentError { argument: 1, refusal: Refusal::NotANumber }));
    let err = resolve(&arguments, &dict(&[("a", "x"), ("b", "1")]), &dict(&[]), &Dict::new());
    assert_eq!(err.err(), Some(ArgumentError { argument: 2, refusal: Refusal::Missing }));
    let err = resolve(&arguments, &dict(&[]), &dict(&[("b", "nope")]), &Dict::new());
    assert_eq!(err.err(), Some(ArgumentError { argument: 0, refusal: Refusal::Missing }));
}

#[test]
fn resolve_checks_choices_against_the_registry() {
    let tasks = registry_with("branches", TaskStatus::Finished(Some(0)), b"main\ndev");
    let arguments = vec![argument("branch", ArgumentType::Enum, Some("branches"))];
    assert!(resolve(&arguments, &dict(&[("branch", "dev")]), &dict(&[]), &tasks).is_ok());
    let err = resolve(&arguments, &dict(&[("branch", "prod")]), &dict(&[]), &tasks);
    assert_eq!(err.err(), Some(ArgumentError { argument: 0, refusal: Refusal::Invalid }));
}
