use actions_core::{
    cmd_arg, encode, escape_data, escape_property, format_log, input, is_debug, state, var_from_name,
    var_key, Core, Environment, Log, LogLevel, VarError, VarTable,
};

#[test]
fn escape_data_keeps_plain_text() {
    assert_eq!(escape_data("hello world: a, b"), "hello world: a, b");
    assert_eq!(escape_data(""), "");
}

#[test]
fn escape_data_escapes_percent_and_line_breaks() {
    assert_eq!(escape_data("100%"), "100%25");
    assert_eq!(escape_data("a\r\nb"), "a%0D%0Ab");
    assert_eq!(escape_data("%0A"), "%250A");
    let escaped = escape_data("line one\nline two\r\n");
    assert!(!escaped.contains('\n'));
    assert!(!escaped.contains('\r'));
}

#[test]
fn escape_property_escapes_delimiters() {
    assert_eq!(escape_property("a:b,c"), "a%3Ab%2Cc");
    assert_eq!(escape_property("50%\n"), "50%25%0A");
    let escaped = escape_property("C:\\dir,x:y");
    assert!(!escaped.contains(':'));
    assert!(!escaped.contains(','));
}

#[test]
fn cmd_arg_renders_key_and_escaped_value() {
    assert_eq!(cmd_arg("file", "a,b.rs"), "file=a%2Cb.rs");
}

#[test]
fn encode_named_property() {
    assert_eq!(
        encode("set-output", &[("name", "greeting")], "hello"),
        "::set-output name=greeting::hello\n"
    );
}

#[test]
fn encode_without_properties() {
    assert_eq!(encode("add-mask", &[], "super secret message"), "::add-mask::super secret message\n");
}

#[test]
fn encode_keeps_property_order_and_escapes() {
    assert_eq!(
        encode("warning", &[("file", "x:y"), ("line", "3")], "50%\ndone"),
        "::warning file=x%3Ay,line=3::50%25%0Adone\n"
    );
}

#[test]
fn log_with_location_subset() {
    let log = Log { message: "hi".to_string(), file: None, line: Some(42), col: None };
    assert_eq!(format_log(LogLevel::Debug, &log), "::debug line=42::hi\n");
    let log = Log { message: "hi".to_string(), file: Some("a.rs".to_string()), line: None, col: Some(0) };
    assert_eq!(format_log(LogLevel::Warning, &log), "::warning file=a.rs,col=0::hi\n");
}

#[test]
fn bare_log_keeps_message_unescaped() {
    let log = Log::message("50%".to_string());
    assert_eq!(log.render(), "::50%");
    assert_eq!(format_log(LogLevel::Error, &log), "::error::50%\n");
}

#[test]
fn log_message_escapes_message() {
    let mut core = Core::new(String::new(), VarTable::new(':'));
    core.log_message(LogLevel::Error, "50%").unwrap();
    core.warning("a\nb").unwrap();
    assert_eq!(core.out, "::error::50%25\n::warning::a%0Ab\n");
}

#[test]
fn log_level_names() {
    assert_eq!(LogLevel::Debug.as_str(), "debug");
    assert_eq!(LogLevel::Error.as_str(), "error");
    assert_eq!(LogLevel::Warning.as_str(), "warning");
}

#[test]
fn var_key_upper_cases_and_underscores() {
    assert_eq!(var_key("INPUT", "my input"), "INPUT_MY_INPUT");
    assert_eq!(var_key("STATE", "Mixed Case-name"), "STATE_MIXED_CASE-NAME");
}

#[test]
fn var_key_is_stable_under_repetition() {
    let name = "My Mixed Name";
    let first = var_key("INPUT", name);
    assert_eq!(var_key("INPUT", name), first);
    assert_eq!(var_key("INPUT", "My_Mixed_Name"), first);
}

#[test]
fn input_and_state_read_their_variables() {
    let mut env = VarTable::new(':');
    env.set_var("INPUT_MILLI_SECONDS", "1000");
    env.set_var("STATE_GREETING", "");
    assert_eq!(input(&env, "milli seconds"), Ok("1000".to_string()));
    assert_eq!(state(&env, "greeting"), Ok(String::new()));
    assert_eq!(input(&env, "missing"), Err(VarError::NotPresent));
    assert_eq!(var_from_name(&env, "STATE", "Greeting"), Ok(String::new()));
    let core = Core::new(String::new(), env);
    assert_eq!(core.input("milli seconds"), Ok("1000".to_string()));
    assert_eq!(core.get_state("nothing"), Err(VarError::NotPresent));
}

#[test]
fn later_assignment_wins() {
    let mut env = VarTable::new(';');
    env.set_var("K", "1");
    env.set_var("K", "2");
    assert_eq!(env.var("K"), Ok("2".to_string()));
    assert_eq!(env.path_delimiter(), ';');
}

#[test]
fn debug_flag_is_exactly_one() {
    let mut env = VarTable::new(':');
    assert!(!is_debug(&env));
    env.set_var("RUNNER_DEBUG", "true");
    assert!(!is_debug(&env));
    env.set_var("RUNNER_DEBUG", "1");
    assert!(is_debug(&env));
    let core = Core::new(String::new(), env);
    assert!(core.is_debug());
}

#[test]
fn add_path_appends_after_delimiter() {
    let mut env = VarTable::new(';');
    env.set_var("PATH", "C:\\bin");
    let mut core = Core::new(String::new(), env);
    core.add_path("/x/y").unwrap();
    assert_eq!(core.out, "::add-path::/x/y\n");
    assert_eq!(core.env.var("PATH"), Ok("C:\\bin;/x/y".to_string()));
    assert_eq!(core.env.var("PATH").unwrap().split(';').last().unwrap(), "/x/y");
}

#[test]
fn stop_logging_passes_result_and_pairs_token() {
    let mut core = Core::new(String::new(), VarTable::new(':'));
    let result = core.stop_logging(|| 7).unwrap();
    assert_eq!(result, 7);
    let lines: Vec<&str> = core.out.lines().collect();
    assert_eq!(lines.len(), 2);
    let token = lines[0].strip_prefix("::stop-commands::").unwrap();
    assert_eq!(token.len(), 36);
    assert_eq!(lines[1], format!("::{}::", token));
}

#[test]
fn stop_tokens_differ() {
    let mut core = Core::new(String::new(), VarTable::new(':'));
    core.stop_logging(|| ()).unwrap();
    core.stop_logging(|| ()).unwrap();
    let lines: Vec<&str> = core.out.lines().collect();
    assert_ne!(lines[0], lines[2]);
}

#[test]
fn save_state_and_secret_escape_payload() {
    let mut core = Core::new(String::new(), VarTable::new(':'));
    core.save_state("k,ey", "v\r").unwrap();
    core.set_secret("a%b").unwrap();
    assert_eq!(core.out, "::save-state name=k%2Cey::v%0D\n::add-mask::a%25b\n");
}

#[test]
fn key_parts() {
    assert_eq!(actions_core::underscore_spaces("a b  c"), "a_b__c");
    assert_eq!(actions_core::join_key("STATE", "X_Y"), "STATE_X_Y");
}

#[test]
fn log_with_largest_line_number() {
    let log = Log { message: String::new(), file: None, line: Some(usize::MAX), col: Some(1) };
    assert_eq!(format_log(LogLevel::Error, &log), format!("::error line={},col=1::\n", usize::MAX));
}
