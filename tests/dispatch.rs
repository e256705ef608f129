use std::cell::Cell;
use std::rc::Rc;

use subcmd::text::{contains_text, is_short_form, same_text};
use subcmd::{App, CliError, Command, Context, Flag, FlagKind, FlagRes, Handler};

/// Handler that checks the context the original test expects.
struct AppTestHandler {
    ran: Rc<Cell<bool>>,
}

impl Handler<()> for AppTestHandler {
    fn execute(&self, _inner: (), c: Context) {
        assert!(c.is_set("output"));
        assert_eq!(c.get("input").unwrap(), "some_input".to_string());
        assert_eq!(c.arg[0], "another_input".to_string());
        self.ran.set(true);
    }
}

/// Handler that only notes that it ran.
struct Mark {
    ran: Rc<Cell<bool>>,
}

impl Handler<()> for Mark {
    fn execute(&self, _inner: (), _c: Context) {
        self.ran.set(true);
    }
}

fn mark() -> (Mark, Rc<Cell<bool>>) {
    let ran = Rc::new(Cell::new(false));
    (Mark { ran: ran.clone() }, ran)
}

fn args(v: &[&str]) -> Vec<String> {
    v.iter().map(|s| s.to_string()).collect()
}

fn test_app() -> App<()> {
    let (h, _) = mark();
    App::new(()).register(
        Command::new("test", Some("t"), h)
            .flag(Flag::new("input", Some("i"), FlagKind::InputFlag, "input"))
            .flag(Flag::new("output", Some("o"), FlagKind::OptFlag, "option")),
    )
}

#[test]
fn app_test() {
    let ran = Rc::new(Cell::new(false));
    let app: App<()> = App::new(()).register(
        Command::new("test", Some("t"), AppTestHandler { ran: ran.clone() })
            .flag(Flag::new("input", Some("i"), FlagKind::InputFlag, "input"))
            .flag(Flag::new("output", Some("o"), FlagKind::OptFlag, "option")),
    );

    let arg: Vec<String> = vec![
        "test".to_string(),
        "-i".to_string(),
        "some_input".to_string(),
        "-o".to_string(),
        "another_input".to_string(),
    ];

    assert!(app.run(arg).unwrap().is_none());
    assert!(ran.get());
}

#[test]
fn ident_and_alias_select_same_command() {
    let (h, _) = mark();
    let app = test_app().register(Command::new("other", Some("x"), h));
    let by_ident = app.parse(&args(&["test", "p"])).unwrap();
    let by_alias = app.parse(&args(&["t", "p"])).unwrap();
    assert_eq!(by_ident.target, Some(0));
    assert_eq!(by_alias.target, Some(0));
    assert_eq!(app.parse(&args(&["x"])).unwrap().target, Some(1));
    assert_eq!(app.parse(&args(&["other"])).unwrap().target, Some(1));
    assert!(!by_alias.context.is_default);
}

#[test]
fn input_flag_long_and_short_give_value() {
    let app = test_app();
    let long = app.parse(&args(&["test", "--input", "v1"])).unwrap();
    assert_eq!(long.context.get("input"), Some("v1".to_string()));
    let short = app.parse(&args(&["test", "-i", "v2"])).unwrap();
    assert_eq!(short.context.get("input"), Some("v2".to_string()));
    assert!(short.context.arg.is_empty());
}

#[test]
fn option_flag_long_and_short_are_present_without_value() {
    let app = test_app();
    for form in ["--output", "-o"] {
        let inv = app.parse(&args(&["test", form])).unwrap();
        assert!(inv.context.is_set("output"));
        assert_eq!(inv.context.get("output"), None);
        assert!(!inv.context.is_set("input"));
    }
}

#[test]
fn same_flag_twice_is_rejected() {
    let app = test_app();
    assert_eq!(
        app.parse(&args(&["test", "--input", "a", "-i", "b"])).err(),
        Some(CliError::DuplicateFlagAssignment(3))
    );
    assert_eq!(
        app.parse(&args(&["test", "-i", "a", "-i", "b"])).err(),
        Some(CliError::DuplicateFlagAssignment(3))
    );
    assert_eq!(
        app.parse(&args(&["test", "-o", "--output"])).err(),
        Some(CliError::DuplicateFlagAssignment(2))
    );
}

#[test]
fn plain_tokens_keep_their_order() {
    let app = test_app();
    let inv = app
        .parse(&args(&["test", "c", "-o", "a", "--input", "v", "b"]))
        .unwrap();
    assert_eq!(inv.context.arg, args(&["c", "a", "b"]));
    assert_eq!(inv.context.get("input"), Some("v".to_string()));
}

#[test]
fn empty_line_runs_default() {
    let (h, ran) = mark();
    let app = App::new(()).register_default(Command::new("main", None, h));
    let inv = app.parse(&Vec::new()).unwrap();
    assert_eq!(inv.target, None);
    assert!(inv.context.is_default);
    assert!(inv.context.arg.is_empty());
    assert!(app.run(Vec::new()).unwrap().is_none());
    assert!(ran.get());
}

#[test]
fn push_scenario_short_input_flag() {
    let (h, ran) = mark();
    let app = App::new(()).register(
        Command::new("push", Some("p"), h).flag(Flag::new(
            "m",
            Some("m"),
            FlagKind::InputFlag,
            "message",
        )),
    );
    let line = args(&["push", "-m", "hello", "file.txt"]);
    let inv = app.parse(&line).unwrap();
    assert_eq!(inv.context.get("m"), Some("hello".to_string()));
    assert_eq!(inv.context.arg, args(&["file.txt"]));
    assert!(app.run(line).unwrap().is_none());
    assert!(ran.get());
}

#[test]
fn help_flag_renders_help_and_skips_handler() {
    let (h, ran) = mark();
    let app = App::new(()).register_default(
        Command::new("deploy", None, h)
            .set_help("Deploys the app")
            .set_usage("app deploy [flags]"),
    );
    let text = app.run(args(&["--help"])).unwrap().unwrap();
    assert!(text.contains("Deploys the app"));
    assert!(text.contains("app deploy [flags]"));
    assert!(!ran.get());
}

#[test]
fn input_flag_without_value_is_fatal() {
    let (h, ran) = mark();
    let app = App::new(()).register_default(Command::new("main", None, h).flag(Flag::new(
        "input",
        Some("i"),
        FlagKind::InputFlag,
        "input",
    )));
    assert_eq!(
        app.run(args(&["-i"])).err(),
        Some(CliError::MissingFlagArgument(0))
    );
    assert!(!ran.get());
}

#[test]
fn input_flag_followed_by_flag_is_missing_value() {
    let app = test_app();
    assert_eq!(
        app.parse(&args(&["test", "--input", "-o"])).err(),
        Some(CliError::MissingFlagArgument(1))
    );
}

#[test]
fn empty_line_without_default_is_not_specified() {
    let app = test_app();
    assert_eq!(
        app.parse(&Vec::new()).err(),
        Some(CliError::CommandNotSpecified)
    );
}

#[test]
fn unknown_command_without_default_is_not_found() {
    let app = test_app();
    assert_eq!(
        app.run(args(&["nope"])).err(),
        Some(CliError::CommandNotFound)
    );
}

#[test]
fn unknown_command_runs_default_over_whole_line() {
    let (h, ran) = mark();
    let (d, dran) = mark();
    let app = App::new(())
        .register(Command::new("test", Some("t"), h))
        .register_default(Command::new("main", None, d));
    let inv = app.parse(&args(&["file.txt", "more"])).unwrap();
    assert_eq!(inv.target, None);
    assert!(inv.context.is_default);
    assert_eq!(inv.context.arg, args(&["file.txt", "more"]));
    assert!(app.run(args(&["file.txt"])).unwrap().is_none());
    assert!(dran.get());
    assert!(!ran.get());
}

#[test]
fn input_alias_with_other_characters_is_mixed() {
    let app = test_app();
    assert_eq!(
        app.parse(&args(&["test", "-oi", "v"])).err(),
        Some(CliError::MixedAliasToken(1))
    );
}

#[test]
fn combined_short_option_flags_all_set() {
    let (h, _) = mark();
    let app = App::new(()).register(
        Command::new("test", None, h)
            .flag(Flag::new("all", Some("a"), FlagKind::OptFlag, "all"))
            .flag(Flag::new("verbose", Some("v"), FlagKind::OptFlag, "verbose")),
    );
    let inv = app.parse(&args(&["test", "-av"])).unwrap();
    assert!(inv.context.is_set("all"));
    assert!(inv.context.is_set("verbose"));
    assert!(!inv.context.is_set("help"));
}

#[test]
fn unknown_flags_are_ignored() {
    let app = test_app();
    let inv = app.parse(&args(&["test", "--zzz", "-q", "x"])).unwrap();
    assert_eq!(inv.context.arg, args(&["x"]));
    assert!(!inv.context.is_set("zzz"));
    assert!(!inv.context.is_set("output"));
}

#[test]
fn long_flag_matches_by_containment() {
    let app = test_app();
    let inv = app.parse(&args(&["test", "--inputs", "v"])).unwrap();
    assert_eq!(inv.context.get("input"), Some("v".to_string()));
}

#[test]
fn short_help_flag_returns_help_text() {
    let app = test_app();
    let text = app.run(args(&["t", "-h"])).unwrap().unwrap();
    assert_eq!(
        text,
        "\n\nUSAGE:\n\n\nOPTIONS:\n--input ; -i : input\n--output ; -o : option\n--help ; -h : help\n"
    );
}

#[test]
fn help_text_exact_format() {
    let (h, _) = mark();
    let cmd: Command<()> = Command::new("deploy", None, h)
        .set_help("Deploys the app")
        .set_usage("app deploy [flags]")
        .flag(Flag::new("force", Some("f"), FlagKind::OptFlag, "skip checks"))
        .flag(Flag::new("target", None, FlagKind::InputFlag, "where to"));
    assert_eq!(
        cmd.help_text(),
        "Deploys the app\n\nUSAGE:\napp deploy [flags]\n\nOPTIONS:\n--force ; -f : skip checks\n--target : where to\n"
    );
    let (h2, _) = mark();
    let bare: Command<()> = Command::new("bare", None, h2).set_help("Bare");
    assert_eq!(bare.help_text(), "Bare\n\nUSAGE:\n\n");
}

#[test]
fn registration_adds_help_flag() {
    let app = test_app();
    let flags = &app.cmds[0].flags;
    assert_eq!(flags.len(), 3);
    assert_eq!(flags[2].ident, "help");
    assert_eq!(flags[2].alias, Some("h"));
    assert!(flags[2].kind == FlagKind::OptFlag);
}

#[test]
fn context_push_get_and_is_set() {
    let mut c = Context::new();
    assert!(!c.is_set("k"));
    assert!(c.push("k", FlagRes::Input("one".to_string())).is_none());
    assert_eq!(c.get("k"), Some("one".to_string()));
    match c.push("k", FlagRes::Opt) {
        Some(FlagRes::Input(s)) => assert_eq!(s, "one"),
        _ => panic!("expected the earlier input value"),
    }
    assert!(c.is_set("k"));
    assert_eq!(c.get("k"), None);
    assert!(c.push("o", FlagRes::Opt).is_none());
    assert!(c.is_set("o"));
    assert!(!c.is_default);
}

#[test]
fn text_helpers() {
    assert!(contains_text("--output", "out"));
    assert!(!contains_text("-o", "out"));
    assert!(contains_text("abc", ""));
    assert!(same_text("help", "help"));
    assert!(!same_text("help", "hel"));
    assert!(is_short_form("-m", "m"));
    assert!(!is_short_form("-mx", "m"));
    assert!(!is_short_form("m", "m"));
}

#[test]
fn builder_keeps_names() {
    let (h, _) = mark();
    let cmd: Command<()> = Command::new("push", Some("p"), h).set_help("Pushes");
    assert_eq!(cmd.ident, "push");
    assert_eq!(cmd.alias, Some("p"));
    assert_eq!(cmd.helptext, "Pushes");
    assert!(cmd.flags.is_empty());
    let f = Flag::new("message", Some("m"), FlagKind::InputFlag, "text");
    assert_eq!(f.ident, "message");
    assert_eq!(f.description, "text");
}
