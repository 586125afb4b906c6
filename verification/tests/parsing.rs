use std::f64::consts::PI;
use std::path::PathBuf;
use tiny_args::parser::{args, parse, traverse};
use tiny_args::{ArgList, ArgName, ArgValue, Command, FloatText, ParseError};

fn test_command() -> Command {
    Command::create("test", "A really cool test")
        .arg(ArgName::short('V'), ArgValue::Flag, "Program's version")
        .arg(ArgName::long("path"), ArgValue::Path(Some("/default/path".into())), "Insert a path")
        .arg(ArgName::long("num"), ArgValue::Num(Some(3)), "Insert a number")
        .arg(ArgName::long("float"), ArgValue::Float(None), "Insert a float")
        .arg(ArgName::long("idk"), ArgValue::String(None), "Just insert something")
        .arg(
            ArgName::long("idk2"),
            ArgValue::String(Some("default value".into())),
            "Just insert something again",
        )
        .arg(ArgName::both('h', "help"), ArgValue::Flag, "Show this help")
        .author("The authors")
        .version("0.3.1")
        .license("GPL-3.0")
}

fn mkargs(vec: &[&str]) -> Vec<String> {
    vec.iter().map(|&s| s.into()).collect()
}

fn fresh_args() -> ArgList {
    test_command().parse_from(mkargs(&["test-program"])).unwrap().args
}

fn float_of(list: &ArgList, name: &str) -> f64 {
    list.get(ArgName::long(name)).float().unwrap().as_str().parse().unwrap()
}

#[test]
fn test_inputs() {
    let input = mkargs(&[
        "test-program",
        "--num",
        "6",
        "--float",
        &PI.to_string(),
        "-V",
        "--path",
        "/some/path",
        "-h",
        "-h",
        "--idk",
        "hiii hello",
    ]);
    let parsed = test_command().parse_from(input).unwrap();
    println!("{}", parsed.help);
    assert_eq!(parsed.args.get(ArgName::long("num")).num().unwrap(), 6);
    assert_eq!(float_of(&parsed.args, "float"), PI);
    assert_eq!(
        parsed.args.get(ArgName::long("path")).path().unwrap().clone(),
        PathBuf::from("/some/path")
    );
    assert_eq!(parsed.args.get(ArgName::long("idk")).string().unwrap(), "hiii hello");
    assert_eq!(parsed.args.count(ArgName::short('V')), 1);
    assert_eq!(parsed.args.count(ArgName::short('h')), 2);
    assert!(parsed.args.try_get(ArgName::short('a')).is_none());
}

#[test]
fn test_multiple_flags() {
    let input = mkargs(&[
        "test-program",
        "-h",
        "-h",
        "-h",
        "--path",
        "/path/a",
        "--path",
        "/path/b",
    ]);
    let parsed = test_command().parse_from(input).unwrap();
    assert_eq!(parsed.args.count(ArgName::short('h')), 3);
    assert_eq!(parsed.args.count(ArgName::long("path")), 2);
    assert_eq!(
        parsed.args.get(ArgName::long("path")).path().unwrap().clone(),
        PathBuf::from("/path/b")
    );
}

#[test]
fn test_single_arg1() {
    let input = mkargs(&["test-program", "--help"]);
    let parsed = test_command().parse_from(input).unwrap();
    assert_eq!(parsed.args.count(ArgName::long("help")), 1);
    assert_eq!(parsed.args.count(ArgName::short('h')), 1);
}

#[test]
fn test_single_arg2() {
    let input = mkargs(&["test-program", "--float", &PI.to_string()]);
    let parsed = test_command().parse_from(input).unwrap();
    assert_eq!(float_of(&parsed.args, "float"), PI);
}

#[test]
#[should_panic]
fn test_bad_input1() {
    let input = mkargs(&["test-program", "--num", "6", "6"]);
    test_command().parse_from(input).unwrap();
}

#[test]
#[should_panic]
fn test_bad_input2() {
    let input = mkargs(&["test-program", "-num", "6"]);
    test_command().parse_from(input).unwrap();
}

#[test]
#[should_panic]
fn test_bad_input3() {
    let input = mkargs(&["test-program", "num", "6"]);
    test_command().parse_from(input).unwrap();
}

#[test]
fn looking_up_twice_finds_the_same_argument() {
    let list = fresh_args();
    let first = list.get(ArgName::long("help"));
    let second = list.get(ArgName::long("help"));
    assert!(std::ptr::eq(first, second));
    assert_eq!(first.description, "Show this help");
    let by_own_name = list.get(first.argname.clone());
    assert!(std::ptr::eq(first, by_own_name));
    let by_short = list.get(ArgName::short('h'));
    assert!(std::ptr::eq(first, by_short));
    let tried = list.try_get(ArgName::both('h', "unrelated")).unwrap();
    assert!(std::ptr::eq(first, tried));
}

#[test]
fn the_last_value_wins() {
    let parsed = args(fresh_args(), mkargs(&["--num", "1", "--num", "2"])).unwrap();
    let num = parsed.get(ArgName::long("num"));
    assert_eq!(num.num(), Some(2));
    assert_eq!(num.counter, 2);
    assert_eq!(parsed.total_count(), 2);
}

#[test]
fn flags_only_count() {
    let parsed = args(fresh_args(), mkargs(&["-h", "-h", "-h"])).unwrap();
    let help = parsed.get(ArgName::short('h'));
    assert_eq!(help.counter, 3);
    assert_eq!(help.argvalue, ArgValue::Flag);
    assert_eq!(parsed.count(ArgName::long("help")), 3);
    assert_eq!(parsed.total_count(), 3);
    assert_eq!(parsed.count(ArgName::short('V')), 0);
}

#[test]
fn a_flag_leaves_the_next_token_alone() {
    let parsed = args(fresh_args(), mkargs(&["-h", "--num", "9", "-V"])).unwrap();
    assert_eq!(parsed.count(ArgName::short('h')), 1);
    assert_eq!(parsed.get(ArgName::long("num")).num(), Some(9));
    assert_eq!(parsed.count(ArgName::short('V')), 1);
    assert_eq!(parsed.total_count(), 3);
}

#[test]
fn a_value_may_look_like_an_argument() {
    let parsed = args(fresh_args(), mkargs(&["--idk", "--num", "--num", "-5"])).unwrap();
    assert_eq!(parsed.get(ArgName::long("idk")).string(), Some("--num"));
    assert_eq!(parsed.get(ArgName::long("num")).num(), Some(-5));
    assert_eq!(parsed.total_count(), 2);
}

#[test]
fn the_subcommand_named_first_is_addressed() {
    let root = Command::create("root", "The root")
        .arg(ArgName::long("num"), ArgValue::Num(None), "A number of the root")
        .subcommand(Command::create("other", "Another subcommand"))
        .subcommand(test_command())
        .subcommand(Command::create("last", "The last subcommand"));
    let mut tokens = mkargs(&["test", "--num", "6"]);
    let found = traverse(root, &mut tokens).unwrap();
    assert_eq!(tokens, mkargs(&["--num", "6"]));
    let parsed = found.parse_from(mkargs(&["test-program"])).unwrap();
    assert_eq!(parsed.name, "test");
    assert_eq!(parsed.parents, vec!["root"]);
    assert_eq!(parsed.args.inner().len(), 7);
}

#[test]
fn the_order_of_declaration_does_not_matter() {
    for names in [["a", "b", "c"], ["c", "a", "b"], ["b", "c", "a"]] {
        let mut root = Command::create("root", "The root");
        for name in names {
            root = root.subcommand(Command::create(name, "A subcommand"));
        }
        let parsed = root.parse_from(mkargs(&["root", "b"])).unwrap();
        assert_eq!(parsed.name, "b");
    }
}

#[test]
fn the_walk_goes_as_deep_as_the_tokens_lead() {
    let tree = || {
        Command::create("a", "Top").subcommand(
            Command::create("b", "Middle")
                .subcommand(Command::create("c", "Bottom").arg(
                    ArgName::short('x'),
                    ArgValue::Flag,
                    "A flag",
                ))
                .arg(ArgName::short('y'), ArgValue::Flag, "A flag"),
        )
    };
    let mut tokens = mkargs(&["b", "c", "-x", "b"]);
    let found = traverse(tree(), &mut tokens).unwrap();
    assert_eq!(tokens, mkargs(&["-x", "b"]));
    assert_eq!(found.parse_from(mkargs(&["a"])).unwrap().name, "c");

    let mut tokens = mkargs(&["b"]);
    let found = traverse(tree(), &mut tokens).unwrap();
    assert!(tokens.is_empty());
    assert_eq!(found.parse_from(mkargs(&["a"])).unwrap().name, "b");

    let mut tokens = mkargs(&[]);
    let found = traverse(tree(), &mut tokens).unwrap();
    assert!(tokens.is_empty());
    assert_eq!(found.parse_from(mkargs(&["a"])).unwrap().name, "a");

    let mut tokens = mkargs(&["-y", "b", "c"]);
    let found = traverse(tree(), &mut tokens).unwrap();
    assert_eq!(tokens, mkargs(&["-y", "b", "c"]));
    assert_eq!(found.parse_from(mkargs(&["a"])).unwrap().name, "a");

    let mut tokens = mkargs(&["b", "b", "c"]);
    let stuck = traverse(tree(), &mut tokens).err().unwrap();
    assert_eq!(stuck, ParseError::UnknownSubcommand { token: "b".to_string() });
    assert_eq!(tokens, mkargs(&["b", "c"]));
}

#[test]
fn a_value_without_an_argument_is_rejected() {
    let error = test_command().parse_from(mkargs(&["test-program", "--num", "6", "6"])).err();
    assert_eq!(error, Some(ParseError::NotAnArgument { token: "6".to_string() }));
}

#[test]
fn a_short_name_is_one_character() {
    let error = test_command().parse_from(mkargs(&["test-program", "-num", "6"])).err().unwrap();
    match error {
        ParseError::UnknownArgument { argument: ArgName::Short(c) } => assert_eq!(c, 'n'),
        other => panic!("{:?}", other),
    }
    let parsed = test_command().parse_from(mkargs(&["test-program", "-help"])).unwrap();
    assert_eq!(parsed.args.count(ArgName::long("help")), 1);
}

#[test]
fn a_float_must_be_a_number() {
    let error =
        test_command().parse_from(mkargs(&["test-program", "--float", "notanumber"])).err().unwrap();
    match error {
        ParseError::InvalidNumericValue { argument, raw_text } => {
            assert_eq!(argument.to_string(), "--float");
            assert_eq!(raw_text, "notanumber");
        }
        other => panic!("{:?}", other),
    }
}

#[test]
fn an_integer_must_be_a_number() {
    let error = test_command().parse_from(mkargs(&["test-program", "--num", "3.5"])).err().unwrap();
    match error {
        ParseError::InvalidNumericValue { argument, raw_text } => {
            assert_eq!(argument.to_string(), "--num");
            assert_eq!(raw_text, "3.5");
        }
        other => panic!("{:?}", other),
    }
}

#[test]
fn a_value_must_follow() {
    let error = test_command().parse_from(mkargs(&["test-program", "--path"])).err().unwrap();
    match error {
        ParseError::MissingValue { argument } => assert_eq!(argument.to_string(), "--path"),
        other => panic!("{:?}", other),
    }
    let error = test_command().parse_from(mkargs(&["test-program", "-h", "--idk2"])).err().unwrap();
    assert!(matches!(error, ParseError::MissingValue { .. }));
}

#[test]
fn an_unknown_subcommand_is_rejected() {
    let error = test_command().parse_from(mkargs(&["test-program", "unknownsubcmd"])).err();
    assert_eq!(error, Some(ParseError::UnknownSubcommand { token: "unknownsubcmd".to_string() }));
    let error = test_command().parse_from(mkargs(&["test-program", ""])).err();
    assert_eq!(error, Some(ParseError::UnknownSubcommand { token: String::new() }));
}

#[test]
fn an_unknown_argument_is_rejected() {
    let error = test_command().parse_from(mkargs(&["test-program", "--nope", "1"])).err().unwrap();
    match error {
        ParseError::UnknownArgument { argument: ArgName::Long(l) } => assert_eq!(l.as_str(), "nope"),
        other => panic!("{:?}", other),
    }
    let error = test_command().parse_from(mkargs(&["test-program", "-v"])).err().unwrap();
    assert!(matches!(error, ParseError::UnknownArgument { argument: ArgName::Short('v') }));
}

#[test]
fn dashes_alone_are_malformed() {
    let error = test_command().parse_from(mkargs(&["test-program", "-h", "--"])).err();
    assert_eq!(error, Some(ParseError::MalformedLongArgument { token: "--".to_string() }));
    let error = test_command().parse_from(mkargs(&["test-program", "-"])).err();
    assert_eq!(error, Some(ParseError::MalformedShortArgument { token: "-".to_string() }));
}

#[test]
fn the_first_error_ends_the_parse() {
    let error = args(fresh_args(), mkargs(&["-h", "bare", "--nope", "-"])).err();
    assert_eq!(error, Some(ParseError::NotAnArgument { token: "bare".to_string() }));
    let error = args(fresh_args(), mkargs(&["--nope", "bare"])).err().unwrap();
    assert!(matches!(error, ParseError::UnknownArgument { .. }));
    let error = args(fresh_args(), mkargs(&["--num", "x", "bare"])).err().unwrap();
    assert!(matches!(error, ParseError::InvalidNumericValue { .. }));
}

#[test]
fn an_empty_command_line_gives_the_defaults() {
    let parsed = test_command().parse_from(mkargs(&["test-program"])).unwrap();
    assert_eq!(parsed.name, "test");
    assert!(parsed.parents.is_empty());
    assert_eq!(parsed.args.total_count(), 0);
    let declared = [
        (ArgName::short('V'), ArgValue::Flag),
        (ArgName::long("path"), ArgValue::Path(Some("/default/path".into()))),
        (ArgName::long("num"), ArgValue::Num(Some(3))),
        (ArgName::long("float"), ArgValue::Float(None)),
        (ArgName::long("idk"), ArgValue::String(None)),
        (ArgName::long("idk2"), ArgValue::String(Some("default value".into()))),
        (ArgName::both('h', "help"), ArgValue::Flag),
    ];
    let inner = parsed.args.inner();
    assert_eq!(inner.len(), declared.len());
    for (arg, (name, value)) in inner.iter().zip(declared.iter()) {
        assert_eq!(arg.argname.to_string(), name.to_string());
        assert_eq!(&arg.argvalue, value);
        assert_eq!(arg.counter, 0);
    }
    assert_eq!(parsed.args.get(ArgName::long("path")).path(), Some(&PathBuf::from("/default/path")));
    assert_eq!(parsed.args.get(ArgName::long("num")).num(), Some(3));
    assert_eq!(parsed.args.get(ArgName::long("float")).float(), None);
    assert_eq!(parsed.args.get(ArgName::long("idk")).string(), None);
    assert_eq!(parsed.args.get(ArgName::long("idk2")).string(), Some("default value"));
}

#[test]
fn a_subcommand_alone_gives_its_defaults() {
    let root = Command::create("root", "The root").subcommand(test_command());
    let parsed = root.parse_from(mkargs(&["test-program", "test"])).unwrap();
    assert_eq!(parsed.name, "test");
    assert_eq!(parsed.args.total_count(), 0);
    assert_eq!(parsed.args.get(ArgName::long("num")).num(), Some(3));
}

#[test]
fn getters_answer_for_their_own_kind_only() {
    let parsed = args(
        fresh_args(),
        mkargs(&["--num", "-12", "--float", "1.5e3", "--idk", "", "--path", "relative/dir"]),
    )
    .unwrap();
    let num = parsed.get(ArgName::long("num"));
    assert_eq!(num.num(), Some(-12));
    assert_eq!(num.string(), None);
    assert_eq!(num.float(), None);
    assert_eq!(num.path(), None);
    let float = parsed.get(ArgName::long("float"));
    assert_eq!(float.float(), Some(&FloatText::new("1.5e3".to_string()).unwrap()));
    assert_eq!(float_of(&parsed, "float"), 1500.0);
    assert_eq!(float.num(), None);
    let text = parsed.get(ArgName::long("idk"));
    assert_eq!(text.string(), Some(""));
    assert_eq!(text.path(), None);
    let path = parsed.get(ArgName::long("path"));
    assert_eq!(path.path(), Some(&PathBuf::from("relative/dir")));
    assert_eq!(path.string(), None);
    let flag = parsed.get(ArgName::short('V'));
    assert_eq!(flag.string(), None);
    assert_eq!(flag.num(), None);
    assert_eq!(flag.float(), None);
    assert_eq!(flag.path(), None);
}

#[test]
fn an_argument_can_be_copied_out() {
    let parsed = args(fresh_args(), mkargs(&["--path", "/tmp/x", "--path", "/tmp/y"])).unwrap();
    let copy = parsed.get(ArgName::long("path")).clone();
    assert_eq!(copy.argname, ArgName::long("path"));
    assert_eq!(copy.argvalue, ArgValue::Path(Some(PathBuf::from("/tmp/y"))));
    assert_eq!(copy.description, "Insert a path");
    assert_eq!(copy.counter, 2);
}

#[test]
fn the_free_function_parses_like_the_method() {
    let command = test_command().color(false);
    let parsed = parse(command, mkargs(&["test-program", "--num", "8", "-V"])).unwrap();
    assert_eq!(parsed.name, "test");
    assert_eq!(parsed.args.get(ArgName::long("num")).num(), Some(8));
    assert_eq!(parsed.args.count(ArgName::short('V')), 1);
    assert!(parsed.help.contains("test 0.3.1"));
}

#[test]
fn tokens_are_read_by_characters() {
    let command = Command::create("unicode", "Names beyond ASCII")
        .arg(ArgName::both('é', "été"), ArgValue::String(None), "Summer")
        .arg(ArgName::long("日本"), ArgValue::Flag, "Japan");
    let parsed = command.parse_from(mkargs(&["unicode", "-é", "ça", "--日本", "--été", "✓"])).unwrap();
    assert_eq!(parsed.args.get(ArgName::short('é')).string(), Some("✓"));
    assert_eq!(parsed.args.count(ArgName::long("été")), 2);
    assert_eq!(parsed.args.count(ArgName::long("日本")), 1);
}
