use owo_colors::OwoColorize;
use tiny_args::help::{create, tabs};
use tiny_args::parser::traverse;
use tiny_args::{ArgName, ArgValue, BuildError, Command};

fn test_command() -> Command {
    Command::create("test", "A really cool test")
        .arg(ArgName::short('V'), ArgValue::Flag, "Program's version")
        .arg(ArgName::long("path"), ArgValue::Path(Some("/default/path".into())), "Insert a path")
        .arg(ArgName::long("num"), ArgValue::Num(Some(3)), "Insert a number")
        .arg(ArgName::long("float"), ArgValue::Float(None), "Insert a float")
        .arg(ArgName::long("idk"), ArgValue::String(None), "Just insert something")
        .arg(
            ArgName::long("idk2"),
            ArgValue::String(Some("default value".into())),
            "Just insert something again",
        )
        .arg(ArgName::both('h', "help"), ArgValue::Flag, "Show this help")
        .author("The authors")
        .version("0.3.1")
        .license("GPL-3.0")
}

fn mkargs(vec: &[&str]) -> Vec<String> {
    vec.iter().map(|&s| s.into()).collect()
}

#[test]
#[should_panic]
fn test_command_fail() {
    Command::create("test", "A really cool failing test")
        .arg(ArgName::short('V'), ArgValue::Flag, "Program's version")
        .arg(ArgName::long("path"), ArgValue::Path(None), "Insert an example path")
        .arg(ArgName::both('h', "help"), ArgValue::Flag, "Show this help")
        .try_arg(ArgName::long("help"), ArgValue::Flag, "Oopsie")
        .unwrap();
}

#[test]
#[should_panic]
fn test_subcmd_fail() {
    Command::create("testception", "A really failed test inception")
        .arg(ArgName::long("idk"), ArgValue::String(None), "Just insert something")
        .subcommand(test_command())
        .try_subcommand(test_command())
        .unwrap()
        .author("The authors")
        .version("0.3.1")
        .license("GPL-3.0");
}

#[test]
fn test_subcmd() {
    let input = mkargs(&["test-program", "test", "--idk2", "a b c"]);
    let parsed = Command::create("testception", "A really good test inception")
        .arg(
            ArgName::long("idk2"),
            ArgValue::String(Some("a b c d".into())),
            "Just insert something",
        )
        .subcommand(test_command().color(false))
        .author("The authors")
        .version("0.3.1")
        .license("GPL-3.0")
        .parse_from(input)
        .unwrap();
    println!("{}", parsed.help);
    assert_eq!(parsed.args.get(ArgName::long("idk2")).string().unwrap(), "a b c");
    assert_eq!(
        parsed.args.get(ArgName::long("idk2")).description,
        "Just insert something again"
    );
    assert!(parsed.help.starts_with("testception test"));
}

#[test]
fn test_tabbing() {
    let cmd = Command::create("tabbing", "Tests tabbing")
        .arg(ArgName::long("aaaaaaa"), ArgValue::Flag, "testestetstestestest")
        .arg(ArgName::long("aaaaaaaaaaa"), ArgValue::Flag, "testestetstestestest")
        .arg(ArgName::long("aaaaaaaaaaaaaaa"), ArgValue::Flag, "testestetstestestest")
        .arg(ArgName::long("aaaaaaaaaaaaaaaaaaa"), ArgValue::Flag, "testestetstestestest")
        .arg(ArgName::long("aaaaaaaaaaaaaaaaaaaaaaaa"), ArgValue::Flag, "testestetstestestest")
        .subcommand(Command::create("testsub", "testsub"))
        .subcommand(Command::create("testsubanan", "testsub"))
        .subcommand(Command::create("testsubaaaaaaaa", "testsub"))
        .subcommand(Command::create("testsubaaaaaaaaaaaaa", "testsub"))
        .parse_from(vec!["test".into()])
        .unwrap();
    println!("{}", cmd.help);
    assert!(cmd.help.contains("\t\u{1b}[1mtestsub\u{1b}[0m\t\ttestsub\n"));
    assert!(cmd.help.contains("\t\u{1b}[1mtestsubanan\u{1b}[0m\ttestsub\n"));
    assert!(cmd.help.contains("\t\u{1b}[1mtestsubaaaaaaaa\u{1b}[0m\ttestsub\n"));
    assert!(cmd.help.contains("\t\u{1b}[1mtestsubaaaaaaaaaaaaa\u{1b}[0m\n\t\t\ttestsub\n"));
    assert!(cmd.help.contains("\t\u{1b}[1m--aaaaaaa\u{1b}[0m\ttestestetstestestest\n"));
    assert!(cmd.help.contains("\t\u{1b}[1m--aaaaaaaaaaaaaaa\u{1b}[0m\n\t\t\ttestestetstestestest\n"));
}

#[test]
fn names_line_up() {
    assert_eq!(tabs(0), "\t\t");
    assert_eq!(tabs(7), "\t\t");
    assert_eq!(tabs(8), "\t");
    assert_eq!(tabs(15), "\t");
    assert_eq!(tabs(16), "\n\t\t\t");
    assert_eq!(tabs(1000), "\n\t\t\t");
    assert_eq!(tabs(usize::MAX), "\n\t\t\t");
}

#[test]
fn a_plain_page() {
    let command = Command::create("app", "An app")
        .version("1.0")
        .author("Me")
        .license("MIT")
        .arg(ArgName::both('h', "help"), ArgValue::Flag, "Shows help")
        .subcommand(Command::create("sub", "A sub"))
        .color(false);
    assert_eq!(
        create(&command),
        "app 1.0\nMe\nAn app\n\nUSAGE:\n\tapp [ARGS]\n\tapp [SUBCOMMAND] [ARGS]\n\nARGS:\n\t-h, --help\tShows help\n\nSUBCOMMANDS:\n\tsub\t\tA sub\n\nLicensed under MIT"
    );
}

#[test]
fn a_bare_plain_page() {
    let command = Command::create("app", "An app").color(false);
    assert_eq!(create(&command), "app \nAn app\n\nUSAGE:\n\n\n");
}

#[test]
fn a_bare_colored_page() {
    let command = Command::create("app", "An app");
    assert_eq!(
        create(&command),
        "\u{1b}[1mapp\u{1b}[0m \u{1b}[2m\u{1b}[0m\n\u{1b}[3m\u{1b}[0mAn app\n\n\u{1b}[4m\u{1b}[1mUSAGE:\u{1b}[0m\u{1b}[0m\n\n\n\u{1b}[1m\u{1b}[0m"
    );
}

#[test]
fn a_colored_page() {
    let command = Command::create("app", "An app")
        .version("1.0")
        .author("Me")
        .license("MIT")
        .arg(ArgName::short('x'), ArgValue::Num(None), "A number")
        .subcommand(Command::create("a-long-subcommand", "A sub"));
    let expected = format!(
        "{} {}\n{}An app\n\n{}\n\t{} [ARGS]\n\t{} [SUBCOMMAND] [ARGS]\n\n{}\t{}\t\tA number\n\n{}\t{}\n\t\t\tA sub\n\n{}",
        "app".bold(),
        "1.0".dimmed(),
        "Me\n".italic(),
        "USAGE:".bold().underline(),
        "app".bold(),
        "app".bold(),
        "ARGS:\n".bold().underline(),
        "-x".bold(),
        "SUBCOMMANDS:\n".bold().underline(),
        "a-long-subcommand".bold(),
        "Licensed under MIT".bold(),
    );
    assert_eq!(create(&command), expected);
    assert!(expected.contains("\u{1b}[4m\u{1b}[1mARGS:\n\u{1b}[0m\u{1b}[0m"));
    assert!(expected.contains("\u{1b}[2m1.0\u{1b}[0m"));
    assert!(expected.contains("\u{1b}[3mMe\n\u{1b}[0m"));
}

#[test]
fn a_page_names_the_ancestors() {
    let root = Command::create("root", "The root")
        .subcommand(Command::create("child", "The child").color(false));
    let mut tokens = mkargs(&["child"]);
    let child = traverse(root, &mut tokens).unwrap();
    assert!(create(&child).starts_with("root child \nThe child\n"));
}

#[test]
fn ancestors_are_recorded_when_a_subcommand_is_added() {
    let tree = Command::create("a", "Top").subcommand(
        Command::create("b", "Middle").subcommand(Command::create("c", "Bottom").color(false)),
    );
    let parsed = tree.parse_from(mkargs(&["a", "b", "c"])).unwrap();
    assert_eq!(parsed.name, "c");
    assert_eq!(parsed.parents, vec!["b"]);
    assert!(parsed.help.starts_with("b c \n"));

    let tree = Command::create("a", "Top")
        .subcommand(Command::create("b", "Middle"))
        .subcommand(Command::create("d", "Other"));
    let parsed = tree.parse_from(mkargs(&["a", "d"])).unwrap();
    assert_eq!(parsed.parents, vec!["a"]);
}

#[test]
fn white_space_around_the_full_name_is_dropped() {
    let command = Command::create(" padded\t", "Padded").color(false);
    assert!(create(&command).starts_with("padded \nPadded"));
    let root = Command::create("\u{a0}root", "The root")
        .subcommand(Command::create("child\u{2003}\n", "The child").color(false));
    let mut tokens = mkargs(&["child\u{2003}\n"]);
    let child = traverse(root, &mut tokens).unwrap();
    assert!(create(&child).starts_with("root child \nThe child"));
    let blank = Command::create(" \t ", "Blank").color(false);
    assert!(create(&blank).starts_with(" \nBlank"));
    let inner = Command::create("in ner", "Inner").color(false);
    assert!(create(&inner).starts_with("in ner \nInner"));
}

#[test]
fn white_space_is_what_the_standard_library_trims() {
    let beyond = ['\u{feff}', '\u{ffff}', '\u{1f600}', '\u{e0020}', '\u{10ffff}'];
    let chars = (0..=0x3100u32).filter_map(char::from_u32).chain(beyond);
    for c in chars {
        let name: &'static str = Box::leak(format!("{c}x{c}").into_boxed_str());
        let page = create(&Command::create(name, "d").color(false));
        let expected = format!("{} \nd", name.trim());
        assert!(page.starts_with(&expected), "{:?}", c);
    }
}

#[test]
fn a_subcommand_with_its_argument() {
    let parsed = Command::create("myapp", "This is my cool app!")
        .version("0.1.0")
        .arg(ArgName::both('h', "help"), ArgValue::Flag, "Shows this help.")
        .arg(ArgName::long("path"), ArgValue::Path(Some("/default/path".into())), "A path.")
        .subcommand(
            Command::create("subcmd", "This is a subcommand.")
                .arg(ArgName::both('n', "num"), ArgValue::Num(Some(42)), "Insert a number."),
        )
        .parse_from(vec!["myapp".into(), "subcmd".into(), "-n".into(), "7".into()])
        .unwrap();
    assert_eq!(parsed.name, "subcmd");
    assert_eq!(parsed.args.get(ArgName::long("num")).num(), Some(7));
    assert_eq!(parsed.args.count(ArgName::short('n')), 1);
    assert!(parsed.args.try_get(ArgName::long("path")).is_none());
}

#[test]
fn duplicates_are_found() {
    let command = test_command();
    assert!(command.has_arg(&ArgName::long("help")));
    assert!(command.has_arg(&ArgName::short('h')));
    assert!(command.has_arg(&ArgName::both('z', "num")));
    assert!(!command.has_arg(&ArgName::short('z')));
    assert!(!command.has_arg(&ArgName::long("V")));
    let command = command.subcommand(Command::create("sub", "A sub"));
    assert!(command.has_subcommand("sub"));
    assert!(!command.has_subcommand("Sub"));
    assert!(!command.has_subcommand("test"));
}

#[test]
fn a_duplicate_is_refused_with_its_name() {
    let error = test_command().try_arg(ArgName::short('h'), ArgValue::Flag, "Again").err().unwrap();
    assert!(matches!(&error, BuildError::DuplicateArgument { argument: ArgName::Short('h') }));
    assert_eq!(error.message(), "The argument '-h' already exists in this command");
    let error = Command::create("root", "The root")
        .subcommand(Command::create("sub", "First"))
        .try_subcommand(Command::create("sub", "Second"))
        .err()
        .unwrap();
    assert_eq!(error, BuildError::DuplicateSubcommand { name: "sub" });
    assert_eq!(error.message(), "Subcommand 'sub' already exists.");
}

#[test]
fn a_new_name_is_accepted() {
    let command = test_command()
        .try_arg(ArgName::short('z'), ArgValue::Flag, "New")
        .unwrap()
        .try_subcommand(Command::create("sub", "A sub"))
        .unwrap();
    assert!(command.has_arg(&ArgName::short('z')));
    assert!(command.has_subcommand("sub"));
    let parsed = command.parse_from(mkargs(&["test", "-z"])).unwrap();
    assert_eq!(parsed.args.count(ArgName::short('z')), 1);
    assert_eq!(parsed.args.inner().len(), 8);
}
