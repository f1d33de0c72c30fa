use rclip::option::Option;
use rclip::options_manager::OptionsManager;

fn opt(short: &str, long: &str, required: bool, has_argument: bool, description: &str) -> Option {
    Option::new(short.to_string(), long.to_string(), required, has_argument, description.to_string())
}

fn args(tokens: &[&str]) -> Vec<String> {
    tokens.iter().map(|t| t.to_string()).collect()
}

fn file_manager() -> OptionsManager {
    OptionsManager::new("app", vec![opt("f", "file", true, true, "The file to read")])
}

fn sample_manager() -> OptionsManager {
    OptionsManager::new(
        "app",
        vec![
            opt("v", "version", false, false, "Prints version information"),
            opt("o", "output", false, true, "The file to write to"),
        ],
    )
}

#[test]
fn it_works() {
    let test_options: Vec<Option> = vec![
        Option::new("v".to_string(), "version".to_string(), false, false, "Prints version information".to_string()),
        Option::new("f".to_string(), "file".to_string(), true, true, "The file to read".to_string()),
        Option::new("o".to_string(), "output".to_string(), false, true, "The file to write to".to_string()),
    ];
    let mut options_manager = OptionsManager::new("R-CLIP (Rust Command Line Interface Parser)", test_options);
    let options_result = options_manager.parse_options(vec!["-h".to_string(), "-o".to_string(), "output.txt".to_string()]);

    if options_result.is_ok() {
        if options_manager.is_present("h") {
            println!("Help is present");
        }
        if options_manager.is_present("o") {
            println!("Output file: {}", options_manager.argument("o"));
        }
    } else {
        println!("Error: {}", options_result.err().unwrap());
        println!("{}", options_manager.help_text());
    }
}

#[test]
fn help_request_is_accepted_without_the_required_option() {
    let mut manager = OptionsManager::new(
        "R-CLIP (Rust Command Line Interface Parser)",
        vec![
            opt("v", "version", false, false, "Prints version information"),
            opt("f", "file", true, true, "The file to read"),
            opt("o", "output", false, true, "The file to write to"),
        ],
    );
    let found = manager.parse_options(args(&["-h", "-o", "output.txt"])).unwrap();
    assert_eq!(found.len(), 2);
    assert_eq!(found[0].short_name, "h");
    assert_eq!(found[1].short_name, "o");
    assert_eq!(found[1].argument, "output.txt");
    assert!(manager.is_present("h"));
    assert!(manager.is_present("o"));
    assert!(!manager.is_present("f"));
    assert_eq!(manager.argument("o"), "output.txt");
}

#[test]
fn catalog_is_the_declared_options_then_help() {
    let manager = sample_manager();
    let catalog = manager.options();
    assert_eq!(catalog.len(), 3);
    assert_eq!(catalog[0].short_name, "v");
    assert_eq!(catalog[1].short_name, "o");
    let help = &catalog[2];
    assert_eq!(help.short_name, "h");
    assert_eq!(help.long_name, "help");
    assert!(!help.required);
    assert!(!help.has_argument);
    assert_eq!(help.description, "Displays the help screen");
    assert_eq!(help.argument, "");
}

#[test]
fn catalog_of_nothing_declared_is_help_alone() {
    let manager = OptionsManager::new("app", Vec::new());
    assert_eq!(manager.options().len(), 1);
    assert_eq!(manager.options()[0].long_name, "help");
}

#[test]
fn declared_help_stays_before_the_appended_one() {
    let mut manager = OptionsManager::new("app", vec![opt("h", "host", false, true, "The host")]);
    assert_eq!(manager.options().len(), 2);
    let found = manager.parse_options(args(&["-h", "example.org"])).unwrap();
    assert_eq!(found.len(), 1);
    assert_eq!(found[0].long_name, "host");
    assert_eq!(found[0].argument, "example.org");
    assert_eq!(manager.argument("h"), "example.org");
    assert!(!manager.is_present("help"));
}

#[test]
fn nothing_is_present_before_parsing() {
    let manager = sample_manager();
    assert!(!manager.is_present("h"));
    assert!(!manager.is_present("v"));
    assert_eq!(manager.argument("o"), "");
}

#[test]
fn empty_command_line_matches_nothing() {
    let mut manager = sample_manager();
    let found = manager.parse_options(Vec::new()).unwrap();
    assert!(found.is_empty());
    for name in ["h", "help", "v", "version", "o", "output", "", "x"] {
        assert!(!manager.is_present(name));
    }
}

#[test]
fn help_flag_is_matched() {
    let mut manager = sample_manager();
    let found = manager.parse_options(args(&["-h"])).unwrap();
    assert_eq!(found.len(), 1);
    assert_eq!(found[0].short_name, "h");
    assert_eq!(found[0].long_name, "help");
    assert!(!found[0].required);
    assert!(!found[0].has_argument);
    assert_eq!(found[0].description, "Displays the help screen");
    assert_eq!(found[0].argument, "");
    assert!(manager.is_present("h"));
    assert!(manager.is_present("help"));
}

#[test]
fn missing_required_option_is_reported() {
    let mut manager = file_manager();
    assert_eq!(
        manager.parse_options(Vec::new()).err().unwrap(),
        "Required option -f or --file is missing."
    );
}

#[test]
fn first_missing_required_option_in_catalog_order_is_reported() {
    let mut manager = OptionsManager::new(
        "app",
        vec![
            opt("a", "alpha", true, false, ""),
            opt("b", "beta", true, false, ""),
            opt("c", "gamma", true, false, ""),
        ],
    );
    assert_eq!(
        manager.parse_options(args(&["-a"])).err().unwrap(),
        "Required option -b or --beta is missing."
    );
    assert_eq!(
        manager.parse_options(args(&["-gamma", "-b"])).err().unwrap(),
        "Required option -a or --alpha is missing."
    );
    assert_eq!(manager.parse_options(args(&["-c", "-b", "-a"])).unwrap().len(), 3);
}

#[test]
fn missing_argument_is_reported() {
    let mut manager = file_manager();
    assert_eq!(manager.parse_options(args(&["-f"])).err().unwrap(), "Option -f requires an argument.");
}

#[test]
fn missing_argument_names_the_token_as_written() {
    let mut manager = file_manager();
    assert_eq!(
        manager.parse_options(args(&["ignored", "-file"])).err().unwrap(),
        "Option -file requires an argument."
    );
}

#[test]
fn option_with_argument_is_matched() {
    let mut manager = file_manager();
    let found = manager.parse_options(args(&["-f", "in.txt"])).unwrap();
    assert_eq!(found.len(), 1);
    assert_eq!(found[0].short_name, "f");
    assert_eq!(found[0].long_name, "file");
    assert!(found[0].required);
    assert!(found[0].has_argument);
    assert_eq!(found[0].description, "The file to read");
    assert_eq!(found[0].argument, "in.txt");
    assert!(manager.is_present("f"));
    assert!(manager.is_present("file"));
    assert_eq!(manager.argument("f"), "in.txt");
    assert_eq!(manager.argument("file"), "in.txt");
}

#[test]
fn unknown_option_is_reported() {
    let mut manager = sample_manager();
    assert_eq!(manager.parse_options(args(&["-x"])).err().unwrap(), "Unknown option: -x");
}

#[test]
fn first_failure_from_the_left_is_reported() {
    let mut manager = file_manager();
    assert_eq!(manager.parse_options(args(&["-x", "-f"])).err().unwrap(), "Unknown option: -x");
    assert_eq!(
        manager.parse_options(args(&["-h", "-y", "-x"])).err().unwrap(),
        "Unknown option: -y"
    );
}

#[test]
fn bare_dash_asks_for_the_empty_name() {
    let mut manager = sample_manager();
    assert_eq!(manager.parse_options(args(&["-"])).err().unwrap(), "Unknown option: -");
    let mut nameless = OptionsManager::new("app", vec![opt("", "nameless", false, false, "")]);
    let found = nameless.parse_options(args(&["-"])).unwrap();
    assert_eq!(found.len(), 1);
    assert_eq!(found[0].long_name, "nameless");
}

#[test]
fn double_dash_keeps_its_second_dash() {
    let mut manager = sample_manager();
    assert_eq!(manager.parse_options(args(&["--help"])).err().unwrap(), "Unknown option: --help");
    assert_eq!(
        manager.parse_options(args(&["--version"])).err().unwrap(),
        "Unknown option: --version"
    );
}

#[test]
fn long_name_is_matched_after_a_single_dash() {
    let mut manager = sample_manager();
    let found = manager.parse_options(args(&["-version", "-output", "a.out"])).unwrap();
    assert_eq!(found.len(), 2);
    assert_eq!(found[0].short_name, "v");
    assert_eq!(found[1].short_name, "o");
    assert_eq!(found[1].argument, "a.out");
    assert!(manager.is_present("v"));
    assert!(manager.is_present("output"));
    assert_eq!(manager.argument("o"), "a.out");
}

#[test]
fn tokens_that_are_no_flags_are_passed_over() {
    let mut manager = sample_manager();
    let found = manager.parse_options(args(&["build", "", "-v", "x-y", "é-", "日本"])).unwrap();
    assert_eq!(found.len(), 1);
    assert_eq!(found[0].short_name, "v");
    assert!(!manager.is_present("build"));
}

#[test]
fn flag_names_may_hold_any_characters() {
    let mut manager = OptionsManager::new("app", vec![opt("é", "été", false, true, "")]);
    let found = manager.parse_options(args(&["-é", "1", "-été", "2"])).unwrap();
    assert_eq!(found.len(), 2);
    assert_eq!(found[0].argument, "1");
    assert_eq!(found[1].argument, "2");
    assert_eq!(manager.argument("été"), "1");
}

#[test]
fn argument_may_look_like_a_flag() {
    let mut manager = sample_manager();
    let found = manager.parse_options(args(&["-o", "-h"])).unwrap();
    assert_eq!(found.len(), 1);
    assert_eq!(found[0].argument, "-h");
    assert!(!manager.is_present("h"));
    assert_eq!(manager.argument("output"), "-h");
    let found = manager.parse_options(args(&["-o", "-nonsense", "-v"])).unwrap();
    assert_eq!(found.len(), 2);
    assert_eq!(found[0].argument, "-nonsense");
}

#[test]
fn repeated_option_is_matched_each_time_and_the_first_answers() {
    let mut manager = sample_manager();
    let found = manager.parse_options(args(&["-o", "a", "-v", "-o", "b"])).unwrap();
    assert_eq!(found.len(), 3);
    assert_eq!(found[0].argument, "a");
    assert_eq!(found[1].short_name, "v");
    assert_eq!(found[2].argument, "b");
    assert_eq!(manager.argument("o"), "a");
}

#[test]
fn queries_are_pure_reads() {
    let mut manager = sample_manager();
    manager.parse_options(args(&["-o", "out.txt", "-v"])).unwrap();
    for _ in 0..3 {
        assert!(manager.is_present("o"));
        assert!(manager.is_present("version"));
        assert!(!manager.is_present("h"));
        assert_eq!(manager.argument("o"), "out.txt");
        assert_eq!(manager.argument("v"), "");
        assert_eq!(manager.argument("h"), "");
    }
}

#[test]
fn option_without_argument_has_empty_argument() {
    let mut manager = sample_manager();
    manager.parse_options(args(&["-v", "1.0"])).unwrap();
    assert!(manager.is_present("v"));
    assert_eq!(manager.argument("v"), "");
    assert_eq!(manager.argument("version"), "");
}

#[test]
fn absent_option_has_empty_argument() {
    let mut manager = sample_manager();
    manager.parse_options(args(&["-v"])).unwrap();
    assert_eq!(manager.argument("o"), "");
    assert_eq!(manager.argument("unheard"), "");
}

#[test]
fn each_parse_replaces_the_matches() {
    let mut manager = sample_manager();
    manager.parse_options(args(&["-v"])).unwrap();
    assert!(manager.is_present("v"));
    manager.parse_options(args(&["-o", "x"])).unwrap();
    assert!(!manager.is_present("v"));
    assert!(manager.is_present("o"));
    manager.parse_options(Vec::new()).unwrap();
    assert!(!manager.is_present("o"));
}

#[test]
fn failed_scan_keeps_the_earlier_matches() {
    let mut manager = sample_manager();
    manager.parse_options(args(&["-v"])).unwrap();
    assert!(manager.parse_options(args(&["-o", "x", "-q"])).is_err());
    assert!(manager.is_present("v"));
    assert!(!manager.is_present("o"));
    assert!(manager.parse_options(args(&["-o"])).is_err());
    assert!(manager.is_present("v"));
}

#[test]
fn missing_required_option_still_stores_the_matches() {
    let mut manager = OptionsManager::new(
        "app",
        vec![opt("f", "file", true, true, "The file to read"), opt("v", "version", false, false, "")],
    );
    assert!(manager.parse_options(args(&["-v"])).is_err());
    assert!(manager.is_present("v"));
    assert!(!manager.is_present("f"));
}

#[test]
fn required_option_is_supplied_by_a_shared_name() {
    let mut manager = OptionsManager::new(
        "app",
        vec![opt("f", "file", false, false, ""), opt("g", "file", true, false, "")],
    );
    let found = manager.parse_options(args(&["-f"])).unwrap();
    assert_eq!(found.len(), 1);
    assert_eq!(found[0].short_name, "f");
    assert_eq!(
        manager.parse_options(Vec::new()).err().unwrap(),
        "Required option -g or --file is missing."
    );
}

#[test]
fn parse_leaves_the_catalog_as_it_was() {
    let mut manager = sample_manager();
    manager.parse_options(args(&["-o", "x", "-h"])).unwrap();
    assert!(manager.parse_options(args(&["-zzz"])).is_err());
    let catalog = manager.options();
    assert_eq!(catalog.len(), 3);
    assert_eq!(catalog[1].short_name, "o");
    assert_eq!(catalog[1].argument, "");
    assert_eq!(catalog[2].short_name, "h");
}

#[test]
fn help_text_lists_the_catalog_in_order() {
    let manager = OptionsManager::new(
        "MyApp",
        vec![
            opt("v", "version", false, false, "Prints version information"),
            opt("f", "file", true, true, "The file to read"),
            opt("o", "output", false, true, "The file to write to"),
            opt("k", "keep", true, false, "Keeps going"),
        ],
    );
    let expected = "MyApp - Help: \n\
\x20 -v, --version\n\
\x20     Prints version information\n\
\x20 -f, --file <arg> (required)\n\
\x20     The file to read\n\
\x20 -o, --output <arg>\n\
\x20     The file to write to\n\
\x20 -k, --keep (required)\n\
\x20     Keeps going\n\
\x20 -h, --help\n\
\x20     Displays the help screen\n";
    assert_eq!(manager.help_text(), expected);
}

#[test]
fn help_text_of_nothing_declared() {
    let manager = OptionsManager::new("", Vec::new());
    assert_eq!(manager.help_text(), " - Help: \n  -h, --help\n      Displays the help screen\n");
}
