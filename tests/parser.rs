use comp_create::errors::Errors;
use comp_create::lang::{lang_from_token, Langs};
use comp_create::parse::{parse_input, Command, Request};

fn tokens(words: &[&str]) -> Vec<String> {
    words.iter().map(|w| w.to_string()).collect()
}

fn request(words: &[&str]) -> Request {
    match parse_input(&tokens(words)) {
        Ok(Command::Create(r)) => r,
        Ok(Command::Help) => panic!("help instead of a request"),
        Err(e) => panic!("parse failed: {:?}", e),
    }
}

fn error(words: &[&str]) -> Errors {
    match parse_input(&tokens(words)) {
        Err(e) => e,
        Ok(_) => panic!("parse succeeded"),
    }
}

#[test]
fn single_folder_request() {
    let r = request(&["-f", "Two Sum", "-l", "cpp", "-d", "."]);
    assert_eq!(r.folders, vec!["Two Sum".to_string()]);
    assert_eq!(r.langs, vec![Langs::CPP]);
    assert_eq!(r.directory, ".");
}

#[test]
fn sections_in_any_order() {
    let r = request(&["-d", "out", "-l", "c", "java", "-f", "x", "y"]);
    assert_eq!(r.folders, vec!["x".to_string(), "y".to_string()]);
    assert_eq!(r.langs, vec![Langs::C, Langs::JAVA]);
    assert_eq!(r.directory, "out");
}

#[test]
fn later_directory_token_wins() {
    let r = request(&["-f", "a", "-l", "py", "-d", "first", "second"]);
    assert_eq!(r.directory, "second");
}

#[test]
fn repeated_directory_flag_is_illegal_input() {
    assert_eq!(error(&["-d", ".", "-d", "x", "-f", "a", "-l", "cpp"]), Errors::IllegalInputError);
}

#[test]
fn repeated_flag_right_after_itself_is_illegal_input() {
    assert_eq!(error(&["-l", "-l", "cpp", "-f", "a", "-d", "."]), Errors::IllegalInputError);
}

#[test]
fn reopened_empty_section_is_illegal_input() {
    assert_eq!(error(&["-f", "-l", "cpp", "-f", "a", "-d", "."]), Errors::IllegalInputError);
}

#[test]
fn token_before_any_flag_is_illegal_input() {
    assert_eq!(error(&["a", "-f", "b", "-l", "cpp", "-d", "."]), Errors::IllegalInputError);
}

#[test]
fn missing_language_section() {
    assert_eq!(error(&["-f", "a", "-d", "."]), Errors::NoLanguageError);
}

#[test]
fn empty_language_section() {
    assert_eq!(error(&["-l", "-f", "a", "-d", "."]), Errors::NoLanguageError);
}

#[test]
fn missing_directory_section() {
    assert_eq!(error(&["-f", "a", "-l", "cpp"]), Errors::NoDirectoryError);
}

#[test]
fn missing_folder_section() {
    assert_eq!(error(&["-l", "cpp", "-d", "."]), Errors::NoFolderNameError);
}

#[test]
fn empty_token_list_lacks_a_language() {
    assert_eq!(error(&[]), Errors::NoLanguageError);
}

#[test]
fn unbalanced_languages() {
    assert_eq!(
        error(&["-f", "a", "b", "c", "-l", "cpp", "py", "-d", "."]),
        Errors::UnbalancedLanguagesError
    );
    assert_eq!(error(&["-f", "a", "-l", "cpp", "py", "-d", "."]), Errors::UnbalancedLanguagesError);
}

#[test]
fn unknown_language_is_illegal_language() {
    assert_eq!(error(&["-f", "A", "-l", "rust", "-d", "."]), Errors::IllegalLanguageError);
}

#[test]
fn help_anywhere_wins_over_later_errors() {
    assert!(matches!(parse_input(&tokens(&["-h"])), Ok(Command::Help)));
    assert!(matches!(parse_input(&tokens(&["-f", "a", "-h", "-f"])), Ok(Command::Help)));
}

#[test]
fn error_before_help_is_reported() {
    assert_eq!(error(&["-l", "rust", "-h"]), Errors::IllegalLanguageError);
}

#[test]
fn language_tokens() {
    assert_eq!(lang_from_token("cpp"), Some(Langs::CPP));
    assert_eq!(lang_from_token("c"), Some(Langs::C));
    assert_eq!(lang_from_token("py"), Some(Langs::PYTHON));
    assert_eq!(lang_from_token("java"), Some(Langs::JAVA));
    assert_eq!(lang_from_token("Cpp"), None);
    assert_eq!(lang_from_token(""), None);
}
