use comp_create::errors::Errors;
use comp_create::lang::Langs;
use comp_create::parse::{parse_input, Command, Request};
use comp_create::project::{language_for, plan_folder, project_files, FolderPlan, CPP_MAKEFILE};

fn tokens(words: &[&str]) -> Vec<String> {
    words.iter().map(|w| w.to_string()).collect()
}

fn plans(words: &[&str]) -> Vec<FolderPlan> {
    let req: Request = match parse_input(&tokens(words)) {
        Ok(Command::Create(r)) => r,
        _ => panic!("no request"),
    };
    (0..req.folders.len()).map(|i| plan_folder(&req, i).unwrap()).collect()
}

fn file_names(p: &FolderPlan) -> Vec<String> {
    p.files.iter().map(|f| f.name.clone()).collect()
}

#[test]
fn one_cpp_folder() {
    let ps = plans(&["-f", "Two Sum", "-l", "cpp", "-d", "."]);
    assert_eq!(ps.len(), 1);
    assert_eq!(ps[0].name, "two_sum");
    assert_eq!(ps[0].lang, Langs::CPP);
    assert_eq!(file_names(&ps[0]), vec!["main.cpp".to_string(), "Makefile".to_string()]);
    assert!(ps[0].files[1].contents.contains("-std=c++20"));
    assert!(ps[0].files[1].contents.contains("g++"));
    assert_eq!(ps[0].files[1].contents, CPP_MAKEFILE);
}

#[test]
fn languages_pinned_by_position() {
    let ps = plans(&["-f", "A", "B", "-l", "cpp", "py", "-d", "."]);
    assert_eq!(ps.len(), 2);
    assert_eq!(ps[0].name, "a");
    assert_eq!(file_names(&ps[0]), vec!["main.cpp".to_string(), "Makefile".to_string()]);
    assert_eq!(ps[1].name, "b");
    assert_eq!(file_names(&ps[1]), vec!["main.py".to_string()]);
    assert!(ps[1].files[0].contents.contains("if __name__ == '__main__':"));
}

#[test]
fn single_language_broadcast() {
    let ps = plans(&["-f", "A", "B", "-l", "java", "-d", "."]);
    assert_eq!(ps.len(), 2);
    for (p, name) in ps.iter().zip(["a", "b"]) {
        assert_eq!(p.name, name);
        assert_eq!(p.lang, Langs::JAVA);
        assert_eq!(file_names(p), vec!["main.java".to_string()]);
        assert!(p.files[0].contents.contains("public static void main(String[] args)"));
    }
}

#[test]
fn unknown_language_fails_before_any_plan() {
    assert!(matches!(
        parse_input(&tokens(&["-f", "A", "-l", "rust", "-d", "."])),
        Err(Errors::IllegalLanguageError)
    ));
}

#[test]
fn empty_name_fails_only_its_own_folder() {
    let req = match parse_input(&tokens(&["-f", "ok", "!!!", "-l", "c", "-d", "."])) {
        Ok(Command::Create(r)) => r,
        _ => panic!("no request"),
    };
    assert_eq!(plan_folder(&req, 0).unwrap().name, "ok");
    assert!(matches!(plan_folder(&req, 1), Err(Errors::EmptyCreatedFileError)));
}

#[test]
fn c_folder_files() {
    let files = project_files(Langs::C);
    assert_eq!(files.len(), 2);
    assert_eq!(files[0].name, "main.c");
    assert!(files[0].contents.contains("#include <stdio.h>"));
    assert_eq!(files[1].name, "Makefile");
    assert!(files[1].contents.contains("CFLAGS = -std=c17"));
}

#[test]
fn language_pairing() {
    assert_eq!(language_for(&vec![Langs::PYTHON], 3), Langs::PYTHON);
    assert_eq!(language_for(&vec![Langs::C, Langs::JAVA], 1), Langs::JAVA);
}
