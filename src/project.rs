//! What each language's folder holds: fixed files, the same for every
//! folder, and the language that each folder is paired with.

use vstd::prelude::*;
use crate::errors::Errors;
use crate::lang::Langs;
use crate::parse::{Request, request_ok};
use crate::sanitize::{create_folder_name, sanitized};

verus! {

pub const CPP_STUB: &'static str = "#include <iostream>\n\nint main(void) {\n  // ...\n  return 0;\n}\n";

pub const C_STUB: &'static str = "#include <stdio.h>\n#include <stdlib.h>\n\nint main(void) {\n  // ...\n  return 0;\n}\n";

pub const PY_STUB: &'static str = "def main():\n    # ...\n\nif __name__ == '__main__':\n    main()\n";

pub const JAVA_STUB: &'static str = "public class Main {\n\n    public static void main(String[] args) {\n        // ...\n    }\n}\n";

pub const C_MAKEFILE: &'static str = "CC = gcc\nCFLAGS = -std=c17\n\nSRC = main.c\nOBJ = $(SRC:.c=.o)\n\n.PHONY: all clean\n\nall: main\n\nclean:\n\t$(RM) $(OBJ) main\n\nmain: $(OBJ)\n\t$(CC) $(CFLAGS) -o $@ $^\n\n%.o: %.c\n\t$(CC) $(CFLAGS) -c $< -o $@\n";

pub const CPP_MAKEFILE: &'static str = "CXX = g++\nCXXFLAGS = -std=c++20\n\nSRC = main.cpp\nOBJ = $(SRC:.cpp=.o)\n\n.PHONY: all clean\n\nall: main\n\nclean:\n\t$(RM) $(OBJ) main\n\nmain: $(OBJ)\n\t$(CXX) $(CXXFLAGS) -o $@ $^\n\n%.o: %.cpp\n\t$(CXX) $(CXXFLAGS) -c $< -o $@\n";

/// One file to write into a new folder.
pub struct ProjectFile {
    pub name: String,
    pub contents: String,
}

impl View for ProjectFile {
    type V = (Seq<char>, Seq<char>);

    open spec fn view(&self) -> (Seq<char>, Seq<char>) {
        (self.name@, self.contents@)
    }
}

/// The files, by name and contents, that a folder for `lang` holds: a
/// source stub, and for the compiled languages a build file.
pub open spec fn files_for(lang: Langs) -> Seq<(Seq<char>, Seq<char>)> {
    match lang {
        Langs::CPP => seq![("main.cpp"@, CPP_STUB@), ("Makefile"@, CPP_MAKEFILE@)],
        Langs::C => seq![("main.c"@, C_STUB@), ("Makefile"@, C_MAKEFILE@)],
        Langs::PYTHON => seq![("main.py"@, PY_STUB@)],
        Langs::JAVA => seq![("main.java"@, JAVA_STUB@)],
    }
}

pub open spec fn files_view(v: Seq<ProjectFile>) -> Seq<(Seq<char>, Seq<char>)> {
    v.map_values(|f: ProjectFile| f@)
}

fn project_file(name: &str, contents: &str) -> (r: ProjectFile)
    ensures
        r@ == (name@, contents@),
{
    ProjectFile { name: String::from_str(name), contents: String::from_str(contents) }
}

/// The files that a folder for `lang` gets.
pub fn project_files(lang: Langs) -> (r: Vec<ProjectFile>)
    ensures
        files_view(r@) == files_for(lang),
{
    let mut v: Vec<ProjectFile> = Vec::new();
    match lang {
        Langs::CPP => {
            v.push(project_file("main.cpp", CPP_STUB));
            v.push(project_file("Makefile", CPP_MAKEFILE));
        },
        Langs::C => {
            v.push(project_file("main.c", C_STUB));
            v.push(project_file("Makefile", C_MAKEFILE));
        },
        Langs::PYTHON => {
            v.push(project_file("main.py", PY_STUB));
        },
        Langs::JAVA => {
            v.push(project_file("main.java", JAVA_STUB));
        },
    }
    assert(files_view(v@) =~= files_for(lang));
    v
}

/// The language of folder `i`: the only one given, or the `i`-th.
pub open spec fn paired_lang(langs: Seq<Langs>, i: int) -> Langs {
    if langs.len() == 1 {
        langs[0]
    } else {
        langs[i]
    }
}

/// Picks the language of folder `i`.
pub fn language_for(langs: &Vec<Langs>, i: usize) -> (r: Langs)
    requires
        langs@.len() == 1 || i < langs@.len(),
    ensures
        r == paired_lang(langs@, i as int),
{
    if langs.len() == 1 {
        langs[0]
    } else {
        langs[i]
    }
}

/// One folder to create: its name, its language and the files it gets.
pub struct FolderPlan {
    pub name: String,
    pub lang: Langs,
    pub files: Vec<ProjectFile>,
}

/// Plans folder `i` of a request: its sanitized name, its paired language
/// and that language's files; fails where the name sanitizes to nothing.
pub fn plan_folder(req: &Request, i: usize) -> (r: Result<FolderPlan, Errors>)
    requires
        request_ok(req@),
        i < req@.folders.len(),
    ensures
        r matches Ok(p) ==> {
            &&& sanitized(req@.folders[i as int]) == Ok::<Seq<char>, Errors>(p.name@)
            &&& p.lang == paired_lang(req@.langs, i as int)
            &&& files_view(p.files@) == files_for(p.lang)
        },
        r matches Err(e) ==> sanitized(req@.folders[i as int]) == Err::<Seq<char>, Errors>(e),
{
    let name = match create_folder_name(req.folders[i].as_str()) {
        Ok(n) => n,
        Err(e) => {
            return Err(e);
        },
    };
    let lang = language_for(&req.langs, i);
    let files = project_files(lang);
    Ok(FolderPlan { name, lang, files })
}

} // verus!
