//! The command-line token parser.
//!
//! Tokens are read left to right. A flag token opens its section (directory,
//! languages or folder names) and closes any other; each other token goes to
//! the open section. After the last token every section must hold something,
//! and the number of languages must be one or the number of folder names.

use vstd::prelude::*;
use crate::errors::Errors;
use crate::lang::{Langs, lang_named, lang_from_token};
use crate::text::same_text;
use vstd::string::StrSliceExecFns;

verus! {

/// Which section the next non-flag token belongs to.
#[derive(Clone, Copy, Debug, PartialEq, Eq, Structural)]
pub enum FlagMode {
    Idle,
    Directory,
    Language,
    FolderName,
}

pub open spec fn is_help_flag(t: Seq<char>) -> bool {
    t == "-h"@
}

pub open spec fn is_dir_flag(t: Seq<char>) -> bool {
    t == "-d"@
}

pub open spec fn is_lang_flag(t: Seq<char>) -> bool {
    t == "-l"@
}

pub open spec fn is_folder_flag(t: Seq<char>) -> bool {
    t == "-f"@
}

/// Whether a token is one of the three section flags.
pub open spec fn is_section_flag(t: Seq<char>) -> bool {
    is_dir_flag(t) || is_lang_flag(t) || is_folder_flag(t)
}

/// The parser's state between two tokens.
pub ghost struct ScanState {
    pub mode: FlagMode,
    pub opened_dir: bool,
    pub opened_lang: bool,
    pub opened_folder: bool,
    pub folders: Seq<Seq<char>>,
    pub langs: Seq<Langs>,
    pub directory: Seq<char>,
}

/// Where reading a prefix of the tokens leaves the parser: still reading,
/// stopped on the help flag, or stopped on an error.
pub ghost enum Scan {
    Running(ScanState),
    Help,
    Failed(Errors),
}

pub open spec fn initial_state() -> ScanState {
    ScanState {
        mode: FlagMode::Idle,
        opened_dir: false,
        opened_lang: false,
        opened_folder: false,
        folders: Seq::empty(),
        langs: Seq::empty(),
        directory: Seq::empty(),
    }
}

/// Reading one token.
pub open spec fn step(st: ScanState, t: Seq<char>) -> Scan {
    if is_help_flag(t) {
        Scan::Help
    } else if is_dir_flag(t) {
        if st.opened_dir {
            Scan::Failed(Errors::IllegalInputError)
        } else {
            Scan::Running(ScanState { mode: FlagMode::Directory, opened_dir: true, ..st })
        }
    } else if is_lang_flag(t) {
        if st.opened_lang {
            Scan::Failed(Errors::IllegalInputError)
        } else {
            Scan::Running(ScanState { mode: FlagMode::Language, opened_lang: true, ..st })
        }
    } else if is_folder_flag(t) {
        if st.opened_folder {
            Scan::Failed(Errors::IllegalInputError)
        } else {
            Scan::Running(ScanState { mode: FlagMode::FolderName, opened_folder: true, ..st })
        }
    } else {
        match st.mode {
            FlagMode::Directory => Scan::Running(ScanState { directory: t, ..st }),
            FlagMode::Language => match lang_named(t) {
                Some(l) => Scan::Running(ScanState { langs: st.langs.push(l), ..st }),
                None => Scan::Failed(Errors::IllegalLanguageError),
            },
            FlagMode::FolderName => Scan::Running(ScanState { folders: st.folders.push(t), ..st }),
            FlagMode::Idle => Scan::Failed(Errors::IllegalInputError),
        }
    }
}

/// Reading a sequence of tokens from the initial state; the parser stops at
/// the help flag or at the first error.
pub open spec fn scan(ts: Seq<Seq<char>>) -> Scan
    decreases ts.len(),
{
    if ts.len() == 0 {
        Scan::Running(initial_state())
    } else {
        match scan(ts.drop_last()) {
            Scan::Running(st) => step(st, ts.last()),
            stopped => stopped,
        }
    }
}

/// The first check that a fully read state fails, if any.
pub open spec fn shortfall(st: ScanState) -> Option<Errors> {
    if st.langs.len() == 0 {
        Some(Errors::NoLanguageError)
    } else if st.directory.len() == 0 {
        Some(Errors::NoDirectoryError)
    } else if st.folders.len() == 0 {
        Some(Errors::NoFolderNameError)
    } else if st.langs.len() != st.folders.len() && st.langs.len() != 1 {
        Some(Errors::UnbalancedLanguagesError)
    } else {
        None
    }
}

/// The folder names, languages and directory that a run asks for.
pub struct Request {
    pub folders: Vec<String>,
    pub langs: Vec<Langs>,
    pub directory: String,
}

pub ghost struct RequestView {
    pub folders: Seq<Seq<char>>,
    pub langs: Seq<Langs>,
    pub directory: Seq<char>,
}

impl View for Request {
    type V = RequestView;

    open spec fn view(&self) -> RequestView {
        RequestView {
            folders: self.folders@.map_values(|f: String| f@),
            langs: self.langs@,
            directory: self.directory@,
        }
    }
}

/// Whether the languages can be paired with the folders: one language for
/// all of them, or one for each.
pub open spec fn balanced(langs: Seq<Langs>, n_folders: nat) -> bool {
    langs.len() == 1 || langs.len() == n_folders
}

/// The request's well-formedness: some folder, and languages that pair.
pub open spec fn request_ok(r: RequestView) -> bool {
    r.folders.len() > 0 && balanced(r.langs, r.folders.len())
}

/// What the tokens ask for: the help text, or folders to create.
pub enum Command {
    Help,
    Create(Request),
}

pub ghost enum CommandView {
    Help,
    Create(RequestView),
}

impl View for Command {
    type V = CommandView;

    open spec fn view(&self) -> CommandView {
        match self {
            Command::Help => CommandView::Help,
            Command::Create(r) => CommandView::Create(r@),
        }
    }
}

pub open spec fn texts(tokens: Seq<String>) -> Seq<Seq<char>> {
    tokens.map_values(|t: String| t@)
}

/// What parsing gives on a sequence of tokens.
pub open spec fn parsed(ts: Seq<Seq<char>>) -> Result<CommandView, Errors> {
    match scan(ts) {
        Scan::Help => Ok(CommandView::Help),
        Scan::Failed(e) => Err(e),
        Scan::Running(st) => match shortfall(st) {
            Some(e) => Err(e),
            None => Ok(
                CommandView::Create(
                    RequestView { folders: st.folders, langs: st.langs, directory: st.directory },
                ),
            ),
        },
    }
}

pub open spec fn command_result_view(r: Result<Command, Errors>) -> Result<CommandView, Errors> {
    match r {
        Ok(c) => Ok(c@),
        Err(e) => Err(e),
    }
}

/// Once the parser has stopped, later tokens change nothing.
pub(crate) proof fn lemma_stopped_stays(ts: Seq<Seq<char>>, k: int)
    requires
        0 <= k <= ts.len(),
        !(scan(ts.take(k)) is Running),
    ensures
        scan(ts) == scan(ts.take(k)),
    decreases ts.len() - k,
{
    if k < ts.len() {
        assert(ts.take(k + 1).drop_last() =~= ts.take(k));
        lemma_stopped_stays(ts, k + 1);
    } else {
        assert(ts.take(k) =~= ts);
    }
}

/// The state that the parser's variables stand for.
spec fn state_of(
    mode: FlagMode,
    opened_dir: bool,
    opened_lang: bool,
    opened_folder: bool,
    folders: Seq<String>,
    langs: Seq<Langs>,
    directory: String,
) -> ScanState {
    ScanState {
        mode,
        opened_dir,
        opened_lang,
        opened_folder,
        folders: texts(folders),
        langs,
        directory: directory@,
    }
}

/// Parses command-line tokens (without the program name).
pub fn parse_input(tokens: &Vec<String>) -> (r: Result<Command, Errors>)
    ensures
        command_result_view(r) == parsed(texts(tokens@)),
        r matches Ok(Command::Create(req)) ==> request_ok(req@),
{
    let ghost ts = texts(tokens@);
    let mut mode = FlagMode::Idle;
    let mut opened_dir = false;
    let mut opened_lang = false;
    let mut opened_folder = false;
    let mut folders: Vec<String> = Vec::new();
    let mut langs: Vec<Langs> = Vec::new();
    let mut directory = String::new();
    let mut i: usize = 0;
    proof {
        assert(ts.take(0).len() == 0);
        assert(texts(folders@) =~= Seq::<Seq<char>>::empty());
        assert(langs@ =~= Seq::<Langs>::empty());
    }
    while i < tokens.len()
        invariant
            ts == texts(tokens@),
            i <= tokens.len(),
            scan(ts.take(i as int)) == Scan::Running(
                state_of(mode, opened_dir, opened_lang, opened_folder, folders@, langs@, directory),
            ),
        decreases tokens.len() - i,
    {
        let token = tokens[i].as_str();
        let ghost before = state_of(
            mode,
            opened_dir,
            opened_lang,
            opened_folder,
            folders@,
            langs@,
            directory,
        );
        proof {
            assert(ts.take(i + 1).drop_last() =~= ts.take(i as int));
            assert(ts.take(i + 1).last() == token@);
        }
        if same_text(token, "-h") {
            proof {
                lemma_stopped_stays(ts, i + 1);
            }
            return Ok(Command::Help);
        }
        if same_text(token, "-d") {
            if opened_dir {
                proof {
                    lemma_stopped_stays(ts, i + 1);
                }
                return Err(Errors::IllegalInputError);
            }
            opened_dir = true;
            mode = FlagMode::Directory;
        } else if same_text(token, "-l") {
            if opened_lang {
                proof {
                    lemma_stopped_stays(ts, i + 1);
                }
                return Err(Errors::IllegalInputError);
            }
            opened_lang = true;
            mode = FlagMode::Language;
        } else if same_text(token, "-f") {
            if opened_folder {
                proof {
                    lemma_stopped_stays(ts, i + 1);
                }
                return Err(Errors::IllegalInputError);
            }
            opened_folder = true;
            mode = FlagMode::FolderName;
        } else {
            match mode {
                FlagMode::Directory => {
                    directory = tokens[i].clone();
                },
                FlagMode::Language => {
                    match lang_from_token(token) {
                        Some(l) => {
                            langs.push(l);
                        },
                        None => {
                            proof {
                                lemma_stopped_stays(ts, i + 1);
                            }
                            return Err(Errors::IllegalLanguageError);
                        },
                    }
                },
                FlagMode::FolderName => {
                    folders.push(tokens[i].clone());
                    proof {
                        assert(texts(folders@) =~= before.folders.push(token@));
                    }
                },
                FlagMode::Idle => {
                    proof {
                        lemma_stopped_stays(ts, i + 1);
                    }
                    return Err(Errors::IllegalInputError);
                },
            }
        }
        i = i + 1;
    }
    proof {
        assert(ts.take(i as int) =~= ts);
    }
    if langs.len() == 0 {
        return Err(Errors::NoLanguageError);
    }
    if directory.as_str().unicode_len() == 0 {
        return Err(Errors::NoDirectoryError);
    }
    if folders.len() == 0 {
        return Err(Errors::NoFolderNameError);
    }
    if langs.len() != folders.len() && langs.len() != 1 {
        return Err(Errors::UnbalancedLanguagesError);
    }
    Ok(Command::Create(Request { folders, langs, directory }))
}

} // verus!
