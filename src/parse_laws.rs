//! Facts about the parser that hold for every token sequence.

use vstd::prelude::*;
use crate::errors::Errors;
use crate::lang::lang_named;
use crate::parse::{
    FlagMode, Scan, ScanState, is_dir_flag, is_folder_flag, is_help_flag, is_lang_flag,
    is_section_flag, lemma_stopped_stays, parsed, scan, step,
};

verus! {

/// Whether the section that flag `f` opens has been opened.
pub open spec fn opened(st: ScanState, f: Seq<char>) -> bool {
    if is_dir_flag(f) {
        st.opened_dir
    } else if is_lang_flag(f) {
        st.opened_lang
    } else {
        st.opened_folder
    }
}

/// The mode that flag `f` switches to.
pub open spec fn mode_of(f: Seq<char>) -> FlagMode {
    if is_dir_flag(f) {
        FlagMode::Directory
    } else if is_lang_flag(f) {
        FlagMode::Language
    } else {
        FlagMode::FolderName
    }
}

/// Whether the section that flag `f` opens holds nothing.
pub open spec fn section_empty(st: ScanState, f: Seq<char>) -> bool {
    if is_dir_flag(f) {
        st.directory.len() == 0
    } else if is_lang_flag(f) {
        st.langs.len() == 0
    } else {
        st.folders.len() == 0
    }
}

proof fn lemma_flags_distinct()
    ensures
        !is_help_flag("-d"@),
        !is_help_flag("-l"@),
        !is_help_flag("-f"@),
        !is_dir_flag("-l"@),
        !is_dir_flag("-f"@),
        !is_lang_flag("-f"@),
{
    reveal_strlit("-h");
    reveal_strlit("-d");
    reveal_strlit("-l");
    reveal_strlit("-f");
    assert("-h"@[1] != "-d"@[1]);
    assert("-h"@[1] != "-l"@[1]);
    assert("-h"@[1] != "-f"@[1]);
    assert("-d"@[1] != "-l"@[1]);
    assert("-d"@[1] != "-f"@[1]);
    assert("-l"@[1] != "-f"@[1]);
}

/// A step that keeps reading leaves an opened section opened.
proof fn lemma_step_keeps_opened(st: ScanState, t: Seq<char>, f: Seq<char>)
    requires
        is_section_flag(f),
        opened(st, f),
        step(st, t) is Running,
    ensures
        opened(step(st, t)->Running_0, f),
{
    lemma_flags_distinct();
}

/// After a prefix that holds flag `f` at index `i`, its section is opened.
proof fn lemma_flag_opens(ts: Seq<Seq<char>>, i: int, n: int)
    requires
        0 <= i < n <= ts.len(),
        is_section_flag(ts[i]),
        scan(ts.take(n)) is Running,
    ensures
        opened(scan(ts.take(n))->Running_0, ts[i]),
    decreases n - i,
{
    lemma_flags_distinct();
    assert(ts.take(n).drop_last() =~= ts.take(n - 1));
    assert(ts.take(n).last() == ts[n - 1]);
    if !(scan(ts.take(n - 1)) is Running) {
        assert(scan(ts.take(n)) == scan(ts.take(n - 1)));
    } else if n - 1 == i {
    } else {
        lemma_flag_opens(ts, i, n - 1);
        lemma_step_keeps_opened(scan(ts.take(n - 1))->Running_0, ts[n - 1], ts[i]);
    }
}

/// A section flag that appears twice is rejected with an illegal-input
/// error, unless reading had already stopped before its second appearance
/// (on the help flag or on an earlier error).
pub proof fn lemma_repeated_flag_rejected(ts: Seq<Seq<char>>, i: int, j: int)
    requires
        0 <= i < j < ts.len(),
        is_section_flag(ts[i]),
        ts[j] == ts[i],
        scan(ts.take(j)) is Running,
    ensures
        parsed(ts) == Err::<crate::parse::CommandView, Errors>(Errors::IllegalInputError),
{
    lemma_flags_distinct();
    lemma_flag_opens(ts, i, j);
    assert(ts.take(j + 1).drop_last() =~= ts.take(j));
    assert(ts.take(j + 1).last() == ts[j]);
    lemma_stopped_stays(ts, j + 1);
}

/// A section whose flag never appears stays closed and empty.
proof fn lemma_unopened_section(ts: Seq<Seq<char>>, f: Seq<char>)
    requires
        is_section_flag(f),
        forall|k: int| 0 <= k < ts.len() ==> ts[k] != f,
        scan(ts) is Running,
    ensures
        !opened(scan(ts)->Running_0, f),
        scan(ts)->Running_0.mode != mode_of(f),
        section_empty(scan(ts)->Running_0, f),
    decreases ts.len(),
{
    lemma_flags_distinct();
    if ts.len() > 0 {
        let p = ts.drop_last();
        assert forall|k: int| 0 <= k < p.len() implies p[k] != f by {
            assert(p[k] == ts[k]);
        }
        lemma_unopened_section(p, f);
    }
}

/// Without a language section, reading to the end fails for want of a
/// language.
pub proof fn lemma_no_language_section(ts: Seq<Seq<char>>)
    requires
        forall|k: int| 0 <= k < ts.len() ==> !is_lang_flag(#[trigger] ts[k]),
        scan(ts) is Running,
    ensures
        parsed(ts) == Err::<crate::parse::CommandView, Errors>(Errors::NoLanguageError),
{
    lemma_flags_distinct();
    lemma_unopened_section(ts, "-l"@);
}

/// Without a directory section, reading to the end with some language
/// fails for want of a directory.
pub proof fn lemma_no_directory_section(ts: Seq<Seq<char>>)
    requires
        forall|k: int| 0 <= k < ts.len() ==> !is_dir_flag(#[trigger] ts[k]),
        scan(ts) matches Scan::Running(st) && st.langs.len() > 0,
    ensures
        parsed(ts) == Err::<crate::parse::CommandView, Errors>(Errors::NoDirectoryError),
{
    lemma_flags_distinct();
    lemma_unopened_section(ts, "-d"@);
}

/// Without a folder-name section, reading to the end with some language
/// and a directory fails for want of a folder name.
pub proof fn lemma_no_folder_section(ts: Seq<Seq<char>>)
    requires
        forall|k: int| 0 <= k < ts.len() ==> !is_folder_flag(#[trigger] ts[k]),
        scan(ts) matches Scan::Running(st) && st.langs.len() > 0 && st.directory.len() > 0,
    ensures
        parsed(ts) == Err::<crate::parse::CommandView, Errors>(Errors::NoFolderNameError),
{
    lemma_flags_distinct();
    lemma_unopened_section(ts, "-f"@);
}

/// A token read in the language section that is no flag and names no
/// known language is rejected as an illegal language.
pub proof fn lemma_unknown_language_rejected(ts: Seq<Seq<char>>, j: int)
    requires
        0 <= j < ts.len(),
        scan(ts.take(j)) matches Scan::Running(st) && st.mode == FlagMode::Language,
        !is_help_flag(ts[j]),
        !is_section_flag(ts[j]),
        lang_named(ts[j]) is None,
    ensures
        parsed(ts) == Err::<crate::parse::CommandView, Errors>(Errors::IllegalLanguageError),
{
    assert(ts.take(j + 1).drop_last() =~= ts.take(j));
    assert(ts.take(j + 1).last() == ts[j]);
    lemma_stopped_stays(ts, j + 1);
}

/// When every section holds something, a number of languages that is
/// neither one nor the number of folder names is rejected as unbalanced.
pub proof fn lemma_unbalanced_languages(ts: Seq<Seq<char>>)
    requires
        scan(ts) matches Scan::Running(st) && st.langs.len() > 0 && st.directory.len() > 0
            && st.folders.len() > 0 && st.langs.len() != 1 && st.langs.len() != st.folders.len(),
    ensures
        parsed(ts) == Err::<crate::parse::CommandView, Errors>(
            Errors::UnbalancedLanguagesError,
        ),
{
}

} // verus!
