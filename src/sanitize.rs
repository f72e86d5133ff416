//! Turning a free-form folder name into a filesystem-safe slug.

use vstd::prelude::*;
use vstd::string::StrSliceExecFns;
use crate::errors::Errors;
use crate::text::push_char;

verus! {

pub open spec fn is_ascii_upper(c: char) -> bool {
    'A' <= c <= 'Z'
}

pub open spec fn is_slug_char(c: char) -> bool {
    ('a' <= c <= 'z') || ('0' <= c <= '9') || c == '_'
}

/// Whether a character survives sanitizing: a space, an underscore, or an
/// ASCII letter or digit.
pub open spec fn is_kept(c: char) -> bool {
    c == ' ' || is_slug_char(c) || is_ascii_upper(c)
}

/// What a kept character becomes: a space turns into an underscore, an
/// upper-case letter into its lower-case form.
pub open spec fn slug_char(c: char) -> char {
    if c == ' ' {
        '_'
    } else if is_ascii_upper(c) {
        ((c as u32) + 32) as char
    } else {
        c
    }
}

/// The sanitized form of a name: each kept character, mapped, in order.
pub open spec fn slug(s: Seq<char>) -> Seq<char>
    decreases s.len(),
{
    if s.len() == 0 {
        Seq::empty()
    } else if is_kept(s.last()) {
        slug(s.drop_last()).push(slug_char(s.last()))
    } else {
        slug(s.drop_last())
    }
}

/// What sanitizing a name gives: its slug, or an error where that is empty.
pub open spec fn sanitized(s: Seq<char>) -> Result<Seq<char>, Errors> {
    if slug(s).len() == 0 {
        Err(Errors::EmptyCreatedFileError)
    } else {
        Ok(slug(s))
    }
}

proof fn lemma_slug_chars(s: Seq<char>)
    ensures
        forall|k: int| 0 <= k < slug(s).len() ==> is_slug_char(#[trigger] slug(s)[k]),
    decreases s.len(),
{
    if s.len() > 0 {
        lemma_slug_chars(s.drop_last());
        let c = s.last();
        let p = slug(s.drop_last());
        if is_kept(c) {
            assert forall|k: int| 0 <= k < slug(s).len() implies is_slug_char(
                #[trigger] slug(s)[k],
            ) by {
                if k < p.len() {
                    assert(slug(s)[k] == p[k]);
                }
            }
        }
    }
}

proof fn lemma_slug_fixes_slug_chars(s: Seq<char>)
    requires
        forall|k: int| 0 <= k < s.len() ==> is_slug_char(#[trigger] s[k]),
    ensures
        slug(s) == s,
    decreases s.len(),
{
    if s.len() > 0 {
        lemma_slug_fixes_slug_chars(s.drop_last());
        assert(s.drop_last().push(s.last()) =~= s);
    }
}

/// Sanitizing is idempotent: a name that sanitizes without error gives back
/// the same name when sanitized again.
pub proof fn lemma_sanitize_idempotent(s: Seq<char>)
    requires
        sanitized(s) is Ok,
    ensures
        sanitized(slug(s)) == sanitized(s),
{
    lemma_slug_chars(s);
    lemma_slug_fixes_slug_chars(slug(s));
}

fn slug_char_exec(c: char) -> (r: char)
    requires
        is_kept(c),
    ensures
        r == slug_char(c),
{
    if c == ' ' {
        '_'
    } else if 'A' <= c && c <= 'Z' {
        ((c as u8) + 32) as char
    } else {
        c
    }
}

/// Sanitizes a folder name.
pub fn create_folder_name(input: &str) -> (r: Result<String, Errors>)
    ensures
        r matches Ok(s) ==> sanitized(input@) == Ok::<Seq<char>, Errors>(s@),
        r matches Err(e) ==> sanitized(input@) == Err::<Seq<char>, Errors>(e),
{
    let n = input.unicode_len();
    let mut folder = String::new();
    let mut i: usize = 0;
    while i < n
        invariant
            n == input@.len(),
            i <= n,
            folder@ == slug(input@.take(i as int)),
        decreases n - i,
    {
        let c = input.get_char(i);
        assert(input@.take(i + 1).drop_last() =~= input@.take(i as int));
        if c == ' ' || c == '_' || ('a' <= c && c <= 'z') || ('0' <= c && c <= '9') || ('A' <= c
            && c <= 'Z') {
            let m = slug_char_exec(c);
            push_char(&mut folder, m);
        }
        i = i + 1;
    }
    assert(input@.take(n as int) =~= input@);
    if folder.unicode_len() == 0 {
        return Err(Errors::EmptyCreatedFileError);
    }
    Ok(folder)
}

} // verus!
