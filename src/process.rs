use vstd::prelude::*;
use crate::config::AppConfig;
use crate::order::{lower_of, lowercase};

verus! {

/// What `char::is_whitespace` returns for a character.
pub uninterp spec fn is_space(c: char) -> bool;

/// What `Path::file_name` gives for a path written as text: its final
/// component, if that is a plain name.
pub uninterp spec fn file_name_of(p: Seq<char>) -> Option<Seq<char>>;

/// Relies on `char::is_whitespace`: the Unicode `White_Space` property of `c`.
#[verifier::external_body]
fn char_is_whitespace(c: char) -> (r: bool)
    ensures
        r == is_space(c),
{
    c.is_whitespace()
}

/// Relies on `std::path::Path::file_name`: the final component of the path
/// `p`, when it is a plain name. A component of a `str` path is valid UTF-8,
/// so its conversion back to text does not fail.
#[verifier::external_body]
fn path_file_name(p: &str) -> (r: Option<String>)
    ensures
        match r {
            None => file_name_of(p@) is None,
            Some(f) => file_name_of(p@) == Some(f@),
        },
{
    match std::path::Path::new(p).file_name() {
        Some(f) => f.to_str().map(String::from),
        None => None,
    }
}

/// First position at or after `i` that does not hold white space.
pub open spec fn skip_space(s: Seq<char>, i: int) -> int
    decreases s.len() - i,
{
    if i < 0 || i >= s.len() || !is_space(s[i]) {
        i
    } else {
        skip_space(s, i + 1)
    }
}

/// First position at or after `i` that holds white space, or the end.
pub open spec fn token_end(s: Seq<char>, i: int) -> int
    decreases s.len() - i,
{
    if i < 0 || i >= s.len() || is_space(s[i]) {
        i
    } else {
        token_end(s, i + 1)
    }
}

/// The first white-space separated word of `s`, if any.
pub open spec fn first_word(s: Seq<char>) -> Option<Seq<char>> {
    let a = skip_space(s, 0);
    if a >= s.len() {
        None
    } else {
        Some(s.subrange(a, token_end(s, a)))
    }
}

/// The process names under which `app` may be running, in the order they
/// are tried: the file name of the program its command starts, then its
/// name, then its name in lowercase.
pub open spec fn process_names_of(app: AppConfig) -> Seq<Seq<char>> {
    let program = match first_word(app.command@) {
        Some(w) => match file_name_of(w) {
            Some(f) => seq![f],
            None => Seq::empty(),
        },
        None => Seq::empty(),
    };
    program + seq![app.name@, lower_of(app.name@)]
}

/// The first white-space separated word of `s`, if any.
pub fn first_word_of(s: &str) -> (r: Option<String>)
    ensures
        match r {
            None => first_word(s@) is None,
            Some(w) => first_word(s@) == Some(w@),
        },
{
    let len = s.unicode_len();
    let mut a: usize = 0;
    while a < len && char_is_whitespace(s.get_char(a))
        invariant
            len == s@.len(),
            a <= len,
            skip_space(s@, 0) == skip_space(s@, a as int),
        decreases len - a,
    {
        a = a + 1;
    }
    if a >= len {
        return None;
    }
    let mut b: usize = a;
    while b < len && !char_is_whitespace(s.get_char(b))
        invariant
            len == s@.len(),
            a <= b <= len,
            skip_space(s@, 0) == a,
            token_end(s@, a as int) == token_end(s@, b as int),
        decreases len - b,
    {
        b = b + 1;
    }
    let word = s.substring_char(a, b);
    Some(String::from_str(word))
}

/// The process names to look for when asking whether `app` runs, in the
/// order they are tried.
pub fn process_names(app: &AppConfig) -> (r: Vec<String>)
    ensures
        r@.len() == process_names_of(*app).len(),
        forall|i: int| 0 <= i < r@.len() ==> #[trigger] r@[i]@ == process_names_of(*app)[i],
{
    let mut names: Vec<String> = Vec::new();
    match first_word_of(app.command.as_str()) {
        Some(w) => match path_file_name(w.as_str()) {
            Some(f) => names.push(f),
            None => {},
        },
        None => {},
    }
    names.push(app.name.clone());
    names.push(lowercase(&app.name));
    names
}

} // verus!
