//! The console command that ends the watcher.

use vstd::prelude::*;
use vstd::string::*;

verus! {

/// What `str::to_lowercase` makes of a text.
pub uninterp spec fn lowercase_of(text: Seq<char>) -> Seq<char>;

/// What `str::trim` leaves of a text.
pub uninterp spec fn trimmed(text: Seq<char>) -> Seq<char>;

/// Calls `str::to_lowercase`, which returns the lowercase equivalent of the text
/// as a new string, by Unicode's rules. The result depends on the text alone;
/// nothing more is claimed of it.
#[verifier::external_body]
fn lowercase(text: &str) -> (lower: String)
    ensures
        lower@ == lowercase_of(text@),
{
    text.to_lowercase()
}

/// Calls `str::trim`, which returns the text without its leading and trailing
/// whitespace, by Unicode's `White_Space` property. The result depends on the
/// text alone; nothing more is claimed of it.
#[verifier::external_body]
fn trim(text: &str) -> (inner: &str)
    ensures
        inner@ == trimmed(text@),
{
    text.trim()
}

/// The command word that ends the watcher.
pub open spec fn quit_word() -> Seq<char> {
    seq!['q']
}

/// Whether a normalized line is the quit command: the single letter `q`.
pub fn is_quit_word(word: &str) -> (quit: bool)
    ensures
        quit == (word@ == quit_word()),
{
    let n = word.unicode_len();
    if n != 1 {
        return false;
    }
    let quit = word.get_char(0) == 'q';
    assert(quit ==> word@ =~= quit_word());
    quit
}

/// Whether a line from the console asks to quit: lowercased and trimmed, it is
/// the quit word. Any other line is ignored.
pub fn is_quit_command(line: &str) -> (quit: bool)
    ensures
        quit == (trimmed(lowercase_of(line@)) == quit_word()),
{
    let lower = lowercase(line);
    is_quit_word(trim(lower.as_str()))
}

} // verus!
