//! Quoting for the shell, which the `shell-escape` crate does, and
//! URL-encoding of form fields, which `serde_urlencoded` does.
use std::borrow::Cow;
use vstd::prelude::*;

verus! {

/// The shell for which a command is written out.
#[derive(Clone, Copy, Debug, PartialEq, Eq, Structural)]
pub enum Dialect {
    /// A POSIX shell: single quotes.
    Posix,
    /// `cmd.exe`: double quotes and backslashes.
    Windows,
}

/// Whether a POSIX shell takes the character as it is: an ASCII letter
/// or digit, or one of `-_=/,.+`.
pub open spec fn is_plain(c: char) -> bool {
    ||| 'a' <= c <= 'z'
    ||| 'A' <= c <= 'Z'
    ||| '0' <= c <= '9'
    ||| c == '-'
    ||| c == '_'
    ||| c == '='
    ||| c == '/'
    ||| c == ','
    ||| c == '.'
    ||| c == '+'
}

/// What stands between the single quotes for `s`: `s` itself, with each
/// `'` and each `!` taken out of the quotes and put behind a backslash.
pub open spec fn posix_quoted_body(s: Seq<char>) -> Seq<char>
    decreases s.len(),
{
    if s.len() == 0 {
        s
    } else if s.last() == '\'' || s.last() == '!' {
        posix_quoted_body(s.drop_last()) + seq!['\'', '\\', s.last(), '\'']
    } else {
        posix_quoted_body(s.drop_last()).push(s.last())
    }
}

/// A word as a POSIX shell takes it: as it is where it is not empty and
/// all its characters are plain, else in single quotes.
pub open spec fn posix_quoted(s: Seq<char>) -> Seq<char> {
    if s.len() > 0 && forall|i: int| 0 <= i < s.len() ==> is_plain(#[trigger] s[i]) {
        s
    } else {
        seq!['\''] + posix_quoted_body(s) + seq!['\'']
    }
}

/// Whether `cmd.exe` needs quotes around the word: it is empty or holds
/// a double quote, a tab, a newline or a space.
pub open spec fn needs_windows_quotes(s: Seq<char>) -> bool {
    s.len() == 0 || exists|i: int|
        0 <= i < s.len() && (#[trigger] s[i] == '"' || s[i] == '\t' || s[i] == '\n' || s[i] == ' ')
}

/// What `shell_escape::windows::escape` makes of a word.
pub uninterp spec fn windows_quoted(s: Seq<char>) -> Seq<char>;

/// A word as `cmd.exe` takes it: as it is where it needs no quotes.
pub open spec fn windows_word(s: Seq<char>) -> Seq<char> {
    if needs_windows_quotes(s) {
        windows_quoted(s)
    } else {
        s
    }
}

/// A word as the shell of the given dialect takes it.
pub open spec fn quoted(s: Seq<char>, dialect: Dialect) -> Seq<char> {
    match dialect {
        Dialect::Posix => posix_quoted(s),
        Dialect::Windows => windows_word(s),
    }
}

/// What `serde_urlencoded::to_string` makes of the one pair
/// `(name, value)`: the two URL-encoded, with `=` between them; `None`
/// where it reports an error.
pub uninterp spec fn form_urlencoded(name: Seq<char>, value: Seq<char>) -> Option<Seq<char>>;

/// Whether URL-encoding leaves the character as it is: an ASCII letter
/// or digit, or one of `*-._`.
pub open spec fn is_unreserved(c: char) -> bool {
    ||| 'a' <= c <= 'z'
    ||| 'A' <= c <= 'Z'
    ||| '0' <= c <= '9'
    ||| c == '*'
    ||| c == '-'
    ||| c == '.'
    ||| c == '_'
}

/// Whether URL-encoding leaves the text as it is.
pub open spec fn is_unreserved_text(s: Seq<char>) -> bool {
    forall|i: int| 0 <= i < s.len() ==> is_unreserved(#[trigger] s[i])
}

/// One form field, URL-encoded: the name, `=` and the value, each as it
/// is where it holds nothing to encode.
pub open spec fn form_pair_text(name: Seq<char>, value: Seq<char>) -> Option<Seq<char>> {
    if is_unreserved_text(name) && is_unreserved_text(value) {
        Some(name + seq!['='] + value)
    } else {
        form_urlencoded(name, value)
    }
}

/// Quotes a word for a POSIX shell.
///
/// Trusted: `shell_escape::unix::escape`, which hands back a word that
/// is not empty and all of whose characters are ASCII letters, digits or
/// among `-_=/,.+`, and else writes a single quote, the characters of
/// the word with `'\` before and `'` after each `'` and `!`, and a
/// single quote.
#[verifier::external_body]
pub(crate) fn posix_escape(word: &str) -> (out: String)
    ensures
        out@ == posix_quoted(word@),
{
    shell_escape::unix::escape(Cow::Borrowed(word)).into_owned()
}

/// Quotes a word for `cmd.exe`.
///
/// Trusted: `shell_escape::windows::escape`, whose result is a function
/// of the word alone, and which hands back a word that is not empty and
/// holds no double quote, tab, newline or space.
#[verifier::external_body]
pub(crate) fn windows_escape(word: &str) -> (out: String)
    ensures
        out@ == windows_quoted(word@),
        out@ == windows_word(word@),
{
    shell_escape::windows::escape(Cow::Borrowed(word)).into_owned()
}

/// URL-encodes one form field.
///
/// Trusted: `serde_urlencoded::to_string` on a sequence of one pair of
/// strings, whose result is a function of the pair alone. ASCII
/// letters, digits and `*-._` are written as they are, so a name and a
/// value made of these come out as they went in, with `=` between them.
#[verifier::external_body]
pub(crate) fn urlencode_pair(name: &str, value: &str) -> (r: Option<String>)
    ensures
        match r {
            Some(text) => {
                &&& form_urlencoded(name@, value@) == Some(text@)
                &&& form_pair_text(name@, value@) == Some(text@)
            },
            None => form_urlencoded(name@, value@) is None && form_pair_text(name@, value@)
                is None,
        },
{
    serde_urlencoded::to_string(&[(name, value)]).ok()
}

} // verus!
