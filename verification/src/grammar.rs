//! The grammar of a request item, as mathematics: escapes, the separator
//! search and its priority order, and the laws that tie them together.
use vstd::prelude::*;

verus! {

/// The characters that a backslash escapes: `=`, `@`, `:`, `;` and the
/// backslash itself.
pub open spec fn is_special(c: char) -> bool {
    c == '=' || c == '@' || c == ':' || c == ';' || c == '\\'
}

/// `s` with its escapes resolved. A backslash before a special character
/// stands for that character; before any other character, and at the end
/// of the input, it stands for itself.
pub open spec fn unescape(s: Seq<char>) -> Seq<char>
    decreases s.len(),
{
    if s.len() == 0 {
        s
    } else if s[0] != '\\' {
        seq![s[0]] + unescape(s.skip(1))
    } else if s.len() == 1 {
        s
    } else if is_special(s[1]) {
        seq![s[1]] + unescape(s.skip(2))
    } else {
        seq![s[0], s[1]] + unescape(s.skip(2))
    }
}

/// `s` with a backslash put before each special character: the spelling
/// of `s` that holds no separator and unescapes to `s`.
pub open spec fn escape(s: Seq<char>) -> Seq<char>
    decreases s.len(),
{
    if s.len() == 0 {
        s
    } else if is_special(s[0]) {
        seq!['\\', s[0]] + escape(s.skip(1))
    } else {
        seq![s[0]] + escape(s.skip(1))
    }
}

/// The five separators, in the order in which they are tried at each
/// position.
#[derive(Clone, Copy, Debug, PartialEq, Eq, Structural)]
pub enum Separator {
    /// `==`, a query-string pair.
    UrlParam,
    /// `:=`, a body field with a JSON value.
    JsonField,
    /// `=`, a body field with a string value.
    DataField,
    /// `@`, a file to upload.
    FormFile,
    /// `:`, a header.
    Header,
}

impl Separator {
    /// The characters of the separator.
    pub open spec fn text(self) -> Seq<char> {
        match self {
            Separator::UrlParam => seq!['=', '='],
            Separator::JsonField => seq![':', '='],
            Separator::DataField => seq!['='],
            Separator::FormFile => seq!['@'],
            Separator::Header => seq![':'],
        }
    }

    /// How many characters the separator takes.
    pub fn width(self) -> (n: usize)
        ensures
            n == self.text().len(),
            1 <= n <= 2,
    {
        match self {
            Separator::UrlParam => 2,
            Separator::JsonField => 2,
            Separator::DataField => 1,
            Separator::FormFile => 1,
            Separator::Header => 1,
        }
    }
}

/// The separator that starts at position `i` of `s`, if any: the first of
/// `==`, `:=`, `=`, `@`, `:` that `s` continues with there.
pub open spec fn separator_at(s: Seq<char>, i: int) -> Option<Separator> {
    if !(0 <= i < s.len()) {
        None
    } else if s[i] == '=' && i + 1 < s.len() && s[i + 1] == '=' {
        Some(Separator::UrlParam)
    } else if s[i] == ':' && i + 1 < s.len() && s[i + 1] == '=' {
        Some(Separator::JsonField)
    } else if s[i] == '=' {
        Some(Separator::DataField)
    } else if s[i] == '@' {
        Some(Separator::FormFile)
    } else if s[i] == ':' {
        Some(Separator::Header)
    } else {
        None
    }
}

/// Whether position `i` of `s` is taken by an escape: it follows a
/// backslash that is not itself escaped.
pub open spec fn escaped(s: Seq<char>, i: int) -> bool
    decreases i,
{
    0 < i <= s.len() && s[i - 1] == '\\' && !escaped(s, i - 1)
}

/// The left-to-right scan for a separator, started at `from`: a backslash
/// hides the character after it, and the first position where a separator
/// starts wins.
pub open spec fn find_separator(s: Seq<char>, from: int) -> Option<(int, Separator)>
    decreases s.len() + 1 - from,
{
    if from < 0 || from >= s.len() {
        None
    } else if s[from] == '\\' {
        find_separator(s, from + 2)
    } else {
        match separator_at(s, from) {
            Some(sep) => Some((from, sep)),
            None => find_separator(s, from + 1),
        }
    }
}

/// A token cut at its separator: the key before it and the value after
/// it, both with escapes resolved. `None` where the token has no
/// separator.
pub open spec fn split(token: Seq<char>) -> Option<(Seq<char>, Separator, Seq<char>)> {
    match find_separator(token, 0) {
        Some((at, sep)) => Some(
            (unescape(token.take(at)), sep, unescape(token.skip(at + sep.text().len()))),
        ),
        None => None,
    }
}

/// Whether the token ends in a `;` that no backslash escapes.
pub open spec fn ends_with_bare_semicolon(token: Seq<char>) -> bool {
    token.len() > 0 && token.last() == ';' && !escaped(token, token.len() - 1)
}

/// Escaping is undone by unescaping: for every text `s`,
/// `unescape(escape(s))` is `s` again, with no backslash left over from
/// the escapes.
pub proof fn lemma_unescape_escape(s: Seq<char>)
    ensures
        unescape(escape(s)) == s,
    decreases s.len(),
{
    if s.len() > 0 {
        let rest = s.skip(1);
        lemma_unescape_escape(rest);
        let e = escape(s);
        if is_special(s[0]) {
            assert(e.skip(2) =~= escape(rest));
        } else {
            assert(e.skip(1) =~= escape(rest));
        }
    }
}

/// A backslash before a character that is not special escapes nothing:
/// a text in which no backslash stands before a special character
/// unescapes to itself, backslashes included.
pub proof fn lemma_unescape_plain(s: Seq<char>)
    requires
        forall|i: int| 0 <= i && i + 1 < s.len() && s[i] == '\\' ==> !is_special(#[trigger] s[i + 1]),
    ensures
        unescape(s) == s,
    decreases s.len(),
{
    if s.len() == 0 {
    } else if s[0] != '\\' {
        let rest = s.skip(1);
        assert forall|i: int| 0 <= i && i + 1 < rest.len() && rest[i] == '\\' implies !is_special(
            #[trigger] rest[i + 1],
        ) by {
            assert(rest[i + 1] == s[(i + 1) + 1]);
        }
        lemma_unescape_plain(rest);
        assert(seq![s[0]] + rest =~= s);
    } else if s.len() == 1 {
    } else {
        let rest = s.skip(2);
        assert forall|i: int| 0 <= i && i + 1 < rest.len() && rest[i] == '\\' implies !is_special(
            #[trigger] rest[i + 1],
        ) by {
            assert(rest[i + 1] == s[(i + 2) + 1]);
        }
        lemma_unescape_plain(rest);
    }
}

/// The scan finds the leftmost separator that no backslash hides: where
/// it answers `(at, sep)`, `sep` starts at `at`, `at` is not escaped, and
/// no unescaped position before `at` starts a separator; where it
/// answers `None`, no unescaped position of the token starts one.
pub proof fn lemma_separator_is_leftmost(s: Seq<char>)
    ensures
        match find_separator(s, 0) {
            Some((at, sep)) => {
                &&& 0 <= at < s.len()
                &&& !escaped(s, at)
                &&& separator_at(s, at) == Some(sep)
                &&& forall|j: int| 0 <= j < at && !escaped(s, j) ==> separator_at(s, j) is None
            },
            None => forall|j: int| 0 <= j < s.len() && !escaped(s, j) ==> separator_at(s, j) is None,
        },
{
    lemma_scan_from(s, 0);
}

/// The scan from an unescaped position `from`, told over the positions
/// from there on.
proof fn lemma_scan_from(s: Seq<char>, from: int)
    requires
        0 <= from,
        !escaped(s, from),
    ensures
        match find_separator(s, from) {
            Some((at, sep)) => {
                &&& from <= at < s.len()
                &&& !escaped(s, at)
                &&& separator_at(s, at) == Some(sep)
                &&& forall|j: int| from <= j < at && !escaped(s, j) ==> separator_at(s, j) is None
            },
            None => forall|j: int| from <= j < s.len() && !escaped(s, j) ==> separator_at(s, j) is None,
        },
    decreases s.len() + 1 - from,
{
    if from >= s.len() {
    } else if s[from] == '\\' {
        assert(escaped(s, from + 1));
        if from + 2 <= s.len() {
            lemma_scan_from(s, from + 2);
        }
    } else if separator_at(s, from) is None {
        lemma_scan_from(s, from + 1);
    }
}

/// The scan passes over an escaped text without finding anything in it.
proof fn lemma_scan_skips_escaped(p: Seq<char>, k: Seq<char>, rest: Seq<char>)
    ensures
        find_separator(p + escape(k) + rest, p.len() as int) == find_separator(
            p + escape(k) + rest,
            (p.len() + escape(k).len()) as int,
        ),
    decreases k.len(),
{
    if k.len() > 0 {
        let s = p + escape(k) + rest;
        let tail = k.skip(1);
        if is_special(k[0]) {
            let q = p + seq!['\\', k[0]];
            assert(q + escape(tail) + rest =~= s);
            lemma_scan_skips_escaped(q, tail, rest);
        } else {
            let q = p + seq![k[0]];
            assert(q + escape(tail) + rest =~= s);
            lemma_scan_skips_escaped(q, tail, rest);
        }
    }
}

/// Parsing recovers what was escaped: for every key, separator and value,
/// the token written as the escaped key, the separator and the escaped
/// value is cut at exactly that separator, into exactly that key and that
/// value. So `a==b` is cut at `==`, never at a `=` with a stray `=` left
/// in the value.
pub proof fn lemma_split_escaped(key: Seq<char>, sep: Separator, value: Seq<char>)
    ensures
        split(escape(key) + sep.text() + escape(value)) == Some((key, sep, value)),
{
    let ek = escape(key);
    let ev = escape(value);
    let rest = sep.text() + ev;
    let token = ek + sep.text() + ev;
    let at = ek.len() as int;
    let empty = Seq::<char>::empty();
    assert(empty + ek + rest =~= token);
    lemma_scan_skips_escaped(empty, key, rest);
    assert(token.take(at) =~= ek);
    assert(token.skip(at + sep.text().len()) =~= ev);
    lemma_unescape_escape(key);
    lemma_unescape_escape(value);
}

} // verus!
