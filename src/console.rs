use vstd::prelude::*;
use vstd::string::*;
use crate::error::Error;
use crate::item::Item;
use crate::paths::first_index;
use crate::text::push_text;

verus! {

/// Whether `c` has Unicode's `White_Space` property.
pub open spec fn is_white_space(c: char) -> bool {
    let u = c as u32;
    (0x9 <= u <= 0xD) || u == 0x20 || u == 0x85 || u == 0xA0 || u == 0x1680 || (0x2000 <= u
        <= 0x200A) || u == 0x2028 || u == 0x2029 || u == 0x202F || u == 0x205F || u == 0x3000
}

/// How many white-space characters begin `s`.
pub open spec fn leading_space(s: Seq<char>) -> nat
    decreases s.len(),
{
    if s.len() > 0 && is_white_space(s[0]) {
        1 + leading_space(s.drop_first())
    } else {
        0
    }
}

/// How many white-space characters end `s`.
pub open spec fn trailing_space(s: Seq<char>) -> nat
    decreases s.len(),
{
    if s.len() > 0 && is_white_space(s.last()) {
        1 + trailing_space(s.drop_last())
    } else {
        0
    }
}

/// `s` without its leading and trailing white space.
pub open spec fn trimmed(s: Seq<char>) -> Seq<char> {
    if leading_space(s) >= s.len() {
        Seq::empty()
    } else {
        s.subrange(leading_space(s) as int, s.len() - trailing_space(s))
    }
}

/// Relies on `str::trim`: the text without its leading and trailing
/// characters of Unicode's `White_Space` property.
#[verifier::external_body]
fn trim_text(s: &str) -> (r: String)
    ensures
        r@ == trimmed(s@),
{
    s.trim().to_string()
}

/// A line typed at the daemon's console.
#[derive(Debug, Clone, PartialEq, Eq)]
pub enum ConsoleCommand {
    /// Stop the daemon.
    Exit,
    /// Re-evaluate the indexed file at the path held.
    Refresh(String),
    /// Run the query held against the index.
    Query(String),
    /// Anything else: ignored.
    Other,
}

/// `t` is `exit` in any mix of ASCII letter cases.
pub open spec fn is_exit_word(t: Seq<char>) -> bool {
    &&& t.len() == 4
    &&& (t[0] == 'e' || t[0] == 'E')
    &&& (t[1] == 'x' || t[1] == 'X')
    &&& (t[2] == 'i' || t[2] == 'I')
    &&& (t[3] == 't' || t[3] == 'T')
}

pub open spec fn refresh_word() -> Seq<char> {
    seq!['r', 'e', 'f', 'r', 'e', 's', 'h']
}

pub open spec fn query_word() -> Seq<char> {
    seq!['q', 'u', 'e', 'r', 'y']
}

/// What follows the first space of `t`; empty when there is none.
pub open spec fn argument_of(t: Seq<char>) -> Seq<char> {
    if first_index(t, ' ') < t.len() {
        t.subrange(first_index(t, ' ') + 1, t.len() as int)
    } else {
        Seq::empty()
    }
}

/// `r` is the command that the trimmed line `t` gives.
pub open spec fn command_of(r: ConsoleCommand, t: Seq<char>) -> bool {
    if is_exit_word(t) {
        r == ConsoleCommand::Exit
    } else if refresh_word().is_prefix_of(t) {
        r matches ConsoleCommand::Refresh(a) && a@ == argument_of(t)
    } else if query_word().is_prefix_of(t) {
        r matches ConsoleCommand::Query(a) && a@ == argument_of(t)
    } else {
        r == ConsoleCommand::Other
    }
}

fn has_prefix(t: &str, p: &str) -> (r: bool)
    ensures
        r == p@.is_prefix_of(t@),
{
    let n = p.unicode_len();
    if n > t.unicode_len() {
        return false;
    }
    let mut i: usize = 0;
    while i < n
        invariant
            i <= n == p@.len() <= t@.len(),
            forall|j: int| 0 <= j < i ==> p@[j] == t@[j],
        decreases n - i,
    {
        if p.get_char(i) != t.get_char(i) {
            return false;
        }
        i = i + 1;
    }
    true
}

fn argument(t: &str) -> (r: String)
    ensures
        r@ == argument_of(t@),
{
    let n = t.unicode_len();
    let mut i: usize = 0;
    while i < n && t.get_char(i) != ' '
        invariant
            i <= n == t@.len(),
            forall|j: int| 0 <= j < i ==> t@[j] != ' ',
        decreases n - i,
    {
        i = i + 1;
    }
    proof {
        lemma_first_index_is(t@, i as int);
    }
    let mut r = String::new();
    if i < n {
        push_text(&mut r, t.substring_char(i + 1, n));
    }
    assert(r@ =~= argument_of(t@));
    r
}

proof fn lemma_first_index_is(s: Seq<char>, i: int)
    requires
        0 <= i <= s.len(),
        forall|j: int| 0 <= j < i ==> s[j] != ' ',
        i == s.len() || s[i] == ' ',
    ensures
        first_index(s, ' ') == i,
    decreases s.len(),
{
    if s.len() > 0 && s[0] != ' ' {
        lemma_first_index_is(s.drop_first(), i - 1);
    }
}

/// The command given by the line `t`, already trimmed.
pub fn parse_trimmed_command(t: &str) -> (r: ConsoleCommand)
    ensures
        command_of(r, t@),
{
    let n = t.unicode_len();
    if n == 4 {
        let a = t.get_char(0);
        let b = t.get_char(1);
        let c = t.get_char(2);
        let d = t.get_char(3);
        if (a == 'e' || a == 'E') && (b == 'x' || b == 'X') && (c == 'i' || c == 'I') && (d == 't'
            || d == 'T') {
            return ConsoleCommand::Exit;
        }
    }
    proof {
        reveal_strlit("refresh");
        reveal_strlit("query");
        assert("refresh"@ =~= refresh_word());
        assert("query"@ =~= query_word());
    }
    if has_prefix(t, "refresh") {
        ConsoleCommand::Refresh(argument(t))
    } else if has_prefix(t, "query") {
        ConsoleCommand::Query(argument(t))
    } else {
        ConsoleCommand::Other
    }
}

/// The command given by a line typed at the console, trimmed first.
pub fn parse_command(line: &str) -> (r: ConsoleCommand)
    ensures
        command_of(r, trimmed(line@)),
{
    let t = trim_text(line);
    parse_trimmed_command(t.as_str())
}

/// What to do with a file just found in the inbox, given what reading its tags gave.
#[derive(Debug, Clone, PartialEq, Eq)]
pub enum IngestAction {
    /// File the track into the library.
    File(Item),
    /// Set the file at the path held aside: it is no media file.
    SetAside(String),
    /// Leave the file in place and report the missing tag.
    ReportMissingTag(String, String),
    /// Leave the file in place and report that the tag helper is missing.
    ReportHelperMissing,
    /// Leave the file in place.
    Ignore,
}

/// The action for a file whose tag read gave `read`.
pub fn ingest_action(read: Result<Item, Error>) -> (r: IngestAction)
    ensures
        match read {
            Ok(item) => r == IngestAction::File(item),
            Err(Error::UnsupportedFile(p)) => r == IngestAction::SetAside(p),
            Err(Error::MissingRequiredTag(p, t)) => r == IngestAction::ReportMissingTag(p, t),
            Err(Error::HelperNotFound) => r == IngestAction::ReportHelperMissing,
            Err(_) => r == IngestAction::Ignore,
        },
{
    match read {
        Ok(item) => IngestAction::File(item),
        Err(Error::UnsupportedFile(p)) => IngestAction::SetAside(p),
        Err(Error::MissingRequiredTag(p, t)) => IngestAction::ReportMissingTag(p, t),
        Err(Error::HelperNotFound) => IngestAction::ReportHelperMissing,
        Err(_) => IngestAction::Ignore,
    }
}

} // verus!
