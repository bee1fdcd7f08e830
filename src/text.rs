use vstd::prelude::*;
use vstd::string::*;

verus! {

/// The characters that may not appear in a file or directory name.
pub open spec fn invalid_for_path(c: char) -> bool {
    c == '"' || c == '<' || c == '>' || c == '|' || c == '\0' || c == ':' || c == '*' || c == '?'
        || c == '\\' || c == '/'
}

/// Every invalid character replaced by `_`, all others kept.
pub open spec fn sanitize(s: Seq<char>) -> Seq<char> {
    Seq::new(s.len(), |i: int| if invalid_for_path(s[i]) { '_' } else { s[i] })
}

/// Sanitizing twice gives the same text as sanitizing once.
pub proof fn lemma_sanitize_idempotent(s: Seq<char>)
    ensures
        sanitize(sanitize(s)) == sanitize(s),
{
    assert(sanitize(sanitize(s)) =~= sanitize(s));
}

/// A sanitized name holds no character that is invalid in a path, and has
/// as many characters as the text it came from.
pub proof fn lemma_sanitized_is_valid(s: Seq<char>)
    ensures
        sanitize(s).len() == s.len(),
        forall|i: int| 0 <= i < s.len() ==> !invalid_for_path(#[trigger] sanitize(s)[i]),
{
}

pub fn is_invalid_for_path(c: char) -> (r: bool)
    ensures
        r == invalid_for_path(c),
{
    c == '"' || c == '<' || c == '>' || c == '|' || c == '\0' || c == ':' || c == '*' || c == '?'
        || c == '\\' || c == '/'
}

/// Relies on String::push: the character is appended at the end.
#[verifier::external_body]
pub(crate) fn push_char(s: &mut String, c: char)
    ensures
        final(s)@ == old(s)@.push(c),
{
    s.push(c)
}

/// Appends every character of `t` to `s`.
pub(crate) fn push_text(s: &mut String, t: &str)
    ensures
        final(s)@ == old(s)@ + t@,
{
    let n = t.unicode_len();
    let mut i: usize = 0;
    while i < n
        invariant
            n == t@.len(),
            i <= n,
            s@ == old(s)@ + t@.subrange(0, i as int),
        decreases n - i,
    {
        let c = t.get_char(i);
        push_char(s, c);
        i = i + 1;
        assert(s@ =~= old(s)@ + t@.subrange(0, i as int));
    }
    assert(t@.subrange(0, n as int) =~= t@);
}

/// A copy of `t` with every character that is invalid in a path replaced by `_`.
pub fn sanitize_file_name(t: &str) -> (r: String)
    ensures
        r@ == sanitize(t@),
{
    let mut s = String::new();
    let n = t.unicode_len();
    let mut i: usize = 0;
    while i < n
        invariant
            n == t@.len(),
            i <= n,
            s@ == sanitize(t@.subrange(0, i as int)),
        decreases n - i,
    {
        let c = t.get_char(i);
        if is_invalid_for_path(c) {
            push_char(&mut s, '_');
        } else {
            push_char(&mut s, c);
        }
        i = i + 1;
        assert(s@ =~= sanitize(t@.subrange(0, i as int)));
    }
    assert(t@.subrange(0, n as int) =~= t@);
    s
}

} // verus!
