use vstd::prelude::*;
use vstd::string::*;
use crate::naming::{candidate_path, decimal, digit, is_first_free, join, numbered_name};
use crate::text::{
    invalid_for_path, is_invalid_for_path, push_char, push_text, sanitize, sanitize_file_name,
};

verus! {

/// Index of the last `c` in `s`, or -1 when there is none.
pub open spec fn last_index(s: Seq<char>, c: char) -> int
    decreases s.len(),
{
    if s.len() == 0 {
        -1
    } else if s.last() == c {
        s.len() - 1
    } else {
        last_index(s.drop_last(), c)
    }
}

/// Index of the first `c` in `s`, or its length when there is none.
pub open spec fn first_index(s: Seq<char>, c: char) -> int
    decreases s.len(),
{
    if s.len() == 0 {
        0
    } else if s[0] == c {
        0
    } else {
        1 + first_index(s.drop_first(), c)
    }
}

/// The part of `s` before its first `c` (all of it when there is none).
pub open spec fn before_first(s: Seq<char>, c: char) -> Seq<char> {
    s.subrange(0, first_index(s, c))
}

/// What follows the last `/` of `p`.
pub open spec fn after_last_slash(p: Seq<char>) -> Seq<char> {
    p.subrange(last_index(p, '/') + 1, p.len() as int)
}

/// What precedes the last `/` of `p`; `/` when that is its first character,
/// empty when there is none.
pub open spec fn before_last_slash(p: Seq<char>) -> Seq<char> {
    let i = last_index(p, '/');
    if i < 0 {
        Seq::empty()
    } else if i == 0 {
        seq!['/']
    } else {
        p.subrange(0, i)
    }
}

/// A path without its trailing `/`s (the root directory `/` is kept).
pub open spec fn trim_dir(d: Seq<char>) -> Seq<char>
    decreases d.len(),
{
    if d.len() > 1 && d.last() == '/' {
        trim_dir(d.drop_last())
    } else {
        d
    }
}

/// The last component of a path, trailing `/`s aside.
pub open spec fn file_name(p: Seq<char>) -> Seq<char> {
    after_last_slash(trim_dir(p))
}

/// The directory holding a path, trailing `/`s aside on both; `/` for an
/// entry of the root directory, empty for a bare name.
pub open spec fn parent(p: Seq<char>) -> Seq<char> {
    trim_dir(before_last_slash(trim_dir(p)))
}

/// The path of `p` relative to directory `root`, when `p` is `root` or lies inside it.
pub open spec fn relative(p: Seq<char>, root: Seq<char>) -> Option<Seq<char>> {
    if p == root {
        Some(Seq::empty())
    } else if root.len() > 0 && root.last() == '/' && root.is_prefix_of(p) {
        Some(p.subrange(root.len() as int, p.len() as int))
    } else if root.push('/').is_prefix_of(p) {
        Some(p.subrange(root.len() + 1int, p.len() as int))
    } else {
        None
    }
}

pub open spec fn is_ascii_space(c: char) -> bool {
    c == ' ' || c == '\t' || c == '\n' || c == '\x0C' || c == '\r'
}

/// Every character is ASCII white space (true of the empty text).
pub open spec fn all_ascii_space(s: Seq<char>) -> bool {
    forall|i: int| 0 <= i < s.len() ==> is_ascii_space(#[trigger] s[i])
}

pub open spec fn none_label() -> Seq<char> {
    seq!['N', 'o', 'n', 'e']
}

/// Index of the first character of `s` that is invalid in a path, or its
/// length when there is none.
pub open spec fn first_invalid(s: Seq<char>) -> int
    decreases s.len(),
{
    if s.len() == 0 {
        0
    } else if invalid_for_path(s[0]) {
        0
    } else {
        1 + first_invalid(s.drop_first())
    }
}

/// The source label of a file at `path` that arrived through the inbox `root`:
/// the name of the first folder below the inbox, up to the first `_` that
/// sanitizing put in it (the first character invalid in a path);
/// `"None"` when the file is not inside the inbox, lies directly in it, or that
/// folder's sanitized name is white space.
pub open spec fn source_of(path: Seq<char>, root: Seq<char>) -> Seq<char> {
    match relative(parent(path), trim_dir(root)) {
        None => none_label(),
        Some(rel) => {
            let seg = before_first(rel, '/');
            if all_ascii_space(sanitize(seg)) {
                none_label()
            } else {
                sanitize(seg).subrange(0, first_invalid(seg))
            }
        },
    }
}

/// `s` without its leading dots.
pub open spec fn trim_leading_dots(s: Seq<char>) -> Seq<char>
    decreases s.len(),
{
    if s.len() > 0 && s[0] == '.' {
        trim_leading_dots(s.drop_first())
    } else {
        s
    }
}

/// Whether a file name has an extension: a `.` after its first character.
pub open spec fn has_extension(f: Seq<char>) -> bool {
    last_index(f, '.') > 0
}

/// The stem of a file name: all of it, or what precedes the `.` of its extension.
pub open spec fn stem_of(f: Seq<char>) -> Seq<char> {
    if has_extension(f) {
        f.subrange(0, last_index(f, '.'))
    } else {
        f
    }
}

/// The extension of a file name, empty when it has none.
pub open spec fn extension_of(f: Seq<char>) -> Seq<char> {
    if has_extension(f) {
        f.subrange(last_index(f, '.') + 1, f.len() as int)
    } else {
        Seq::empty()
    }
}

/// The extension kept when a file is filed: its extension, or for a dot-file
/// the stem without its leading dots.
pub open spec fn kept_extension(path: Seq<char>) -> Seq<char> {
    let f = file_name(path);
    let stem = stem_of(f);
    if stem.len() > 0 && stem[0] == '.' {
        trim_leading_dots(stem)
    } else {
        extension_of(f)
    }
}

pub open spec fn auto_add_name() -> Seq<char> {
    seq![
        'A', 'u', 't', 'o', 'm', 'a', 't', 'i', 'c', 'a', 'l', 'l', 'y', ' ', 'A', 'd', 'd', ' ',
        't', 'o', ' ', 'L', 'i', 'b', 'r', 'a', 'r', 'y',
    ]
}

/// The inbox of a library folder: its sibling `Automatically Add to Library`.
pub open spec fn auto_add_of(music: Seq<char>) -> Seq<char> {
    join(parent(music), auto_add_name())
}

/// Position of the last `c` in `s`, as `last_index` gives it.
pub(crate) fn find_last(s: &str, c: char) -> (r: Option<usize>)
    ensures
        match r {
            Some(i) => i as int == last_index(s@, c),
            None => last_index(s@, c) == -1,
        },
{
    let n = s.unicode_len();
    let mut i: usize = n;
    assert(s@.subrange(0, n as int) =~= s@);
    while i > 0
        invariant
            i <= n == s@.len(),
            last_index(s@, c) == last_index(s@.subrange(0, i as int), c),
        decreases i,
    {
        if s.get_char(i - 1) == c {
            return Some(i - 1);
        }
        assert(s@.subrange(0, i as int).drop_last() =~= s@.subrange(0, i - 1));
        i = i - 1;
    }
    None
}

/// Position of the first `c` in `s`, as `first_index` gives it.
pub(crate) fn find_first(s: &str, c: char) -> (r: usize)
    ensures
        r as int == first_index(s@, c),
        r <= s@.len(),
{
    let n = s.unicode_len();
    let mut i: usize = 0;
    assert(s@.subrange(0, n as int) =~= s@);
    while i < n
        invariant
            i <= n == s@.len(),
            first_index(s@, c) == i + first_index(s@.subrange(i as int, n as int), c),
        decreases n - i,
    {
        if s.get_char(i) == c {
            return i;
        }
        assert(s@.subrange(i as int, n as int).drop_first() =~= s@.subrange(i + 1, n as int));
        i = i + 1;
    }
    i
}

proof fn lemma_last_index_bound(s: Seq<char>, c: char)
    ensures
        -1 <= last_index(s, c) < s.len(),
        last_index(s, c) >= 0 ==> s[last_index(s, c)] == c,
    decreases s.len(),
{
    if s.len() > 0 && s.last() != c {
        lemma_last_index_bound(s.drop_last(), c);
    }
}

fn substring(s: &str, from: usize, to: usize) -> (r: String)
    requires
        from <= to <= s@.len(),
    ensures
        r@ == s@.subrange(from as int, to as int),
{
    let mut out = String::new();
    push_text(&mut out, s.substring_char(from, to));
    out
}

/// What follows the last `/` of `path`.
fn after_last_slash_of(path: &str) -> (r: String)
    ensures
        r@ == after_last_slash(path@),
{
    proof {
        lemma_last_index_bound(path@, '/');
    }
    let n = path.unicode_len();
    match find_last(path, '/') {
        Some(i) => substring(path, i + 1, n),
        None => substring(path, 0, n),
    }
}

/// What precedes the last `/` of `path`.
fn before_last_slash_of(path: &str) -> (r: String)
    ensures
        r@ == before_last_slash(path@),
{
    proof {
        lemma_last_index_bound(path@, '/');
    }
    match find_last(path, '/') {
        Some(i) => {
            if i == 0 {
                let mut s = String::new();
                push_char(&mut s, '/');
                assert(s@ =~= seq!['/']);
                s
            } else {
                substring(path, 0, i)
            }
        },
        None => String::new(),
    }
}

/// The last component of `path`.
pub fn get_file_name(path: &str) -> (r: String)
    ensures
        r@ == file_name(path@),
{
    let t = trim_directory(path);
    after_last_slash_of(t.as_str())
}

/// The directory holding `path`.
pub fn get_parent(path: &str) -> (r: String)
    ensures
        r@ == parent(path@),
{
    let t = trim_directory(path);
    let p = before_last_slash_of(t.as_str());
    trim_directory(p.as_str())
}

fn before_first_of(s: &str, c: char) -> (r: String)
    ensures
        r@ == before_first(s@, c),
{
    let i = find_first(s, c);
    substring(s, 0, i)
}

fn trim_directory(d: &str) -> (r: String)
    ensures
        r@ == trim_dir(d@),
{
    let n = d.unicode_len();
    let mut i: usize = n;
    assert(d@.subrange(0, n as int) =~= d@);
    while i > 1 && d.get_char(i - 1) == '/'
        invariant
            i <= n == d@.len(),
            trim_dir(d@) == trim_dir(d@.subrange(0, i as int)),
        decreases i,
    {
        assert(d@.subrange(0, i as int).drop_last() =~= d@.subrange(0, i - 1));
        i = i - 1;
    }
    substring(d, 0, i)
}

/// Index of the first character of `s` that is invalid in a path.
fn find_first_invalid(s: &str) -> (r: usize)
    ensures
        r as int == first_invalid(s@),
        r <= s@.len(),
{
    let n = s.unicode_len();
    let mut i: usize = 0;
    assert(s@.subrange(0, n as int) =~= s@);
    while i < n
        invariant
            i <= n == s@.len(),
            first_invalid(s@) == i + first_invalid(s@.subrange(i as int, n as int)),
        decreases n - i,
    {
        if is_invalid_for_path(s.get_char(i)) {
            return i;
        }
        assert(s@.subrange(i as int, n as int).drop_first() =~= s@.subrange(i + 1, n as int));
        i = i + 1;
    }
    i
}

/// Whether `p` starts with `q`.
fn starts_with_text(p: &str, q: &str) -> (r: bool)
    ensures
        r == q@.is_prefix_of(p@),
{
    let n = q.unicode_len();
    if n > p.unicode_len() {
        return false;
    }
    let mut i: usize = 0;
    while i < n
        invariant
            i <= n == q@.len() <= p@.len(),
            forall|j: int| 0 <= j < i ==> q@[j] == p@[j],
        decreases n - i,
    {
        if q.get_char(i) != p.get_char(i) {
            return false;
        }
        i = i + 1;
    }
    true
}

fn relative_to(p: &str, root: &str) -> (r: Option<String>)
    ensures
        match r {
            Some(s) => relative(p@, root@) == Some(s@),
            None => relative(p@, root@) is None,
        },
{
    let n = p.unicode_len();
    let m = root.unicode_len();
    if starts_with_text(p, root) && n == m {
        assert(p@ =~= root@);
        return Some(String::new());
    }
    if starts_with_text(p, root) && m > 0 && root.get_char(m - 1) == '/' {
        assert(p@ != root@);
        return Some(substring(p, m, n));
    }
    let mut with_slash = substring(root, 0, m);
    push_char(&mut with_slash, '/');
    assert(root@.subrange(0, m as int) =~= root@);
    if starts_with_text(p, with_slash.as_str()) {
        assert(p@ != root@);
        Some(substring(p, m + 1, n))
    } else {
        assert(p@ != root@ ==> !(root.len() > 0 && root@.last() == '/' && root@.is_prefix_of(p@)))
            by {
            if p@ == root@ {
            } else if root@.is_prefix_of(p@) && root@.len() > 0 {
                assert(n != m);
            }
        }
        None
    }
}

fn is_all_ascii_space(s: &str) -> (r: bool)
    ensures
        r == all_ascii_space(s@),
{
    let n = s.unicode_len();
    let mut i: usize = 0;
    while i < n
        invariant
            i <= n == s@.len(),
            forall|j: int| 0 <= j < i ==> is_ascii_space(s@[j]),
        decreases n - i,
    {
        let c = s.get_char(i);
        if !(c == ' ' || c == '\t' || c == '\n' || c == '\x0C' || c == '\r') {
            return false;
        }
        i = i + 1;
    }
    true
}

fn none_text() -> (r: String)
    ensures
        r@ == none_label(),
{
    let mut s = String::new();
    push_char(&mut s, 'N');
    push_char(&mut s, 'o');
    push_char(&mut s, 'n');
    push_char(&mut s, 'e');
    assert(s@ =~= none_label());
    s
}

/// The source label of the file at `track_file_path`, which arrived through
/// the inbox `relative_to_root`.
pub fn get_source(track_file_path: &str, relative_to_root: &str) -> (r: String)
    ensures
        r@ == source_of(track_file_path@, relative_to_root@),
{
    let parent_dir = get_parent(track_file_path);
    let root = trim_directory(relative_to_root);
    match relative_to(parent_dir.as_str(), root.as_str()) {
        None => none_text(),
        Some(rel) => {
            let first = before_first_of(rel.as_str(), '/');
            let seg = sanitize_file_name(first.as_str());
            if is_all_ascii_space(seg.as_str()) {
                none_text()
            } else {
                let i = find_first_invalid(first.as_str());
                substring(seg.as_str(), 0, i)
            }
        },
    }
}

/// Whether the source label of `file_path` under the inbox `relative_to_root`
/// starts with a dot, that is whether the file lies in a hidden drop folder.
pub fn is_in_hidden_path(file_path: &str, relative_to_root: &str) -> (r: bool)
    ensures
        r == (source_of(file_path@, relative_to_root@).len() > 0 && source_of(
            file_path@,
            relative_to_root@,
        )[0] == '.'),
{
    let source = get_source(file_path, relative_to_root);
    source.unicode_len() > 0 && source.get_char(0) == '.'
}

fn trim_dots(s: &str) -> (r: String)
    ensures
        r@ == trim_leading_dots(s@),
{
    let n = s.unicode_len();
    let mut i: usize = 0;
    assert(s@.subrange(0, n as int) =~= s@);
    while i < n && s.get_char(i) == '.'
        invariant
            i <= n == s@.len(),
            trim_leading_dots(s@) == trim_leading_dots(s@.subrange(i as int, n as int)),
        decreases n - i,
    {
        assert(s@.subrange(i as int, n as int).drop_first() =~= s@.subrange(i + 1, n as int));
        i = i + 1;
    }
    substring(s, i, n)
}

/// The stem of the file name `f`.
pub fn get_file_stem(f: &str) -> (r: String)
    ensures
        r@ == stem_of(f@),
{
    proof {
        lemma_last_index_bound(f@, '.');
    }
    let n = f.unicode_len();
    match find_last(f, '.') {
        Some(i) => {
            if i > 0 {
                substring(f, 0, i)
            } else {
                substring(f, 0, n)
            }
        },
        None => substring(f, 0, n),
    }
}

/// The extension of the file name `f`, empty when it has none.
pub fn get_extension(f: &str) -> (r: String)
    ensures
        r@ == extension_of(f@),
{
    proof {
        lemma_last_index_bound(f@, '.');
    }
    let n = f.unicode_len();
    match find_last(f, '.') {
        Some(i) => {
            if i > 0 {
                substring(f, i + 1, n)
            } else {
                String::new()
            }
        },
        None => String::new(),
    }
}

/// The extension that the file at `path` keeps when it is filed: its own
/// extension, or for a dot-file its stem without the leading dots.
pub fn get_track_extension(path: &str) -> (r: String)
    ensures
        r@ == kept_extension(path@),
{
    let f = get_file_name(path);
    let stem = get_file_stem(f.as_str());
    if stem.unicode_len() > 0 && stem.get_char(0) == '.' {
        trim_dots(stem.as_str())
    } else {
        get_extension(f.as_str())
    }
}

/// The inbox that belongs to the library folder `folder_path`: the sibling
/// folder named `Automatically Add to Library`.
pub fn get_auto_add_folder(folder_path: &str) -> (r: String)
    ensures
        r@ == auto_add_of(folder_path@),
{
    let p = get_parent(folder_path);
    let mut name = String::new();
    push_text(&mut name, "Automatically Add to Library");
    proof {
        reveal_strlit("Automatically Add to Library");
    }
    assert(name@ =~= auto_add_name());
    crate::naming::join_path(p.as_str(), name.as_str())
}

proof fn lemma_trim_dir_len(d: Seq<char>)
    ensures
        trim_dir(d).len() <= d.len(),
    decreases d.len(),
{
    if d.len() > 1 && d.last() == '/' {
        lemma_trim_dir_len(d.drop_last());
    }
}

proof fn lemma_last_index_append(p: Seq<char>, name: Seq<char>, c: char)
    requires
        !name.contains(c),
    ensures
        last_index(p + name, c) == last_index(p, c),
    decreases name.len(),
{
    if name.len() > 0 {
        assert((p + name).drop_last() =~= p + name.drop_last());
        assert((p + name).last() == name.last());
        assert(!name.drop_last().contains(c)) by {
            if name.drop_last().contains(c) {
                let i = choose|i: int| 0 <= i < name.drop_last().len() && name.drop_last()[i] == c;
                assert(name[i] == c);
            }
        }
        lemma_last_index_append(p, name.drop_last(), c);
    } else {
        assert(p + name =~= p);
    }
}

proof fn lemma_decimal_has_no_slash(n: nat)
    ensures
        !decimal(n).contains('/'),
    decreases n,
{
    if n >= 10 {
        lemma_decimal_has_no_slash(n / 10);
        assert forall|i: int| 0 <= i < decimal(n).len() implies decimal(n)[i] != '/' by {
            if i < decimal(n / 10).len() {
                assert(decimal(n)[i] == decimal(n / 10)[i]);
            }
        }
    } else {
        assert(decimal(n)[0] == digit(n));
    }
}

/// Every numbered name tried in a directory is a file of that directory: its
/// parent is the directory, when the directory has no trailing `/` and the
/// base name and extension hold no `/`.
pub proof fn lemma_candidate_in_directory(dir: Seq<char>, base: Seq<char>, ext: Seq<char>, k: nat)
    requires
        dir.len() > 0,
        trim_dir(dir) == dir,
        !base.contains('/'),
        !ext.contains('/'),
    ensures
        parent(candidate_path(dir, base, ext, k)) == dir,
{
    let name = numbered_name(base, ext, k);
    lemma_decimal_has_no_slash(k);
    assert(!name.contains('/')) by {
        if name.contains('/') {
            let i = choose|i: int| 0 <= i < name.len() && name[i] == '/';
            if k == 0 {
                if i < base.len() {
                    assert(base[i] == '/');
                } else if i > base.len() {
                    assert(ext[i - base.len() - 1] == '/');
                }
            } else {
                let d = decimal(k);
                if i < base.len() {
                    assert(base[i] == '/');
                } else if base.len() + 2 <= i < base.len() + 2 + d.len() {
                    assert(d[i - base.len() - 2] == '/');
                } else if i >= base.len() + 4 + d.len() {
                    assert(ext[i - base.len() - 4 - d.len()] == '/');
                }
            }
        }
    }
    assert(name.len() > 0 && name.last() != '/') by {
        if ext.len() > 0 {
            assert(name.last() == ext.last());
            assert(ext.contains(ext.last()));
        } else {
            assert(name.last() == '.');
        }
    }
    let prefix = if dir.last() == '/' {
        dir
    } else {
        dir.push('/')
    };
    let c = candidate_path(dir, base, ext, k);
    assert(c == prefix + name);
    lemma_last_index_append(prefix, name, '/');
    assert(c.last() == name.last());
    assert(trim_dir(c) == c);
    if dir.last() == '/' {
        if dir.len() > 1 {
            lemma_trim_dir_len(dir.drop_last());
        }
        assert(dir.len() == 1);
        assert(dir =~= seq!['/']);
        assert(last_index(dir, '/') == 0);
        assert(before_last_slash(c) =~= seq!['/']);
    } else {
        assert(last_index(prefix, '/') == dir.len());
        assert(before_last_slash(c) =~= dir);
    }
}

/// The path that `get_iterative_filename` chooses lies in the destination
/// directory, when that has no trailing `/` and the file name and extension
/// hold no `/`.
pub proof fn lemma_first_free_in_directory(
    r: Seq<char>,
    dir: Seq<char>,
    base: Seq<char>,
    ext: Seq<char>,
    taken: Seq<Seq<char>>,
)
    requires
        is_first_free(r, dir, base, ext, taken),
        dir.len() > 0,
        trim_dir(dir) == dir,
        !base.contains('/'),
        !ext.contains('/'),
    ensures
        parent(r) == dir,
        !taken.contains(r),
{
    let k = choose|k: nat|
        #![trigger candidate_path(dir, base, ext, k)]
        r == candidate_path(dir, base, ext, k) && !taken.contains(r) && forall|j: nat|
            j < k ==> taken.contains(#[trigger] candidate_path(dir, base, ext, j));
    lemma_candidate_in_directory(dir, base, ext, k);
}

} // verus!
