use vstd::prelude::*;
use vstd::string::*;
use crate::item::{Item, texts};
use crate::text::{sanitize, push_char, push_text, sanitize_file_name};

verus! {

/// The decimal digit of `d`, for `d < 10`.
pub open spec fn digit(d: nat) -> char {
    if d == 0 {
        '0'
    } else if d == 1 {
        '1'
    } else if d == 2 {
        '2'
    } else if d == 3 {
        '3'
    } else if d == 4 {
        '4'
    } else if d == 5 {
        '5'
    } else if d == 6 {
        '6'
    } else if d == 7 {
        '7'
    } else if d == 8 {
        '8'
    } else {
        '9'
    }
}

/// The decimal notation of `n`, without leading zeros.
pub open spec fn decimal(n: nat) -> Seq<char>
    decreases n,
{
    if n < 10 {
        seq![digit(n)]
    } else {
        decimal(n / 10).push(digit(n % 10))
    }
}

/// The decimal notation of a signed number, with a leading `-` when negative.
pub open spec fn signed_decimal(n: int) -> Seq<char> {
    if n < 0 {
        seq!['-'] + decimal((-n) as nat)
    } else {
        decimal(n as nat)
    }
}

/// A signed number written at least two characters wide, padded with zeros.
pub open spec fn padded2(n: int) -> Seq<char> {
    if 0 <= n < 10 {
        seq!['0', digit(n as nat)]
    } else {
        signed_decimal(n)
    }
}

/// `name` placed inside directory `dir`, with one `/` between them.
pub open spec fn join(dir: Seq<char>, name: Seq<char>) -> Seq<char> {
    if dir.len() == 0 || dir.last() == '/' {
        dir + name
    } else {
        dir.push('/') + name
    }
}

/// Names joined with `", "` between consecutive ones.
pub open spec fn joined(names: Seq<Seq<char>>) -> Seq<char>
    decreases names.len(),
{
    if names.len() == 0 {
        Seq::empty()
    } else if names.len() == 1 {
        names[0]
    } else {
        joined(names.drop_last()) + seq![',', ' '] + names.last()
    }
}

/// `"{disc}-{track:02} {title}"` before sanitizing.
pub open spec fn track_label(disc: int, track: int, title: Seq<char>) -> Seq<char> {
    signed_decimal(disc) + seq!['-'] + padded2(track) + seq![' '] + title
}

/// The file name (without extension) under which an item is filed.
pub open spec fn track_file_name(item: Item) -> Seq<char> {
    sanitize(track_label(item.disc_number as int, item.track_number as int, item.title@))
}

/// The directory `library/artists/album` under which an item is filed.
pub open spec fn track_directory(item: Item, library: Seq<char>) -> Seq<char> {
    join(join(library, sanitize(joined(item.album_artists_view()))), sanitize(item.album@))
}

/// The `k`-th name tried for `base` with extension `ext`: `base.ext`, then
/// `base (1).ext`, `base (2).ext`, ...
pub open spec fn numbered_name(base: Seq<char>, ext: Seq<char>, k: nat) -> Seq<char> {
    if k == 0 {
        base + seq!['.'] + ext
    } else {
        base + seq![' ', '('] + decimal(k) + seq![')', '.'] + ext
    }
}

/// The `k`-th path tried in `dir`.
pub open spec fn candidate_path(dir: Seq<char>, base: Seq<char>, ext: Seq<char>, k: nat) -> Seq<
    char,
> {
    join(dir, numbered_name(base, ext, k))
}

/// `r` is the first candidate path that is not among `taken`.
pub open spec fn is_first_free(
    r: Seq<char>,
    dir: Seq<char>,
    base: Seq<char>,
    ext: Seq<char>,
    taken: Seq<Seq<char>>,
) -> bool {
    exists|k: nat|
        #![trigger candidate_path(dir, base, ext, k)]
        r == candidate_path(dir, base, ext, k) && !taken.contains(r) && forall|j: nat|
            j < k ==> taken.contains(#[trigger] candidate_path(dir, base, ext, j))
}

proof fn lemma_decimal_len(n: nat)
    ensures
        decimal(n).len() >= 1,
        n >= 10 ==> decimal(n).len() >= 2,
    decreases n,
{
    if n >= 10 {
        lemma_decimal_len(n / 10);
    }
}

/// Distinct numbers have distinct decimal notations.
proof fn lemma_decimal_injective(a: nat, b: nat)
    requires
        decimal(a) == decimal(b),
    ensures
        a == b,
    decreases a,
{
    lemma_decimal_len(a);
    lemma_decimal_len(b);
    if a >= 10 && b >= 10 {
        let da = decimal(a);
        assert(da.drop_last() == decimal(a / 10));
        assert(decimal(b).drop_last() == decimal(b / 10));
        lemma_decimal_injective(a / 10, b / 10);
        assert(da.last() == digit(a % 10));
        assert(decimal(b).last() == digit(b % 10));
    } else if a < 10 && b < 10 {
        assert(decimal(a)[0] == digit(a));
        assert(decimal(b)[0] == digit(b));
    }
}

proof fn lemma_join_injective(dir: Seq<char>, n1: Seq<char>, n2: Seq<char>)
    requires
        join(dir, n1) == join(dir, n2),
    ensures
        n1 == n2,
{
    let p = if dir.len() == 0 || dir.last() == '/' {
        dir
    } else {
        dir.push('/')
    };
    assert(join(dir, n1) == p + n1);
    assert(join(dir, n2) == p + n2);
    assert(n1 =~= (p + n1).subrange(p.len() as int, (p + n1).len() as int));
    assert(n2 =~= (p + n2).subrange(p.len() as int, (p + n2).len() as int));
}

/// Distinct counters give distinct candidate paths.
pub proof fn lemma_candidates_distinct(
    dir: Seq<char>,
    base: Seq<char>,
    ext: Seq<char>,
    i: nat,
    j: nat,
)
    requires
        i != j,
    ensures
        candidate_path(dir, base, ext, i) != candidate_path(dir, base, ext, j),
{
    if candidate_path(dir, base, ext, i) == candidate_path(dir, base, ext, j) {
        lemma_join_injective(dir, numbered_name(base, ext, i), numbered_name(base, ext, j));
        let ni = numbered_name(base, ext, i);
        let nj = numbered_name(base, ext, j);
        lemma_decimal_len(i);
        lemma_decimal_len(j);
        if i > 0 && j > 0 {
            let di = decimal(i);
            let dj = decimal(j);
            let s: int = base.len() + 2int;
            assert(di.len() == dj.len());
            assert(di =~= ni.subrange(s, s + di.len() as int));
            assert(dj =~= nj.subrange(s, s + dj.len() as int));
            lemma_decimal_injective(i, j);
        } else {
            assert(ni.len() != nj.len());
        }
    }
}

/// Of `n` distinct candidates all among `taken`, `taken` holds at least `n` entries.
proof fn lemma_taken_bound(
    dir: Seq<char>,
    base: Seq<char>,
    ext: Seq<char>,
    n: nat,
    taken: Seq<Seq<char>>,
)
    requires
        forall|j: nat| j < n ==> taken.contains(#[trigger] candidate_path(dir, base, ext, j)),
    ensures
        n <= taken.len(),
{
    let cs = Seq::new(n, |j: int| candidate_path(dir, base, ext, j as nat));
    assert forall|a: int, b: int| 0 <= a < cs.len() && 0 <= b < cs.len() && a != b implies cs[a]
        != cs[b] by {
        lemma_candidates_distinct(dir, base, ext, a as nat, b as nat);
    }
    assert(cs.no_duplicates());
    cs.unique_seq_to_set();
    taken.lemma_cardinality_of_set();
    assert forall|x: Seq<char>| cs.to_set().contains(x) implies taken.to_set().contains(x) by {
        let a = choose|a: int| 0 <= a < cs.len() && cs[a] == x;
        assert(taken.contains(candidate_path(dir, base, ext, a as nat)));
    }
    vstd::set_lib::lemma_len_subset(cs.to_set(), taken.to_set());
}

fn digit_char(d: u64) -> (r: char)
    requires
        d < 10,
    ensures
        r == digit(d as nat),
{
    if d == 0 {
        '0'
    } else if d == 1 {
        '1'
    } else if d == 2 {
        '2'
    } else if d == 3 {
        '3'
    } else if d == 4 {
        '4'
    } else if d == 5 {
        '5'
    } else if d == 6 {
        '6'
    } else if d == 7 {
        '7'
    } else if d == 8 {
        '8'
    } else {
        '9'
    }
}

/// Appends the decimal notation of `n`.
pub(crate) fn push_decimal(s: &mut String, n: u64)
    ensures
        final(s)@ == old(s)@ + decimal(n as nat),
    decreases n,
{
    if n >= 10 {
        push_decimal(s, n / 10);
    }
    push_char(s, digit_char(n % 10));
    assert(decimal(n as nat) =~= if n < 10 {
        seq![digit(n as nat)]
    } else {
        decimal((n / 10) as nat).push(digit((n % 10) as nat))
    });
}

fn push_signed_decimal(s: &mut String, n: i32)
    ensures
        final(s)@ == old(s)@ + signed_decimal(n as int),
{
    if n < 0 {
        push_char(s, '-');
        let m: i64 = -(n as i64);
        push_decimal(s, m as u64);
    } else {
        push_decimal(s, n as u64);
    }
}

/// `name` placed inside directory `dir`.
pub fn join_path(dir: &str, name: &str) -> (r: String)
    ensures
        r@ == join(dir@, name@),
{
    let mut s = String::new();
    push_text(&mut s, dir);
    let n = dir.unicode_len();
    if n > 0 && dir.get_char(n - 1) != '/' {
        push_char(&mut s, '/');
    }
    push_text(&mut s, name);
    s
}

/// The album-artist names joined with `", "`.
pub fn join_album_artists(names: &Vec<String>) -> (r: String)
    ensures
        r@ == joined(texts(names@)),
{
    let mut s = String::new();
    let mut i: usize = 0;
    while i < names.len()
        invariant
            i <= names.len(),
            s@ == joined(texts(names@.subrange(0, i as int))),
        decreases names.len() - i,
    {
        let ghost before = texts(names@.subrange(0, i as int));
        if i > 0 {
            push_char(&mut s, ',');
            push_char(&mut s, ' ');
        }
        push_text(&mut s, names[i].as_str());
        i = i + 1;
        let ghost after = texts(names@.subrange(0, i as int));
        assert(after.drop_last() =~= before);
        assert(s@ =~= joined(after));
    }
    assert(names@.subrange(0, names.len() as int) =~= names@);
    s
}

/// The directory `library_path/artists/album` in which `track` belongs; none
/// for a track without album artists, which has no place in the library.
pub fn get_track_directory(track: &Item, library_path: &str) -> (r: Option<String>)
    ensures
        match r {
            Some(d) => track.album_artists@.len() > 0 && d@ == track_directory(*track, library_path@),
            None => track.album_artists@.len() == 0,
        },
{
    if track.album_artists.len() == 0 {
        return None;
    }
    let artists = join_album_artists(&track.album_artists);
    let artist_folder = join_path(library_path, sanitize_file_name(artists.as_str()).as_str());
    Some(join_path(artist_folder.as_str(), sanitize_file_name(track.album.as_str()).as_str()))
}

/// The file name, without extension, under which `track` is filed:
/// `"{disc}-{track:02} {title}"`, sanitized.
pub fn get_track_filename(track: &Item) -> (r: String)
    ensures
        r@ == track_file_name(*track),
{
    let mut s = String::new();
    push_signed_decimal(&mut s, track.disc_number);
    push_char(&mut s, '-');
    let t = track.track_number;
    if 0 <= t && t < 10 {
        push_char(&mut s, '0');
        push_char(&mut s, digit_char(t as u64));
    } else {
        push_signed_decimal(&mut s, t);
    }
    push_char(&mut s, ' ');
    push_text(&mut s, track.title.as_str());
    assert(s@ =~= track_label(track.disc_number as int, track.track_number as int, track.title@));
    sanitize_file_name(s.as_str())
}

fn numbered_file_name(base: &str, ext: &str, k: u64) -> (r: String)
    ensures
        r@ == numbered_name(base@, ext@, k as nat),
{
    let mut s = String::new();
    push_text(&mut s, base);
    if k > 0 {
        push_char(&mut s, ' ');
        push_char(&mut s, '(');
        push_decimal(&mut s, k);
        push_char(&mut s, ')');
    }
    push_char(&mut s, '.');
    push_text(&mut s, ext);
    assert(s@ =~= numbered_name(base@, ext@, k as nat));
    s
}

/// Whether `path` is one of `taken`.
fn is_taken(path: &String, taken: &Vec<String>) -> (r: bool)
    ensures
        r == texts(taken@).contains(path@),
{
    let mut i: usize = 0;
    while i < taken.len()
        invariant
            i <= taken.len(),
            forall|j: int| 0 <= j < i ==> taken@[j]@ != path@,
        decreases taken.len() - i,
    {
        if taken[i] == *path {
            assert(texts(taken@)[i as int] == path@);
            return true;
        }
        i = i + 1;
    }
    assert forall|j: int| 0 <= j < texts(taken@).len() implies texts(taken@)[j] != path@ by {}
    false
}

/// The first of `destination/filename.extension`, `destination/filename (1).extension`,
/// `destination/filename (2).extension`, ... that is not among `existing`, the
/// paths that already exist.
pub fn get_iterative_filename(
    filename: &str,
    extension: &str,
    destination: &str,
    existing: &Vec<String>,
) -> (r: String)
    ensures
        is_first_free(r@, destination@, filename@, extension@, texts(existing@)),
        !texts(existing@).contains(r@),
{
    let ghost taken = texts(existing@);
    let mut counter: u64 = 0;
    let mut path = join_path(destination, numbered_file_name(filename, extension, 0).as_str());
    while is_taken(&path, existing)
        invariant
            taken == texts(existing@),
            counter <= existing.len(),
            path@ == candidate_path(destination@, filename@, extension@, counter as nat),
            forall|j: nat|
                j < counter ==> taken.contains(
                    #[trigger] candidate_path(destination@, filename@, extension@, j),
                ),
        decreases existing.len() - counter,
    {
        proof {
            assert forall|j: nat| j < counter + 1 implies taken.contains(
                #[trigger] candidate_path(destination@, filename@, extension@, j),
            ) by {}
            lemma_taken_bound(destination@, filename@, extension@, (counter + 1) as nat, taken);
        }
        counter = counter + 1;
        path = join_path(destination, numbered_file_name(filename, extension, counter).as_str());
    }
    assert(is_first_free(path@, destination@, filename@, extension@, taken)) by {
        assert(path@ == candidate_path(destination@, filename@, extension@, counter as nat));
    }
    path
}

} // verus!
