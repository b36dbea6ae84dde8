//! Paths and names: where the store lies, what a trashed entry is called,
//! and where a restored entry goes.
use vstd::prelude::*;
use crate::text::{chars_of, push_all, text_of};

verus! {

/// The characters of nanoid's URL-safe alphabet.
pub open spec fn id_char(c: char) -> bool {
    ('0' <= c && c <= '9') || ('a' <= c && c <= 'z') || ('A' <= c && c <= 'Z') || c == '_'
        || c == '-'
}

/// Length of the random identifier in a trashed name.
pub const ID_LEN: usize = 10;

/// Relies on `nanoid::format` with nanoid's default random source and its
/// `SAFE` alphabet: `size` characters drawn from that alphabet. With a size
/// of zero it would never return, hence the precondition. The random source
/// panics when the operating system supplies no entropy, which no input can
/// rule out.
#[verifier::external_body]
fn random_id(size: usize) -> (r: String)
    requires
        size > 0,
    ensures
        r@.len() == size,
        forall|i: int| 0 <= i < r@.len() ==> id_char(#[trigger] r@[i]),
{
    nanoid::format(nanoid::rngs::default, &nanoid::alphabet::SAFE, size)
}

/// Position of the last `c` in `s`, or -1.
pub open spec fn last_index(s: Seq<char>, c: char) -> int
    decreases s.len(),
{
    if s.len() == 0 {
        -1
    } else if s.last() == c {
        s.len() - 1
    } else {
        last_index(s.drop_last(), c)
    }
}

/// The path without trailing slashes and trailing `/.` components, which
/// `Path` does not count as components (a lone `/` stays).
pub open spec fn trim_slashes(s: Seq<char>) -> Seq<char>
    decreases s.len(),
{
    if s.len() > 1 && (s.last() == '/' || (s.last() == '.' && s[s.len() - 2] == '/')) {
        trim_slashes(s.drop_last())
    } else {
        s
    }
}

/// The directory part of a path, with its final slash; empty when the path
/// has no slash.
pub open spec fn dir_part(p: Seq<char>) -> Seq<char> {
    trim_slashes(p).take(last_index(trim_slashes(p), '/') + 1)
}

/// The last component of a path.
pub open spec fn name_part(p: Seq<char>) -> Seq<char> {
    trim_slashes(p).skip(last_index(trim_slashes(p), '/') + 1)
}

/// A name that has no stem: empty, `.` or `..`.
pub open spec fn no_stem(n: Seq<char>) -> bool {
    n.len() == 0 || n == seq!['.'] || n == seq!['.', '.']
}

/// The stem of a name: all before its last dot, unless that dot leads the name.
pub open spec fn stem_of(n: Seq<char>) -> Seq<char> {
    if last_index(n, '.') > 0 {
        n.take(last_index(n, '.'))
    } else {
        n
    }
}

/// The extension of a name: all after its last dot, or empty.
pub open spec fn ext_of(n: Seq<char>) -> Seq<char> {
    if last_index(n, '.') > 0 {
        n.skip(last_index(n, '.') + 1)
    } else {
        Seq::empty()
    }
}

/// `stem` + `middle`, then `.` and the extension when there is one.
pub open spec fn with_ext(stem: Seq<char>, middle: Seq<char>, ext: Seq<char>) -> Seq<char> {
    if ext.len() > 0 {
        stem + middle + seq!['.'] + ext
    } else {
        stem + middle
    }
}

/// The name under which the entry at `original` is stored, given the random
/// identifier `id`: `<stem>_<id>.<ext>` (`file` stands in for a missing stem).
pub open spec fn trashed_name_spec(original: Seq<char>, id: Seq<char>) -> Seq<char> {
    let n = name_part(original);
    if no_stem(n) {
        with_ext(seq!['f', 'i', 'l', 'e'], seq!['_'] + id, Seq::empty())
    } else {
        with_ext(stem_of(n), seq!['_'] + id, ext_of(n))
    }
}

/// Where an entry whose original path is taken goes back to:
/// `<dir>/<stem> (restored <date>).<ext>` (`restored` stands in for a
/// missing stem).
pub open spec fn restored_path_spec(original: Seq<char>, date: Seq<char>) -> Seq<char> {
    let n = name_part(original);
    let middle = seq![' ', '(', 'r', 'e', 's', 't', 'o', 'r', 'e', 'd', ' '] + date + seq![')'];
    if no_stem(n) {
        dir_part(original) + with_ext(
            seq!['r', 'e', 's', 't', 'o', 'r', 'e', 'd'],
            middle,
            Seq::empty(),
        )
    } else {
        dir_part(original) + with_ext(stem_of(n), middle, ext_of(n))
    }
}

/// `rel` under the directory `dir`, as `Path::join` writes it for a relative `rel`.
pub open spec fn joined(dir: Seq<char>, rel: Seq<char>) -> Seq<char> {
    if dir.len() == 0 || dir.last() == '/' {
        dir + rel
    } else {
        dir + seq!['/'] + rel
    }
}

/// A path made absolute against the working directory `cwd`.
pub open spec fn absolute_spec(path: Seq<char>, cwd: Seq<char>) -> Seq<char> {
    if path.len() > 0 && path[0] == '/' {
        path
    } else {
        joined(cwd, path)
    }
}

fn last_index_exec(s: &Vec<char>, c: char) -> (r: Option<usize>)
    ensures
        match r {
            Some(k) => k == last_index(s@, c) && k < s@.len(),
            None => last_index(s@, c) == -1,
        },
{
    let mut i: usize = s.len();
    assert(s@.take(i as int) =~= s@);
    while i > 0
        invariant
            i <= s@.len(),
            last_index(s@.take(i as int), c) == last_index(s@, c),
        decreases i,
    {
        assert(s@.take(i as int).drop_last() =~= s@.take(i - 1));
        if s[i - 1] == c {
            return Some(i - 1);
        }
        i = i - 1;
    }
    None
}

fn trim_slashes_exec(s: &Vec<char>) -> (r: Vec<char>)
    ensures
        r@ == trim_slashes(s@),
{
    let mut n: usize = s.len();
    assert(s@.take(n as int) =~= s@);
    while n > 1 && (s[n - 1] == '/' || (s[n - 1] == '.' && s[n - 2] == '/'))
        invariant
            n <= s@.len(),
            trim_slashes(s@.take(n as int)) == trim_slashes(s@),
        decreases n,
    {
        assert(s@.take(n as int).drop_last() =~= s@.take(n - 1));
        n = n - 1;
    }
    slice_of(s, 0, n)
}

fn slice_of(s: &Vec<char>, from: usize, to: usize) -> (r: Vec<char>)
    requires
        from <= to <= s@.len(),
    ensures
        r@ == s@.subrange(from as int, to as int),
{
    let mut out: Vec<char> = Vec::new();
    let mut i: usize = from;
    while i < to
        invariant
            from <= i <= to <= s@.len(),
            out@ =~= s@.subrange(from as int, i as int),
        decreases to - i,
    {
        out.push(s[i]);
        i = i + 1;
    }
    out
}

proof fn lemma_last_index_range(s: Seq<char>, c: char)
    ensures
        -1 <= last_index(s, c) < s.len(),
        last_index(s, c) >= 0 ==> s[last_index(s, c)] == c,
    decreases s.len(),
{
    if s.len() > 0 && s.last() != c {
        lemma_last_index_range(s.drop_last(), c);
    }
}

/// Splits a path into its directory part (with its final slash) and its
/// last component.
fn split_path(p: &Vec<char>) -> (r: (Vec<char>, Vec<char>))
    ensures
        r.0@ == dir_part(p@),
        r.1@ == name_part(p@),
{
    let t = trim_slashes_exec(p);
    proof {
        lemma_last_index_range(t@, '/');
    }
    let cut: usize = match last_index_exec(&t, '/') {
        Some(k) => k + 1,
        None => 0,
    };
    (slice_of(&t, 0, cut), slice_of(&t, cut, t.len()))
}

/// Splits a name into stem and extension.
fn split_name(n: &Vec<char>) -> (r: (Vec<char>, Vec<char>))
    ensures
        r.0@ == stem_of(n@),
        r.1@ == ext_of(n@),
{
    proof {
        lemma_last_index_range(n@, '.');
    }
    let len = n.len();
    let found = last_index_exec(n, '.');
    match found {
        Some(k) => if k > 0 {
            assert(k < len);
            (slice_of(n, 0, k), slice_of(n, k + 1, len))
        } else {
            (slice_of(n, 0, n.len()), Vec::new())
        },
        None => (slice_of(n, 0, n.len()), Vec::new()),
    }
}

fn has_no_stem(n: &Vec<char>) -> (r: bool)
    ensures
        r == no_stem(n@),
{
    if n.len() == 0 {
        true
    } else if n.len() == 1 {
        assert(n@ == seq!['.'] <==> n@[0] == '.') by {
            if n@[0] == '.' {
                assert(n@ =~= seq!['.']);
            }
        };
        n[0] == '.'
    } else if n.len() == 2 {
        assert(n@ == seq!['.', '.'] <==> (n@[0] == '.' && n@[1] == '.')) by {
            if n@[0] == '.' && n@[1] == '.' {
                assert(n@ =~= seq!['.', '.']);
            }
        };
        n[0] == '.' && n[1] == '.'
    } else {
        false
    }
}

fn build_with_ext(stem: &Vec<char>, middle: &Vec<char>, ext: &Vec<char>) -> (r: Vec<char>)
    ensures
        r@ == with_ext(stem@, middle@, ext@),
{
    let mut out: Vec<char> = Vec::new();
    push_all(&mut out, stem);
    push_all(&mut out, middle);
    if ext.len() > 0 {
        out.push('.');
        push_all(&mut out, ext);
    }
    assert(out@ =~= with_ext(stem@, middle@, ext@));
    out
}

/// The stored name of the entry at `original`, given the identifier `id`.
pub fn trashed_name(original: &str, id: &str) -> (r: String)
    ensures
        r@ == trashed_name_spec(original@, id@),
{
    let p = chars_of(original);
    let (_, n) = split_path(&p);
    let mut middle = vec!['_'];
    push_all(&mut middle, &chars_of(id));
    let out = if has_no_stem(&n) {
        let file = vec!['f', 'i', 'l', 'e'];
        assert(file@ =~= seq!['f', 'i', 'l', 'e']);
        build_with_ext(&file, &middle, &Vec::new())
    } else {
        let (stem, ext) = split_name(&n);
        build_with_ext(&stem, &middle, &ext)
    };
    assert(middle@ =~= seq!['_'] + id@);
    text_of(&out)
}

/// A fresh stored name for the entry at `original`, with a random identifier
/// of `ID_LEN` URL-safe characters.
pub fn new_trashed_name(original: &str) -> (r: String)
    ensures
        exists|id: Seq<char>| #![auto] id.len() == ID_LEN
            && (forall|i: int| 0 <= i < id.len() ==> id_char(id[i]))
            && r@ == trashed_name_spec(original@, id),
{
    let id = random_id(ID_LEN);
    let r = trashed_name(original, id.as_str());
    assert(id@.len() == ID_LEN && (forall|i: int| 0 <= i < id@.len() ==> id_char(id@[i]))
        && r@ == trashed_name_spec(original@, id@));
    r
}

/// Where the entry that had the path `original` is restored when that path
/// is taken, with `date` the day of the restore.
pub fn restored_path(original: &str, date: &str) -> (r: String)
    ensures
        r@ == restored_path_spec(original@, date@),
{
    let p = chars_of(original);
    let (dir, n) = split_path(&p);
    let mut middle = vec![' ', '(', 'r', 'e', 's', 't', 'o', 'r', 'e', 'd', ' '];
    push_all(&mut middle, &chars_of(date));
    middle.push(')');
    assert(middle@ =~= seq![' ', '(', 'r', 'e', 's', 't', 'o', 'r', 'e', 'd', ' '] + date@ + seq![')']);
    let name = if has_no_stem(&n) {
        let word = vec!['r', 'e', 's', 't', 'o', 'r', 'e', 'd'];
        assert(word@ =~= seq!['r', 'e', 's', 't', 'o', 'r', 'e', 'd']);
        build_with_ext(&word, &middle, &Vec::new())
    } else {
        let (stem, ext) = split_name(&n);
        build_with_ext(&stem, &middle, &ext)
    };
    let mut out = dir;
    push_all(&mut out, &name);
    text_of(&out)
}

fn join_chars(dir: &Vec<char>, rel: &Vec<char>) -> (r: Vec<char>)
    ensures
        r@ == joined(dir@, rel@),
{
    let mut out: Vec<char> = Vec::new();
    push_all(&mut out, dir);
    if dir.len() > 0 && dir[dir.len() - 1] != '/' {
        out.push('/');
    }
    push_all(&mut out, rel);
    out
}

/// `rel` under the directory `dir`.
pub fn join_path(dir: &str, rel: &str) -> (r: String)
    ensures
        r@ == joined(dir@, rel@),
{
    text_of(&join_chars(&chars_of(dir), &chars_of(rel)))
}

/// The path made absolute against the working directory `cwd`.
pub fn absolute_path(path: &str, cwd: &str) -> (r: String)
    ensures
        r@ == absolute_spec(path@, cwd@),
{
    let p = chars_of(path);
    if p.len() > 0 && p[0] == '/' {
        text_of(&p)
    } else {
        text_of(&join_chars(&chars_of(cwd), &p))
    }
}

/// Two entries with the same file name that are given different identifiers
/// of one length are stored under different names.
pub proof fn lemma_distinct_ids_give_distinct_names(
    first: Seq<char>,
    second: Seq<char>,
    id1: Seq<char>,
    id2: Seq<char>,
)
    requires
        name_part(first) == name_part(second),
        id1.len() == id2.len(),
        id1 != id2,
    ensures
        trashed_name_spec(first, id1) != trashed_name_spec(second, id2),
{
    let n = name_part(first);
    let stem = if no_stem(n) { seq!['f', 'i', 'l', 'e'] } else { stem_of(n) };
    let ext = if no_stem(n) { Seq::<char>::empty() } else { ext_of(n) };
    let a = trashed_name_spec(first, id1);
    let b = trashed_name_spec(second, id2);
    let lo = stem.len() + 1;
    let hi = lo + id1.len();
    assert(a.subrange(lo as int, hi as int) =~= id1);
    assert(b.subrange(lo as int, hi as int) =~= id2);
}

} // verus!
