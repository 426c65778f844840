//! Paths as text: joining, extensions and the questions only the file
//! system can answer.
use crate::text::{eq_ignore_ascii_case, str_eq_ignore_ascii_case};
use vstd::prelude::*;
use vstd::string::*;

verus! {

/// `Path::join` on Unix: an absolute part replaces the base; otherwise a
/// separator is inserted unless the base is empty or already ends in one.
pub open spec fn join_path(base: Seq<char>, part: Seq<char>) -> Seq<char> {
    if part.len() > 0 && part[0] == '/' {
        part
    } else if base.len() > 0 && base.last() != '/' {
        base + seq!['/'] + part
    } else {
        base + part
    }
}

/// Joins a path component onto a base path.
pub fn path_join(base: &String, part: &str) -> (joined: String)
    ensures
        joined@ == join_path(base@, part@),
{
    let part_len = part.unicode_len();
    if part_len > 0 && part.get_char(0) == '/' {
        return String::from_str(part);
    }
    let base_str = base.as_str();
    let base_len = base_str.unicode_len();
    let mut joined = base.clone();
    if base_len > 0 && base_str.get_char(base_len - 1) != '/' {
        joined.append("/");
        proof {
            reveal_strlit("/");
        }
    }
    joined.append(part);
    proof {
        if base@.len() > 0 && base@.last() != '/' {
            assert(base@ + "/"@ + part@ =~= base@ + seq!['/'] + part@);
        }
    }
    joined
}

// ---------------------------------------------------------------------
// Path equality by components
// ---------------------------------------------------------------------

/// Adds a finished piece of a path to the names seen so far: empty pieces
/// (repeated or trailing separators) and `.` pieces are normalised away.
pub open spec fn flush_piece(names: Seq<Seq<char>>, piece: Seq<char>) -> Seq<Seq<char>> {
    if piece.len() == 0 || piece == seq!['.'] {
        names
    } else {
        names.push(piece)
    }
}

/// Splits the rest `p` of a path at `/`, continuing a current piece and the
/// names found before it.
pub open spec fn scan_names(p: Seq<char>, piece: Seq<char>, names: Seq<Seq<char>>) -> Seq<
    Seq<char>,
>
    decreases p.len(),
{
    if p.len() == 0 {
        flush_piece(names, piece)
    } else if p[0] == '/' {
        scan_names(p.drop_first(), seq![], flush_piece(names, piece))
    } else {
        scan_names(p.drop_first(), piece.push(p[0]), names)
    }
}

/// The components of a Unix path, as `Path::components` yields them, each
/// written as text: a leading `/` for the root; a leading `.` when the path
/// is `.` or starts with `./`; then every name between separators, with
/// empty names and `.` left out (`..` stays).  No name contains `/` or is
/// `.`, so the texts tell the components apart.
pub open spec fn path_components(p: Seq<char>) -> Seq<Seq<char>> {
    let head = if p.len() > 0 && p[0] == '/' {
        seq![seq!['/']]
    } else if p.len() > 0 && p[0] == '.' && (p.len() == 1 || p[1] == '/') {
        seq![seq!['.']]
    } else {
        seq![]
    };
    head + scan_names(p, seq![], seq![])
}

/// Path equality as `Path`'s `==` decides it: by components, so `/a/`,
/// `/a` and `/a//.` are one folder.
pub open spec fn same_path(a: Seq<char>, b: Seq<char>) -> bool {
    path_components(a) == path_components(b)
}

/// Law: two paths are the same folder exactly when their component texts
/// are equal, character for character (no case folding).
pub proof fn lemma_same_path_is_component_equality(a: Seq<char>, b: Seq<char>)
    ensures
        same_path(a, b) == (path_components(a) == path_components(b)),
{
}

/// `lemma_same_path_is_component_equality` for every pair of paths.
pub proof fn lemma_same_path_is_component_equality_all()
    ensures
        forall|a: Seq<char>, b: Seq<char>|
            #[trigger] same_path(a, b) == (path_components(a) == path_components(b)),
{
}

/// A name a path can hold between separators: not empty, no `/`, not `.`.
pub open spec fn plain_name(n: Seq<char>) -> bool {
    n.len() > 0 && !n.contains('/') && n != seq!['.']
}

/// The absolute path `/n0/n1/...` made of the given names.
pub open spec fn slash_joined(names: Seq<Seq<char>>) -> Seq<char>
    decreases names.len(),
{
    if names.len() == 0 {
        seq![]
    } else {
        seq!['/'] + names[0] + slash_joined(names.drop_first())
    }
}

proof fn lemma_scan_through_name(name: Seq<char>, rest: Seq<char>, piece: Seq<char>, acc: Seq<Seq<char>>)
    requires
        !name.contains('/'),
    ensures
        scan_names(name + rest, piece, acc) == scan_names(rest, piece + name, acc),
    decreases name.len(),
{
    if name.len() == 0 {
        assert(name + rest =~= rest);
        assert(piece + name =~= piece);
    } else {
        let q = name + rest;
        assert(q[0] == name[0]);
        assert(name[0] != '/') by {
            if name[0] == '/' {
                assert(name.contains('/'));
            }
        }
        assert(q.drop_first() =~= name.drop_first() + rest);
        assert(!name.drop_first().contains('/')) by {
            if name.drop_first().contains('/') {
                let k = choose|k: int| 0 <= k < name.drop_first().len() && name.drop_first()[k] == '/';
                assert(name[k + 1] == '/');
            }
        }
        lemma_scan_through_name(name.drop_first(), rest, piece.push(name[0]), acc);
        assert(piece.push(name[0]) + name.drop_first() =~= piece + name);
    }
}

proof fn lemma_scan_slash_joined(names: Seq<Seq<char>>, piece: Seq<char>, acc: Seq<Seq<char>>)
    requires
        forall|i: int| 0 <= i < names.len() ==> plain_name(#[trigger] names[i]),
    ensures
        scan_names(slash_joined(names), piece, acc) == flush_piece(acc, piece) + names,
    decreases names.len(),
{
    if names.len() == 0 {
        assert(flush_piece(acc, piece) + names =~= flush_piece(acc, piece));
    } else {
        let n0 = names[0];
        let tail = names.drop_first();
        let rest = slash_joined(tail);
        let q = slash_joined(names);
        assert(q == seq!['/'] + n0 + rest);
        assert(q[0] == '/');
        assert(q.drop_first() =~= n0 + rest);
        assert(plain_name(n0));
        lemma_scan_through_name(n0, rest, seq![], flush_piece(acc, piece));
        assert(Seq::<char>::empty() + n0 =~= n0);
        assert forall|i: int| 0 <= i < tail.len() implies plain_name(#[trigger] tail[i]) by {
            assert(tail[i] == names[i + 1]);
        }
        lemma_scan_slash_joined(tail, n0, flush_piece(acc, piece));
        assert(n0 != seq!['.']);
        assert(flush_piece(flush_piece(acc, piece), n0) == flush_piece(acc, piece).push(n0));
        assert(flush_piece(acc, piece).push(n0) + tail =~= flush_piece(acc, piece) + names);
    }
}

/// Law: the components of `/n0/n1/...`, for plain names, are the root and
/// then exactly those names, character for character.
pub proof fn lemma_plain_path_components(names: Seq<Seq<char>>)
    requires
        names.len() > 0,
        forall|i: int| 0 <= i < names.len() ==> plain_name(#[trigger] names[i]),
    ensures
        path_components(slash_joined(names)) == seq![seq!['/']] + names,
{
    let p = slash_joined(names);
    assert(p == seq!['/'] + names[0] + slash_joined(names.drop_first()));
    assert(p[0] == '/');
    lemma_scan_slash_joined(names, seq![], seq![]);
    assert(flush_piece(Seq::<Seq<char>>::empty(), Seq::<char>::empty()) + names =~= names);
}

/// Law: two absolute paths made of plain names are the same folder exactly
/// when they have the same names, each spelled alike character for
/// character: `/a/B` and `/a/b` are different folders.
pub proof fn lemma_plain_paths_same_iff_same_names(n1: Seq<Seq<char>>, n2: Seq<Seq<char>>)
    requires
        n1.len() > 0,
        n2.len() > 0,
        forall|i: int| 0 <= i < n1.len() ==> plain_name(#[trigger] n1[i]),
        forall|i: int| 0 <= i < n2.len() ==> plain_name(#[trigger] n2[i]),
    ensures
        same_path(slash_joined(n1), slash_joined(n2)) <==> n1 == n2,
{
    lemma_plain_path_components(n1);
    lemma_plain_path_components(n2);
    let c1 = seq![seq!['/']] + n1;
    let c2 = seq![seq!['/']] + n2;
    if c1 == c2 {
        assert(c1.skip(1) =~= n1);
        assert(c2.skip(1) =~= n2);
    }
}

fn push_piece(names: &mut Vec<String>, piece: String)
    ensures
        final(names).deep_view() == flush_piece(old(names).deep_view(), piece@),
{
    let n = piece.as_str().unicode_len();
    if n == 0 {
        return;
    }
    if n == 1 && piece.as_str().get_char(0) == '.' {
        assert(piece@ =~= seq!['.']);
        return;
    }
    assert(piece@ != seq!['.']) by {
        if piece@ == seq!['.'] {
            assert(piece@[0] == '.');
        }
    }
    let ghost before = names.deep_view();
    names.push(piece);
    assert(names.deep_view() =~= before.push(piece@));
}

/// The components of a path, each as text (see `path_components`).
pub fn components_of(p: &str) -> (parts: Vec<String>)
    ensures
        parts.deep_view() == path_components(p@),
{
    let n = p.unicode_len();
    let mut parts: Vec<String> = Vec::new();
    if n > 0 && p.get_char(0) == '/' {
        let head_text = String::from_str("/");
        proof {
            reveal_strlit("/");
            assert(head_text@ =~= seq!['/']);
        }
        parts.push(head_text);
        assert(parts.deep_view() =~= seq![seq!['/']]);
    } else if n > 0 && p.get_char(0) == '.' && (n == 1 || p.get_char(1) == '/') {
        let head_text = String::from_str(".");
        proof {
            reveal_strlit(".");
            assert(head_text@ =~= seq!['.']);
        }
        parts.push(head_text);
        assert(parts.deep_view() =~= seq![seq!['.']]);
    }
    let ghost head = parts.deep_view();
    assert(head == path_components(p@).subrange(0, head.len() as int)) by {
        if !(n > 0 && p@[0] == '/') && !(n > 0 && p@[0] == '.' && (n == 1 || p@[1] == '/')) {
            assert(head =~= Seq::<Seq<char>>::empty());
        }
    }
    let mut piece = String::new();
    let mut names: Vec<String> = Vec::new();
    let mut i: usize = 0;
    assert(p@.skip(0) =~= p@);
    assert(names.deep_view() =~= Seq::<Seq<char>>::empty());
    while i < n
        invariant
            n == p@.len(),
            i <= n,
            scan_names(p@, seq![], seq![]) == scan_names(p@.skip(i as int), piece@, names.deep_view()),
        decreases n - i,
    {
        let c = p.get_char(i);
        assert(p@.skip(i as int)[0] == c);
        assert(p@.skip(i as int).drop_first() =~= p@.skip(i + 1));
        if c == '/' {
            let done = piece;
            piece = String::new();
            push_piece(&mut names, done);
        } else {
            crate::text::push_char(&mut piece, c);
        }
        i = i + 1;
    }
    assert(p@.skip(n as int).len() == 0);
    push_piece(&mut names, piece);
    assert(names.deep_view() == scan_names(p@, seq![], seq![]));
    let ghost before = parts.deep_view();
    let mut k: usize = 0;
    while k < names.len()
        invariant
            k <= names@.len(),
            parts.deep_view() == before + names.deep_view().take(k as int),
        decreases names@.len() - k,
    {
        let name = names[k].clone();
        let ghost prev = parts.deep_view();
        parts.push(name);
        assert(parts.deep_view() =~= prev.push(names.deep_view()[k as int]));
        assert(names.deep_view().take(k + 1) =~= names.deep_view().take(k as int).push(
            names.deep_view()[k as int],
        ));
        k = k + 1;
    }
    assert(names.deep_view().take(names@.len() as int) =~= names.deep_view());
    proof {
        reveal_strlit("/");
        reveal_strlit(".");
        if n > 0 && p@[0] == '/' {
            assert(before =~= seq![seq!['/']]);
        } else if n > 0 && p@[0] == '.' && (n == 1 || p@[1] == '/') {
            assert(before =~= seq![seq!['.']]);
        } else {
            assert(before =~= Seq::<Seq<char>>::empty());
        }
        assert(before + names.deep_view() =~= path_components(p@));
    }
    parts
}

/// Compares two folders as `Path` does: by components.
pub fn paths_equal(a: &str, b: &str) -> (r: bool)
    ensures
        r == same_path(a@, b@),
        r == (path_components(a@) == path_components(b@)),
{
    let ca = components_of(a);
    let cb = components_of(b);
    if ca.len() != cb.len() {
        assert(ca.deep_view().len() != cb.deep_view().len());
        return false;
    }
    let mut i: usize = 0;
    while i < ca.len()
        invariant
            ca.deep_view() == path_components(a@),
            cb.deep_view() == path_components(b@),
            ca@.len() == cb@.len(),
            i <= ca@.len(),
            forall|j: int| 0 <= j < i ==> ca.deep_view()[j] == cb.deep_view()[j],
        decreases ca@.len() - i,
    {
        let same = ca[i].eq(&cb[i]);
        if !same {
            assert(ca.deep_view()[i as int] != cb.deep_view()[i as int]);
            assert(ca.deep_view() != cb.deep_view());
            return false;
        }
        i = i + 1;
    }
    assert(ca.deep_view() =~= cb.deep_view());
    true
}

/// Whether a path's extension equals `want`, ignoring ASCII case.
pub open spec fn has_extension(path: Seq<char>, want: Seq<char>) -> bool {
    match path_extension_of(path) {
        Some(e) => eq_ignore_ascii_case(e, want),
        None => false,
    }
}

/// Tests a path's extension against `want`, ignoring ASCII case.
pub fn path_has_extension(path: &String, want: &str) -> (r: bool)
    ensures
        r == has_extension(path@, want@),
{
    match path_extension(path) {
        Some(e) => str_eq_ignore_ascii_case(e.as_str(), want),
        None => false,
    }
}

/// Which answers `Path::is_dir` may give for a path.  This is a relation,
/// not a function: what is on disk decides the answer, and nothing is said
/// of which answer comes; it only lets a caller say that the answer it acted
/// on is the one the call gave.
pub uninterp spec fn is_dir_outcome(path: Seq<char>, answer: bool) -> bool;

/// `Path::is_dir`: whether the path names a directory right now.  What is on
/// disk decides; stated is only that the answer is one the call gave.
#[verifier::external_body]
pub(crate) fn path_is_dir(path: &String) -> (r: bool)
    ensures
        is_dir_outcome(path@, r),
{
    std::path::Path::new(path.as_str()).is_dir()
}

/// What `Path::file_name` gives for a path given as text: its last
/// component when that is a name (not the root, `.` or `..`).  Trailing
/// separators and `.` components are normalised away first, so
/// `foo.txt/./` has the file name `foo.txt`.
pub open spec fn path_file_name_of(path: Seq<char>) -> Option<Seq<char>> {
    let c = path_components(path);
    if c.len() == 0 {
        None
    } else if c.last() == seq!['/'] || c.last() == seq!['.'] || c.last() == seq!['.', '.'] {
        None
    } else {
        Some(c.last())
    }
}

/// The index of the last `.` in a text, or -1 when there is none.
pub open spec fn last_dot(f: Seq<char>) -> int
    decreases f.len(),
{
    if f.len() == 0 {
        -1
    } else if f.last() == '.' {
        f.len() - 1
    } else {
        last_dot(f.drop_last())
    }
}

/// What `Path::extension` gives for a path given as text: the part of the
/// file name after its last `.`; none when the file name has no `.`, or only
/// a leading one (`.bashrc`), or there is no file name.
pub open spec fn path_extension_of(path: Seq<char>) -> Option<Seq<char>> {
    match path_file_name_of(path) {
        None => None,
        Some(f) => if last_dot(f) <= 0 {
            None
        } else {
            Some(f.subrange(last_dot(f) + 1, f.len() as int))
        },
    }
}

/// The file name of a path (see `path_file_name_of`).
pub fn path_file_name(path: &String) -> (name: Option<String>)
    ensures
        match name {
            Some(n) => path_file_name_of(path@) == Some(n@),
            None => path_file_name_of(path@) is None,
        },
{
    let comps = components_of(path.as_str());
    let n = comps.len();
    if n == 0 {
        return None;
    }
    let last = comps[n - 1].clone();
    assert(last@ == comps.deep_view().last());
    let len = last.as_str().unicode_len();
    if len == 1 && (last.as_str().get_char(0) == '/' || last.as_str().get_char(0) == '.') {
        assert(last@ =~= seq![last@[0]]);
        return None;
    }
    if len == 2 && last.as_str().get_char(0) == '.' && last.as_str().get_char(1) == '.' {
        assert(last@ =~= seq!['.', '.']);
        return None;
    }
    assert(last@ != seq!['/'] && last@ != seq!['.'] && last@ != seq!['.', '.']) by {
        if last@ == seq!['/'] || last@ == seq!['.'] {
            assert(last@.len() == 1);
        }
        if last@ == seq!['.', '.'] {
            assert(last@.len() == 2);
        }
    }
    Some(last)
}

/// The extension of a path (see `path_extension_of`).
pub fn path_extension(path: &String) -> (ext: Option<String>)
    ensures
        match ext {
            Some(e) => path_extension_of(path@) == Some(e@),
            None => path_extension_of(path@) is None,
        },
{
    match path_file_name(path) {
        None => None,
        Some(f) => {
            let fs = f.as_str();
            let n = fs.unicode_len();
            let mut dot: usize = 0;
            let mut found = false;
            let mut i: usize = 0;
            while i < n
                invariant
                    fs@ == f@,
                    n == f@.len(),
                    i <= n,
                    found ==> dot < i && last_dot(f@.take(i as int)) == dot,
                    !found ==> last_dot(f@.take(i as int)) == -1,
                decreases n - i,
            {
                assert(f@.take(i + 1).drop_last() =~= f@.take(i as int));
                assert(f@.take(i + 1).last() == f@[i as int]);
                if fs.get_char(i) == '.' {
                    dot = i;
                    found = true;
                }
                i = i + 1;
            }
            assert(f@.take(n as int) =~= f@);
            if !found || dot == 0 {
                None
            } else {
                let start = dot + 1;
                Some(String::from_str(fs.substring_char(start, n)))
            }
        },
    }
}

} // verus!
