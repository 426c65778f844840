//! Finding installed VST3 plugins: `.vst3` bundle folders under the
//! configured roots, the Linux binary inside each bundle, and the classes
//! each binary exports.  A plugin that cannot be loaded is skipped, so one
//! broken bundle never stops the scan of the others.
use crate::paths::{
    flush_piece, has_extension, is_dir_outcome, join_path, last_dot, path_components,
    path_has_extension, path_is_dir, path_join, scan_names,
};
use crate::plugin_descriptor::PluginDescriptor;
use vstd::prelude::*;
use vstd::string::*;

verus! {

/// One entry met while walking a directory tree.
pub struct WalkEntry {
    pub path: String,
    pub is_dir: bool,
    pub is_file: bool,
}

/// Whether a walked entry, if any, lies under `root`: its path starts with
/// the root's text.
pub open spec fn walked_under(e: Option<WalkEntry>, root: Seq<char>) -> bool {
    match e {
        Some(w) => root.is_prefix_of(w.path@),
        None => true,
    }
}

/// Whether `p` names an entry directly inside the folder `dir`: the folder
/// joined with one non-empty name that holds no `/`.
pub open spec fn is_child_path(dir: Seq<char>, p: Seq<char>) -> bool {
    exists|name: Seq<char>|
        name.len() > 0 && !name.contains('/') && p == #[trigger] join_path(dir, name)
}

/// Whether a walked entry, if any, is the root itself or directly inside it.
pub open spec fn walked_shallow(e: Option<WalkEntry>, root: Seq<char>) -> bool {
    match e {
        Some(w) => w.path@ == root || is_child_path(root, w.path@),
        None => true,
    }
}

/// An entry as plain values: its path, whether it is a folder, whether it
/// is a file.
pub open spec fn entry_view(e: Option<WalkEntry>) -> Option<(Seq<char>, bool, bool)> {
    match e {
        Some(w) => Some((w.path@, w.is_dir, w.is_file)),
        None => None,
    }
}

/// A walk's entries as plain values.
pub open spec fn entries_view(es: Seq<Option<WalkEntry>>) -> Seq<Option<(Seq<char>, bool, bool)>> {
    es.map_values(|e: Option<WalkEntry>| entry_view(e))
}

/// Which entry lists a walk of `root`, at most `max_depth` levels deep, may
/// give.  This is a relation, not a function: what is on disk decides the
/// entries, and nothing is said of which list comes; it only lets a caller
/// say that the list it worked on is the one a walk of that root, to that
/// depth, gave.
pub uninterp spec fn walk_outcome(
    root: Seq<char>,
    max_depth: usize,
    entries: Seq<Option<(Seq<char>, bool, bool)>>,
) -> bool;

/// Walks the tree under `root` with `walkdir`, at most `max_depth` levels
/// deep (`usize::MAX` is walkdir's own default), root included.  An entry
/// walkdir reports as an error, or whose path is not valid UTF-8, comes back
/// as `None`.  What is on disk decides which entries come back, which is
/// left unsaid.  Stated is what walkdir's source shows of the paths: each
/// starts with the root's text (walkdir yields the root path itself, at
/// depth 0, and `read_dir` paths, each the path of the folder read joined
/// with a file name, one level deeper), and with a depth of at most 1 each
/// path is the root or the root joined with one file name.  The list is
/// one a walk of this root to this depth gave (`walk_outcome`).
#[verifier::external_body]
fn walk_dir(root: &String, max_depth: usize) -> (entries: Vec<Option<WalkEntry>>)
    ensures
        walk_outcome(root@, max_depth, entries_view(entries@)),
        forall|i: int| 0 <= i < entries@.len() ==> walked_under(#[trigger] entries@[i], root@),
        max_depth <= 1 ==> forall|i: int|
            0 <= i < entries@.len() ==> walked_shallow(#[trigger] entries@[i], root@),
{
    walkdir::WalkDir::new(root.as_str())
        .max_depth(max_depth)
        .into_iter()
        .map(|r| r.ok().and_then(|e| e.path().to_str().map(|p| WalkEntry {
            path: p.to_string(),
            is_dir: e.file_type().is_dir(),
            is_file: e.file_type().is_file(),
        })))
        .collect()
}

/// An entry that is a folder named `*.vst3` (any ASCII case).
pub open spec fn is_bundle_entry(e: Option<WalkEntry>) -> bool {
    match e {
        Some(w) => w.is_dir && has_extension(w.path@, "vst3"@),
        None => false,
    }
}

/// An entry that is a file named `*.so` (any ASCII case).
pub open spec fn is_binary_entry(e: Option<WalkEntry>) -> bool {
    match e {
        Some(w) => w.is_file && has_extension(w.path@, "so"@),
        None => false,
    }
}

/// The paths of the bundle entries, in walk order.
pub open spec fn bundle_paths(es: Seq<Option<WalkEntry>>) -> Seq<Seq<char>>
    decreases es.len(),
{
    if es.len() == 0 {
        seq![]
    } else {
        let rest = bundle_paths(es.drop_last());
        match es.last() {
            Some(w) => if is_bundle_entry(es.last()) {
                rest.push(w.path@)
            } else {
                rest
            },
            None => rest,
        }
    }
}

/// The path of the first binary entry, in walk order.
pub open spec fn first_binary(es: Seq<Option<WalkEntry>>) -> Option<Seq<char>>
    decreases es.len(),
{
    if es.len() == 0 {
        None
    } else {
        match es[0] {
            Some(w) => if is_binary_entry(es[0]) {
                Some(w.path@)
            } else {
                first_binary(es.drop_first())
            },
            None => first_binary(es.drop_first()),
        }
    }
}

/// Every path `bundle_paths` keeps is named `*.vst3`.
pub proof fn lemma_bundle_paths_named(es: Seq<Option<WalkEntry>>)
    ensures
        forall|i: int|
            0 <= i < bundle_paths(es).len() ==> has_extension(
                #[trigger] bundle_paths(es)[i],
                "vst3"@,
            ),
    decreases es.len(),
{
    if es.len() > 0 {
        let rest = es.drop_last();
        lemma_bundle_paths_named(rest);
        assert forall|i: int|
            0 <= i < bundle_paths(es).len() implies has_extension(
                #[trigger] bundle_paths(es)[i],
                "vst3"@,
            ) by {
            if i < bundle_paths(rest).len() {
                assert(bundle_paths(es)[i] == bundle_paths(rest)[i]);
            }
        }
    }
}

/// The binary `first_binary` picks is named `*.so`.
pub proof fn lemma_first_binary_named(es: Seq<Option<WalkEntry>>)
    ensures
        first_binary(es) matches Some(p) ==> has_extension(p, "so"@),
    decreases es.len(),
{
    if es.len() > 0 {
        lemma_first_binary_named(es.drop_first());
    }
}

/// Every path `bundle_paths` keeps is one of the walked paths, so it lies
/// wherever they all lie.
pub proof fn lemma_bundle_paths_under(es: Seq<Option<WalkEntry>>, root: Seq<char>)
    requires
        forall|i: int| 0 <= i < es.len() ==> walked_under(#[trigger] es[i], root),
    ensures
        forall|i: int|
            0 <= i < bundle_paths(es).len() ==> root.is_prefix_of(#[trigger] bundle_paths(es)[i]),
    decreases es.len(),
{
    if es.len() > 0 {
        let rest = es.drop_last();
        assert forall|i: int| 0 <= i < rest.len() implies walked_under(#[trigger] rest[i], root) by {
            assert(rest[i] == es[i]);
        }
        lemma_bundle_paths_under(rest, root);
        assert(walked_under(es[es.len() - 1], root));
        assert forall|i: int|
            0 <= i < bundle_paths(es).len() implies root.is_prefix_of(
                #[trigger] bundle_paths(es)[i],
            ) by {
            if i < bundle_paths(rest).len() {
                assert(bundle_paths(es)[i] == bundle_paths(rest)[i]);
            }
        }
    }
}

/// The binary `first_binary` picks is one of the walked paths.
pub proof fn lemma_first_binary_under(es: Seq<Option<WalkEntry>>, root: Seq<char>)
    requires
        forall|i: int| 0 <= i < es.len() ==> walked_under(#[trigger] es[i], root),
    ensures
        first_binary(es) matches Some(p) ==> root.is_prefix_of(p),
    decreases es.len(),
{
    if es.len() > 0 {
        let rest = es.drop_first();
        assert forall|i: int| 0 <= i < rest.len() implies walked_under(#[trigger] rest[i], root) by {
            assert(rest[i] == es[i + 1]);
        }
        assert(walked_under(es[0], root));
        lemma_first_binary_under(rest, root);
    }
}

/// The binary `first_binary` picks is one of the walked paths.
pub proof fn lemma_first_binary_shallow(es: Seq<Option<WalkEntry>>, root: Seq<char>)
    requires
        forall|i: int| 0 <= i < es.len() ==> walked_shallow(#[trigger] es[i], root),
    ensures
        first_binary(es) matches Some(p) ==> (p == root || is_child_path(root, p)),
    decreases es.len(),
{
    if es.len() > 0 {
        let rest = es.drop_first();
        assert forall|i: int| 0 <= i < rest.len() implies walked_shallow(#[trigger] rest[i], root) by {
            assert(rest[i] == es[i + 1]);
        }
        assert(walked_shallow(es[0], root));
        lemma_first_binary_shallow(rest, root);
    }
}

/// Keeps, in order, the paths of the entries that are `*.vst3` folders.
pub fn select_bundles(entries: &Vec<Option<WalkEntry>>) -> (bundles: Vec<String>)
    ensures
        bundles.deep_view() == bundle_paths(entries@),
{
    let mut bundles: Vec<String> = Vec::new();
    let mut i: usize = 0;
    while i < entries.len()
        invariant
            i <= entries@.len(),
            bundles.deep_view() == bundle_paths(entries@.take(i as int)),
        decreases entries@.len() - i,
    {
        let ghost before = bundles.deep_view();
        assert(entries@.take(i + 1).drop_last() =~= entries@.take(i as int));
        assert(entries@.take(i + 1).last() == entries@[i as int]);
        match &entries[i] {
            Some(w) => {
                if w.is_dir && path_has_extension(&w.path, "vst3") {
                    proof {
                        reveal_strlit("vst3");
                    }
                    bundles.push(w.path.clone());
                    assert(bundles.deep_view() =~= before.push(w.path@));
                } else {
                    proof {
                        reveal_strlit("vst3");
                    }
                }
            },
            None => {},
        }
        i = i + 1;
    }
    assert(entries@.take(entries@.len() as int) =~= entries@);
    bundles
}

/// The path of the first entry, in walk order, that is a `*.so` file.
pub fn select_binary(entries: &Vec<Option<WalkEntry>>) -> (binary: Option<String>)
    ensures
        match binary {
            Some(p) => first_binary(entries@) == Some(p@),
            None => first_binary(entries@) is None,
        },
{
    let mut i: usize = 0;
    assert(entries@.skip(0) =~= entries@);
    while i < entries.len()
        invariant
            i <= entries@.len(),
            first_binary(entries@) == first_binary(entries@.skip(i as int)),
        decreases entries@.len() - i,
    {
        let ghost rest = entries@.skip(i as int);
        assert(rest[0] == entries@[i as int]);
        assert(rest.drop_first() =~= entries@.skip(i + 1));
        match &entries[i] {
            Some(w) => {
                let found = w.is_file && path_has_extension(&w.path, "so");
                proof {
                    reveal_strlit("so");
                }
                if found {
                    return Some(w.path.clone());
                }
            },
            None => {},
        }
        i = i + 1;
    }
    assert(entries@.skip(entries@.len() as int).len() == 0);
    None
}

/// What finding the bundles of `root` may give: none when the root is not a
/// folder; otherwise exactly the `*.vst3` folders, in walk order, of a walk
/// of the root with no depth limit.
pub open spec fn bundles_walked(root: Seq<char>, bundles: Seq<Seq<char>>) -> bool {
    ||| is_dir_outcome(root, false) && bundles.len() == 0
    ||| is_dir_outcome(root, true) && exists|e: Seq<Option<WalkEntry>>|
        #![trigger walk_outcome(root, usize::MAX, entries_view(e))]
        walk_outcome(root, usize::MAX, entries_view(e)) && bundles == bundle_paths(e)
}

/// Finds `*.vst3` bundle folders under `root`, at any depth (a bundle may sit
/// in folders the user made to organise them).  A root that is not a
/// directory yields none.  Every bundle found is named `*.vst3` and lies
/// under `root`; which ones exist is the disk's to say.
pub fn find_vst3_bundles(root: &String) -> (bundles: Vec<String>)
    ensures
        bundles_walked(root@, bundles.deep_view()),
        forall|i: int|
            0 <= i < bundles.deep_view().len() ==> has_extension(
                #[trigger] bundles.deep_view()[i],
                "vst3"@,
            ),
        forall|i: int|
            0 <= i < bundles.deep_view().len() ==> root@.is_prefix_of(
                #[trigger] bundles.deep_view()[i],
            ),
{
    if !path_is_dir(root) {
        let empty: Vec<String> = Vec::new();
        assert(empty.deep_view().len() == 0);
        return empty;
    }
    let entries = walk_dir(root, usize::MAX);
    assert(walk_outcome(root@, usize::MAX, entries_view(entries@)));
    let bundles = select_bundles(&entries);
    proof {
        lemma_bundle_paths_named(entries@);
        lemma_bundle_paths_under(entries@, root@);
    }
    bundles
}

/// The folder inside a bundle that holds its Linux x86-64 binaries.
pub open spec fn linux_binary_dir(bundle: Seq<char>) -> Seq<char> {
    join_path(join_path(bundle, "Contents"@), "x86_64-linux"@)
}

/// Whether `b` is a binary of the bundle: a `*.so` entry directly inside
/// its `Contents/x86_64-linux` folder.
pub open spec fn binary_in_bundle(bundle: Seq<char>, b: Seq<char>) -> bool {
    &&& has_extension(b, "so"@)
    &&& is_child_path(linux_binary_dir(bundle), b)
}

/// Splitting a text without `/` only grows the current piece.
proof fn lemma_scan_no_slash(s: Seq<char>, piece: Seq<char>, names: Seq<Seq<char>>)
    requires
        !s.contains('/'),
    ensures
        scan_names(s, piece, names) == flush_piece(names, piece + s),
    decreases s.len(),
{
    if s.len() == 0 {
        assert(piece + s =~= piece);
    } else {
        assert(s[0] != '/') by {
            if s[0] == '/' {
                assert(s.contains('/'));
            }
        }
        let t = s.drop_first();
        assert(!t.contains('/')) by {
            if t.contains('/') {
                let k = choose|k: int| 0 <= k < t.len() && t[k] == '/';
                assert(s[k + 1] == '/');
            }
        }
        lemma_scan_no_slash(t, piece.push(s[0]), names);
        assert(piece.push(s[0]) + t =~= piece + s);
    }
}

/// The last name of a path is the text after its last `/`, when that text
/// is a name.
proof fn lemma_scan_last_name(p: Seq<char>, piece: Seq<char>, names: Seq<Seq<char>>, j: int)
    requires
        0 <= j < p.len(),
        p[j] == '/',
        !p.skip(j + 1).contains('/'),
        p.skip(j + 1).len() > 0,
        p.skip(j + 1) != seq!['.'],
    ensures
        scan_names(p, piece, names).len() > 0,
        scan_names(p, piece, names).last() == p.skip(j + 1),
    decreases j,
{
    let t = p.drop_first();
    if j == 0 {
        assert(t =~= p.skip(1));
        lemma_scan_no_slash(t, seq![], flush_piece(names, piece));
        assert(Seq::<char>::empty() + t =~= t);
    } else {
        assert(t[j - 1] == p[j]);
        assert(t.skip(j) =~= p.skip(j + 1));
        if p[0] == '/' {
            lemma_scan_last_name(t, seq![], flush_piece(names, piece), j - 1);
        } else {
            lemma_scan_last_name(t, piece.push(p[0]), names, j - 1);
        }
    }
}

/// A text without `.` has no last dot.
proof fn lemma_last_dot_none(f: Seq<char>)
    requires
        !f.contains('.'),
    ensures
        last_dot(f) == -1,
    decreases f.len(),
{
    if f.len() > 0 {
        assert(f.last() != '.') by {
            assert(f[f.len() - 1] == f.last());
        }
        assert(!f.drop_last().contains('.')) by {
            if f.drop_last().contains('.') {
                let k = choose|k: int| 0 <= k < f.drop_last().len() && f.drop_last()[k] == '.';
                assert(f[k] == '.');
            }
        }
        lemma_last_dot_none(f.drop_last());
    }
}

/// The binary folder of a bundle has no extension, so it is never taken for
/// a `*.so` file.
proof fn lemma_binary_dir_not_so(bundle: Seq<char>)
    ensures
        !has_extension(linux_binary_dir(bundle), "so"@),
{
    reveal_strlit("Contents");
    reveal_strlit("x86_64-linux");
    let c = join_path(bundle, "Contents"@);
    let name = "x86_64-linux"@;
    assert(c.len() > 0 && c.last() == 's');
    let d = linux_binary_dir(bundle);
    assert(d == c + seq!['/'] + name);
    let j = c.len() as int;
    assert(d[j] == '/');
    assert(d.skip(j + 1) =~= name);
    assert(!name.contains('/')) by {
        assert forall|k: int| 0 <= k < name.len() implies name[k] != '/' by {}
    }
    assert(!name.contains('.')) by {
        assert forall|k: int| 0 <= k < name.len() implies name[k] != '.' by {}
    }
    assert(name != seq!['.']) by {
        assert(name.len() != 1);
    }
    lemma_scan_last_name(d, seq![], seq![], j);
    let comps = path_components(d);
    let tail = scan_names(d, seq![], seq![]);
    assert(comps.last() == tail.last());
    assert(name != seq!['/'] && name != seq!['.', '.']) by {
        assert(name.len() == 12);
    }
    lemma_last_dot_none(name);
}

/// The binary `first_binary` picks, when it is a `*.so`, is directly inside
/// the bundle's binary folder.
proof fn lemma_binary_direct_child(bundle: Seq<char>, es: Seq<Option<WalkEntry>>)
    requires
        forall|i: int| 0 <= i < es.len() ==> walked_shallow(#[trigger] es[i], linux_binary_dir(bundle)),
    ensures
        first_binary(es) matches Some(p) ==> binary_in_bundle(bundle, p),
{
    lemma_first_binary_named(es);
    lemma_first_binary_shallow(es, linux_binary_dir(bundle));
    lemma_binary_dir_not_so(bundle);
}

/// An optional text as plain values.
pub open spec fn text_view(o: Option<String>) -> Option<Seq<char>> {
    match o {
        Some(s) => Some(s@),
        None => None,
    }
}

/// What looking for a bundle's binary may give: none when its
/// `Contents/x86_64-linux` is not a folder; otherwise the first `*.so` file,
/// in walk order, of a one-level walk of that folder.
pub open spec fn binary_looked_up(bundle: Seq<char>, binary: Option<Seq<char>>) -> bool {
    let dir = linux_binary_dir(bundle);
    ||| is_dir_outcome(dir, false) && binary is None
    ||| is_dir_outcome(dir, true) && exists|e: Seq<Option<WalkEntry>>|
        #![trigger walk_outcome(dir, 1, entries_view(e))]
        walk_outcome(dir, 1, entries_view(e)) && binary == first_binary(e)
}

/// Locates the real binary of a bundle: the first `*.so` file directly in
/// `Contents/x86_64-linux/`.  Its name need not match the bundle's.  A
/// binary found is named `*.so` and lies directly in that folder; whether
/// there is one is the disk's to say.
pub fn find_linux_binary(bundle: &String) -> (binary: Option<String>)
    ensures
        binary_looked_up(bundle@, text_view(binary)),
        binary matches Some(p) ==> has_extension(p@, "so"@),
        binary matches Some(p) ==> linux_binary_dir(bundle@).is_prefix_of(p@),
        binary matches Some(p) ==> binary_in_bundle(bundle@, p@),
{
    let contents = path_join(bundle, "Contents");
    let linux_dir = path_join(&contents, "x86_64-linux");
    if !path_is_dir(&linux_dir) {
        return None;
    }
    let entries = walk_dir(&linux_dir, 1);
    assert(walk_outcome(linux_dir@, 1, entries_view(entries@)));
    let binary = select_binary(&entries);
    proof {
        lemma_first_binary_named(entries@);
        lemma_first_binary_under(entries@, linux_dir@);
        lemma_binary_direct_child(bundle@, entries@);
    }
    binary
}

/// The descriptors the successful loads produced, in load order; failed
/// loads contribute nothing.
pub open spec fn loaded_descriptors(
    outcomes: Seq<Result<Vec<PluginDescriptor>, String>>,
) -> Seq<PluginDescriptor>
    decreases outcomes.len(),
{
    if outcomes.len() == 0 {
        seq![]
    } else {
        loaded_descriptors(outcomes.drop_last()) + match outcomes.last() {
            Ok(v) => v@,
            Err(_) => seq![],
        }
    }
}

/// The binaries found for a root's bundles, in bundle order.
pub open spec fn binaries_of(found: Seq<Option<Seq<char>>>) -> Seq<Seq<char>>
    decreases found.len(),
{
    if found.len() == 0 {
        seq![]
    } else {
        binaries_of(found.drop_last()) + match found.last() {
            Some(b) => seq![b],
            None => seq![],
        }
    }
}

/// The bundles of a root for which no binary was found, in bundle order.
pub open spec fn bundles_missing(bundles: Seq<Seq<char>>, found: Seq<Option<Seq<char>>>) -> Seq<
    Seq<char>,
>
    decreases found.len(),
{
    if found.len() == 0 || bundles.len() == 0 {
        seq![]
    } else {
        bundles_missing(bundles.drop_last(), found.drop_last()) + match found.last() {
            Some(_) => seq![],
            None => seq![bundles.last()],
        }
    }
}

/// The binaries found under all roots: root by root, bundle by bundle.
pub open spec fn all_binaries(found: Seq<Seq<Option<Seq<char>>>>) -> Seq<Seq<char>>
    decreases found.len(),
{
    if found.len() == 0 {
        seq![]
    } else {
        all_binaries(found.drop_last()) + binaries_of(found.last())
    }
}

/// The bundles without a binary under all roots: root by root, bundle by
/// bundle.
pub open spec fn all_missing(
    bundles: Seq<Seq<Seq<char>>>,
    found: Seq<Seq<Option<Seq<char>>>>,
) -> Seq<Seq<char>>
    decreases found.len(),
{
    if found.len() == 0 || bundles.len() == 0 {
        seq![]
    } else {
        all_missing(bundles.drop_last(), found.drop_last()) + bundles_missing(
            bundles.last(),
            found.last(),
        )
    }
}

/// What the scan met under one root: its bundles, each a `*.vst3` folder
/// under the root, and for each bundle the binary found in it, if any.
pub open spec fn root_scan(
    root: Seq<char>,
    bundles: Seq<Seq<char>>,
    found: Seq<Option<Seq<char>>>,
) -> bool {
    &&& bundles.len() == found.len()
    &&& bundles_walked(root, bundles)
    &&& forall|k: int|
        0 <= k < bundles.len() ==> has_extension(#[trigger] bundles[k], "vst3"@) && root.is_prefix_of(
            bundles[k],
        )
    &&& forall|k: int| 0 <= k < found.len() ==> #[trigger] binary_looked_up(bundles[k], found[k])
    &&& forall|k: int|
        0 <= k < found.len() ==> (#[trigger] found[k] matches Some(b) ==> binary_in_bundle(
            bundles[k],
            b,
        ))
}

/// One load of the scan: a binary and what `load` answered for it.
pub open spec fn load_step<F: Fn(&String) -> Result<Vec<PluginDescriptor>, String>>(
    load: F,
    binary: String,
    outcome: Result<Vec<PluginDescriptor>, String>,
) -> bool {
    call_ensures(load, (&binary,), outcome)
}

/// The binaries handed to `load` are exactly `targets`, in order, and each
/// got the matching answer.
pub open spec fn loads_match<F: Fn(&String) -> Result<Vec<PluginDescriptor>, String>>(
    load: F,
    loaded: Seq<String>,
    outcomes: Seq<Result<Vec<PluginDescriptor>, String>>,
    targets: Seq<Seq<char>>,
) -> bool {
    &&& loaded.len() == outcomes.len()
    &&& loaded.len() == targets.len()
    &&& forall|i: int| 0 <= i < loaded.len() ==> (#[trigger] loaded[i])@ == targets[i]
    &&& forall|i: int| 0 <= i < loaded.len() ==> #[trigger] load_step(load, loaded[i], outcomes[i])
}

/// One more load keeps the binaries and answers matched.
pub proof fn lemma_loads_push<F: Fn(&String) -> Result<Vec<PluginDescriptor>, String>>(
    load: F,
    loaded: Seq<String>,
    outcomes: Seq<Result<Vec<PluginDescriptor>, String>>,
    targets: Seq<Seq<char>>,
    binary: String,
    outcome: Result<Vec<PluginDescriptor>, String>,
)
    requires
        loads_match(load, loaded, outcomes, targets),
        load_step(load, binary, outcome),
    ensures
        loads_match(load, loaded.push(binary), outcomes.push(outcome), targets.push(binary@)),
{
    let l2 = loaded.push(binary);
    let o2 = outcomes.push(outcome);
    let t2 = targets.push(binary@);
    assert forall|i: int| 0 <= i < l2.len() implies (#[trigger] l2[i])@ == t2[i] by {
        if i < loaded.len() {
            assert(l2[i] == loaded[i]);
            assert(loaded[i]@ == targets[i]);
        }
    }
    assert forall|i: int| 0 <= i < l2.len() implies #[trigger] load_step(load, l2[i], o2[i]) by {
        if i < loaded.len() {
            assert(l2[i] == loaded[i]);
            assert(o2[i] == outcomes[i]);
            assert(load_step(load, loaded[i], outcomes[i]));
        }
    }
}

/// A record of a scan over `roots`: the bundles met under each root and the
/// binary found in each; the binaries handed to `load`, which are exactly
/// the binaries found, root by root and bundle by bundle; what `load`
/// answered for each; the descriptors gathered from those answers; and the
/// bundles in which no binary was found.
pub open spec fn scan_record<F: Fn(&String) -> Result<Vec<PluginDescriptor>, String>>(
    roots: Seq<Seq<char>>,
    load: F,
    bundles: Seq<Seq<Seq<char>>>,
    found_binaries: Seq<Seq<Option<Seq<char>>>>,
    loaded: Seq<String>,
    outcomes: Seq<Result<Vec<PluginDescriptor>, String>>,
    found: Seq<PluginDescriptor>,
    missing: Seq<Seq<char>>,
) -> bool {
    &&& roots.len() == bundles.len()
    &&& roots.len() == found_binaries.len()
    &&& forall|r: int|
        0 <= r < roots.len() ==> #[trigger] root_scan(roots[r], bundles[r], found_binaries[r])
    &&& loads_match(load, loaded, outcomes, all_binaries(found_binaries))
    &&& found == loaded_descriptors(outcomes)
    &&& missing == all_missing(bundles, found_binaries)
}

/// What a scan gives back: the descriptors of the plugins it loaded, and
/// the bundles it skipped for want of a binary (for the caller to report).
pub struct ScanReport {
    pub found: Vec<PluginDescriptor>,
    pub bundles_without_binary: Vec<String>,
}

/// Law: a scan of no roots loads nothing and finds nothing.
pub proof fn lemma_scan_without_roots<F: Fn(&String) -> Result<Vec<PluginDescriptor>, String>>(
    load: F,
    bundles: Seq<Seq<Seq<char>>>,
    found_binaries: Seq<Seq<Option<Seq<char>>>>,
    loaded: Seq<String>,
    outcomes: Seq<Result<Vec<PluginDescriptor>, String>>,
    found: Seq<PluginDescriptor>,
    missing: Seq<Seq<char>>,
)
    requires
        scan_record(seq![], load, bundles, found_binaries, loaded, outcomes, found, missing),
    ensures
        loaded.len() == 0,
        found.len() == 0,
        missing.len() == 0,
{
}

/// The binaries found, as plain values, row by row.
pub open spec fn binaries_view(rows: Seq<Vec<Option<String>>>) -> Seq<Seq<Option<Seq<char>>>> {
    rows.map_values(|row: Vec<Option<String>>| row@.map_values(|o: Option<String>| text_view(o)))
}

/// What gathering gives: the binaries handed to `load` are exactly the
/// binaries found, in order, and got the answers `outcomes`; the descriptors
/// are those of the successful answers, in order; the skipped bundles are
/// exactly those without a binary, in order.
pub open spec fn gathered_record<F: Fn(&String) -> Result<Vec<PluginDescriptor>, String>>(
    load: F,
    bundles: Seq<Seq<Seq<char>>>,
    found_binaries: Seq<Seq<Option<Seq<char>>>>,
    loaded: Seq<String>,
    outcomes: Seq<Result<Vec<PluginDescriptor>, String>>,
    found: Seq<PluginDescriptor>,
    missing: Seq<Seq<char>>,
) -> bool {
    &&& loads_match(load, loaded, outcomes, all_binaries(found_binaries))
    &&& found == loaded_descriptors(outcomes)
    &&& missing == all_missing(bundles, found_binaries)
}

/// Loads every binary found, root by root and bundle by bundle, and gathers
/// the descriptors of the successful loads; a bundle without a binary is
/// reported, a binary `load` rejects contributes nothing.
pub fn gather_scan<F>(
    bundles: &Vec<Vec<String>>,
    binaries: &Vec<Vec<Option<String>>>,
    load: F,
) -> (report: ScanReport) where F: Fn(&String) -> Result<Vec<PluginDescriptor>, String>
    requires
        bundles@.len() == binaries@.len(),
        forall|r: int| 0 <= r < bundles@.len() ==> (#[trigger] bundles@[r])@.len() == binaries@[r]@.len(),
        forall|p: &String| call_requires(load, (p,)),
    ensures
        exists|loaded: Seq<String>, outcomes: Seq<Result<Vec<PluginDescriptor>, String>>|
            gathered_record(
                load,
                bundles.deep_view(),
                binaries_view(binaries@),
                loaded,
                outcomes,
                report.found@,
                report.bundles_without_binary.deep_view(),
            ),
{
    let ghost bss = bundles.deep_view();
    let ghost fss = binaries_view(binaries@);
    let mut found: Vec<PluginDescriptor> = Vec::new();
    let mut missing: Vec<String> = Vec::new();
    let ghost mut loaded: Seq<String> = seq![];
    let ghost mut outcomes: Seq<Result<Vec<PluginDescriptor>, String>> = seq![];
    assert(missing.deep_view() =~= Seq::<Seq<char>>::empty());
    assert(all_binaries(fss.take(0)) =~= Seq::<Seq<char>>::empty());
    assert(all_missing(bss.take(0), fss.take(0)) =~= Seq::<Seq<char>>::empty());
    let mut r: usize = 0;
    while r < bundles.len()
        invariant
            bss == bundles.deep_view(),
            fss == binaries_view(binaries@),
            bundles@.len() == binaries@.len(),
            forall|q: int| 0 <= q < bundles@.len() ==> (#[trigger] bundles@[q])@.len() == binaries@[q]@.len(),
            r <= bundles@.len(),
            forall|q: &String| call_requires(load, (q,)),
            loads_match(load, loaded, outcomes, all_binaries(fss.take(r as int))),
            found@ == loaded_descriptors(outcomes),
            missing.deep_view() == all_missing(bss.take(r as int), fss.take(r as int)),
        decreases bundles@.len() - r,
    {
        let row_bundles = &bundles[r];
        let row = &binaries[r];
        let ghost bs = bss[r as int];
        let ghost fs = fss[r as int];
        assert(bs == row_bundles.deep_view());
        assert(fs == row@.map_values(|o: Option<String>| text_view(o)));
        assert(row_bundles@.len() == row@.len());
        let ghost base_targets = all_binaries(fss.take(r as int));
        let ghost base_missing = all_missing(bss.take(r as int), fss.take(r as int));
        assert(binaries_of(fs.take(0)) =~= Seq::<Seq<char>>::empty());
        assert(bundles_missing(bs.take(0), fs.take(0)) =~= Seq::<Seq<char>>::empty());
        assert(base_targets + binaries_of(fs.take(0)) =~= base_targets);
        assert(missing.deep_view() =~= base_missing + bundles_missing(bs.take(0), fs.take(0)));
        let mut k: usize = 0;
        while k < row.len()
            invariant
                bs == row_bundles.deep_view(),
                fs == row@.map_values(|o: Option<String>| text_view(o)),
                row_bundles@.len() == row@.len(),
                k <= row@.len(),
                forall|q: &String| call_requires(load, (q,)),
                loads_match(load, loaded, outcomes, base_targets + binaries_of(fs.take(k as int))),
                found@ == loaded_descriptors(outcomes),
                missing.deep_view() == base_missing + bundles_missing(bs.take(k as int), fs.take(k as int)),
            decreases row@.len() - k,
        {
            assert(fs.take(k + 1).drop_last() =~= fs.take(k as int));
            assert(fs.take(k + 1).last() == text_view(row@[k as int]));
            assert(bs.take(k + 1).drop_last() =~= bs.take(k as int));
            assert(bs.take(k + 1).last() == row_bundles@[k as int]@);
            match &row[k] {
                Some(binary) => {
                    let outcome = load(binary);
                    proof {
                        let old_loaded = loaded;
                        let old_outcomes = outcomes;
                        let old_t = base_targets + binaries_of(fs.take(k as int));
                        assert(binaries_of(fs.take(k + 1)) == binaries_of(fs.take(k as int)) + seq![binary@]);
                        assert(base_targets + binaries_of(fs.take(k + 1)) =~= old_t.push(binary@));
                        assert(load_step(load, *binary, outcome));
                        lemma_loads_push(load, old_loaded, old_outcomes, old_t, *binary, outcome);
                        loaded = loaded.push(*binary);
                        outcomes = outcomes.push(outcome);
                        assert(outcomes.drop_last() =~= old_outcomes);
                        assert(bundles_missing(bs.take(k + 1), fs.take(k + 1)) =~= bundles_missing(
                            bs.take(k as int),
                            fs.take(k as int),
                        ));
                    }
                    let ghost prior = found@;
                    assert(prior == loaded_descriptors(outcomes.drop_last()));
                    assert(outcomes.last() == outcome);
                    match outcome {
                        Ok(descriptors) => {
                            let mut d = descriptors;
                            let ghost added = d@;
                            let ghost before = found@;
                            found.append(&mut d);
                            assert(found@ =~= before + added);
                            assert(found@ == loaded_descriptors(outcomes));
                        },
                        Err(_) => {
                            assert(found@ =~= found@ + Seq::<PluginDescriptor>::empty());
                            assert(found@ == loaded_descriptors(outcomes));
                        },
                    }
                },
                None => {
                    let skipped = row_bundles[k].clone();
                    proof {
                        assert(binaries_of(fs.take(k + 1)) =~= binaries_of(fs.take(k as int)));
                        assert(bundles_missing(bs.take(k + 1), fs.take(k + 1)) == bundles_missing(
                            bs.take(k as int),
                            fs.take(k as int),
                        ) + seq![bs[k as int]]);
                    }
                    let ghost before_missing = missing.deep_view();
                    missing.push(skipped);
                    assert(missing.deep_view() =~= before_missing.push(bs[k as int]));
                    assert(missing.deep_view() =~= base_missing + bundles_missing(
                        bs.take(k + 1),
                        fs.take(k + 1),
                    ));
                },
            }
            k = k + 1;
        }
        proof {
            assert(fs.take(k as int) =~= fs);
            assert(bs.take(k as int) =~= bs);
            assert(fss.take(r + 1).drop_last() =~= fss.take(r as int));
            assert(bss.take(r + 1).drop_last() =~= bss.take(r as int));
            assert(fss.take(r + 1).last() == fs);
            assert(bss.take(r + 1).last() == bs);
            assert(all_binaries(fss.take(r + 1)) == base_targets + binaries_of(fs));
            assert(all_missing(bss.take(r + 1), fss.take(r + 1)) == base_missing + bundles_missing(bs, fs));
        }
        r = r + 1;
    }
    assert(fss.take(bundles@.len() as int) =~= fss);
    assert(bss.take(bundles@.len() as int) =~= bss);
    let report = ScanReport { found, bundles_without_binary: missing };
    assert(gathered_record(load, bss, fss, loaded, outcomes, report.found@, report.bundles_without_binary.deep_view()));
    report
}

/// Scans every root for bundles, finds each bundle's binary and asks `load`
/// for the classes it exports (loading the module and enumerating its
/// factory is the caller's work).  Every bundle with a binary is loaded, in
/// the order of the roots and then of the bundles; a bundle without a binary
/// is reported and skipped, and a binary that `load` rejects contributes
/// nothing: the scan itself never fails.  The bundles and binaries are the
/// ones the walks of the disk gave (`root_scan`).
pub fn get_installed_plugins<F>(paths: &Vec<String>, load: F) -> (report: ScanReport) where
    F: Fn(&String) -> Result<Vec<PluginDescriptor>, String>,

    requires
        forall|p: &String| call_requires(load, (p,)),
    ensures
        exists|
            bundles: Seq<Seq<Seq<char>>>,
            found_binaries: Seq<Seq<Option<Seq<char>>>>,
            loaded: Seq<String>,
            outcomes: Seq<Result<Vec<PluginDescriptor>, String>>,
        |
            scan_record(
                paths.deep_view(),
                load,
                bundles,
                found_binaries,
                loaded,
                outcomes,
                report.found@,
                report.bundles_without_binary.deep_view(),
            ),
{
    let ghost roots = paths.deep_view();
    let mut all_bundles: Vec<Vec<String>> = Vec::new();
    let mut all_binaries_found: Vec<Vec<Option<String>>> = Vec::new();
    let mut p: usize = 0;
    while p < paths.len()
        invariant
            roots == paths.deep_view(),
            p <= paths@.len(),
            all_bundles@.len() == p,
            all_binaries_found@.len() == p,
            forall|q: int| 0 <= q < p ==> (#[trigger] all_bundles@[q])@.len() == all_binaries_found@[q]@.len(),
            forall|q: int|
                0 <= q < p ==> #[trigger] root_scan(
                    roots[q],
                    all_bundles.deep_view()[q],
                    binaries_view(all_binaries_found@)[q],
                ),
        decreases paths@.len() - p,
    {
        let bundles = find_vst3_bundles(&paths[p]);
        let ghost bs = bundles.deep_view();
        assert(roots[p as int] == paths@[p as int]@);
        let mut row: Vec<Option<String>> = Vec::new();
        let mut b: usize = 0;
        while b < bundles.len()
            invariant
                bs == bundles.deep_view(),
                b <= bundles@.len(),
                row@.len() == b,
                forall|k: int|
                    0 <= k < b ==> #[trigger] binary_looked_up(bs[k], text_view(row@[k])),
                forall|k: int|
                    0 <= k < b ==> (#[trigger] text_view(row@[k]) matches Some(x) ==> binary_in_bundle(
                        bs[k],
                        x,
                    )),
            decreases bundles@.len() - b,
        {
            assert(bundles@[b as int]@ == bs[b as int]);
            let found = find_linux_binary(&bundles[b]);
            row.push(found);
            b = b + 1;
        }
        proof {
            let fs = row@.map_values(|o: Option<String>| text_view(o));
            assert forall|k: int| 0 <= k < fs.len() implies #[trigger] binary_looked_up(bs[k], fs[k]) by {
                assert(fs[k] == text_view(row@[k]));
            }
            assert forall|k: int| 0 <= k < fs.len() implies (#[trigger] fs[k] matches Some(x)
                ==> binary_in_bundle(bs[k], x)) by {
                assert(fs[k] == text_view(row@[k]));
            }
            assert(root_scan(roots[p as int], bs, fs));
        }
        let ghost old_b = all_bundles.deep_view();
        let ghost old_f = binaries_view(all_binaries_found@);
        let ghost old_rows = all_binaries_found@;
        let ghost old_brows = all_bundles@;
        all_bundles.push(bundles);
        all_binaries_found.push(row);
        proof {
            assert(all_bundles.deep_view() =~= old_b.push(bs));
            assert(binaries_view(all_binaries_found@) =~= old_f.push(
                all_binaries_found@[p as int]@.map_values(|o: Option<String>| text_view(o)),
            ));
            assert forall|q: int| 0 <= q < p + 1 implies (#[trigger] all_bundles@[q])@.len()
                == all_binaries_found@[q]@.len() by {
                if q < p {
                    assert(all_bundles@[q] == old_brows[q]);
                    assert(all_binaries_found@[q] == old_rows[q]);
                }
            }
            assert forall|q: int| 0 <= q < p + 1 implies #[trigger] root_scan(
                roots[q],
                all_bundles.deep_view()[q],
                binaries_view(all_binaries_found@)[q],
            ) by {
                if q < p {
                    assert(all_bundles.deep_view()[q] == old_b[q]);
                    assert(binaries_view(all_binaries_found@)[q] == old_f[q]);
                }
            }
        }
        p = p + 1;
    }
    let report = gather_scan(&all_bundles, &all_binaries_found, load);
    let ghost bss = all_bundles.deep_view();
    let ghost fss = binaries_view(all_binaries_found@);
    proof {
        let (loaded, outcomes) = choose|
            loaded: Seq<String>,
            outcomes: Seq<Result<Vec<PluginDescriptor>, String>>,
        |
            gathered_record(
                load,
                bss,
                fss,
                loaded,
                outcomes,
                report.found@,
                report.bundles_without_binary.deep_view(),
            );
        assert forall|q: int| 0 <= q < roots.len() implies #[trigger] root_scan(roots[q], bss[q], fss[q]) by {
            assert(root_scan(roots[q], all_bundles.deep_view()[q], binaries_view(all_binaries_found@)[q]));
        }
        assert(scan_record(
            paths.deep_view(),
            load,
            bss,
            fss,
            loaded,
            outcomes,
            report.found@,
            report.bundles_without_binary.deep_view(),
        ));
    }
    report
}

/// Whether every answer `load` can give names, in each descriptor, the
/// binary it was asked to load.
pub open spec fn load_tags_binaries<F: Fn(&String) -> Result<Vec<PluginDescriptor>, String>>(
    load: F,
) -> bool {
    forall|p: &String, r: Result<Vec<PluginDescriptor>, String>|
        #[trigger] call_ensures(load, (p,), r) ==> (r matches Ok(v) ==> forall|d: int|
            0 <= d < v@.len() ==> (#[trigger] v@[d]).binary_path@ == p@)
}

proof fn lemma_loaded_binary_paths<F: Fn(&String) -> Result<Vec<PluginDescriptor>, String>>(
    load: F,
    loaded: Seq<String>,
    outcomes: Seq<Result<Vec<PluginDescriptor>, String>>,
    targets: Seq<Seq<char>>,
)
    requires
        loads_match(load, loaded, outcomes, targets),
        load_tags_binaries(load),
    ensures
        forall|j: int|
            0 <= j < loaded_descriptors(outcomes).len() ==> targets.contains(
                (#[trigger] loaded_descriptors(outcomes)[j]).binary_path@,
            ),
    decreases outcomes.len(),
{
    if outcomes.len() > 0 {
        let n = outcomes.len() - 1;
        let l0 = loaded.drop_last();
        let o0 = outcomes.drop_last();
        let t0 = targets.drop_last();
        assert forall|i: int| 0 <= i < l0.len() implies (#[trigger] l0[i])@ == t0[i] by {
            assert(l0[i] == loaded[i]);
        }
        assert forall|i: int| 0 <= i < l0.len() implies #[trigger] load_step(load, l0[i], o0[i]) by {
            assert(l0[i] == loaded[i]);
            assert(o0[i] == outcomes[i]);
            assert(load_step(load, loaded[i], outcomes[i]));
        }
        lemma_loaded_binary_paths(load, l0, o0, t0);
        let prefix = loaded_descriptors(o0);
        assert(load_step(load, loaded[n], outcomes[n]));
        assert(loaded[n]@ == targets[n]);
        assert forall|j: int|
            0 <= j < loaded_descriptors(outcomes).len() implies targets.contains(
                (#[trigger] loaded_descriptors(outcomes)[j]).binary_path@,
            ) by {
            if j < prefix.len() {
                assert(loaded_descriptors(outcomes)[j] == prefix[j]);
                assert(t0.contains(prefix[j].binary_path@));
                let k = choose|k: int| 0 <= k < t0.len() && t0[k] == prefix[j].binary_path@;
                assert(targets[k] == t0[k]);
            } else {
                match outcomes[n] {
                    Ok(v) => {
                        assert(loaded_descriptors(outcomes)[j] == v@[j - prefix.len()]);
                        assert(call_ensures(load, (&loaded[n],), outcomes[n]));
                        assert(v@[j - prefix.len()].binary_path@ == loaded[n]@);
                        assert(targets[n] == loaded[n]@);
                    },
                    Err(_) => {},
                }
            }
        }
    }
}

/// Law: when `load` names, in each descriptor, the binary it loaded, every
/// descriptor a scan delivers names one of the binaries found, each a `*.so`
/// directly inside the `Contents/x86_64-linux` of a `*.vst3` bundle under
/// one of the roots.
pub proof fn lemma_scan_descriptors_name_found_binaries<F: Fn(&String) -> Result<Vec<PluginDescriptor>, String>>(
    roots: Seq<Seq<char>>,
    load: F,
    bundles: Seq<Seq<Seq<char>>>,
    found_binaries: Seq<Seq<Option<Seq<char>>>>,
    loaded: Seq<String>,
    outcomes: Seq<Result<Vec<PluginDescriptor>, String>>,
    found: Seq<PluginDescriptor>,
    missing: Seq<Seq<char>>,
)
    requires
        scan_record(roots, load, bundles, found_binaries, loaded, outcomes, found, missing),
        load_tags_binaries(load),
    ensures
        forall|j: int|
            0 <= j < found.len() ==> all_binaries(found_binaries).contains(
                (#[trigger] found[j]).binary_path@,
            ),
{
    lemma_loaded_binary_paths(load, loaded, outcomes, all_binaries(found_binaries));
}

/// The descriptors of two runs of loads, one after the other, are those of
/// the first run followed by those of the second.
pub proof fn lemma_loaded_descriptors_concat(
    a: Seq<Result<Vec<PluginDescriptor>, String>>,
    b: Seq<Result<Vec<PluginDescriptor>, String>>,
)
    ensures
        loaded_descriptors(a + b) == loaded_descriptors(a) + loaded_descriptors(b),
    decreases b.len(),
{
    if b.len() == 0 {
        assert(a + b =~= a);
        assert(loaded_descriptors(a) + loaded_descriptors(b) =~= loaded_descriptors(a));
    } else {
        lemma_loaded_descriptors_concat(a, b.drop_last());
        assert((a + b).drop_last() =~= a + b.drop_last());
        assert((a + b).last() == b.last());
        let tail = match b.last() {
            Ok(v) => v@,
            Err(_) => Seq::<PluginDescriptor>::empty(),
        };
        assert(loaded_descriptors(a) + loaded_descriptors(b.drop_last()) + tail =~= loaded_descriptors(a)
            + (loaded_descriptors(b.drop_last()) + tail));
    }
}

/// Law: whatever the other loads of a scan gave, broken ones included, the
/// descriptors of a successful load are delivered whole and in place: after
/// those of the loads before it and before those of the loads after it.  A
/// failed load delivers nothing.
pub proof fn lemma_each_load_delivered(outcomes: Seq<Result<Vec<PluginDescriptor>, String>>, k: int)
    requires
        0 <= k < outcomes.len(),
    ensures
        loaded_descriptors(outcomes) == loaded_descriptors(outcomes.take(k)) + match outcomes[k] {
            Ok(v) => v@,
            Err(_) => Seq::<PluginDescriptor>::empty(),
        } + loaded_descriptors(outcomes.skip(k + 1)),
{
    let first = outcomes.take(k + 1);
    let rest = outcomes.skip(k + 1);
    assert(outcomes =~= first + rest);
    lemma_loaded_descriptors_concat(first, rest);
    assert(first.drop_last() =~= outcomes.take(k));
    assert(first.last() == outcomes[k]);
}

} // verus!
