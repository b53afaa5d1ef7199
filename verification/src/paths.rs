//! File names: the default output path of a normalization and the audio filter
//! on paths. Path syntax itself is `std::path`'s.
use vstd::prelude::*;
use crate::extensions::{ascii_lowercase, is_supported_audio_extension, is_supported_extension, lemma_supported_exactly};
use crate::text::{chars_of, opt_view, push_string, string_of_range, views};

verus! {

broadcast use vstd::string::group_string_axioms;

/// What `std::path::Path::file_name` returns for the path `path`: its final
/// component, or `None` when the path ends in `..`, a root or is empty.
pub uninterp spec fn path_file_name(path: Seq<char>) -> Option<Seq<char>>;

/// What `std::path::Path::parent` returns for the path `path`: the path without
/// its final component, or `None` when it ends in a root or is empty.
pub uninterp spec fn path_parent(path: Seq<char>) -> Option<Seq<char>>;

/// What `std::path::Path::join` returns for `base` joined with `path`.
pub uninterp spec fn path_join(base: Seq<char>, path: Seq<char>) -> Seq<char>;

/// Index of the last `'.'` in `name`, or `-1` when there is none.
pub open spec fn last_dot(name: Seq<char>) -> int
    decreases name.len(),
{
    if name.len() == 0 {
        -1
    } else if name.last() == '.' {
        name.len() - 1
    } else {
        last_dot(name.drop_last())
    }
}

/// The stem of a file name: the whole name when it has no `'.'` or its only
/// `'.'` is the first character, else the part before the last `'.'`.
pub open spec fn stem_of_name(name: Seq<char>) -> Seq<char> {
    if last_dot(name) <= 0 {
        name
    } else {
        name.take(last_dot(name))
    }
}

/// The extension of a file name: none when it has no `'.'` or its only `'.'` is
/// the first character, else the part after the last `'.'`.
pub open spec fn extension_of_name(name: Seq<char>) -> Option<Seq<char>> {
    if last_dot(name) <= 0 {
        None
    } else {
        Some(name.skip(last_dot(name) + 1))
    }
}

/// `Path::file_name`: the final component of `path`, converted to a `String`.
#[verifier::external_body]
pub(crate) fn file_name_of(path: &str) -> (r: Option<String>)
    ensures
        opt_view(r) == path_file_name(path@),
{
    match std::path::Path::new(path).file_name() {
        Some(n) => Some(n.to_string_lossy().into_owned()),
        None => None,
    }
}

/// Index of the last `'.'` in `cs`, if there is one.
fn last_dot_index(cs: &Vec<char>) -> (r: Option<usize>)
    ensures
        match r {
            Some(d) => d as int == last_dot(cs@),
            None => last_dot(cs@) == -1,
        },
{
    proof {
        lemma_last_dot_is_last(cs@);
    }
    let mut j: usize = cs.len();
    while j > 0
        invariant
            j <= cs@.len(),
            forall|k: int| j <= k < cs@.len() ==> cs@[k] != '.',
        decreases j,
    {
        if cs[j - 1] == '.' {
            let d = j - 1;
            proof {
                lemma_last_dot_is_last(cs@);
                if last_dot(cs@) < d {
                    assert(cs@[d as int] != '.');
                }
                if last_dot(cs@) > d {
                    assert(cs@[last_dot(cs@)] == '.');
                }
            }
            return Some(d);
        }
        j = j - 1;
    }
    proof {
        if last_dot(cs@) >= 0 {
            assert(cs@[last_dot(cs@)] == '.');
        }
    }
    None
}

/// The stem of the file name `name` (see `stem_of_name`).
fn stem_from_name(name: &str) -> (r: String)
    ensures
        r@ == stem_of_name(name@),
{
    let cs = chars_of(name);
    proof {
        lemma_last_dot_is_last(cs@);
    }
    match last_dot_index(&cs) {
        Some(d) => if d == 0 {
            String::from_str(name)
        } else {
            string_of_range(&cs, 0, d)
        },
        None => String::from_str(name),
    }
}

/// The extension of the file name `name` (see `extension_of_name`).
fn extension_from_name(name: &str) -> (r: Option<String>)
    ensures
        opt_view(r) == extension_of_name(name@),
{
    let cs = chars_of(name);
    match last_dot_index(&cs) {
        Some(d) => if d == 0 {
            None
        } else {
            proof {
                lemma_last_dot_is_last(cs@);
            }
            let n = cs.len();
            assert(d < n);
            Some(string_of_range(&cs, d + 1, n))
        },
        None => None,
    }
}

/// The stem of `path`'s file name, as `Path::file_stem` defines it from
/// `Path::file_name`: none without a file name, else the file name up to its
/// last `'.'`, unless the name has no `'.'` or begins with its only `'.'`,
/// when it is the whole name.
pub fn file_stem_of(path: &str) -> (r: Option<String>)
    ensures
        opt_view(r) == match path_file_name(path@) {
            Some(n) => Some(stem_of_name(n)),
            None => None,
        },
{
    match file_name_of(path) {
        Some(n) => Some(stem_from_name(n.as_str())),
        None => None,
    }
}

/// The extension of `path`'s file name, as `Path::extension` defines it from
/// `Path::file_name`: none without a file name, without a `'.'`, or when the
/// name begins with its only `'.'`; else the part after its last `'.'`.
pub fn extension_of(path: &str) -> (r: Option<String>)
    ensures
        opt_view(r) == path_extension(path@),
{
    match file_name_of(path) {
        Some(n) => extension_from_name(n.as_str()),
        None => None,
    }
}

/// `Path::parent`: the path without its final component.
#[verifier::external_body]
fn parent_of(path: &str) -> (r: Option<String>)
    ensures
        opt_view(r) == path_parent(path@),
{
    match std::path::Path::new(path).parent() {
        Some(n) => Some(n.to_string_lossy().into_owned()),
        None => None,
    }
}

/// `name` is one normal path component on every platform: not empty, not `.`
/// or `..`, and free of slashes, backslashes and colons (the separators and
/// prefix marks of the platforms `std::path` supports).
pub open spec fn is_normal_name(name: Seq<char>) -> bool {
    &&& name.len() > 0
    &&& name != "."@
    &&& name != ".."@
    &&& forall|i: int| 0 <= i < name.len() ==> #[trigger] name[i] != '/' && name[i] != '\\' && name[i] != ':'
}

/// `Path::join`: `base` with `path` adjoined. Adjoining a single normal
/// component makes it the final component, that is the file name, of the
/// result.
#[verifier::external_body]
fn join_path(base: &str, path: &str) -> (r: String)
    ensures
        r@ == path_join(base@, path@),
        is_normal_name(path@) ==> path_file_name(r@) == Some(path@),
{
    std::path::Path::new(base).join(path).to_string_lossy().into_owned()
}

/// The extension of `path`'s file name, if it has one.
pub open spec fn path_extension(path: Seq<char>) -> Option<Seq<char>> {
    match path_file_name(path) {
        Some(n) => extension_of_name(n),
        None => None,
    }
}

/// The stem of `path`'s file name, or empty when it has no file name.
pub open spec fn stem_or_empty(path: Seq<char>) -> Seq<char> {
    match path_file_name(path) {
        Some(n) => stem_of_name(n),
        None => Seq::empty(),
    }
}

/// The extension of `path`'s file name, or `wav` when it has none.
pub open spec fn extension_or_wav(path: Seq<char>) -> Seq<char> {
    match path_extension(path) {
        Some(e) => e,
        None => "wav"@,
    }
}

/// The directory of `path`, or `.` when it has none.
pub open spec fn parent_or_dot(path: Seq<char>) -> Seq<char> {
    match path_parent(path) {
        Some(p) => p,
        None => "."@,
    }
}

/// The file name given to the normalized copy of `path`: `<stem>_normalized.<ext>`.
pub open spec fn normalized_file_name(path: Seq<char>) -> Seq<char> {
    stem_or_empty(path) + "_normalized."@ + extension_or_wav(path)
}

/// Default output path: `<parent>/<stem>_normalized.<ext>` (same base name as
/// input; falls back to `.wav` if no extension).
pub fn default_normalized_path(input: &str) -> (r: String)
    ensures
        r@ == path_join(parent_or_dot(input@), normalized_file_name(input@)),
        is_normal_name(normalized_file_name(input@)) ==> path_file_name(r@) == Some(
            normalized_file_name(input@),
        ),
        is_normal_name(normalized_file_name(input@)) ==> r@ != input@,
{
    let stem = match file_stem_of(input) {
        Some(s) => s,
        None => String::new(),
    };
    let ext = match extension_of(input) {
        Some(e) => e,
        None => String::from_str("wav"),
    };
    let parent = match parent_of(input) {
        Some(p) => p,
        None => String::from_str("."),
    };
    let mut name = stem;
    name.append("_normalized.");
    name.append(ext.as_str());
    let r = join_path(parent.as_str(), name.as_str());
    proof {
        let n = normalized_file_name(input@);
        if is_normal_name(n) && r@ == input@ {
            lemma_normalized_name_parts(input@);
            reveal_strlit("_normalized");
            assert(stem_or_empty(input@) == stem_of_name(n));
            assert(stem_of_name(n).len() == stem_or_empty(input@).len() + 11);
        }
    }
    r
}

/// No character after the last `'.'` of `name` is a `'.'`, and the last `'.'`
/// (when there is one) is one.
proof fn lemma_last_dot_is_last(name: Seq<char>)
    ensures
        -1 <= last_dot(name) < name.len(),
        last_dot(name) >= 0 ==> name[last_dot(name)] == '.',
        forall|i: int| last_dot(name) < i < name.len() ==> name[i] != '.',
    decreases name.len(),
{
    if name.len() > 0 && name.last() != '.' {
        lemma_last_dot_is_last(name.drop_last());
        assert forall|i: int| last_dot(name) < i < name.len() implies name[i] != '.' by {
            if i < name.len() - 1 {
                assert(name[i] == name.drop_last()[i]);
            }
        }
    }
}

/// The last `'.'` of `a + "." + b`, where `b` holds no `'.'`, is the one between them.
proof fn lemma_last_dot_of_join(a: Seq<char>, b: Seq<char>)
    requires
        forall|i: int| 0 <= i < b.len() ==> b[i] != '.',
    ensures
        last_dot(a + seq!['.'] + b) == a.len(),
    decreases b.len(),
{
    let s = a + seq!['.'] + b;
    if b.len() == 0 {
        assert(s.last() == '.');
    } else {
        assert(s.drop_last() =~= a + seq!['.'] + b.drop_last());
        assert(s.last() == b.last());
        lemma_last_dot_of_join(a, b.drop_last());
    }
}

/// The default output's file name splits back into the input's stem with
/// `_normalized` appended, and the input's extension (`wav` when it had none):
/// `<stem>_normalized.<ext>` has stem `<stem>_normalized` and extension `<ext>`.
pub proof fn lemma_normalized_name_parts(input: Seq<char>)
    ensures
        stem_of_name(normalized_file_name(input)) == stem_or_empty(input) + "_normalized"@,
        extension_of_name(normalized_file_name(input)) == Some(extension_or_wav(input)),
{
    reveal_strlit("_normalized.");
    reveal_strlit("_normalized");
    reveal_strlit("wav");
    let ext = extension_or_wav(input);
    assert forall|i: int| 0 <= i < ext.len() implies ext[i] != '.' by {
        match path_extension(input) {
            Some(e) => {
                let n = path_file_name(input).unwrap();
                lemma_last_dot_is_last(n);
                assert(ext[i] == n[last_dot(n) + 1 + i]);
            },
            None => {},
        }
    }
    let a = stem_or_empty(input) + "_normalized"@;
    assert(normalized_file_name(input) =~= a + seq!['.'] + ext);
    lemma_last_dot_of_join(a, ext);
    assert((a + seq!['.'] + ext).take(a.len() as int) =~= a);
    assert((a + seq!['.'] + ext).skip(a.len() as int + 1) =~= ext);
}

/// A normalized copy of an audio file carries the same extension, so it is
/// itself an audio file name.
pub proof fn lemma_normalized_audio_stays_audio(input: Seq<char>)
    requires
        is_audio_path(input),
    ensures
        extension_of_name(normalized_file_name(input)) == path_extension(input),
        is_supported_extension(extension_of_name(normalized_file_name(input)).unwrap()),
{
    lemma_normalized_name_parts(input);
}

/// `path` has a file name whose extension is a supported audio extension.
pub open spec fn is_audio_path(path: Seq<char>) -> bool {
    match path_extension(path) {
        Some(e) => is_supported_extension(e),
        None => false,
    }
}

/// A path is an audio path exactly when its file name has an extension (the
/// text after its last `'.'`, which is not its first character) and that
/// extension is `m4a`, `mp3`, `flac` or `wav` in any ASCII case; nothing else
/// about the path matters.
pub proof fn lemma_audio_path_by_extension(p: Seq<char>)
    ensures
        is_audio_path(p) <==> (path_extension(p) is Some && is_supported_extension(
            path_extension(p).unwrap(),
        )),
        path_extension(p) is Some ==> (is_audio_path(p) <==> (ascii_lowercase(
            path_extension(p).unwrap(),
        ) == "m4a"@ || ascii_lowercase(path_extension(p).unwrap()) == "mp3"@ || ascii_lowercase(
            path_extension(p).unwrap(),
        ) == "flac"@ || ascii_lowercase(path_extension(p).unwrap()) == "wav"@)),
{
    if path_extension(p) is Some {
        lemma_supported_exactly(path_extension(p).unwrap());
    }
}

/// Two paths whose file names have the same extension are both audio paths or
/// both not: selection depends on the extension alone.
pub proof fn lemma_audio_path_depends_on_extension_only(p: Seq<char>, q: Seq<char>)
    requires
        path_extension(p) == path_extension(q),
    ensures
        is_audio_path(p) == is_audio_path(q),
{
    lemma_audio_path_by_extension(p);
    lemma_audio_path_by_extension(q);
}

/// Whether the extension of `path`'s file name is a supported audio extension.
pub fn has_supported_audio_extension(path: &str) -> (r: bool)
    ensures
        r == is_audio_path(path@),
{
    match extension_of(path) {
        Some(e) => is_supported_audio_extension(e.as_str()),
        None => false,
    }
}

/// The paths of `paths` that are audio paths, in their order.
pub open spec fn audio_paths(paths: Seq<Seq<char>>) -> Seq<Seq<char>>
    decreases paths.len(),
{
    if paths.len() == 0 {
        paths
    } else if is_audio_path(paths.last()) {
        audio_paths(paths.drop_last()).push(paths.last())
    } else {
        audio_paths(paths.drop_last())
    }
}

/// The selected paths are exactly the audio paths of the listing: each kept
/// path was listed and is an audio path, and each listed audio path is kept.
pub proof fn lemma_audio_paths_members(paths: Seq<Seq<char>>, p: Seq<char>)
    ensures
        audio_paths(paths).contains(p) <==> (paths.contains(p) && is_audio_path(p)),
    decreases paths.len(),
{
    if paths.len() > 0 {
        let rest = paths.drop_last();
        lemma_audio_paths_members(rest, p);
        assert(paths =~= rest.push(paths.last()));
        if paths.contains(p) && p != paths.last() {
            let i = choose|i: int| 0 <= i < paths.len() && paths[i] == p;
            assert(rest[i] == p);
        }
        if is_audio_path(paths.last()) {
            let s = audio_paths(rest).push(paths.last());
            if s.contains(p) && p != paths.last() {
                let i = choose|i: int| 0 <= i < s.len() && s[i] == p;
                assert(audio_paths(rest)[i] == p);
            }
            if audio_paths(rest).contains(p) {
                let i = choose|i: int| 0 <= i < audio_paths(rest).len() && audio_paths(rest)[i] == p;
                assert(s[i] == p);
            }
            if p == paths.last() {
                assert(s[s.len() - 1] == p);
            }
        }
        if rest.contains(p) {
            let i = choose|i: int| 0 <= i < rest.len() && rest[i] == p;
            assert(paths[i] == p);
        }
        if p == paths.last() {
            assert(paths[paths.len() - 1] == p);
        }
    }
}

/// Whether `std::path::Path`'s ordering puts the path `a` strictly before the
/// path `b` (it compares paths component by component).
pub uninterp spec fn path_precedes(a: Seq<char>, b: Seq<char>) -> bool;

/// `Path::new(a) < Path::new(b)`. `Ord for Path` is a total order, so when `a`
/// comes before `b`, `b` does not come before `a`; and when `a` does not come
/// before `b` (so `b <= a`), `a` comes before no `c` that `b` does not come
/// before (`c <= b <= a`).
#[verifier::external_body]
fn path_lt(a: &str, b: &str) -> (r: bool)
    ensures
        r == path_precedes(a@, b@),
        r ==> !path_precedes(b@, a@),
        !r ==> forall|c: Seq<char>| !path_precedes(b@, c) ==> !path_precedes(a@, c),
{
    std::path::Path::new(a) < std::path::Path::new(b)
}

/// The paths of `paths` at the indices `order`, in that order.
pub open spec fn picked(paths: Seq<Seq<char>>, order: Seq<usize>) -> Seq<Seq<char>> {
    order.map_values(|i: usize| paths[i as int])
}

/// No path of `s` comes, in `Path`'s order, before any path preceding it.
pub open spec fn sorted_by_path(s: Seq<Seq<char>>) -> bool {
    forall|i: int, j: int| 0 <= i < j < s.len() ==> !path_precedes(#[trigger] s[j], #[trigger] s[i])
}

/// The order in which the audio files among `paths` are processed: the
/// indices of the paths whose extension is a supported audio extension, sorted
/// by path. Each such path appears as often as it is listed.
pub fn audio_file_order(paths: &Vec<String>) -> (r: Vec<usize>)
    ensures
        forall|k: int| 0 <= k < r@.len() ==> #[trigger] r@[k] < paths@.len(),
        picked(views(paths@), r@).to_multiset() == audio_paths(views(paths@)).to_multiset(),
        sorted_by_path(picked(views(paths@), r@)),
{
    broadcast use vstd::seq_lib::group_to_multiset_ensures;

    let ghost all = views(paths@);
    let mut order: Vec<usize> = Vec::new();
    let n = paths.len();
    let mut i: usize = 0;
    assert(all.take(0) =~= Seq::<Seq<char>>::empty());
    while i < n
        invariant
            i <= n,
            n == paths@.len(),
            all == views(paths@),
            forall|k: int| 0 <= k < order@.len() ==> #[trigger] order@[k] < i,
            picked(all, order@).to_multiset() == audio_paths(all.take(i as int)).to_multiset(),
            sorted_by_path(picked(all, order@)),
        decreases n - i,
    {
        assert(all.take(i + 1).drop_last() =~= all.take(i as int));
        assert(all.take(i + 1).last() == all[i as int]);
        if has_supported_audio_extension(paths[i].as_str()) {
            let ghost before = picked(all, order@);
            let ghost x = all[i as int];
            let mut j: usize = order.len();
            loop
                invariant
                    j <= order@.len(),
                    i < n,
                    n == paths@.len(),
                    all == views(paths@),
                    before == picked(all, order@),
                    x == all[i as int],
                    forall|k: int| 0 <= k < order@.len() ==> #[trigger] order@[k] < i,
                    forall|k: int| j <= k < order@.len() ==> !path_precedes(#[trigger] before[k], x),
                ensures
                    j <= order@.len(),
                    forall|k: int| j <= k < order@.len() ==> !path_precedes(#[trigger] before[k], x),
                    j > 0 ==> !path_precedes(x, before[j - 1]),
                    j > 0 ==> forall|c: Seq<char>|
                        !path_precedes(before[j - 1], c) ==> !path_precedes(x, c),
                decreases j,
            {
                if j == 0 {
                    break;
                }
                let earlier = path_lt(paths[i].as_str(), paths[order[j - 1]].as_str());
                if !earlier {
                    break;
                }
                j = j - 1;
            }
            order.insert(j, i);
            proof {
                let after = picked(all, order@);
                assert(after =~= before.insert(j as int, x));
                assert(after.remove(j as int) =~= before);
                assert(after[j as int] == x);
                vstd::seq_lib::to_multiset_remove(after, j as int);
                after.to_multiset_ensures();
                assert(after.remove(j as int).to_multiset() == after.to_multiset().remove(x));
                assert(after.to_multiset().remove(x) == before.to_multiset());
                assert(after.contains(x));
                assert(after.to_multiset().count(x) > 0);
                assert(after.to_multiset() =~= before.to_multiset().insert(x));
                let prev = audio_paths(all.take(i as int));
                assert(audio_paths(all.take(i + 1)) == prev.push(x));
                vstd::seq_lib::to_multiset_build(prev, x);
                assert forall|a: int, b: int| 0 <= a < b < after.len() implies !path_precedes(
                    #[trigger] after[b],
                    #[trigger] after[a],
                ) by {
                    if b < j {
                        assert(after[a] == before[a] && after[b] == before[b]);
                    } else if b == j {
                        assert(after[a] == before[a] && after[b] == x);
                        if a < j - 1 {
                            assert(!path_precedes(before[j - 1], before[a]));
                        }
                    } else if a == j {
                        assert(after[a] == x && after[b] == before[b - 1]);
                    } else if a < j {
                        assert(after[a] == before[a] && after[b] == before[b - 1]);
                    } else {
                        assert(after[a] == before[a - 1] && after[b] == before[b - 1]);
                    }
                }
            }
        } else {
            assert(audio_paths(all.take(i + 1)) == audio_paths(all.take(i as int)));
        }
        i = i + 1;
    }
    assert(all.take(n as int) =~= all);
    order
}

/// The audio files among `paths` (those whose extension is a supported audio
/// extension), sorted by path.
pub fn sorted_audio_files(paths: &Vec<String>) -> (r: Vec<String>)
    ensures
        views(r@).to_multiset() == audio_paths(views(paths@)).to_multiset(),
        sorted_by_path(views(r@)),
{
    let order = audio_file_order(paths);
    let mut out: Vec<String> = Vec::new();
    let m = order.len();
    let mut k: usize = 0;
    while k < m
        invariant
            k <= m,
            m == order@.len(),
            forall|t: int| 0 <= t < order@.len() ==> #[trigger] order@[t] < paths@.len(),
            views(out@) == picked(views(paths@), order@).take(k as int),
        decreases m - k,
    {
        let p = paths[order[k]].clone();
        push_string(&mut out, p);
        assert(picked(views(paths@), order@).take(k + 1) =~= picked(views(paths@), order@).take(
            k as int,
        ).push(paths@[order@[k as int] as int]@));
        k = k + 1;
    }
    assert(picked(views(paths@), order@).take(m as int) =~= picked(views(paths@), order@));
    out
}

/// Whether `path` has a file name (its last component is not `..`, a root or
/// missing).
pub fn has_file_name(path: &str) -> (r: bool)
    ensures
        r == path_file_name(path@) is Some,
{
    file_name_of(path).is_some()
}

} // verus!
