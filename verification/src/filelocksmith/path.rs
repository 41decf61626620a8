//! Windows path normalisation and matching.

use vstd::prelude::*;
use vstd::utf8::encode_utf8;
use vstd::utf8::is_ascii_chars;
use crate::text::{ascii_lowercase, bytes_of, chars_eq, chars_of, lowercase_of, string_of, to_lowercase};

verus! {

pub open spec fn is_separator(c: char) -> bool {
    c == '\\' || c == '/'
}

/// The characters with each run of separators replaced by one backslash.
pub open spec fn collapse_separators(s: Seq<char>) -> Seq<char>
    decreases s.len(),
{
    if s.len() == 0 {
        Seq::empty()
    } else {
        let prev = collapse_separators(s.drop_last());
        if is_separator(s.last()) {
            if s.len() >= 2 && is_separator(s[s.len() - 2]) {
                prev
            } else {
                prev.push('\\')
            }
        } else {
            prev.push(s.last())
        }
    }
}

/// Whether a trailing backslash stays: the path is a bare root (`\`) or a
/// drive root (three bytes with `:` second).
pub open spec fn keeps_trailing_separator(r: Seq<char>) -> bool {
    let b = encode_utf8(r);
    b.len() <= 1 || (b.len() == 3 && b[1] == 0x3A)
}

/// Lowercased characters with separators as single backslashes and no
/// trailing backslash except on a root.
pub open spec fn path_shape(lowered: Seq<char>) -> Seq<char> {
    let r = collapse_separators(lowered);
    if r.len() > 0 && r.last() == '\\' && !keeps_trailing_separator(r) {
        r.drop_last()
    } else {
        r
    }
}

/// A path in normal form: lowercased, separators as single backslashes, no
/// trailing backslash except on a root.
pub open spec fn normalized(path: Seq<char>) -> Seq<char> {
    path_shape(lowercase_of(path))
}

/// No forward slash and no two backslashes in a row.
pub open spec fn separators_clean(s: Seq<char>) -> bool {
    &&& forall|i: int| 0 <= i < s.len() ==> #[trigger] s[i] != '/'
    &&& forall|i: int| 0 <= i < s.len() - 1 ==> !(#[trigger] s[i] == '\\' && s[i + 1] == '\\')
}

proof fn lemma_collapse_clean(s: Seq<char>)
    ensures
        separators_clean(collapse_separators(s)),
        s.len() > 0 ==> collapse_separators(s).len() > 0 && (collapse_separators(s).last() == '\\' <==> is_separator(
            s.last(),
        )),
    decreases s.len(),
{
    if s.len() > 0 {
        let t = s.drop_last();
        lemma_collapse_clean(t);
        let prev = collapse_separators(t);
        if is_separator(s.last()) && s.len() >= 2 && is_separator(s[s.len() - 2]) {
            assert(t.last() == s[s.len() - 2]);
        } else if is_separator(s.last()) {
            let r = prev.push('\\');
            if prev.len() > 0 {
                assert(t.len() > 0);
                assert(t.last() == s[s.len() - 2]);
                assert(prev.last() != '\\');
            }
            assert forall|i: int| 0 <= i < r.len() - 1 implies !(#[trigger] r[i] == '\\' && r[i + 1] == '\\') by {
                if i == r.len() - 2 {
                    assert(r[i] == prev.last());
                } else {
                    assert(r[i] == prev[i] && r[i + 1] == prev[i + 1]);
                }
            }
        } else {
            let r = prev.push(s.last());
            assert forall|i: int| 0 <= i < r.len() - 1 implies !(#[trigger] r[i] == '\\' && r[i + 1] == '\\') by {
                if i < r.len() - 2 {
                    assert(r[i] == prev[i] && r[i + 1] == prev[i + 1]);
                }
            }
        }
    }
}

proof fn lemma_collapse_fixed(s: Seq<char>)
    requires
        separators_clean(s),
    ensures
        collapse_separators(s) == s,
    decreases s.len(),
{
    if s.len() > 0 {
        let t = s.drop_last();
        assert(separators_clean(t)) by {
            assert forall|i: int| 0 <= i < t.len() - 1 implies !(#[trigger] t[i] == '\\' && t[i + 1] == '\\') by {
                assert(t[i] == s[i] && t[i + 1] == s[i + 1]);
            }
            assert forall|i: int| 0 <= i < t.len() implies #[trigger] t[i] != '/' by {
                assert(t[i] == s[i]);
            }
        }
        lemma_collapse_fixed(t);
        assert(s[s.len() - 1] != '/');
        if s.len() >= 2 {
            assert(s[s.len() - 2] != '/');
        }
        assert(t.push(s.last()) =~= s);
    }
}

/// Shaping lowered characters leaves no forward slash and no two
/// backslashes in a row, a trailing backslash only on a root, and a result
/// that shaping again gives back.
pub proof fn lemma_path_shape_form(l: Seq<char>)
    ensures
        separators_clean(path_shape(l)),
        path_shape(l).len() > 0 && path_shape(l).last() == '\\' ==> keeps_trailing_separator(path_shape(l)),
        path_shape(path_shape(l)) == path_shape(l),
{
    let r = collapse_separators(l);
    lemma_collapse_clean(l);
    let n = path_shape(l);
    if r.len() > 0 && r.last() == '\\' && !keeps_trailing_separator(r) {
        assert(n == r.drop_last());
        assert forall|i: int| 0 <= i < n.len() - 1 implies !(#[trigger] n[i] == '\\' && n[i + 1] == '\\') by {
            assert(n[i] == r[i] && n[i + 1] == r[i + 1]);
        }
        assert forall|i: int| 0 <= i < n.len() implies #[trigger] n[i] != '/' by {
            assert(n[i] == r[i]);
        }
        if n.len() > 0 {
            assert(n.last() == r[r.len() - 2]);
            assert(!(r[r.len() - 2] == '\\' && r[r.len() - 1] == '\\'));
        }
    }
    lemma_collapse_fixed(n);
}

/// A normalized path has no forward slash and no two backslashes in a row,
/// and ends with a backslash only when it is a root (a lone backslash or a
/// drive root such as `c:\`). Normalizing it again gives it back, whenever
/// lowercasing leaves it unchanged.
pub proof fn lemma_normalized_form(path: Seq<char>)
    ensures
        separators_clean(normalized(path)),
        normalized(path).len() > 0 && normalized(path).last() == '\\' ==> keeps_trailing_separator(normalized(path)),
        lowercase_of(normalized(path)) == normalized(path) ==> normalized(normalized(path)) == normalized(path),
{
    lemma_path_shape_form(lowercase_of(path));
}

/// Every character of the collapsed characters is a backslash or one of the
/// original characters.
proof fn lemma_collapse_chars(s: Seq<char>)
    ensures
        forall|i: int|
            0 <= i < collapse_separators(s).len() ==> #[trigger] collapse_separators(s)[i] == '\\' || s.contains(
                collapse_separators(s)[i],
            ),
    decreases s.len(),
{
    if s.len() > 0 {
        let t = s.drop_last();
        lemma_collapse_chars(t);
        let c = collapse_separators(s);
        let prev = collapse_separators(t);
        assert forall|i: int| 0 <= i < c.len() implies #[trigger] c[i] == '\\' || s.contains(c[i]) by {
            if i < prev.len() {
                assert(c[i] == prev[i]);
                if prev[i] != '\\' {
                    let j = choose|j: int| 0 <= j < t.len() && t[j] == prev[i];
                    assert(s[j] == t[j]);
                }
            } else {
                if c[i] != '\\' {
                    assert(s[s.len() - 1] == c[i]);
                }
            }
        }
    }
}

/// An ASCII path, normalized, is ASCII, and normalizing it again gives it
/// back: normalization is idempotent on ASCII paths.
pub proof fn lemma_ascii_normalize_idempotent(path: Seq<char>)
    requires
        is_ascii_chars(path),
    ensures
        is_ascii_chars(path_shape(ascii_lowercase(path))),
        path_shape(ascii_lowercase(path_shape(ascii_lowercase(path)))) == path_shape(ascii_lowercase(path)),
{
    let l = ascii_lowercase(path);
    let n = path_shape(l);
    let r = collapse_separators(l);
    lemma_collapse_chars(l);
    lemma_path_shape_form(l);
    assert forall|i: int| 0 <= i < n.len() implies '\0' <= #[trigger] n[i] <= '\u{7f}' && !('A' <= n[i] && n[i]
        <= 'Z') by {
        assert(n[i] == r[i]);
        if r[i] != '\\' {
            let j = choose|j: int| 0 <= j < l.len() && l[j] == r[i];
            assert('\0' <= path[j] <= '\u{7f}');
        }
    }
    assert(ascii_lowercase(n) =~= n);
}

/// Normalises a Windows path for comparison.
pub fn normalize_path(path: &str) -> (r: String)
    ensures
        r@ == normalized(path@),
        is_ascii_chars(path@) ==> r@ == path_shape(ascii_lowercase(path@)),
{
    let lower = to_lowercase(path);
    let chars = chars_of(lower.as_str());
    let mut result: Vec<char> = Vec::new();
    let mut prev_was_sep = false;
    let mut i: usize = 0;
    while i < chars.len()
        invariant
            chars@ == lowercase_of(path@),
            i <= chars@.len(),
            result@ == collapse_separators(chars@.take(i as int)),
            prev_was_sep == (i > 0 && is_separator(chars@[i - 1])),
        decreases chars@.len() - i,
    {
        let ch = chars[i];
        proof {
            assert(chars@.take(i + 1).drop_last() =~= chars@.take(i as int));
            assert(chars@.take(i + 1).last() == ch);
            if i > 0 {
                assert(chars@.take(i + 1)[i - 1] == chars@[i - 1]);
            }
        }
        let is_sep = ch == '\\' || ch == '/';
        if is_sep {
            if !prev_was_sep {
                result.push('\\');
            }
            prev_was_sep = true;
        } else {
            result.push(ch);
            prev_was_sep = false;
        }
        i = i + 1;
    }
    proof {
        assert(chars@.take(chars@.len() as int) =~= chars@);
    }
    let s = string_of(&result);
    let bytes = bytes_of(s.as_str());
    let n = result.len();
    if n > 0 && result[n - 1] == '\\' {
        let keep = bytes.len() <= 1 || (bytes.len() == 3 && bytes[1] == 0x3A);
        if !keep {
            result.pop();
            return string_of(&result);
        }
    }
    s
}

/// Whether two paths name the same file after normalisation.
pub fn paths_match(a: &str, b: &str) -> (m: bool)
    ensures
        m == (normalized(a@) == normalized(b@)),
        is_ascii_chars(a@) && is_ascii_chars(b@) ==> m == (path_shape(ascii_lowercase(a@)) == path_shape(
            ascii_lowercase(b@),
        )),
{
    normalize_path(a) == normalize_path(b)
}

/// `p` with a trailing backslash added unless it ends in one.
pub open spec fn with_trailing_separator(p: Seq<char>) -> Seq<char> {
    if p.len() > 0 && p.last() == '\\' {
        p
    } else {
        p.push('\\')
    }
}

pub open spec fn is_prefix(p: Seq<char>, s: Seq<char>) -> bool {
    p.len() <= s.len() && s.take(p.len() as int) == p
}

/// `child` lies strictly under `parent`: its normal form is longer (in
/// bytes) and starts with the parent's normal form followed by a backslash.
pub open spec fn subpath(parent: Seq<char>, child: Seq<char>) -> bool {
    shape_under(normalized(parent), normalized(child))
}

/// A normal form lies strictly under another: it is longer in bytes and
/// starts with the other followed by a backslash.
pub open spec fn shape_under(np: Seq<char>, nc: Seq<char>) -> bool {
    encode_utf8(nc).len() > encode_utf8(np).len() && is_prefix(with_trailing_separator(np), nc)
}

fn ensure_trailing_separator(p: &Vec<char>) -> (r: Vec<char>)
    ensures
        r@ == with_trailing_separator(p@),
{
    let mut r = copy_chars(p);
    let n = r.len();
    if n == 0 || r[n - 1] != '\\' {
        r.push('\\');
    }
    r
}

fn copy_chars(v: &Vec<char>) -> (r: Vec<char>)
    ensures
        r@ == v@,
{
    let mut r: Vec<char> = Vec::new();
    let mut i: usize = 0;
    while i < v.len()
        invariant
            i <= v@.len(),
            r@ == v@.take(i as int),
        decreases v@.len() - i,
    {
        r.push(v[i]);
        i = i + 1;
        proof {
            assert(r@ =~= v@.take(i as int));
        }
    }
    proof {
        assert(r@ =~= v@);
    }
    r
}

/// Whether `p` is a prefix of `s`.
pub fn starts_with_chars(s: &Vec<char>, p: &Vec<char>) -> (b: bool)
    ensures
        b == is_prefix(p@, s@),
{
    if p.len() > s.len() {
        return false;
    }
    let mut i: usize = 0;
    while i < p.len()
        invariant
            p@.len() <= s@.len(),
            i <= p@.len(),
            forall|j: int| 0 <= j < i ==> s@[j] == p@[j],
        decreases p@.len() - i,
    {
        if s[i] != p[i] {
            proof {
                assert(s@.take(p@.len() as int)[i as int] != p@[i as int]);
            }
            return false;
        }
        i = i + 1;
    }
    proof {
        assert(s@.take(p@.len() as int) =~= p@);
    }
    true
}

/// Whether `child` lies strictly under `parent` after normalisation.
pub fn is_subpath(parent: &str, child: &str) -> (b: bool)
    ensures
        b == subpath(parent@, child@),
        is_ascii_chars(parent@) && is_ascii_chars(child@) ==> b == shape_under(
            path_shape(ascii_lowercase(parent@)),
            path_shape(ascii_lowercase(child@)),
        ),
{
    let np = normalize_path(parent);
    let nc = normalize_path(child);
    let np_len = bytes_of(np.as_str()).len();
    let nc_len = bytes_of(nc.as_str()).len();
    if nc_len <= np_len {
        return false;
    }
    let npc = chars_of(np.as_str());
    let ncc = chars_of(nc.as_str());
    let prefix = ensure_trailing_separator(&npc);
    starts_with_chars(&ncc, &prefix)
}

/// Matches kernel paths against the files and directories the user asked about.
pub struct PathMatcher {
    /// (normal form, path as given) for each file.
    file_targets: Vec<(Vec<char>, String)>,
    /// (normal form, path as given) for each directory.
    dir_targets: Vec<(Vec<char>, String)>,
}

/// The abstract targets: normal forms with the paths as given.
pub struct MatcherView {
    pub files: Seq<(Seq<char>, Seq<char>)>,
    pub dirs: Seq<(Seq<char>, Seq<char>)>,
}

pub open spec fn targets_of(paths: Seq<String>) -> Seq<(Seq<char>, Seq<char>)> {
    Seq::new(paths.len(), |i: int| (normalized(paths[i]@), paths[i]@))
}

/// Index of the first file target equal to `n`.
pub open spec fn first_file_match(files: Seq<(Seq<char>, Seq<char>)>, n: Seq<char>) -> Option<int> {
    if exists|i: int| 0 <= i < files.len() && (#[trigger] files[i]).0 == n {
        Some(choose|i: int| 0 <= i < files.len() && files[i].0 == n && forall|j: int| 0 <= j < i ==> (#[trigger] files[j]).0 != n)
    } else {
        None
    }
}

pub open spec fn dir_matches(target: Seq<char>, n: Seq<char>) -> bool {
    is_prefix(with_trailing_separator(target), n) || n == target
}

/// Index of the first directory target that `n` is under or equal to.
pub open spec fn first_dir_match(dirs: Seq<(Seq<char>, Seq<char>)>, n: Seq<char>) -> Option<int> {
    if exists|i: int| 0 <= i < dirs.len() && dir_matches((#[trigger] dirs[i]).0, n) {
        Some(choose|i: int| 0 <= i < dirs.len() && dir_matches(dirs[i].0, n) && forall|j: int| 0 <= j < i ==> !dir_matches((#[trigger] dirs[j]).0, n))
    } else {
        None
    }
}

/// The user path that a kernel path matches: the first equal file, else
/// the first directory holding it (or equal to it).
pub open spec fn match_of(v: MatcherView, kernel_path: Seq<char>) -> Option<Seq<char>> {
    let n = normalized(kernel_path);
    match first_file_match(v.files, n) {
        Some(i) => Some(v.files[i].1),
        None => match first_dir_match(v.dirs, n) {
            Some(i) => Some(v.dirs[i].1),
            None => None,
        },
    }
}

impl View for PathMatcher {
    type V = MatcherView;

    closed spec fn view(&self) -> MatcherView {
        MatcherView {
            files: Seq::new(self.file_targets@.len(), |i: int| (self.file_targets@[i].0@, self.file_targets@[i].1@)),
            dirs: Seq::new(self.dir_targets@.len(), |i: int| (self.dir_targets@[i].0@, self.dir_targets@[i].1@)),
        }
    }
}

fn make_targets(paths: Vec<String>) -> (r: Vec<(Vec<char>, String)>)
    ensures
        r@.len() == paths@.len(),
        forall|i: int| 0 <= i < paths@.len() ==> (#[trigger] r@[i]).0@ == normalized(paths@[i]@) && r@[i].1@ == paths@[i]@,
{
    let mut r: Vec<(Vec<char>, String)> = Vec::new();
    let mut i: usize = 0;
    while i < paths.len()
        invariant
            i <= paths@.len(),
            r@.len() == i,
            forall|k: int| 0 <= k < i ==> (#[trigger] r@[k]).0@ == normalized(paths@[k]@) && r@[k].1@ == paths@[k]@,
        decreases paths@.len() - i,
    {
        let p = &paths[i];
        let n = normalize_path(p.as_str());
        let nc = chars_of(n.as_str());
        r.push((nc, p.clone()));
        i = i + 1;
    }
    r
}

impl PathMatcher {
    /// A matcher for exact files and for anything under the directories.
    pub fn new(files: Vec<String>, dirs: Vec<String>) -> (m: Self)
        ensures
            m@.files == targets_of(files@),
            m@.dirs == targets_of(dirs@),
    {
        let ghost fs = files@;
        let ghost ds = dirs@;
        let file_targets = make_targets(files);
        let dir_targets = make_targets(dirs);
        let m = PathMatcher { file_targets, dir_targets };
        proof {
            assert(m@.files =~= targets_of(fs));
            assert(m@.dirs =~= targets_of(ds));
        }
        m
    }

    /// The path as given by the user that `kernel_path` matches, if any.
    pub fn matches(&self, kernel_path: &str) -> (r: Option<String>)
        ensures
            match r {
                Some(s) => match_of(self@, kernel_path@) == Some(s@),
                None => match_of(self@, kernel_path@) is None,
            },
    {
        let normalised = normalize_path(kernel_path);
        let n = chars_of(normalised.as_str());
        let mut i: usize = 0;
        while i < self.file_targets.len()
            invariant
                n@ == normalized(kernel_path@),
                i <= self@.files.len(),
                self@.files.len() == self.file_targets@.len(),
                forall|j: int| 0 <= j < i ==> (#[trigger] self@.files[j]).0 != n@,
            decreases self.file_targets@.len() - i,
        {
            let (target, original) = &self.file_targets[i];
            if chars_eq(&n, target) {
                proof {
                    assert(self@.files[i as int].0 == n@);
                    let k = choose|k: int| 0 <= k < self@.files.len() && self@.files[k].0 == n@ && forall|j: int| 0 <= j < k ==> (#[trigger] self@.files[j]).0 != n@;
                    assert(k == i);
                }
                return Some(original.clone());
            }
            i = i + 1;
        }
        let mut k: usize = 0;
        while k < self.dir_targets.len()
            invariant
                n@ == normalized(kernel_path@),
                k <= self@.dirs.len(),
                self@.dirs.len() == self.dir_targets@.len(),
                first_file_match(self@.files, n@) is None,
                forall|j: int| 0 <= j < k ==> !dir_matches((#[trigger] self@.dirs[j]).0, n@),
            decreases self.dir_targets@.len() - k,
        {
            let (target, original) = &self.dir_targets[k];
            let prefix = ensure_trailing_separator(target);
            if starts_with_chars(&n, &prefix) || chars_eq(&n, target) {
                proof {
                    assert(dir_matches(self@.dirs[k as int].0, n@));
                    let q = choose|q: int| 0 <= q < self@.dirs.len() && dir_matches(self@.dirs[q].0, n@) && forall|j: int| 0 <= j < q ==> !dir_matches((#[trigger] self@.dirs[j]).0, n@);
                    assert(q == k);
                }
                return Some(original.clone());
            }
            k = k + 1;
        }
        None
    }
}

} // verus!
