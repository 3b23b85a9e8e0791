//! Project discovery rules: workspace declarations, member patterns, which
//! directories count, and which manager a member inherits. The walk over the
//! file system belongs to the program; it asks these functions at each step.

use vstd::prelude::*;

use crate::domain::catalog::{PackageCatalog, PackageManager, ProjectCatalog, WorkspaceCatalog, WorkspacePackage};
use crate::domain::error::AppError;
use crate::domain::json::{json_parse, member, parse_json, string_items, string_list, string_list_error, JsonValue};
use crate::domain::package_manager::{
    package_error, package_matches, package_manager_signal, parse_package_json, parse_workspace_package,
    spec_signal, strip_trailing_slashes, Lockfiles,
};
use crate::domain::text::{chars_of, copy_string, join_path, owned, path_join, same_text, string_of};

verus! {

/// Discovers declared workspaces, or the nearest standalone package.
#[derive(Debug, Clone, Default)]
pub struct FsProject {
    /// Walk stops at this directory so tests cannot see the real machine root.
    pub cap: Option<String>,
}

impl FsProject {
    pub fn new() -> (r: Self)
        ensures
            r.cap is None,
    {
        FsProject { cap: None }
    }

    pub fn capped(cap: String) -> (r: Self)
        ensures
            r.cap == Some(cap),
    {
        FsProject { cap: Some(cap) }
    }

    /// The walk has reached its cap (as written, or as the program resolved it).
    pub fn reaches_cap(&self, current: &str, resolved_cap: Option<&str>) -> (r: bool)
        ensures
            r == match self.cap {
                Some(c) => current@ == c@ || match resolved_cap {
                    Some(rc) => current@ == rc@,
                    None => false,
                },
                None => false,
            },
    {
        match &self.cap {
            Some(c) => same_text(current, c.as_str()) || match resolved_cap {
                Some(rc) => same_text(current, rc),
                None => false,
            },
            None => false,
        }
    }
}

/// An error about a workspace declaration.
pub fn invalid_workspace(path: &str, detail: &str) -> (r: AppError)
    ensures
        r is InvalidWorkspace,
        r->InvalidWorkspace_path@ == path@,
        r->InvalidWorkspace_detail@ == detail@,
{
    AppError::InvalidWorkspace { path: owned(path), detail: owned(detail) }
}

fn component_at(p: &Vec<char>, i: usize, j: usize, name: &str) -> (r: bool)
    requires
        i <= j <= p@.len(),
    ensures
        r == (p@.subrange(i as int, j as int) == name@),
{
    let n = chars_of(name);
    if n.len() != j - i {
        return false;
    }
    let mut k: usize = 0;
    while k < n.len()
        invariant
            n@ == name@,
            n@.len() == j - i,
            i <= j <= p@.len(),
            k <= n@.len(),
            forall|t: int| 0 <= t < k ==> p@[i + t] == n@[t],
        decreases n.len() - k,
    {
        if p[i + k] != n[k] {
            assert(p@.subrange(i as int, j as int)[k as int] != n@[k as int]);
            return false;
        }
        k += 1;
    }
    assert(p@.subrange(i as int, j as int) =~= n@);
    true
}

/// `name` is one of the `/`-separated parts of `p`.
pub open spec fn has_segment(p: Seq<char>, name: Seq<char>) -> bool {
    exists|i: int, j: int|
        0 <= i <= j <= p.len() && #[trigger] p.subrange(i, j) == name && (i == 0 || p[i - 1] == '/')
            && (j == p.len() || p[j] == '/')
}

/// A path inside `node_modules` or `.git` is never a workspace member.
pub open spec fn spec_ignored(p: Seq<char>) -> bool {
    has_segment(p, "node_modules"@) || has_segment(p, ".git"@)
}

fn find_segment(p: &Vec<char>, name: &str) -> (r: bool)
    requires
        forall|t: int| 0 <= t < name@.len() ==> name@[t] != '/',
    ensures
        r == has_segment(p@, name@),
{
    let mut s: usize = 0;
    while s <= p.len()
        invariant
            s <= p@.len() + 1,
            s <= p@.len() ==> (s == 0 || p@[s - 1] == '/'),
            forall|t: int| 0 <= t < name@.len() ==> name@[t] != '/',
            forall|a: int, b: int|
                0 <= a < s && a <= b <= p@.len() && #[trigger] p@.subrange(a, b) == name@ && (a == 0
                    || p@[a - 1] == '/') && (b == p@.len() || p@[b] == '/') ==> false,
        decreases p.len() + 1 - s,
    {
        let mut e: usize = s;
        while e < p.len() && p[e] != '/'
            invariant
                s <= e <= p@.len(),
                forall|t: int| s <= t < e ==> p@[t] != '/',
            decreases p.len() - e,
        {
            e += 1;
        }
        if component_at(p, s, e, name) {
            return true;
        }
        proof {
            assert forall|a: int, b: int|
                s <= a <= e && a <= b <= p@.len() && #[trigger] p@.subrange(a, b) == name@ && (a == 0
                    || p@[a - 1] == '/') && (b == p@.len() || p@[b] == '/') implies false by {
                let sub = p@.subrange(a, b);
                if a > s {
                    assert(p@[a - 1] != '/');
                } else {
                    if b > e {
                        assert(sub[e - a] == p@[e as int]);
                    } else if b < e {
                        assert(p@[b] != '/');
                    }
                }
            }
        }
        if e == p.len() {
            return false;
        }
        s = e + 1;
    }
    false
}

pub fn ignored(path: &str) -> (r: bool)
    ensures
        r == spec_ignored(path@),
{
    proof {
        reveal_strlit("node_modules");
        reveal_strlit(".git");
    }
    let p = chars_of(path);
    find_segment(&p, "node_modules") || find_segment(&p, ".git")
}

/// The manager a workspace member inherits: the nearest directory with a
/// signal, from the member up to the workspace root; npm when none has one.
pub open spec fn first_signal(signals: Seq<Option<PackageManager>>) -> PackageManager
    decreases signals.len(),
{
    if signals.len() == 0 {
        PackageManager::Npm
    } else {
        match signals[0] {
            Some(m) => m,
            None => first_signal(signals.skip(1)),
        }
    }
}

/// The nearest signal wins: the manager inherited through directories whose
/// signals are listed from the member up is the signal of the first directory
/// that has one, however many directories without one come before it.
pub proof fn lemma_nearest_signal_wins(signals: Seq<Option<PackageManager>>, k: int)
    requires
        0 <= k < signals.len(),
        signals[k] is Some,
        forall|j: int| 0 <= j < k ==> signals[j] is None,
    ensures
        first_signal(signals) == signals[k]->0,
    decreases k,
{
    if k > 0 {
        assert(signals[0] is None);
        assert forall|j: int| 0 <= j < k - 1 implies signals.skip(1)[j] is None by {
            assert(signals.skip(1)[j] == signals[j + 1]);
        }
        lemma_nearest_signal_wins(signals.skip(1), k - 1);
    }
}

/// With no signal anywhere from the member up to the workspace root, the
/// manager is npm.
pub proof fn lemma_no_signal_is_npm(signals: Seq<Option<PackageManager>>)
    requires
        forall|j: int| 0 <= j < signals.len() ==> (#[trigger] signals[j]) is None,
    ensures
        first_signal(signals) == PackageManager::Npm,
    decreases signals.len(),
{
    if signals.len() > 0 {
        assert(signals[0] is None);
        assert forall|j: int| 0 <= j < signals.skip(1).len() implies (#[trigger] signals.skip(1)[j]) is None by {
            assert(signals.skip(1)[j] == signals[j + 1]);
        }
        lemma_no_signal_is_npm(signals.skip(1));
    }
}

/// `signals` lists each directory's own signal, from the member up to the
/// workspace root.
pub fn inherited_manager(signals: &[Option<PackageManager>]) -> (r: PackageManager)
    ensures
        r == first_signal(signals@),
        forall|k: int|
            0 <= k < signals@.len() && (#[trigger] signals@[k]) is Some && (forall|j: int|
                0 <= j < k ==> signals@[j] is None) ==> r == signals@[k]->0,
        (forall|j: int| 0 <= j < signals@.len() ==> (#[trigger] signals@[j]) is None) ==> r
            == PackageManager::Npm,
{
    proof {
        assert forall|k: int|
            0 <= k < signals@.len() && (#[trigger] signals@[k]) is Some && (forall|j: int|
                0 <= j < k ==> signals@[j] is None) implies first_signal(signals@) == signals@[k]->0 by {
            lemma_nearest_signal_wins(signals@, k);
        }
        if forall|j: int| 0 <= j < signals@.len() ==> (#[trigger] signals@[j]) is None {
            lemma_no_signal_is_npm(signals@);
        }
    }

    let mut i: usize = 0;
    assert(signals@.skip(0) =~= signals@);
    while i < signals.len()
        invariant
            i <= signals@.len(),
            first_signal(signals@) == first_signal(signals@.skip(i as int)),
            forall|k: int|
                0 <= k < signals@.len() && (#[trigger] signals@[k]) is Some && (forall|j: int|
                    0 <= j < k ==> signals@[j] is None) ==> first_signal(signals@) == signals@[k]->0,
            (forall|j: int| 0 <= j < signals@.len() ==> (#[trigger] signals@[j]) is None) ==> first_signal(signals@)
                == PackageManager::Npm,
        decreases signals.len() - i,
    {
        if let Some(m) = signals[i] {
            return m;
        }
        assert(signals@.skip(i as int).skip(1) =~= signals@.skip(i + 1));
        i += 1;
    }
    PackageManager::Npm
}

/// A member's path below the workspace root, or `.` for the root itself.
pub open spec fn spec_relative_path(root: Seq<char>, package_root: Seq<char>) -> Seq<char> {
    if package_root == root {
        "."@
    } else if root.len() < package_root.len() && package_root.take(root.len() as int) == root {
        if root.len() > 0 && root.last() == '/' {
            package_root.skip(root.len() as int)
        } else if package_root[root.len() as int] == '/' {
            package_root.skip(root.len() as int + 1)
        } else {
            package_root
        }
    } else {
        package_root
    }
}

pub fn relative_path(root: &str, package_root: &str) -> (r: String)
    ensures
        r@ == spec_relative_path(root@, package_root@),
{
    if same_text(root, package_root) {
        return owned(".");
    }
    let r = chars_of(root);
    let p = chars_of(package_root);
    if r.len() >= p.len() {
        return owned(package_root);
    }
    let mut i: usize = 0;
    while i < r.len()
        invariant
            r@ == root@,
            p@ == package_root@,
            r@.len() < p@.len(),
            i <= r@.len(),
            forall|t: int| 0 <= t < i ==> r@[t] == p@[t],
        decreases r.len() - i,
    {
        if r[i] != p[i] {
            assert(p@.take(r@.len() as int)[i as int] != r@[i as int]);
            return owned(package_root);
        }
        i += 1;
    }
    assert(p@.take(r@.len() as int) =~= r@);
    let from: usize = if r.len() > 0 && r[r.len() - 1] == '/' {
        r.len()
    } else if p[r.len()] == '/' {
        r.len() + 1
    } else {
        return owned(package_root);
    };
    let out = string_of(&p.as_slice()[from..p.len()]);
    assert(out@ =~= package_root@.skip(from as int));
    out
}

/// The walk adopts a workspace found above the nearest package only when that
/// package is the workspace root or one of its members.
pub fn accepts_workspace(
    nearest: Option<&str>,
    current: &str,
    workspace: &WorkspaceCatalog,
    resolved_nearest: Option<&str>,
) -> (r: bool)
    ensures
        r == match nearest {
            None => true,
            Some(n) => n@ == current@ || exists|i: int|
                0 <= i < workspace.packages@.len() && (#[trigger] workspace.packages@[i]).root@ == match resolved_nearest {
                    Some(rn) => rn@,
                    None => n@,
                },
        },
{
    let n = match nearest {
        None => {
            return true;
        },
        Some(n) => n,
    };
    if same_text(n, current) {
        return true;
    }
    let target = match resolved_nearest {
        Some(rn) => rn,
        None => n,
    };
    let mut i: usize = 0;
    while i < workspace.packages.len()
        invariant
            i <= workspace.packages@.len(),
            nearest == Some(n),
            n@ != current@,
            target@ == match resolved_nearest {
                Some(rn) => rn@,
                None => n@,
            },
            forall|t: int| 0 <= t < i ==> (#[trigger] workspace.packages@[t]).root@ != target@,
        decreases workspace.packages.len() - i,
    {
        if same_text(workspace.packages[i].root.as_str(), target) {
            assert(workspace.packages@[i as int].root@ == target@);
            return true;
        }
        i += 1;
    }
    false
}

#[verifier::external_type_specification]
#[verifier::external_body]
pub struct ExGlob(globset::Glob);

#[verifier::external_type_specification]
#[verifier::external_body]
pub struct ExGlobSet(globset::GlobSet);

/// The error `GlobBuilder::new(p).literal_separator(true).build()` reports for
/// a pattern, or `None` when it compiles.
pub uninterp spec fn glob_error(pattern: Seq<char>) -> Option<Seq<char>>;

/// The error `GlobSetBuilder::build` reports for globs compiled from these
/// patterns, or `None`.
pub uninterp spec fn glob_set_error(patterns: Seq<Seq<char>>) -> Option<Seq<char>>;

/// Whether the set compiled from these patterns matches the path.
pub uninterp spec fn glob_match(patterns: Seq<Seq<char>>, path: Seq<char>) -> bool;

/// How `{:?}` prints a text (std's `Debug` for `str`).
pub uninterp spec fn debug_str(s: Seq<char>) -> Seq<char>;

/// `format!("{:?}", s)`.
#[verifier::external_body]
fn debug_of_str(s: &str) -> (r: String)
    ensures
        r@ == debug_str(s@),
{
    format!("{s:?}")
}

/// A compiled glob and the pattern it came from.
pub struct CompiledGlob {
    glob: globset::Glob,
    pattern: String,
}

impl CompiledGlob {
    pub closed spec fn source(self) -> Seq<char> {
        self.pattern@
    }
}

/// `GlobBuilder::new(pattern).literal_separator(true).build()`: a `*` never
/// crosses a `/`. The glob keeps its pattern; the error is the crate's text.
#[verifier::external_body]
fn compile_glob(pattern: &str) -> (r: Result<CompiledGlob, String>)
    ensures
        match glob_error(pattern@) {
            Some(e) => r is Err && r->Err_0@ == e,
            None => r is Ok && r->Ok_0.source() == pattern@,
        },
{
    match globset::GlobBuilder::new(pattern).literal_separator(true).build() {
        Ok(glob) => Ok(CompiledGlob { glob, pattern: pattern.to_string() }),
        Err(e) => Err(e.to_string()),
    }
}

/// A set of globs, and the patterns it was built from.
pub struct PatternSet {
    set: globset::GlobSet,
    patterns: Vec<String>,
}

/// The patterns of compiled globs.
pub open spec fn sources(globs: Seq<CompiledGlob>) -> Seq<Seq<char>> {
    globs.map_values(|g: CompiledGlob| g.source())
}

impl PatternSet {
    pub closed spec fn patterns(self) -> Seq<Seq<char>> {
        self.patterns@.map_values(|s: String| s@)
    }

    /// `GlobSet::is_match` on a relative path; a set built from no pattern
    /// is empty and matches nothing.
    #[verifier::external_body]
    pub(crate) fn is_match(&self, path: &str) -> (r: bool)
        ensures
            r == glob_match(self.patterns(), path@),
            self.patterns().len() == 0 ==> !r,
    {
        self.set.is_match(path)
    }
}

/// `GlobSetBuilder` fed with the globs, then `build()`.
#[verifier::external_body]
fn compile_set(globs: Vec<CompiledGlob>) -> (r: Result<PatternSet, String>)
    ensures
        match glob_set_error(sources(globs@)) {
            Some(e) => r is Err && r->Err_0@ == e,
            None => r is Ok && r->Ok_0.patterns() == sources(globs@),
        },
{
    let mut builder = globset::GlobSetBuilder::new();
    let mut patterns = Vec::new();
    for g in globs {
        builder.add(g.glob);
        patterns.push(g.pattern);
    }
    match builder.build() {
        Ok(set) => Ok(PatternSet { set, patterns }),
        Err(e) => Err(e.to_string()),
    }
}

/// A declared pattern: `!` marks an exclusion; a leading `./` and trailing
/// `/` are dropped.
pub open spec fn normalized_pattern(raw: Seq<char>) -> (bool, Seq<char>) {
    let (negative, rest) = if raw.len() > 0 && raw[0] == '!' {
        (true, raw.skip(1))
    } else {
        (false, raw)
    };
    let rest = if rest.len() >= 2 && rest[0] == '.' && rest[1] == '/' {
        rest.skip(2)
    } else {
        rest
    };
    (negative, strip_trailing_slashes(rest))
}

/// A pattern may not be empty, absolute, or climb out with `..`.
pub open spec fn pattern_ok(p: Seq<char>) -> bool {
    p.len() > 0 && p[0] != '/' && !has_segment(p, ".."@)
}

/// Reading the declared patterns from `k` on: the first invalid or
/// uncompilable pattern stops with its error detail; otherwise the inclusion
/// and exclusion lists.
pub open spec fn scan_patterns(
    raws: Seq<Seq<char>>,
    k: int,
    inc: Seq<Seq<char>>,
    exc: Seq<Seq<char>>,
) -> Result<(Seq<Seq<char>>, Seq<Seq<char>>), Seq<char>>
    decreases raws.len() - k,
{
    if k < 0 || k >= raws.len() {
        Ok((inc, exc))
    } else {
        let (negative, p) = normalized_pattern(raws[k]);
        if !pattern_ok(p) {
            Err("invalid package pattern "@ + debug_str(raws[k]))
        } else {
            match glob_error(p) {
                Some(e) => Err(e),
                None => scan_patterns(
                    raws,
                    k + 1,
                    if negative {
                        inc
                    } else {
                        inc.push(p)
                    },
                    if negative {
                        exc.push(p)
                    } else {
                        exc
                    },
                ),
            }
        }
    }
}

/// The inclusion and exclusion sets of a declaration, or the detail of its
/// first error.
pub open spec fn spec_pattern_sets(raws: Seq<Seq<char>>) -> Result<(Seq<Seq<char>>, Seq<Seq<char>>), Seq<char>> {
    match scan_patterns(raws, 0, Seq::empty(), Seq::empty()) {
        Err(e) => Err(e),
        Ok((inc, exc)) => match glob_set_error(inc) {
            Some(e) => Err(e),
            None => match glob_set_error(exc) {
                Some(e) => Err(e),
                None => Ok((inc, exc)),
            },
        },
    }
}

/// Texts by their characters.
pub open spec fn texts(v: Seq<String>) -> Seq<Seq<char>> {
    v.map_values(|s: String| s@)
}

fn normalize_pattern(raw: &str) -> (r: (bool, String))
    ensures
        r.0 == normalized_pattern(raw@).0,
        r.1@ == normalized_pattern(raw@).1,
{
    let chars = chars_of(raw);
    let mut from: usize = 0;
    let negative = chars.len() > 0 && chars[0] == '!';
    if negative {
        from = 1;
    }
    let ghost rest1 = if negative {
        raw@.skip(1)
    } else {
        raw@
    };
    assert(chars@.skip(from as int) =~= rest1);
    if chars.len() >= from + 2 && chars[from] == '.' && chars[from + 1] == '/' {
        from = from + 2;
        assert(chars@.skip(from as int) =~= rest1.skip(2));
    }
    let mut end: usize = chars.len();
    let ghost rest2 = chars@.skip(from as int);
    assert(chars@.subrange(from as int, end as int) =~= rest2);
    while end > from && chars[end - 1] == '/'
        invariant
            from <= end <= chars@.len(),
            strip_trailing_slashes(rest2) == strip_trailing_slashes(chars@.subrange(from as int, end as int)),
        decreases end,
    {
        assert(chars@.subrange(from as int, end as int).drop_last() =~= chars@.subrange(from as int, end - 1));
        end -= 1;
    }
    let out = string_of(&chars.as_slice()[from..end]);
    assert(out@ =~= chars@.subrange(from as int, end as int));
    (negative, out)
}

fn pattern_valid(p: &str) -> (r: bool)
    ensures
        r == pattern_ok(p@),
{
    proof {
        reveal_strlit("..");
    }
    let chars = chars_of(p);
    if chars.len() == 0 || chars[0] == '/' {
        return false;
    }
    !find_segment(&chars, "..")
}

/// The workspace's inclusion and exclusion sets. Any invalid pattern makes the
/// whole declaration invalid, naming the declaration's path.
pub fn pattern_sets(path: &str, patterns: &[String]) -> (r: Result<(PatternSet, PatternSet), AppError>)
    ensures
        match spec_pattern_sets(texts(patterns@)) {
            Err(d) => r is Err && r->Err_0 is InvalidWorkspace && r->Err_0->InvalidWorkspace_path@ == path@
                && r->Err_0->InvalidWorkspace_detail@ == d,
            Ok((inc, exc)) => r is Ok && r->Ok_0.0.patterns() == inc && r->Ok_0.1.patterns() == exc,
        },
{
    let ghost raws = texts(patterns@);
    let mut includes: Vec<CompiledGlob> = Vec::new();
    let mut excludes: Vec<CompiledGlob> = Vec::new();
    let mut k: usize = 0;
    assert(sources(includes@) =~= Seq::<Seq<char>>::empty());
    assert(sources(excludes@) =~= Seq::<Seq<char>>::empty());
    while k < patterns.len()
        invariant
            k <= patterns@.len(),
            raws == texts(patterns@),
            scan_patterns(raws, 0, Seq::empty(), Seq::empty()) == scan_patterns(
                raws,
                k as int,
                sources(includes@),
                sources(excludes@),
            ),
        decreases patterns.len() - k,
    {
        let (negative, pattern) = normalize_pattern(patterns[k].as_str());
        assert(raws[k as int] == patterns@[k as int]@);
        if !pattern_valid(pattern.as_str()) {
            let mut detail = owned("invalid package pattern ");
            let shown = debug_of_str(patterns[k].as_str());
            detail.append(shown.as_str());
            return Err(AppError::InvalidWorkspace { path: owned(path), detail });
        }
        let glob = match compile_glob(pattern.as_str()) {
            Ok(g) => g,
            Err(e) => {
                return Err(AppError::InvalidWorkspace { path: owned(path), detail: e });
            },
        };
        if negative {
            let ghost before = excludes@;
            excludes.push(glob);
            assert(sources(excludes@) =~= sources(before).push(pattern@));
        } else {
            let ghost before = includes@;
            includes.push(glob);
            assert(sources(includes@) =~= sources(before).push(pattern@));
        }
        k += 1;
    }
    let inc = match compile_set(includes) {
        Ok(s) => s,
        Err(e) => {
            return Err(AppError::InvalidWorkspace { path: owned(path), detail: e });
        },
    };
    let exc = match compile_set(excludes) {
        Ok(s) => s,
        Err(e) => {
            return Err(AppError::InvalidWorkspace { path: owned(path), detail: e });
        },
    };
    Ok((inc, exc))
}

/// A directory found by the walk is a member when an inclusion matches its
/// relative path, no exclusion does, and it holds a `package.json`.
pub fn admits_member(includes: &PatternSet, excludes: &PatternSet, relative: &str, has_manifest: bool) -> (r:
    bool)
    ensures
        r == (glob_match(includes.patterns(), relative@) && !glob_match(excludes.patterns(), relative@)
            && has_manifest),
{
    includes.is_match(relative) && !excludes.is_match(relative) && has_manifest
}

/// Exclusions also apply where an included alias resolves to an excluded
/// directory.
pub fn keeps_resolved_member(excludes: &PatternSet, resolved_relative: &str) -> (r: bool)
    ensures
        r == !glob_match(excludes.patterns(), resolved_relative@),
{
    !excludes.is_match(resolved_relative)
}

/// What the program found of `pnpm-workspace.yaml` in a directory.
#[derive(Debug)]
pub enum YamlDeclaration {
    Absent,
    /// It could not be read or parsed; the text of the error.
    Unreadable(String),
    /// Its `packages` entries, each as a string when it is one.
    Packages(Vec<Option<String>>),
}

/// The string entries, when every entry is a string.
pub open spec fn all_texts(items: Seq<Option<String>>) -> Option<Seq<Seq<char>>> {
    if forall|i: int| 0 <= i < items.len() ==> (#[trigger] items[i]) is Some {
        Some(items.map_values(|x: Option<String>| x->0@))
    } else {
        None
    }
}

/// The member list a `package.json` declares under `workspaces`: an array, or
/// an object's `packages`.
pub open spec fn declared_packages(workspaces: JsonValue) -> JsonValue {
    match workspaces {
        JsonValue::Object(_) => match member(workspaces, "packages"@) {
            Some(p) => p,
            None => JsonValue::Null,
        },
        _ => workspaces,
    }
}

/// The declaration of a directory: the YAML file first, else the manifest's
/// `workspaces`. A manifest that cannot be read or parsed declares nothing.
pub open spec fn spec_declaration(
    root: Seq<char>,
    yaml: YamlDeclaration,
    manifest: Option<Seq<u8>>,
) -> Result<Option<(Seq<char>, Seq<Seq<char>>)>, (Seq<char>, Seq<char>)> {
    let yaml_path = path_join(root, "pnpm-workspace.yaml"@);
    let json_path = path_join(root, "package.json"@);
    match yaml {
        YamlDeclaration::Unreadable(d) => Err((yaml_path, d@)),
        YamlDeclaration::Packages(items) => match all_texts(items@) {
            Some(list) => Ok(Some((yaml_path, list))),
            None => Err((yaml_path, "package patterns must be strings"@)),
        },
        YamlDeclaration::Absent => match manifest {
            None => Ok(None),
            Some(bytes) => match json_parse(bytes) {
                None => Ok(None),
                Some(v) => match member(v, "workspaces"@) {
                    None => Ok(None),
                    Some(w) => match string_items(declared_packages(w)) {
                        Some(list) => Ok(Some((json_path, list))),
                        None => Err((json_path, string_list_error(declared_packages(w)))),
                    },
                },
            },
        },
    }
}

fn texts_of(items: &Vec<Option<String>>) -> (r: Option<Vec<String>>)
    ensures
        match all_texts(items@) {
            Some(list) => r is Some && texts(r->0@) == list,
            None => r is None,
        },
{
    let mut out: Vec<String> = Vec::new();
    let mut i: usize = 0;
    while i < items.len()
        invariant
            i <= items@.len(),
            forall|t: int| 0 <= t < i ==> (#[trigger] items@[t]) is Some,
            texts(out@) == items@.take(i as int).map_values(|x: Option<String>| x->0@),
        decreases items.len() - i,
    {
        match &items[i] {
            Some(text) => {
                let ghost before = out@;
                out.push(copy_string(text));
                assert(texts(out@) =~= texts(before).push(text@));
                assert(items@[i as int] == Some(*text));
                assert(items@.take(i + 1).map_values(|x: Option<String>| x->0@) =~= items@.take(
                    i as int,
                ).map_values(|x: Option<String>| x->0@).push(text@));
            },
            None => {
                return None;
            },
        }
        i += 1;
    }
    assert(items@.take(items@.len() as int) =~= items@);
    Some(out)
}

/// The workspace declaration of a directory, with the path of the file that
/// declares it.
pub fn workspace_declaration(root: &str, yaml: YamlDeclaration, manifest: Option<&[u8]>) -> (r: Result<
    Option<(String, Vec<String>)>,
    AppError,
>)
    ensures
        match spec_declaration(
            root@,
            yaml,
            match manifest {
                Some(b) => Some(b@),
                None => None,
            },
        ) {
            Ok(None) => r is Ok && r->Ok_0 is None,
            Ok(Some((p, list))) => r is Ok && r->Ok_0 is Some && (r->Ok_0->0).0@ == p && texts(
                (r->Ok_0->0).1@,
            ) == list,
            Err((p, d)) => r is Err && r->Err_0 is InvalidWorkspace && r->Err_0->InvalidWorkspace_path@ == p
                && r->Err_0->InvalidWorkspace_detail@ == d,
        },
{
    match yaml {
        YamlDeclaration::Unreadable(detail) => {
            let path = join_path(root, "pnpm-workspace.yaml");
            return Err(AppError::InvalidWorkspace { path, detail });
        },
        YamlDeclaration::Packages(items) => {
            let path = join_path(root, "pnpm-workspace.yaml");
            return match texts_of(&items) {
                Some(list) => Ok(Some((path, list))),
                None => Err(AppError::InvalidWorkspace {
                    path,
                    detail: owned("package patterns must be strings"),
                }),
            };
        },
        YamlDeclaration::Absent => {},
    }
    let bytes = match manifest {
        None => {
            return Ok(None);
        },
        Some(b) => b,
    };
    let value = match parse_json(bytes) {
        Ok(v) => v,
        Err(_) => {
            return Ok(None);
        },
    };
    let workspaces = match value.get("workspaces") {
        None => {
            return Ok(None);
        },
        Some(w) => w,
    };
    let null = JsonValue::Null;
    let packages = match workspaces {
        JsonValue::Object(_) => match workspaces.get("packages") {
            Some(p) => p,
            None => &null,
        },
        _ => workspaces,
    };
    let path = join_path(root, "package.json");
    match string_list(packages) {
        Ok(list) => Ok(Some((path, list))),
        Err(e) => Err(AppError::InvalidWorkspace { path, detail: e }),
    }
}

/// The manager signal of one directory: its manifest's `packageManager`
/// (when the manifest reads and parses), then its lockfiles.
pub fn directory_signal(manifest: Option<&[u8]>, lockfiles: Lockfiles) -> (r: Option<PackageManager>)
    ensures
        r == spec_signal(
            match manifest {
                Some(b) => match json_parse(b@) {
                    Some(v) => member(v, "packageManager"@),
                    None => None,
                },
                None => None,
            },
            lockfiles,
        ),
{
    let parsed = match manifest {
        Some(bytes) => match parse_json(bytes) {
            Ok(v) => Some(v),
            Err(_) => None,
        },
        None => None,
    };
    match &parsed {
        Some(v) => package_manager_signal(v.get("packageManager"), lockfiles),
        None => package_manager_signal(None, lockfiles),
    }
}

/// The catalogue of a standalone package from its manifest bytes (`None` when
/// the file could not be read).
pub fn standalone_catalog(root: &str, manifest: Option<&[u8]>, lockfiles: Lockfiles) -> (r: Result<
    ProjectCatalog,
    AppError,
>)
    ensures
        match manifest {
            None => r is Err && r->Err_0 is CannotReadPackageJson && r->Err_0->CannotReadPackageJson_path@
                == path_join(root@, "package.json"@),
            Some(b) => match json_parse(b@) {
                None => r == Err::<ProjectCatalog, AppError>(AppError::InvalidPackageJson),
                Some(v) => match package_error(v, false) {
                    Some(e) => r == Err::<ProjectCatalog, AppError>(e),
                    None => r is Ok && r->Ok_0 is Package && package_matches(
                        r->Ok_0->Package_0,
                        root@,
                        v,
                        match spec_signal(member(v, "packageManager"@), lockfiles) {
                            Some(m) => m,
                            None => PackageManager::Npm,
                        },
                    ),
                },
            },
        },
{
    match manifest {
        None => Err(AppError::CannotReadPackageJson { path: join_path(root, "package.json") }),
        Some(bytes) => match parse_package_json(root, bytes, lockfiles) {
            Ok(c) => Ok(ProjectCatalog::Package(c)),
            Err(e) => Err(e),
        },
    }
}

/// One workspace member: its path below the root, and its catalogue read with
/// the inherited manager. A manifest that resolves outside the workspace, or
/// cannot be read, is a local error of that member.
pub fn member_package(
    workspace_root: &str,
    package_root: &str,
    escapes: bool,
    manifest: Option<&[u8]>,
    manager: PackageManager,
) -> (r: WorkspacePackage)
    ensures
        r.root@ == package_root@,
        r.relative_path@ == spec_relative_path(workspace_root@, package_root@),
        escapes || manifest is None ==> r.catalog is Err && r.catalog->Err_0 is CannotReadPackageJson
            && r.catalog->Err_0->CannotReadPackageJson_path@ == path_join(package_root@, "package.json"@),
        !escapes && manifest is Some ==> match json_parse(manifest->0@) {
            None => r.catalog == Err::<PackageCatalog, AppError>(AppError::InvalidPackageJson),
            Some(v) => match package_error(v, true) {
                Some(e) => r.catalog == Err::<PackageCatalog, AppError>(e),
                None => r.catalog is Ok && package_matches(r.catalog->Ok_0, package_root@, v, manager),
            },
        },
{
    let catalog = if escapes {
        Err(AppError::CannotReadPackageJson { path: join_path(package_root, "package.json") })
    } else {
        match manifest {
            None => Err(AppError::CannotReadPackageJson { path: join_path(package_root, "package.json") }),
            Some(bytes) => parse_workspace_package(package_root, bytes, manager),
        }
    };
    WorkspacePackage {
        root: owned(package_root),
        relative_path: relative_path(workspace_root, package_root),
        catalog,
    }
}

} // verus!
