//! The upward walk that finds the project around a directory, one directory
//! at a time. The program looks at the disk and hands each directory's facts
//! to `walk_step`; the step says what to do next. A declared workspace is
//! adopted only below the nearest Git root; the lookup of the nearest
//! standalone package goes on above it, up to the cap or the file-system root.

use vstd::prelude::*;

use super::fs_project::{accepts_workspace, invalid_workspace};
use crate::application::ports::LoadedCatalog;
use crate::domain::catalog::{ProjectCatalog, WorkspaceCatalog};
use crate::domain::error::AppError;
use crate::domain::text::{chars_of, copy_string, owned, same_text};

verus! {

/// Where the walk stands between two directories.
#[derive(Debug, PartialEq, Eq)]
pub struct WalkState {
    /// The nearest directory seen so far that holds a `package.json`.
    pub nearest: Option<String>,
    /// No Git root has been left behind yet, so a declared workspace may
    /// still be adopted.
    pub adopting: bool,
}

/// What the program found in the directory the walk stands in.
#[derive(Debug)]
pub struct DirectoryFacts {
    pub current: String,
    /// A `package.json` exists here.
    pub has_manifest: bool,
    /// The workspace declared here, read only while the walk is adopting
    /// (`None` when it was not read).
    pub declaration: Option<Result<Option<(String, Vec<String>)>, AppError>>,
    /// A `.git` entry exists here.
    pub has_git: bool,
    /// This directory is the cap of the walk.
    pub at_cap: bool,
    /// This directory has a parent.
    pub has_parent: bool,
}

/// The next thing the walk does.
#[derive(Debug, PartialEq, Eq)]
pub enum WalkAction {
    /// Discover the workspace declared here; when `after_discovery` adopts
    /// nothing, go on with `otherwise`.
    Discover { state: WalkState, path: String, patterns: Vec<String>, otherwise: Box<WalkAction> },
    /// Go up to the parent directory in this state.
    Ascend(WalkState),
    /// Read the package at this root as a standalone catalogue.
    Standalone(String),
    /// The walk ends with this outcome.
    Finish(LoadedCatalog),
}

/// The state once the walk has looked at a directory: the first directory
/// with a manifest becomes the nearest package.
pub open spec fn spec_arrive(state: WalkState, current: String, has_manifest: bool) -> WalkState {
    WalkState {
        nearest: if state.nearest is None && has_manifest {
            Some(current)
        } else {
            state.nearest
        },
        adopting: state.adopting,
    }
}

/// Leaving a directory: a Git root ends adoption; the walk stops at the cap,
/// at the top, or once nothing is left to find (no adoption and a nearest
/// package known), then reads the nearest package or reports none.
pub open spec fn spec_ascend(state: WalkState, has_git: bool, at_cap: bool, has_parent: bool) -> WalkAction {
    let adopting = state.adopting && !has_git;
    if at_cap || !has_parent || (!adopting && state.nearest is Some) {
        match state.nearest {
            Some(root) => WalkAction::Standalone(root),
            None => WalkAction::Finish(LoadedCatalog { root: None, catalog: Err(AppError::NoPackageJson) }),
        }
    } else {
        WalkAction::Ascend(WalkState { nearest: state.nearest, adopting })
    }
}

/// One directory of the walk: record a manifest; while adopting, a broken
/// declaration ends the walk with its error at this directory and a valid one
/// is discovered; then leave the directory.
pub open spec fn spec_walk_step(state: WalkState, facts: DirectoryFacts) -> WalkAction {
    let s = spec_arrive(state, facts.current, facts.has_manifest);
    let leave = spec_ascend(s, facts.has_git, facts.at_cap, facts.has_parent);
    if s.adopting {
        match facts.declaration {
            Some(Err(e)) => WalkAction::Finish(LoadedCatalog { root: Some(facts.current), catalog: Err(e) }),
            Some(Ok(Some((path, patterns)))) => WalkAction::Discover {
                state: s,
                path,
                patterns,
                otherwise: Box::new(leave),
            },
            _ => leave,
        }
    } else {
        leave
    }
}

/// While the walk may still adopt a workspace, a valid declaration in the
/// directory it stands in is discovered, with its path and patterns, whether
/// or not that directory is a Git root; and the walk keeps what it knew of the
/// nearest package.
pub proof fn lemma_declared_workspace_is_discovered(state: WalkState, facts: DirectoryFacts)
    ensures
        state.adopting && (facts.declaration matches Some(Ok(Some(_)))) ==> {
            let action = spec_walk_step(state, facts);
            let d = facts.declaration->Some_0->Ok_0->Some_0;
            &&& action is Discover
            &&& action->Discover_path == d.0
            &&& action->Discover_patterns == d.1
            &&& action->Discover_state.adopting
            &&& state.nearest is Some ==> action->Discover_state.nearest == state.nearest
            &&& state.nearest is None && facts.has_manifest ==> action->Discover_state.nearest == Some(facts.current)
        },
{
}

/// A Git root ends adoption only for the directories above it: going up from
/// a directory, the walk still adopts exactly when it did and that directory
/// is no Git root.
pub proof fn lemma_git_root_ends_adoption_above(state: WalkState, facts: DirectoryFacts)
    ensures
        spec_walk_step(state, facts) matches WalkAction::Ascend(next) ==> next.adopting == (state.adopting
            && !facts.has_git),
        spec_walk_step(state, facts) matches WalkAction::Discover { otherwise, .. } ==> (*otherwise matches WalkAction::Ascend(next)
            ==> next.adopting == !facts.has_git),
        facts.at_cap || !facts.has_parent ==> !(spec_walk_step(state, facts) is Ascend),
{
}

/// The walk before its first directory.
pub fn walk_start() -> (r: WalkState)
    ensures
        r == (WalkState { nearest: None, adopting: true }),
{
    WalkState { nearest: None, adopting: true }
}

fn arrive(state: WalkState, current: &String, has_manifest: bool) -> (r: WalkState)
    ensures
        r == spec_arrive(state, *current, has_manifest),
{
    let nearest = match state.nearest {
        None => if has_manifest {
            Some(copy_string(current))
        } else {
            None
        },
        Some(n) => Some(n),
    };
    WalkState { nearest, adopting: state.adopting }
}

/// Leave the current directory.
pub fn ascend(state: WalkState, has_git: bool, at_cap: bool, has_parent: bool) -> (r: WalkAction)
    ensures
        r == spec_ascend(state, has_git, at_cap, has_parent),
{
    let adopting = state.adopting && !has_git;
    if at_cap || !has_parent || (!adopting && state.nearest.is_some()) {
        match state.nearest {
            Some(root) => WalkAction::Standalone(root),
            None => WalkAction::Finish(LoadedCatalog { root: None, catalog: Err(AppError::NoPackageJson) }),
        }
    } else {
        WalkAction::Ascend(WalkState { nearest: state.nearest, adopting })
    }
}

/// One directory of the walk.
pub fn walk_step(state: WalkState, facts: DirectoryFacts) -> (r: WalkAction)
    ensures
        r == spec_walk_step(state, facts),
        state.adopting && (facts.declaration matches Some(Ok(Some(_)))) ==> r is Discover
            && r->Discover_path == facts.declaration->Some_0->Ok_0->Some_0.0
            && r->Discover_patterns == facts.declaration->Some_0->Ok_0->Some_0.1,
{
    proof {
        lemma_declared_workspace_is_discovered(state, facts);
    }
    let s = arrive(state, &facts.current, facts.has_manifest);
    let DirectoryFacts { current, has_manifest: _, declaration, has_git, at_cap, has_parent } = facts;
    if s.adopting {
        match declaration {
            Some(Err(e)) => WalkAction::Finish(LoadedCatalog { root: Some(current), catalog: Err(e) }),
            Some(Ok(Some((path, patterns)))) => {
                let kept = WalkState { nearest: copy_nearest(&s.nearest), adopting: s.adopting };
                let leave = ascend(s, has_git, at_cap, has_parent);
                WalkAction::Discover { state: kept, path, patterns, otherwise: Box::new(leave) }
            },
            _ => ascend(s, has_git, at_cap, has_parent),
        }
    } else {
        ascend(s, has_git, at_cap, has_parent)
    }
}

fn copy_nearest(n: &Option<String>) -> (r: Option<String>)
    ensures
        r == *n,
{
    match n {
        Some(s) => Some(copy_string(s)),
        None => None,
    }
}

/// The walk over directories from the start upward: each step taken in
/// turn, until one does something other than going up (`None` when the
/// directories run out first).
pub open spec fn walk_run(state: WalkState, dirs: Seq<DirectoryFacts>) -> Option<WalkAction>
    decreases dirs.len(),
{
    if dirs.len() == 0 {
        None
    } else {
        match spec_walk_step(state, dirs[0]) {
            WalkAction::Ascend(next) => walk_run(next, dirs.skip(1)),
            action => Some(action),
        }
    }
}

/// The first of the directories that holds a manifest.
pub open spec fn first_manifest(dirs: Seq<DirectoryFacts>) -> Option<String>
    decreases dirs.len(),
{
    if dirs.len() == 0 {
        None
    } else if dirs[0].has_manifest {
        Some(dirs[0].current)
    } else {
        first_manifest(dirs.skip(1))
    }
}

/// Directories as the walk meets them going up: every one but the last has
/// a parent and is not the cap; the last is the cap or the top.
pub open spec fn is_upward_walk(dirs: Seq<DirectoryFacts>) -> bool {
    &&& dirs.len() > 0
    &&& forall|i: int| 0 <= i < dirs.len() - 1 ==> (#[trigger] dirs[i]).has_parent && !dirs[i].at_cap
    &&& (dirs.last().at_cap || !dirs.last().has_parent)
}

/// None of the directories declares a workspace.
pub open spec fn declares_nothing(dirs: Seq<DirectoryFacts>) -> bool {
    forall|i: int|
        0 <= i < dirs.len() ==> match (#[trigger] dirs[i]).declaration {
            None => true,
            Some(Ok(None)) => true,
            _ => false,
        }
}

/// The outcome of reading the package at `nearest`, or of finding none.
pub open spec fn standalone_outcome(nearest: Option<String>) -> WalkAction {
    match nearest {
        Some(root) => WalkAction::Standalone(root),
        None => WalkAction::Finish(LoadedCatalog { root: None, catalog: Err(AppError::NoPackageJson) }),
    }
}

proof fn lemma_walk_run_standalone(state: WalkState, dirs: Seq<DirectoryFacts>)
    requires
        is_upward_walk(dirs),
        declares_nothing(dirs),
    ensures
        walk_run(state, dirs) == Some(standalone_outcome(if state.nearest is Some {
            state.nearest
        } else {
            first_manifest(dirs)
        })),
    decreases dirs.len(),
{
    let f = dirs[0];
    let s1 = spec_arrive(state, f.current, f.has_manifest);
    let rest = dirs.skip(1);
    assert(match f.declaration {
        None => true,
        Some(Ok(None)) => true,
        _ => false,
    });
    if dirs.len() > 1 {
        assert(dirs[0].has_parent && !dirs[0].at_cap);
        assert(rest.last() == dirs.last());
        assert forall|i: int| 0 <= i < rest.len() - 1 implies (#[trigger] rest[i]).has_parent && !rest[i].at_cap by {
            assert(rest[i] == dirs[i + 1]);
        }
        assert forall|i: int| 0 <= i < rest.len() implies match (#[trigger] rest[i]).declaration {
            None => true,
            Some(Ok(None)) => true,
            _ => false,
        } by {
            assert(rest[i] == dirs[i + 1]);
        }
        match spec_walk_step(state, f) {
            WalkAction::Ascend(next) => {
                lemma_walk_run_standalone(next, rest);
            },
            _ => {},
        }
    } else {
        assert(rest.len() == 0);
        assert(first_manifest(rest) is None);
    }
}

/// Where no workspace is declared, the walk ends with the nearest package:
/// the first directory from the start that holds a manifest, whatever holds
/// one above it, past a Git root if need be; with no manifest up to the cap or
/// the top, there is no package.
pub proof fn lemma_walk_finds_the_nearest_package(dirs: Seq<DirectoryFacts>)
    requires
        is_upward_walk(dirs),
        declares_nothing(dirs),
    ensures
        walk_run(WalkState { nearest: None, adopting: true }, dirs) == Some(standalone_outcome(first_manifest(dirs))),
{
    lemma_walk_run_standalone(WalkState { nearest: None, adopting: true }, dirs);
}

/// The walk never looks above the cap: what lies beyond the first directory
/// that is the cap changes nothing.
pub proof fn lemma_walk_stops_at_the_cap(state: WalkState, dirs: Seq<DirectoryFacts>, i: int)
    requires
        0 <= i < dirs.len(),
        dirs[i].at_cap,
    ensures
        walk_run(state, dirs) == walk_run(state, dirs.take(i + 1)),
    decreases i,
{
    let short = dirs.take(i + 1);
    assert(short[0] == dirs[0]);
    match spec_walk_step(state, dirs[0]) {
        WalkAction::Ascend(next) => {
            if i == 0 {
                assert(!(spec_walk_step(state, dirs[0]) is Ascend));
            } else {
                assert(short.skip(1) =~= dirs.skip(1).take(i));
                assert(dirs.skip(1)[i - 1] == dirs[i]);
                lemma_walk_stops_at_the_cap(next, dirs.skip(1), i - 1);
            }
        },
        _ => {},
    }
}

/// The workspace found at `current` is adopted when the walk has seen no
/// package yet, when the nearest package is `current` itself, or when it is
/// one of the members (compared as the program resolved it, when it could).
pub open spec fn spec_adopts(
    nearest: Option<String>,
    current: Seq<char>,
    workspace: WorkspaceCatalog,
    resolved_nearest: Option<Seq<char>>,
) -> bool {
    match nearest {
        None => true,
        Some(n) => n@ == current || exists|i: int|
            0 <= i < workspace.packages@.len() && (#[trigger] workspace.packages@[i]).root@ == match resolved_nearest {
                Some(rn) => rn,
                None => n@,
            },
    }
}

/// What a discovery at `current` ends the walk with: an adopted workspace,
/// or the discovery's error at `current`; `None` when the walk goes on.
pub fn after_discovery(
    state: &WalkState,
    current: &str,
    found: Result<WorkspaceCatalog, AppError>,
    resolved_nearest: Option<&str>,
) -> (r: Option<LoadedCatalog>)
    ensures
        match found {
            Ok(w) => if spec_adopts(
                state.nearest,
                current@,
                w,
                match resolved_nearest {
                    Some(rn) => Some(rn@),
                    None => None,
                },
            ) {
                r == Some(LoadedCatalog { root: Some(w.root), catalog: Ok(ProjectCatalog::Workspace(w)) })
            } else {
                r is None
            },
            Err(e) => r is Some && r->Some_0.catalog == Err::<ProjectCatalog, AppError>(e)
                && r->Some_0.root is Some && r->Some_0.root->Some_0@ == current@,
        },
{
    match found {
        Ok(workspace) => {
            let nearest = match &state.nearest {
                Some(n) => Some(n.as_str()),
                None => None,
            };
            if accepts_workspace(nearest, current, &workspace, resolved_nearest) {
                let root = copy_string(&workspace.root);
                Some(LoadedCatalog { root: Some(root), catalog: Ok(ProjectCatalog::Workspace(workspace)) })
            } else {
                None
            }
        },
        Err(e) => Some(LoadedCatalog { root: Some(owned(current)), catalog: Err(e) }),
    }
}

} // verus!

verus! {

/// What the program knows of an entry the directory walk could not read.
#[derive(Debug)]
pub struct WalkErrorFacts {
    /// The entry leads back to one of its own ancestors.
    pub loop_ancestor: bool,
    /// The entry resolves to a member already found.
    pub known_member: bool,
    /// The entry is a symbolic link.
    pub is_symlink: bool,
    /// The entry is itself a directory the patterns admit as a member.
    pub admitted: bool,
    /// The text of the walk's error.
    pub message: String,
}

/// What discovery does with an entry it could not read.
#[derive(Debug, PartialEq, Eq)]
pub enum EntryAction {
    Skip,
    Fail(AppError),
}

/// An entry whose unreadable part cannot hide a member is skipped: a cycle,
/// an alias of a member already found, a symbolic link, or a directory the
/// patterns do not admit (what lies below it holds no member to lose). Only a
/// member the walk could not read fails discovery, naming the declaration.
pub open spec fn walk_error_skips(facts: WalkErrorFacts) -> bool {
    facts.loop_ancestor || facts.known_member || facts.is_symlink || !facts.admitted
}

pub fn walk_error_action(declaration: &str, facts: &WalkErrorFacts) -> (r: EntryAction)
    ensures
        walk_error_skips(*facts) ==> r == EntryAction::Skip,
        !walk_error_skips(*facts) ==> r is Fail
            && r->Fail_0 is InvalidWorkspace && r->Fail_0->InvalidWorkspace_path@ == declaration@
            && r->Fail_0->InvalidWorkspace_detail@ == facts.message@,
{
    if facts.loop_ancestor || facts.known_member || facts.is_symlink || !facts.admitted {
        EntryAction::Skip
    } else {
        EntryAction::Fail(invalid_workspace(declaration, facts.message.as_str()))
    }
}

/// Two different characters in path order: the separator before everything
/// else, so that paths compare component by component; other characters by
/// code point.
pub open spec fn path_char_lt(a: char, b: char) -> bool {
    if a == '/' {
        true
    } else if b == '/' {
        false
    } else {
        a < b
    }
}

/// Path order, as `Path` compares paths of normal components: component by
/// component, a proper prefix first.
pub open spec fn path_lt(a: Seq<char>, b: Seq<char>) -> bool
    decreases a.len(),
{
    if a.len() == 0 {
        b.len() > 0
    } else if b.len() == 0 {
        false
    } else if a[0] != b[0] {
        path_char_lt(a[0], b[0])
    } else {
        path_lt(a.skip(1), b.skip(1))
    }
}

/// Path order is transitive.
pub proof fn lemma_path_lt_transitive(a: Seq<char>, b: Seq<char>, c: Seq<char>)
    requires
        path_lt(a, b),
        path_lt(b, c),
    ensures
        path_lt(a, c),
    decreases a.len(),
{
    if a.len() > 0 && b.len() > 0 && c.len() > 0 && a[0] == b[0] && b[0] == c[0] {
        lemma_path_lt_transitive(a.skip(1), b.skip(1), c.skip(1));
    }
}

/// Path order is total and asymmetric.
pub proof fn lemma_path_lt_total(a: Seq<char>, b: Seq<char>)
    ensures
        a == b || path_lt(a, b) || path_lt(b, a),
        !(path_lt(a, b) && path_lt(b, a)),
    decreases a.len(),
{
    if a.len() > 0 && b.len() > 0 {
        if a[0] == b[0] {
            lemma_path_lt_total(a.skip(1), b.skip(1));
            if a.skip(1) == b.skip(1) {
                assert(a =~= seq![a[0]] + a.skip(1));
                assert(b =~= seq![b[0]] + b.skip(1));
                assert(a =~= b);
            }
        }
    } else if a.len() == 0 && b.len() == 0 {
        assert(a =~= b);
    }
}

/// `a < b` in path order.
pub fn path_less(a: &str, b: &str) -> (r: bool)
    ensures
        r == path_lt(a@, b@),
{
    let x = chars_of(a);
    let y = chars_of(b);
    let mut i: usize = 0;
    assert(a@.skip(0) =~= a@);
    assert(b@.skip(0) =~= b@);
    while i < x.len() && i < y.len()
        invariant
            x@ == a@,
            y@ == b@,
            i <= x@.len(),
            i <= y@.len(),
            path_lt(a@, b@) == path_lt(a@.skip(i as int), b@.skip(i as int)),
        decreases x.len() - i,
    {
        if x[i] != y[i] {
            assert(a@.skip(i as int)[0] == x@[i as int]);
            assert(b@.skip(i as int)[0] == y@[i as int]);
            if x[i] == '/' {
                return true;
            }
            if y[i] == '/' {
                return false;
            }
            return x[i] < y[i];
        }
        assert(a@.skip(i as int).skip(1) =~= a@.skip(i + 1));
        assert(b@.skip(i as int).skip(1) =~= b@.skip(i + 1));
        i += 1;
    }
    i == x.len() && i < y.len()
}

/// The texts of a list of strings.
pub open spec fn texts(v: Seq<String>) -> Seq<Seq<char>> {
    v.map_values(|s: String| s@)
}

/// Strictly increasing in path order.
pub open spec fn path_sorted(s: Seq<Seq<char>>) -> bool {
    forall|i: int, j: int| 0 <= i < j < s.len() ==> path_lt(#[trigger] s[i], #[trigger] s[j])
}

/// The package roots of a workspace in catalogue order: the root first when it
/// holds a manifest, then every member other than the root once, in path order.
pub open spec fn spec_package_roots(root: Seq<char>, root_has_manifest: bool, members: Seq<Seq<char>>, r: Seq<Seq<char>>) -> bool {
    let rest = if root_has_manifest { r.skip(1) } else { r };
    &&& root_has_manifest ==> r.len() > 0 && r[0] == root
    &&& path_sorted(rest)
    &&& forall|x: Seq<char>| rest.contains(x) <==> (members.contains(x) && x != root)
}

/// The package roots of a workspace, from its root and the members found.
pub fn workspace_package_roots(root: &str, root_has_manifest: bool, members: Vec<String>) -> (r: Vec<String>)
    ensures
        spec_package_roots(root@, root_has_manifest, texts(members@), texts(r@)),
{
    let mut rest: Vec<String> = Vec::new();
    let mut k: usize = 0;
    while k < members.len()
        invariant
            k <= members@.len(),
            path_sorted(texts(rest@)),
            forall|x: Seq<char>| texts(rest@).contains(x) <==> (texts(members@).take(k as int).contains(x) && x != root@),
        decreases members.len() - k,
    {
        let m = &members[k];
        let ghost before = texts(rest@);
        let ghost mv = m@;
        assert(texts(members@).take(k + 1) =~= texts(members@).take(k as int).push(mv));
        if same_text(m.as_str(), root) {
            assert forall|x: Seq<char>| before.contains(x) <==> (texts(members@).take(k + 1).contains(x) && x != root@) by {
                if texts(members@).take(k + 1).contains(x) && x != root@ {
                    let i = choose|i: int| 0 <= i < k + 1 && #[trigger] texts(members@).take(k + 1)[i] == x;
                    assert(texts(members@).take(k as int)[i] == x);
                }
            }
        } else {
            let mut j: usize = 0;
            while j < rest.len() && path_less(rest[j].as_str(), m.as_str())
                invariant
                    j <= rest@.len(),
                    before == texts(rest@),
                    mv == m@,
                    forall|t: int| 0 <= t < j ==> path_lt(#[trigger] before[t], mv),
                decreases rest.len() - j,
            {
                assert(before[j as int] == rest@[j as int]@);
                j += 1;
            }
            proof {
                if j < before.len() {
                    assert(before[j as int] == rest@[j as int]@);
                }
            }
            assert(texts(members@).take(k + 1) =~= texts(members@).take(k as int).push(mv));
            let dup = j < rest.len() && same_text(rest[j].as_str(), m.as_str());
            if !dup {
                proof {
                    if j < before.len() {
                        lemma_path_lt_total(before[j as int], mv);
                        assert(path_lt(mv, before[j as int]));
                    }
                    assert forall|t: int| j <= t < before.len() implies path_lt(mv, #[trigger] before[t]) by {
                        if t > j {
                            assert(path_lt(before[j as int], before[t]));
                            lemma_path_lt_transitive(mv, before[j as int], before[t]);
                        }
                    }
                }
                rest.insert(j, copy_string(m));
                let ghost after = texts(rest@);
                assert(after =~= before.insert(j as int, mv));
                assert forall|a: int, b: int| 0 <= a < b < after.len() implies path_lt(#[trigger] after[a], #[trigger] after[b]) by {
                    if b == j {
                        assert(after[a] == before[a]);
                        assert(path_lt(before[a], mv));
                    } else if a == j {
                        assert(after[b] == before[b - 1]);
                        assert(path_lt(mv, before[b - 1]));
                    } else if a < j && b > j {
                        assert(after[a] == before[a]);
                        assert(after[b] == before[b - 1]);
                        assert(path_lt(before[a], mv));
                        assert(path_lt(mv, before[b - 1]));
                        lemma_path_lt_transitive(before[a], mv, before[b - 1]);
                    } else if a < j && b < j {
                        assert(after[a] == before[a]);
                        assert(after[b] == before[b]);
                    } else if a > j {
                        assert(after[a] == before[a - 1]);
                        assert(after[b] == before[b - 1]);
                    }
                }
                assert forall|x: Seq<char>| after.contains(x) <==> (texts(members@).take(k + 1).contains(x) && x != root@) by {
                    if after.contains(x) {
                        let i = choose|i: int| 0 <= i < after.len() && after[i] == x;
                        if i < j {
                            assert(before[i] == x);
                        } else if i > j {
                            assert(before[i - 1] == x);
                        }
                    }
                    let tk = texts(members@).take(k as int);
                    let tk1 = texts(members@).take(k + 1);
                    if before.contains(x) {
                        let i = choose|i: int| 0 <= i < before.len() && before[i] == x;
                        if i < j {
                            assert(after[i] == x);
                        } else {
                            assert(after[i + 1] == x);
                        }
                        assert(tk.contains(x));
                        let t = choose|t: int| 0 <= t < tk.len() && tk[t] == x;
                        assert(tk1[t] == x);
                    }
                    if x == mv {
                        assert(after[j as int] == x);
                        assert(tk1[k as int] == x);
                    }
                    if tk1.contains(x) && x != root@ {
                        let t = choose|t: int| 0 <= t < tk1.len() && tk1[t] == x;
                        if t < k {
                            assert(tk[t] == x);
                            assert(before.contains(x));
                        }
                    }
                }
            } else {
                assert(before[j as int] == mv);
                assert forall|x: Seq<char>| before.contains(x) <==> (texts(members@).take(k + 1).contains(x) && x != root@) by {
                    if x == mv {
                        assert(before[j as int] == x);
                    }
                }
            }
        }
        k += 1;
    }
    assert(texts(members@).take(members@.len() as int) =~= texts(members@));
    if root_has_manifest {
        let mut out: Vec<String> = Vec::new();
        out.push(owned(root));
        let ghost before = texts(rest@);
        out.append(&mut rest);
        assert(texts(out@).skip(1) =~= before);
        out
    } else {
        rest
    }
}

} // verus!
