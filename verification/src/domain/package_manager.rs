//! Which package manager runs a package's scripts, and the catalogue read
//! from a `package.json`.

use vstd::prelude::*;

use super::catalog::{PackageCatalog, PackageManager, Script};
use super::error::AppError;
use super::json::{json_parse, member, parse_json, JsonValue};
use super::text::{
    char_is_whitespace, chars_of, copy_string, owned, string_of, trim_back, trim_front, trimmed,
};

verus! {

/// Which lockfiles sit next to a manifest.
#[derive(Debug, Clone, Copy, PartialEq, Eq, Default)]
pub struct Lockfiles {
    pub pnpm: bool,
    pub npm: bool,
}

/// The text before the first `@`.
pub open spec fn before_at(s: Seq<char>) -> Seq<char>
    decreases s.len(),
{
    if s.len() == 0 {
        s
    } else if s[0] == '@' {
        Seq::empty()
    } else {
        seq![s[0]] + before_at(s.skip(1))
    }
}

/// The manager that a `packageManager` value names, if it names a known one.
/// yarn and bun resolve to npm.
pub open spec fn declared_manager(field: Option<JsonValue>) -> Option<PackageManager> {
    match field {
        Some(JsonValue::Str(raw)) => {
            let name = trimmed(before_at(raw@));
            if name == "pnpm"@ {
                Some(PackageManager::Pnpm)
            } else if name == "npm"@ || name == "yarn"@ || name == "bun"@ {
                Some(PackageManager::Npm)
            } else {
                None
            }
        },
        _ => None,
    }
}

/// A supported declaration wins, then `pnpm-lock.yaml`, then
/// `package-lock.json`; otherwise there is no signal.
pub open spec fn spec_signal(field: Option<JsonValue>, lockfiles: Lockfiles) -> Option<PackageManager> {
    match declared_manager(field) {
        Some(m) => Some(m),
        None => if lockfiles.pnpm {
            Some(PackageManager::Pnpm)
        } else if lockfiles.npm {
            Some(PackageManager::Npm)
        } else {
            None
        },
    }
}

fn name_before_at(raw: &str) -> (r: Vec<char>)
    ensures
        r@ == trimmed(before_at(raw@)),
{
    let chars = chars_of(raw);
    let mut end: usize = 0;
    while end < chars.len() && chars[end] != '@'
        invariant
            chars@ == raw@,
            end <= chars@.len(),
            forall|t: int| 0 <= t < end ==> chars@[t] != '@',
        decreases chars.len() - end,
    {
        end += 1;
    }
    proof {
        lemma_before_at(raw@, end as int);
    }
    let ghost part = chars@.take(end as int);
    let mut start: usize = 0;
    assert(part.skip(0) =~= part);
    while start < end && char_is_whitespace(chars[start])
        invariant
            start <= end <= chars@.len(),
            part == chars@.take(end as int),
            trim_front(part) == trim_front(chars@.subrange(start as int, end as int)),
        decreases end - start,
    {
        assert(chars@.subrange(start as int, end as int).skip(1) =~= chars@.subrange(
            start + 1,
            end as int,
        ));
        start += 1;
    }
    let ghost front = chars@.subrange(start as int, end as int);
    let mut stop: usize = end;
    while stop > start && char_is_whitespace(chars[stop - 1])
        invariant
            start <= stop <= end <= chars@.len(),
            front == chars@.subrange(start as int, end as int),
            trim_back(trim_front(part)) == trim_back(chars@.subrange(start as int, stop as int)),
        decreases stop,
    {
        assert(chars@.subrange(start as int, stop as int).drop_last() =~= chars@.subrange(
            start as int,
            stop - 1,
        ));
        stop -= 1;
    }
    let mut out: Vec<char> = Vec::new();
    let mut i: usize = start;
    while i < stop
        invariant
            start <= i <= stop <= chars@.len(),
            out@ == chars@.subrange(start as int, i as int),
        decreases stop - i,
    {
        out.push(chars[i]);
        i += 1;
        assert(out@ =~= chars@.subrange(start as int, i as int));
    }
    out
}

proof fn lemma_before_at(s: Seq<char>, end: int)
    requires
        0 <= end <= s.len(),
        forall|t: int| 0 <= t < end ==> s[t] != '@',
        end < s.len() ==> s[end] == '@',
    ensures
        before_at(s) == s.take(end),
    decreases s.len(),
{
    if s.len() > 0 && s[0] != '@' {
        lemma_before_at(s.skip(1), end - 1);
        assert(seq![s[0]] + s.skip(1).take(end - 1) =~= s.take(end));
    } else if s.len() > 0 {
        assert(s.take(end) =~= Seq::<char>::empty());
    } else {
        assert(s.take(end) =~= s);
    }
}

fn chars_are(chars: &Vec<char>, word: &str) -> (r: bool)
    ensures
        r == (chars@ == word@),
{
    let w = chars_of(word);
    if w.len() != chars.len() {
        return false;
    }
    let mut i: usize = 0;
    while i < w.len()
        invariant
            w@ == word@,
            w@.len() == chars@.len(),
            i <= w@.len(),
            forall|t: int| 0 <= t < i ==> w@[t] == chars@[t],
        decreases w.len() - i,
    {
        if w[i] != chars[i] {
            return false;
        }
        i += 1;
    }
    assert(w@ =~= chars@);
    true
}

/// The manager a directory signals on its own, if any.
pub fn package_manager_signal(field: Option<&JsonValue>, lockfiles: Lockfiles) -> (r: Option<
    PackageManager,
>)
    ensures
        r == spec_signal(
            match field {
                Some(v) => Some(*v),
                None => None,
            },
            lockfiles,
        ),
{
    if let Some(JsonValue::Str(raw)) = field {
        let name = name_before_at(raw.as_str());
        if chars_are(&name, "pnpm") {
            return Some(PackageManager::Pnpm);
        }
        if chars_are(&name, "npm") || chars_are(&name, "yarn") || chars_are(&name, "bun") {
            return Some(PackageManager::Npm);
        }
    }
    if lockfiles.pnpm {
        Some(PackageManager::Pnpm)
    } else if lockfiles.npm {
        Some(PackageManager::Npm)
    } else {
        None
    }
}

/// Detect npm vs pnpm. yarn/bun declarations resolve to npm with no warning.
pub fn detect_package_manager(field: Option<&JsonValue>, lockfiles: Lockfiles) -> (r:
    PackageManager)
    ensures
        r == match spec_signal(
            match field {
                Some(v) => Some(*v),
                None => None,
            },
            lockfiles,
        ) {
            Some(m) => m,
            None => PackageManager::Npm,
        },
{
    match package_manager_signal(field, lockfiles) {
        Some(m) => m,
        None => PackageManager::Npm,
    }
}

/// The last component of a path, as `Path::file_name` gives it: trailing
/// separators and trailing `.` components are ignored, and there is none for
/// the root, for `.` or for `..`.
pub open spec fn file_name(path: Seq<char>) -> Option<Seq<char>> {
    let p = strip_tail(path);
    let name = after_last_slash(p);
    if name.len() == 0 || name == ".."@ || name == "."@ {
        None
    } else {
        Some(name)
    }
}

/// The path without its trailing separators and trailing `.` components.
pub open spec fn strip_tail(p: Seq<char>) -> Seq<char>
    decreases p.len(),
{
    if p.len() > 0 && (p.last() == '/' || (p.len() >= 2 && p.last() == '.' && p[p.len() - 2] == '/')) {
        strip_tail(p.drop_last())
    } else {
        p
    }
}

pub open spec fn strip_trailing_slashes(p: Seq<char>) -> Seq<char>
    decreases p.len(),
{
    if p.len() > 0 && p.last() == '/' {
        strip_trailing_slashes(p.drop_last())
    } else {
        p
    }
}

pub open spec fn after_last_slash(p: Seq<char>) -> Seq<char>
    decreases p.len(),
{
    if p.len() == 0 {
        p
    } else if p.last() == '/' {
        Seq::empty()
    } else {
        after_last_slash(p.drop_last()).push(p.last())
    }
}

fn path_file_name(path: &str) -> (r: Option<String>)
    ensures
        match r {
            Some(n) => file_name(path@) == Some(n@),
            None => file_name(path@) is None,
        },
{
    let chars = chars_of(path);
    let mut end: usize = chars.len();
    assert(chars@.take(chars@.len() as int) =~= chars@);
    while end > 0 && (chars[end - 1] == '/' || (end >= 2 && chars[end - 1] == '.' && chars[end - 2] == '/'))
        invariant
            end <= chars@.len(),
            chars@ == path@,
            strip_tail(path@) == strip_tail(chars@.take(end as int)),
        decreases end,
    {
        assert(chars@.take(end as int).drop_last() =~= chars@.take(end - 1));
        end -= 1;
    }
    assert(chars@.take(chars@.len() as int) =~= chars@);
    let ghost p = chars@.take(end as int);
    assert(strip_tail(p) == p);
    let mut start: usize = end;
    while start > 0 && chars[start - 1] != '/'
        invariant
            start <= end <= chars@.len(),
            p == chars@.take(end as int),
            after_last_slash(p) == after_last_slash(chars@.take(start as int)) + chars@.subrange(
                start as int,
                end as int,
            ),
        decreases start,
    {
        assert(chars@.take(start as int).drop_last() =~= chars@.take(start - 1));
        assert(chars@.subrange(start - 1, end as int) =~= seq![chars@[start - 1]]
            + chars@.subrange(start as int, end as int));
        assert(after_last_slash(chars@.take(start as int)) == after_last_slash(
            chars@.take(start - 1),
        ).push(chars@[start - 1]));
        assert(after_last_slash(chars@.take(start - 1)).push(chars@[start - 1])
            + chars@.subrange(start as int, end as int) =~= after_last_slash(
            chars@.take(start - 1),
        ) + chars@.subrange(start - 1, end as int));
        start -= 1;
    }
    assert(after_last_slash(chars@.take(start as int)) =~= Seq::<char>::empty());
    let name = string_of(&chars.as_slice()[start..end]);
    assert(name@ =~= chars@.subrange(start as int, end as int));
    let n = chars_of(name.as_str());
    if n.len() == 0 || chars_are(&n, "..") || chars_are(&n, ".") {
        None
    } else {
        Some(name)
    }
}

/// The name a package shows: its non-empty `name`, else its directory name,
/// else `package`.
pub open spec fn display_name_of(root: Seq<char>, value: JsonValue) -> Seq<char> {
    match member(value, "name"@) {
        Some(JsonValue::Str(n)) if n@.len() > 0 => n@,
        _ => match file_name(root) {
            Some(f) => f,
            None => "package"@,
        },
    }
}

/// The value is the string `s`.
pub open spec fn is_str(v: JsonValue, s: Seq<char>) -> bool {
    match v {
        JsonValue::Str(c) => c@ == s,
        _ => false,
    }
}

/// Every member value is a string.
pub open spec fn all_strings(m: Seq<(String, JsonValue)>) -> bool {
    forall|i: int| 0 <= i < m.len() ==> (#[trigger] m[i]).1 is Str
}

/// The scripts listed in member order.
pub open spec fn scripts_match(scripts: Seq<Script>, m: Seq<(String, JsonValue)>) -> bool {
    &&& scripts.len() == m.len()
    &&& forall|i: int|
        0 <= i < m.len() ==> (#[trigger] scripts[i]).name@ == m[i].0@ && is_str(
            m[i].1,
            scripts[i].command@,
        )
}

/// What `parse_package` decides about a manifest value: the error it reports,
/// or `None` when the catalogue is built.
pub open spec fn package_error(value: JsonValue, allow_empty: bool) -> Option<AppError> {
    match value {
        JsonValue::Object(_) => match member(value, "scripts"@) {
            None => if allow_empty {
                None
            } else {
                Some(AppError::NoScripts)
            },
            Some(JsonValue::Object(s)) => if s@.len() == 0 && !allow_empty {
                Some(AppError::NoScripts)
            } else if !all_strings(s@) {
                Some(AppError::ScriptsNotObjectOfStrings)
            } else {
                None
            },
            Some(_) => Some(AppError::ScriptsNotObjectOfStrings),
        },
        _ => Some(AppError::InvalidPackageJson),
    }
}

/// The catalogue built from a manifest value that `package_error` accepts.
pub open spec fn package_matches(
    c: PackageCatalog,
    root: Seq<char>,
    value: JsonValue,
    manager: PackageManager,
) -> bool {
    &&& c.root@ == root
    &&& c.display_name@ == display_name_of(root, value)
    &&& c.manager == manager
    &&& match member(value, "scripts"@) {
        Some(JsonValue::Object(s)) => scripts_match(c.scripts@, s@),
        _ => c.scripts@.len() == 0,
    }
}

/// Read the catalogue of a manifest value. A workspace member may have no
/// scripts (`allow_empty`); a standalone package may not.
pub fn parse_package(root: &str, value: &JsonValue, manager: PackageManager, allow_empty: bool) -> (r:
    Result<PackageCatalog, AppError>)
    ensures
        match package_error(*value, allow_empty) {
            Some(e) => r == Err::<PackageCatalog, AppError>(e),
            None => r is Ok && package_matches(r->Ok_0, root@, *value, manager),
        },
{
    if !(value matches JsonValue::Object(_)) {
        return Err(AppError::InvalidPackageJson);
    }
    let display_name = match value.get("name") {
        Some(JsonValue::Str(name)) if name.as_str().unicode_len() > 0 => copy_string(name),
        _ => match path_file_name(root) {
            Some(f) => f,
            None => owned("package"),
        },
    };
    let scripts: Vec<Script> = match value.get("scripts") {
        None => {
            if !allow_empty {
                return Err(AppError::NoScripts);
            }
            Vec::new()
        },
        Some(JsonValue::Object(entries)) => {
            if entries.len() == 0 && !allow_empty {
                return Err(AppError::NoScripts);
            }
            let mut listed: Vec<Script> = Vec::new();
            let mut i: usize = 0;
            while i < entries.len()
                invariant
                    i <= entries@.len(),
                    *value matches JsonValue::Object(_),
                    member(*value, "scripts"@) == Some(JsonValue::Object(*entries)),
                    !(entries@.len() == 0 && !allow_empty),
                    listed@.len() == i,
                    forall|t: int| 0 <= t < i ==> (#[trigger] entries@[t]).1 is Str,
                    forall|t: int|
                        0 <= t < i ==> (#[trigger] listed@[t]).name@ == entries@[t].0@
                            && is_str(entries@[t].1, listed@[t].command@),
                decreases entries.len() - i,
            {
                match &entries[i].1 {
                    JsonValue::Str(command) => {
                        listed.push(
                            Script { name: copy_string(&entries[i].0), command: copy_string(command) },
                        );
                    },
                    _ => {
                        return Err(AppError::ScriptsNotObjectOfStrings);
                    },
                }
                i += 1;
            }
            listed
        },
        Some(_) => {
            return Err(AppError::ScriptsNotObjectOfStrings);
        },
    };
    Ok(PackageCatalog { root: owned(root), display_name, manager, scripts })
}

/// The catalogue of a standalone package from the parsed manifest (`None` when
/// it did not parse): its own `packageManager` and lockfiles pick the manager.
pub fn package_from_json(root: &str, value: Option<&JsonValue>, lockfiles: Lockfiles) -> (r: Result<
    PackageCatalog,
    AppError,
>)
    ensures
        match value {
            None => r == Err::<PackageCatalog, AppError>(AppError::InvalidPackageJson),
            Some(v) => {
                let manager = match spec_signal(member(*v, "packageManager"@), lockfiles) {
                    Some(m) => m,
                    None => PackageManager::Npm,
                };
                match package_error(*v, false) {
                    Some(e) => r == Err::<PackageCatalog, AppError>(e),
                    None => r is Ok && package_matches(r->Ok_0, root@, *v, manager),
                }
            },
        },
{
    match value {
        None => Err(AppError::InvalidPackageJson),
        Some(v) => {
            let manager = detect_package_manager(v.get("packageManager"), lockfiles);
            parse_package(root, v, manager, false)
        },
    }
}

/// Parse a standalone `package.json`.
pub fn parse_package_json(root: &str, bytes: &[u8], lockfiles: Lockfiles) -> (r: Result<
    PackageCatalog,
    AppError,
>)
    ensures
        match json_parse(bytes@) {
            None => r == Err::<PackageCatalog, AppError>(AppError::InvalidPackageJson),
            Some(v) => {
                let manager = match spec_signal(member(v, "packageManager"@), lockfiles) {
                    Some(m) => m,
                    None => PackageManager::Npm,
                };
                match package_error(v, false) {
                    Some(e) => r == Err::<PackageCatalog, AppError>(e),
                    None => r is Ok && package_matches(r->Ok_0, root@, v, manager),
                }
            },
        },
{
    let parsed = parse_json(bytes);
    match &parsed {
        Err(_) => package_from_json(root, None, lockfiles),
        Ok(v) => package_from_json(root, Some(v), lockfiles),
    }
}

/// Parse a workspace member's `package.json` with the manager it inherits;
/// a member may have no scripts.
pub fn parse_workspace_package(root: &str, bytes: &[u8], manager: PackageManager) -> (r: Result<
    PackageCatalog,
    AppError,
>)
    ensures
        match json_parse(bytes@) {
            None => r == Err::<PackageCatalog, AppError>(AppError::InvalidPackageJson),
            Some(v) => match package_error(v, true) {
                Some(e) => r == Err::<PackageCatalog, AppError>(e),
                None => r is Ok && package_matches(r->Ok_0, root@, v, manager),
            },
        },
{
    let parsed = parse_json(bytes);
    match &parsed {
        Err(_) => Err(AppError::InvalidPackageJson),
        Ok(v) => parse_package(root, v, manager, true),
    }
}

} // verus!
