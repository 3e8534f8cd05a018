//! virtiofs mounts: reading a `--mount` flag and checking a mount's names.
use crate::network::debug_quoted;
use crate::network::debug_str;
use crate::text::{
    cat, cat3, char_is_alnum, is_ascii_alnum, owned, push_char, split_char, split_first,
    split_once_spec, split_spec, str_eq, trim, trim_spec,
};
use vstd::prelude::*;

verus! {

/// virtiofs share name of the project directory on docker-role VMs.
pub const DOCKER_PROJECT_MOUNT_TAG: &'static str = "project";

/// The device tag of the virtiofs device itself; no mount may take it.
pub const VIRTIOFS_DEVICE_TAG: &'static str = "vzctl";

/// A host directory shared into the guest.
#[derive(Clone, Debug, PartialEq, Eq)]
pub struct ResolvedMount {
    pub name: String,
    pub source: String,
    pub target: String,
    pub read_only: bool,
}

/// The mount as plain values: name, source, target, read-only.
pub type MountView = (Seq<char>, Seq<char>, Seq<char>, bool);

pub open spec fn mount_view(m: ResolvedMount) -> MountView {
    (m.name@, m.source@, m.target@, m.read_only)
}

pub open spec fn name_char(c: char) -> bool {
    is_ascii_alnum(c) || c == '-' || c == '_'
}

/// A volume or mount name: 1 to 36 characters, a letter or digit first, then
/// letters, digits, `_` and `-`.
pub open spec fn valid_volume_name_spec(s: Seq<char>) -> bool {
    &&& 1 <= s.len() <= 36
    &&& is_ascii_alnum(s[0])
    &&& forall|i: int| 1 <= i < s.len() ==> #[trigger] name_char(s[i])
}

pub fn valid_volume_name(s: &str) -> (r: bool)
    ensures
        r == valid_volume_name_spec(s@),
{
    let n = s.unicode_len();
    if n < 1 || n > 36 || !char_is_alnum(s.get_char(0)) {
        return false;
    }
    let mut i: usize = 1;
    while i < n
        invariant
            n == s@.len(),
            1 <= i <= n,
            forall|j: int| 1 <= j < i ==> #[trigger] name_char(s@[j]),
        decreases n - i,
    {
        let c = s.get_char(i);
        if !(char_is_alnum(c) || c == '-' || c == '_') {
            assert(!name_char(s@[i as int]));
            return false;
        }
        i = i + 1;
    }
    true
}

/// The last component of a path, as `Path::file_name` gives it for a path
/// in UTF-8 (`None` for a path that ends in `..` or is a root).
pub uninterp spec fn path_file_name(p: Seq<char>) -> Option<Seq<char>>;

pub open spec fn opt_view(o: Option<String>) -> Option<Seq<char>> {
    match o {
        Some(s) => Some(s@),
        None => None,
    }
}

/// `Path::file_name` of `path`, converted back to a string.
#[verifier::external_body]
fn file_name_of(path: &str) -> (r: Option<String>)
    ensures
        opt_view(r) == path_file_name(path@),
{
    std::path::Path::new(path).file_name().and_then(|n| n.to_str()).map(|n| n.to_string())
}

pub open spec fn sanitize_char(c: char) -> char {
    if name_char(c) {
        c
    } else {
        '_'
    }
}

pub open spec fn sanitize(s: Seq<char>) -> Seq<char> {
    s.map_values(|c: char| sanitize_char(c))
}

/// The name a mount takes from its source when none is given: the source's
/// last component with every character outside `[A-Za-z0-9_-]` made `_`.
pub open spec fn default_name_spec(source: Seq<char>) -> Result<Seq<char>, Seq<char>> {
    match path_file_name(source) {
        None => Err("cannot derive mount name from source path"@),
        Some(base) => {
            let name = sanitize(base);
            if valid_volume_name_spec(name) {
                Ok(name)
            } else {
                Err("derived mount name "@ + debug_str(name) + " is invalid; pass tag=… explicitly"@)
            }
        },
    }
}

pub open spec fn string_result_view(r: Result<String, String>) -> Result<Seq<char>, Seq<char>> {
    match r {
        Ok(s) => Ok(s@),
        Err(e) => Err(e@),
    }
}

/// The name a mount takes from its source path.
pub fn default_mount_name(source: &str) -> (r: Result<String, String>)
    ensures
        string_result_view(r) == default_name_spec(source@),
{
    let base = match file_name_of(source) {
        Some(b) => b,
        None => {
            return Err(owned("cannot derive mount name from source path"));
        },
    };
    let n = base.unicode_len();
    let mut name = String::new();
    let mut i: usize = 0;
    while i < n
        invariant
            n == base@.len(),
            i <= n,
            name@ == sanitize(base@.subrange(0, i as int)),
        decreases n - i,
    {
        let c = base.as_str().get_char(i);
        let d = if char_is_alnum(c) || c == '-' || c == '_' {
            c
        } else {
            '_'
        };
        push_char(&mut name, d);
        assert(sanitize(base@.subrange(0, i + 1)) =~= sanitize(base@.subrange(0, i as int)).push(d));
        i = i + 1;
    }
    assert(base@.subrange(0, n as int) =~= base@);
    if !valid_volume_name(name.as_str()) {
        let quoted = debug_quoted(name.as_str());
        return Err(cat3("derived mount name ", quoted.as_str(), " is invalid; pass tag=… explicitly"));
    }
    Ok(name)
}

/// What a mount's name, source and target must be: the name neither the
/// device tag nor malformed, the source not empty, the target an absolute
/// path other than `/`.
pub open spec fn validate_spec(name: Seq<char>, source: Seq<char>, target: Seq<char>) -> Result<(), Seq<char>> {
    if name == "vzctl"@ {
        Err("mount name \"vzctl\" is reserved for the virtiofs device tag"@)
    } else if !valid_volume_name_spec(name) {
        Err("mount name "@ + debug_str(name) + " must be 1-36 chars [A-Za-z0-9][A-Za-z0-9_-]*"@)
    } else if source.len() == 0 {
        Err("mount source must not be empty"@)
    } else if target.len() < 2 || target[0] != '/' {
        Err("mount target must be an absolute path (not /)"@)
    } else {
        Ok(())
    }
}

pub open spec fn unit_result_view(r: Result<(), String>) -> Result<(), Seq<char>> {
    match r {
        Ok(()) => Ok(()),
        Err(e) => Err(e@),
    }
}

/// Checks a mount's name, source and target.
pub fn validate_resolved_mount(name: &str, source: &str, target: &str) -> (r: Result<(), String>)
    ensures
        unit_result_view(r) == validate_spec(name@, source@, target@),
{
    if str_eq(name, "vzctl") {
        return Err(owned("mount name \"vzctl\" is reserved for the virtiofs device tag"));
    }
    if !valid_volume_name(name) {
        let quoted = debug_quoted(name);
        return Err(cat3("mount name ", quoted.as_str(), " must be 1-36 chars [A-Za-z0-9][A-Za-z0-9_-]*"));
    }
    if source.unicode_len() == 0 {
        return Err(owned("mount source must not be empty"));
    }
    if target.unicode_len() < 2 || target.get_char(0) != '/' {
        return Err(owned("mount target must be an absolute path (not /)"));
    }
    Ok(())
}

/// What the fragments of a `--mount` flag have set so far: name, source,
/// target, read-only.
pub type MountScan = (Option<Seq<char>>, Option<Seq<char>>, Option<Seq<char>>, bool);

pub open spec fn is_ro_word(s: Seq<char>) -> bool {
    s == "ro"@ || s == "read_only"@ || s == "readOnly"@
}

pub open spec fn is_true_word(s: Seq<char>) -> bool {
    s == "1"@ || s == "true"@ || s == "yes"@ || s == "ro"@
}

/// Reads the comma-separated fragments from `i` on, each trimmed: empty ones
/// are skipped, a bare read-only word sets read-only, the others are
/// `key=value` with a known key.
pub open spec fn scan_fragments(parts: Seq<Seq<char>>, i: int, st: MountScan) -> Result<MountScan, Seq<char>>
    decreases parts.len() - i,
{
    if i < 0 || i >= parts.len() {
        Ok(st)
    } else {
        let part = trim_spec(parts[i]);
        if part.len() == 0 {
            scan_fragments(parts, i + 1, st)
        } else if is_ro_word(part) {
            scan_fragments(parts, i + 1, (st.0, st.1, st.2, true))
        } else {
            match split_once_spec(part, '=') {
                None => Err("invalid --mount fragment "@ + debug_str(part) + "; expected key=value"@),
                Some((key, value)) => {
                    if key == "tag"@ || key == "name"@ {
                        scan_fragments(parts, i + 1, (Some(value), st.1, st.2, st.3))
                    } else if key == "source"@ {
                        scan_fragments(parts, i + 1, (st.0, Some(value), st.2, st.3))
                    } else if key == "target"@ {
                        scan_fragments(parts, i + 1, (st.0, st.1, Some(value), st.3))
                    } else if is_ro_word(key) {
                        scan_fragments(parts, i + 1, (st.0, st.1, st.2, is_true_word(value)))
                    } else {
                        Err("unknown --mount key "@ + debug_str(key))
                    }
                },
            }
        }
    }
}

/// The mount a `--mount` flag asks for, before its source is resolved on
/// disk: source and target are required, the name defaults to the source's,
/// and the three are checked.
pub open spec fn mount_flag_spec(raw: Seq<char>) -> Result<MountView, Seq<char>> {
    match scan_fragments(split_spec(raw, ','), 0, (None, None, None, false)) {
        Err(e) => Err(e),
        Ok(st) => {
            match st.1 {
                None => Err(" --mount requires source=…"@),
                Some(source) => match st.2 {
                    None => Err("--mount requires target=…"@),
                    Some(target) => {
                        let name = match st.0 {
                            Some(n) => Ok(n),
                            None => default_name_spec(source),
                        };
                        match name {
                            Err(e) => Err(e),
                            Ok(n) => match validate_spec(n, source, target) {
                                Err(e) => Err(e),
                                Ok(()) => Ok((n, source, target, st.3)),
                            },
                        }
                    },
                },
            }
        },
    }
}

pub open spec fn mount_result_view(r: Result<ResolvedMount, String>) -> Result<MountView, Seq<char>> {
    match r {
        Ok(m) => Ok(mount_view(m)),
        Err(e) => Err(e@),
    }
}

pub open spec fn opt_string_view(o: Option<String>) -> Option<Seq<char>> {
    opt_view(o)
}

/// Reads a `--mount` flag (`tag=…,source=…,target=…[,ro]`). The source is
/// returned as written; making a relative one absolute and checking that it is
/// a directory is left to the caller, which has the file system.
pub fn parse_mount_flag(raw: &str) -> (r: Result<ResolvedMount, String>)
    ensures
        mount_result_view(r) == mount_flag_spec(raw@),
{
    let parts = split_char(raw, ',');
    let ghost pv = split_spec(raw@, ',');
    assert(crate::text::strings_view(parts@) == pv);
    let mut name: Option<String> = None;
    let mut source: Option<String> = None;
    let mut target: Option<String> = None;
    let mut read_only = false;
    let mut i: usize = 0;
    while i < parts.len()
        invariant
            i <= parts@.len(),
            pv == crate::text::strings_view(parts@),
            pv == split_spec(raw@, ','),
            scan_fragments(pv, 0, (None, None, None, false)) == scan_fragments(
                pv,
                i as int,
                (opt_view(name), opt_view(source), opt_view(target), read_only),
            ),
        decreases parts.len() - i,
    {
        assert(parts[i as int]@ == pv[i as int]);
        let part = trim(parts[i].as_str());
        let p = part.as_str();
        if p.unicode_len() == 0 {
        } else if str_eq(p, "ro") || str_eq(p, "read_only") || str_eq(p, "readOnly") {
            read_only = true;
        } else {
            match split_first(p, '=') {
                None => {
                    let quoted = debug_quoted(p);
                    return Err(cat3("invalid --mount fragment ", quoted.as_str(), "; expected key=value"));
                },
                Some((key, value)) => {
                    let k = key.as_str();
                    if str_eq(k, "tag") || str_eq(k, "name") {
                        name = Some(value);
                    } else if str_eq(k, "source") {
                        source = Some(value);
                    } else if str_eq(k, "target") {
                        target = Some(value);
                    } else if str_eq(k, "ro") || str_eq(k, "read_only") || str_eq(k, "readOnly") {
                        let v = value.as_str();
                        read_only = str_eq(v, "1") || str_eq(v, "true") || str_eq(v, "yes") || str_eq(v, "ro");
                    } else {
                        let quoted = debug_quoted(k);
                        return Err(cat("unknown --mount key ", quoted.as_str()));
                    }
                },
            }
        }
        i = i + 1;
    }
    let source = match source {
        Some(s) => s,
        None => {
            return Err(owned(" --mount requires source=…"));
        },
    };
    let target = match target {
        Some(t) => t,
        None => {
            return Err(owned("--mount requires target=…"));
        },
    };
    let name = match name {
        Some(n) => n,
        None => match default_mount_name(source.as_str()) {
            Ok(n) => n,
            Err(e) => {
                return Err(e);
            },
        },
    };
    match validate_resolved_mount(name.as_str(), source.as_str(), target.as_str()) {
        Ok(()) => Ok(ResolvedMount { name, source, target, read_only }),
        Err(e) => Err(e),
    }
}

/// The `--mount` flag that shares the (canonical, absolute) project
/// directory `abs` into the guest at the same path.
pub open spec fn project_mount_flag_spec(abs: Seq<char>) -> Result<Seq<char>, Seq<char>> {
    if abs.len() < 2 || abs[0] != '/' {
        Err("project dir "@ + abs + " is not a usable absolute mount target"@)
    } else {
        match validate_spec("project"@, abs, abs) {
            Err(e) => Err(e),
            Ok(()) => Ok("tag=project,source="@ + abs + ",target="@ + abs),
        }
    }
}

/// The `--mount` flag for a docker-role VM's project directory, given that
/// directory's canonical path.
pub fn docker_project_mount_flag(abs: &str) -> (r: Result<String, String>)
    ensures
        string_result_view(r) == project_mount_flag_spec(abs@),
{
    if abs.unicode_len() < 2 || abs.get_char(0) != '/' {
        return Err(cat3("project dir ", abs, " is not a usable absolute mount target"));
    }
    match validate_resolved_mount("project", abs, abs) {
        Ok(()) => {
            let head = cat3("tag=project,source=", abs, ",target=");
            Ok(cat(head.as_str(), abs))
        },
        Err(e) => Err(e),
    }
}

} // verus!
