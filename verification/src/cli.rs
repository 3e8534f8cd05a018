//! The command line of `vzctl`: exit codes, VM identifiers, sizes and the
//! options of the image, VM, events and doctor commands.
use crate::text::{
    all_digits, cat, cat3, char_count, char_is_alnum, contains_char, contains_str, count_char, digit_prefix,
    digit_prefix_len, find_first, first_char_is, first_occurrence, index_of_char, is_ascii_alnum, join,
    join_strings, last_index_of_char, lemma_digit_prefix, lines, lines_spec, lower, lower_char, owned,
    parse_unsigned, parse_unsigned_spec, push_char, rfind_char, slice, split_char, split_first, split_once_spec,
    split_spec, split_words, str_contains, str_eq, strings_view, to_lower, trim, trim_spec, words_spec,
};
use vstd::prelude::*;
use vstd::string::StringSliceAdditionalSpecFns;

verus! {

pub const EXIT_USAGE: u8 = 2;
pub const EXIT_INVALID_INPUT: u8 = 3;
pub const EXIT_INCOMPLETE_JOURNAL: u8 = 5;
pub const EXIT_LEASE_HELD: u8 = 6;
pub const EXIT_SUPERVISOR_UNHEALTHY: u8 = 10;
pub const EXIT_HOST_UNSUPPORTED: u8 = 11;
pub const EXIT_UNAVAILABLE: u8 = 12;
pub const EXIT_IMAGE_CUSTOMIZE_FAILED: u8 = 13;
pub const EXIT_IMAGE_INVARIANT_FAILED: u8 = 14;
pub const EXIT_IMAGE_STATE_FAILED: u8 = 15;
pub const EXIT_VM_DISK_PREP_FAILED: u8 = 16;
/// A host resolver could not be set up.
pub const EXIT_RESOLVER: u8 = 19;
/// A DNS query failed.
pub const EXIT_DNS_QUERY: u8 = 20;
/// An image download failed.
pub const EXIT_IMAGE_NETWORK: u8 = 21;
/// A downloaded image did not match its checksum.
pub const EXIT_IMAGE_CHECKSUM: u8 = 22;
/// An image is built for another architecture.
pub const EXIT_IMAGE_ARCH: u8 = 23;

/// Free disk space `doctor` asks for unless told otherwise, in GiB.
pub const DEFAULT_MIN_FREE_GIB: u64 = 20;
pub const DEFAULT_VM_CPUS: u32 = 2;
pub const DEFAULT_VM_MEMORY_MIB: u64 = 1024;

#[derive(Clone, Copy, Debug, PartialEq, Eq, Structural)]
pub enum OutputFormat {
    Human,
    Json,
}

/// A character a VM id segment may hold.
pub open spec fn seg_char(c: char) -> bool {
    is_ascii_alnum(c) || c == '.' || c == '_' || c == '-'
}

/// A segment of a VM id: 1 to 63 of `[A-Za-z0-9._-]`, starting with a letter or digit.
pub open spec fn valid_segment(s: Seq<char>) -> bool {
    &&& 0 < s.len() <= 63
    &&& forall|i: int| 0 <= i < s.len() ==> #[trigger] seg_char(s[i])
    &&& is_ascii_alnum(s[0])
}

/// A VM id: one segment, or a project and a VM segment joined by one `/`,
/// at most 127 characters in all.
pub open spec fn valid_vm_id_spec(id: Seq<char>) -> bool {
    &&& 0 < id.len() <= 127
    &&& match split_once_spec(id, '/') {
        None => valid_segment(id),
        Some((p, v)) => !p.contains('/') && !v.contains('/') && valid_segment(p) && valid_segment(v),
    }
}

fn seg_char_exec(c: char) -> (r: bool)
    ensures
        r == seg_char(c),
{
    char_is_alnum(c) || c == '.' || c == '_' || c == '-'
}

/// Whether `segment` is a valid VM id segment.
pub fn valid_vm_id_segment(segment: &str) -> (r: bool)
    ensures
        r == valid_segment(segment@),
{
    let n = segment.unicode_len();
    if n == 0 || n > 63 {
        return false;
    }
    let mut i: usize = 0;
    while i < n
        invariant
            n == segment@.len(),
            i <= n,
            forall|j: int| 0 <= j < i ==> #[trigger] seg_char(segment@[j]),
        decreases n - i,
    {
        if !seg_char_exec(segment.get_char(i)) {
            return false;
        }
        i = i + 1;
    }
    char_is_alnum(segment.get_char(0))
}

/// Whether `id` is a valid VM id, flat or `project/vm`.
pub fn valid_vm_id(id: &str) -> (r: bool)
    ensures
        r == valid_vm_id_spec(id@),
{
    let n = id.unicode_len();
    if n == 0 || n > 127 {
        return false;
    }
    match split_first(id, '/') {
        None => valid_vm_id_segment(id),
        Some((project, vm)) => {
            !crate::text::contains_char(project.as_str(), '/') && !crate::text::contains_char(vm.as_str(), '/')
                && valid_vm_id_segment(project.as_str()) && valid_vm_id_segment(vm.as_str())
        },
    }
}

/// The runtime id of a VM of a project.
pub fn runtime_vm_id(project: &str, name: &str) -> (r: String)
    ensures
        r@ == project@ + "/"@ + name@,
{
    cat3(project, "/", name)
}

/// The VM name of an id: what follows its last `/`.
pub open spec fn basename_spec(id: Seq<char>) -> Seq<char> {
    match last_index_of_char(id, '/') {
        Some(i) => id.subrange(i + 1, id.len() as int),
        None => id,
    }
}

/// The VM name of an id.
pub fn vm_id_basename(id: &str) -> (r: String)
    ensures
        r@ == basename_spec(id@),
{
    let n = id.unicode_len();
    match rfind_char(id, '/') {
        Some(i) => slice(id, i + 1, n),
        None => owned(id),
    }
}

/// The id a new VM gets: a flat id goes into the project's namespace; an id
/// with a prefix must name the project.
pub open spec fn resolve_id_spec(id: Seq<char>, project: Option<Seq<char>>) -> Result<Seq<char>, Seq<char>> {
    match project {
        None => Ok(id),
        Some(p) => if p.len() == 0 {
            Ok(id)
        } else if !valid_segment(p) {
            Err("invalid --project name: "@ + p)
        } else {
            match index_of_char(id, '/') {
                None => {
                    let ns = p + "/"@ + id;
                    if valid_vm_id_spec(ns) {
                        Ok(ns)
                    } else {
                        Err("namespaced vm id is invalid: "@ + ns)
                    }
                },
                Some(i) => if id.subrange(0, i) == p {
                    Ok(id)
                } else {
                    Err("vm id "@ + id + " does not match --project "@ + p + " (expected "@ + p + "/…)"@)
                },
            }
        },
    }
}

pub open spec fn opt_str_view(o: Option<&str>) -> Option<Seq<char>> {
    match o {
        Some(s) => Some(s@),
        None => None,
    }
}

pub open spec fn str_result_view(r: Result<String, String>) -> Result<Seq<char>, Seq<char>> {
    match r {
        Ok(v) => Ok(v@),
        Err(e) => Err(e@),
    }
}

/// The id of a VM being created in an optional project.
pub fn resolve_create_vm_id(id: &str, project: Option<&str>) -> (r: Result<String, String>)
    ensures
        str_result_view(r) == resolve_id_spec(id@, opt_str_view(project)),
{
    let p = match project {
        None => return Ok(owned(id)),
        Some(p) => p,
    };
    if p.unicode_len() == 0 {
        return Ok(owned(id));
    }
    if !valid_vm_id_segment(p) {
        return Err(cat("invalid --project name: ", p));
    }
    proof {
        crate::text::lemma_index_of_char(id@, '/');
    }
    match split_first(id, '/') {
        None => {
            let ns = runtime_vm_id(p, id);
            if valid_vm_id(ns.as_str()) {
                Ok(ns)
            } else {
                Err(cat("namespaced vm id is invalid: ", ns.as_str()))
            }
        },
        Some((prefix, _)) => {
            if str_eq(prefix.as_str(), p) {
                Ok(owned(id))
            } else {
                let a = cat3("vm id ", id, " does not match --project ");
                let b = cat3(a.as_str(), p, " (expected ");
                Err(cat3(b.as_str(), p, "/…)"))
            }
        },
    }
}

/// Memory in MiB: a bare number of MiB, or digits followed by a unit of M,
/// MB, Mi or MiB, of G, GB, Gi or GiB (times 1024), or of T, TB, Ti or TiB
/// (times 1024²), in any case; zero is refused.
pub open spec fn memory_spec(v: Seq<char>) -> Result<u64, Seq<char>> {
    if v.len() == 0 {
        Err("invalid --memory: empty"@)
    } else if all_digits(v) {
        match parse_unsigned_spec(v, u64::MAX as nat) {
            None => Err("invalid --memory: "@ + v),
            Some(n) => if n == 0 {
                Err("--memory must be greater than zero"@)
            } else {
                Ok(n as u64)
            },
        }
    } else {
        let k = digit_prefix_len(v) as int;
        match parse_unsigned_spec(v.subrange(0, k), u64::MAX as nat) {
            None => Err("invalid --memory: "@ + v),
            Some(n) => if n == 0 {
                Err("--memory must be greater than zero"@)
            } else {
                let unit = lower(v.subrange(k, v.len() as int));
                if unit == "m"@ || unit == "mb"@ || unit == "mi"@ || unit == "mib"@ {
                    Ok(n as u64)
                } else if unit == "g"@ || unit == "gb"@ || unit == "gi"@ || unit == "gib"@ {
                    if n * 1024 <= u64::MAX {
                        Ok((n * 1024) as u64)
                    } else {
                        Err("--memory is too large"@)
                    }
                } else if unit == "t"@ || unit == "tb"@ || unit == "ti"@ || unit == "tib"@ {
                    if n * 1048576 <= u64::MAX {
                        Ok((n * 1048576) as u64)
                    } else {
                        Err("--memory is too large"@)
                    }
                } else {
                    Err("--memory must use MiB/GiB/TiB or a bare MiB integer: "@ + v)
                }
            },
        }
    }
}

/// Reads a memory size in MiB.
pub fn parse_memory_mib(value: &str) -> (r: Result<u64, String>)
    ensures
        match memory_spec(value@) {
            Ok(n) => r == Ok::<u64, String>(n),
            Err(m) => r matches Err(e) && e@ == m,
        },
{
    let n = value.unicode_len();
    if n == 0 {
        return Err(owned("invalid --memory: empty"));
    }
    let k = digit_prefix(value);
    proof {
        lemma_digit_prefix(value@);
    }
    if k == n {
        assert(all_digits(value@));
        return match parse_unsigned(value, u64::MAX) {
            None => Err(cat("invalid --memory: ", value)),
            Some(mib) => if mib == 0 {
                Err(owned("--memory must be greater than zero"))
            } else {
                Ok(mib)
            },
        };
    }
    assert(!all_digits(value@)) by {
        assert(!crate::text::is_digit(value@[k as int]));
    }
    let digits = slice(value, 0, k);
    let number = match parse_unsigned(digits.as_str(), u64::MAX) {
        Some(v) => v,
        None => return Err(cat("invalid --memory: ", value)),
    };
    if number == 0 {
        return Err(owned("--memory must be greater than zero"));
    }
    let rest = slice(value, k, n);
    let unit_string = to_lower(rest.as_str());
    let unit = unit_string.as_str();
    if str_eq(unit, "m") || str_eq(unit, "mb") || str_eq(unit, "mi") || str_eq(unit, "mib") {
        Ok(number)
    } else if str_eq(unit, "g") || str_eq(unit, "gb") || str_eq(unit, "gi") || str_eq(unit, "gib") {
        match number.checked_mul(1024) {
            Some(v) => Ok(v),
            None => Err(owned("--memory is too large")),
        }
    } else if str_eq(unit, "t") || str_eq(unit, "tb") || str_eq(unit, "ti") || str_eq(unit, "tib") {
        match number.checked_mul(1048576) {
            Some(v) => Ok(v),
            None => Err(owned("--memory is too large")),
        }
    } else {
        Err(cat("--memory must use MiB/GiB/TiB or a bare MiB integer: ", value))
    }
}

/// Lowered, with `_` turned into `-`.
pub open spec fn host_char(c: char) -> char {
    if c == '_' {
        '-'
    } else {
        lower_char(c)
    }
}

/// `s` without leading and trailing `-`.
pub open spec fn trim_dashes_start(s: Seq<char>) -> Seq<char>
    decreases s.len(),
{
    if s.len() > 0 && s[0] == '-' {
        trim_dashes_start(s.drop_first())
    } else {
        s
    }
}

pub open spec fn trim_dashes_end(s: Seq<char>) -> Seq<char>
    decreases s.len(),
{
    if s.len() > 0 && s.last() == '-' {
        trim_dashes_end(s.drop_last())
    } else {
        s
    }
}

pub open spec fn trim_dashes(s: Seq<char>) -> Seq<char> {
    trim_dashes_end(trim_dashes_start(s))
}

/// The labels that stay: each trimmed of dashes, empty ones dropped.
pub open spec fn host_labels(ls: Seq<Seq<char>>) -> Seq<Seq<char>>
    decreases ls.len(),
{
    if ls.len() == 0 {
        Seq::empty()
    } else {
        let prev = host_labels(ls.drop_last());
        let t = trim_dashes(ls.last());
        if t.len() == 0 {
            prev
        } else {
            prev.push(t)
        }
    }
}

/// The host name cloud-init gets for a VM: its name lowered, with `_` as `-`,
/// its dot-separated labels trimmed of dashes and empty ones dropped; `vm`
/// when nothing is left.
pub open spec fn fqdn_spec(vm_id: Seq<char>) -> Seq<char> {
    let normalized = basename_spec(vm_id).map_values(|c: char| host_char(c));
    let labels = host_labels(split_spec(normalized, '.'));
    if labels.len() == 0 {
        "vm"@
    } else {
        join(labels, "."@)
    }
}

fn trim_dashes_exec(s: &str) -> (r: String)
    ensures
        r@ == trim_dashes(s@),
{
    let n = s.unicode_len();
    let mut a: usize = 0;
    assert(s@.skip(0) =~= s@);
    while a < n && s.get_char(a) == '-'
        invariant
            n == s@.len(),
            a <= n,
            trim_dashes_start(s@) == trim_dashes_start(s@.skip(a as int)),
        decreases n - a,
    {
        assert(s@.skip(a as int).drop_first() =~= s@.skip(a + 1));
        a = a + 1;
    }
    assert(trim_dashes_start(s@.skip(a as int)) == s@.skip(a as int));
    let mut b: usize = n;
    assert(s@.subrange(a as int, n as int) =~= s@.skip(a as int));
    while b > a && s.get_char(b - 1) == '-'
        invariant
            n == s@.len(),
            a <= b <= n,
            trim_dashes_end(s@.skip(a as int)) == trim_dashes_end(s@.subrange(a as int, b as int)),
        decreases b,
    {
        assert(s@.subrange(a as int, b as int).drop_last() =~= s@.subrange(a as int, b - 1));
        b = b - 1;
    }
    slice(s, a, b)
}

/// The host name cloud-init gets for a VM.
pub fn cloud_init_fqdn(vm_id: &str) -> (r: String)
    ensures
        r@ == fqdn_spec(vm_id@),
{
    let base = vm_id_basename(vm_id);
    let n = base.unicode_len();
    let mut normalized = String::new();
    let mut i: usize = 0;
    while i < n
        invariant
            n == base@.len(),
            i <= n,
            normalized@ == base@.subrange(0, i as int).map_values(|c: char| host_char(c)),
        decreases n - i,
    {
        let c = base.as_str().get_char(i);
        let h = if c == '_' {
            '-'
        } else {
            crate::text::char_lower(c)
        };
        push_char(&mut normalized, h);
        assert(base@.subrange(0, i + 1).map_values(|c: char| host_char(c)) =~= base@.subrange(
            0,
            i as int,
        ).map_values(|c: char| host_char(c)).push(h));
        i = i + 1;
    }
    assert(base@.subrange(0, n as int) =~= base@);
    let pieces = split_char(normalized.as_str(), '.');
    let ghost pv = strings_view(pieces@);
    let mut labels: Vec<String> = Vec::new();
    let mut k: usize = 0;
    while k < pieces.len()
        invariant
            k <= pieces@.len(),
            pv == strings_view(pieces@),
            strings_view(labels@) == host_labels(pv.subrange(0, k as int)),
        decreases pieces.len() - k,
    {
        let t = trim_dashes_exec(pieces[k].as_str());
        let ghost pre = pv.subrange(0, k + 1);
        assert(pre.drop_last() =~= pv.subrange(0, k as int));
        assert(pre.last() == pieces@[k as int]@);
        if t.unicode_len() > 0 {
            let ghost before = strings_view(labels@);
            labels.push(t);
            assert(strings_view(labels@) =~= before.push(t@));
        }
        k = k + 1;
    }
    assert(pv.subrange(0, pieces@.len() as int) =~= pv);
    if labels.len() == 0 {
        owned("vm")
    } else {
        join_strings(&labels, ".")
    }
}

/// The character of a base64url digit.
pub open spec fn b64_char(v: int) -> char {
    if v < 26 {
        (('A' as int) + v) as char
    } else if v < 52 {
        (('a' as int) + v - 26) as char
    } else if v < 62 {
        (('0' as int) + v - 52) as char
    } else if v == 62 {
        '-'
    } else {
        '_'
    }
}

/// Unpadded base64url: each group of three bytes gives four digits, a last
/// group of one or two bytes gives two or three.
pub open spec fn base64url_spec(b: Seq<u8>) -> Seq<char>
    decreases b.len(),
{
    if b.len() == 0 {
        Seq::empty()
    } else {
        let b0 = b[0] as int;
        let b1 = if b.len() > 1 { b[1] as int } else { 0 };
        let b2 = if b.len() > 2 { b[2] as int } else { 0 };
        let d0 = b64_char(b0 / 4);
        let d1 = b64_char((b0 % 4) * 16 + b1 / 16);
        let d2 = b64_char((b1 % 16) * 4 + b2 / 64);
        let d3 = b64_char(b2 % 64);
        if b.len() == 1 {
            seq![d0, d1]
        } else if b.len() == 2 {
            seq![d0, d1, d2]
        } else {
            seq![d0, d1, d2, d3] + base64url_spec(b.subrange(3, b.len() as int))
        }
    }
}

fn b64_digit(v: u32) -> (c: char)
    requires
        v < 64,
    ensures
        c == b64_char(v as int),
{
    if v < 26 {
        ((65 + v) as u8) as char
    } else if v < 52 {
        ((97 + v - 26) as u8) as char
    } else if v < 62 {
        ((48 + v - 52) as u8) as char
    } else if v == 62 {
        '-'
    } else {
        '_'
    }
}

/// Unpadded base64url of `bytes`.
pub fn base64url_unpadded(bytes: &[u8]) -> (r: String)
    ensures
        r@ == base64url_spec(bytes@),
{
    let n = bytes.len();
    let mut out = String::new();
    let mut i: usize = 0;
    assert(bytes@.subrange(0, n as int) =~= bytes@);
    assert(Seq::<char>::empty() + base64url_spec(bytes@) =~= base64url_spec(bytes@));
    while i < n
        invariant
            n == bytes@.len(),
            i <= n,
            base64url_spec(bytes@) == out@ + base64url_spec(bytes@.subrange(i as int, n as int)),
        decreases n - i,
    {
        let ghost rest = bytes@.subrange(i as int, n as int);
        let b0: u32 = bytes[i] as u32;
        let b1: u32 = if n - i > 1 {
            bytes[i + 1] as u32
        } else {
            0
        };
        let b2: u32 = if n - i > 2 {
            bytes[i + 2] as u32
        } else {
            0
        };
        assert(rest[0] == bytes@[i as int]);
        assert(n - i > 1 ==> rest[1] == bytes@[i + 1]);
        assert(n - i > 2 ==> rest[2] == bytes@[i + 2]);
        let d0 = b64_digit(b0 / 4);
        let d1 = b64_digit((b0 % 4) * 16 + b1 / 16);
        let d2 = b64_digit((b1 % 16) * 4 + b2 / 64);
        let d3 = b64_digit(b2 % 64);
        let ghost before = out@;
        push_char(&mut out, d0);
        push_char(&mut out, d1);
        if n - i == 1 {
            assert(rest.len() == 1);
            assert(base64url_spec(bytes@.subrange(n as int, n as int)) =~= Seq::<char>::empty());
            assert(out@ =~= before + seq![d0, d1]);
            i = n;
        } else if n - i == 2 {
            push_char(&mut out, d2);
            assert(rest.len() == 2);
            assert(base64url_spec(bytes@.subrange(n as int, n as int)) =~= Seq::<char>::empty());
            assert(out@ =~= before + seq![d0, d1, d2]);
            i = n;
        } else {
            push_char(&mut out, d2);
            push_char(&mut out, d3);
            assert(rest.subrange(3, rest.len() as int) =~= bytes@.subrange(i + 3, n as int));
            assert(out@ =~= before + seq![d0, d1, d2, d3]);
            i = i + 3;
        }
    }
    assert(bytes@.subrange(n as int, n as int) =~= Seq::<u8>::empty());
    assert(out@ + Seq::<char>::empty() =~= out@);
    out
}


/// A pattern of an event filter: not empty, at most one `*`, and a `*` only at the end.
pub open spec fn event_pattern_ok(p: Seq<char>) -> bool {
    &&& p.len() > 0
    &&& count_char(p, '*') <= 1
    &&& (!p.contains('*') || p.last() == '*')
}

/// An event filter: a comma-separated list of patterns, each trimmed.
pub open spec fn event_filter_spec(e: Seq<char>) -> bool {
    let pieces = split_spec(e, ',');
    pieces.len() > 0 && forall|i: int| 0 <= i < pieces.len() ==> #[trigger] event_pattern_ok(trim_spec(pieces[i]))
}

/// Whether `expression` is a valid event filter.
pub fn valid_event_filter(expression: &str) -> (r: bool)
    ensures
        r == event_filter_spec(expression@),
{
    let pieces = split_char(expression, ',');
    let ghost pv = split_spec(expression@, ',');
    proof {
        crate::text::lemma_split_nonempty(expression@, ',');
    }
    if pieces.len() == 0 {
        return false;
    }
    let mut i: usize = 0;
    while i < pieces.len()
        invariant
            i <= pieces@.len(),
            pv == split_spec(expression@, ','),
            strings_view(pieces@) == pv,
            forall|j: int| 0 <= j < i ==> #[trigger] event_pattern_ok(trim_spec(pv[j])),
        decreases pieces.len() - i,
    {
        let p = trim(pieces[i].as_str());
        assert(pieces@[i as int]@ == pv[i as int]);
        let n = p.unicode_len();
        let ok = n > 0 && char_count(p.as_str(), '*') <= 1 && (!contains_char(p.as_str(), '*') || p.as_str().get_char(
            n - 1,
        ) == '*');
        assert(p@ == trim_spec(pv[i as int]));
        assert(ok == event_pattern_ok(p@)) by {
            if n > 0 {
                assert(p@.last() == p@[n - 1]);
            }
        }
        if !ok {
            assert(!event_pattern_ok(trim_spec(pv[i as int])));
            return false;
        }
        i = i + 1;
    }
    true
}

/// What `events subscribe` was asked for.
#[derive(Debug, PartialEq, Eq)]
pub struct EventsOptions {
    pub filter: Option<String>,
}

/// The filter of the arguments from `i` on, given the one read before.
pub open spec fn scan_events(args: Seq<Seq<char>>, i: int, filter: Option<Seq<char>>) -> Result<Option<Seq<char>>, (Seq<char>, u8)>
    decreases args.len() - i,
{
    if i >= args.len() || i < 0 {
        Ok(filter)
    } else if args[i] == "--filter"@ {
        if i + 1 < args.len() {
            if event_filter_spec(args[i + 1]) {
                scan_events(args, i + 2, Some(args[i + 1]))
            } else {
                Err(("invalid event filter: "@ + args[i + 1], EXIT_INVALID_INPUT))
            }
        } else {
            Err(("--filter requires a pattern"@, EXIT_USAGE))
        }
    } else {
        Err(("unknown events subscribe option: "@ + args[i], EXIT_USAGE))
    }
}

pub open spec fn opt_string_view(o: Option<String>) -> Option<Seq<char>> {
    match o {
        Some(s) => Some(s@),
        None => None,
    }
}

/// Reads the options of `events subscribe`.
pub fn parse_events_options(args: &[String]) -> (r: Result<EventsOptions, (String, u8)>)
    ensures
        match scan_events(strings_view(args@), 0, None) {
            Ok(f) => r matches Ok(o) && opt_string_view(o.filter) == f,
            Err((m, c)) => r matches Err(e) && e.0@ == m && e.1 == c,
        },
{
    let ghost av = strings_view(args@);
    let mut filter: Option<String> = None;
    let mut i: usize = 0;
    while i < args.len()
        invariant
            i <= args@.len(),
            av == strings_view(args@),
            scan_events(av, 0, None) == scan_events(av, i as int, opt_string_view(filter)),
        decreases args.len() - i,
    {
        let a = args[i].as_str();
        assert(a@ == av[i as int]);
        if !str_eq(a, "--filter") {
            return Err((cat("unknown events subscribe option: ", a), EXIT_USAGE));
        }
        if i + 1 >= args.len() {
            return Err((owned("--filter requires a pattern"), EXIT_USAGE));
        }
        let v = args[i + 1].as_str();
        assert(v@ == av[i + 1]);
        if !valid_event_filter(v) {
            return Err((cat("invalid event filter: ", v), EXIT_INVALID_INPUT));
        }
        filter = Some(owned(v));
        i = i + 2;
    }
    Ok(EventsOptions { filter })
}

/// The code-signing output grants the virtualization entitlement: after the
/// entitlement's key, some form of `true` follows.
pub open spec fn entitlement_spec(output: Seq<char>) -> bool {
    match first_occurrence(output, "com.apple.security.virtualization"@) {
        None => false,
        Some(k) => {
            let rest = output.subrange(k, output.len() as int);
            contains_str(rest, "<true/>"@) || contains_str(rest, "<true />"@) || contains_str(rest, "= 1"@)
                || contains_str(rest, "true"@)
        },
    }
}

/// Whether code-signing output grants the virtualization entitlement.
pub fn has_virtualization_entitlement(output: &str) -> (r: bool)
    ensures
        r == entitlement_spec(output@),
{
    let k = match find_first(output, "com.apple.security.virtualization") {
        Some(k) => k,
        None => return false,
    };
    let rest = slice(output, k, output.unicode_len());
    str_contains(rest.as_str(), "<true/>") || str_contains(rest.as_str(), "<true />") || str_contains(
        rest.as_str(),
        "= 1",
    ) || str_contains(rest.as_str(), "true")
}

/// The text before the first `,` of `s`, or all of it.
pub open spec fn first_piece(s: Seq<char>) -> Seq<char> {
    match index_of_char(s, ',') {
        Some(j) => s.subrange(0, j),
        None => s,
    }
}

/// The filesystem of the first line that mounts something on `marker`'s
/// mount point: the first option in its brackets, trimmed.
pub open spec fn first_fs(ls: Seq<Seq<char>>, marker: Seq<char>) -> Option<Seq<char>>
    decreases ls.len(),
{
    if ls.len() == 0 {
        None
    } else {
        match first_occurrence(ls[0], marker) {
            Some(i) => Some(trim_spec(first_piece(ls[0].subrange(i + marker.len(), ls[0].len() as int)))),
            None => first_fs(ls.drop_first(), marker),
        }
    }
}

pub open spec fn mount_marker(mount_point: Seq<char>) -> Seq<char> {
    " on "@ + mount_point + " ("@
}

/// The filesystem type that `mount` output gives for a mount point.
pub fn filesystem_for_mount_point(mounts: &str, mount_point: &str) -> (r: Option<String>)
    ensures
        opt_string_view(r) == first_fs(lines_spec(mounts@), mount_marker(mount_point@)),
{
    let marker = cat3(" on ", mount_point, " (");
    let ls = lines(mounts);
    let ghost lv = strings_view(ls@);
    let mut i: usize = 0;
    assert(lv.skip(0) =~= lv);
    while i < ls.len()
        invariant
            i <= ls@.len(),
            lv == strings_view(ls@),
            lv == lines_spec(mounts@),
            marker@ == mount_marker(mount_point@),
            first_fs(lv, marker@) == first_fs(lv.skip(i as int), marker@),
        decreases ls.len() - i,
    {
        let line = ls[i].as_str();
        assert(line@ == lv[i as int]);
        assert(lv.skip(i as int)[0] == lv[i as int]);
        match find_first(line, marker.as_str()) {
            Some(k) => {
                let n = line.unicode_len();
                let options = slice(line, k + marker.unicode_len(), n);
                let first = match split_first(options.as_str(), ',') {
                    Some((a, _)) => a,
                    None => options.clone(),
                };
                proof {
                    crate::text::lemma_index_of_char(options@, ',');
                }
                return Some(trim(first.as_str()));
            },
            None => {
                assert(lv.skip(i as int).drop_first() =~= lv.skip(i + 1));
            },
        }
        i = i + 1;
    }
    None
}

/// The last line of `ls` that is not blank.
pub open spec fn last_nonblank(ls: Seq<Seq<char>>) -> Option<Seq<char>>
    decreases ls.len(),
{
    if ls.len() == 0 {
        None
    } else if trim_spec(ls.last()).len() > 0 {
        Some(ls.last())
    } else {
        last_nonblank(ls.drop_last())
    }
}

/// The available KiB of a `df -k` report: the fourth column of its last line.
pub open spec fn df_available_spec(output: Seq<char>) -> Option<u64> {
    match last_nonblank(lines_spec(output)) {
        None => None,
        Some(line) => {
            let w = words_spec(line);
            if w.len() > 3 {
                match parse_unsigned_spec(w[3], u64::MAX as nat) {
                    Some(v) => Some(v as u64),
                    None => None,
                }
            } else {
                None
            }
        },
    }
}

/// The available KiB that `df -k` reports.
pub fn parse_df_available_kib(output: &str) -> (r: Option<u64>)
    ensures
        r == df_available_spec(output@),
{
    let ls = lines(output);
    let ghost lv = strings_view(ls@);
    let mut i: usize = ls.len();
    assert(lv.subrange(0, i as int) =~= lv);
    while i > 0
        invariant
            i <= ls@.len(),
            lv == strings_view(ls@),
            lv == lines_spec(output@),
            last_nonblank(lv) == last_nonblank(lv.subrange(0, i as int)),
        decreases i,
    {
        let ghost pre = lv.subrange(0, i as int);
        assert(pre.drop_last() =~= lv.subrange(0, i - 1));
        assert(pre.last() == ls@[i - 1]@);
        let t = trim(ls[i - 1].as_str());
        if t.unicode_len() > 0 {
            let words = split_words(ls[i - 1].as_str());
            if words.len() > 3 {
                return parse_unsigned(words[3].as_str(), u64::MAX);
            }
            return None;
        }
        i = i - 1;
    }
    assert(lv.subrange(0, 0) =~= Seq::<Seq<char>>::empty());
    None
}

/// What `image pull` was asked for.
#[derive(Debug, PartialEq, Eq)]
pub struct ImagePullOptions {
    pub alias: String,
    pub format: OutputFormat,
}

/// A failed image command: its exit code and message.
#[derive(Debug)]
pub struct ImageFailure {
    pub code: u8,
    pub message: String,
}

pub open spec fn pull_usage() -> Seq<char> {
    "usage: vzctl image pull <alias> [--format human|json]"@
}

/// The options of the arguments from `i` on, given what was read before.
pub open spec fn scan_pull(args: Seq<Seq<char>>, i: int, alias: Option<Seq<char>>, format: OutputFormat) -> Result<
    (Seq<char>, OutputFormat),
    (u8, Seq<char>),
>
    decreases args.len() - i,
{
    if i >= args.len() || i < 0 {
        match alias {
            Some(a) => Ok((a, format)),
            None => Err((EXIT_USAGE, pull_usage())),
        }
    } else {
        let a = args[i];
        if a == "--format"@ {
            if i + 1 < args.len() {
                let v = args[i + 1];
                if v == "human"@ {
                    scan_pull(args, i + 2, alias, OutputFormat::Human)
                } else if v == "json"@ {
                    scan_pull(args, i + 2, alias, OutputFormat::Json)
                } else {
                    Err((EXIT_USAGE, "unsupported image pull format: "@ + v))
                }
            } else {
                Err((EXIT_USAGE, "--format requires human or json"@))
            }
        } else if a == "-h"@ || a == "--help"@ {
            Err((EXIT_USAGE, pull_usage()))
        } else if a.len() > 0 && a[0] == '-' {
            Err((EXIT_USAGE, "unknown image pull option: "@ + a))
        } else if alias.is_none() {
            scan_pull(args, i + 1, Some(a), format)
        } else {
            Err((EXIT_USAGE, "unexpected image pull argument: "@ + a))
        }
    }
}

/// Reads the options of `image pull`.
pub fn parse_image_pull_options(args: &[String]) -> (r: Result<ImagePullOptions, ImageFailure>)
    ensures
        match scan_pull(strings_view(args@), 0, None, OutputFormat::Human) {
            Ok((a, f)) => r matches Ok(o) && o.alias@ == a && o.format == f,
            Err((c, m)) => r matches Err(e) && e.code == c && e.message@ == m,
        },
{
    let ghost av = strings_view(args@);
    let mut alias: Option<String> = None;
    let mut format = OutputFormat::Human;
    let mut i: usize = 0;
    while i < args.len()
        invariant
            i <= args@.len(),
            av == strings_view(args@),
            scan_pull(av, 0, None, OutputFormat::Human) == scan_pull(av, i as int, opt_string_view(alias), format),
        decreases args.len() - i,
    {
        let a = args[i].as_str();
        assert(a@ == av[i as int]);
        if str_eq(a, "--format") {
            if i + 1 >= args.len() {
                return Err(ImageFailure { code: EXIT_USAGE, message: owned("--format requires human or json") });
            }
            let v = args[i + 1].as_str();
            assert(v@ == av[i + 1]);
            if str_eq(v, "human") {
                format = OutputFormat::Human;
            } else if str_eq(v, "json") {
                format = OutputFormat::Json;
            } else {
                return Err(ImageFailure { code: EXIT_USAGE, message: cat("unsupported image pull format: ", v) });
            }
            i = i + 2;
        } else if str_eq(a, "-h") || str_eq(a, "--help") {
            return Err(
                ImageFailure { code: EXIT_USAGE, message: owned("usage: vzctl image pull <alias> [--format human|json]") },
            );
        } else if first_char_is(a, '-') {
            return Err(ImageFailure { code: EXIT_USAGE, message: cat("unknown image pull option: ", a) });
        } else if alias.is_none() {
            alias = Some(owned(a));
            i = i + 1;
        } else {
            return Err(ImageFailure { code: EXIT_USAGE, message: cat("unexpected image pull argument: ", a) });
        }
    }
    match alias {
        Some(alias) => Ok(ImagePullOptions { alias, format }),
        None => Err(
            ImageFailure { code: EXIT_USAGE, message: owned("usage: vzctl image pull <alias> [--format human|json]") },
        ),
    }
}

/// An image tag: 1 to 64 of `[A-Za-z0-9._-]`, starting with a letter or digit.
pub open spec fn image_tag_spec(t: Seq<char>) -> bool {
    &&& 0 < t.len() <= 64
    &&& is_ascii_alnum(t[0])
    &&& forall|i: int| 0 <= i < t.len() ==> #[trigger] seg_char(t[i])
}

/// Whether `tag` is a valid image tag.
pub fn valid_image_tag(tag: &str) -> (r: bool)
    ensures
        r == image_tag_spec(tag@),
{
    let n = tag.unicode_len();
    if n == 0 || n > 64 || !char_is_alnum(tag.get_char(0)) {
        return false;
    }
    let mut i: usize = 0;
    while i < n
        invariant
            n == tag@.len(),
            i <= n,
            forall|j: int| 0 <= j < i ==> #[trigger] seg_char(tag@[j]),
        decreases n - i,
    {
        if !seg_char_exec(tag.get_char(i)) {
            return false;
        }
        i = i + 1;
    }
    true
}

/// What `image seal` was asked for.
#[derive(Debug, PartialEq, Eq)]
pub struct ImageSealOptions {
    pub input: String,
    pub tag: Option<String>,
    pub format: OutputFormat,
}

/// What `image bake` was asked for.
#[derive(Debug, PartialEq, Eq)]
pub struct ImageBakeOptions {
    pub alias: String,
    pub tag: String,
    pub format: OutputFormat,
}

pub open spec fn seal_usage() -> Seq<char> {
    "usage: vzctl image seal <name|path> --tag <tag> [--format human|json]"@
}

pub open spec fn bake_usage() -> Seq<char> {
    "usage: vzctl image bake <alias> --tag <tag> [--format human|json]"@
}

/// The options of `image <cmd>` from argument `i` on, given what was read
/// before: one positional input, a required valid `--tag`, and `--format`.
pub open spec fn scan_tagged(
    args: Seq<Seq<char>>,
    i: int,
    input: Option<Seq<char>>,
    tag: Option<Seq<char>>,
    format: OutputFormat,
    cmd: Seq<char>,
    usage: Seq<char>,
) -> Result<(Seq<char>, Seq<char>, OutputFormat), (u8, Seq<char>)>
    decreases args.len() - i,
{
    if i >= args.len() || i < 0 {
        match input {
            None => Err((EXIT_USAGE, usage)),
            Some(inp) => match tag {
                None => Err((EXIT_USAGE, "image "@ + cmd + " requires --tag <tag>"@)),
                Some(t) => Ok((inp, t, format)),
            },
        }
    } else {
        let a = args[i];
        if a == "--tag"@ {
            if i + 1 < args.len() {
                let v = args[i + 1];
                if image_tag_spec(v) {
                    scan_tagged(args, i + 2, input, Some(v), format, cmd, usage)
                } else {
                    Err((EXIT_USAGE, "invalid image tag "@ + v + "; expected 1-64 [A-Za-z0-9][A-Za-z0-9._-]*"@))
                }
            } else {
                Err((EXIT_USAGE, "--tag requires a value"@))
            }
        } else if a == "--format"@ {
            if i + 1 < args.len() {
                let v = args[i + 1];
                if v == "human"@ {
                    scan_tagged(args, i + 2, input, tag, OutputFormat::Human, cmd, usage)
                } else if v == "json"@ {
                    scan_tagged(args, i + 2, input, tag, OutputFormat::Json, cmd, usage)
                } else {
                    Err((EXIT_USAGE, "unsupported image "@ + cmd + " format: "@ + v))
                }
            } else {
                Err((EXIT_USAGE, "--format requires human or json"@))
            }
        } else if a == "-h"@ || a == "--help"@ {
            Err((EXIT_USAGE, usage))
        } else if a.len() > 0 && a[0] == '-' {
            Err((EXIT_USAGE, "unknown image "@ + cmd + " option: "@ + a))
        } else if input.is_none() {
            scan_tagged(args, i + 1, Some(a), tag, format, cmd, usage)
        } else {
            Err((EXIT_USAGE, "unexpected image "@ + cmd + " argument: "@ + a))
        }
    }
}

fn image_message(head: &str, cmd: &str, tail: &str, rest: &str) -> (r: String)
    ensures
        r@ == head@ + cmd@ + tail@ + rest@,
{
    let mut m = cat3(head, cmd, tail);
    m.append(rest);
    m
}

/// Reads the options of `image seal` and `image bake`, which differ only in
/// the command word and the usage text.
fn parse_tagged(args: &[String], cmd: &str, usage: &str) -> (r: Result<(String, String, OutputFormat), ImageFailure>)
    ensures
        match scan_tagged(strings_view(args@), 0, None, None, OutputFormat::Human, cmd@, usage@) {
            Ok((inp, t, f)) => r matches Ok(o) && o.0@ == inp && o.1@ == t && o.2 == f,
            Err((c, m)) => r matches Err(e) && e.code == c && e.message@ == m,
        },
{
    let ghost av = strings_view(args@);
    let mut input: Option<String> = None;
    let mut tag: Option<String> = None;
    let mut format = OutputFormat::Human;
    let mut i: usize = 0;
    while i < args.len()
        invariant
            i <= args@.len(),
            av == strings_view(args@),
            scan_tagged(av, 0, None, None, OutputFormat::Human, cmd@, usage@) == scan_tagged(
                av,
                i as int,
                opt_string_view(input),
                opt_string_view(tag),
                format,
                cmd@,
                usage@,
            ),
        decreases args.len() - i,
    {
        let a = args[i].as_str();
        assert(a@ == av[i as int]);
        if str_eq(a, "--tag") {
            if i + 1 >= args.len() {
                return Err(ImageFailure { code: EXIT_USAGE, message: owned("--tag requires a value") });
            }
            let v = args[i + 1].as_str();
            assert(v@ == av[i + 1]);
            if !valid_image_tag(v) {
                let m = cat3("invalid image tag ", v, "; expected 1-64 [A-Za-z0-9][A-Za-z0-9._-]*");
                return Err(ImageFailure { code: EXIT_USAGE, message: m });
            }
            tag = Some(owned(v));
            i = i + 2;
        } else if str_eq(a, "--format") {
            if i + 1 >= args.len() {
                return Err(ImageFailure { code: EXIT_USAGE, message: owned("--format requires human or json") });
            }
            let v = args[i + 1].as_str();
            assert(v@ == av[i + 1]);
            if str_eq(v, "human") {
                format = OutputFormat::Human;
            } else if str_eq(v, "json") {
                format = OutputFormat::Json;
            } else {
                return Err(ImageFailure { code: EXIT_USAGE, message: image_message("unsupported image ", cmd, " format: ", v) });
            }
            i = i + 2;
        } else if str_eq(a, "-h") || str_eq(a, "--help") {
            return Err(ImageFailure { code: EXIT_USAGE, message: owned(usage) });
        } else if first_char_is(a, '-') {
            return Err(ImageFailure { code: EXIT_USAGE, message: image_message("unknown image ", cmd, " option: ", a) });
        } else if input.is_none() {
            input = Some(owned(a));
            i = i + 1;
        } else {
            return Err(ImageFailure { code: EXIT_USAGE, message: image_message("unexpected image ", cmd, " argument: ", a) });
        }
    }
    let input = match input {
        Some(v) => v,
        None => {
            return Err(ImageFailure { code: EXIT_USAGE, message: owned(usage) });
        },
    };
    match tag {
        Some(t) => Ok((input, t, format)),
        None => Err(ImageFailure { code: EXIT_USAGE, message: cat3("image ", cmd, " requires --tag <tag>") }),
    }
}

/// Reads the options of `image seal`.
pub fn parse_image_seal_options(args: &[String]) -> (r: Result<ImageSealOptions, ImageFailure>)
    ensures
        match scan_tagged(strings_view(args@), 0, None, None, OutputFormat::Human, "seal"@, seal_usage()) {
            Ok((inp, t, f)) => r matches Ok(o) && o.input@ == inp && opt_string_view(o.tag) == Some(t) && o.format
                == f,
            Err((c, m)) => r matches Err(e) && e.code == c && e.message@ == m,
        },
{
    match parse_tagged(args, "seal", "usage: vzctl image seal <name|path> --tag <tag> [--format human|json]") {
        Ok((input, tag, format)) => Ok(ImageSealOptions { input, tag: Some(tag), format }),
        Err(e) => Err(e),
    }
}

/// Reads the options of `image bake`.
pub fn parse_image_bake_options(args: &[String]) -> (r: Result<ImageBakeOptions, ImageFailure>)
    ensures
        match scan_tagged(strings_view(args@), 0, None, None, OutputFormat::Human, "bake"@, bake_usage()) {
            Ok((a, t, f)) => r matches Ok(o) && o.alias@ == a && o.tag@ == t && o.format == f,
            Err((c, m)) => r matches Err(e) && e.code == c && e.message@ == m,
        },
{
    match parse_tagged(args, "bake", "usage: vzctl image bake <alias> --tag <tag> [--format human|json]") {
        Ok((alias, tag, format)) => Ok(ImageBakeOptions { alias, tag, format }),
        Err(e) => Err(e),
    }
}

/// The commands that check that a sealed image still holds the guest agent.
pub fn image_preservation_checks() -> (r: Vec<&'static str>)
    ensures
        r@.len() == 3,
{
    vec![
        "test -x /usr/local/sbin/vzctl-agent && test -s /usr/local/sbin/vzctl-agent",
        "test -s /usr/lib/vzctl-agent/image-metadata.json",
        "(test -s /etc/systemd/system/vzctl-agent.service && test -s /etc/systemd/system/vzctl-agent.path && test -L /etc/systemd/system/multi-user.target.wants/vzctl-agent.service && test -L /etc/systemd/system/multi-user.target.wants/vzctl-agent.path) || (test -s /etc/init.d/vzctl-agent && test -L /etc/runlevels/default/vzctl-agent)",
    ]
}

/// The commands that make an image safe to clone: no machine id, host keys or seeds.
pub fn image_cleanup_commands() -> (r: Vec<&'static str>)
    ensures
        r@.len() == 3,
{
    vec![
        "cloud-init clean --logs --machine-id 2>/dev/null || cloud-init clean --logs 2>/dev/null || true",
        "truncate -s 0 /etc/machine-id 2>/dev/null || : > /etc/machine-id",
        "rm -f /var/lib/dbus/machine-id /var/lib/systemd/random-seed; find /etc/ssh -maxdepth 1 -type f -name 'ssh_host_*' -delete 2>/dev/null || true",
    ]
}

/// The commands that check that an image is safe to clone.
pub fn image_clone_safe_checks() -> (r: Vec<&'static str>)
    ensures
        r@.len() == 5,
{
    vec![
        "test ! -s /etc/machine-id",
        "test ! -e /var/lib/dbus/machine-id",
        "! find /etc/ssh -maxdepth 1 -type f -name 'ssh_host_*' -print -quit | grep -q .",
        "test ! -e /var/lib/systemd/random-seed",
        "! find /var/lib/cloud/instances -mindepth 1 -print -quit 2>/dev/null | grep -q .",
    ]
}

// ---------------------------------------------------------------------------
// Commands that take only an output format, and `doctor`

/// The format from argument `i` on: only `--format human|json` is known.
pub open spec fn scan_format_only(args: Seq<Seq<char>>, i: int, format: OutputFormat, command: Seq<char>) -> Result<OutputFormat, Seq<char>>
    decreases args.len() - i,
{
    if i < 0 || i >= args.len() {
        Ok(format)
    } else if args[i] == "--format"@ {
        if i + 1 >= args.len() {
            Err("--format requires human or json"@)
        } else if args[i + 1] == "human"@ {
            scan_format_only(args, i + 2, OutputFormat::Human, command)
        } else if args[i + 1] == "json"@ {
            scan_format_only(args, i + 2, OutputFormat::Json, command)
        } else {
            Err("unsupported "@ + command + " format: "@ + args[i + 1])
        }
    } else {
        Err("unknown "@ + command + " option: "@ + args[i])
    }
}

pub open spec fn format_result_view(r: Result<OutputFormat, String>) -> Result<OutputFormat, Seq<char>> {
    match r {
        Ok(f) => Ok(f),
        Err(e) => Err(e@),
    }
}

/// Reads the options of a command that takes only `--format`.
pub fn parse_format_options(args: &[String], command: &str) -> (r: Result<OutputFormat, String>)
    ensures
        format_result_view(r) == scan_format_only(strings_view(args@), 0, OutputFormat::Human, command@),
{
    let ghost av = strings_view(args@);
    let mut format = OutputFormat::Human;
    let mut i: usize = 0;
    while i < args.len()
        invariant
            i <= args@.len(),
            av == strings_view(args@),
            scan_format_only(av, 0, OutputFormat::Human, command@) == scan_format_only(av, i as int, format, command@),
        decreases args.len() - i,
    {
        let a = args[i].as_str();
        assert(a@ == av[i as int]);
        if !str_eq(a, "--format") {
            let mut m = cat3("unknown ", command, " option: ");
            m.append(a);
            return Err(m);
        }
        if i + 1 >= args.len() {
            return Err(owned("--format requires human or json"));
        }
        let v = args[i + 1].as_str();
        assert(v@ == av[i + 1]);
        if str_eq(v, "human") {
            format = OutputFormat::Human;
        } else if str_eq(v, "json") {
            format = OutputFormat::Json;
        } else {
            let mut m = cat3("unsupported ", command, " format: ");
            m.append(v);
            return Err(m);
        }
        i = i + 2;
    }
    Ok(format)
}

/// A minimum of free space: a whole number of GiB, at least one.
pub open spec fn min_free_spec(v: Seq<char>) -> Result<u64, Seq<char>> {
    match parse_unsigned_spec(v, u64::MAX as nat) {
        None => Err("invalid minimum free space: "@ + v + " GiB"@),
        Some(n) => if n == 0 {
            Err("minimum free space must be at least 1 GiB"@)
        } else {
            Ok(n as u64)
        },
    }
}

pub open spec fn u64_result_view(r: Result<u64, String>) -> Result<u64, Seq<char>> {
    match r {
        Ok(n) => Ok(n),
        Err(e) => Err(e@),
    }
}

pub fn parse_min_free_gib(value: &str) -> (r: Result<u64, String>)
    ensures
        u64_result_view(r) == min_free_spec(value@),
{
    match parse_unsigned(value, u64::MAX) {
        None => Err(cat3("invalid minimum free space: ", value, " GiB")),
        Some(n) => if n == 0 {
            Err(owned("minimum free space must be at least 1 GiB"))
        } else {
            Ok(n)
        },
    }
}

/// What `doctor` was asked for.
#[derive(Debug, PartialEq, Eq)]
pub struct DoctorOptions {
    pub format: OutputFormat,
    pub min_free_gib: u64,
}

/// The options of `doctor` from argument `i` on, given what was read before.
pub open spec fn scan_doctor(args: Seq<Seq<char>>, i: int, format: OutputFormat, min: u64) -> Result<(OutputFormat, u64), Seq<char>>
    decreases args.len() - i,
{
    if i < 0 || i >= args.len() {
        Ok((format, min))
    } else {
        let a = args[i];
        if a == "--format"@ {
            if i + 1 >= args.len() {
                Err("--format requires human or json"@)
            } else if args[i + 1] == "human"@ {
                scan_doctor(args, i + 2, OutputFormat::Human, min)
            } else if args[i + 1] == "json"@ {
                scan_doctor(args, i + 2, OutputFormat::Json, min)
            } else {
                Err("unsupported doctor format: "@ + args[i + 1])
            }
        } else if a == "--min-free-gib"@ {
            if i + 1 >= args.len() {
                Err("--min-free-gib requires an integer"@)
            } else {
                match min_free_spec(args[i + 1]) {
                    Ok(n) => scan_doctor(args, i + 2, format, n),
                    Err(e) => Err(e),
                }
            }
        } else if a == "-h"@ || a == "--help"@ {
            Err("usage: vzctl doctor [--format human|json] [--min-free-gib N]"@)
        } else {
            Err("unknown doctor option: "@ + a)
        }
    }
}

/// The options of `doctor`: the minimum starts from `env_min_free` (the
/// value of `VZCTL_DOCTOR_MIN_FREE_GIB`, where it is set) or the default.
pub open spec fn doctor_spec(args: Seq<Seq<char>>, env_min_free: Option<Seq<char>>) -> Result<(OutputFormat, u64), Seq<char>> {
    let start = match env_min_free {
        Some(v) => min_free_spec(v),
        None => Ok(DEFAULT_MIN_FREE_GIB),
    };
    match start {
        Err(e) => Err(e),
        Ok(min) => scan_doctor(args, 0, OutputFormat::Human, min),
    }
}

pub open spec fn doctor_result_view(r: Result<DoctorOptions, String>) -> Result<(OutputFormat, u64), Seq<char>> {
    match r {
        Ok(o) => Ok((o.format, o.min_free_gib)),
        Err(e) => Err(e@),
    }
}

/// Reads the options of `doctor`.
pub fn parse_doctor_options(args: &[String], env_min_free: Option<&str>) -> (r: Result<DoctorOptions, String>)
    ensures
        doctor_result_view(r) == doctor_spec(strings_view(args@), opt_str_view(env_min_free)),
{
    let ghost av = strings_view(args@);
    let mut min_free_gib: u64 = match env_min_free {
        Some(v) => match parse_min_free_gib(v) {
            Ok(n) => n,
            Err(e) => {
                return Err(e);
            },
        },
        None => DEFAULT_MIN_FREE_GIB,
    };
    let mut format = OutputFormat::Human;
    let mut i: usize = 0;
    while i < args.len()
        invariant
            i <= args@.len(),
            av == strings_view(args@),
            doctor_spec(av, opt_str_view(env_min_free)) == scan_doctor(av, i as int, format, min_free_gib),
        decreases args.len() - i,
    {
        let a = args[i].as_str();
        assert(a@ == av[i as int]);
        if str_eq(a, "--format") {
            if i + 1 >= args.len() {
                return Err(owned("--format requires human or json"));
            }
            let v = args[i + 1].as_str();
            assert(v@ == av[i + 1]);
            if str_eq(v, "human") {
                format = OutputFormat::Human;
            } else if str_eq(v, "json") {
                format = OutputFormat::Json;
            } else {
                return Err(cat("unsupported doctor format: ", v));
            }
            i = i + 2;
        } else if str_eq(a, "--min-free-gib") {
            if i + 1 >= args.len() {
                return Err(owned("--min-free-gib requires an integer"));
            }
            let v = args[i + 1].as_str();
            assert(v@ == av[i + 1]);
            min_free_gib = match parse_min_free_gib(v) {
                Ok(n) => n,
                Err(e) => {
                    return Err(e);
                },
            };
            i = i + 2;
        } else if str_eq(a, "-h") || str_eq(a, "--help") {
            return Err(owned("usage: vzctl doctor [--format human|json] [--min-free-gib N]"));
        } else {
            return Err(cat("unknown doctor option: ", a));
        }
    }
    Ok(DoctorOptions { format, min_free_gib })
}

// ---------------------------------------------------------------------------
// Seal markers

/// The file name of a path without its extension, as `Path::file_stem`
/// gives it for a path in UTF-8 (`None` where the path has no file name).
pub uninterp spec fn path_file_stem(p: Seq<char>) -> Option<Seq<char>>;

/// `Path::file_stem` of `path`, converted back to a string.
#[verifier::external_body]
fn file_stem_of(path: &str) -> (r: Option<String>)
    ensures
        opt_string_view(r) == path_file_stem(path@),
{
    std::path::Path::new(path).file_stem().and_then(|s| s.to_str()).map(|s| s.to_string())
}

pub open spec fn marker_char(c: char) -> char {
    if is_ascii_alnum(c) || c == '.' || c == '-' || c == '_' {
        c
    } else {
        '-'
    }
}

/// `s` with zeros in front up to `width` characters.
pub open spec fn zero_pad(s: Seq<char>, width: nat) -> Seq<char> {
    if s.len() >= width {
        s
    } else {
        Seq::new((width - s.len()) as nat, |i: int| '0') + s
    }
}

/// The name of the marker that records the seal of the image at `source`:
/// the image's file stem with characters outside `[A-Za-z0-9._-]` made
/// `-`, and the FNV-1a hash of the full path in sixteen hexadecimal digits,
/// so that images with the same stem in different places do not collide.
pub open spec fn seal_marker_spec(source: Seq<char>, source_bytes: Seq<u8>) -> Seq<char> {
    let stem = match path_file_stem(source) {
        Some(s) => s,
        None => "image"@,
    };
    stem.map_values(|c: char| marker_char(c)) + "-"@ + zero_pad(
        crate::reconciler::hex(crate::reconciler::fnv1a(source_bytes) as nat),
        16,
    ) + ".sealed.json"@
}

/// The file name of the seal marker of the image at `source`.
pub fn seal_marker_name(source: &str) -> (r: String)
    ensures
        r@ == seal_marker_spec(source@, source.spec_bytes()),
{
    let stem = match file_stem_of(source) {
        Some(s) => s,
        None => owned("image"),
    };
    let n = stem.unicode_len();
    let mut out = String::new();
    let mut i: usize = 0;
    while i < n
        invariant
            i <= n,
            n == stem@.len(),
            out@ == stem@.take(i as int).map_values(|c: char| marker_char(c)),
        decreases n - i,
    {
        let c = stem.as_str().get_char(i);
        let d = if char_is_alnum(c) || c == '.' || c == '-' || c == '_' {
            c
        } else {
            '-'
        };
        push_char(&mut out, d);
        assert(out@ =~= stem@.take(i + 1).map_values(|c: char| marker_char(c)));
        i = i + 1;
    }
    assert(stem@.take(n as int) =~= stem@);
    out.append("-");
    let hash = crate::reconciler::fnv1a_bytes(source.as_bytes());
    let digits = crate::reconciler::hex_string(hash);
    let ghost before = out@;
    let mut pad = digits.unicode_len();
    while pad < 16
        invariant
            digits@.len() <= pad <= 16 || (pad == digits@.len() && pad >= 16),
            out@ == before + Seq::new((pad - digits@.len()) as nat, |i: int| '0'),
        decreases 16 - pad,
    {
        push_char(&mut out, '0');
        assert(out@ =~= before + Seq::new((pad + 1 - digits@.len()) as nat, |i: int| '0'));
        pad = pad + 1;
    }
    out.append(digits.as_str());
    out.append(".sealed.json");
    assert(out@ =~= seal_marker_spec(source@, source.spec_bytes()));
    out
}

} // verus!
