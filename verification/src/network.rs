//! The `net` command: its options, IPv4 addresses and CIDRs, and the network
//! a VM is attached to.
use crate::text::{
    all_digits, cat, cat3, digits_value, first_char_is, index_of_char, lemma_index_of_char, owned, parse_unsigned,
    parse_unsigned_spec, split_char, split_first, split_once_spec, split_spec, starts_with, str_eq, str_starts_with,
    strings_view,
};
use crate::order::{lemma_lex_asymmetric, lemma_lex_irreflexive, lemma_lex_total, lemma_lex_transitive, lex_lt, str_less};
use vstd::arithmetic::power2::{lemma2_to64, pow2};
use vstd::prelude::*;

verus! {

pub const EXIT_USAGE: u8 = 2;
pub const EXIT_INVALID: u8 = 3;
pub const EXIT_SUPERVISOR: u8 = 10;
/// Exit code of a failed network operation.
pub const EXIT_NETWORK: u8 = 17;

/// The network a VM NIC is attached to, with its addresses.
#[derive(Clone, Debug, PartialEq, Eq)]
pub struct VmNetworkSelection {
    pub network: String,
    pub cidr: String,
    pub ip: String,
    pub gateway: String,
    pub dns: String,
    pub project: Option<String>,
    pub prefix: u8,
    pub automatic: bool,
    pub created: bool,
    /// `vmnet` or `docker` (logical; no helper NIC).
    pub backend: String,
}

impl VmNetworkSelection {
    /// A copy with the same contents.
    pub fn duplicate(&self) -> (r: VmNetworkSelection)
        ensures
            r == *self,
    {
        VmNetworkSelection {
            network: self.network.clone(),
            cidr: self.cidr.clone(),
            ip: self.ip.clone(),
            gateway: self.gateway.clone(),
            dns: self.dns.clone(),
            project: match &self.project {
                Some(p) => Some(p.clone()),
                None => None,
            },
            prefix: self.prefix,
            automatic: self.automatic,
            created: self.created,
            backend: self.backend.clone(),
        }
    }

    /// The network is a docker network, with no helper NIC.
    pub fn is_docker_backend(&self) -> (r: bool)
        ensures
            r == (self.backend@ == "docker"@),
    {
        str_eq(self.backend.as_str(), "docker")
    }
}

/// The quoted, escaped form of a string (`{:?}` of `str`).
pub uninterp spec fn debug_str(s: Seq<char>) -> Seq<char>;

/// `s` as `format!("{s:?}")` writes it: quoted, with quotes, backslashes,
/// control and non-printable characters escaped.
#[verifier::external_body]
pub(crate) fn debug_quoted(s: &str) -> (r: String)
    ensures
        r@ == debug_str(s@),
{
    format!("{s:?}")
}

/// An octet of a dotted IPv4 address: one to three digits, no leading zero
/// unless it is `0`, at most 255.
pub open spec fn octet_ok(p: Seq<char>) -> bool {
    &&& 1 <= p.len() <= 3
    &&& all_digits(p)
    &&& (p.len() == 1 || p[0] != '0')
    &&& digits_value(p) <= 255
}

/// A dotted IPv4 address, as `Ipv4Addr`'s parser reads it, as a 32-bit number.
pub open spec fn ipv4_spec(s: Seq<char>) -> Option<u32> {
    let parts = split_spec(s, '.');
    if parts.len() == 4 && octet_ok(parts[0]) && octet_ok(parts[1]) && octet_ok(parts[2]) && octet_ok(parts[3]) {
        Some(
            (((digits_value(parts[0]) * 256 + digits_value(parts[1])) * 256 + digits_value(parts[2])) * 256
                + digits_value(parts[3])) as u32,
        )
    } else {
        None
    }
}

fn octet(p: &str) -> (r: Option<u32>)
    ensures
        match r {
            Some(v) => octet_ok(p@) && v == digits_value(p@),
            None => !octet_ok(p@),
        },
{
    let n = p.unicode_len();
    if n < 1 || n > 3 {
        return None;
    }
    if n > 1 && p.get_char(0) == '0' {
        return None;
    }
    let mut v: u32 = 0;
    let mut i: usize = 0;
    while i < n
        invariant
            n == p@.len(),
            1 <= n <= 3,
            i <= n,
            forall|j: int| 0 <= j < i ==> crate::text::is_digit(#[trigger] p@[j]),
            v == digits_value(p@.subrange(0, i as int)),
            v < 1000,
        decreases n - i,
    {
        let c = p.get_char(i);
        if !crate::text::char_is_digit(c) {
            assert(!all_digits(p@)) by {
                assert(!crate::text::is_digit(p@[i as int]));
            }
            return None;
        }
        let ghost pre = p@.subrange(0, i + 1);
        assert(pre.drop_last() =~= p@.subrange(0, i as int));
        assert(pre.last() == c);
        assert(v < 100) by {
            lemma_digits_bound(p@.subrange(0, i as int));
        }
        v = v * 10 + ((c as u32) - 48);
        i = i + 1;
    }
    assert(p@.subrange(0, n as int) =~= p@);
    if v > 255 {
        return None;
    }
    Some(v)
}

proof fn lemma_digits_bound(s: Seq<char>)
    requires
        s.len() <= 2,
        forall|j: int| 0 <= j < s.len() ==> crate::text::is_digit(#[trigger] s[j]),
    ensures
        digits_value(s) < 100,
        s.len() <= 1 ==> digits_value(s) < 10,
    decreases s.len(),
{
    if s.len() > 0 {
        assert(crate::text::is_digit(s[s.len() - 1]));
        lemma_digits_bound(s.drop_last());
    }
}

/// Reads a dotted IPv4 address (`str::parse::<Ipv4Addr>`) as a 32-bit number.
pub fn parse_ipv4(s: &str) -> (r: Option<u32>)
    ensures
        r == ipv4_spec(s@),
{
    let parts = split_char(s, '.');
    if parts.len() != 4 {
        return None;
    }
    assert(parts@[0]@ == split_spec(s@, '.')[0]);
    assert(parts@[1]@ == split_spec(s@, '.')[1]);
    assert(parts@[2]@ == split_spec(s@, '.')[2]);
    assert(parts@[3]@ == split_spec(s@, '.')[3]);
    let a = match octet(parts[0].as_str()) {
        Some(v) => v,
        None => return None,
    };
    let b = match octet(parts[1].as_str()) {
        Some(v) => v,
        None => return None,
    };
    let c = match octet(parts[2].as_str()) {
        Some(v) => v,
        None => return None,
    };
    let d = match octet(parts[3].as_str()) {
        Some(v) => v,
        None => return None,
    };
    Some(((a * 256 + b) * 256 + c) * 256 + d)
}

/// A CIDR in canonical form: an IPv4 address, a prefix of 8 to 30 bits as
/// `u8` reads it, and no host bits set.
pub open spec fn cidr_spec(v: Seq<char>) -> Result<(), Seq<char>> {
    match split_once_spec(v, '/') {
        None => Err("invalid IPv4 CIDR: "@ + v),
        Some((addr, prefix)) => match ipv4_spec(addr) {
            None => Err("invalid IPv4 CIDR: "@ + v),
            Some(raw) => match parse_unsigned_spec(prefix, 255) {
                None => Err("invalid IPv4 CIDR prefix: "@ + v),
                Some(p) => if p < 8 || p > 30 {
                    Err("invalid IPv4 CIDR prefix: "@ + v)
                } else if (raw as nat) % pow2((32 - p) as nat) != 0 {
                    Err("CIDR must use its network address: "@ + v)
                } else {
                    Ok(())
                },
            },
        },
    }
}

/// A failed command: its exit code and message.
#[derive(Debug)]
pub struct Failure {
    pub code: u8,
    pub message: String,
}

fn invalid(message: String) -> (r: Failure)
    ensures
        r.code == EXIT_INVALID,
        r.message@ == message@,
{
    Failure { code: EXIT_INVALID, message }
}

fn usage(message: String) -> (r: Failure)
    ensures
        r.code == EXIT_USAGE,
        r.message@ == message@,
{
    Failure { code: EXIT_USAGE, message }
}

/// Checks that `value` is a canonical IPv4 CIDR.
pub fn validate_cidr(value: &str) -> (r: Result<(), Failure>)
    ensures
        match cidr_spec(value@) {
            Ok(()) => r is Ok,
            Err(m) => r matches Err(f) && f.code == EXIT_INVALID && f.message@ == m,
        },
{
    let (address, prefix) = match split_first(value, '/') {
        Some(p) => p,
        None => return Err(invalid(cat("invalid IPv4 CIDR: ", value))),
    };
    let raw = match parse_ipv4(address.as_str()) {
        Some(r) => r,
        None => return Err(invalid(cat("invalid IPv4 CIDR: ", value))),
    };
    let p = match parse_unsigned(prefix.as_str(), 255) {
        Some(p) => p,
        None => return Err(invalid(cat("invalid IPv4 CIDR prefix: ", value))),
    };
    if p < 8 || p > 30 {
        return Err(invalid(cat("invalid IPv4 CIDR prefix: ", value)));
    }
    let host_bits: u64 = 32 - p;
    let mut block: u64 = 1;
    let mut k: u64 = 0;
    proof {
        lemma2_to64();
    }
    while k < host_bits
        invariant
            host_bits <= 24,
            k <= host_bits,
            block == pow2(k as nat),
        decreases host_bits - k,
    {
        proof {
            vstd::arithmetic::power2::lemma_pow2_unfold((k + 1) as nat);
            vstd::arithmetic::power2::lemma_pow2_strictly_increases(k as nat, 24);
            lemma2_to64();
        }
        block = block * 2;
        k = k + 1;
    }
    if (raw as u64) % block != 0 {
        return Err(invalid(cat("CIDR must use its network address: ", value)));
    }
    Ok(())
}

#[derive(Clone, Copy, Debug, PartialEq, Eq, Structural)]
pub enum Format {
    Human,
    Json,
}

/// Labels and ownership of a network or attachment. The labels form a map:
/// one entry per key, in key order; a later label of the same key replaces
/// an earlier one.
#[derive(Debug, Default, PartialEq, Eq)]
pub struct Metadata {
    pub labels: Vec<(String, String)>,
    pub project: Option<String>,
    pub stack: Option<String>,
}

/// What `net` was asked to do.
#[derive(Debug, PartialEq, Eq)]
pub enum Operation {
    Create { name: String, cidr: String, mode: String, nat_egress: bool, metadata: Metadata },
    Attach { vm_id: String, network: String, ip: String, metadata: Metadata },
    List,
    Detach { vm_id: String, network: String },
    Delete { name: String },
    DefaultShow,
    DefaultSet { name: String, cidr: String },
}

#[derive(Debug, PartialEq, Eq)]
pub struct Options {
    pub operation: Operation,
    pub format: Format,
}

/// The name of the supervisor call, and of the command in JSON output, for
/// an operation.
pub open spec fn command_name(o: Operation) -> Seq<char> {
    match o {
        Operation::Create { .. } => "net.create"@,
        Operation::Attach { .. } => "net.attach"@,
        Operation::List => "net.list"@,
        Operation::Detach { .. } => "net.detach"@,
        Operation::Delete { .. } => "net.delete"@,
        Operation::DefaultShow => "net.default.show"@,
        Operation::DefaultSet { .. } => "net.default.set"@,
    }
}

impl Options {
    /// The command's name: `net.` and the operation.
    pub fn command(&self) -> (r: &'static str)
        ensures
            r@ == command_name(self.operation),
    {
        match self.operation {
            Operation::Create { .. } => "net.create",
            Operation::Attach { .. } => "net.attach",
            Operation::List => "net.list",
            Operation::Detach { .. } => "net.detach",
            Operation::Delete { .. } => "net.delete",
            Operation::DefaultShow => "net.default.show",
            Operation::DefaultSet { .. } => "net.default.set",
        }
    }
}

pub open spec fn pairs_view(p: Seq<(String, String)>) -> Seq<(Seq<char>, Seq<char>)> {
    p.map_values(|e: (String, String)| (e.0@, e.1@))
}

/// The value of the last pair named `key`.
pub open spec fn find_value(p: Seq<(Seq<char>, Seq<char>)>, key: Seq<char>) -> Option<Seq<char>>
    decreases p.len(),
{
    if p.len() == 0 {
        None
    } else if p.last().0 == key {
        Some(p.last().1)
    } else {
        find_value(p.drop_last(), key)
    }
}

/// The labels after setting `key` to `value` in the key-ordered list `s`:
/// the entry of that key gets the value, or a new entry goes where the key
/// sorts.
pub open spec fn label_insert(s: Seq<(Seq<char>, Seq<char>)>, key: Seq<char>, value: Seq<char>) -> Seq<(Seq<char>, Seq<char>)>
    decreases s.len(),
{
    if s.len() == 0 {
        seq![(key, value)]
    } else if s[0].0 == key {
        seq![(key, value)] + s.drop_first()
    } else if lex_lt(key, s[0].0) {
        seq![(key, value)] + s
    } else {
        seq![s[0]] + label_insert(s.drop_first(), key, value)
    }
}

/// Keys strictly ascending: one entry per key, in key order.
pub open spec fn keys_ascending(s: Seq<(Seq<char>, Seq<char>)>) -> bool {
    forall|i: int, j: int| 0 <= i < j < s.len() ==> lex_lt(#[trigger] s[i].0, #[trigger] s[j].0)
}

/// The value under `key`, if there is an entry for it.
pub open spec fn label_of(s: Seq<(Seq<char>, Seq<char>)>, key: Seq<char>) -> Option<Seq<char>> {
    if exists|i: int| key_at(s, key, i) {
        Some(s[choose|i: int| key_at(s, key, i)].1)
    } else {
        None
    }
}

/// Entry `i` has the key `key`.
pub open spec fn key_at(s: Seq<(Seq<char>, Seq<char>)>, key: Seq<char>, i: int) -> bool {
    0 <= i < s.len() && s[i].0 == key
}

proof fn lemma_insert_keys(s: Seq<(Seq<char>, Seq<char>)>, key: Seq<char>, value: Seq<char>)
    requires
        keys_ascending(s),
    ensures
        keys_ascending(label_insert(s, key, value)),
        forall|i: int|
            0 <= i < label_insert(s, key, value).len() ==> (#[trigger] label_insert(s, key, value)[i].0 == key
                || s.contains(label_insert(s, key, value)[i])),
        label_insert(s, key, value).contains((key, value)),
        forall|i: int|
            0 <= i < s.len() && s[i].0 != key ==> label_insert(s, key, value).contains(#[trigger] s[i]),
    decreases s.len(),
{
    let r = label_insert(s, key, value);
    if s.len() == 0 {
        assert(r[0] == (key, value));
    } else {
        let rest = s.drop_first();
        assert(keys_ascending(rest)) by {
            assert forall|i: int, j: int| 0 <= i < j < rest.len() implies lex_lt(#[trigger] rest[i].0, #[trigger] rest[j].0) by {
                assert(rest[i] == s[i + 1] && rest[j] == s[j + 1]);
            }
        }
        if s[0].0 == key {
            assert(r[0] == (key, value));
            assert forall|i: int, j: int| 0 <= i < j < r.len() implies lex_lt(#[trigger] r[i].0, #[trigger] r[j].0) by {
                assert(r[j] == s[j]);
                if i > 0 {
                    assert(r[i] == s[i]);
                }
            }
            assert forall|i: int| 0 <= i < r.len() implies (#[trigger] r[i].0 == key || s.contains(r[i])) by {
                if i > 0 {
                    assert(r[i] == s[i]);
                }
            }
            assert forall|i: int| 0 <= i < s.len() && s[i].0 != key implies r.contains(#[trigger] s[i]) by {
                assert(r[i] == s[i]);
            }
        } else if lex_lt(key, s[0].0) {
            assert(r[0] == (key, value));
            assert forall|i: int, j: int| 0 <= i < j < r.len() implies lex_lt(#[trigger] r[i].0, #[trigger] r[j].0) by {
                assert(r[j] == s[j - 1]);
                if i > 0 {
                    assert(r[i] == s[i - 1]);
                } else if j > 1 {
                    lemma_lex_transitive(key, s[0].0, s[j - 1].0);
                }
            }
            assert forall|i: int| 0 <= i < r.len() implies (#[trigger] r[i].0 == key || s.contains(r[i])) by {
                if i > 0 {
                    assert(r[i] == s[i - 1]);
                }
            }
            assert forall|i: int| 0 <= i < s.len() && s[i].0 != key implies r.contains(#[trigger] s[i]) by {
                assert(r[i + 1] == s[i]);
            }
        } else {
            lemma_insert_keys(rest, key, value);
            let t = label_insert(rest, key, value);
            assert(r =~= seq![s[0]] + t);
            lemma_lex_total(key, s[0].0);
            assert forall|i: int, j: int| 0 <= i < j < r.len() implies lex_lt(#[trigger] r[i].0, #[trigger] r[j].0) by {
                assert(r[j] == t[j - 1]);
                if i > 0 {
                    assert(r[i] == t[i - 1]);
                } else {
                    if t[j - 1].0 == key {
                    } else {
                        assert(rest.contains(t[j - 1]));
                        let k = choose|k: int| 0 <= k < rest.len() && rest[k] == t[j - 1];
                        assert(rest[k] == s[k + 1]);
                    }
                }
            }
            assert forall|i: int| 0 <= i < r.len() implies (#[trigger] r[i].0 == key || s.contains(r[i])) by {
                if i > 0 {
                    assert(r[i] == t[i - 1]);
                    if t[i - 1].0 != key {
                        assert(rest.contains(t[i - 1]));
                        let k = choose|k: int| 0 <= k < rest.len() && rest[k] == t[i - 1];
                        assert(s[k + 1] == t[i - 1]);
                    }
                } else {
                    assert(s[0] == r[0]);
                }
            }
            let kk = choose|k: int| 0 <= k < t.len() && t[k] == (key, value);
            assert(r[kk + 1] == (key, value));
            assert forall|i: int| 0 <= i < s.len() && s[i].0 != key implies r.contains(#[trigger] s[i]) by {
                if i == 0 {
                    assert(r[0] == s[0]);
                } else {
                    assert(rest[i - 1] == s[i]);
                    assert(t.contains(rest[i - 1]));
                    let k = choose|k: int| 0 <= k < t.len() && t[k] == rest[i - 1];
                    assert(r[k + 1] == s[i]);
                }
            }
        }
    }
}

/// Setting a label keeps one entry per key, in key order; afterwards the key
/// holds the new value and every other key keeps its own.
pub proof fn law_label_insert_is_map_insert(s: Seq<(Seq<char>, Seq<char>)>, key: Seq<char>, value: Seq<char>)
    requires
        keys_ascending(s),
    ensures
        keys_ascending(label_insert(s, key, value)),
        label_of(label_insert(s, key, value), key) == Some(value),
        forall|other: Seq<char>| other != key ==> #[trigger] label_of(label_insert(s, key, value), other) == label_of(s, other),
{
    lemma_insert_keys(s, key, value);
    let r = label_insert(s, key, value);
    let k = choose|k: int| 0 <= k < r.len() && r[k] == (key, value);
    lemma_unique_key(r, k, key);
    assert forall|other: Seq<char>| other != key implies #[trigger] label_of(r, other) == label_of(s, other) by {
        if exists|i: int| key_at(s, other, i) {
            let i = choose|i: int| key_at(s, other, i);
            lemma_unique_key(s, i, other);
            assert(r.contains(s[i]));
            let j = choose|j: int| 0 <= j < r.len() && r[j] == s[i];
            lemma_unique_key(r, j, other);
            assert(label_of(r, other) == label_of(s, other));
        } else {
            if exists|j: int| key_at(r, other, j) {
                let j = choose|j: int| key_at(r, other, j);
                assert(s.contains(r[j]));
                let i = choose|i: int| 0 <= i < s.len() && s[i] == r[j];
                assert(key_at(s, other, i));
            }
        }
    }
}

/// In a key-ordered list the entry of a key is the only one.
proof fn lemma_unique_key(s: Seq<(Seq<char>, Seq<char>)>, k: int, key: Seq<char>)
    requires
        keys_ascending(s),
        0 <= k < s.len(),
        s[k].0 == key,
    ensures
        label_of(s, key) == Some(s[k].1),
{
    assert(key_at(s, key, k));
    let c = choose|i: int| key_at(s, key, i);
    if c != k {
        lemma_lex_irreflexive(key);
        if c < k {
            assert(lex_lt(s[c].0, s[k].0));
        } else {
            assert(lex_lt(s[k].0, s[c].0));
        }
    }
}

/// Sets `key` to `value` in the key-ordered labels.
fn insert_label(labels: &mut Vec<(String, String)>, key: String, value: String)
    ensures
        pairs_view(final(labels)@) == label_insert(pairs_view(old(labels)@), key@, value@),
{
    let ghost pv = pairs_view(labels@);
    let mut i: usize = 0;
    assert(pv.skip(0) =~= pv);
    assert(pv.take(0) + label_insert(pv.skip(0), key@, value@) =~= label_insert(pv, key@, value@));
    while i < labels.len() && str_less(labels[i].0.as_str(), key.as_str())
        invariant
            i <= labels@.len(),
            labels@ == old(labels)@,
            pv == pairs_view(labels@),
            label_insert(pv, key@, value@) == pv.take(i as int) + label_insert(pv.skip(i as int), key@, value@),
        decreases labels.len() - i,
    {
        let ghost rest = pv.skip(i as int);
        assert(rest[0] == pv[i as int]);
        assert(rest.drop_first() =~= pv.skip(i + 1));
        proof {
            lemma_lex_irreflexive(key@);
            lemma_lex_asymmetric(pv[i as int].0, key@);
        }
        assert(label_insert(rest, key@, value@) == seq![pv[i as int]] + label_insert(pv.skip(i + 1), key@, value@));
        assert(pv.take(i + 1) =~= pv.take(i as int).push(pv[i as int]));
        assert(pv.take(i as int) + (seq![pv[i as int]] + label_insert(pv.skip(i + 1), key@, value@)) =~= pv.take(
            i + 1,
        ) + label_insert(pv.skip(i + 1), key@, value@));
        i = i + 1;
    }
    let ghost rest = pv.skip(i as int);
    if i == labels.len() {
        assert(rest.len() == 0);
        let ghost kv = (key@, value@);
        labels.push((key, value));
        assert(pv.take(i as int) =~= pv);
        assert(pairs_view(labels@) =~= pv.push(kv));
        assert(pv.push(kv) =~= pv.take(i as int) + seq![kv]);
    } else {
        assert(rest[0] == pv[i as int]);
        assert(rest.drop_first() =~= pv.skip(i + 1));
        let ghost kv = (key@, value@);
        if str_eq(labels[i].0.as_str(), key.as_str()) {
            labels.set(i, (key, value));
            assert(pairs_view(labels@) =~= pv.take(i as int) + (seq![kv] + pv.skip(i + 1)));
        } else {
            proof {
                lemma_lex_total(key@, pv[i as int].0);
            }
            labels.insert(i, (key, value));
            assert(pairs_view(labels@) =~= pv.take(i as int) + (seq![kv] + rest));
        }
    }
}

pub struct MetaView {
    pub labels: Seq<(Seq<char>, Seq<char>)>,
    pub project: Option<Seq<char>>,
    pub stack: Option<Seq<char>>,
}

pub open spec fn opt_view(o: Option<String>) -> Option<Seq<char>> {
    match o {
        Some(s) => Some(s@),
        None => None,
    }
}

pub open spec fn meta_view(m: Metadata) -> MetaView {
    MetaView { labels: pairs_view(m.labels@), project: opt_view(m.project), stack: opt_view(m.stack) }
}

/// No labels, project or stack.
pub open spec fn meta_empty(m: MetaView) -> bool {
    m.labels.len() == 0 && m.project.is_none() && m.stack.is_none()
}

pub open spec fn empty_meta() -> MetaView {
    MetaView { labels: Seq::empty(), project: None, stack: None }
}

/// What the flags from `i` on give: the format, the command's own values in
/// order, and the metadata. Every flag takes a value that does not start
/// with `--`; a command flag may be given once.
pub open spec fn scan_flags(
    args: Seq<Seq<char>>,
    i: int,
    command_flags: Seq<Seq<char>>,
    format: Format,
    values: Seq<(Seq<char>, Seq<char>)>,
    meta: MetaView,
) -> Result<(Format, Seq<(Seq<char>, Seq<char>)>, MetaView), (u8, Seq<char>)>
    decreases args.len() - i,
{
    if i >= args.len() || i < 0 {
        Ok((format, values, meta))
    } else {
        let flag = args[i];
        let needs_value = flag == "--format"@ || flag == "--label"@ || flag == "--project"@ || flag == "--stack"@
            || command_flags.contains(flag);
        if !needs_value {
            Err((EXIT_USAGE, "unknown network option: "@ + flag))
        } else if !(i + 1 < args.len() && !starts_with(args[i + 1], "--"@)) {
            Err((EXIT_USAGE, flag + " requires a value"@))
        } else {
            let value = args[i + 1];
            if flag == "--format"@ {
                if value == "human"@ {
                    scan_flags(args, i + 2, command_flags, Format::Human, values, meta)
                } else if value == "json"@ {
                    scan_flags(args, i + 2, command_flags, Format::Json, values, meta)
                } else {
                    Err((EXIT_USAGE, "unsupported network format: "@ + value))
                }
            } else if flag == "--label"@ {
                match split_once_spec(value, '=') {
                    Some((k, v)) => if k.len() > 0 {
                        scan_flags(
                            args,
                            i + 2,
                            command_flags,
                            format,
                            values,
                            MetaView { labels: label_insert(meta.labels, k, v), ..meta },
                        )
                    } else {
                        Err((EXIT_INVALID, "label must be key=value: "@ + value))
                    },
                    None => Err((EXIT_INVALID, "label must be key=value: "@ + value)),
                }
            } else if flag == "--project"@ {
                scan_flags(args, i + 2, command_flags, format, values, MetaView { project: Some(value), ..meta })
            } else if flag == "--stack"@ {
                scan_flags(args, i + 2, command_flags, format, values, MetaView { stack: Some(value), ..meta })
            } else if find_value(values, flag).is_some() {
                Err((EXIT_USAGE, "duplicate option: "@ + flag))
            } else {
                scan_flags(args, i + 2, command_flags, format, values.push((flag, value)), meta)
            }
        }
    }
}

pub open spec fn strs_view(v: Seq<&str>) -> Seq<Seq<char>> {
    v.map_values(|s: &str| s@)
}

pub open spec fn flags_spec(args: Seq<Seq<char>>, command_flags: Seq<Seq<char>>) -> Result<
    (Format, Seq<(Seq<char>, Seq<char>)>, MetaView),
    (u8, Seq<char>),
> {
    scan_flags(args, 0, command_flags, Format::Human, Seq::empty(), empty_meta())
}

proof fn lemma_scan_labels(
    args: Seq<Seq<char>>,
    i: int,
    command_flags: Seq<Seq<char>>,
    format: Format,
    values: Seq<(Seq<char>, Seq<char>)>,
    meta: MetaView,
)
    requires
        keys_ascending(meta.labels),
    ensures
        scan_flags(args, i, command_flags, format, values, meta) matches Ok(t) ==> keys_ascending(t.2.labels),
    decreases args.len() - i,
{
    if 0 <= i < args.len() && i + 1 < args.len() {
        let flag = args[i];
        let value = args[i + 1];
        if flag == "--format"@ {
            lemma_scan_labels(args, i + 2, command_flags, Format::Human, values, meta);
            lemma_scan_labels(args, i + 2, command_flags, Format::Json, values, meta);
        } else if flag == "--label"@ {
            if let Some((k, v)) = split_once_spec(value, '=') {
                law_label_insert_is_map_insert(meta.labels, k, v);
                lemma_scan_labels(
                    args,
                    i + 2,
                    command_flags,
                    format,
                    values,
                    MetaView { labels: label_insert(meta.labels, k, v), ..meta },
                );
            }
        } else {
            lemma_scan_labels(args, i + 2, command_flags, format, values, MetaView { project: Some(value), ..meta });
            lemma_scan_labels(args, i + 2, command_flags, format, values, MetaView { stack: Some(value), ..meta });
            lemma_scan_labels(args, i + 2, command_flags, format, values.push((flag, value)), meta);
        }
    }
}

/// The labels that the flags give are a map: one entry per key, in key order.
pub proof fn law_flag_labels_are_a_map(args: Seq<Seq<char>>, command_flags: Seq<Seq<char>>)
    ensures
        flags_spec(args, command_flags) matches Ok(t) ==> keys_ascending(t.2.labels),
{
    lemma_scan_labels(args, 0, command_flags, Format::Human, Seq::empty(), empty_meta());
}

fn contains_str_item(items: &[&str], s: &str) -> (r: bool)
    ensures
        r == strs_view(items@).contains(s@),
{
    let mut i: usize = 0;
    while i < items.len()
        invariant
            i <= items@.len(),
            forall|j: int| 0 <= j < i ==> strs_view(items@)[j] != s@,
        decreases items.len() - i,
    {
        if str_eq(items[i], s) {
            assert(strs_view(items@)[i as int] == s@);
            return true;
        }
        i = i + 1;
    }
    false
}

/// The value of the last pair named `key`.
pub fn lookup_value(values: &Vec<(String, String)>, key: &str) -> (r: Option<String>)
    ensures
        opt_view(r) == find_value(pairs_view(values@), key@),
{
    let ghost pv = pairs_view(values@);
    let mut i: usize = values.len();
    assert(pv.subrange(0, i as int) =~= pv);
    while i > 0
        invariant
            i <= values@.len(),
            pv == pairs_view(values@),
            find_value(pv, key@) == find_value(pv.subrange(0, i as int), key@),
        decreases i,
    {
        let ghost pre = pv.subrange(0, i as int);
        assert(pre.drop_last() =~= pv.subrange(0, i - 1));
        assert(pre.last() == pv[i - 1]);
        if str_eq(values[i - 1].0.as_str(), key) {
            return Some(values[i - 1].1.clone());
        }
        i = i - 1;
    }
    assert(pv.subrange(0, 0) =~= Seq::<(Seq<char>, Seq<char>)>::empty());
    None
}

/// The parsed flags: format, command values in order, metadata.
pub struct Flags {
    pub format: Format,
    pub values: Vec<(String, String)>,
    pub metadata: Metadata,
}

/// Reads the flags of a `net` command whose own flags are `command_flags`.
pub fn parse_flags(args: &[String], command_flags: &[&str]) -> (r: Result<Flags, Failure>)
    ensures
        match flags_spec(strings_view(args@), strs_view(command_flags@)) {
            Ok((f, v, m)) => r matches Ok(x) && x.format == f && pairs_view(x.values@) == v && meta_view(x.metadata)
                == m,
            Err((c, msg)) => r matches Err(e) && e.code == c && e.message@ == msg,
        },
{
    let ghost av = strings_view(args@);
    let ghost cf = strs_view(command_flags@);
    let mut format = Format::Human;
    let mut values: Vec<(String, String)> = Vec::new();
    let mut metadata = Metadata { labels: Vec::new(), project: None, stack: None };
    let mut i: usize = 0;
    assert(pairs_view(values@) =~= Seq::<(Seq<char>, Seq<char>)>::empty());
    assert(meta_view(metadata) == empty_meta()) by {
        assert(pairs_view(metadata.labels@) =~= Seq::<(Seq<char>, Seq<char>)>::empty());
    }
    while i < args.len()
        invariant
            i <= args@.len(),
            av == strings_view(args@),
            cf == strs_view(command_flags@),
            flags_spec(av, cf) == scan_flags(av, i as int, cf, format, pairs_view(values@), meta_view(metadata)),
        decreases args.len() - i,
    {
        let flag = args[i].as_str();
        assert(flag@ == av[i as int]);
        let needs_value = str_eq(flag, "--format") || str_eq(flag, "--label") || str_eq(flag, "--project") || str_eq(
            flag,
            "--stack",
        ) || contains_str_item(command_flags, flag);
        if !needs_value {
            return Err(usage(cat("unknown network option: ", flag)));
        }
        if i + 1 >= args.len() || str_starts_with(args[i + 1].as_str(), "--") {
            return Err(usage(cat(flag, " requires a value")));
        }
        let value = args[i + 1].as_str();
        assert(value@ == av[i + 1]);
        if str_eq(flag, "--format") {
            if str_eq(value, "human") {
                format = Format::Human;
            } else if str_eq(value, "json") {
                format = Format::Json;
            } else {
                return Err(usage(cat("unsupported network format: ", value)));
            }
        } else if str_eq(flag, "--label") {
            match split_first(value, '=') {
                Some((k, v)) => {
                    if k.unicode_len() == 0 {
                        return Err(invalid(cat("label must be key=value: ", value)));
                    }
                    insert_label(&mut metadata.labels, k, v);
                },
                None => return Err(invalid(cat("label must be key=value: ", value))),
            }
        } else if str_eq(flag, "--project") {
            metadata.project = Some(owned(value));
        } else if str_eq(flag, "--stack") {
            metadata.stack = Some(owned(value));
        } else {
            if lookup_value(&values, flag).is_some() {
                return Err(usage(cat("duplicate option: ", flag)));
            }
            let ghost before = pairs_view(values@);
            values.push((owned(flag), owned(value)));
            assert(pairs_view(values@) =~= before.push((flag@, value@)));
        }
        i = i + 2;
    }
    Ok(Flags { format, values, metadata })
}

/// The first argument, unless it is missing, empty or a flag.
pub open spec fn positional_spec(args: Seq<Seq<char>>, message: Seq<char>) -> Result<Seq<char>, (u8, Seq<char>)> {
    if args.len() > 0 && !(args[0].len() > 0 && args[0][0] == '-') && args[0].len() > 0 {
        Ok(args[0])
    } else {
        Err((EXIT_USAGE, message))
    }
}

fn positional(args: &[String], message: &str) -> (r: Result<String, Failure>)
    ensures
        match positional_spec(strings_view(args@), message@) {
            Ok(v) => r matches Ok(x) && x@ == v,
            Err((c, m)) => r matches Err(e) && e.code == c && e.message@ == m,
        },
{
    if args.len() > 0 && !first_char_is(args[0].as_str(), '-') && args[0].unicode_len() > 0 {
        assert(args@[0]@ == strings_view(args@)[0]);
        Ok(args[0].clone())
    } else {
        proof {
            if args@.len() > 0 {
                assert(args@[0]@ == strings_view(args@)[0]);
            }
        }
        Err(usage(owned(message)))
    }
}

/// A required command value.
pub open spec fn required_spec(values: Seq<(Seq<char>, Seq<char>)>, flag: Seq<char>) -> Result<Seq<char>, (u8, Seq<char>)> {
    match find_value(values, flag) {
        Some(v) => Ok(v),
        None => Err((EXIT_USAGE, flag + " is required"@)),
    }
}

fn required(values: &Vec<(String, String)>, flag: &str) -> (r: Result<String, Failure>)
    ensures
        match required_spec(pairs_view(values@), flag@) {
            Ok(v) => r matches Ok(x) && x@ == v,
            Err((c, m)) => r matches Err(e) && e.code == c && e.message@ == m,
        },
{
    match lookup_value(values, flag) {
        Some(v) => Ok(v),
        None => Err(usage(cat(flag, " is required"))),
    }
}


pub enum OperationView {
    Create { name: Seq<char>, cidr: Seq<char>, mode: Seq<char>, nat_egress: bool, metadata: MetaView },
    Attach { vm_id: Seq<char>, network: Seq<char>, ip: Seq<char>, metadata: MetaView },
    List,
    Detach { vm_id: Seq<char>, network: Seq<char> },
    Delete { name: Seq<char> },
    DefaultShow,
    DefaultSet { name: Seq<char>, cidr: Seq<char> },
}

pub struct OptionsView {
    pub operation: OperationView,
    pub format: Format,
}

pub open spec fn operation_view(o: Operation) -> OperationView {
    match o {
        Operation::Create { name, cidr, mode, nat_egress, metadata } => OperationView::Create {
            name: name@,
            cidr: cidr@,
            mode: mode@,
            nat_egress,
            metadata: meta_view(metadata),
        },
        Operation::Attach { vm_id, network, ip, metadata } => OperationView::Attach {
            vm_id: vm_id@,
            network: network@,
            ip: ip@,
            metadata: meta_view(metadata),
        },
        Operation::List => OperationView::List,
        Operation::Detach { vm_id, network } => OperationView::Detach { vm_id: vm_id@, network: network@ },
        Operation::Delete { name } => OperationView::Delete { name: name@ },
        Operation::DefaultShow => OperationView::DefaultShow,
        Operation::DefaultSet { name, cidr } => OperationView::DefaultSet { name: name@, cidr: cidr@ },
    }
}

pub open spec fn options_view(o: Options) -> OptionsView {
    OptionsView { operation: operation_view(o.operation), format: o.format }
}

pub type NetResult = Result<OptionsView, (u8, Seq<char>)>;

pub open spec fn list_flags() -> Seq<Seq<char>> {
    Seq::empty()
}

pub open spec fn create_flags() -> Seq<Seq<char>> {
    seq!["--cidr"@, "--mode"@, "--nat-egress"@]
}

pub open spec fn attach_flags() -> Seq<Seq<char>> {
    seq!["--network"@, "--ip"@]
}

pub open spec fn detach_flags() -> Seq<Seq<char>> {
    seq!["--network"@]
}

pub open spec fn default_set_flags() -> Seq<Seq<char>> {
    seq!["--cidr"@]
}

/// `net create <name> --cidr C [--mode shared] [--nat-egress B]`.
pub open spec fn create_spec(args: Seq<Seq<char>>) -> NetResult {
    match positional_spec(args, "net create requires a network name"@) {
        Err(e) => Err(e),
        Ok(name) => match flags_spec(args.skip(1), create_flags()) {
            Err(e) => Err(e),
            Ok((format, values, metadata)) => match required_spec(values, "--cidr"@) {
                Err(e) => Err(e),
                Ok(cidr) => match cidr_spec(cidr) {
                    Err(m) => Err((EXIT_INVALID, m)),
                    Ok(()) => {
                        let mode = match find_value(values, "--mode"@) {
                            Some(m) => m,
                            None => "shared"@,
                        };
                        if mode != "shared"@ {
                            Err((EXIT_INVALID, "bridged mode is unsupported in v0.1; use --mode shared"@))
                        } else {
                            let egress = find_value(values, "--nat-egress"@);
                            if egress.is_none() || egress == Some("true"@) || egress == Some("1"@) || egress == Some(
                                "yes"@,
                            ) {
                                Ok(
                                    OptionsView {
                                        operation: OperationView::Create { name, cidr, mode, nat_egress: true, metadata },
                                        format,
                                    },
                                )
                            } else if egress == Some("false"@) || egress == Some("0"@) || egress == Some("no"@) {
                                Ok(
                                    OptionsView {
                                        operation: OperationView::Create { name, cidr, mode, nat_egress: false, metadata },
                                        format,
                                    },
                                )
                            } else {
                                Err(
                                    (
                                        EXIT_INVALID,
                                        "invalid --nat-egress "@ + debug_str(egress.unwrap()) + "; use true|false"@,
                                    ),
                                )
                            }
                        }
                    },
                },
            },
        },
    }
}

/// `net attach <vm> --network N --ip A`.
pub open spec fn attach_spec(args: Seq<Seq<char>>) -> NetResult {
    match positional_spec(args, "net attach requires a VM id"@) {
        Err(e) => Err(e),
        Ok(vm_id) => match flags_spec(args.skip(1), attach_flags()) {
            Err(e) => Err(e),
            Ok((format, values, metadata)) => match required_spec(values, "--ip"@) {
                Err(e) => Err(e),
                Ok(ip) => if ipv4_spec(ip).is_none() {
                    Err((EXIT_INVALID, "invalid IPv4 address: "@ + ip))
                } else {
                    match required_spec(values, "--network"@) {
                        Err(e) => Err(e),
                        Ok(network) => Ok(
                            OptionsView { operation: OperationView::Attach { vm_id, network, ip, metadata }, format },
                        ),
                    }
                },
            },
        },
    }
}

/// `net detach <vm> --network N`.
pub open spec fn detach_spec(args: Seq<Seq<char>>) -> NetResult {
    match positional_spec(args, "net detach requires a VM id"@) {
        Err(e) => Err(e),
        Ok(vm_id) => match flags_spec(args.skip(1), detach_flags()) {
            Err(e) => Err(e),
            Ok((format, values, metadata)) => if !meta_empty(metadata) {
                Err((EXIT_USAGE, "net detach does not accept metadata"@))
            } else {
                match required_spec(values, "--network"@) {
                    Err(e) => Err(e),
                    Ok(network) => Ok(OptionsView { operation: OperationView::Detach { vm_id, network }, format }),
                }
            },
        },
    }
}

/// `net delete <name>`.
pub open spec fn delete_spec(args: Seq<Seq<char>>) -> NetResult {
    match positional_spec(args, "net delete requires a network name"@) {
        Err(e) => Err(e),
        Ok(name) => match flags_spec(args.skip(1), list_flags()) {
            Err(e) => Err(e),
            Ok((format, values, metadata)) => if values.len() > 0 || !meta_empty(metadata) {
                Err((EXIT_USAGE, "net delete accepts only --format human|json"@))
            } else {
                Ok(OptionsView { operation: OperationView::Delete { name }, format })
            },
        },
    }
}

/// `net default show` and `net default set <name> --cidr C`.
pub open spec fn default_spec(args: Seq<Seq<char>>) -> NetResult {
    if args.len() == 0 {
        Err((EXIT_USAGE, "usage: vzctl net default show|set ..."@))
    } else if args[0] == "show"@ {
        match flags_spec(args.skip(1), list_flags()) {
            Err(e) => Err(e),
            Ok((format, values, metadata)) => if values.len() > 0 || !meta_empty(metadata) {
                Err((EXIT_USAGE, "net default show accepts only --format human|json"@))
            } else {
                Ok(OptionsView { operation: OperationView::DefaultShow, format })
            },
        }
    } else if args[0] == "set"@ {
        match positional_spec(args.skip(1), "net default set requires a network name"@) {
            Err(e) => Err(e),
            Ok(name) => match flags_spec(args.skip(2), default_set_flags()) {
                Err(e) => Err(e),
                Ok((format, values, metadata)) => if !meta_empty(metadata) {
                    Err((EXIT_USAGE, "net default set does not accept metadata"@))
                } else {
                    match required_spec(values, "--cidr"@) {
                        Err(e) => Err(e),
                        Ok(cidr) => match cidr_spec(cidr) {
                            Err(m) => Err((EXIT_INVALID, m)),
                            Ok(()) => Ok(OptionsView { operation: OperationView::DefaultSet { name, cidr }, format }),
                        },
                    }
                },
            },
        }
    } else {
        Err((EXIT_USAGE, "unknown net default command: "@ + args[0]))
    }
}

/// The options of `net`: the operation comes first.
pub open spec fn parse_spec(args: Seq<Seq<char>>) -> NetResult {
    if args.len() == 0 {
        Err((EXIT_USAGE, "usage: vzctl net create|attach|list|detach|delete|default ..."@))
    } else {
        let op = args[0];
        let rest = args.skip(1);
        if op == "create"@ {
            create_spec(rest)
        } else if op == "attach"@ {
            attach_spec(rest)
        } else if op == "list"@ {
            match flags_spec(rest, list_flags()) {
                Err(e) => Err(e),
                Ok((format, values, metadata)) => if values.len() > 0 || !meta_empty(metadata) {
                    Err((EXIT_USAGE, "net list accepts only --format human|json"@))
                } else {
                    Ok(OptionsView { operation: OperationView::List, format })
                },
            }
        } else if op == "detach"@ {
            detach_spec(rest)
        } else if op == "delete"@ {
            delete_spec(rest)
        } else if op == "default"@ {
            default_spec(rest)
        } else {
            Err((EXIT_USAGE, "unknown net command: "@ + op))
        }
    }
}

pub open spec fn net_result_view(r: Result<Options, Failure>) -> NetResult {
    match r {
        Ok(o) => Ok(options_view(o)),
        Err(f) => Err((f.code, f.message@)),
    }
}

fn tail(args: &[String], k: usize) -> (r: Vec<String>)
    requires
        k <= args@.len(),
    ensures
        strings_view(r@) == strings_view(args@).skip(k as int),
{
    let mut r: Vec<String> = Vec::new();
    let mut i: usize = k;
    while i < args.len()
        invariant
            k <= i <= args@.len(),
            strings_view(r@) == strings_view(args@).subrange(k as int, i as int),
        decreases args.len() - i,
    {
        let ghost before = strings_view(r@);
        let c = args[i].clone();
        assert(c@ == strings_view(args@)[i as int]);
        r.push(c);
        assert(strings_view(r@) =~= before.push(c@));
        assert(strings_view(r@) =~= strings_view(args@).subrange(k as int, i + 1));
        i = i + 1;
    }
    assert(strings_view(args@).subrange(k as int, args@.len() as int) =~= strings_view(args@).skip(k as int));
    r
}

fn meta_is_empty(m: &Metadata) -> (r: bool)
    ensures
        r == meta_empty(meta_view(*m)),
{
    m.labels.len() == 0 && m.project.is_none() && m.stack.is_none()
}

fn parse_create(args: &[String]) -> (r: Result<Options, Failure>)
    ensures
        net_result_view(r) == create_spec(strings_view(args@)),
{
    let name = match positional(args, "net create requires a network name") {
        Ok(n) => n,
        Err(e) => return Err(e),
    };
    let rest = tail(args, 1);
    let cf: [&str; 3] = ["--cidr", "--mode", "--nat-egress"];
    assert(strs_view(cf@) =~= create_flags());
    let flags = match parse_flags(rest.as_slice(), &cf) {
        Ok(f) => f,
        Err(e) => return Err(e),
    };
    let cidr = match required(&flags.values, "--cidr") {
        Ok(c) => c,
        Err(e) => return Err(e),
    };
    match validate_cidr(cidr.as_str()) {
        Ok(()) => {},
        Err(e) => return Err(e),
    }
    let mode = match lookup_value(&flags.values, "--mode") {
        Some(m) => m,
        None => owned("shared"),
    };
    if !str_eq(mode.as_str(), "shared") {
        return Err(invalid(owned("bridged mode is unsupported in v0.1; use --mode shared")));
    }
    let nat_egress = match lookup_value(&flags.values, "--nat-egress") {
        None => true,
        Some(v) => {
            if str_eq(v.as_str(), "true") || str_eq(v.as_str(), "1") || str_eq(v.as_str(), "yes") {
                true
            } else if str_eq(v.as_str(), "false") || str_eq(v.as_str(), "0") || str_eq(v.as_str(), "no") {
                false
            } else {
                let quoted = debug_quoted(v.as_str());
                let m = cat3("invalid --nat-egress ", quoted.as_str(), "; use true|false");
                return Err(invalid(m));
            }
        },
    };
    Ok(Options {
        operation: Operation::Create { name, cidr, mode, nat_egress, metadata: flags.metadata },
        format: flags.format,
    })
}

fn parse_attach(args: &[String]) -> (r: Result<Options, Failure>)
    ensures
        net_result_view(r) == attach_spec(strings_view(args@)),
{
    let vm_id = match positional(args, "net attach requires a VM id") {
        Ok(n) => n,
        Err(e) => return Err(e),
    };
    let rest = tail(args, 1);
    let cf: [&str; 2] = ["--network", "--ip"];
    assert(strs_view(cf@) =~= attach_flags());
    let flags = match parse_flags(rest.as_slice(), &cf) {
        Ok(f) => f,
        Err(e) => return Err(e),
    };
    let ip = match required(&flags.values, "--ip") {
        Ok(c) => c,
        Err(e) => return Err(e),
    };
    if parse_ipv4(ip.as_str()).is_none() {
        return Err(invalid(cat("invalid IPv4 address: ", ip.as_str())));
    }
    let network = match required(&flags.values, "--network") {
        Ok(c) => c,
        Err(e) => return Err(e),
    };
    Ok(Options { operation: Operation::Attach { vm_id, network, ip, metadata: flags.metadata }, format: flags.format })
}

fn parse_detach(args: &[String]) -> (r: Result<Options, Failure>)
    ensures
        net_result_view(r) == detach_spec(strings_view(args@)),
{
    let vm_id = match positional(args, "net detach requires a VM id") {
        Ok(n) => n,
        Err(e) => return Err(e),
    };
    let rest = tail(args, 1);
    let cf: [&str; 1] = ["--network"];
    assert(strs_view(cf@) =~= detach_flags());
    let flags = match parse_flags(rest.as_slice(), &cf) {
        Ok(f) => f,
        Err(e) => return Err(e),
    };
    if !meta_is_empty(&flags.metadata) {
        return Err(usage(owned("net detach does not accept metadata")));
    }
    let network = match required(&flags.values, "--network") {
        Ok(c) => c,
        Err(e) => return Err(e),
    };
    Ok(Options { operation: Operation::Detach { vm_id, network }, format: flags.format })
}

fn parse_delete(args: &[String]) -> (r: Result<Options, Failure>)
    ensures
        net_result_view(r) == delete_spec(strings_view(args@)),
{
    let name = match positional(args, "net delete requires a network name") {
        Ok(n) => n,
        Err(e) => return Err(e),
    };
    let rest = tail(args, 1);
    let cf: [&str; 0] = [];
    assert(strs_view(cf@) =~= list_flags());
    let flags = match parse_flags(rest.as_slice(), &cf) {
        Ok(f) => f,
        Err(e) => return Err(e),
    };
    if flags.values.len() > 0 || !meta_is_empty(&flags.metadata) {
        return Err(usage(owned("net delete accepts only --format human|json")));
    }
    Ok(Options { operation: Operation::Delete { name }, format: flags.format })
}

fn parse_default(args: &[String]) -> (r: Result<Options, Failure>)
    ensures
        net_result_view(r) == default_spec(strings_view(args@)),
{
    if args.len() == 0 {
        return Err(usage(owned("usage: vzctl net default show|set ...")));
    }
    let action = args[0].as_str();
    assert(action@ == strings_view(args@)[0]);
    if str_eq(action, "show") {
        let rest = tail(args, 1);
        let cf: [&str; 0] = [];
        assert(strs_view(cf@) =~= list_flags());
        let flags = match parse_flags(rest.as_slice(), &cf) {
            Ok(f) => f,
            Err(e) => return Err(e),
        };
        if flags.values.len() > 0 || !meta_is_empty(&flags.metadata) {
            return Err(usage(owned("net default show accepts only --format human|json")));
        }
        Ok(Options { operation: Operation::DefaultShow, format: flags.format })
    } else if str_eq(action, "set") {
        let after = tail(args, 1);
        let name = match positional(after.as_slice(), "net default set requires a network name") {
            Ok(n) => n,
            Err(e) => return Err(e),
        };
        assert(args@.len() >= 2);
        let rest = tail(args, 2);
        let cf: [&str; 1] = ["--cidr"];
        assert(strs_view(cf@) =~= default_set_flags());
        let flags = match parse_flags(rest.as_slice(), &cf) {
            Ok(f) => f,
            Err(e) => return Err(e),
        };
        if !meta_is_empty(&flags.metadata) {
            return Err(usage(owned("net default set does not accept metadata")));
        }
        let cidr = match required(&flags.values, "--cidr") {
            Ok(c) => c,
            Err(e) => return Err(e),
        };
        match validate_cidr(cidr.as_str()) {
            Ok(()) => {},
            Err(e) => return Err(e),
        }
        Ok(Options { operation: Operation::DefaultSet { name, cidr }, format: flags.format })
    } else {
        Err(usage(cat("unknown net default command: ", action)))
    }
}

/// Reads the arguments of `net`.
pub fn parse(args: &[String]) -> (r: Result<Options, Failure>)
    ensures
        net_result_view(r) == parse_spec(strings_view(args@)),
{
    if args.len() == 0 {
        return Err(usage(owned("usage: vzctl net create|attach|list|detach|delete|default ...")));
    }
    let op = args[0].as_str();
    assert(op@ == strings_view(args@)[0]);
    let rest = tail(args, 1);
    let rs = rest.as_slice();
    if str_eq(op, "create") {
        parse_create(rs)
    } else if str_eq(op, "attach") {
        parse_attach(rs)
    } else if str_eq(op, "list") {
        let cf: [&str; 0] = [];
        assert(strs_view(cf@) =~= list_flags());
        let flags = match parse_flags(rs, &cf) {
            Ok(f) => f,
            Err(e) => return Err(e),
        };
        if flags.values.len() > 0 || !meta_is_empty(&flags.metadata) {
            return Err(usage(owned("net list accepts only --format human|json")));
        }
        Ok(Options { operation: Operation::List, format: flags.format })
    } else if str_eq(op, "detach") {
        parse_detach(rs)
    } else if str_eq(op, "delete") {
        parse_delete(rs)
    } else if str_eq(op, "default") {
        parse_default(rs)
    } else {
        Err(usage(cat("unknown net command: ", op)))
    }
}

/// The first `--format` decides the format of a refused command: JSON when
/// its value is `json`.
pub open spec fn requested_format_spec(args: Seq<Seq<char>>, i: int) -> Format
    decreases args.len() - i,
{
    if i < 0 || i + 1 >= args.len() {
        Format::Human
    } else if args[i] == "--format"@ {
        if args[i + 1] == "json"@ {
            Format::Json
        } else {
            Format::Human
        }
    } else {
        requested_format_spec(args, i + 1)
    }
}

/// The output format to report a refused command in.
pub fn requested_format(args: &[String]) -> (r: Format)
    ensures
        r == requested_format_spec(strings_view(args@), 0),
{
    let ghost av = strings_view(args@);
    let n = args.len();
    let mut i: usize = 0;
    while n > 0 && i < n - 1
        invariant
            n == args@.len(),
            av == strings_view(args@),
            i <= n,
            requested_format_spec(av, 0) == requested_format_spec(av, i as int),
        decreases n - i,
    {
        assert(args@[i as int]@ == av[i as int]);
        assert(args@[i + 1]@ == av[i + 1]);
        if str_eq(args[i].as_str(), "--format") {
            if str_eq(args[i + 1].as_str(), "json") {
                return Format::Json;
            }
            return Format::Human;
        }
        i = i + 1;
    }
    Format::Human
}

// ---------------------------------------------------------------------------
// The supervisor's answer to attaching a VM

/// The `network` object of the supervisor's answer: each field set where the
/// object holds a string under that key.
#[derive(Clone, Debug, Default)]
pub struct NetworkReply {
    pub name: Option<String>,
    pub cidr: Option<String>,
    pub gateway: Option<String>,
    pub dns: Option<String>,
    pub project: Option<String>,
    pub backend: Option<String>,
}

/// The `attachment` object of the supervisor's answer.
#[derive(Clone, Debug, Default)]
pub struct AttachmentReply {
    pub ip: Option<String>,
    pub project: Option<String>,
}

/// The supervisor's answer to attaching a VM to a network: the two objects
/// where they are objects, the prefix where it is an unsigned integer, the
/// flags where they are booleans.
#[derive(Clone, Debug, Default)]
pub struct AttachReply {
    pub network: Option<NetworkReply>,
    pub attachment: Option<AttachmentReply>,
    pub prefix: Option<u64>,
    pub automatic: Option<bool>,
    pub created: Option<bool>,
}

pub struct SelectionView {
    pub network: Seq<char>,
    pub cidr: Seq<char>,
    pub ip: Seq<char>,
    pub gateway: Seq<char>,
    pub dns: Seq<char>,
    pub project: Option<Seq<char>>,
    pub prefix: u8,
    pub automatic: bool,
    pub created: bool,
    pub backend: Seq<char>,
}

pub open spec fn selection_view(s: VmNetworkSelection) -> SelectionView {
    SelectionView {
        network: s.network@,
        cidr: s.cidr@,
        ip: s.ip@,
        gateway: s.gateway@,
        dns: s.dns@,
        project: opt_view(s.project),
        prefix: s.prefix,
        automatic: s.automatic,
        created: s.created,
        backend: s.backend@,
    }
}

/// The NIC selection the answer describes. Every address field is
/// required; the attachment's project wins over the network's; the prefix
/// must fit a byte; the flags default to false and the backend to `vmnet`.
pub open spec fn selection_spec(r: AttachReply) -> Result<SelectionView, Seq<char>> {
    match r.network {
        None => Err("supervisor returned no network"@),
        Some(n) => match r.attachment {
            None => Err("supervisor returned no attachment"@),
            Some(a) => if n.name is None {
                Err("supervisor returned no name"@)
            } else if n.cidr is None {
                Err("supervisor returned no cidr"@)
            } else if n.gateway is None {
                Err("supervisor returned no gateway"@)
            } else if n.dns is None {
                Err("supervisor returned no dns"@)
            } else if a.ip is None {
                Err("supervisor returned no ip"@)
            } else if r.prefix is None || r.prefix->Some_0 > 255 {
                Err("supervisor returned no network prefix"@)
            } else {
                Ok(
                    SelectionView {
                        network: n.name->Some_0@,
                        cidr: n.cidr->Some_0@,
                        ip: a.ip->Some_0@,
                        gateway: n.gateway->Some_0@,
                        dns: n.dns->Some_0@,
                        project: if a.project is Some {
                            opt_view(a.project)
                        } else {
                            opt_view(n.project)
                        },
                        prefix: r.prefix->Some_0 as u8,
                        automatic: r.automatic == Some(true),
                        created: r.created == Some(true),
                        backend: match n.backend {
                            Some(b) => b@,
                            None => "vmnet"@,
                        },
                    },
                )
            },
        },
    }
}

pub open spec fn selection_result_view(r: Result<VmNetworkSelection, Failure>) -> Result<SelectionView, Seq<char>> {
    match r {
        Ok(s) => Ok(selection_view(s)),
        Err(f) => Err(f.message@),
    }
}

/// Reads the NIC selection from the supervisor's answer.
pub fn vm_network_selection(result: &AttachReply) -> (r: Result<VmNetworkSelection, Failure>)
    ensures
        selection_result_view(r) == selection_spec(*result),
        r matches Err(f) ==> f.code == EXIT_INVALID,
{
    let network = match &result.network {
        Some(n) => n,
        None => {
            return Err(invalid(owned("supervisor returned no network")));
        },
    };
    let attachment = match &result.attachment {
        Some(a) => a,
        None => {
            return Err(invalid(owned("supervisor returned no attachment")));
        },
    };
    let name = match &network.name {
        Some(v) => v.clone(),
        None => {
            return Err(invalid(owned("supervisor returned no name")));
        },
    };
    let cidr = match &network.cidr {
        Some(v) => v.clone(),
        None => {
            return Err(invalid(owned("supervisor returned no cidr")));
        },
    };
    let gateway = match &network.gateway {
        Some(v) => v.clone(),
        None => {
            return Err(invalid(owned("supervisor returned no gateway")));
        },
    };
    let dns = match &network.dns {
        Some(v) => v.clone(),
        None => {
            return Err(invalid(owned("supervisor returned no dns")));
        },
    };
    let ip = match &attachment.ip {
        Some(v) => v.clone(),
        None => {
            return Err(invalid(owned("supervisor returned no ip")));
        },
    };
    let prefix: u8 = match result.prefix {
        Some(p) if p <= 255 => p as u8,
        _ => {
            return Err(invalid(owned("supervisor returned no network prefix")));
        },
    };
    let project = match &attachment.project {
        Some(p) => Some(p.clone()),
        None => match &network.project {
            Some(p) => Some(p.clone()),
            None => None,
        },
    };
    let backend = match &network.backend {
        Some(b) => b.clone(),
        None => owned("vmnet"),
    };
    let automatic = match result.automatic {
        Some(b) => b,
        None => false,
    };
    let created = match result.created {
        Some(b) => b,
        None => false,
    };
    Ok(VmNetworkSelection { network: name, cidr, ip, gateway, dns, project, prefix, automatic, created, backend })
}

// ---------------------------------------------------------------- a VM's attachments

/// An attachment as the supervisor lists it; a field it lacks, or holds in
/// another type, is `None`.
pub struct NetAttachmentRow {
    pub vm_id: Option<String>,
    pub network: Option<String>,
    pub ip: Option<String>,
    pub project: Option<String>,
}

/// The last network of `nets` named `name`: a later entry of a name
/// replaces an earlier one.
pub open spec fn named_network(nets: Seq<NetworkReply>, name: Seq<char>) -> Option<NetworkReply>
    decreases nets.len(),
{
    if nets.len() == 0 {
        None
    } else if opt_view(nets.last().name) == Some(name) {
        Some(nets.last())
    } else {
        named_network(nets.drop_last(), name)
    }
}

/// The prefix length a network's range gives: the number after its `/`
/// where that is a byte, else 24.
pub open spec fn cidr_prefix(cidr: Option<String>) -> u64 {
    match cidr {
        Some(c) => match split_once_spec(c@, '/') {
            Some((_, p)) => match parse_unsigned_spec(p, 255) {
                Some(n) => n as u64,
                None => 24,
            },
            None => 24,
        },
        None => 24,
    }
}

/// The attach answer an attachment and its network amount to.
pub open spec fn reply_for(n: NetworkReply, row: NetAttachmentRow) -> AttachReply {
    AttachReply {
        network: Some(n),
        attachment: Some(AttachmentReply { ip: row.ip, project: row.project }),
        prefix: Some(cidr_prefix(n.cidr)),
        automatic: Some(false),
        created: Some(false),
    }
}

/// The NIC selections of the VM's attachments, in the supervisor's order,
/// or the first thing wrong with one.
pub open spec fn attachments_spec(nets: Seq<NetworkReply>, rows: Seq<NetAttachmentRow>, vm_id: Seq<char>) -> Result<
    Seq<SelectionView>,
    Seq<char>,
>
    decreases rows.len(),
{
    if rows.len() == 0 {
        Ok(Seq::empty())
    } else {
        match attachments_spec(nets, rows.drop_last(), vm_id) {
            Err(e) => Err(e),
            Ok(prev) => {
                let r = rows.last();
                if opt_view(r.vm_id) != Some(vm_id) {
                    Ok(prev)
                } else {
                    match r.network {
                        None => Err("attachment missing network"@),
                        Some(name) => match named_network(nets, name@) {
                            None => Err("attachment references unknown network "@ + name@),
                            Some(n) => match selection_spec(reply_for(n, r)) {
                                Ok(sel) => Ok(prev.push(sel)),
                                Err(e) => Err(e),
                            },
                        },
                    }
                }
            },
        }
    }
}

/// `a` comes before `b`: vmnet NICs before docker ones, then by network name.
pub open spec fn nic_before(a: SelectionView, b: SelectionView) -> bool {
    let da = a.backend == "docker"@;
    let db = b.backend == "docker"@;
    (!da && db) || (da == db && crate::order::lex_lt(a.network, b.network))
}

pub open spec fn nics_sorted(s: Seq<SelectionView>) -> bool {
    forall|i: int, j: int| 0 <= i < j < s.len() ==> !nic_before(#[trigger] s[j], #[trigger] s[i])
}

pub open spec fn selections_view(s: Seq<VmNetworkSelection>) -> Seq<SelectionView> {
    s.map_values(|x: VmNetworkSelection| selection_view(x))
}

fn copy_opt(o: &Option<String>) -> (r: Option<String>)
    ensures
        r == *o,
{
    match o {
        Some(s) => Some(s.clone()),
        None => None,
    }
}

fn copy_network(n: &NetworkReply) -> (r: NetworkReply)
    ensures
        r == *n,
{
    NetworkReply {
        name: copy_opt(&n.name),
        cidr: copy_opt(&n.cidr),
        gateway: copy_opt(&n.gateway),
        dns: copy_opt(&n.dns),
        project: copy_opt(&n.project),
        backend: copy_opt(&n.backend),
    }
}

fn find_network<'a>(nets: &'a [NetworkReply], name: &str) -> (r: Option<&'a NetworkReply>)
    ensures
        match named_network(nets@, name@) {
            Some(n) => r matches Some(x) && *x == n,
            None => r is None,
        },
{
    let mut i: usize = nets.len();
    assert(nets@.subrange(0, i as int) =~= nets@);
    while i > 0
        invariant
            i <= nets@.len(),
            named_network(nets@, name@) == named_network(nets@.subrange(0, i as int), name@),
        decreases i,
    {
        let ghost pre = nets@.subrange(0, i as int);
        assert(pre.drop_last() =~= nets@.subrange(0, i - 1));
        assert(pre.last() == nets@[i - 1]);
        let n = &nets[i - 1];
        let hit = match &n.name {
            Some(x) => str_eq(x.as_str(), name),
            None => false,
        };
        if hit {
            return Some(n);
        }
        i = i - 1;
    }
    assert(nets@.subrange(0, 0) =~= Seq::<NetworkReply>::empty());
    None
}

fn prefix_of(cidr: &Option<String>) -> (r: u64)
    ensures
        r == cidr_prefix(*cidr),
{
    match cidr {
        Some(c) => match split_first(c.as_str(), '/') {
            Some((_, p)) => match parse_unsigned(p.as_str(), 255) {
                Some(n) => n,
                None => 24,
            },
            None => 24,
        },
        None => 24,
    }
}

fn nic_less(a: &VmNetworkSelection, b: &VmNetworkSelection) -> (r: bool)
    ensures
        r == nic_before(selection_view(*a), selection_view(*b)),
{
    let da = a.is_docker_backend();
    let db = b.is_docker_backend();
    (!da && db) || (da == db && crate::order::str_less(a.network.as_str(), b.network.as_str()))
}

proof fn lemma_nic_before_total(a: SelectionView, b: SelectionView)
    ensures
        nic_before(a, b) || nic_before(b, a) || (a.backend == "docker"@) == (b.backend == "docker"@) && a.network
            == b.network,
{
    crate::order::lemma_lex_total(a.network, b.network);
}

proof fn lemma_nic_before_transitive(a: SelectionView, b: SelectionView, c: SelectionView)
    requires
        nic_before(a, b),
        nic_before(b, c),
    ensures
        nic_before(a, c),
{
    if crate::order::lex_lt(a.network, b.network) && crate::order::lex_lt(b.network, c.network) {
        crate::order::lemma_lex_transitive(a.network, b.network, c.network);
    }
}

proof fn lemma_nic_before_asymmetric(a: SelectionView, b: SelectionView)
    ensures
        !(nic_before(a, b) && nic_before(b, a)),
{
    crate::order::lemma_lex_asymmetric(a.network, b.network);
}

/// Inserts `x` after every selection that does not sort after it.
fn insert_nic(s: &mut Vec<VmNetworkSelection>, x: VmNetworkSelection)
    requires
        nics_sorted(selections_view(old(s)@)),
    ensures
        nics_sorted(selections_view(final(s)@)),
        selections_view(final(s)@).to_multiset() == selections_view(old(s)@).to_multiset().insert(selection_view(x)),
{
    let ghost v = selections_view(s@);
    let mut p: usize = 0;
    while p < s.len() && !nic_less(&x, &s[p])
        invariant
            p <= s@.len(),
            v == selections_view(s@),
            forall|k: int| 0 <= k < p ==> !nic_before(selection_view(x), #[trigger] v[k]),
        decreases s.len() - p,
    {
        p = p + 1;
    }
    let ghost xv = selection_view(x);
    s.insert(p, x);
    let ghost w = selections_view(s@);
    assert(w =~= v.insert(p as int, xv));
    proof {
        vstd::seq_lib::to_multiset_insert(v, p as int, xv);
        assert forall|i: int, j: int| 0 <= i < j < w.len() implies !nic_before(#[trigger] w[j], #[trigger] w[i]) by {
            if j < p {
                assert(w[i] == v[i] && w[j] == v[j]);
            } else if j == p {
                assert(w[i] == v[i]);
            } else if i > p {
                assert(w[i] == v[i - 1] && w[j] == v[j - 1]);
            } else if i == p {
                assert(w[j] == v[j - 1]);
                assert(nic_before(xv, v[p as int]));
                if j - 1 > p {
                    assert(!nic_before(v[j - 1], v[p as int]));
                    lemma_nic_before_total(v[j - 1], v[p as int]);
                    if nic_before(v[p as int], v[j - 1]) {
                        lemma_nic_before_transitive(xv, v[p as int], v[j - 1]);
                    } else {
                        lemma_nic_before_asymmetric(xv, v[p as int]);
                    }
                }
                lemma_nic_before_asymmetric(xv, v[j - 1]);
            } else {
                assert(w[i] == v[i] && w[j] == v[j - 1]);
            }
        }
    }
}

/// The NICs of the VM `vm_id`: one per attachment the supervisor lists for
/// it, read with its network as an attach answer would be, vmnet NICs first
/// and then docker ones, each group by network name.
pub fn list_vm_attachments(networks: &[NetworkReply], rows: &[NetAttachmentRow], vm_id: &str) -> (r: Result<
    Vec<VmNetworkSelection>,
    Failure,
>)
    ensures
        match attachments_spec(networks@, rows@, vm_id@) {
            Ok(sels) => r matches Ok(v) && nics_sorted(selections_view(v@)) && selections_view(v@).to_multiset()
                == sels.to_multiset(),
            Err(m) => r matches Err(f) && f.code == EXIT_INVALID && f.message@ == m,
        },
{
    let mut out: Vec<VmNetworkSelection> = Vec::new();
    let ghost mut done: Seq<SelectionView> = Seq::empty();
    let mut i: usize = 0;
    assert(rows@.subrange(0, 0) =~= Seq::<NetAttachmentRow>::empty());
    assert(selections_view(out@) =~= Seq::<SelectionView>::empty());
    while i < rows.len()
        invariant
            i <= rows@.len(),
            attachments_spec(networks@, rows@.subrange(0, i as int), vm_id@) == Ok::<Seq<SelectionView>, Seq<char>>(
                done,
            ),
            nics_sorted(selections_view(out@)),
            selections_view(out@).to_multiset() == done.to_multiset(),
        decreases rows.len() - i,
    {
        let ghost pre = rows@.subrange(0, i + 1);
        assert(pre.drop_last() =~= rows@.subrange(0, i as int));
        assert(pre.last() == rows@[i as int]);
        let row = &rows[i];
        let mine = match &row.vm_id {
            Some(v) => str_eq(v.as_str(), vm_id),
            None => false,
        };
        if mine {
            let name = match &row.network {
                Some(n) => n,
                None => {
                    proof {
                        lemma_attachments_error_stays(networks@, rows@, vm_id@, i as int + 1);
                    }
                    return Err(invalid(owned("attachment missing network")));
                },
            };
            let network = match find_network(networks, name.as_str()) {
                Some(n) => n,
                None => {
                    proof {
                        lemma_attachments_error_stays(networks@, rows@, vm_id@, i as int + 1);
                    }
                    return Err(invalid(cat("attachment references unknown network ", name.as_str())));
                },
            };
            let reply = AttachReply {
                network: Some(copy_network(network)),
                attachment: Some(AttachmentReply { ip: copy_opt(&row.ip), project: copy_opt(&row.project) }),
                prefix: Some(prefix_of(&network.cidr)),
                automatic: Some(false),
                created: Some(false),
            };
            assert(reply == reply_for(*network, *row));
            match vm_network_selection(&reply) {
                Ok(sel) => {
                    proof {
                        vstd::seq_lib::to_multiset_build(done, selection_view(sel));
                        done = done.push(selection_view(sel));
                    }
                    insert_nic(&mut out, sel);
                },
                Err(f) => {
                    proof {
                        lemma_attachments_error_stays(networks@, rows@, vm_id@, i as int + 1);
                    }
                    return Err(f);
                },
            }
        }
        i = i + 1;
    }
    assert(rows@.subrange(0, rows@.len() as int) =~= rows@);
    Ok(out)
}

/// Once an attachment is refused, every longer list is refused with the
/// same message.
proof fn lemma_attachments_error_stays(nets: Seq<NetworkReply>, rows: Seq<NetAttachmentRow>, vm_id: Seq<char>, k: int)
    requires
        0 < k <= rows.len(),
        attachments_spec(nets, rows.subrange(0, k), vm_id) is Err,
    ensures
        attachments_spec(nets, rows, vm_id) == attachments_spec(nets, rows.subrange(0, k), vm_id),
    decreases rows.len() - k,
{
    if k < rows.len() {
        assert(rows.subrange(0, k + 1).drop_last() =~= rows.subrange(0, k));
        lemma_attachments_error_stays(nets, rows, vm_id, k + 1);
    } else {
        assert(rows.subrange(0, k) =~= rows);
    }
}

} // verus!
