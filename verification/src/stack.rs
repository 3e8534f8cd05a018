//! The `stack` command: reading the options of its subcommands.
use crate::text::{cat, first_char_is, owned, parse_unsigned, parse_unsigned_spec, str_eq, strings_view};
use vstd::prelude::*;

verus! {

pub const EXIT_USAGE: u8 = 2;
pub const EXIT_INVALID: u8 = 3;

#[derive(Clone, Copy, Debug, PartialEq, Eq, Structural)]
pub enum Format {
    Human,
    Json,
}

/// A failed command: its exit code and message.
#[derive(Debug)]
pub struct Failure {
    pub code: u8,
    pub message: String,
}

pub type Refusal = (u8, Seq<char>);

fn fail(code: u8, message: String) -> (r: Failure)
    ensures
        r.code == code,
        r.message@ == message@,
{
    Failure { code, message }
}

pub open spec fn failure_is(r: Failure, e: Refusal) -> bool {
    r.code == e.0 && r.message@ == e.1
}

/// The format given after `--format`, if it is one.
pub open spec fn format_at(args: Seq<Seq<char>>, j: int) -> Option<Format> {
    if 0 <= j < args.len() && args[j] == "human"@ {
        Some(Format::Human)
    } else if 0 <= j < args.len() && args[j] == "json"@ {
        Some(Format::Json)
    } else {
        None
    }
}

fn format_arg(args: &[String], j: usize) -> (r: Option<Format>)
    ensures
        r == format_at(strings_view(args@), j as int),
{
    if j < args.len() {
        assert(args@[j as int]@ == strings_view(args@)[j as int]);
        if str_eq(args[j].as_str(), "human") {
            return Some(Format::Human);
        } else if str_eq(args[j].as_str(), "json") {
            return Some(Format::Json);
        }
    }
    None
}

/// The argument is a flag.
pub open spec fn is_flag(a: Seq<char>) -> bool {
    a.len() > 0 && a[0] == '-'
}

/// The config directory and output format every subcommand takes.
#[derive(Debug)]
pub struct CommonOptions {
    pub config: String,
    pub format: Format,
}

/// What `stack init` was asked for.
#[derive(Debug)]
pub struct InitOptions {
    pub directory: String,
    pub name: String,
    pub cidr: String,
    pub force: bool,
    pub format: Format,
}

pub struct InitScan {
    pub directory: Seq<char>,
    pub name: Option<Seq<char>>,
    pub cidr: Seq<char>,
    pub force: bool,
    pub format: Format,
}

/// The options of `stack init` from argument `i` on.
pub open spec fn scan_init(args: Seq<Seq<char>>, i: int, s: InitScan) -> Result<InitScan, Refusal>
    decreases args.len() - i,
{
    if i >= args.len() || i < 0 {
        Ok(s)
    } else {
        let a = args[i];
        if a == "-C"@ || a == "--config"@ {
            if i + 1 < args.len() {
                scan_init(args, i + 2, InitScan { directory: args[i + 1], ..s })
            } else {
                Err((EXIT_USAGE, "-C requires a path"@))
            }
        } else if a == "--name"@ {
            if i + 1 < args.len() {
                scan_init(args, i + 2, InitScan { name: Some(args[i + 1]), ..s })
            } else {
                Err((EXIT_USAGE, "--name requires a value"@))
            }
        } else if a == "--cidr"@ {
            if i + 1 < args.len() {
                scan_init(args, i + 2, InitScan { cidr: args[i + 1], ..s })
            } else {
                Err((EXIT_USAGE, "--cidr requires a value"@))
            }
        } else if a == "--force"@ {
            scan_init(args, i + 1, InitScan { force: true, ..s })
        } else if a == "--format"@ {
            match format_at(args, i + 1) {
                Some(f) => scan_init(args, i + 2, InitScan { format: f, ..s }),
                None => Err((EXIT_USAGE, "--format requires human or json"@)),
            }
        } else if is_flag(a) {
            Err((EXIT_USAGE, "unknown stack init option: "@ + a))
        } else {
            scan_init(args, i + 1, InitScan { directory: a, ..s })
        }
    }
}

/// `stack init [DIR] --name <project> [--cidr CIDR] [--force] [-C path] [--format F]`.
pub open spec fn init_spec(args: Seq<Seq<char>>) -> Result<InitScan, Refusal> {
    match scan_init(
        args,
        0,
        InitScan { directory: "."@, name: None, cidr: "10.80.0.0/24"@, force: false, format: Format::Human },
    ) {
        Err(e) => Err(e),
        Ok(s) => if s.name.is_none() {
            Err((EXIT_USAGE, "--name is required"@))
        } else {
            Ok(s)
        },
    }
}

pub open spec fn opt_view(o: Option<String>) -> Option<Seq<char>> {
    match o {
        Some(s) => Some(s@),
        None => None,
    }
}

/// Reads the options of `stack init`.
pub fn parse_init(args: &[String]) -> (r: Result<InitOptions, Failure>)
    ensures
        match init_spec(strings_view(args@)) {
            Ok(s) => r matches Ok(o) && o.directory@ == s.directory && Some(o.name@) == s.name && o.cidr@ == s.cidr
                && o.force == s.force && o.format == s.format,
            Err(e) => r matches Err(f) && failure_is(f, e),
        },
{
    let ghost av = strings_view(args@);
    let mut directory = owned(".");
    let mut name: Option<String> = None;
    let mut cidr = owned("10.80.0.0/24");
    let mut force = false;
    let mut format = Format::Human;
    let mut i: usize = 0;
    while i < args.len()
        invariant
            i <= args@.len(),
            av == strings_view(args@),
            scan_init(
                av,
                0,
                InitScan { directory: "."@, name: None, cidr: "10.80.0.0/24"@, force: false, format: Format::Human },
            ) == scan_init(
                av,
                i as int,
                InitScan { directory: directory@, name: opt_view(name), cidr: cidr@, force, format },
            ),
        decreases args.len() - i,
    {
        let a = args[i].as_str();
        assert(a@ == av[i as int]);
        if str_eq(a, "-C") || str_eq(a, "--config") {
            if i + 1 >= args.len() {
                return Err(fail(EXIT_USAGE, owned("-C requires a path")));
            }
            directory = args[i + 1].clone();
            assert(directory@ == av[i + 1]);
            i = i + 2;
        } else if str_eq(a, "--name") {
            if i + 1 >= args.len() {
                return Err(fail(EXIT_USAGE, owned("--name requires a value")));
            }
            name = Some(args[i + 1].clone());
            assert(args@[i + 1]@ == av[i + 1]);
            i = i + 2;
        } else if str_eq(a, "--cidr") {
            if i + 1 >= args.len() {
                return Err(fail(EXIT_USAGE, owned("--cidr requires a value")));
            }
            cidr = args[i + 1].clone();
            assert(cidr@ == av[i + 1]);
            i = i + 2;
        } else if str_eq(a, "--force") {
            force = true;
            i = i + 1;
        } else if str_eq(a, "--format") {
            match format_arg(args, i + 1) {
                Some(f) => format = f,
                None => return Err(fail(EXIT_USAGE, owned("--format requires human or json"))),
            }
            i = i + 2;
        } else if first_char_is(a, '-') {
            return Err(fail(EXIT_USAGE, cat("unknown stack init option: ", a)));
        } else {
            directory = owned(a);
            i = i + 1;
        }
    }
    match name {
        None => Err(fail(EXIT_USAGE, owned("--name is required"))),
        Some(name) => Ok(InitOptions { directory, name, cidr, force, format }),
    }
}

/// What a VM added to a stack's configuration gets.
#[derive(Debug)]
pub struct AddVmOptions {
    pub from_image: String,
    pub network: Option<String>,
    pub ip: Option<String>,
    pub disk: String,
    pub cpus: Option<u32>,
    pub memory: Option<String>,
    pub roles: Vec<String>,
    pub cloud_init: Option<String>,
}

/// What `stack vm add` was asked for.
#[derive(Debug)]
pub struct VmAddOptions {
    pub common: CommonOptions,
    pub name: String,
    pub vm: AddVmOptions,
}

pub struct VmAddScan {
    pub config: Seq<char>,
    pub format: Format,
    pub name: Option<Seq<char>>,
    pub from_image: Seq<char>,
    pub network: Option<Seq<char>>,
    pub ip: Option<Seq<char>>,
    pub disk: Seq<char>,
    pub cpus: Option<u32>,
    pub memory: Option<Seq<char>>,
    pub roles: Seq<Seq<char>>,
    pub cloud_init: Option<Seq<char>>,
}

/// A `stack vm add` flag that takes a value, with the message for a missing one.
pub open spec fn vm_add_value_message(a: Seq<char>) -> Option<Seq<char>> {
    if a == "-C"@ || a == "--config"@ {
        Some("-C requires a path"@)
    } else if a == "--from"@ {
        Some("--from requires a value"@)
    } else if a == "--network"@ {
        Some("--network requires a value"@)
    } else if a == "--ip"@ {
        Some("--ip requires a value"@)
    } else if a == "--disk"@ || a == "--data-disk"@ {
        Some("--disk requires a value"@)
    } else if a == "--cpus"@ {
        Some("--cpus requires a value"@)
    } else if a == "--memory"@ {
        Some("--memory requires a value"@)
    } else if a == "--role"@ {
        Some("--role requires router or docker"@)
    } else if a == "--cloud-init"@ {
        Some("--cloud-init requires a path"@)
    } else {
        None
    }
}

/// The scan after a `stack vm add` flag with its value.
pub open spec fn vm_add_value(s: VmAddScan, a: Seq<char>, v: Seq<char>) -> Result<VmAddScan, Refusal> {
    if a == "-C"@ || a == "--config"@ {
        Ok(VmAddScan { config: v, ..s })
    } else if a == "--from"@ {
        Ok(VmAddScan { from_image: v, ..s })
    } else if a == "--network"@ {
        Ok(VmAddScan { network: Some(v), ..s })
    } else if a == "--ip"@ {
        Ok(VmAddScan { ip: Some(v), ..s })
    } else if a == "--disk"@ || a == "--data-disk"@ {
        Ok(VmAddScan { disk: v, ..s })
    } else if a == "--cpus"@ {
        match parse_unsigned_spec(v, u32::MAX as nat) {
            Some(n) => Ok(VmAddScan { cpus: Some(n as u32), ..s }),
            None => Err((EXIT_INVALID, "--cpus must be a positive integer"@)),
        }
    } else if a == "--memory"@ {
        Ok(VmAddScan { memory: Some(v), ..s })
    } else if a == "--role"@ {
        if v != "router"@ && v != "docker"@ {
            Err((EXIT_INVALID, "--role must be router or docker"@))
        } else {
            Ok(VmAddScan { roles: s.roles.push(v), ..s })
        }
    } else {
        Ok(VmAddScan { cloud_init: Some(v), ..s })
    }
}

/// The options of `stack vm add` from argument `i` on.
pub open spec fn scan_vm_add(args: Seq<Seq<char>>, i: int, s: VmAddScan) -> Result<VmAddScan, Refusal>
    decreases args.len() - i,
{
    if i >= args.len() || i < 0 {
        Ok(s)
    } else {
        let a = args[i];
        if a == "--format"@ {
            match format_at(args, i + 1) {
                Some(f) => scan_vm_add(args, i + 2, VmAddScan { format: f, ..s }),
                None => Err((EXIT_USAGE, "--format requires human or json"@)),
            }
        } else {
            match vm_add_value_message(a) {
                Some(missing) => if i + 1 < args.len() {
                    match vm_add_value(s, a, args[i + 1]) {
                        Ok(next) => scan_vm_add(args, i + 2, next),
                        Err(e) => Err(e),
                    }
                } else {
                    Err((EXIT_USAGE, missing))
                },
                None => if is_flag(a) {
                    Err((EXIT_USAGE, "unknown stack vm add option: "@ + a))
                } else if s.name.is_some() {
                    Err((EXIT_USAGE, "stack vm add accepts only one VM name"@))
                } else {
                    scan_vm_add(args, i + 1, VmAddScan { name: Some(a), ..s })
                },
            }
        }
    }
}

pub open spec fn vm_add_start() -> VmAddScan {
    VmAddScan {
        config: "."@,
        format: Format::Human,
        name: None,
        from_image: "ubuntu-base"@,
        network: None,
        ip: None,
        disk: "4G"@,
        cpus: None,
        memory: None,
        roles: Seq::empty(),
        cloud_init: None,
    }
}

/// `stack vm add <name> [flags]`: a VM name is required.
pub open spec fn vm_add_spec(args: Seq<Seq<char>>) -> Result<VmAddScan, Refusal> {
    match scan_vm_add(args, 0, vm_add_start()) {
        Err(e) => Err(e),
        Ok(s) => if s.name.is_none() {
            Err((EXIT_USAGE, "stack vm add requires a VM name"@))
        } else {
            Ok(s)
        },
    }
}

struct VmAddState {
    config: String,
    format: Format,
    name: Option<String>,
    from_image: String,
    network: Option<String>,
    ip: Option<String>,
    disk: String,
    cpus: Option<u32>,
    memory: Option<String>,
    roles: Vec<String>,
    cloud_init: Option<String>,
}

spec fn vm_add_view(s: VmAddState) -> VmAddScan {
    VmAddScan {
        config: s.config@,
        format: s.format,
        name: opt_view(s.name),
        from_image: s.from_image@,
        network: opt_view(s.network),
        ip: opt_view(s.ip),
        disk: s.disk@,
        cpus: s.cpus,
        memory: opt_view(s.memory),
        roles: strings_view(s.roles@),
        cloud_init: opt_view(s.cloud_init),
    }
}

fn vm_add_missing(a: &str) -> (r: Option<&'static str>)
    ensures
        match vm_add_value_message(a@) {
            Some(m) => r matches Some(x) && x@ == m,
            None => r is None,
        },
{
    if str_eq(a, "-C") || str_eq(a, "--config") {
        Some("-C requires a path")
    } else if str_eq(a, "--from") {
        Some("--from requires a value")
    } else if str_eq(a, "--network") {
        Some("--network requires a value")
    } else if str_eq(a, "--ip") {
        Some("--ip requires a value")
    } else if str_eq(a, "--disk") || str_eq(a, "--data-disk") {
        Some("--disk requires a value")
    } else if str_eq(a, "--cpus") {
        Some("--cpus requires a value")
    } else if str_eq(a, "--memory") {
        Some("--memory requires a value")
    } else if str_eq(a, "--role") {
        Some("--role requires router or docker")
    } else if str_eq(a, "--cloud-init") {
        Some("--cloud-init requires a path")
    } else {
        None
    }
}

fn vm_add_apply(s: &mut VmAddState, a: &str, v: &str) -> (r: Result<(), Failure>)
    requires
        vm_add_value_message(a@).is_some(),
    ensures
        match vm_add_value(vm_add_view(*old(s)), a@, v@) {
            Ok(next) => r is Ok && vm_add_view(*final(s)) == next,
            Err(e) => r matches Err(f) && failure_is(f, e),
        },
{
    if str_eq(a, "-C") || str_eq(a, "--config") {
        s.config = owned(v);
    } else if str_eq(a, "--from") {
        s.from_image = owned(v);
    } else if str_eq(a, "--network") {
        s.network = Some(owned(v));
    } else if str_eq(a, "--ip") {
        s.ip = Some(owned(v));
    } else if str_eq(a, "--disk") || str_eq(a, "--data-disk") {
        s.disk = owned(v);
    } else if str_eq(a, "--cpus") {
        match parse_unsigned(v, 4294967295) {
            Some(n) => s.cpus = Some(n as u32),
            None => return Err(fail(EXIT_INVALID, owned("--cpus must be a positive integer"))),
        }
    } else if str_eq(a, "--memory") {
        s.memory = Some(owned(v));
    } else if str_eq(a, "--role") {
        if !str_eq(v, "router") && !str_eq(v, "docker") {
            return Err(fail(EXIT_INVALID, owned("--role must be router or docker")));
        }
        let ghost before = strings_view(s.roles@);
        s.roles.push(owned(v));
        assert(strings_view(s.roles@) =~= before.push(v@));
    } else {
        s.cloud_init = Some(owned(v));
    }
    Ok(())
}

pub open spec fn vm_add_options_view(o: VmAddOptions) -> VmAddScan {
    VmAddScan {
        config: o.common.config@,
        format: o.common.format,
        name: Some(o.name@),
        from_image: o.vm.from_image@,
        network: opt_view(o.vm.network),
        ip: opt_view(o.vm.ip),
        disk: o.vm.disk@,
        cpus: o.vm.cpus,
        memory: opt_view(o.vm.memory),
        roles: strings_view(o.vm.roles@),
        cloud_init: opt_view(o.vm.cloud_init),
    }
}

/// Reads the options of `stack vm add`.
pub fn parse_vm_add(args: &[String]) -> (r: Result<VmAddOptions, Failure>)
    ensures
        match vm_add_spec(strings_view(args@)) {
            Ok(s) => r matches Ok(o) && vm_add_options_view(o) == s,
            Err(e) => r matches Err(f) && failure_is(f, e),
        },
{
    let ghost av = strings_view(args@);
    let mut st = VmAddState {
        config: owned("."),
        format: Format::Human,
        name: None,
        from_image: owned("ubuntu-base"),
        network: None,
        ip: None,
        disk: owned("4G"),
        cpus: None,
        memory: None,
        roles: Vec::new(),
        cloud_init: None,
    };
    assert(vm_add_view(st) == vm_add_start()) by {
        assert(strings_view(st.roles@) =~= Seq::<Seq<char>>::empty());
    }
    let mut i: usize = 0;
    while i < args.len()
        invariant
            i <= args@.len(),
            av == strings_view(args@),
            scan_vm_add(av, 0, vm_add_start()) == scan_vm_add(av, i as int, vm_add_view(st)),
        decreases args.len() - i,
    {
        let a = args[i].as_str();
        assert(a@ == av[i as int]);
        if str_eq(a, "--format") {
            match format_arg(args, i + 1) {
                Some(f) => st.format = f,
                None => return Err(fail(EXIT_USAGE, owned("--format requires human or json"))),
            }
            i = i + 2;
        } else {
            match vm_add_missing(a) {
                Some(missing) => {
                    if i + 1 >= args.len() {
                        return Err(fail(EXIT_USAGE, owned(missing)));
                    }
                    let v = args[i + 1].as_str();
                    assert(v@ == av[i + 1]);
                    match vm_add_apply(&mut st, a, v) {
                        Ok(()) => {},
                        Err(f) => return Err(f),
                    }
                    i = i + 2;
                },
                None => {
                    if first_char_is(a, '-') {
                        return Err(fail(EXIT_USAGE, cat("unknown stack vm add option: ", a)));
                    }
                    if st.name.is_some() {
                        return Err(fail(EXIT_USAGE, owned("stack vm add accepts only one VM name")));
                    }
                    st.name = Some(owned(a));
                    i = i + 1;
                },
            }
        }
    }
    let name = match st.name {
        None => return Err(fail(EXIT_USAGE, owned("stack vm add requires a VM name"))),
        Some(n) => n,
    };
    Ok(VmAddOptions {
        common: CommonOptions { config: st.config, format: st.format },
        name,
        vm: AddVmOptions {
            from_image: st.from_image,
            network: st.network,
            ip: st.ip,
            disk: st.disk,
            cpus: st.cpus,
            memory: st.memory,
            roles: st.roles,
            cloud_init: st.cloud_init,
        },
    })
}

/// What `stack <kind> remove` was asked for.
#[derive(Debug)]
pub struct NamedRemoveOptions {
    pub config: String,
    pub name: String,
    pub format: Format,
}

/// The config, name and format of a removal from argument `i` on.
pub open spec fn scan_named_remove(
    args: Seq<Seq<char>>,
    i: int,
    label: Seq<char>,
    config: Seq<char>,
    name: Option<Seq<char>>,
    format: Format,
) -> Result<(Seq<char>, Option<Seq<char>>, Format), Refusal>
    decreases args.len() - i,
{
    if i >= args.len() || i < 0 {
        Ok((config, name, format))
    } else {
        let a = args[i];
        if a == "-C"@ || a == "--config"@ {
            if i + 1 < args.len() {
                scan_named_remove(args, i + 2, label, args[i + 1], name, format)
            } else {
                Err((EXIT_USAGE, "-C requires a path"@))
            }
        } else if a == "--format"@ {
            match format_at(args, i + 1) {
                Some(f) => scan_named_remove(args, i + 2, label, config, name, f),
                None => Err((EXIT_USAGE, "--format requires human or json"@)),
            }
        } else if is_flag(a) {
            Err((EXIT_USAGE, "unknown "@ + label + " option: "@ + a))
        } else if name.is_some() {
            Err((EXIT_USAGE, label + " accepts only one name"@))
        } else {
            scan_named_remove(args, i + 1, label, config, Some(a), format)
        }
    }
}

/// `stack <kind> remove <name> [-C path] [--format F]`.
pub open spec fn named_remove_spec(args: Seq<Seq<char>>, label: Seq<char>) -> Result<(Seq<char>, Seq<char>, Format), Refusal> {
    match scan_named_remove(args, 0, label, "."@, None, Format::Human) {
        Err(e) => Err(e),
        Ok((config, name, format)) => match name {
            None => Err((EXIT_USAGE, label + " requires a name"@)),
            Some(n) => Ok((config, n, format)),
        },
    }
}

/// Reads the options of a removal; `usage_label` names the command in messages.
pub fn parse_named_remove(args: &[String], usage_label: &str) -> (r: Result<NamedRemoveOptions, Failure>)
    ensures
        match named_remove_spec(strings_view(args@), usage_label@) {
            Ok((c, n, f)) => r matches Ok(o) && o.config@ == c && o.name@ == n && o.format == f,
            Err(e) => r matches Err(x) && failure_is(x, e),
        },
{
    let ghost av = strings_view(args@);
    let mut config = owned(".");
    let mut name: Option<String> = None;
    let mut format = Format::Human;
    let mut i: usize = 0;
    while i < args.len()
        invariant
            i <= args@.len(),
            av == strings_view(args@),
            scan_named_remove(av, 0, usage_label@, "."@, None, Format::Human) == scan_named_remove(
                av,
                i as int,
                usage_label@,
                config@,
                opt_view(name),
                format,
            ),
        decreases args.len() - i,
    {
        let a = args[i].as_str();
        assert(a@ == av[i as int]);
        if str_eq(a, "-C") || str_eq(a, "--config") {
            if i + 1 >= args.len() {
                return Err(fail(EXIT_USAGE, owned("-C requires a path")));
            }
            config = args[i + 1].clone();
            assert(config@ == av[i + 1]);
            i = i + 2;
        } else if str_eq(a, "--format") {
            match format_arg(args, i + 1) {
                Some(f) => format = f,
                None => return Err(fail(EXIT_USAGE, owned("--format requires human or json"))),
            }
            i = i + 2;
        } else if first_char_is(a, '-') {
            let head = crate::text::cat3("unknown ", usage_label, " option: ");
            return Err(fail(EXIT_USAGE, cat(head.as_str(), a)));
        } else if name.is_some() {
            return Err(fail(EXIT_USAGE, cat(usage_label, " accepts only one name")));
        } else {
            name = Some(owned(a));
            i = i + 1;
        }
    }
    match name {
        None => Err(fail(EXIT_USAGE, cat(usage_label, " requires a name"))),
        Some(name) => Ok(NamedRemoveOptions { config, name, format }),
    }
}

/// JSON output was asked for: some `--format` is directly followed by `json`.
pub open spec fn asks_json(args: Seq<Seq<char>>) -> bool {
    exists|i: int| 0 <= i && i + 1 < args.len() && #[trigger] args[i] == "--format"@ && args[i + 1] == "json"@
}

/// The output format to report a refused command in.
pub fn requested_format(args: &[String]) -> (r: Format)
    ensures
        r == (if asks_json(strings_view(args@)) {
            Format::Json
        } else {
            Format::Human
        }),
{
    let ghost av = strings_view(args@);
    let n = args.len();
    let mut i: usize = 0;
    while n > 0 && i < n - 1
        invariant
            av == strings_view(args@),
            n == args@.len(),
            i <= args@.len(),
            forall|j: int| 0 <= j < i && j + 1 < av.len() ==> !(#[trigger] av[j] == "--format"@ && av[j + 1] == "json"@),
        decreases args.len() - i,
    {
        if str_eq(args[i].as_str(), "--format") && str_eq(args[i + 1].as_str(), "json") {
            assert(av[i as int] == "--format"@ && av[i + 1] == "json"@);
            return Format::Json;
        }
        i = i + 1;
    }
    Format::Human
}

// ---------------------------------------------------------------------------
// `stack net add`, `stack volume add`, `stack mount add|remove`

/// How a network reaches the host.
#[derive(Clone, Copy, Debug, PartialEq, Eq, Structural)]
pub enum NetworkMode {
    Shared,
    Host,
}

/// What carries a network: vmnet, or a docker network with no helper NIC.
#[derive(Clone, Copy, Debug, PartialEq, Eq, Structural)]
pub enum NetworkBackend {
    Vmnet,
    Docker,
}

/// What `stack net add` was asked for.
#[derive(Debug)]
pub struct NetAddOptions {
    pub config: String,
    pub format: Format,
    pub name: String,
    pub cidr: String,
    pub mode: NetworkMode,
    pub backend: NetworkBackend,
    pub nat_egress: bool,
}

pub struct NetScan {
    pub config: Seq<char>,
    pub format: Format,
    pub name: Option<Seq<char>>,
    pub cidr: Option<Seq<char>>,
    pub mode: NetworkMode,
    pub backend: NetworkBackend,
    pub nat_egress: bool,
}

/// The options of `stack net add` from argument `i` on.
pub open spec fn scan_net_add(args: Seq<Seq<char>>, i: int, s: NetScan) -> Result<NetScan, Refusal>
    decreases args.len() - i,
{
    if i >= args.len() || i < 0 {
        Ok(s)
    } else {
        let a = args[i];
        let with_value = i + 1 < args.len();
        if a == "-C"@ || a == "--config"@ {
            if with_value {
                scan_net_add(args, i + 2, NetScan { config: args[i + 1], ..s })
            } else {
                Err((EXIT_USAGE, "-C requires a path"@))
            }
        } else if a == "--format"@ {
            match format_at(args, i + 1) {
                Some(f) => scan_net_add(args, i + 2, NetScan { format: f, ..s }),
                None => Err((EXIT_USAGE, "--format requires human or json"@)),
            }
        } else if a == "--cidr"@ {
            if with_value {
                scan_net_add(args, i + 2, NetScan { cidr: Some(args[i + 1]), ..s })
            } else {
                Err((EXIT_USAGE, "--cidr requires a value"@))
            }
        } else if a == "--mode"@ {
            if !with_value {
                Err((EXIT_USAGE, "--mode requires shared or host"@))
            } else if args[i + 1] == "shared"@ {
                scan_net_add(args, i + 2, NetScan { mode: NetworkMode::Shared, ..s })
            } else if args[i + 1] == "host"@ {
                scan_net_add(args, i + 2, NetScan { mode: NetworkMode::Host, ..s })
            } else {
                Err((EXIT_INVALID, "--mode must be shared or host"@))
            }
        } else if a == "--backend"@ {
            if !with_value {
                Err((EXIT_USAGE, "--backend requires vmnet or docker"@))
            } else if args[i + 1] == "vmnet"@ {
                scan_net_add(args, i + 2, NetScan { backend: NetworkBackend::Vmnet, ..s })
            } else if args[i + 1] == "docker"@ {
                scan_net_add(args, i + 2, NetScan { backend: NetworkBackend::Docker, ..s })
            } else {
                Err((EXIT_INVALID, "--backend must be vmnet or docker"@))
            }
        } else if a == "--nat-egress"@ {
            scan_net_add(args, i + 1, NetScan { nat_egress: true, ..s })
        } else if a == "--no-nat-egress"@ {
            scan_net_add(args, i + 1, NetScan { nat_egress: false, ..s })
        } else if is_flag(a) {
            Err((EXIT_USAGE, "unknown stack net add option: "@ + a))
        } else if s.name is Some {
            Err((EXIT_USAGE, "stack net add accepts only one network name"@))
        } else {
            scan_net_add(args, i + 1, NetScan { name: Some(a), ..s })
        }
    }
}

pub open spec fn net_add_start() -> NetScan {
    NetScan {
        config: "."@,
        format: Format::Human,
        name: None,
        cidr: None,
        mode: NetworkMode::Shared,
        backend: NetworkBackend::Vmnet,
        nat_egress: true,
    }
}

/// `stack net add NAME --cidr CIDR [...]`: a name and a CIDR are required;
/// a docker network has no NAT egress.
pub open spec fn net_add_spec(args: Seq<Seq<char>>) -> Result<NetScan, Refusal> {
    match scan_net_add(args, 0, net_add_start()) {
        Err(e) => Err(e),
        Ok(s) => if s.name is None {
            Err((EXIT_USAGE, "stack net add requires a network name"@))
        } else if s.cidr is None {
            Err((EXIT_USAGE, "--cidr is required"@))
        } else {
            Ok(NetScan { nat_egress: s.nat_egress && s.backend != NetworkBackend::Docker, ..s })
        },
    }
}

pub open spec fn net_add_view(o: NetAddOptions) -> NetScan {
    NetScan {
        config: o.config@,
        format: o.format,
        name: Some(o.name@),
        cidr: Some(o.cidr@),
        mode: o.mode,
        backend: o.backend,
        nat_egress: o.nat_egress,
    }
}

fn value_at(args: &[String], j: usize) -> (r: Option<String>)
    ensures
        j < args@.len() ==> (r matches Some(v) && v@ == strings_view(args@)[j as int]),
        j >= args@.len() ==> r is None,
{
    if j < args.len() {
        assert(args@[j as int]@ == strings_view(args@)[j as int]);
        Some(args[j].clone())
    } else {
        None
    }
}

/// Reads the options of `stack net add`.
pub fn parse_net_add(args: &[String]) -> (r: Result<NetAddOptions, Failure>)
    ensures
        match net_add_spec(strings_view(args@)) {
            Ok(v) => r matches Ok(o) && net_add_view(o) == v,
            Err(e) => r matches Err(x) && failure_is(x, e),
        },
{
    let ghost av = strings_view(args@);
    let mut config = owned(".");
    let mut format = Format::Human;
    let mut name: Option<String> = None;
    let mut cidr: Option<String> = None;
    let mut mode = NetworkMode::Shared;
    let mut backend = NetworkBackend::Vmnet;
    let mut nat_egress = true;
    let mut i: usize = 0;
    while i < args.len()
        invariant
            i <= args@.len(),
            av == strings_view(args@),
            scan_net_add(av, 0, net_add_start()) == scan_net_add(
                av,
                i as int,
                NetScan { config: config@, format, name: opt_view(name), cidr: opt_view(cidr), mode, backend, nat_egress },
            ),
        decreases args.len() - i,
    {
        let a = args[i].as_str();
        assert(a@ == av[i as int]);
        if str_eq(a, "-C") || str_eq(a, "--config") {
            match value_at(args, i + 1) {
                Some(v) => config = v,
                None => return Err(fail(EXIT_USAGE, owned("-C requires a path"))),
            }
            i = i + 2;
        } else if str_eq(a, "--format") {
            match format_arg(args, i + 1) {
                Some(f) => format = f,
                None => return Err(fail(EXIT_USAGE, owned("--format requires human or json"))),
            }
            i = i + 2;
        } else if str_eq(a, "--cidr") {
            match value_at(args, i + 1) {
                Some(v) => cidr = Some(v),
                None => return Err(fail(EXIT_USAGE, owned("--cidr requires a value"))),
            }
            i = i + 2;
        } else if str_eq(a, "--mode") {
            let v = match value_at(args, i + 1) {
                Some(v) => v,
                None => return Err(fail(EXIT_USAGE, owned("--mode requires shared or host"))),
            };
            if str_eq(v.as_str(), "shared") {
                mode = NetworkMode::Shared;
            } else if str_eq(v.as_str(), "host") {
                mode = NetworkMode::Host;
            } else {
                return Err(fail(EXIT_INVALID, owned("--mode must be shared or host")));
            }
            i = i + 2;
        } else if str_eq(a, "--backend") {
            let v = match value_at(args, i + 1) {
                Some(v) => v,
                None => return Err(fail(EXIT_USAGE, owned("--backend requires vmnet or docker"))),
            };
            if str_eq(v.as_str(), "vmnet") {
                backend = NetworkBackend::Vmnet;
            } else if str_eq(v.as_str(), "docker") {
                backend = NetworkBackend::Docker;
            } else {
                return Err(fail(EXIT_INVALID, owned("--backend must be vmnet or docker")));
            }
            i = i + 2;
        } else if str_eq(a, "--nat-egress") {
            nat_egress = true;
            i = i + 1;
        } else if str_eq(a, "--no-nat-egress") {
            nat_egress = false;
            i = i + 1;
        } else if first_char_is(a, '-') {
            return Err(fail(EXIT_USAGE, cat("unknown stack net add option: ", a)));
        } else if name.is_some() {
            return Err(fail(EXIT_USAGE, owned("stack net add accepts only one network name")));
        } else {
            name = Some(owned(a));
            i = i + 1;
        }
    }
    let name = match name {
        Some(n) => n,
        None => return Err(fail(EXIT_USAGE, owned("stack net add requires a network name"))),
    };
    let cidr = match cidr {
        Some(c) => c,
        None => return Err(fail(EXIT_USAGE, owned("--cidr is required"))),
    };
    if backend == NetworkBackend::Docker {
        nat_egress = false;
    }
    Ok(NetAddOptions { config, format, name, cidr, mode, backend, nat_egress })
}

/// What `stack volume add` was asked for.
#[derive(Debug)]
pub struct VolumeAddOptions {
    pub config: String,
    pub format: Format,
    pub name: String,
    pub path: String,
}

/// Config, format, name and path of `stack volume add` from argument `i` on.
pub open spec fn scan_volume_add(
    args: Seq<Seq<char>>,
    i: int,
    s: (Seq<char>, Format, Option<Seq<char>>, Option<Seq<char>>),
) -> Result<(Seq<char>, Format, Option<Seq<char>>, Option<Seq<char>>), Refusal>
    decreases args.len() - i,
{
    if i >= args.len() || i < 0 {
        Ok(s)
    } else {
        let a = args[i];
        if a == "-C"@ || a == "--config"@ {
            if i + 1 < args.len() {
                scan_volume_add(args, i + 2, (args[i + 1], s.1, s.2, s.3))
            } else {
                Err((EXIT_USAGE, "-C requires a path"@))
            }
        } else if a == "--format"@ {
            match format_at(args, i + 1) {
                Some(f) => scan_volume_add(args, i + 2, (s.0, f, s.2, s.3)),
                None => Err((EXIT_USAGE, "--format requires human or json"@)),
            }
        } else if is_flag(a) {
            Err((EXIT_USAGE, "unknown stack volume add option: "@ + a))
        } else if s.2 is None {
            scan_volume_add(args, i + 1, (s.0, s.1, Some(a), s.3))
        } else if s.3 is None {
            scan_volume_add(args, i + 1, (s.0, s.1, s.2, Some(a)))
        } else {
            Err((EXIT_USAGE, "stack volume add accepts only NAME PATH"@))
        }
    }
}

/// `stack volume add NAME PATH [-C path] [--format F]`.
pub open spec fn volume_add_spec(args: Seq<Seq<char>>) -> Result<(Seq<char>, Format, Seq<char>, Seq<char>), Refusal> {
    match scan_volume_add(args, 0, ("."@, Format::Human, None, None)) {
        Err(e) => Err(e),
        Ok(s) => match s.2 {
            None => Err((EXIT_USAGE, "stack volume add requires a volume name"@)),
            Some(n) => match s.3 {
                None => Err((EXIT_USAGE, "stack volume add requires a path"@)),
                Some(p) => Ok((s.0, s.1, n, p)),
            },
        },
    }
}

/// Reads the options of `stack volume add`.
pub fn parse_volume_add(args: &[String]) -> (r: Result<VolumeAddOptions, Failure>)
    ensures
        match volume_add_spec(strings_view(args@)) {
            Ok((c, f, n, p)) => r matches Ok(o) && o.config@ == c && o.format == f && o.name@ == n && o.path@ == p,
            Err(e) => r matches Err(x) && failure_is(x, e),
        },
{
    let ghost av = strings_view(args@);
    let mut config = owned(".");
    let mut format = Format::Human;
    let mut name: Option<String> = None;
    let mut path: Option<String> = None;
    let mut i: usize = 0;
    while i < args.len()
        invariant
            i <= args@.len(),
            av == strings_view(args@),
            scan_volume_add(av, 0, ("."@, Format::Human, None, None)) == scan_volume_add(
                av,
                i as int,
                (config@, format, opt_view(name), opt_view(path)),
            ),
        decreases args.len() - i,
    {
        let a = args[i].as_str();
        assert(a@ == av[i as int]);
        if str_eq(a, "-C") || str_eq(a, "--config") {
            match value_at(args, i + 1) {
                Some(v) => config = v,
                None => return Err(fail(EXIT_USAGE, owned("-C requires a path"))),
            }
            i = i + 2;
        } else if str_eq(a, "--format") {
            match format_arg(args, i + 1) {
                Some(f) => format = f,
                None => return Err(fail(EXIT_USAGE, owned("--format requires human or json"))),
            }
            i = i + 2;
        } else if first_char_is(a, '-') {
            return Err(fail(EXIT_USAGE, cat("unknown stack volume add option: ", a)));
        } else if name.is_none() {
            name = Some(owned(a));
            i = i + 1;
        } else if path.is_none() {
            path = Some(owned(a));
            i = i + 1;
        } else {
            return Err(fail(EXIT_USAGE, owned("stack volume add accepts only NAME PATH")));
        }
    }
    let name = match name {
        Some(n) => n,
        None => return Err(fail(EXIT_USAGE, owned("stack volume add requires a volume name"))),
    };
    match path {
        Some(path) => Ok(VolumeAddOptions { config, format, name, path }),
        None => Err(fail(EXIT_USAGE, owned("stack volume add requires a path"))),
    }
}

/// What `stack mount add` (with a source) or `stack mount remove` (without)
/// was asked for.
#[derive(Debug)]
pub struct MountOptions {
    pub config: String,
    pub format: Format,
    pub vm: String,
    pub source: Option<String>,
    pub target: String,
    pub read_only: bool,
}

pub struct MountScan {
    pub config: Seq<char>,
    pub format: Format,
    pub vm: Option<Seq<char>>,
    pub source: Option<Seq<char>>,
    pub target: Option<Seq<char>>,
    pub read_only: bool,
}

/// The options of `stack mount add` (`adding`) or `stack mount remove` from
/// argument `i` on; only adding takes a source and `--read-only`.
pub open spec fn scan_mount(args: Seq<Seq<char>>, i: int, adding: bool, s: MountScan) -> Result<MountScan, Refusal>
    decreases args.len() - i,
{
    let label = if adding {
        "stack mount add"@
    } else {
        "stack mount remove"@
    };
    if i >= args.len() || i < 0 {
        Ok(s)
    } else {
        let a = args[i];
        let with_value = i + 1 < args.len();
        if a == "-C"@ || a == "--config"@ {
            if with_value {
                scan_mount(args, i + 2, adding, MountScan { config: args[i + 1], ..s })
            } else {
                Err((EXIT_USAGE, "-C requires a path"@))
            }
        } else if a == "--format"@ {
            match format_at(args, i + 1) {
                Some(f) => scan_mount(args, i + 2, adding, MountScan { format: f, ..s }),
                None => Err((EXIT_USAGE, "--format requires human or json"@)),
            }
        } else if adding && a == "--source"@ {
            if with_value {
                scan_mount(args, i + 2, adding, MountScan { source: Some(args[i + 1]), ..s })
            } else {
                Err((EXIT_USAGE, "--source requires a value"@))
            }
        } else if a == "--target"@ {
            if with_value {
                scan_mount(args, i + 2, adding, MountScan { target: Some(args[i + 1]), ..s })
            } else {
                Err((EXIT_USAGE, "--target requires a value"@))
            }
        } else if adding && a == "--read-only"@ {
            scan_mount(args, i + 1, adding, MountScan { read_only: true, ..s })
        } else if is_flag(a) {
            Err((EXIT_USAGE, "unknown "@ + label + " option: "@ + a))
        } else if s.vm is Some {
            Err((EXIT_USAGE, label + " accepts only one VM name"@))
        } else {
            scan_mount(args, i + 1, adding, MountScan { vm: Some(a), ..s })
        }
    }
}

pub open spec fn mount_start() -> MountScan {
    MountScan { config: "."@, format: Format::Human, vm: None, source: None, target: None, read_only: false }
}

/// `stack mount add VM --source S --target T [--read-only]` or
/// `stack mount remove VM --target T`: a VM, (for adding) a source and a
/// target are required.
pub open spec fn mount_spec(args: Seq<Seq<char>>, adding: bool) -> Result<MountScan, Refusal> {
    let label = if adding {
        "stack mount add"@
    } else {
        "stack mount remove"@
    };
    match scan_mount(args, 0, adding, mount_start()) {
        Err(e) => Err(e),
        Ok(s) => if s.vm is None {
            Err((EXIT_USAGE, label + " requires a VM name"@))
        } else if adding && s.source is None {
            Err((EXIT_USAGE, "--source is required"@))
        } else if s.target is None {
            Err((EXIT_USAGE, "--target is required"@))
        } else {
            Ok(s)
        },
    }
}

pub open spec fn mount_view(o: MountOptions) -> MountScan {
    MountScan {
        config: o.config@,
        format: o.format,
        vm: Some(o.vm@),
        source: opt_view(o.source),
        target: Some(o.target@),
        read_only: o.read_only,
    }
}

fn parse_mount(args: &[String], adding: bool) -> (r: Result<MountOptions, Failure>)
    ensures
        match mount_spec(strings_view(args@), adding) {
            Ok(v) => r matches Ok(o) && mount_view(o) == v,
            Err(e) => r matches Err(x) && failure_is(x, e),
        },
{
    let label = if adding {
        "stack mount add"
    } else {
        "stack mount remove"
    };
    let ghost av = strings_view(args@);
    let mut config = owned(".");
    let mut format = Format::Human;
    let mut vm: Option<String> = None;
    let mut source: Option<String> = None;
    let mut target: Option<String> = None;
    let mut read_only = false;
    let mut i: usize = 0;
    while i < args.len()
        invariant
            i <= args@.len(),
            av == strings_view(args@),
            label@ == (if adding {
                "stack mount add"@
            } else {
                "stack mount remove"@
            }),
            scan_mount(av, 0, adding, mount_start()) == scan_mount(
                av,
                i as int,
                adding,
                MountScan {
                    config: config@,
                    format,
                    vm: opt_view(vm),
                    source: opt_view(source),
                    target: opt_view(target),
                    read_only,
                },
            ),
        decreases args.len() - i,
    {
        let a = args[i].as_str();
        assert(a@ == av[i as int]);
        if str_eq(a, "-C") || str_eq(a, "--config") {
            match value_at(args, i + 1) {
                Some(v) => config = v,
                None => return Err(fail(EXIT_USAGE, owned("-C requires a path"))),
            }
            i = i + 2;
        } else if str_eq(a, "--format") {
            match format_arg(args, i + 1) {
                Some(f) => format = f,
                None => return Err(fail(EXIT_USAGE, owned("--format requires human or json"))),
            }
            i = i + 2;
        } else if adding && str_eq(a, "--source") {
            match value_at(args, i + 1) {
                Some(v) => source = Some(v),
                None => return Err(fail(EXIT_USAGE, owned("--source requires a value"))),
            }
            i = i + 2;
        } else if str_eq(a, "--target") {
            match value_at(args, i + 1) {
                Some(v) => target = Some(v),
                None => return Err(fail(EXIT_USAGE, owned("--target requires a value"))),
            }
            i = i + 2;
        } else if adding && str_eq(a, "--read-only") {
            read_only = true;
            i = i + 1;
        } else if first_char_is(a, '-') {
            let head = crate::text::cat3("unknown ", label, " option: ");
            return Err(fail(EXIT_USAGE, cat(head.as_str(), a)));
        } else if vm.is_some() {
            return Err(fail(EXIT_USAGE, cat(label, " accepts only one VM name")));
        } else {
            vm = Some(owned(a));
            i = i + 1;
        }
    }
    let vm = match vm {
        Some(v) => v,
        None => return Err(fail(EXIT_USAGE, cat(label, " requires a VM name"))),
    };
    if adding && source.is_none() {
        return Err(fail(EXIT_USAGE, owned("--source is required")));
    }
    match target {
        Some(target) => Ok(MountOptions { config, format, vm, source, target, read_only }),
        None => Err(fail(EXIT_USAGE, owned("--target is required"))),
    }
}

/// Reads the options of `stack mount add`.
pub fn parse_mount_add(args: &[String]) -> (r: Result<MountOptions, Failure>)
    ensures
        match mount_spec(strings_view(args@), true) {
            Ok(v) => r matches Ok(o) && mount_view(o) == v,
            Err(e) => r matches Err(x) && failure_is(x, e),
        },
{
    parse_mount(args, true)
}

/// Reads the options of `stack mount remove`.
pub fn parse_mount_remove(args: &[String]) -> (r: Result<MountOptions, Failure>)
    ensures
        match mount_spec(strings_view(args@), false) {
            Ok(v) => r matches Ok(o) && mount_view(o) == v,
            Err(e) => r matches Err(x) && failure_is(x, e),
        },
{
    parse_mount(args, false)
}

} // verus!
