//! The cloud-config a new VM boots with: the guest agent's token, the helper
//! scripts and sudo rules it relies on, the local CA, and what the router role
//! adds.
use crate::cli::{base64url_spec, base64url_unpadded};
use crate::text::{cat, owned, str_eq, strings_view};
use crate::vm::VmIdentity;
use vstd::prelude::*;

verus! {

/// A file cloud-init writes into the guest.
pub struct WriteFile {
    pub path: String,
    pub owner: Option<String>,
    pub permissions: String,
    pub content: String,
}

pub struct FileView {
    pub path: Seq<char>,
    pub owner: Option<Seq<char>>,
    pub permissions: Seq<char>,
    pub content: Seq<char>,
}

impl View for WriteFile {
    type V = FileView;

    open spec fn view(&self) -> FileView {
        FileView {
            path: self.path@,
            owner: match self.owner {
                Some(o) => Some(o@),
                None => None,
            },
            permissions: self.permissions@,
            content: self.content@,
        }
    }
}

pub open spec fn files_view(fs: Seq<WriteFile>) -> Seq<FileView> {
    fs.map_values(|f: WriteFile| f@)
}

pub open spec fn file_of(path: Seq<char>, owner: Option<Seq<char>>, permissions: Seq<char>, content: Seq<char>) -> FileView {
    FileView { path, owner, permissions, content }
}

/// A command cloud-init runs at the end of the first boot: a shell line, or
/// a program with its arguments.
pub enum RunCommand {
    Shell(String),
    Argv(Vec<String>),
}

pub enum CommandView {
    Shell(Seq<char>),
    Argv(Seq<Seq<char>>),
}

pub open spec fn command_view(c: RunCommand) -> CommandView {
    match c {
        RunCommand::Shell(s) => CommandView::Shell(s@),
        RunCommand::Argv(v) => CommandView::Argv(strings_view(v@)),
    }
}

pub open spec fn commands_view(cs: Seq<RunCommand>) -> Seq<CommandView> {
    cs.map_values(|c: RunCommand| command_view(c))
}

/// The contents of the helper files the guest gets: the virtiofs bind
/// script, the router script, and the guest agent's systemd unit.
pub struct GuestAssets {
    pub virtiofs_bind: String,
    pub router_apply: String,
    pub agent_unit: String,
}

/// A certificate file of the local CA for the guest: its path, mode (the
/// default where none is given) and contents.
pub struct CaFile {
    pub path: String,
    pub permissions: Option<String>,
    pub content: String,
}

/// What cloud-init is to do: set the host name and the fully qualified name
/// (and keep `/etc/hosts` to them), replace the image's SSH host keys with
/// fresh ones of the listed types, enable root log-in where a password is
/// given, write the files, and run the commands, in order.
pub struct CloudConfig {
    pub preserve_hostname: bool,
    pub hostname: String,
    pub fqdn: String,
    pub prefer_fqdn_over_hostname: bool,
    pub manage_etc_hosts: bool,
    pub ssh_deletekeys: bool,
    pub ssh_genkeytypes: Vec<String>,
    pub root_password: Option<String>,
    pub write_files: Vec<WriteFile>,
    pub runcmd: Vec<RunCommand>,
}

/// The cloud-config as plain values.
pub struct ConfigView {
    pub preserve_hostname: bool,
    pub hostname: Seq<char>,
    pub fqdn: Seq<char>,
    pub prefer_fqdn_over_hostname: bool,
    pub manage_etc_hosts: bool,
    pub ssh_deletekeys: bool,
    pub ssh_genkeytypes: Seq<Seq<char>>,
    pub root_password: Option<Seq<char>>,
    pub write_files: Seq<FileView>,
    pub runcmd: Seq<CommandView>,
}

pub open spec fn config_view(c: CloudConfig) -> ConfigView {
    ConfigView {
        preserve_hostname: c.preserve_hostname,
        hostname: c.hostname@,
        fqdn: c.fqdn@,
        prefer_fqdn_over_hostname: c.prefer_fqdn_over_hostname,
        manage_etc_hosts: c.manage_etc_hosts,
        ssh_deletekeys: c.ssh_deletekeys,
        ssh_genkeytypes: strings_view(c.ssh_genkeytypes@),
        root_password: match c.root_password {
            Some(p) => Some(p@),
            None => None,
        },
        write_files: files_view(c.write_files@),
        runcmd: commands_view(c.runcmd@),
    }
}

/// The guest agent's token: 32 random bytes in unpadded base64url.
pub fn agent_token(random: &[u8]) -> (r: String)
    requires
        random@.len() == 32,
    ensures
        r@ == base64url_spec(random@),
{
    base64url_unpadded(random)
}

pub open spec fn root_owned() -> Option<Seq<char>> {
    Some("root:root"@)
}

/// The files every VM gets, before the CA's and the router's.
pub open spec fn base_files(token: Seq<char>, virtiofs_bind: Seq<char>, router_apply: Seq<char>, agent_unit: Seq<char>) -> Seq<FileView> {
    seq![
        file_of("/var/lib/vzctl/agent.token"@, Some("vzctl-agent:vzctl-agent"@), "0600"@, token + "\n"@),
        file_of("/usr/local/lib/vzctl/virtiofs-bind"@, root_owned(), "0755"@, virtiofs_bind),
        file_of(
            "/etc/sudoers.d/vzctl-virtiofs"@,
            root_owned(),
            "0440"@,
            "vzctl-agent ALL=(root) NOPASSWD: /usr/local/lib/vzctl/virtiofs-bind\n"@,
        ),
        file_of("/usr/local/lib/vzctl/router-apply"@, root_owned(), "0755"@, router_apply),
        file_of(
            "/etc/sudoers.d/vzctl-router"@,
            root_owned(),
            "0440"@,
            "vzctl-agent ALL=(root) NOPASSWD: /usr/local/lib/vzctl/router-apply\n"@,
        ),
        file_of("/etc/sudoers.d/vzctl-agent"@, root_owned(), "0440"@, "vzctl-agent ALL=(ALL) NOPASSWD:ALL\n"@),
        file_of("/etc/systemd/system/vzctl-agent.service"@, root_owned(), "0644"@, agent_unit),
    ]
}

pub open spec fn ca_file_view(c: CaFile) -> FileView {
    file_of(
        c.path@,
        None,
        match c.permissions {
            Some(p) => p@,
            None => "0644"@,
        },
        c.content@,
    )
}

/// The CA's files where the CA could be read, then the sudo rule that lets
/// the agent refresh the guest's trust store.
pub open spec fn ca_files_spec(ca: Option<Seq<CaFile>>) -> Seq<FileView> {
    match ca {
        None => Seq::empty(),
        Some(fs) => fs.map_values(|c: CaFile| ca_file_view(c)) + seq![
            file_of(
                "/etc/sudoers.d/vzctl-ca"@,
                None,
                "0440"@,
                "vzctl-agent ALL=(root) NOPASSWD: /usr/sbin/update-ca-certificates\n"@,
            ),
        ],
    }
}

pub open spec fn router_files(router: bool) -> Seq<FileView> {
    if router {
        seq![file_of("/etc/sysctl.d/90-vzctl-router.conf"@, root_owned(), "0644"@, "net.ipv4.ip_forward=1\n"@)]
    } else {
        Seq::empty()
    }
}

/// The commands every VM runs: reload systemd and restart the agent under
/// its rewritten unit; a router then applies its sysctl settings and drops
/// forwarded traffic by default.
pub open spec fn commands_spec(router: bool) -> Seq<CommandView> {
    seq![
        CommandView::Argv(seq!["systemctl"@, "daemon-reload"@]),
        CommandView::Argv(seq!["systemctl"@, "restart"@, "vzctl-agent.service"@]),
    ] + if router {
        seq![
            CommandView::Shell("sysctl --system"@),
            CommandView::Argv(
                seq!["sh"@, "-c"@, "command -v iptables >/dev/null && iptables -P FORWARD DROP || true"@],
            ),
        ]
    } else {
        Seq::empty()
    }
}

pub open spec fn files_spec(
    token: Seq<char>,
    assets: GuestAssets,
    ca: Option<Seq<CaFile>>,
    router: bool,
) -> Seq<FileView> {
    base_files(token, assets.virtiofs_bind@, assets.router_apply@, assets.agent_unit@) + ca_files_spec(ca) + router_files(router)
}

fn file(path: &str, owner: Option<&str>, permissions: &str, content: String) -> (r: WriteFile)
    ensures
        r@ == file_of(
            path@,
            match owner {
                Some(o) => Some(o@),
                None => None,
            },
            permissions@,
            content@,
        ),
{
    let owner = match owner {
        Some(o) => Some(owned(o)),
        None => None,
    };
    WriteFile { path: owned(path), owner, permissions: owned(permissions), content }
}

fn push_file(files: &mut Vec<WriteFile>, f: WriteFile)
    ensures
        files_view(final(files)@) == files_view(old(files)@).push(f@),
{
    let ghost before = files@;
    files.push(f);
    assert(files_view(files@) =~= files_view(before).push(f@));
}

fn argv(words: Vec<&str>) -> (r: RunCommand)
    ensures
        command_view(r) == CommandView::Argv(words@.map_values(|w: &str| w@)),
{
    let mut v: Vec<String> = Vec::new();
    let mut i: usize = 0;
    while i < words.len()
        invariant
            i <= words@.len(),
            strings_view(v@) == words@.subrange(0, i as int).map_values(|w: &str| w@),
        decreases words.len() - i,
    {
        let ghost before = strings_view(v@);
        let w = owned(words[i]);
        v.push(w);
        assert(strings_view(v@) =~= before.push(words@[i as int]@));
        assert(words@.subrange(0, i + 1).map_values(|w: &str| w@) =~= words@.subrange(0, i as int).map_values(
            |w: &str| w@,
        ).push(words@[i as int]@));
        i = i + 1;
    }
    assert(words@.subrange(0, words@.len() as int) =~= words@);
    RunCommand::Argv(v)
}

fn has_router_role(roles: &[String]) -> (r: bool)
    ensures
        r == strings_view(roles@).contains("router"@),
{
    let mut i: usize = 0;
    while i < roles.len()
        invariant
            i <= roles@.len(),
            forall|j: int| 0 <= j < i ==> roles@[j]@ != "router"@,
        decreases roles.len() - i,
    {
        if str_eq(roles[i].as_str(), "router") {
            assert(strings_view(roles@)[i as int] == "router"@);
            return true;
        }
        i = i + 1;
    }
    assert forall|j: int| 0 <= j < roles@.len() implies strings_view(roles@)[j] != "router"@ by {
        assert(strings_view(roles@)[j] == roles@[j]@);
    }
    false
}

/// The cloud-config of a new VM. `token` is the guest agent's token,
/// `assets` the helper files, `ca` the local CA's files (`None` where they
/// could not be read), `roles` the VM's roles and `root_password` the root
/// password, where log-in as root is wanted; the VM is known by the host
/// name and the fully qualified name of `identity`.
pub fn cloud_config(
    token: &str,
    assets: &GuestAssets,
    ca: Option<&Vec<CaFile>>,
    roles: &[String],
    root_password: Option<&str>,
    identity: &VmIdentity,
) -> (r: CloudConfig)
    ensures
        !r.preserve_hostname,
        r.hostname@ == identity.hostname@,
        r.fqdn@ == identity.fqdn@,
        r.prefer_fqdn_over_hostname,
        r.manage_etc_hosts,
        r.ssh_deletekeys,
        strings_view(r.ssh_genkeytypes@) == seq!["ed25519"@, "rsa"@],
        files_view(r.write_files@) == files_spec(
            token@,
            *assets,
            match ca {
                Some(c) => Some(c@),
                None => None,
            },
            strings_view(roles@).contains("router"@),
        ),
        commands_view(r.runcmd@) == commands_spec(strings_view(roles@).contains("router"@)),
        match root_password {
            Some(p) => r.root_password matches Some(q) && q@ == p@,
            None => r.root_password is None,
        },
{
    let router = has_router_role(roles);
    let mut files: Vec<WriteFile> = Vec::new();
    push_file(
        &mut files,
        file("/var/lib/vzctl/agent.token", Some("vzctl-agent:vzctl-agent"), "0600", cat(token, "\n")),
    );
    push_file(
        &mut files,
        file("/usr/local/lib/vzctl/virtiofs-bind", Some("root:root"), "0755", assets.virtiofs_bind.clone()),
    );
    push_file(
        &mut files,
        file(
            "/etc/sudoers.d/vzctl-virtiofs",
            Some("root:root"),
            "0440",
            owned("vzctl-agent ALL=(root) NOPASSWD: /usr/local/lib/vzctl/virtiofs-bind\n"),
        ),
    );
    push_file(
        &mut files,
        file("/usr/local/lib/vzctl/router-apply", Some("root:root"), "0755", assets.router_apply.clone()),
    );
    push_file(
        &mut files,
        file(
            "/etc/sudoers.d/vzctl-router",
            Some("root:root"),
            "0440",
            owned("vzctl-agent ALL=(root) NOPASSWD: /usr/local/lib/vzctl/router-apply\n"),
        ),
    );
    push_file(
        &mut files,
        file("/etc/sudoers.d/vzctl-agent", Some("root:root"), "0440", owned("vzctl-agent ALL=(ALL) NOPASSWD:ALL\n")),
    );
    push_file(
        &mut files,
        file("/etc/systemd/system/vzctl-agent.service", Some("root:root"), "0644", assets.agent_unit.clone()),
    );
    let ghost base = base_files(token@, assets.virtiofs_bind@, assets.router_apply@, assets.agent_unit@);
    assert(files_view(files@) =~= base);
    if let Some(ca_files) = ca {
        let mut i: usize = 0;
        while i < ca_files.len()
            invariant
                i <= ca_files@.len(),
                files_view(files@) == base + ca_files@.subrange(0, i as int).map_values(|c: CaFile| ca_file_view(c)),
            decreases ca_files.len() - i,
        {
            let c = &ca_files[i];
            let permissions = match &c.permissions {
                Some(p) => p.as_str(),
                None => "0644",
            };
            let ghost before = files_view(files@);
            push_file(&mut files, file(c.path.as_str(), None, permissions, c.content.clone()));
            assert(ca_files@.subrange(0, i + 1).map_values(|c: CaFile| ca_file_view(c)) =~= ca_files@.subrange(
                0,
                i as int,
            ).map_values(|c: CaFile| ca_file_view(c)).push(ca_file_view(ca_files@[i as int])));
            assert(files_view(files@) =~= base + ca_files@.subrange(0, i + 1).map_values(|c: CaFile| ca_file_view(c)));
            i = i + 1;
        }
        assert(ca_files@.subrange(0, ca_files@.len() as int) =~= ca_files@);
        push_file(
            &mut files,
            file(
                "/etc/sudoers.d/vzctl-ca",
                None,
                "0440",
                owned("vzctl-agent ALL=(root) NOPASSWD: /usr/sbin/update-ca-certificates\n"),
            ),
        );
    }
    let ghost with_ca = files_view(files@);
    assert(with_ca =~= base + ca_files_spec(
        match ca {
            Some(c) => Some(c@),
            None => None,
        },
    ));
    let mut runcmd: Vec<RunCommand> = Vec::new();
    let reload = vec!["systemctl", "daemon-reload"];
    assert(reload@.map_values(|w: &str| w@) =~= seq!["systemctl"@, "daemon-reload"@]);
    runcmd.push(argv(reload));
    let restart = vec!["systemctl", "restart", "vzctl-agent.service"];
    assert(restart@.map_values(|w: &str| w@) =~= seq!["systemctl"@, "restart"@, "vzctl-agent.service"@]);
    runcmd.push(argv(restart));
    if router {
        push_file(
            &mut files,
            file("/etc/sysctl.d/90-vzctl-router.conf", Some("root:root"), "0644", owned("net.ipv4.ip_forward=1\n")),
        );
        runcmd.push(RunCommand::Shell(owned("sysctl --system")));
        let forward = vec!["sh", "-c", "command -v iptables >/dev/null && iptables -P FORWARD DROP || true"];
        assert(forward@.map_values(|w: &str| w@) =~= seq![
            "sh"@,
            "-c"@,
            "command -v iptables >/dev/null && iptables -P FORWARD DROP || true"@,
        ]);
        runcmd.push(argv(forward));
    }
    assert(files_view(files@) =~= with_ca + router_files(router));
    assert(commands_view(runcmd@) =~= commands_spec(router));
    let root_password = match root_password {
        Some(p) => Some(owned(p)),
        None => None,
    };
    let mut keytypes: Vec<String> = Vec::new();
    keytypes.push(owned("ed25519"));
    keytypes.push(owned("rsa"));
    assert(strings_view(keytypes@) =~= seq!["ed25519"@, "rsa"@]);
    CloudConfig {
        preserve_hostname: false,
        hostname: identity.hostname.clone(),
        fqdn: identity.fqdn.clone(),
        prefer_fqdn_over_hostname: true,
        manage_etc_hosts: true,
        ssh_deletekeys: true,
        ssh_genkeytypes: keytypes,
        root_password,
        write_files: files,
        runcmd,
    }
}

/// The router role changes nothing but this: one file more, last, that turns
/// on IPv4 forwarding, and two commands more, last, that apply it and drop
/// forwarded traffic by default.
pub proof fn law_router_role_adds_forwarding(token: Seq<char>, assets: GuestAssets, ca: Option<Seq<CaFile>>)
    ensures
        files_spec(token, assets, ca, true) == files_spec(token, assets, ca, false).push(
            file_of("/etc/sysctl.d/90-vzctl-router.conf"@, root_owned(), "0644"@, "net.ipv4.ip_forward=1\n"@),
        ),
        commands_spec(true) == commands_spec(false) + seq![
            CommandView::Shell("sysctl --system"@),
            CommandView::Argv(
                seq!["sh"@, "-c"@, "command -v iptables >/dev/null && iptables -P FORWARD DROP || true"@],
            ),
        ],
{
    let without = files_spec(token, assets, ca, false);
    assert(without + Seq::<FileView>::empty() =~= without);
    assert(files_spec(token, assets, ca, true) =~= without.push(
        file_of("/etc/sysctl.d/90-vzctl-router.conf"@, root_owned(), "0644"@, "net.ipv4.ip_forward=1\n"@),
    ));
    assert(commands_spec(false) + Seq::<CommandView>::empty() =~= commands_spec(false));
}

} // verus!
