//! The user-data document of a new VM: its cloud-config as a mapping, in the
//! order cloud-init reads it, written out by serde_yaml behind a
//! `#cloud-config` line.
use crate::cloud_config::{
    command_view, commands_view, config_view, files_view, CloudConfig, CommandView, ConfigView, FileView,
    RunCommand, WriteFile,
};
use crate::json::{json_view, Json, JsonNumber, JsonView};
use crate::text::{cat, owned, strings_view};
use serde_yaml::Value;
use vstd::prelude::*;

verus! {

#[verifier::external_type_specification]
#[verifier::external_body]
pub struct ExYamlValue(serde_yaml::Value);

// ---------------------------------------------------------------- the mapping

pub open spec fn str_of(t: Seq<char>) -> JsonView {
    JsonView::Str(t)
}

pub open spec fn strs_of(ws: Seq<Seq<char>>) -> JsonView {
    JsonView::Array(ws.map_values(|w: Seq<char>| JsonView::Str(w)))
}

/// A file: path, owner where there is one, mode, content.
pub open spec fn file_tree(f: FileView) -> JsonView {
    JsonView::Object(
        seq![("path"@, str_of(f.path))] + match f.owner {
            Some(o) => seq![("owner"@, str_of(o))],
            None => Seq::empty(),
        } + seq![("permissions"@, str_of(f.permissions)), ("content"@, str_of(f.content))],
    )
}

/// A command: a shell line as a string, a program with its arguments as a
/// list.
pub open spec fn command_tree(c: CommandView) -> JsonView {
    match c {
        CommandView::Shell(s) => str_of(s),
        CommandView::Argv(ws) => strs_of(ws),
    }
}

/// Root log-in with a password, where one is given.
pub open spec fn root_members(p: Option<Seq<char>>) -> Seq<(Seq<char>, JsonView)> {
    match p {
        Some(p) => seq![
            ("disable_root"@, JsonView::Bool(false)),
            ("ssh_pwauth"@, JsonView::Bool(true)),
            (
                "chpasswd"@,
                JsonView::Object(
                    seq![
                        ("expire"@, JsonView::Bool(false)),
                        (
                            "users"@,
                            JsonView::Array(
                                seq![
                                    JsonView::Object(
                                        seq![
                                            ("name"@, str_of("root"@)),
                                            ("password"@, str_of(p)),
                                            ("type"@, str_of("text"@)),
                                        ],
                                    ),
                                ],
                            ),
                        ),
                    ],
                ),
            ),
        ],
        None => Seq::empty(),
    }
}

/// The cloud-config as a mapping: the host-name and SSH settings, root
/// log-in, the files and, where there are any, the commands, in that order.
pub open spec fn config_tree(c: ConfigView) -> JsonView {
    JsonView::Object(
        seq![
            ("preserve_hostname"@, JsonView::Bool(c.preserve_hostname)),
            ("hostname"@, str_of(c.hostname)),
            ("fqdn"@, str_of(c.fqdn)),
            ("prefer_fqdn_over_hostname"@, JsonView::Bool(c.prefer_fqdn_over_hostname)),
            ("manage_etc_hosts"@, JsonView::Bool(c.manage_etc_hosts)),
            ("ssh_deletekeys"@, JsonView::Bool(c.ssh_deletekeys)),
            ("ssh_genkeytypes"@, strs_of(c.ssh_genkeytypes)),
        ] + root_members(c.root_password) + seq![
            ("write_files"@, JsonView::Array(c.write_files.map_values(|f: FileView| file_tree(f)))),
        ] + if c.runcmd.len() > 0 {
            seq![("runcmd"@, JsonView::Array(c.runcmd.map_values(|x: CommandView| command_tree(x))))]
        } else {
            Seq::empty()
        },
    )
}

// ---------------------------------------------------------------- building it

pub open spec fn members_view(v: Seq<(String, Json)>) -> Seq<(Seq<char>, JsonView)> {
    Seq::new(v.len(), |i: int| if 0 <= i < v.len() { (v[i].0@, json_view(v[i].1)) } else { (Seq::empty(), JsonView::Null) })
}

pub open spec fn items_view(v: Seq<Json>) -> Seq<JsonView> {
    Seq::new(v.len(), |i: int| if 0 <= i < v.len() { json_view(v[i]) } else { JsonView::Null })
}

fn object(ms: Vec<(String, Json)>) -> (r: Json)
    ensures
        r@ == JsonView::Object(members_view(ms@)),
{
    let ghost mv = members_view(ms@);
    let r = Json::Object(ms);
    let ghost inner = match r@ {
        JsonView::Object(x) => x,
        _ => Seq::empty(),
    };
    assert(r@ is Object);
    assert(inner.len() == mv.len());
    assert(inner =~= mv);
    r
}

fn array(xs: Vec<Json>) -> (r: Json)
    ensures
        r@ == JsonView::Array(items_view(xs@)),
{
    let ghost iv = items_view(xs@);
    let r = Json::Array(xs);
    let ghost inner = match r@ {
        JsonView::Array(x) => x,
        _ => Seq::empty(),
    };
    assert(r@ is Array);
    assert(inner =~= iv);
    r
}

fn text(s: &str) -> (r: Json)
    ensures
        r@ == str_of(s@),
{
    Json::Str(owned(s))
}

fn push_member(ms: &mut Vec<(String, Json)>, key: &str, value: Json)
    ensures
        members_view(final(ms)@) == members_view(old(ms)@).push((key@, value@)),
{
    let ghost before = members_view(ms@);
    let ghost v = value@;
    ms.push((owned(key), value));
    assert(members_view(ms@) =~= before.push((key@, v)));
}

fn push_item(xs: &mut Vec<Json>, value: Json)
    ensures
        items_view(final(xs)@) == items_view(old(xs)@).push(value@),
{
    let ghost before = items_view(xs@);
    let ghost v = value@;
    xs.push(value);
    assert(items_view(xs@) =~= before.push(v));
}

fn texts(ws: &Vec<String>) -> (r: Json)
    ensures
        r@ == strs_of(strings_view(ws@)),
{
    let ghost wv = strings_view(ws@);
    let mut xs: Vec<Json> = Vec::new();
    let mut i: usize = 0;
    while i < ws.len()
        invariant
            i <= ws@.len(),
            wv == strings_view(ws@),
            items_view(xs@) == wv.subrange(0, i as int).map_values(|w: Seq<char>| JsonView::Str(w)),
        decreases ws.len() - i,
    {
        push_item(&mut xs, text(ws[i].as_str()));
        assert(wv[i as int] == ws@[i as int]@);
        assert(items_view(xs@) =~= wv.subrange(0, i + 1).map_values(|w: Seq<char>| JsonView::Str(w)));
        i = i + 1;
    }
    assert(wv.subrange(0, ws@.len() as int) =~= wv);
    array(xs)
}

fn file_json(f: &WriteFile) -> (r: Json)
    ensures
        r@ == file_tree(f@),
{
    let mut ms: Vec<(String, Json)> = Vec::new();
    push_member(&mut ms, "path", text(f.path.as_str()));
    match &f.owner {
        Some(o) => push_member(&mut ms, "owner", text(o.as_str())),
        None => {},
    }
    push_member(&mut ms, "permissions", text(f.permissions.as_str()));
    push_member(&mut ms, "content", text(f.content.as_str()));
    let ghost fv = f@;
    assert(members_view(ms@) =~= seq![("path"@, str_of(fv.path))] + match fv.owner {
        Some(o) => seq![("owner"@, str_of(o))],
        None => Seq::empty(),
    } + seq![("permissions"@, str_of(fv.permissions)), ("content"@, str_of(fv.content))]);
    object(ms)
}

fn command_json(c: &RunCommand) -> (r: Json)
    ensures
        r@ == command_tree(command_view(*c)),
{
    match c {
        RunCommand::Shell(s) => text(s.as_str()),
        RunCommand::Argv(ws) => texts(ws),
    }
}

fn root_json(ms: &mut Vec<(String, Json)>, password: Option<&String>)
    ensures
        members_view(final(ms)@) == members_view(old(ms)@) + root_members(
            match password {
                Some(p) => Some(p@),
                None => None,
            },
        ),
{
    let ghost start = members_view(ms@);
    match password {
        Some(p) => {
            let mut user: Vec<(String, Json)> = Vec::new();
            push_member(&mut user, "name", text("root"));
            push_member(&mut user, "password", text(p.as_str()));
            push_member(&mut user, "type", text("text"));
            let ghost um = seq![("name"@, str_of("root"@)), ("password"@, str_of(p@)), ("type"@, str_of("text"@))];
            assert(members_view(user@) =~= um);
            let u = object(user);
            let mut users: Vec<Json> = Vec::new();
            push_item(&mut users, u);
            assert(items_view(users@) =~= seq![JsonView::Object(um)]);
            let us = array(users);
            let mut chpasswd: Vec<(String, Json)> = Vec::new();
            push_member(&mut chpasswd, "expire", Json::Bool(false));
            push_member(&mut chpasswd, "users", us);
            let ghost cm = seq![("expire"@, JsonView::Bool(false)), ("users"@, JsonView::Array(seq![JsonView::Object(um)]))];
            assert(members_view(chpasswd@) =~= cm);
            let ch = object(chpasswd);
            push_member(ms, "disable_root", Json::Bool(false));
            push_member(ms, "ssh_pwauth", Json::Bool(true));
            push_member(ms, "chpasswd", ch);
            assert(members_view(ms@) =~= start + seq![
                ("disable_root"@, JsonView::Bool(false)),
                ("ssh_pwauth"@, JsonView::Bool(true)),
                ("chpasswd"@, JsonView::Object(cm)),
            ]);
        },
        None => {
            assert(members_view(ms@) =~= start + Seq::<(Seq<char>, JsonView)>::empty());
        },
    }
}

/// The cloud-config as a mapping.
pub fn config_document(c: &CloudConfig) -> (r: Json)
    ensures
        r@ == config_tree(config_view(*c)),
{
    let ghost v = config_view(*c);
    let mut ms: Vec<(String, Json)> = Vec::new();
    push_member(&mut ms, "preserve_hostname", Json::Bool(c.preserve_hostname));
    push_member(&mut ms, "hostname", text(c.hostname.as_str()));
    push_member(&mut ms, "fqdn", text(c.fqdn.as_str()));
    push_member(&mut ms, "prefer_fqdn_over_hostname", Json::Bool(c.prefer_fqdn_over_hostname));
    push_member(&mut ms, "manage_etc_hosts", Json::Bool(c.manage_etc_hosts));
    push_member(&mut ms, "ssh_deletekeys", Json::Bool(c.ssh_deletekeys));
    push_member(&mut ms, "ssh_genkeytypes", texts(&c.ssh_genkeytypes));
    let ghost head = members_view(ms@);
    root_json(&mut ms, c.root_password.as_ref());
    let ghost with_root = members_view(ms@);
    let ghost fv = files_view(c.write_files@);
    let mut files: Vec<Json> = Vec::new();
    let mut i: usize = 0;
    while i < c.write_files.len()
        invariant
            i <= c.write_files@.len(),
            fv == files_view(c.write_files@),
            items_view(files@) == fv.subrange(0, i as int).map_values(|f: FileView| file_tree(f)),
        decreases c.write_files.len() - i,
    {
        push_item(&mut files, file_json(&c.write_files[i]));
        assert(fv[i as int] == c.write_files@[i as int]@);
        assert(items_view(files@) =~= fv.subrange(0, i + 1).map_values(|f: FileView| file_tree(f)));
        i = i + 1;
    }
    assert(fv.subrange(0, c.write_files@.len() as int) =~= fv);
    push_member(&mut ms, "write_files", array(files));
    let ghost with_files = members_view(ms@);
    if c.runcmd.len() > 0 {
        let ghost cv = commands_view(c.runcmd@);
        let mut cmds: Vec<Json> = Vec::new();
        let mut k: usize = 0;
        while k < c.runcmd.len()
            invariant
                k <= c.runcmd@.len(),
                cv == commands_view(c.runcmd@),
                items_view(cmds@) == cv.subrange(0, k as int).map_values(|x: CommandView| command_tree(x)),
            decreases c.runcmd.len() - k,
        {
            push_item(&mut cmds, command_json(&c.runcmd[k]));
            assert(cv[k as int] == command_view(c.runcmd@[k as int]));
            assert(items_view(cmds@) =~= cv.subrange(0, k + 1).map_values(|x: CommandView| command_tree(x)));
            k = k + 1;
        }
        assert(cv.subrange(0, c.runcmd@.len() as int) =~= cv);
        push_member(&mut ms, "runcmd", array(cmds));
    }
    let ghost tail = if v.runcmd.len() > 0 {
        seq![("runcmd"@, JsonView::Array(v.runcmd.map_values(|x: CommandView| command_tree(x))))]
    } else {
        Seq::<(Seq<char>, JsonView)>::empty()
    };
    assert(members_view(ms@) =~= with_files + tail);
    assert(with_files =~= with_root + seq![
        ("write_files"@, JsonView::Array(v.write_files.map_values(|f: FileView| file_tree(f)))),
    ]);
    assert(head =~= seq![
        ("preserve_hostname"@, JsonView::Bool(v.preserve_hostname)),
        ("hostname"@, str_of(v.hostname)),
        ("fqdn"@, str_of(v.fqdn)),
        ("prefer_fqdn_over_hostname"@, JsonView::Bool(v.prefer_fqdn_over_hostname)),
        ("manage_etc_hosts"@, JsonView::Bool(v.manage_etc_hosts)),
        ("ssh_deletekeys"@, JsonView::Bool(v.ssh_deletekeys)),
        ("ssh_genkeytypes"@, strs_of(v.ssh_genkeytypes)),
    ]);
    assert(members_view(ms@) =~= head + root_members(v.root_password) + seq![
        ("write_files"@, JsonView::Array(v.write_files.map_values(|f: FileView| file_tree(f)))),
    ] + tail);
    object(ms)
}

// ---------------------------------------------------------------- writing it

/// The YAML document serde_yaml writes for a value (`serde_yaml::to_string`
/// of the value as a `serde_yaml::Value`, mappings in their order), where it
/// writes one.
pub uninterp spec fn yaml_text_of(v: JsonView) -> Option<Seq<char>>;

/// A value as serde_yaml's, one for one: each variant to its own, a mapping's
/// members in their order.
#[verifier::external_body]
fn yaml_value(v: &Json) -> Value {
    match v {
        Json::Null => Value::Null,
        Json::Bool(b) => Value::Bool(*b),
        Json::Number(JsonNumber::PosInt(u)) => Value::from(*u),
        Json::Number(JsonNumber::NegInt(i)) => Value::from(*i),
        Json::Number(JsonNumber::Float(t)) => t.parse::<serde_yaml::Number>().map_or(Value::Null, Value::Number),
        Json::Str(s) => Value::String(s.clone()),
        Json::Array(xs) => Value::Sequence(xs.iter().map(yaml_value).collect()),
        Json::Object(ms) => Value::Mapping(ms.iter().map(|(k, x)| (Value::String(k.clone()), yaml_value(x))).collect()),
    }
}

/// The YAML document of a value (`serde_yaml::to_string`), `None` where
/// serialization fails.
#[verifier::external_body]
fn yaml_text(v: &Json) -> (r: Option<String>)
    ensures
        match r {
            Some(t) => yaml_text_of(v@) == Some(t@),
            None => yaml_text_of(v@) is None,
        },
{
    serde_yaml::to_string(&yaml_value(v)).ok()
}

/// The user-data text around a YAML document: the `#cloud-config` line, then
/// the document.
pub fn user_data_text(yaml: &str) -> (r: String)
    ensures
        r@ == "#cloud-config\n"@ + yaml@,
{
    cat("#cloud-config\n", yaml)
}

/// The user-data document of a new VM, `None` where serde_yaml writes none.
pub fn cloud_init_user_data(c: &CloudConfig) -> (r: Option<String>)
    ensures
        match yaml_text_of(config_tree(config_view(*c))) {
            Some(t) => r matches Some(x) && x@ == "#cloud-config\n"@ + t,
            None => r is None,
        },
{
    let document = config_document(c);
    match yaml_text(&document) {
        Some(t) => Some(user_data_text(t.as_str())),
        None => None,
    }
}

} // verus!
