//! The embedded Dex OIDC provider: merging the uplink settings of host and
//! project, and rendering Dex's configuration.
use crate::hash::{hex_bytes, sha256_hex, sha256_of};
use crate::network::{debug_quoted, debug_str};
use crate::text::{
    cat, cat3, contains_char, contains_str, decimal, first_char_is, index_of_char, lemma_index_of_char, owned,
    push_char, split_first, starts_with, str_contains, str_eq, str_starts_with, strings_view, trim, trim_spec,
    u128_to_decimal,
};
use std::time::{Duration, SystemTime, UNIX_EPOCH};
use vstd::prelude::*;
use vstd::string::*;
use vstd::utf8::encode_utf8;

verus! {

pub const EXIT_USAGE: u8 = 2;
pub const EXIT_FAILED: u8 = 10;

#[derive(Clone, Copy, Debug, PartialEq, Eq, Structural)]
pub enum Format {
    Human,
    Json,
}

/// The kind of upstream identity provider Dex federates to.
#[derive(Clone, Copy, Debug, PartialEq, Eq, Structural)]
pub enum OidcUplinkType {
    Oidc,
    Github,
    Microsoft,
    Discord,
}

/// The uplink settings of the host or of a project, each field optional.
#[derive(Clone, Debug)]
pub struct OidcUplink {
    pub uplink_type: Option<OidcUplinkType>,
    pub issuer: Option<String>,
    pub tenant: Option<String>,
    pub client_id: Option<String>,
    pub client_secret_file: Option<String>,
    pub scopes: Option<Vec<String>>,
    pub get_user_info: Option<bool>,
}

/// Where the resolved uplink settings came from.
#[derive(Clone, Copy, Debug, PartialEq, Eq, Structural)]
pub enum UplinkSource {
    Host,
    Project,
    Merged,
}

impl UplinkSource {
    pub fn as_str(self) -> (r: &'static str)
        ensures
            r@ == match self {
                UplinkSource::Host => "host"@,
                UplinkSource::Project => "project"@,
                UplinkSource::Merged => "merged"@,
            },
    {
        match self {
            UplinkSource::Host => "host",
            UplinkSource::Project => "project",
            UplinkSource::Merged => "merged",
        }
    }
}

/// The name of an uplink type in reports.
pub fn uplink_type_str(t: OidcUplinkType) -> (r: &'static str)
    ensures
        r@ == match t {
            OidcUplinkType::Oidc => "oidc"@,
            OidcUplinkType::Github => "github"@,
            OidcUplinkType::Microsoft => "microsoft"@,
            OidcUplinkType::Discord => "discord"@,
        },
{
    match t {
        OidcUplinkType::Oidc => "oidc",
        OidcUplinkType::Github => "github",
        OidcUplinkType::Microsoft => "microsoft",
        OidcUplinkType::Discord => "discord",
    }
}

/// A fully resolved uplink, ready for Dex's `connectors:`.
#[derive(Clone, Debug)]
pub struct ResolvedUplink {
    pub uplink_type: OidcUplinkType,
    /// Set for `type: oidc`.
    pub issuer: Option<String>,
    /// Set for `type: microsoft` (the Entra tenant).
    pub tenant: Option<String>,
    pub client_id: String,
    pub client_secret: String,
    pub scopes: Vec<String>,
    pub get_user_info: bool,
    pub source: UplinkSource,
}

pub struct UplinkView {
    pub kind: OidcUplinkType,
    pub issuer: Option<Seq<char>>,
    pub tenant: Option<Seq<char>>,
    pub client_id: Seq<char>,
    pub client_secret: Seq<char>,
    pub scopes: Seq<Seq<char>>,
    pub get_user_info: bool,
    pub source: UplinkSource,
}

pub open spec fn opt_view(o: Option<String>) -> Option<Seq<char>> {
    match o {
        Some(s) => Some(s@),
        None => None,
    }
}

pub open spec fn uplink_view(u: ResolvedUplink) -> UplinkView {
    UplinkView {
        kind: u.uplink_type,
        issuer: opt_view(u.issuer),
        tenant: opt_view(u.tenant),
        client_id: u.client_id@,
        client_secret: u.client_secret@,
        scopes: strings_view(u.scopes@),
        get_user_info: u.get_user_info,
        source: u.source,
    }
}

// ---------------------------------------------------------------------------
// YAML scalars

/// A value needs quotes in YAML when it is empty, holds `:`, `#`, a space, a
/// quote or a newline, or opens a flow collection.
pub open spec fn yaml_needs_quotes(v: Seq<char>) -> bool {
    ||| v.len() == 0
    ||| v.contains(':')
    ||| v.contains('#')
    ||| v.contains(' ')
    ||| v.contains('"')
    ||| v.contains('\'')
    ||| v.contains('\n')
    ||| v[0] == '{'
    ||| v[0] == '['
}

pub open spec fn escape_char(c: char) -> Seq<char> {
    if c == '\\' {
        seq!['\\', '\\']
    } else if c == '"' {
        seq!['\\', '"']
    } else {
        seq![c]
    }
}

/// Backslashes and double quotes escaped with a backslash.
pub open spec fn escape(v: Seq<char>) -> Seq<char>
    decreases v.len(),
{
    if v.len() == 0 {
        Seq::empty()
    } else {
        escape(v.drop_last()) + escape_char(v.last())
    }
}

/// A string as a YAML scalar: as it is where that is safe, else double-quoted
/// with backslashes and quotes escaped.
pub open spec fn yaml_spec(v: Seq<char>) -> Seq<char> {
    if yaml_needs_quotes(v) {
        seq!['"'] + escape(v) + seq!['"']
    } else {
        v
    }
}

/// Renders a string as a YAML scalar.
pub fn yaml_string(value: &str) -> (r: String)
    ensures
        r@ == yaml_spec(value@),
{
    let needs = value.unicode_len() == 0 || contains_char(value, ':') || contains_char(value, '#')
        || contains_char(value, ' ') || contains_char(value, '"') || contains_char(value, '\'')
        || contains_char(value, '\n') || first_char_is(value, '{') || first_char_is(value, '[');
    if !needs {
        return owned(value);
    }
    let n = value.unicode_len();
    let mut out = String::new();
    push_char(&mut out, '"');
    let mut i: usize = 0;
    while i < n
        invariant
            n == value@.len(),
            i <= n,
            out@ == seq!['"'] + escape(value@.subrange(0, i as int)),
        decreases n - i,
    {
        let c = value.get_char(i);
        assert(value@.subrange(0, i + 1).drop_last() =~= value@.subrange(0, i as int));
        if c == '\\' {
            push_char(&mut out, '\\');
            push_char(&mut out, '\\');
        } else if c == '"' {
            push_char(&mut out, '\\');
            push_char(&mut out, '"');
        } else {
            push_char(&mut out, c);
        }
        assert(out@ =~= seq!['"'] + escape(value@.subrange(0, i + 1)));
        i = i + 1;
    }
    assert(value@.subrange(0, n as int) =~= value@);
    push_char(&mut out, '"');
    out
}

// ---------------------------------------------------------------------------
// The connector block

/// `s` without its trailing slashes.
pub open spec fn trim_slashes(s: Seq<char>) -> Seq<char>
    decreases s.len(),
{
    if s.len() > 0 && s.last() == '/' {
        trim_slashes(s.drop_last())
    } else {
        s
    }
}

/// The YAML list lines of the scopes, one `      - scope` line each.
pub open spec fn scope_lines(scopes: Seq<Seq<char>>) -> Seq<char>
    decreases scopes.len(),
{
    if scopes.len() == 0 {
        Seq::empty()
    } else {
        scope_lines(scopes.drop_last()) + "      - "@ + yaml_spec(scopes.last()) + "\n"@
    }
}

/// The head of a connector entry: type, fixed id, display name.
pub open spec fn connector_head(kind: Seq<char>, name: Seq<char>) -> Seq<char> {
    "connectors:\n"@ + "  - type: "@ + kind + "\n"@ + "    id: uplink\n"@ + "    name: "@ + name + "\n"@
        + "    config:\n"@
}

/// The client credentials and the redirect URI back to Dex.
pub open spec fn credential_lines(up: UplinkView, dex_issuer: Seq<char>) -> Seq<char> {
    "      clientID: "@ + yaml_spec(up.client_id) + "\n"@ + "      clientSecret: "@ + yaml_spec(
        up.client_secret,
    ) + "\n"@ + "      redirectURI: "@ + yaml_spec(trim_slashes(dex_issuer) + "/callback"@) + "\n"@
}

/// The optional scope list: nothing when there are no scopes.
pub open spec fn optional_scopes(scopes: Seq<Seq<char>>) -> Seq<char> {
    if scopes.len() == 0 {
        Seq::empty()
    } else {
        "      scopes:\n"@ + scope_lines(scopes)
    }
}

pub open spec fn bool_text(b: bool) -> Seq<char> {
    if b {
        "true"@
    } else {
        "false"@
    }
}

/// Dex's `connectors:` block for the uplink; a generic OIDC uplink needs an
/// issuer, Discord goes through Dex's generic OAuth2 connector.
pub open spec fn connector_spec(up: UplinkView, dex_issuer: Seq<char>) -> Result<Seq<char>, Seq<char>> {
    match up.kind {
        OidcUplinkType::Oidc => match up.issuer {
            None => Err("oidc connector missing issuer"@),
            Some(issuer) => Ok(
                connector_head("oidc"@, "Upstream IdP"@) + "      issuer: "@ + yaml_spec(issuer) + "\n"@
                    + credential_lines(up, dex_issuer) + "      scopes:\n"@ + scope_lines(up.scopes)
                    + "      getUserInfo: "@ + bool_text(up.get_user_info) + "\n"@,
            ),
        },
        OidcUplinkType::Github => Ok(
            connector_head("github"@, "GitHub"@) + credential_lines(up, dex_issuer) + optional_scopes(
                up.scopes,
            ),
        ),
        OidcUplinkType::Microsoft => {
            let tenant = match up.tenant {
                Some(t) => t,
                None => "common"@,
            };
            Ok(
                connector_head("microsoft"@, "Microsoft Entra ID"@) + credential_lines(up, dex_issuer)
                    + "      tenant: "@ + yaml_spec(tenant) + "\n"@ + optional_scopes(up.scopes),
            )
        },
        OidcUplinkType::Discord => Ok(
            connector_head("oauth2"@, "Discord"@) + credential_lines(up, dex_issuer)
                + "      authorizationURL: https://discord.com/api/oauth2/authorize\n"@
                + "      tokenURL: https://discord.com/api/oauth2/token\n"@
                + "      userInfoURL: https://discord.com/api/users/@me\n"@ + "      scopes:\n"@
                + scope_lines(up.scopes) + "      userIDKey: id\n"@ + "      claimMapping:\n"@
                + "        userNameKey: username\n"@ + "        emailKey: email\n"@,
        ),
    }
}

/// `s` without trailing slashes (`trim_end_matches('/')`).
pub fn trim_trailing_slashes(s: &str) -> (r: String)
    ensures
        r@ == trim_slashes(s@),
{
    let mut end = s.unicode_len();
    assert(s@.subrange(0, end as int) =~= s@);
    while end > 0 && s.get_char(end - 1) == '/'
        invariant
            end <= s@.len(),
            trim_slashes(s@) == trim_slashes(s@.subrange(0, end as int)),
        decreases end,
    {
        assert(s@.subrange(0, end as int).drop_last() =~= s@.subrange(0, end - 1));
        end = end - 1;
    }
    crate::text::slice(s, 0, end)
}

/// Appends the scope list lines.
fn push_scope_lines(block: &mut String, scopes: &Vec<String>)
    ensures
        final(block)@ == old(block)@ + scope_lines(strings_view(scopes@)),
{
    let ghost start = block@;
    let ghost sv = strings_view(scopes@);
    let mut i: usize = 0;
    assert(sv.subrange(0, 0) =~= Seq::<Seq<char>>::empty());
    while i < scopes.len()
        invariant
            i <= scopes@.len(),
            sv == strings_view(scopes@),
            block@ == start + scope_lines(sv.subrange(0, i as int)),
        decreases scopes.len() - i,
    {
        let line = yaml_string(scopes[i].as_str());
        assert(sv.subrange(0, i + 1).drop_last() =~= sv.subrange(0, i as int));
        assert(sv.subrange(0, i + 1).last() == scopes[i as int]@);
        block.append("      - ");
        block.append(line.as_str());
        block.append("\n");
        assert(block@ =~= start + scope_lines(sv.subrange(0, i + 1)));
        i = i + 1;
    }
    assert(sv.subrange(0, scopes.len() as int) =~= sv);
}

/// Appends the head of a connector entry.
fn push_head(block: &mut String, kind: &str, name: &str)
    ensures
        final(block)@ == old(block)@ + connector_head(kind@, name@),
{
    let ghost start = block@;
    block.append("connectors:\n");
    block.append("  - type: ");
    block.append(kind);
    block.append("\n");
    block.append("    id: uplink\n");
    block.append("    name: ");
    block.append(name);
    block.append("\n");
    block.append("    config:\n");
    assert(block@ =~= start + connector_head(kind@, name@));
}

/// Appends the credential lines.
fn push_credentials(block: &mut String, up: &ResolvedUplink, dex_issuer: &str)
    ensures
        final(block)@ == old(block)@ + credential_lines(uplink_view(*up), dex_issuer@),
{
    let ghost start = block@;
    let id = yaml_string(up.client_id.as_str());
    let secret = yaml_string(up.client_secret.as_str());
    let base = trim_trailing_slashes(dex_issuer);
    let redirect_raw = cat(base.as_str(), "/callback");
    let redirect = yaml_string(redirect_raw.as_str());
    block.append("      clientID: ");
    block.append(id.as_str());
    block.append("\n");
    block.append("      clientSecret: ");
    block.append(secret.as_str());
    block.append("\n");
    block.append("      redirectURI: ");
    block.append(redirect.as_str());
    block.append("\n");
    assert(block@ =~= start + credential_lines(uplink_view(*up), dex_issuer@));
}

/// Appends the optional scope list.
fn push_optional_scopes(block: &mut String, scopes: &Vec<String>)
    ensures
        final(block)@ == old(block)@ + optional_scopes(strings_view(scopes@)),
{
    let ghost start = block@;
    if scopes.len() > 0 {
        block.append("      scopes:\n");
        push_scope_lines(block, scopes);
        assert(block@ =~= start + optional_scopes(strings_view(scopes@)));
    } else {
        assert(block@ =~= start + optional_scopes(strings_view(scopes@)));
    }
}

pub open spec fn string_result_view(r: Result<String, String>) -> Result<Seq<char>, Seq<char>> {
    match r {
        Ok(s) => Ok(s@),
        Err(e) => Err(e@),
    }
}

/// Renders Dex's `connectors:` block for a resolved uplink.
pub fn render_connector_block(up: &ResolvedUplink, dex_issuer: &str) -> (r: Result<String, String>)
    ensures
        string_result_view(r) == connector_spec(uplink_view(*up), dex_issuer@),
{
    let ghost v = uplink_view(*up);
    let mut block = String::new();
    match up.uplink_type {
        OidcUplinkType::Oidc => {
            let issuer = match &up.issuer {
                Some(i) => i,
                None => {
                    return Err(owned("oidc connector missing issuer"));
                },
            };
            push_head(&mut block, "oidc", "Upstream IdP");
            let quoted = yaml_string(issuer.as_str());
            block.append("      issuer: ");
            block.append(quoted.as_str());
            block.append("\n");
            push_credentials(&mut block, up, dex_issuer);
            block.append("      scopes:\n");
            push_scope_lines(&mut block, &up.scopes);
            block.append("      getUserInfo: ");
            block.append(if up.get_user_info {
                "true"
            } else {
                "false"
            });
            block.append("\n");
            assert(block@ =~= connector_spec(v, dex_issuer@)->Ok_0);
        },
        OidcUplinkType::Github => {
            push_head(&mut block, "github", "GitHub");
            push_credentials(&mut block, up, dex_issuer);
            push_optional_scopes(&mut block, &up.scopes);
            assert(block@ =~= connector_spec(v, dex_issuer@)->Ok_0);
        },
        OidcUplinkType::Microsoft => {
            push_head(&mut block, "microsoft", "Microsoft Entra ID");
            push_credentials(&mut block, up, dex_issuer);
            let tenant = match &up.tenant {
                Some(t) => yaml_string(t.as_str()),
                None => yaml_string("common"),
            };
            block.append("      tenant: ");
            block.append(tenant.as_str());
            block.append("\n");
            push_optional_scopes(&mut block, &up.scopes);
            assert(block@ =~= connector_spec(v, dex_issuer@)->Ok_0);
        },
        OidcUplinkType::Discord => {
            push_head(&mut block, "oauth2", "Discord");
            push_credentials(&mut block, up, dex_issuer);
            block.append("      authorizationURL: https://discord.com/api/oauth2/authorize\n");
            block.append("      tokenURL: https://discord.com/api/oauth2/token\n");
            block.append("      userInfoURL: https://discord.com/api/users/@me\n");
            block.append("      scopes:\n");
            push_scope_lines(&mut block, &up.scopes);
            block.append("      userIDKey: id\n");
            block.append("      claimMapping:\n");
            block.append("        userNameKey: username\n");
            block.append("        emailKey: email\n");
            assert(block@ =~= connector_spec(v, dex_issuer@)->Ok_0);
        },
    }
    Ok(block)
}

// ---------------------------------------------------------------------------
// Merging host and project settings

/// The settings of one side as plain values; an absent side has every field
/// unset.
pub struct SettingsView {
    pub kind: Option<OidcUplinkType>,
    pub issuer: Option<Seq<char>>,
    pub tenant: Option<Seq<char>>,
    pub client_id: Option<Seq<char>>,
    pub secret_file: Option<Seq<char>>,
    pub scopes: Option<Seq<Seq<char>>>,
    pub get_user_info: Option<bool>,
}

pub open spec fn opt_strings_view(o: Option<Vec<String>>) -> Option<Seq<Seq<char>>> {
    match o {
        Some(v) => Some(strings_view(v@)),
        None => None,
    }
}

pub open spec fn settings_view(o: Option<OidcUplink>) -> SettingsView {
    match o {
        Some(u) => SettingsView {
            kind: u.uplink_type,
            issuer: opt_view(u.issuer),
            tenant: opt_view(u.tenant),
            client_id: opt_view(u.client_id),
            secret_file: opt_view(u.client_secret_file),
            scopes: opt_strings_view(u.scopes),
            get_user_info: u.get_user_info,
        },
        None => SettingsView {
            kind: None,
            issuer: None,
            tenant: None,
            client_id: None,
            secret_file: None,
            scopes: None,
            get_user_info: None,
        },
    }
}

pub open spec fn opt_ref_view(o: Option<&OidcUplink>) -> Option<OidcUplink> {
    match o {
        Some(u) => Some(*u),
        None => None,
    }
}

/// The project's value if it is set and not empty, else the host's on the
/// same terms.
pub open spec fn pick_spec(project: Option<Seq<char>>, host: Option<Seq<char>>) -> Option<Seq<char>> {
    match project {
        Some(p) if p.len() > 0 => Some(p),
        _ => match host {
            Some(h) if h.len() > 0 => Some(h),
            _ => None,
        },
    }
}

/// The scopes an uplink type asks for when none are configured.
pub open spec fn default_scopes(kind: OidcUplinkType) -> Seq<Seq<char>> {
    match kind {
        OidcUplinkType::Oidc => seq!["openid"@, "profile"@, "email"@],
        OidcUplinkType::Github => seq!["read:user"@, "user:email"@],
        OidcUplinkType::Microsoft => seq!["openid"@, "profile"@, "email"@],
        OidcUplinkType::Discord => seq!["identify"@, "email"@],
    }
}

/// An uplink with everything but its client secret resolved.
#[derive(Clone, Debug)]
pub struct MergedUplink {
    pub uplink_type: OidcUplinkType,
    pub issuer: Option<String>,
    pub tenant: Option<String>,
    pub client_id: String,
    pub scopes: Vec<String>,
    pub get_user_info: bool,
    pub source: UplinkSource,
}

pub struct MergedView {
    pub kind: OidcUplinkType,
    pub issuer: Option<Seq<char>>,
    pub tenant: Option<Seq<char>>,
    pub client_id: Seq<char>,
    pub scopes: Seq<Seq<char>>,
    pub get_user_info: bool,
    pub source: UplinkSource,
}

pub open spec fn merged_view(m: MergedUplink) -> MergedView {
    MergedView {
        kind: m.uplink_type,
        issuer: opt_view(m.issuer),
        tenant: opt_view(m.tenant),
        client_id: m.client_id@,
        scopes: strings_view(m.scopes@),
        get_user_info: m.get_user_info,
        source: m.source,
    }
}

/// Host defaults merged with the project's override: each field from the
/// project where it sets one, else from the host, else its default. A
/// client id is required; a generic OIDC uplink needs an `https://`
/// issuer; Microsoft's tenant defaults to `common`. With neither side
/// configured there is no uplink.
pub open spec fn merge_spec(host: Option<OidcUplink>, project: Option<OidcUplink>) -> Result<Option<MergedView>, Seq<char>> {
    if host is None && project is None {
        Ok(None)
    } else {
        let h = settings_view(host);
        let p = settings_view(project);
        let source = if host is Some && project is Some {
            UplinkSource::Merged
        } else if host is Some {
            UplinkSource::Host
        } else {
            UplinkSource::Project
        };
        let kind = match p.kind {
            Some(k) => k,
            None => match h.kind {
                Some(k) => k,
                None => OidcUplinkType::Oidc,
            },
        };
        let issuer = pick_spec(p.issuer, h.issuer);
        let tenant = pick_spec(p.tenant, h.tenant);
        let scopes = match p.scopes {
            Some(s) => s,
            None => match h.scopes {
                Some(s) => s,
                None => default_scopes(kind),
            },
        };
        let get_user_info = match p.get_user_info {
            Some(b) => b,
            None => match h.get_user_info {
                Some(b) => b,
                None => true,
            },
        };
        match pick_spec(p.client_id, h.client_id) {
            None => Err(
                "oidc uplink incomplete: clientID required (set host defaults or oidc.uplink.clientID)"@,
            ),
            Some(client_id) => {
                let checked: Result<Option<Seq<char>>, Seq<char>> = if kind == OidcUplinkType::Oidc {
                    match issuer {
                        None => Err("oidc uplink incomplete: issuer required for type: oidc"@),
                        Some(i) => if starts_with(i, "https://"@) {
                            Ok(Some(i))
                        } else {
                            Err("oidc uplink issuer must be https:// (got "@ + debug_str(i) + ")"@)
                        },
                    }
                } else {
                    Ok(None)
                };
                match checked {
                    Err(e) => Err(e),
                    Ok(issuer) => Ok(
                        Some(
                            MergedView {
                                kind,
                                issuer,
                                tenant: if kind == OidcUplinkType::Microsoft {
                                    match tenant {
                                        Some(t) => Some(t),
                                        None => Some("common"@),
                                    }
                                } else {
                                    tenant
                                },
                                client_id,
                                scopes,
                                get_user_info,
                                source,
                            },
                        ),
                    ),
                }
            },
        }
    }
}

/// The project's value if set and not empty, else the host's.
pub fn pick_str(project: Option<&String>, host: Option<&String>) -> (r: Option<String>)
    ensures
        opt_view(r) == pick_spec(
            match project {
                Some(s) => Some(s@),
                None => None,
            },
            match host {
                Some(s) => Some(s@),
                None => None,
            },
        ),
{
    match project {
        Some(p) if p.unicode_len() > 0 => {
            return Some(p.clone());
        },
        _ => {},
    }
    match host {
        Some(h) if h.unicode_len() > 0 => Some(h.clone()),
        _ => None,
    }
}

fn field<'a>(o: Option<&'a OidcUplink>, which: u8) -> (r: Option<&'a String>)
    requires
        which < 3,
    ensures
        match r {
            Some(s) => Some(s@) == match which {
                0 => settings_view(opt_ref_view(o)).issuer,
                1 => settings_view(opt_ref_view(o)).tenant,
                _ => settings_view(opt_ref_view(o)).client_id,
            },
            None => None::<Seq<char>> == match which {
                0 => settings_view(opt_ref_view(o)).issuer,
                1 => settings_view(opt_ref_view(o)).tenant,
                _ => settings_view(opt_ref_view(o)).client_id,
            },
        },
{
    match o {
        Some(u) => {
            let f = if which == 0 {
                &u.issuer
            } else if which == 1 {
                &u.tenant
            } else {
                &u.client_id
            };
            match f {
                Some(s) => Some(s),
                None => None,
            }
        },
        None => None,
    }
}

fn default_scope_list(kind: OidcUplinkType) -> (r: Vec<String>)
    ensures
        strings_view(r@) == default_scopes(kind),
{
    let r = match kind {
        OidcUplinkType::Oidc | OidcUplinkType::Microsoft => vec![
            owned("openid"),
            owned("profile"),
            owned("email"),
        ],
        OidcUplinkType::Github => vec![owned("read:user"), owned("user:email")],
        OidcUplinkType::Discord => vec![owned("identify"), owned("email")],
    };
    assert(strings_view(r@) =~= default_scopes(kind));
    r
}

pub open spec fn merge_result_view(r: Result<Option<MergedUplink>, String>) -> Result<Option<MergedView>, Seq<char>> {
    match r {
        Ok(Some(m)) => Ok(Some(merged_view(m))),
        Ok(None) => Ok(None),
        Err(e) => Err(e@),
    }
}

/// Merges host defaults with the project's override, everything but the
/// client secret, which comes from a file (see `secret_ref` and
/// `with_secret`).
pub fn merge_uplink(host: Option<&OidcUplink>, project: Option<&OidcUplink>) -> (r: Result<Option<MergedUplink>, String>)
    ensures
        merge_result_view(r) == merge_spec(opt_ref_view(host), opt_ref_view(project)),
{
    if host.is_none() && project.is_none() {
        return Ok(None);
    }
    let ghost h = settings_view(opt_ref_view(host));
    let ghost p = settings_view(opt_ref_view(project));
    let source = if host.is_some() && project.is_some() {
        UplinkSource::Merged
    } else if host.is_some() {
        UplinkSource::Host
    } else {
        UplinkSource::Project
    };
    let project_kind = match project {
        Some(u) => u.uplink_type,
        None => None,
    };
    let host_kind = match host {
        Some(u) => u.uplink_type,
        None => None,
    };
    let kind = match project_kind {
        Some(k) => k,
        None => match host_kind {
            Some(k) => k,
            None => OidcUplinkType::Oidc,
        },
    };
    let issuer = pick_str(field(project, 0), field(host, 0));
    let tenant = pick_str(field(project, 1), field(host, 1));
    let client_id = pick_str(field(project, 2), field(host, 2));
    let project_scopes = match project {
        Some(u) => match &u.scopes {
            Some(s) => Some(s),
            None => None,
        },
        None => None,
    };
    let host_scopes = match host {
        Some(u) => match &u.scopes {
            Some(s) => Some(s),
            None => None,
        },
        None => None,
    };
    let scopes = match project_scopes {
        Some(s) => crate::text::copy_strings(s),
        None => match host_scopes {
            Some(s) => crate::text::copy_strings(s),
            None => default_scope_list(kind),
        },
    };
    let project_info = match project {
        Some(u) => u.get_user_info,
        None => None,
    };
    let host_info = match host {
        Some(u) => u.get_user_info,
        None => None,
    };
    let get_user_info = match project_info {
        Some(b) => b,
        None => match host_info {
            Some(b) => b,
            None => true,
        },
    };
    let client_id = match client_id {
        Some(c) => c,
        None => {
            return Err(
                owned(
                    "oidc uplink incomplete: clientID required (set host defaults or oidc.uplink.clientID)",
                ),
            );
        },
    };
    let issuer = match kind {
        OidcUplinkType::Oidc => match issuer {
            None => {
                return Err(owned("oidc uplink incomplete: issuer required for type: oidc"));
            },
            Some(i) => {
                if !str_starts_with(i.as_str(), "https://") {
                    let quoted = debug_quoted(i.as_str());
                    return Err(cat3("oidc uplink issuer must be https:// (got ", quoted.as_str(), ")"));
                }
                Some(i)
            },
        },
        _ => None,
    };
    let tenant = match kind {
        OidcUplinkType::Microsoft => match tenant {
            Some(t) => Some(t),
            None => Some(owned("common")),
        },
        _ => tenant,
    };
    let merged = MergedUplink { uplink_type: kind, issuer, tenant, client_id, scopes, get_user_info, source };
    assert(merged_view(merged) == merge_spec(opt_ref_view(host), opt_ref_view(project))->Ok_0->Some_0);
    Ok(Some(merged))
}

/// Where the uplink's client secret is read from: the host's canonical
/// secret file, an absolute path, or a path in the project's OIDC directory.
#[derive(Clone, Debug, PartialEq, Eq)]
pub enum SecretRef {
    Host,
    Absolute(String),
    ProjectRelative(String),
}

pub open spec fn secret_ref_spec(project_file: Option<Seq<char>>) -> SecretRefView {
    match project_file {
        None => SecretRefView::Host,
        Some(f) => if f.len() == 0 || f == "host"@ {
            SecretRefView::Host
        } else if f[0] == '/' {
            SecretRefView::Absolute(f)
        } else {
            SecretRefView::ProjectRelative(f)
        },
    }
}

pub enum SecretRefView {
    Host,
    Absolute(Seq<char>),
    ProjectRelative(Seq<char>),
}

pub open spec fn secret_ref_view(r: SecretRef) -> SecretRefView {
    match r {
        SecretRef::Host => SecretRefView::Host,
        SecretRef::Absolute(p) => SecretRefView::Absolute(p@),
        SecretRef::ProjectRelative(p) => SecretRefView::ProjectRelative(p@),
    }
}

/// Where the secret comes from: the project's `clientSecretFile` wins when it
/// is set and not `host`.
pub fn secret_ref(project: Option<&OidcUplink>) -> (r: SecretRef)
    ensures
        secret_ref_view(r) == secret_ref_spec(settings_view(opt_ref_view(project)).secret_file),
{
    let file = match project {
        Some(u) => match &u.client_secret_file {
            Some(f) => f,
            None => {
                return SecretRef::Host;
            },
        },
        None => {
            return SecretRef::Host;
        },
    };
    if file.unicode_len() == 0 || str_eq(file.as_str(), "host") {
        SecretRef::Host
    } else if first_char_is(file.as_str(), '/') {
        SecretRef::Absolute(file.clone())
    } else {
        SecretRef::ProjectRelative(file.clone())
    }
}

pub open spec fn missing_secret_spec(r: SecretRefView, path: Seq<char>) -> Seq<char> {
    match r {
        SecretRefView::Host => "oidc uplink secret missing: "@ + path
            + " (configure host client secret in Settings)"@,
        SecretRefView::Absolute(_) => "oidc uplink secret missing: "@ + path,
        SecretRefView::ProjectRelative(_) => "oidc uplink secret missing: "@ + path
            + " (or set clientSecretFile: host)"@,
    }
}

/// The message for a secret file that does not exist at `path`.
pub fn missing_secret_message(r: &SecretRef, path: &str) -> (m: String)
    ensures
        m@ == missing_secret_spec(secret_ref_view(*r), path@),
{
    match r {
        SecretRef::Host => cat3(
            "oidc uplink secret missing: ",
            path,
            " (configure host client secret in Settings)",
        ),
        SecretRef::Absolute(_) => cat("oidc uplink secret missing: ", path),
        SecretRef::ProjectRelative(_) => cat3(
            "oidc uplink secret missing: ",
            path,
            " (or set clientSecretFile: host)",
        ),
    }
}

/// The uplink with the secret read from `path`: the file's content trimmed,
/// which must not be empty.
pub open spec fn with_secret_spec(m: MergedView, path: Seq<char>, raw: Seq<char>) -> Result<UplinkView, Seq<char>> {
    let secret = trim_spec(raw);
    if secret.len() == 0 {
        Err("oidc uplink secret file is empty: "@ + path)
    } else {
        Ok(
            UplinkView {
                kind: m.kind,
                issuer: m.issuer,
                tenant: m.tenant,
                client_id: m.client_id,
                client_secret: secret,
                scopes: m.scopes,
                get_user_info: m.get_user_info,
                source: m.source,
            },
        )
    }
}

pub open spec fn uplink_result_view(r: Result<ResolvedUplink, String>) -> Result<UplinkView, Seq<char>> {
    match r {
        Ok(u) => Ok(uplink_view(u)),
        Err(e) => Err(e@),
    }
}

/// Completes a merged uplink with the content `raw` of its secret file at
/// `path`.
pub fn with_secret(merged: MergedUplink, path: &str, raw: &str) -> (r: Result<ResolvedUplink, String>)
    ensures
        uplink_result_view(r) == with_secret_spec(merged_view(merged), path@, raw@),
{
    let secret = trim(raw);
    if secret.unicode_len() == 0 {
        return Err(cat("oidc uplink secret file is empty: ", path));
    }
    let r = ResolvedUplink {
        uplink_type: merged.uplink_type,
        issuer: merged.issuer,
        tenant: merged.tenant,
        client_id: merged.client_id,
        client_secret: secret,
        scopes: merged.scopes,
        get_user_info: merged.get_user_info,
        source: merged.source,
    };
    Ok(r)
}

// ---------------------------------------------------------------------------
// The Dex configuration

/// A static client of Dex as the clients file lists it; a missing id,
/// secret or name falls back to a default.
#[derive(Clone, Debug)]
pub struct DexClient {
    pub id: Option<String>,
    pub name: Option<String>,
    pub secret: Option<String>,
    pub redirect_uris: Vec<String>,
}

pub struct ClientView {
    pub id: Option<Seq<char>>,
    pub name: Option<Seq<char>>,
    pub secret: Option<Seq<char>>,
    pub redirect_uris: Seq<Seq<char>>,
}

pub open spec fn client_view(c: DexClient) -> ClientView {
    ClientView {
        id: opt_view(c.id),
        name: opt_view(c.name),
        secret: opt_view(c.secret),
        redirect_uris: strings_view(c.redirect_uris@),
    }
}

pub open spec fn clients_view(cs: Seq<DexClient>) -> Seq<ClientView> {
    cs.map_values(|c: DexClient| client_view(c))
}

pub open spec fn or_default(o: Option<Seq<char>>, d: Seq<char>) -> Seq<char> {
    match o {
        Some(s) => s,
        None => d,
    }
}

pub open spec fn uri_lines(uris: Seq<Seq<char>>) -> Seq<char>
    decreases uris.len(),
{
    if uris.len() == 0 {
        Seq::empty()
    } else {
        uri_lines(uris.drop_last()) + "      - "@ + uris.last() + "\n"@
    }
}

/// One entry of `staticClients:`.
pub open spec fn client_block(c: ClientView) -> Seq<char> {
    let id = or_default(c.id, "client"@);
    "  - id: "@ + id + "\n"@ + "    name: "@ + or_default(c.name, id) + "\n"@ + "    secret: "@
        + or_default(c.secret, "secret"@) + "\n"@ + "    redirectURIs:\n"@ + uri_lines(c.redirect_uris)
}

pub open spec fn client_blocks(cs: Seq<ClientView>) -> Seq<char>
    decreases cs.len(),
{
    if cs.len() == 0 {
        Seq::empty()
    } else {
        client_blocks(cs.drop_last()) + client_block(cs.last())
    }
}

/// The `staticClients:` section; an empty list is written `[]`.
pub open spec fn static_clients_spec(cs: Seq<ClientView>) -> Seq<char> {
    "staticClients:\n"@ + if cs.len() == 0 {
        "  []\n"@
    } else {
        client_blocks(cs)
    }
}

/// The password file named in the settings, as the caller found it.
#[derive(Clone, Debug)]
pub enum PasswordFile {
    /// No password file is configured.
    Absent,
    /// A password file is configured but does not exist at this path.
    Missing(String),
    /// The content of the configured password file.
    Present(String),
}

pub enum PasswordView {
    Absent,
    Missing(Seq<char>),
    Present(Seq<char>),
}

pub open spec fn password_view(p: PasswordFile) -> PasswordView {
    match p {
        PasswordFile::Absent => PasswordView::Absent,
        PasswordFile::Missing(s) => PasswordView::Missing(s@),
        PasswordFile::Present(s) => PasswordView::Present(s@),
    }
}

pub open spec fn dev_user_block() -> Seq<char> {
    "enablePasswordDB: true\nstaticPasswords:\n  - email: \"admin@vzctl.local\"\n    hash: \"$2a$10$2b2cU8CPhOTaGrs1HRQuAueS7JTT5ZHsHSzYiFPm1leZck7FQjAha\"\n    username: \"admin\"\n    userID: \"08a8684b-db88-4b73-90a9-3cd1661f5466\"\n"@
}

/// The password section: an uplink without a password file turns the
/// password database off; an existing password file is used as it is; a
/// missing one is an error with an uplink; without uplink or file a
/// development user is configured.
pub open spec fn passwords_spec(has_uplink: bool, pw: PasswordView) -> Result<Seq<char>, Seq<char>> {
    match pw {
        PasswordView::Present(content) => Ok("enablePasswordDB: true\nstaticPasswords:\n"@ + content),
        PasswordView::Absent => if has_uplink {
            Ok("enablePasswordDB: false\n"@)
        } else {
            Ok(dev_user_block())
        },
        PasswordView::Missing(path) => if has_uplink {
            Err("passwordFile not found: "@ + path + " (omit passwordFile for uplink-only)"@)
        } else {
            Ok(dev_user_block())
        },
    }
}

pub open spec fn dex_config_spec(
    issuer: Seq<char>,
    listen: Seq<char>,
    clients: Seq<ClientView>,
    pw: PasswordView,
    storage: Seq<char>,
    uplink: Option<UplinkView>,
) -> Result<Seq<char>, Seq<char>> {
    match passwords_spec(uplink is Some, pw) {
        Err(e) => Err(e),
        Ok(passwords) => {
            let connectors = match uplink {
                Some(up) => connector_spec(up, issuer),
                None => Ok(Seq::<char>::empty()),
            };
            match connectors {
                Err(e) => Err(e),
                Ok(connectors) => Ok(
                    "issuer: "@ + issuer + "\nstorage:\n  type: sqlite3\n  config:\n    file: "@ + storage
                        + "/dex.db\nweb:\n  http: "@ + listen + "\noauth2:\n  skipApprovalScreen: true\n"@
                        + static_clients_spec(clients) + "\n"@ + connectors + passwords,
                ),
            }
        },
    }
}

fn push_uri_lines(out: &mut String, uris: &Vec<String>)
    ensures
        final(out)@ == old(out)@ + uri_lines(strings_view(uris@)),
{
    let ghost start = out@;
    let ghost uv = strings_view(uris@);
    let mut i: usize = 0;
    assert(uv.subrange(0, 0) =~= Seq::<Seq<char>>::empty());
    while i < uris.len()
        invariant
            i <= uris@.len(),
            uv == strings_view(uris@),
            out@ == start + uri_lines(uv.subrange(0, i as int)),
        decreases uris.len() - i,
    {
        assert(uv.subrange(0, i + 1).drop_last() =~= uv.subrange(0, i as int));
        assert(uv.subrange(0, i + 1).last() == uris[i as int]@);
        out.append("      - ");
        out.append(uris[i].as_str());
        out.append("\n");
        assert(out@ =~= start + uri_lines(uv.subrange(0, i + 1)));
        i = i + 1;
    }
    assert(uv.subrange(0, uris.len() as int) =~= uv);
}

fn push_client_block(out: &mut String, c: &DexClient)
    ensures
        final(out)@ == old(out)@ + client_block(client_view(*c)),
{
    let ghost start = out@;
    let id: &str = match &c.id {
        Some(s) => s.as_str(),
        None => "client",
    };
    let name: &str = match &c.name {
        Some(s) => s.as_str(),
        None => id,
    };
    let secret: &str = match &c.secret {
        Some(s) => s.as_str(),
        None => "secret",
    };
    out.append("  - id: ");
    out.append(id);
    out.append("\n");
    out.append("    name: ");
    out.append(name);
    out.append("\n");
    out.append("    secret: ");
    out.append(secret);
    out.append("\n");
    out.append("    redirectURIs:\n");
    push_uri_lines(out, &c.redirect_uris);
    assert(out@ =~= start + client_block(client_view(*c)));
}

/// The `staticClients:` section of Dex's configuration.
pub fn render_static_clients(clients: &[DexClient]) -> (r: String)
    ensures
        r@ == static_clients_spec(clients_view(clients@)),
{
    let mut out = owned("staticClients:\n");
    if clients.len() == 0 {
        out.append("  []\n");
        assert(out@ =~= static_clients_spec(clients_view(clients@)));
        return out;
    }
    let ghost cv = clients_view(clients@);
    let mut i: usize = 0;
    assert(cv.subrange(0, 0) =~= Seq::<ClientView>::empty());
    while i < clients.len()
        invariant
            i <= clients@.len(),
            cv == clients_view(clients@),
            out@ == "staticClients:\n"@ + client_blocks(cv.subrange(0, i as int)),
        decreases clients.len() - i,
    {
        assert(cv.subrange(0, i + 1).drop_last() =~= cv.subrange(0, i as int));
        assert(cv.subrange(0, i + 1).last() == client_view(clients@[i as int]));
        push_client_block(&mut out, &clients[i]);
        assert(out@ =~= "staticClients:\n"@ + client_blocks(cv.subrange(0, i + 1)));
        i = i + 1;
    }
    assert(cv.subrange(0, clients.len() as int) =~= cv);
    out
}

pub open spec fn opt_uplink_view(u: Option<&ResolvedUplink>) -> Option<UplinkView> {
    match u {
        Some(up) => Some(uplink_view(*up)),
        None => None,
    }
}

/// Renders Dex's configuration: static clients, the optional uplink
/// connector and the password section.
pub fn render_dex_config(
    issuer: &str,
    listen: &str,
    clients: &[DexClient],
    password_file: &PasswordFile,
    storage_dir: &str,
    uplink: Option<&ResolvedUplink>,
) -> (r: Result<String, String>)
    ensures
        string_result_view(r) == dex_config_spec(
            issuer@,
            listen@,
            clients_view(clients@),
            password_view(*password_file),
            storage_dir@,
            opt_uplink_view(uplink),
        ),
{
    let static_clients = render_static_clients(clients);
    let passwords = match password_file {
        PasswordFile::Present(content) => cat("enablePasswordDB: true\nstaticPasswords:\n", content.as_str()),
        PasswordFile::Absent => if uplink.is_some() {
            owned("enablePasswordDB: false\n")
        } else {
            owned("enablePasswordDB: true\nstaticPasswords:\n  - email: \"admin@vzctl.local\"\n    hash: \"$2a$10$2b2cU8CPhOTaGrs1HRQuAueS7JTT5ZHsHSzYiFPm1leZck7FQjAha\"\n    username: \"admin\"\n    userID: \"08a8684b-db88-4b73-90a9-3cd1661f5466\"\n")
        },
        PasswordFile::Missing(path) => if uplink.is_some() {
            return Err(cat3("passwordFile not found: ", path.as_str(), " (omit passwordFile for uplink-only)"));
        } else {
            owned("enablePasswordDB: true\nstaticPasswords:\n  - email: \"admin@vzctl.local\"\n    hash: \"$2a$10$2b2cU8CPhOTaGrs1HRQuAueS7JTT5ZHsHSzYiFPm1leZck7FQjAha\"\n    username: \"admin\"\n    userID: \"08a8684b-db88-4b73-90a9-3cd1661f5466\"\n")
        },
    };
    let connectors = match uplink {
        Some(up) => match render_connector_block(up, issuer) {
            Ok(block) => block,
            Err(e) => {
                return Err(e);
            },
        },
        None => String::new(),
    };
    let mut out = owned("issuer: ");
    out.append(issuer);
    out.append("\nstorage:\n  type: sqlite3\n  config:\n    file: ");
    out.append(storage_dir);
    out.append("/dex.db\nweb:\n  http: ");
    out.append(listen);
    out.append("\noauth2:\n  skipApprovalScreen: true\n");
    out.append(static_clients.as_str());
    out.append("\n");
    out.append(connectors.as_str());
    out.append(passwords.as_str());
    Ok(out)
}

// ---------------------------------------------------------------------------
// Options of `oidc status` and `oidc clients`

pub type FormatOptions = (Format, Option<String>);

/// The options from `i` on: `--format human|json` and `--project P` with a
/// non-empty value; anything else is refused.
pub open spec fn scan_format(args: Seq<Seq<char>>, i: int, st: (Format, Option<Seq<char>>)) -> Result<(Format, Option<Seq<char>>), Seq<char>>
    decreases args.len() - i,
{
    if i < 0 || i >= args.len() {
        Ok(st)
    } else {
        let a = args[i];
        let has_value = i + 1 < args.len();
        if a == "--format"@ {
            if !has_value {
                Err("--format requires human or json"@)
            } else if args[i + 1] == "human"@ {
                scan_format(args, i + 2, (Format::Human, st.1))
            } else if args[i + 1] == "json"@ {
                scan_format(args, i + 2, (Format::Json, st.1))
            } else {
                Err("unsupported format: "@ + args[i + 1])
            }
        } else if a == "--project"@ {
            if !has_value || args[i + 1].len() == 0 {
                Err("--project requires a value"@)
            } else {
                scan_format(args, i + 2, (st.0, Some(args[i + 1])))
            }
        } else {
            Err("unexpected argument: "@ + a)
        }
    }
}

pub open spec fn format_result_view(r: Result<FormatOptions, String>) -> Result<(Format, Option<Seq<char>>), Seq<char>> {
    match r {
        Ok((f, p)) => Ok((f, opt_view(p))),
        Err(e) => Err(e@),
    }
}

/// Reads the options of `oidc status` and `oidc clients`.
pub fn parse_format(args: &[String]) -> (r: Result<FormatOptions, String>)
    ensures
        format_result_view(r) == scan_format(strings_view(args@), 0, (Format::Human, None)),
{
    let ghost av = strings_view(args@);
    let mut format = Format::Human;
    let mut project: Option<String> = None;
    let mut i: usize = 0;
    while i < args.len()
        invariant
            i <= args@.len(),
            av == strings_view(args@),
            scan_format(av, 0, (Format::Human, None)) == scan_format(av, i as int, (format, opt_view(project))),
        decreases args.len() - i,
    {
        let arg = args[i].as_str();
        assert(arg@ == av[i as int]);
        let has_value = i + 1 < args.len();
        if str_eq(arg, "--format") {
            if !has_value {
                return Err(owned("--format requires human or json"));
            }
            let value = args[i + 1].as_str();
            assert(value@ == av[i + 1]);
            if str_eq(value, "human") {
                format = Format::Human;
            } else if str_eq(value, "json") {
                format = Format::Json;
            } else {
                return Err(cat("unsupported format: ", value));
            }
        } else if str_eq(arg, "--project") {
            if !has_value || args[i + 1].unicode_len() == 0 {
                return Err(owned("--project requires a value"));
            }
            assert(args[i + 1]@ == av[i + 1]);
            project = Some(args[i + 1].clone());
        } else {
            return Err(cat("unexpected argument: ", arg));
        }
        i = i + 2;
    }
    Ok((format, project))
}

// ---------------------------------------------------------------------------
// Laws

/// Settings the project sets win over the host's: a non-empty client id,
/// the scopes and the user-info switch of the project are those of the
/// merged uplink, which is marked as merged.
pub proof fn law_project_overrides_host(host: OidcUplink, project: OidcUplink)
    requires
        merge_spec(Some(host), Some(project)) is Ok,
    ensures
        ({
            let m = merge_spec(Some(host), Some(project))->Ok_0->Some_0;
            let p = settings_view(Some(project));
            &&& merge_spec(Some(host), Some(project))->Ok_0 is Some
            &&& m.source == UplinkSource::Merged
            &&& (p.client_id is Some && p.client_id->Some_0.len() > 0 ==> m.client_id == p.client_id->Some_0)
            &&& (p.scopes is Some ==> m.scopes == p.scopes->Some_0)
            &&& (p.get_user_info is Some ==> m.get_user_info == p.get_user_info->Some_0)
        }),
{
}

/// With an uplink and no password file, Dex's password database is turned
/// off and no development user is configured: the configuration ends with
/// the line that says so.
pub proof fn law_uplink_disables_password_db(
    issuer: Seq<char>,
    listen: Seq<char>,
    clients: Seq<ClientView>,
    storage: Seq<char>,
    up: UplinkView,
)
    requires
        dex_config_spec(issuer, listen, clients, PasswordView::Absent, storage, Some(up)) is Ok,
    ensures
        crate::text::ends_with(
            dex_config_spec(issuer, listen, clients, PasswordView::Absent, storage, Some(up))->Ok_0,
            "enablePasswordDB: false\n"@,
        ),
{
    let r = dex_config_spec(issuer, listen, clients, PasswordView::Absent, storage, Some(up))->Ok_0;
    let tail = "enablePasswordDB: false\n"@;
    assert(r.subrange(r.len() - tail.len(), r.len() as int) =~= tail);
}

// ---------------------------------------------------------------- generated clients

#[verifier::external_type_specification]
#[verifier::external_body]
pub struct ExSystemTime(std::time::SystemTime);

/// The wall clock now (`SystemTime::now`); nothing is promised of its value.
#[verifier::external_body]
fn system_now() -> SystemTime {
    SystemTime::now()
}

/// The time from the Unix epoch to `t` (`SystemTime::duration_since`), or
/// `None` where `t` lies before the epoch; nothing more is promised.
#[verifier::external_body]
fn since_unix_epoch(t: &SystemTime) -> Option<Duration> {
    t.duration_since(UNIX_EPOCH).ok()
}

/// Whole nanoseconds of a duration.
pub uninterp spec fn duration_nanos_of(d: Duration) -> u128;

/// Whole nanoseconds of a duration (`Duration::as_nanos`).
#[verifier::external_body]
fn duration_nanos(d: &Duration) -> (r: u128)
    ensures
        r == duration_nanos_of(*d),
{
    d.as_nanos()
}

/// A text that can salt a generated secret: a count of nanoseconds in
/// decimal, or nothing.
pub open spec fn salt_ok(salt: Seq<char>) -> bool {
    salt.len() == 0 || exists|n: nat| salt == decimal(n)
}

/// The secret generated for `seed` with `salt`: the SHA-256 digest, in
/// lowercase hex, of the UTF-8 text `vzctl-oidc-v1:`, the seed and the salt.
pub open spec fn secret_of(seed: Seq<char>, salt: Seq<char>) -> Seq<char> {
    hex_bytes(sha256_of(encode_utf8("vzctl-oidc-v1:"@ + seed + salt)))
}

/// The client secret for `seed` salted with `salt`.
pub fn secret_for(seed: &str, salt: &str) -> (r: String)
    ensures
        r@ == secret_of(seed@, salt@),
{
    let text = cat3("vzctl-oidc-v1:", seed, salt);
    sha256_hex(text.as_str().as_bytes())
}

/// A fresh client secret for `seed`, salted with the nanoseconds since the
/// Unix epoch on the wall clock (nothing where the clock lies before it).
fn generate_secret(seed: &str) -> (r: String)
    ensures
        exists|salt: Seq<char>| salt_ok(salt) && r@ == secret_of(seed@, salt),
{
    let salt = match since_unix_epoch(&system_now()) {
        Some(d) => u128_to_decimal(duration_nanos(&d)),
        None => String::new(),
    };
    assert(salt_ok(salt@)) by {
        if salt@.len() > 0 {
            let n = choose|n: nat| salt@ == decimal(n);
        }
    }
    secret_for(seed, salt.as_str())
}

/// A host a route serves and the features it asks for.
pub type RouteHost = (String, Vec<String>);

pub open spec fn route_view(r: RouteHost) -> (Seq<char>, Seq<Seq<char>>) {
    (r.0@, strings_view(r.1@))
}

pub open spec fn routes_view(rs: Seq<RouteHost>) -> Seq<(Seq<char>, Seq<Seq<char>>)> {
    rs.map_values(|r: RouteHost| route_view(r))
}

pub open spec fn wants_oidc(features: Seq<Seq<char>>) -> bool {
    features.contains("oidc"@)
}

/// The first host of `routes` that asks for OIDC and holds `name`.
pub open spec fn oidc_host_of(routes: Seq<(Seq<char>, Seq<Seq<char>>)>, name: Seq<char>) -> Option<Seq<char>>
    decreases routes.len(),
{
    if routes.len() == 0 {
        None
    } else if wants_oidc(routes[0].1) && contains_str(routes[0].0, name) {
        Some(routes[0].0)
    } else {
        oidc_host_of(routes.drop_first(), name)
    }
}

pub open spec fn callback_uri(host: Seq<char>) -> Seq<char> {
    "https://"@ + host + "/oauth2/callback"@
}

/// The host a VM's client is called back on: its OIDC route, else its
/// service name in the domain.
pub open spec fn vm_host(name: Seq<char>, domain: Seq<char>, routes: Seq<(Seq<char>, Seq<Seq<char>>)>) -> Seq<char> {
    match oidc_host_of(routes, name) {
        Some(h) => h,
        None => name + ".svc."@ + domain,
    }
}

/// The first label of a host name.
pub open spec fn short_host(host: Seq<char>) -> Seq<char> {
    match index_of_char(host, '.') {
        Some(i) => host.subrange(0, i),
        None => host,
    }
}

pub open spec fn has_id(entries: Seq<(Seq<char>, Seq<char>)>, id: Seq<char>) -> bool {
    exists|i: int| 0 <= i < entries.len() && #[trigger] entries[i].0 == id
}

/// The clients of the OIDC routes added after `base`, in route order: one per
/// route that asks for OIDC and whose first label no earlier client has.
pub open spec fn route_entries(
    routes: Seq<(Seq<char>, Seq<Seq<char>>)>,
    base: Seq<(Seq<char>, Seq<char>)>,
) -> Seq<(Seq<char>, Seq<char>)>
    decreases routes.len(),
{
    if routes.len() == 0 {
        base
    } else {
        let prev = route_entries(routes.drop_last(), base);
        let host = routes.last().0;
        if !wants_oidc(routes.last().1) || has_id(prev, short_host(host)) {
            prev
        } else {
            prev.push((short_host(host), callback_uri(host)))
        }
    }
}

/// The clients generated for a project, as (id, callback) pairs: one per VM,
/// then one per further OIDC route.
pub open spec fn auto_entries(
    domain: Seq<char>,
    vm_names: Seq<Seq<char>>,
    routes: Seq<(Seq<char>, Seq<Seq<char>>)>,
) -> Seq<(Seq<char>, Seq<char>)> {
    route_entries(routes, vm_names.map_values(|n: Seq<char>| (n, callback_uri(vm_host(n, domain, routes)))))
}

/// The generated clients of a project and the issuer they belong to.
pub struct AutoClients {
    pub project: String,
    pub issuer: String,
    pub clients: Vec<DexClient>,
}

fn wants_oidc_exec(features: &Vec<String>) -> (r: bool)
    ensures
        r == wants_oidc(strings_view(features@)),
{
    let ghost fv = strings_view(features@);
    let mut i: usize = 0;
    while i < features.len()
        invariant
            i <= features@.len(),
            fv == strings_view(features@),
            forall|j: int| 0 <= j < i ==> fv[j] != "oidc"@,
        decreases features.len() - i,
    {
        if str_eq(features[i].as_str(), "oidc") {
            assert(fv[i as int] == "oidc"@);
            return true;
        }
        i = i + 1;
    }
    false
}

fn oidc_host_exec<'a>(routes: &'a [RouteHost], name: &str) -> (r: Option<&'a String>)
    ensures
        match oidc_host_of(routes_view(routes@), name@) {
            Some(h) => r matches Some(s) && s@ == h,
            None => r is None,
        },
{
    let ghost rv = routes_view(routes@);
    let mut i: usize = 0;
    assert(rv.skip(0) =~= rv);
    while i < routes.len()
        invariant
            i <= routes@.len(),
            rv == routes_view(routes@),
            oidc_host_of(rv, name@) == oidc_host_of(rv.skip(i as int), name@),
        decreases routes.len() - i,
    {
        assert(rv.skip(i as int)[0] == route_view(routes@[i as int]));
        assert(rv.skip(i as int).drop_first() =~= rv.skip(i + 1));
        let (host, features) = &routes[i];
        if wants_oidc_exec(features) && str_contains(host.as_str(), name) {
            return Some(host);
        }
        i = i + 1;
    }
    None
}

fn short_host_exec(host: &str) -> (r: String)
    ensures
        r@ == short_host(host@),
{
    match split_first(host, '.') {
        Some((a, _)) => a,
        None => owned(host),
    }
}

/// The client has the entry's id as id and name, the entry's callback as
/// its one redirect URI, and a secret generated for its id.
pub open spec fn client_fits(c: ClientView, e: (Seq<char>, Seq<char>)) -> bool {
    &&& c.id == Some(e.0)
    &&& c.name == Some(e.0)
    &&& c.redirect_uris == seq![e.1]
    &&& c.secret matches Some(s) && exists|salt: Seq<char>| salt_ok(salt) && s == secret_of(e.0, salt)
}

pub open spec fn clients_fit(cs: Seq<ClientView>, es: Seq<(Seq<char>, Seq<char>)>) -> bool {
    cs.len() == es.len() && forall|i: int| 0 <= i < cs.len() ==> #[trigger] client_fits(cs[i], es[i])
}

fn new_client(id: &str, uri: String) -> (r: DexClient)
    ensures
        client_fits(client_view(r), (id@, uri@)),
{
    let secret = generate_secret(id);
    let mut uris: Vec<String> = Vec::new();
    uris.push(uri);
    assert(strings_view(uris@) =~= seq![uri@]);
    DexClient { id: Some(owned(id)), name: Some(owned(id)), secret: Some(secret), redirect_uris: uris }
}

fn has_client_id(cs: &Vec<DexClient>, id: &str) -> (r: bool)
    requires
        forall|i: int| 0 <= i < cs@.len() ==> #[trigger] cs@[i].id is Some,
    ensures
        r == exists|i: int| 0 <= i < cs@.len() && #[trigger] opt_view(cs@[i].id) == Some(id@),
{
    let mut i: usize = 0;
    while i < cs.len()
        invariant
            i <= cs@.len(),
            forall|k: int| 0 <= k < cs@.len() ==> #[trigger] cs@[k].id is Some,
            forall|k: int| 0 <= k < i ==> #[trigger] opt_view(cs@[k].id) != Some(id@),
        decreases cs.len() - i,
    {
        match &cs[i].id {
            Some(x) => {
                if str_eq(x.as_str(), id) {
                    assert(opt_view(cs@[i as int].id) == Some(id@));
                    return true;
                }
            },
            None => {},
        }
        i = i + 1;
    }
    false
}

/// The Dex clients generated for a project under `clients: auto`: one per
/// VM, called back on the VM's OIDC route where it has one, then one per
/// further route that asks for OIDC, named by the route's first label. Each
/// gets a fresh secret.
pub fn auto_clients(project: &str, domain: &str, vm_names: &[String], route_hosts: &[RouteHost]) -> (r: AutoClients)
    ensures
        r.project@ == project@,
        r.issuer@ == "https://auth.svc."@ + domain@,
        clients_fit(
            clients_view(r.clients@),
            auto_entries(domain@, strings_view(vm_names@), routes_view(route_hosts@)),
        ),
{
    let ghost rv = routes_view(route_hosts@);
    let ghost nv = strings_view(vm_names@);
    let ghost vm_es = nv.map_values(|n: Seq<char>| (n, callback_uri(vm_host(n, domain@, rv))));
    let mut clients: Vec<DexClient> = Vec::new();
    let ghost mut es: Seq<(Seq<char>, Seq<char>)> = Seq::empty();
    let mut i: usize = 0;
    while i < vm_names.len()
        invariant
            i <= vm_names@.len(),
            nv == strings_view(vm_names@),
            rv == routes_view(route_hosts@),
            vm_es == nv.map_values(|n: Seq<char>| (n, callback_uri(vm_host(n, domain@, rv)))),
            es == vm_es.subrange(0, i as int),
            clients_fit(clients_view(clients@), es),
            forall|k: int| 0 <= k < clients@.len() ==> #[trigger] clients@[k].id is Some,
        decreases vm_names.len() - i,
    {
        let name = vm_names[i].as_str();
        let host = match oidc_host_exec(route_hosts, name) {
            Some(h) => h.clone(),
            None => cat3(name, ".svc.", domain),
        };
        let uri = cat3("https://", host.as_str(), "/oauth2/callback");
        assert(uri@ == callback_uri(vm_host(nv[i as int], domain@, rv)));
        let c = new_client(name, uri);
        let ghost before = clients@;
        clients.push(c);
        proof {
            es = es.push(vm_es[i as int]);
            assert(es =~= vm_es.subrange(0, i + 1));
            assert(clients_view(clients@) =~= clients_view(before).push(client_view(c)));
            assert forall|k: int| 0 <= k < clients_view(clients@).len() implies #[trigger] client_fits(
                clients_view(clients@)[k],
                es[k],
            ) by {
                if k < before.len() {
                    assert(client_fits(clients_view(before)[k], es[k]));
                }
            }
        }
        i = i + 1;
    }
    assert(vm_es.subrange(0, vm_names@.len() as int) =~= vm_es);
    let ghost base = es;
    let mut j: usize = 0;
    assert(rv.subrange(0, 0) =~= Seq::<(Seq<char>, Seq<Seq<char>>)>::empty());
    while j < route_hosts.len()
        invariant
            j <= route_hosts@.len(),
            rv == routes_view(route_hosts@),
            base == vm_es,
            es == route_entries(rv.subrange(0, j as int), base),
            clients_fit(clients_view(clients@), es),
            forall|k: int| 0 <= k < clients@.len() ==> #[trigger] clients@[k].id is Some,
        decreases route_hosts.len() - j,
    {
        let ghost pre = rv.subrange(0, j + 1);
        assert(pre.drop_last() =~= rv.subrange(0, j as int));
        assert(pre.last() == route_view(route_hosts@[j as int]));
        let (host, features) = &route_hosts[j];
        if wants_oidc_exec(features) {
            let short = short_host_exec(host.as_str());
            let known = has_client_id(&clients, short.as_str());
            proof {
                let cv = clients_view(clients@);
                if known {
                    let k = choose|k: int| 0 <= k < clients@.len() && #[trigger] opt_view(clients@[k].id) == Some(short@);
                    assert(client_fits(cv[k], es[k]));
                    assert(es[k].0 == short@);
                } else if has_id(es, short@) {
                    let k = choose|k: int| 0 <= k < es.len() && #[trigger] es[k].0 == short@;
                    assert(client_fits(cv[k], es[k]));
                    assert(opt_view(clients@[k].id) == Some(short@));
                }
            }
            if !known {
                let uri = cat3("https://", host.as_str(), "/oauth2/callback");
                let c = new_client(short.as_str(), uri);
                let ghost before = clients@;
                clients.push(c);
                proof {
                    es = es.push((short@, uri@));
                    assert(clients_view(clients@) =~= clients_view(before).push(client_view(c)));
                    assert forall|k: int| 0 <= k < clients_view(clients@).len() implies #[trigger] client_fits(
                        clients_view(clients@)[k],
                        es[k],
                    ) by {
                        if k < before.len() {
                            assert(client_fits(clients_view(before)[k], es[k]));
                        }
                    }
                }
            }
        }
        j = j + 1;
    }
    assert(rv.subrange(0, route_hosts@.len() as int) =~= rv);
    AutoClients { project: owned(project), issuer: cat("https://auth.svc.", domain), clients }
}

} // verus!
