# vzctl

The command-line logic of vzctl, a devstack supervisor for macOS
Virtualization.framework, written in Verus. The functions in `src/` carry
contracts that Verus proves, and the laws that span several functions are
public proof functions next to the code they speak of. The calls into std,
serde_json, serde_yaml and sha2 go through small wrappers marked
`#[verifier::external_body]`: their contracts are taken on trust, each stating
what the called function's documentation or source says.

## Layout

| Path | What it holds |
|---|---|
| `src/text.rs`, `src/order.rs`, `src/hash.rs` | String operations, lexicographic order and SHA-256 hex, each specified over `Seq<char>` / `Seq<u8>` |
| `src/cli.rs` | Options of `vm create`, `image`, `events`, `doctor`, `version`; VM ids, memory sizes, base64url, mount and `df` parsing |
| `src/json.rs` | JSON values read with serde_json, member lookup as serde_json's indexing does it, and compact JSON text |
| `src/doctor.rs`, `src/version.rs` | The findings of `vzctl doctor`, its summary and exit code; the `version` document |
| `src/vm.rs`, `src/cloud_config.rs`, `src/user_data.rs` | `vm create` options, VM identity, cloud-init network config, meta-data, cloud-config and the user-data document |
| `src/network.rs`, `src/route.rs`, `src/port.rs`, `src/mounts.rs` | `net`, `route`, `port` and mount options and validation |
| `src/reconciler.rs`, `src/step_run.rs`, `src/deps.rs`, `src/converge.rs`, `src/adopt.rs` | Plans, apply steps, resume, the journalled step loop, VM creation order and arguments, network/attachment/port convergence, adoption |
| `src/observability.rs`, `src/events.rs` | Stack status health and warnings, watch filters, event stream handling |
| `src/progress.rs`, `src/progress_laws.rs`, `src/ui.rs` | Apply progress state, its laws, and the terminal UI model |
| `src/services.rs`, `src/stack.rs`, `src/skill.rs`, `src/oidc.rs` | Host services, stack edits, skill install, Dex configuration and generated clients |
| `tests/` | Tests of the library, run with its outside crates linked |
| `app/` | The `vzctl` binary, so far for `version`, `doctor`, `events subscribe` and `port list`: arguments, sockets, files, the terminal, and the listener that follows `vm.state` events |
