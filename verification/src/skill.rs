//! The `skill` command: print the bundled agent skill or install it.
use crate::text::{cat, owned, str_eq, strings_view};
use vstd::prelude::*;

verus! {

/// What the `skill` command was asked to do.
#[derive(Clone, Copy, Debug, PartialEq, Eq, Structural)]
pub enum Action {
    Print,
    Help,
    InstallLocal,
    InstallGlobal,
}

/// The action of the arguments from `i` on, with the install flags seen so far:
/// a help flag answers at once, an unknown argument is refused at once, and
/// the two install flags exclude each other.
pub open spec fn scan_action(args: Seq<Seq<char>>, i: int, local: bool, global: bool) -> Result<Action, Seq<char>>
    decreases args.len() - i,
{
    if i >= args.len() || i < 0 {
        if local && global {
            Err("skill accepts only one of --install-local or --install-global"@)
        } else if local {
            Ok(Action::InstallLocal)
        } else if global {
            Ok(Action::InstallGlobal)
        } else {
            Ok(Action::Print)
        }
    } else {
        let a = args[i];
        if a == "-h"@ || a == "--help"@ || a == "help"@ {
            Ok(Action::Help)
        } else if a == "--install-local"@ {
            scan_action(args, i + 1, true, global)
        } else if a == "--install-global"@ {
            scan_action(args, i + 1, local, true)
        } else {
            Err("unknown skill option: "@ + a)
        }
    }
}

pub open spec fn result_view<T>(r: Result<T, String>) -> Result<T, Seq<char>> {
    match r {
        Ok(v) => Ok(v),
        Err(e) => Err(e@),
    }
}

/// Reads the arguments of the `skill` command.
pub fn parse_action(args: &[String]) -> (r: Result<Action, String>)
    ensures
        result_view(r) == scan_action(strings_view(args@), 0, false, false),
{
    let ghost av = strings_view(args@);
    let mut install_local = false;
    let mut install_global = false;
    let mut i: usize = 0;
    while i < args.len()
        invariant
            i <= args@.len(),
            av == strings_view(args@),
            scan_action(av, 0, false, false) == scan_action(av, i as int, install_local, install_global),
        decreases args.len() - i,
    {
        let arg = args[i].as_str();
        assert(arg@ == av[i as int]);
        if str_eq(arg, "-h") || str_eq(arg, "--help") || str_eq(arg, "help") {
            return Ok(Action::Help);
        } else if str_eq(arg, "--install-local") {
            install_local = true;
        } else if str_eq(arg, "--install-global") {
            install_global = true;
        } else {
            return Err(cat("unknown skill option: ", arg));
        }
        i = i + 1;
    }
    if install_local && install_global {
        Err(owned("skill accepts only one of --install-local or --install-global"))
    } else if install_local {
        Ok(Action::InstallLocal)
    } else if install_global {
        Ok(Action::InstallGlobal)
    } else {
        Ok(Action::Print)
    }
}

/// A help flag anywhere before an unknown argument wins over the install flags.
pub proof fn law_help_wins(args: Seq<Seq<char>>, k: int)
    requires
        0 <= k < args.len(),
        args[k] == "--help"@ || args[k] == "-h"@ || args[k] == "help"@,
        forall|j: int|
            0 <= j < k ==> (#[trigger] args[j] == "--install-local"@ || args[j] == "--install-global"@),
    ensures
        scan_action(args, 0, false, false) == Ok::<Action, Seq<char>>(Action::Help),
{
    lemma_scan_to(args, 0, k, false, false);
}

proof fn lemma_scan_to(args: Seq<Seq<char>>, i: int, k: int, local: bool, global: bool)
    requires
        0 <= i <= k < args.len(),
        args[k] == "--help"@ || args[k] == "-h"@ || args[k] == "help"@,
        forall|j: int|
            0 <= j < k ==> (#[trigger] args[j] == "--install-local"@ || args[j] == "--install-global"@),
    ensures
        scan_action(args, i, local, global) == Ok::<Action, Seq<char>>(Action::Help),
    decreases k - i,
{
    if i < k {
        let a = args[i];
        assert(a == "--install-local"@ || a == "--install-global"@);
        reveal_strlit("--install-local");
        reveal_strlit("--install-global");
        reveal_strlit("--help");
        reveal_strlit("-h");
        reveal_strlit("help");
        assert(a != "--help"@ && a != "-h"@ && a != "help"@);
        if a == "--install-local"@ {
            lemma_scan_to(args, i + 1, k, true, global);
        } else {
            lemma_scan_to(args, i + 1, k, local, true);
        }
    }
}

} // verus!
