//! The `port` command: reading the options of `port list`.
use crate::text::{cat, owned, str_eq, strings_view};
use vstd::prelude::*;

verus! {

pub const EXIT_USAGE: u8 = 2;
pub const EXIT_SUPERVISOR: u8 = 10;

#[derive(Clone, Copy, Debug, PartialEq, Eq, Structural)]
pub enum Format {
    Human,
    Json,
}

/// What `port list` was asked for: output format, project and stack filters.
pub type ListOptions = (Format, Option<String>, Option<String>);

pub type ListView = (Format, Option<Seq<char>>, Option<Seq<char>>);

/// The options of the arguments from `i` on, given what was read before: a
/// flag takes the next argument as its value, `--format` only `human` or
/// `json`, the filters only a non-empty value; anything else is refused.
pub open spec fn scan_list(args: Seq<Seq<char>>, i: int, st: ListView) -> Result<ListView, Seq<char>>
    decreases args.len() - i,
{
    if i < 0 || i >= args.len() {
        Ok(st)
    } else {
        let a = args[i];
        let has_value = i + 1 < args.len();
        if a == "--format"@ {
            if !has_value {
                Err("--format requires human or json"@)
            } else if args[i + 1] == "human"@ {
                scan_list(args, i + 2, (Format::Human, st.1, st.2))
            } else if args[i + 1] == "json"@ {
                scan_list(args, i + 2, (Format::Json, st.1, st.2))
            } else {
                Err("unsupported port list format: "@ + args[i + 1])
            }
        } else if a == "--project"@ {
            if !has_value || args[i + 1].len() == 0 {
                Err("--project requires a value"@)
            } else {
                scan_list(args, i + 2, (st.0, Some(args[i + 1]), st.2))
            }
        } else if a == "--stack"@ {
            if !has_value || args[i + 1].len() == 0 {
                Err("--stack requires a value"@)
            } else {
                scan_list(args, i + 2, (st.0, st.1, Some(args[i + 1])))
            }
        } else {
            Err("unknown port list option: "@ + a)
        }
    }
}

pub open spec fn opt_view(o: Option<String>) -> Option<Seq<char>> {
    match o {
        Some(s) => Some(s@),
        None => None,
    }
}

pub open spec fn list_result_view(r: Result<ListOptions, String>) -> Result<ListView, Seq<char>> {
    match r {
        Ok((f, p, s)) => Ok((f, opt_view(p), opt_view(s))),
        Err(e) => Err(e@),
    }
}

/// Reads the options of `port list`.
pub fn parse_list_options(args: &[String]) -> (r: Result<ListOptions, String>)
    ensures
        list_result_view(r) == scan_list(strings_view(args@), 0, (Format::Human, None, None)),
{
    let ghost av = strings_view(args@);
    let mut format = Format::Human;
    let mut project: Option<String> = None;
    let mut stack: Option<String> = None;
    let mut i: usize = 0;
    while i < args.len()
        invariant
            i <= args@.len(),
            av == strings_view(args@),
            scan_list(av, 0, (Format::Human, None, None)) == scan_list(
                av,
                i as int,
                (format, opt_view(project), opt_view(stack)),
            ),
        decreases args.len() - i,
    {
        let arg = args[i].as_str();
        assert(arg@ == av[i as int]);
        let has_value = i + 1 < args.len();
        if str_eq(arg, "--format") {
            if !has_value {
                return Err(owned("--format requires human or json"));
            }
            let value = args[i + 1].as_str();
            assert(value@ == av[i + 1]);
            if str_eq(value, "human") {
                format = Format::Human;
            } else if str_eq(value, "json") {
                format = Format::Json;
            } else {
                return Err(cat("unsupported port list format: ", value));
            }
        } else if str_eq(arg, "--project") {
            if !has_value || args[i + 1].unicode_len() == 0 {
                return Err(owned("--project requires a value"));
            }
            assert(args[i + 1]@ == av[i + 1]);
            project = Some(args[i + 1].clone());
        } else if str_eq(arg, "--stack") {
            if !has_value || args[i + 1].unicode_len() == 0 {
                return Err(owned("--stack requires a value"));
            }
            assert(args[i + 1]@ == av[i + 1]);
            stack = Some(args[i + 1].clone());
        } else {
            return Err(cat("unknown port list option: ", arg));
        }
        i = i + 2;
    }
    Ok((format, project, stack))
}

} // verus!
