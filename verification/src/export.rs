//! What the built-in export plugin emits: for each entry of the
//! environment contract, one shell command that sets or unsets the
//! variable, in the dialect the payload's shell hint names. Printing the
//! lines is the plugin binary's part; which lines there are is decided
//! here, as a pure function of the payload.

use vstd::prelude::*;
use vstd::string::StringExecFns;

use crate::handler::{var_view, variables_of, Variable};
use crate::plugin::PluginPayload;
use crate::select::name_views;
use crate::shell::Shell;

verus! {

/// A Bourne-family line: `export "NAME=VALUE"`, or `unset NAME`.
pub open spec fn bash_line(nv: (Seq<char>, Option<Seq<char>>)) -> Seq<char> {
    match nv.1 {
        Some(v) => "export \""@ + nv.0 + "="@ + v + "\""@,
        None => "unset "@ + nv.0,
    }
}

/// A fish line: `set -gx NAME "VALUE"`, or `set -e NAME`.
pub open spec fn fish_line(nv: (Seq<char>, Option<Seq<char>>)) -> Seq<char> {
    match nv.1 {
        Some(v) => "set -gx "@ + nv.0 + " \""@ + v + "\""@,
        None => "set -e "@ + nv.0,
    }
}

/// The lines for a variable list, in order.
pub open spec fn bash_lines(vars: Seq<(Seq<char>, Option<Seq<char>>)>) -> Seq<Seq<char>>
    decreases vars.len(),
{
    if vars.len() == 0 {
        Seq::empty()
    } else {
        bash_lines(vars.drop_last()).push(bash_line(vars.last()))
    }
}

/// The fish lines for a variable list, in order.
pub open spec fn fish_lines(vars: Seq<(Seq<char>, Option<Seq<char>>)>) -> Seq<Seq<char>>
    decreases vars.len(),
{
    if vars.len() == 0 {
        Seq::empty()
    } else {
        fish_lines(vars.drop_last()).push(fish_line(vars.last()))
    }
}

/// One Bourne-family line for a variable.
fn bash_line_exec(v: &Variable) -> (r: String)
    ensures
        r@ == bash_line(var_view(*v)),
{
    match &v.value {
        Some(value) => {
            let mut s = String::from_str("export \"");
            s.append(v.name.as_str());
            s.append("=");
            s.append(value.as_str());
            s.append("\"");
            s
        },
        None => {
            let mut s = String::from_str("unset ");
            s.append(v.name.as_str());
            s
        },
    }
}

/// One fish line for a variable.
fn fish_line_exec(v: &Variable) -> (r: String)
    ensures
        r@ == fish_line(var_view(*v)),
{
    match &v.value {
        Some(value) => {
            let mut s = String::from_str("set -gx ");
            s.append(v.name.as_str());
            s.append(" \"");
            s.append(value.as_str());
            s.append("\"");
            s
        },
        None => {
            let mut s = String::from_str("set -e ");
            s.append(v.name.as_str());
            s
        },
    }
}

/// The lines the export plugin emits for `payload`: nothing without a
/// shell hint, the dialect's set/unset line for each environment entry for
/// a known family, and no lines at all — the caller reports the
/// unsupported family — for an unrecognized one.
pub fn export_lines(payload: &PluginPayload) -> (r: Option<Vec<String>>)
    requires
        crate::plugin::payload_wf(*payload),
    ensures
        match payload.shell {
            None => r matches Some(v) && v@.len() == 0,
            Some(Shell::Bash) | Some(Shell::Zsh) => r matches Some(v) && name_views(v@)
                == bash_lines(variables_of(payload.credentials)),
            Some(Shell::Fish) => r matches Some(v) && name_views(v@) == fish_lines(
                variables_of(payload.credentials),
            ),
            Some(Shell::Unknown(_)) => r is None,
        },
{
    let use_fish: bool = match &payload.shell {
        None => {
            return Some(Vec::new());
        },
        Some(Shell::Unknown(_)) => {
            return None;
        },
        Some(Shell::Fish) => true,
        Some(Shell::Bash) | Some(Shell::Zsh) => false,
    };
    let vars = crate::handler::into_variables(&payload.credentials);
    let ghost vv = vars@.map_values(|v: Variable| var_view(v));
    let n = vars.len();
    let mut out: Vec<String> = Vec::new();
    let mut i: usize = 0;
    proof {
        assert(name_views(out@) =~= bash_lines(vv.subrange(0, 0)));
        assert(name_views(out@) =~= fish_lines(vv.subrange(0, 0)));
    }
    while i < n
        invariant
            n == vars@.len(),
            vv == vars@.map_values(|v: Variable| var_view(v)),
            vv == variables_of(payload.credentials),
            i <= n,
            use_fish ==> name_views(out@) == fish_lines(vv.subrange(0, i as int)),
            !use_fish ==> name_views(out@) == bash_lines(vv.subrange(0, i as int)),
        decreases n - i,
    {
        let line = if use_fish {
            fish_line_exec(&vars[i])
        } else {
            bash_line_exec(&vars[i])
        };
        out.push(line);
        i = i + 1;
        proof {
            let pre = vv.subrange(0, i as int);
            assert(pre.drop_last() =~= vv.subrange(0, i as int - 1));
            assert(pre.last() == vv[i as int - 1]);
            assert(vv[i as int - 1] == var_view(vars@[i as int - 1]));
            if use_fish {
                assert(name_views(out@) =~= fish_lines(vv.subrange(0, i as int)));
            } else {
                assert(name_views(out@) =~= bash_lines(vv.subrange(0, i as int)));
            }
        }
    }
    proof {
        assert(vv.subrange(0, n as int) =~= vv);
    }
    Some(out)
}

} // verus!
