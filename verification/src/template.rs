//! Workspace templates: one workspace and the apps to launch on it,
//! applied as a single compositor batch command.
use vstd::prelude::*;
use vstd::string::*;
use crate::order::strs;
use crate::text::{concat, fmt_i32, dec_int, has_prefix};

verus! {

/// A workspace template: the workspace it fills and the launch command
/// of each app, in order.
#[derive(Debug, Clone, PartialEq, Eq)]
pub struct TemplateSpec {
    pub workspace: i32,
    pub apps: Vec<String>,
}

/// The `dispatch exec` commands of `apps`, each after a ` ; ` separator.
pub open spec fn exec_cmds(apps: Seq<Seq<char>>) -> Seq<char>
    decreases apps.len(),
{
    if apps.len() == 0 {
        Seq::empty()
    } else {
        exec_cmds(apps.drop_last()) + " ; dispatch exec "@ + apps.last()
    }
}

/// `dispatch workspace <id> ; dispatch exec <app1> ; …`.
pub open spec fn batch_text(workspace: i32, apps: Seq<Seq<char>>) -> Seq<char> {
    "dispatch workspace "@ + dec_int(workspace as int) + exec_cmds(apps)
}

/// Build the batch payload that applies `spec`: switch to (creating if
/// absent) the workspace, then launch each app there, commands joined
/// by ` ; `. An empty template still switches to the workspace.
pub fn batch_payload(spec: &TemplateSpec) -> (r: String)
    ensures
        r@ == batch_text(spec.workspace, strs(spec.apps@)),
{
    let ws = fmt_i32(spec.workspace);
    let mut out = concat("dispatch workspace ", ws.as_str());
    let ghost apps = strs(spec.apps@);
    let mut i: usize = 0;
    assert(apps.take(0) =~= Seq::<Seq<char>>::empty());
    while i < spec.apps.len()
        invariant
            i <= spec.apps.len(),
            apps == strs(spec.apps@),
            out@ == "dispatch workspace "@ + dec_int(spec.workspace as int) + exec_cmds(
                apps.take(i as int),
            ),
        decreases spec.apps.len() - i,
    {
        assert(apps.take(i + 1).drop_last() =~= apps.take(i as int));
        assert(apps.take(i + 1).last() == spec.apps@[i as int]@);
        let s = concat(out.as_str(), " ; dispatch exec ");
        out = concat(s.as_str(), spec.apps[i].as_str());
        assert(out@ =~= "dispatch workspace "@ + dec_int(spec.workspace as int) + exec_cmds(
            apps.take(i + 1),
        ));
        i += 1;
    }
    assert(apps.take(spec.apps.len() as int) =~= apps);
    out
}

/// Applying a template always switches to its workspace first, whatever
/// apps follow.
pub proof fn law_switch_comes_first(workspace: i32, apps: Seq<Seq<char>>)
    ensures
        has_prefix(batch_text(workspace, apps), "dispatch workspace "@ + dec_int(workspace as int)),
{
    let p = "dispatch workspace "@ + dec_int(workspace as int);
    assert(batch_text(workspace, apps).subrange(0, p.len() as int) =~= p);
}

} // verus!
