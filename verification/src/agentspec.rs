//! Agent specifications: inheritance between specs, paths relative to the
//! spec file, and resolution into the settings an agent runs with.
use crate::error::KimiCliError;
use crate::text::{append_vec, chars_of, eq_vec, join_path, path_join, string_of};
use vstd::prelude::*;

verus! {

/// Marker for inheritance in agent spec.
#[derive(Debug, Clone)]
pub struct Inherit;

/// Raw subagent specification.
#[derive(Debug, Clone)]
pub struct SubagentSpec {
    pub path: String,
    pub description: String,
}

/// Raw agent specification.
#[derive(Debug, Clone)]
pub struct AgentSpec {
    pub extend: Option<String>,
    pub name: Option<String>,
    pub system_prompt_path: Option<String>,
    pub system_prompt_args: Vec<(String, String)>,
    pub model: Option<String>,
    pub when_to_use: Option<String>,
    pub tools: Option<Vec<String>>,
    pub allowed_tools: Option<Vec<String>>,
    pub exclude_tools: Option<Vec<String>>,
    pub subagents: Vec<(String, SubagentSpec)>,
}

/// Resolved agent specification with inheritance flattened.
#[derive(Debug, Clone)]
pub struct ResolvedAgentSpec {
    pub name: String,
    pub system_prompt_path: String,
    pub system_prompt_args: Vec<(String, String)>,
    pub model: Option<String>,
    pub when_to_use: String,
    pub tools: Vec<String>,
    pub allowed_tools: Option<Vec<String>>,
    pub exclude_tools: Vec<String>,
    pub subagents: Vec<(String, SubagentSpec)>,
}

/// The built-in agents directory: `agents` under the crate's directory.
pub fn get_agents_dir(manifest_dir: &str) -> (r: String)
    ensures
        r@ == path_join(manifest_dir@, "agents"@),
{
    join_path(manifest_dir, "agents")
}

/// The default agent file: `agents/default/agent.yaml`.
pub fn default_agent_file(manifest_dir: &str) -> (r: String)
    ensures
        r@ == path_join(path_join(path_join(manifest_dir@, "agents"@), "default"@), "agent.yaml"@),
{
    let a = get_agents_dir(manifest_dir);
    let d = join_path(a.as_str(), "default");
    join_path(d.as_str(), "agent.yaml")
}

/// Spec versions are `1` (also when none is given); any other is refused.
pub fn check_agent_spec_version(version: Option<&str>) -> (r: Result<(), KimiCliError>)
    ensures
        match version {
            None => r is Ok,
            Some(v) => if v@ == "1"@ {
                r is Ok
            } else {
                r matches Err(KimiCliError::Config(m)) && m@ == "Unsupported agent spec version: "@ + v@
            },
        },
{
    match version {
        None => Ok(()),
        Some(v) => {
            if eq_vec(&chars_of(v), &chars_of("1")) {
                Ok(())
            } else {
                let mut m = chars_of("Unsupported agent spec version: ");
                append_vec(&mut m, &chars_of(v));
                Err(KimiCliError::Config(string_of(&m)))
            }
        },
    }
}

/// Resolves a spec whose inheritance has been flattened: name, system prompt
/// path and tools are required; when-to-use defaults to empty text and the
/// excluded tools to none.
pub fn resolve_agent_spec(spec: AgentSpec) -> (r: Result<ResolvedAgentSpec, KimiCliError>)
    ensures
        spec.extend is Some ==> (r matches Err(KimiCliError::Config(m))
            && m@ == "Agent spec extension should be recursively resolved"@),
        spec.extend is None && spec.name is None ==> (r matches Err(KimiCliError::Config(m))
            && m@ == "Agent name is required"@),
        spec.extend is None && spec.name is Some && spec.system_prompt_path is None ==> (r matches Err(
            KimiCliError::Config(m),
        ) && m@ == "System prompt path is required"@),
        spec.extend is None && spec.name is Some && spec.system_prompt_path is Some && spec.tools is None ==> (r matches Err(
            KimiCliError::Config(m),
        ) && m@ == "Tools are required"@),
        spec.extend is None && spec.name is Some && spec.system_prompt_path is Some && spec.tools is Some ==> (r matches Ok(
            res,
        ) && res.name == spec.name->0 && res.system_prompt_path == spec.system_prompt_path->0
            && res.system_prompt_args == spec.system_prompt_args && res.model == spec.model && res.when_to_use@
            == (match spec.when_to_use {
            Some(w) => w@,
            None => Seq::empty(),
        }) && res.tools == spec.tools->0 && res.allowed_tools == spec.allowed_tools && res.exclude_tools@ == (
        match spec.exclude_tools {
            Some(e) => e@,
            None => Seq::empty(),
        }) && res.subagents == spec.subagents),
{
    if spec.extend.is_some() {
        return Err(KimiCliError::Config("Agent spec extension should be recursively resolved".to_string()));
    }
    let name = match spec.name {
        Some(n) => n,
        None => {
            return Err(KimiCliError::Config("Agent name is required".to_string()));
        },
    };
    let system_prompt_path = match spec.system_prompt_path {
        Some(p) => p,
        None => {
            return Err(KimiCliError::Config("System prompt path is required".to_string()));
        },
    };
    let tools = match spec.tools {
        Some(t) => t,
        None => {
            return Err(KimiCliError::Config("Tools are required".to_string()));
        },
    };
    Ok(ResolvedAgentSpec {
        name,
        system_prompt_path,
        system_prompt_args: spec.system_prompt_args,
        model: spec.model,
        when_to_use: match spec.when_to_use {
            Some(w) => w,
            None => String::new(),
        },
        tools,
        allowed_tools: spec.allowed_tools,
        exclude_tools: match spec.exclude_tools {
            Some(e) => e,
            None => Vec::new(),
        },
        subagents: spec.subagents,
    })
}

/// The file a spec extends: the default agent for `default`, otherwise a
/// path relative to the extending spec's directory.
pub fn base_agent_file(extend: &str, agent_dir: &str, manifest_dir: &str) -> (r: String)
    ensures
        extend@ == "default"@ ==> r@ == path_join(
            path_join(path_join(manifest_dir@, "agents"@), "default"@),
            "agent.yaml"@,
        ),
        extend@ != "default"@ ==> r@ == path_join(agent_dir@, extend@),
{
    if eq_vec(&chars_of(extend), &chars_of("default")) {
        default_agent_file(manifest_dir)
    } else {
        join_path(agent_dir, extend)
    }
}

/// Makes a spec's paths relative to the directory of its file.
pub fn relocate_paths(spec: AgentSpec, agent_dir: &str) -> (r: AgentSpec)
    ensures
        match spec.system_prompt_path {
            Some(p) => r.system_prompt_path matches Some(q) && q@ == path_join(agent_dir@, p@),
            None => r.system_prompt_path is None,
        },
        r.subagents@.len() == spec.subagents@.len(),
        forall|i: int|
            0 <= i < r.subagents@.len() ==> r.subagents@[i].0@ == spec.subagents@[i].0@
                && r.subagents@[i].1.description@ == spec.subagents@[i].1.description@
                && r.subagents@[i].1.path@ == path_join(agent_dir@, spec.subagents@[i].1.path@),
        r.extend == spec.extend && r.name == spec.name && r.model == spec.model && r.tools == spec.tools,
        r.system_prompt_args == spec.system_prompt_args && r.when_to_use == spec.when_to_use,
        r.allowed_tools == spec.allowed_tools && r.exclude_tools == spec.exclude_tools,
{
    let mut s = spec;
    let ghost orig = s;
    s.system_prompt_path = match s.system_prompt_path {
        Some(p) => Some(join_path(agent_dir, p.as_str())),
        None => None,
    };
    let mut subs: Vec<(String, SubagentSpec)> = Vec::new();
    std::mem::swap(&mut subs, &mut s.subagents);
    let mut out: Vec<(String, SubagentSpec)> = Vec::new();
    let n = subs.len();
    let mut i: usize = 0;
    while i < n
        invariant
            n == subs@.len(),
            subs@ == orig.subagents@,
            i <= n,
            out@.len() == i,
            forall|j: int|
                0 <= j < i ==> out@[j].0@ == orig.subagents@[j].0@ && out@[j].1.description@
                    == orig.subagents@[j].1.description@ && out@[j].1.path@ == path_join(
                    agent_dir@,
                    orig.subagents@[j].1.path@,
                ),
        decreases n - i,
    {
        let k = subs[i].0.clone();
        let sub = &subs[i].1;
        out.push((k, SubagentSpec { path: join_path(agent_dir, sub.path.as_str()), description: sub.description.clone() }));
        i += 1;
    }
    s.subagents = out;
    s
}

/// One argument inserted: a name already present takes the new value in
/// its (first) place; a new name is added at the end.
pub open spec fn insert_arg_spec(r: Seq<(Seq<char>, Seq<char>)>, k: Seq<char>, v: Seq<char>) -> Seq<(Seq<char>, Seq<char>)> {
    if exists|j: int| 0 <= j < r.len() && r[j].0 == k {
        r.update(choose|j: int| 0 <= j < r.len() && r[j].0 == k && forall|q: int| 0 <= q < j ==> r[q].0 != k, (k, v))
    } else {
        r.push((k, v))
    }
}

/// The arguments of `overrides` inserted into `base` one by one.
pub open spec fn merge_args(base: Seq<(Seq<char>, Seq<char>)>, overrides: Seq<(Seq<char>, Seq<char>)>) -> Seq<(Seq<char>, Seq<char>)>
    decreases overrides.len(),
{
    if overrides.len() == 0 {
        base
    } else {
        insert_arg_spec(merge_args(base, overrides.drop_last()), overrides.last().0, overrides.last().1)
    }
}

pub open spec fn args_view(v: Seq<(String, String)>) -> Seq<(Seq<char>, Seq<char>)> {
    v.map_values(|p: (String, String)| (p.0@, p.1@))
}

fn insert_arg(args: &mut Vec<(String, String)>, k: String, v: String)
    ensures
        args_view(final(args)@) == insert_arg_spec(args_view(old(args)@), k@, v@),
{
    let ghost r0 = args_view(args@);
    let mut i: usize = 0;
    while i < args.len()
        invariant
            i <= args.len(),
            args@ == old(args)@,
            r0 == args_view(args@),
            forall|q: int| 0 <= q < i ==> r0[q].0 != k@,
        decreases args.len() - i,
    {
        if args[i].0 == k {
            proof {
                let ii = i as int;
                assert(r0[ii].0 == k@);
                let c = choose|j: int| 0 <= j < r0.len() && r0[j].0 == k@ && forall|q: int| 0 <= q < j ==> r0[q].0 != k@;
                assert(c == ii) by {
                    if c > ii {
                        assert(r0[ii].0 != k@);
                    }
                }
            }
            args.set(i, (k, v));
            assert(args_view(args@) =~= r0.update(i as int, (k@, v@)));
            return;
        }
        i += 1;
    }
    args.push((k, v));
    assert(args_view(args@) =~= r0.push((k@, v@)));
}

fn merge_args_exec(base: Vec<(String, String)>, extra: &Vec<(String, String)>) -> (r: Vec<(String, String)>)
    ensures
        args_view(r@) == merge_args(args_view(base@), args_view(extra@)),
{
    let ghost ov = args_view(extra@);
    let ghost bv = args_view(base@);
    let mut out = base;
    let mut i: usize = 0;
    while i < extra.len()
        invariant
            i <= extra.len(),
            ov == args_view(extra@),
            args_view(out@) == merge_args(bv, ov.subrange(0, i as int)),
        decreases extra.len() - i,
    {
        let k = extra[i].0.clone();
        let v = extra[i].1.clone();
        insert_arg(&mut out, k, v);
        assert(ov.subrange(0, i + 1).drop_last() =~= ov.subrange(0, i as int));
        i += 1;
    }
    assert(ov.subrange(0, extra.len() as int) =~= ov);
    out
}

/// A spec extending `base`: each field the spec gives replaces the base's,
/// its prompt arguments are added to the base's, and its subagents, when it
/// has any, replace the base's. The result no longer extends anything.
pub fn extend_agent_spec(base: AgentSpec, spec: AgentSpec) -> (r: AgentSpec)
    ensures
        r.extend == base.extend,
        r.name == (if spec.name is Some { spec.name } else { base.name }),
        r.system_prompt_path == (if spec.system_prompt_path is Some { spec.system_prompt_path } else { base.system_prompt_path }),
        args_view(r.system_prompt_args@) == merge_args(args_view(base.system_prompt_args@), args_view(spec.system_prompt_args@)),
        r.model == (if spec.model is Some { spec.model } else { base.model }),
        r.when_to_use == (if spec.when_to_use is Some { spec.when_to_use } else { base.when_to_use }),
        r.tools == (if spec.tools is Some { spec.tools } else { base.tools }),
        r.allowed_tools == (if spec.allowed_tools is Some { spec.allowed_tools } else { base.allowed_tools }),
        r.exclude_tools == (if spec.exclude_tools is Some { spec.exclude_tools } else { base.exclude_tools }),
        r.subagents == (if spec.subagents@.len() > 0 { spec.subagents } else { base.subagents }),
{
    let mut b = base;
    let s = spec;
    if s.name.is_some() {
        b.name = s.name;
    }
    if s.system_prompt_path.is_some() {
        b.system_prompt_path = s.system_prompt_path;
    }
    let mut args: Vec<(String, String)> = Vec::new();
    std::mem::swap(&mut args, &mut b.system_prompt_args);
    b.system_prompt_args = merge_args_exec(args, &s.system_prompt_args);
    if s.model.is_some() {
        b.model = s.model;
    }
    if s.when_to_use.is_some() {
        b.when_to_use = s.when_to_use;
    }
    if s.tools.is_some() {
        b.tools = s.tools;
    }
    if s.allowed_tools.is_some() {
        b.allowed_tools = s.allowed_tools;
    }
    if s.exclude_tools.is_some() {
        b.exclude_tools = s.exclude_tools;
    }
    if s.subagents.len() > 0 {
        b.subagents = s.subagents;
    }
    b
}

} // verus!
