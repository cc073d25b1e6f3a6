//! Loading an agent: the system prompt's template and the values it is
//! filled with, and which tools the agent gets.
use crate::agentspec::ResolvedAgentSpec;
use crate::skill::Skill;
use crate::error::KimiCliError;
use crate::pattern::{regex_replace_all, regex_replace_all_result};
use crate::text::{
    append_vec, chars_of, contains_string, join, join_exec, path_join, string_of, strings_view, trim, trim_vec, utf8_lossy,
    utf8_lossy_result, vecs_view,
};
use vstd::utf8::encode_utf8;
use vstd::prelude::*;

verus! {

/// Arguments of the built-in system prompt template.
#[derive(Debug, Clone)]
#[allow(non_snake_case)]
pub struct BuiltinSystemPromptArgs {
    pub KIMI_NOW: String,
    pub KIMI_WORK_DIR: String,
    pub KIMI_WORK_DIR_LS: String,
    pub KIMI_AGENTS_MD: String,
    pub KIMI_SKILLS: String,
    pub KIMI_ADDITIONAL_DIRS_INFO: String,
    pub KIMI_OS: String,
    pub KIMI_SHELL: String,
}

/// The map a list of pairs makes when inserted in order: a later pair
/// replaces an earlier one with the same key.
pub open spec fn pairs_map(v: Seq<(Seq<char>, Seq<char>)>) -> Map<Seq<char>, Seq<char>>
    decreases v.len(),
{
    if v.len() == 0 {
        Map::empty()
    } else {
        pairs_map(v.drop_last()).insert(v.last().0, v.last().1)
    }
}

pub open spec fn pairs_view(v: Seq<(String, String)>) -> Seq<(Seq<char>, Seq<char>)> {
    v.map_values(|p: (String, String)| (p.0@, p.1@))
}

/// The built-in arguments as (name, value) pairs.
pub open spec fn builtin_pairs(b: BuiltinSystemPromptArgs) -> Seq<(Seq<char>, Seq<char>)> {
    seq![
        ("KIMI_NOW"@, b.KIMI_NOW@),
        ("KIMI_WORK_DIR"@, b.KIMI_WORK_DIR@),
        ("KIMI_WORK_DIR_LS"@, b.KIMI_WORK_DIR_LS@),
        ("KIMI_AGENTS_MD"@, b.KIMI_AGENTS_MD@),
        ("KIMI_SKILLS"@, b.KIMI_SKILLS@),
        ("KIMI_ADDITIONAL_DIRS_INFO"@, b.KIMI_ADDITIONAL_DIRS_INFO@),
        ("KIMI_OS"@, b.KIMI_OS@),
        ("KIMI_SHELL"@, b.KIMI_SHELL@),
    ]
}

/// The variables a system prompt is rendered with: the built-in arguments,
/// then the spec's own arguments, which win over them.
pub fn system_prompt_vars(builtin: &BuiltinSystemPromptArgs, args: &Vec<(String, String)>) -> (r: Vec<(String, String)>)
    ensures
        pairs_view(r@) == builtin_pairs(*builtin) + pairs_view(args@),
{
    let mut r: Vec<(String, String)> = Vec::new();
    r.push(("KIMI_NOW".to_string(), builtin.KIMI_NOW.clone()));
    r.push(("KIMI_WORK_DIR".to_string(), builtin.KIMI_WORK_DIR.clone()));
    r.push(("KIMI_WORK_DIR_LS".to_string(), builtin.KIMI_WORK_DIR_LS.clone()));
    r.push(("KIMI_AGENTS_MD".to_string(), builtin.KIMI_AGENTS_MD.clone()));
    r.push(("KIMI_SKILLS".to_string(), builtin.KIMI_SKILLS.clone()));
    r.push(("KIMI_ADDITIONAL_DIRS_INFO".to_string(), builtin.KIMI_ADDITIONAL_DIRS_INFO.clone()));
    r.push(("KIMI_OS".to_string(), builtin.KIMI_OS.clone()));
    r.push(("KIMI_SHELL".to_string(), builtin.KIMI_SHELL.clone()));
    assert(pairs_view(r@) =~= builtin_pairs(*builtin));
    let mut i: usize = 0;
    while i < args.len()
        invariant
            i <= args.len(),
            pairs_view(r@) == builtin_pairs(*builtin) + pairs_view(args@.subrange(0, i as int)),
        decreases args.len() - i,
    {
        let ghost before = r@;
        r.push((args[i].0.clone(), args[i].1.clone()));
        assert(pairs_view(r@) =~= pairs_view(before).push((args@[i as int].0@, args@[i as int].1@)));
        assert(pairs_view(args@.subrange(0, i + 1)) =~= pairs_view(args@.subrange(0, i as int)).push(
            (args@[i as int].0@, args@[i as int].1@),
        ));
        i += 1;
    }
    assert(args@.subrange(0, args.len() as int) =~= args@);
    r
}

/// The pattern of a `${name}` placeholder.
pub open spec fn placeholder_pattern() -> Seq<char> {
    "\\$\\{\\s*([A-Za-z_][A-Za-z0-9_]*)\\s*\\}"@
}

/// What `minijinja::Environment::new().template_from_str(source)` reports:
/// the error's text when the template does not parse.
pub uninterp spec fn jinja_template_error(source: Seq<char>) -> Option<Seq<char>>;

/// What `minijinja::Environment::new().render_str(source, vars)` gives: the
/// rendered text, or the error's text.
pub uninterp spec fn jinja_render_result(source: Seq<char>, vars: Map<Seq<char>, Seq<char>>) -> Result<
    Seq<char>,
    Seq<char>,
>;

/// Parses `source` as a template with `minijinja` (a fresh environment,
/// `template_from_str`), handing back the error's text. Named, not restated.
#[verifier::external_body]
fn jinja_check(source: &str) -> (r: Option<String>)
    ensures
        match r {
            Some(e) => jinja_template_error(source@) == Some(e@),
            None => jinja_template_error(source@) is None,
        },
{
    minijinja::Environment::new().template_from_str(source).err().map(|e| e.to_string())
}

/// Renders `source` with `minijinja` (a fresh environment, `render_str`)
/// over the variables, a later pair winning over an earlier one with the
/// same name. Named, not restated.
#[verifier::external_body]
fn jinja_render(source: &str, vars: &Vec<(String, String)>) -> (r: Result<String, String>)
    ensures
        match r {
            Ok(s) => jinja_render_result(source@, pairs_map(pairs_view(vars@))) == Ok::<Seq<char>, Seq<char>>(s@),
            Err(e) => jinja_render_result(source@, pairs_map(pairs_view(vars@))) == Err::<Seq<char>, Seq<char>>(e@),
        },
{
    let ctx: std::collections::BTreeMap<String, String> = vars.iter().cloned().collect();
    minijinja::Environment::new().render_str(source, ctx).map_err(|e| e.to_string())
}

/// The failure of a system prompt that does not parse as a template.
pub fn prompt_template_failure(path: &str, error: &str) -> (r: KimiCliError)
    ensures
        r matches KimiCliError::SystemPromptTemplate(m) && m@ == "Invalid system prompt template: "@ + path@ + ": "@
            + error@,
{
    let mut m = chars_of("Invalid system prompt template: ");
    append_vec(&mut m, &chars_of(path));
    append_vec(&mut m, &chars_of(": "));
    append_vec(&mut m, &chars_of(error));
    KimiCliError::SystemPromptTemplate(string_of(&m))
}

/// The system prompt a render gives: its text, or the failure naming the
/// prompt's file.
pub fn prompt_render_outcome(path: &str, rendered: Result<String, String>) -> (r: Result<String, KimiCliError>)
    ensures
        match rendered {
            Ok(s) => r matches Ok(t) && t@ == s@,
            Err(e) => r matches Err(KimiCliError::SystemPromptTemplate(m)) && m@ == "Missing system prompt arg in "@
                + path@ + ": "@ + e@,
        },
{
    match rendered {
        Ok(s) => Ok(s),
        Err(e) => {
            let mut m = chars_of("Missing system prompt arg in ");
            append_vec(&mut m, &chars_of(path));
            append_vec(&mut m, &chars_of(": "));
            append_vec(&mut m, &chars_of(e.as_str()));
            Err(KimiCliError::SystemPromptTemplate(string_of(&m)))
        },
    }
}

/// The template a system prompt file holds: its text trimmed, with each
/// `${name}` placeholder written `{{ name }}`; `None` if the placeholder
/// pattern did not compile.
pub open spec fn prompt_template(text: Seq<char>) -> Option<Seq<char>> {
    regex_replace_all_result(placeholder_pattern(), trim(text), "{{ $1 }}"@)
}

/// Renders a system prompt from its file's text (`path` names the file in
/// messages): the template (see `prompt_template`) must parse, then it is
/// rendered over `system_prompt_vars`.
pub fn render_system_prompt(
    text: &str,
    path: &str,
    args: &Vec<(String, String)>,
    builtin: &BuiltinSystemPromptArgs,
) -> (r: Result<String, KimiCliError>)
    ensures
        match prompt_template(text@) {
            None => r matches Err(KimiCliError::Generic(m)) && m@ == "Regex error"@,
            Some(t) => match jinja_template_error(t) {
                Some(e) => r matches Err(KimiCliError::SystemPromptTemplate(m)) && m@
                    == "Invalid system prompt template: "@ + path@ + ": "@ + e,
                None => match jinja_render_result(t, pairs_map(builtin_pairs(*builtin) + pairs_view(args@))) {
                    Ok(s) => r matches Ok(p) && p@ == s,
                    Err(e) => r matches Err(KimiCliError::SystemPromptTemplate(m)) && m@
                        == "Missing system prompt arg in "@ + path@ + ": "@ + e,
                },
            },
        },
{
    let trimmed = string_of(&trim_vec(&chars_of(text)));
    let converted = match regex_replace_all(
        "\\$\\{\\s*([A-Za-z_][A-Za-z0-9_]*)\\s*\\}",
        trimmed.as_str(),
        "{{ $1 }}",
    ) {
        Some(c) => c,
        None => {
            return Err(KimiCliError::Generic("Regex error".to_string()));
        },
    };
    if let Some(e) = jinja_check(converted.as_str()) {
        return Err(prompt_template_failure(path, e.as_str()));
    }
    let vars = system_prompt_vars(builtin, args);
    prompt_render_outcome(path, jinja_render(converted.as_str(), &vars))
}

/// The tools an agent loads: its allowed tools if it names them, else its
/// tools, without the excluded ones.
pub open spec fn effective_tools_spec(spec: ResolvedAgentSpec) -> Seq<Seq<char>> {
    let base = match spec.allowed_tools {
        Some(a) => a@,
        None => spec.tools@,
    };
    strings_view(base).filter(|t: Seq<char>| !strings_view(spec.exclude_tools@).contains(t))
}

/// The tools an agent loads (see `effective_tools_spec`).
pub fn effective_tools(spec: &ResolvedAgentSpec) -> (r: Vec<String>)
    ensures
        strings_view(r@) == effective_tools_spec(*spec),
{
    let base = match &spec.allowed_tools {
        Some(a) => a,
        None => &spec.tools,
    };
    let ghost ex = strings_view(spec.exclude_tools@);
    let ghost pred = |t: Seq<char>| !ex.contains(t);
    let mut r: Vec<String> = Vec::new();
    let mut i: usize = 0;
    while i < base.len()
        invariant
            i <= base.len(),
            ex == strings_view(spec.exclude_tools@),
            pred == (|t: Seq<char>| !ex.contains(t)),
            strings_view(r@) == strings_view(base@.subrange(0, i as int)).filter(pred),
        decreases base.len() - i,
    {
        let ghost sv = strings_view(base@.subrange(0, i + 1));
        assert(sv.drop_last() =~= strings_view(base@.subrange(0, i as int)));
        assert(sv.last() == base@[i as int]@);
        reveal(Seq::filter);
        if !contains_string(&spec.exclude_tools, &base[i]) {
            let ghost before = r@;
            r.push(base[i].clone());
            assert(strings_view(r@) =~= strings_view(before).push(base@[i as int]@));
        }
        i += 1;
    }
    assert(base@.subrange(0, base.len() as int) =~= base@);
    r
}

/// Whether the agent gets the `Agent` tool: it lists it and does not
/// exclude it.
pub fn wants_agent_tool(tools: &Vec<String>, exclude_tools: &Vec<String>) -> (r: bool)
    ensures
        r == (strings_view(tools@).contains("Agent"@) && !strings_view(exclude_tools@).contains("Agent"@)),
{
    let agent = "Agent".to_string();
    contains_string(tools, &agent) && !contains_string(exclude_tools, &agent)
}

/// Which plugin tools join a toolset that already holds `existing`: each in
/// turn, unless a tool of its name is already there (a plugin tool that
/// joined included).
pub open spec fn plugin_tools_kept(existing: Seq<Seq<char>>, names: Seq<Seq<char>>) -> Seq<int>
    decreases names.len(),
{
    if names.len() == 0 {
        Seq::empty()
    } else {
        let prev = plugin_tools_kept(existing, names.drop_last());
        let k = names.len() - 1;
        if existing.contains(names[k]) || exists|j: int| 0 <= j < prev.len() && names[prev[j]] == names[k] {
            prev
        } else {
            prev.push(k)
        }
    }
}

/// The positions of the plugin tools that join the toolset (see
/// `plugin_tools_kept`).
pub fn select_plugin_tools(existing: &Vec<String>, names: &Vec<String>) -> (r: Vec<usize>)
    ensures
        r@.map_values(|i: usize| i as int) == plugin_tools_kept(strings_view(existing@), strings_view(names@)),
{
    let ghost nv = strings_view(names@);
    let mut present: Vec<String> = Vec::new();
    let mut r: Vec<usize> = Vec::new();
    let mut i: usize = 0;
    while i < names.len()
        invariant
            i <= names.len(),
            nv == strings_view(names@),
            r@.map_values(|x: usize| x as int) == plugin_tools_kept(strings_view(existing@), nv.subrange(0, i as int)),
            forall|j: int| 0 <= j < r@.len() ==> r@[j] < i,
            strings_view(present@) == r@.map_values(|x: usize| nv[x as int]),
        decreases names.len() - i,
    {
        let ghost sub = nv.subrange(0, i + 1);
        assert(sub.drop_last() =~= nv.subrange(0, i as int));
        let ghost prev = plugin_tools_kept(strings_view(existing@), nv.subrange(0, i as int));
        assert(prev == r@.map_values(|x: usize| x as int));
        assert forall|j: int| 0 <= j < prev.len() implies sub[prev[j]] == nv[prev[j]] by {}
        let dup = contains_string(&present, &names[i]);
        assert(dup == (exists|j: int| 0 <= j < prev.len() && sub[prev[j]] == sub[i as int])) by {
            if dup {
                let j = choose|j: int| 0 <= j < strings_view(present@).len() && strings_view(present@)[j] == names@[i as int]@;
                assert(0 <= j < prev.len() && sub[prev[j]] == sub[i as int]);
            }
            if exists|j: int| 0 <= j < prev.len() && sub[prev[j]] == sub[i as int] {
                let j = choose|j: int| 0 <= j < prev.len() && sub[prev[j]] == sub[i as int];
                assert(strings_view(present@)[j] == names@[i as int]@);
            }
        }
        if !contains_string(existing, &names[i]) && !dup {
            let ghost rb = r@;
            let ghost pb = present@;
            r.push(i);
            present.push(names[i].clone());
            assert(r@.map_values(|x: usize| x as int) =~= rb.map_values(|x: usize| x as int).push(i as int));
            assert(strings_view(present@) =~= strings_view(pb).push(nv[i as int]));
            assert(r@.map_values(|x: usize| nv[x as int]) =~= rb.map_values(|x: usize| nv[x as int]).push(nv[i as int]));
        }
        i += 1;
    }
    assert(nv.subrange(0, names.len() as int) =~= nv);
    r
}

/// Most bytes the merged `AGENTS.md` text may take.
pub const AGENTS_MD_MAX_BYTES: usize = 32768;

/// The length of a text in UTF-8 bytes.
pub open spec fn blen(s: Seq<char>) -> nat {
    encode_utf8(s).len()
}

/// The line that introduces a file's part of the merged text.
pub open spec fn md_annotation(path: Seq<char>) -> Seq<char> {
    "<!-- From: "@ + path + " -->\n"@
}

/// The files worth merging: each trimmed, the empty ones left out.
pub open spec fn md_discovered(files: Seq<(Seq<char>, Seq<char>)>) -> Seq<(Seq<char>, Seq<char>)>
    decreases files.len(),
{
    if files.len() == 0 {
        Seq::empty()
    } else {
        let r = md_discovered(files.drop_last());
        let t = trim(files.last().1);
        if t.len() > 0 {
            r.push((files.last().0, t))
        } else {
            r
        }
    }
}

/// Dividing `rem` bytes among the first `k` files, the last first: each
/// file's part pays for its introducing line (and the blank line after it,
/// unless it is the last file); a file that no longer fits gets nothing,
/// one that overflows is cut at the byte budget, decoded leniently and
/// trimmed. `None` where the cut text outgrows what was left.
pub open spec fn md_budget(files: Seq<(Seq<char>, Seq<char>)>, k: int, rem: nat) -> Option<Seq<Seq<char>>>
    decreases k,
{
    if k <= 0 {
        Some(Seq::empty())
    } else {
        let i = k - 1;
        let path = files[i].0;
        let content = files[i].1;
        let overhead = blen(md_annotation(path)) + (if i < files.len() - 1 { 2nat } else { 0nat });
        if rem <= overhead {
            match md_budget(files, i, 0) {
                Some(r) => Some(r.push(Seq::empty())),
                None => None,
            }
        } else {
            let left = (rem - overhead) as nat;
            let t = if blen(content) > left {
                trim(utf8_lossy_result(encode_utf8(content).subrange(0, left as int)))
            } else {
                content
            };
            if blen(t) > left {
                None
            } else {
                match md_budget(files, i, (left - blen(t)) as nat) {
                    Some(r) => Some(r.push(t)),
                    None => None,
                }
            }
        }
    }
}

/// The parts of the merged text: each file's budgeted content that is not
/// empty, after its introducing line.
pub open spec fn md_parts(files: Seq<(Seq<char>, Seq<char>)>, vals: Seq<Seq<char>>, k: int) -> Seq<Seq<char>>
    decreases k,
{
    if k <= 0 {
        Seq::empty()
    } else {
        let r = md_parts(files, vals, k - 1);
        if vals[k - 1].len() > 0 {
            r.push(md_annotation(files[k - 1].0) + vals[k - 1])
        } else {
            r
        }
    }
}

/// The merged `AGENTS.md` text of the files found from the project root
/// down to the working directory, in that order: `Some(None)` when nothing
/// is left to say; `None` where the budgeting fails (see `md_budget`).
pub open spec fn agents_md_spec(files: Seq<(Seq<char>, Seq<char>)>) -> Option<Option<Seq<char>>> {
    let d = md_discovered(files);
    if d.len() == 0 {
        Some(None)
    } else {
        match md_budget(d, d.len() as int, 32768) {
            None => None,
            Some(vals) => {
                let parts = md_parts(d, vals, d.len() as int);
                if parts.len() == 0 {
                    Some(None)
                } else {
                    Some(Some(join(parts, "\n\n"@)))
                }
            },
        }
    }
}

pub open spec fn md_extend(o: Option<Seq<Seq<char>>>, tail: Seq<Seq<char>>) -> Option<Seq<Seq<char>>> {
    match o {
        Some(r) => Some(r + tail),
        None => None,
    }
}

fn md_text(path: &String) -> (r: String)
    ensures
        r@ == md_annotation(path@),
{
    let mut v = chars_of("<!-- From: ");
    append_vec(&mut v, &chars_of(path.as_str()));
    append_vec(&mut v, &chars_of(" -->\n"));
    string_of(&v)
}

/// Merges the `AGENTS.md` files read, as (path, text) pairs from the
/// project root down (see `agents_md_spec`). The outer `None` stands for
/// the inputs on which the budgeting fails.
pub fn merge_agents_md(files: &Vec<(String, String)>) -> (r: Option<Option<String>>)
    ensures
        match agents_md_spec(pairs_view(files@)) {
            None => r is None,
            Some(None) => r matches Some(None),
            Some(Some(t)) => r matches Some(Some(s)) && s@ == t,
        },
{
    let ghost fv = pairs_view(files@);
    // The files worth merging.
    let mut d: Vec<(String, String)> = Vec::new();
    let mut i: usize = 0;
    while i < files.len()
        invariant
            i <= files.len(),
            fv == pairs_view(files@),
            pairs_view(d@) == md_discovered(fv.subrange(0, i as int)),
        decreases files.len() - i,
    {
        assert(fv.subrange(0, i + 1).drop_last() =~= fv.subrange(0, i as int));
        let t = trim_vec(&chars_of(files[i].1.as_str()));
        if t.len() > 0 {
            let ghost before = d@;
            d.push((files[i].0.clone(), string_of(&t)));
            assert(pairs_view(d@) =~= pairs_view(before).push((files@[i as int].0@, t@)));
        }
        i += 1;
    }
    assert(fv.subrange(0, files.len() as int) =~= fv);
    let ghost dv = pairs_view(d@);
    assert(dv == md_discovered(fv));
    let n = d.len();
    if n == 0 {
        return Some(None);
    }
    // Budgeting, from the last file to the first.
    let mut vals: Vec<String> = Vec::new();
    let mut j: usize = 0;
    while j < n
        invariant
            j <= n,
            vals@.len() == j,
            forall|x: int| 0 <= x < j ==> (#[trigger] vals@[x])@ == Seq::<char>::empty(),
        decreases n - j,
    {
        vals.push(String::new());
        j += 1;
    }
    let mut rem: usize = 32768;
    let mut k: usize = n;
    assert(strings_view(vals@).subrange(n as int, n as int) =~= Seq::<Seq<char>>::empty());
    assert(md_extend(md_budget(dv, n as int, 32768), Seq::empty()) == md_budget(dv, n as int, 32768)) by {
        match md_budget(dv, n as int, 32768) {
            Some(r) => {
                assert(r + Seq::<Seq<char>>::empty() =~= r);
            },
            None => {},
        }
    }
    while k > 0
        invariant
            k <= n,
            n == d@.len(),
            dv == pairs_view(d@),
            fv == pairs_view(files@),
            dv == md_discovered(fv),
            rem <= 32768,
            vals@.len() == n,
            md_budget(dv, n as int, 32768) == md_extend(
                md_budget(dv, k as int, rem as nat),
                strings_view(vals@).subrange(k as int, n as int),
            ),
        decreases k,
    {
        let i = k - 1;
        let ann = md_text(&d[i].0);
        let alen = ann.as_str().as_bytes().len();
        let sep: usize = if i < n - 1 {
            2
        } else {
            0
        };
        let ghost overhead = blen(md_annotation(dv[i as int].0)) + (if i < n - 1 { 2nat } else { 0nat });
        assert(dv[i as int] == (d@[i as int].0@, d@[i as int].1@));
        assert(alen == blen(md_annotation(dv[i as int].0)));
        let ghost tail = strings_view(vals@).subrange(k as int, n as int);
        if alen >= rem || rem - alen <= sep {
            assert(rem <= overhead);
            let ghost vb = vals@;
            vals.set(i, String::new());
            assert(strings_view(vals@).subrange(i as int, n as int) =~= seq![Seq::<char>::empty()] + tail);
            proof {
                match md_budget(dv, i as int, 0) {
                    Some(r) => {
                        assert(r.push(Seq::<char>::empty()) + tail =~= r + (seq![Seq::<char>::empty()] + tail));
                    },
                    None => {},
                }
            }
            rem = 0;
        } else {
            let left = rem - alen - sep;
            assert(left == rem - overhead);
            let content = &d[i].1;
            let clen = content.as_str().as_bytes().len();
            let t: String = if clen > left {
                let bytes = content.as_str().as_bytes();
                let cut = utf8_lossy(&bytes[0..left]);
                string_of(&trim_vec(&chars_of(cut.as_str())))
            } else {
                content.clone()
            };
            let tlen = t.as_str().as_bytes().len();
            assert(clen == blen(dv[i as int].1));
            if tlen > left {
                assert(md_budget(dv, k as int, rem as nat) is None);
                assert(md_budget(dv, n as int, 32768) is None);
                assert(dv.len() == n);
                assert(agents_md_spec(fv) is None);
                return None;
            }
            let ghost tv = t@;
            vals.set(i, t);
            assert(strings_view(vals@).subrange(i as int, n as int) =~= seq![tv] + tail);
            proof {
                match md_budget(dv, i as int, (left - tlen) as nat) {
                    Some(r) => {
                        assert(r.push(tv) + tail =~= r + (seq![tv] + tail));
                    },
                    None => {},
                }
            }
            rem = left - tlen;
        }
        k = i;
    }
    assert(strings_view(vals@).subrange(0, n as int) =~= strings_view(vals@));
    assert(Seq::<Seq<char>>::empty() + strings_view(vals@) =~= strings_view(vals@));
    let ghost vv = strings_view(vals@);
    assert(md_budget(dv, n as int, 32768) == Some(vv));
    // The parts, from the first file to the last.
    let mut parts: Vec<Vec<char>> = Vec::new();
    let mut p: usize = 0;
    while p < n
        invariant
            p <= n,
            n == d@.len(),
            n == vals@.len(),
            dv == pairs_view(d@),
            vv == strings_view(vals@),
            vecs_view(parts@) == md_parts(dv, vv, p as int),
        decreases n - p,
    {
        let v = chars_of(vals[p].as_str());
        if v.len() > 0 {
            let mut part = chars_of(md_text(&d[p].0).as_str());
            append_vec(&mut part, &v);
            let ghost before = parts@;
            parts.push(part);
            assert(vecs_view(parts@) =~= vecs_view(before).push(md_annotation(dv[p as int].0) + vv[p as int]));
        }
        p += 1;
    }
    if parts.len() == 0 {
        return Some(None);
    }
    Some(Some(string_of(&join_exec(&parts, &chars_of("\n\n")))))
}

/// A skill's line in the system prompt's skill list.
pub open spec fn skill_entry(s: Skill) -> Seq<char> {
    "- "@ + s.name@ + "\n  - Path: "@ + path_join(s.dir@, "SKILL.md"@) + "\n  - Description: "@ + s.description@
}

/// The skill list the system prompt shows.
pub open spec fn skills_listing_spec(skills: Seq<Skill>) -> Seq<char> {
    if skills.len() == 0 {
        "No skills found."@
    } else {
        join(skills.map_values(|s: Skill| skill_entry(s)), "\n"@)
    }
}

/// The skill list the system prompt shows (see `skills_listing_spec`).
pub fn skills_listing(skills: &Vec<Skill>) -> (r: String)
    ensures
        r@ == skills_listing_spec(skills@),
{
    if skills.len() == 0 {
        return "No skills found.".to_string();
    }
    let ghost entries = skills@.map_values(|s: Skill| skill_entry(s));
    let mut lines: Vec<Vec<char>> = Vec::new();
    let mut i: usize = 0;
    while i < skills.len()
        invariant
            i <= skills.len(),
            entries == skills@.map_values(|s: Skill| skill_entry(s)),
            vecs_view(lines@) == entries.subrange(0, i as int),
        decreases skills.len() - i,
    {
        let s = &skills[i];
        let mut v = chars_of("- ");
        append_vec(&mut v, &chars_of(s.name.as_str()));
        append_vec(&mut v, &chars_of("\n  - Path: "));
        append_vec(&mut v, &chars_of(s.skill_md_file().as_str()));
        append_vec(&mut v, &chars_of("\n  - Description: "));
        append_vec(&mut v, &chars_of(s.description.as_str()));
        let ghost before = lines@;
        lines.push(v);
        assert(vecs_view(lines@) =~= vecs_view(before).push(entries[i as int]));
        assert(entries.subrange(0, i + 1) =~= entries.subrange(0, i as int).push(entries[i as int]));
        i += 1;
    }
    assert(entries.subrange(0, skills.len() as int) =~= entries);
    string_of(&join_exec(&lines, &chars_of("\n")))
}

/// The extra directories a session keeps: those that still exist, given
/// whether each does, and whether any was dropped.
pub fn prune_additional_dirs(dirs: &Vec<String>, exists: &Vec<bool>) -> (r: (Vec<String>, bool))
    requires
        exists@.len() == dirs@.len(),
    ensures
        strings_view(r.0@) == kept_dirs(strings_view(dirs@), exists@, dirs@.len() as int),
        r.1 == (exists|i: int| 0 <= i < exists@.len() && !exists@[i]),
{
    let ghost dv = strings_view(dirs@);
    let mut kept: Vec<String> = Vec::new();
    let mut pruned = false;
    let mut i: usize = 0;
    while i < dirs.len()
        invariant
            i <= dirs.len(),
            exists@.len() == dirs@.len(),
            dv == strings_view(dirs@),
            strings_view(kept@) == kept_dirs(dv, exists@, i as int),
            pruned == (exists|j: int| 0 <= j < i && !exists@[j]),
        decreases dirs.len() - i,
    {
        if exists[i] {
            let ghost before = kept@;
            kept.push(dirs[i].clone());
            assert(strings_view(kept@) =~= strings_view(before).push(dv[i as int]));
        } else {
            pruned = true;
        }
        i += 1;
    }
    (kept, pruned)
}

/// The directories among the first `k` whose entry in `exists` is true.
pub open spec fn kept_dirs(dirs: Seq<Seq<char>>, exists: Seq<bool>, k: int) -> Seq<Seq<char>>
    decreases k,
{
    if k <= 0 {
        Seq::empty()
    } else if exists[k - 1] {
        kept_dirs(dirs, exists, k - 1).push(dirs[k - 1])
    } else {
        kept_dirs(dirs, exists, k - 1)
    }
}

/// A directory's section in the system prompt: its path and its listing.
pub open spec fn dir_section(dir: Seq<char>, listing: Seq<char>) -> Seq<char> {
    "### `"@ + dir + "`\n\n```\n"@ + listing + "\n```"@
}

/// The system prompt's section on the extra directories, given each with
/// its listing: their sections separated by blank lines.
pub fn additional_dirs_info(dirs: &Vec<(String, String)>) -> (r: String)
    ensures
        r@ == join(pairs_view(dirs@).map_values(|p: (Seq<char>, Seq<char>)| dir_section(p.0, p.1)), "\n\n"@),
{
    let ghost secs = pairs_view(dirs@).map_values(|p: (Seq<char>, Seq<char>)| dir_section(p.0, p.1));
    let mut parts: Vec<Vec<char>> = Vec::new();
    let mut i: usize = 0;
    while i < dirs.len()
        invariant
            i <= dirs.len(),
            secs == pairs_view(dirs@).map_values(|p: (Seq<char>, Seq<char>)| dir_section(p.0, p.1)),
            vecs_view(parts@) == secs.subrange(0, i as int),
        decreases dirs.len() - i,
    {
        let mut v = chars_of("### `");
        append_vec(&mut v, &chars_of(dirs[i].0.as_str()));
        append_vec(&mut v, &chars_of("`\n\n```\n"));
        append_vec(&mut v, &chars_of(dirs[i].1.as_str()));
        append_vec(&mut v, &chars_of("\n```"));
        let ghost before = parts@;
        parts.push(v);
        assert(vecs_view(parts@) =~= vecs_view(before).push(secs[i as int]));
        assert(secs.subrange(0, i + 1) =~= secs.subrange(0, i as int).push(secs[i as int]));
        i += 1;
    }
    assert(secs.subrange(0, dirs.len() as int) =~= secs);
    string_of(&join_exec(&parts, &chars_of("\n\n")))
}

/// How the shell is described to the model: its name and, in backquotes,
/// its path.
pub fn shell_label(shell_name: &str, shell_path: &str) -> (r: String)
    ensures
        r@ == shell_name@ + " (`"@ + shell_path@ + "`)"@,
{
    let mut v = chars_of(shell_name);
    append_vec(&mut v, &chars_of(" (`"));
    append_vec(&mut v, &chars_of(shell_path));
    append_vec(&mut v, &chars_of("`)"));
    string_of(&v)
}

} // verus!
