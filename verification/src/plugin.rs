//! Plugins: where they live, what loading them reported, which tool
//! definitions they contribute, and how a plugin command is built.
use crate::soul::message::ToolReturnValue;
use crate::text::{extension, extension_result, file_stem, file_stem_result, int_text, i32_text, trim_end, trim_end_vec, contains_string, strings_set, strings_view, append_vec, chars_of, eq_vec, join_path, path_join, replace_all, replace_all_exec, string_of};
use vstd::prelude::*;

verus! {

/// The plugins directory: `plugins` under the share directory, or under the
/// current directory when there is no share directory.
pub fn get_plugins_dir(share_dir: Option<&str>) -> (r: String)
    ensures
        r@ == (match share_dir {
            Some(d) => path_join(d@, "plugins"@),
            None => path_join("."@, "plugins"@),
        }),
{
    match share_dir {
        Some(d) => join_path(d, "plugins"),
        None => join_path(".", "plugins"),
    }
}

/// Result of loading a single plugin manifest.
#[derive(Debug, Clone)]
pub struct PluginLoadResult {
    pub manifest_path: String,
    pub plugin_name: String,
    pub tools_loaded: usize,
    pub error: Option<String>,
}

/// Manages plugin tools of type `T` and what loading reported.
pub struct PluginManager<T> {
    plugins_dir: String,
    loaded: Vec<PluginLoadResult>,
    tools: Vec<T>,
}

impl<T> PluginManager<T> {
    pub closed spec fn dir_spec(&self) -> Seq<char> {
        self.plugins_dir@
    }

    pub closed spec fn tools_spec(&self) -> Seq<T> {
        self.tools@
    }

    pub closed spec fn results_spec(&self) -> Seq<PluginLoadResult> {
        self.loaded@
    }

    /// A manager for the given plugins directory, with nothing loaded.
    pub fn new(plugins_dir: String) -> (r: Self)
        ensures
            r.dir_spec() == plugins_dir@,
            r.tools_spec().len() == 0,
            r.results_spec().len() == 0,
    {
        PluginManager { plugins_dir, loaded: Vec::new(), tools: Vec::new() }
    }

    /// A manager for the default plugins directory (see `get_plugins_dir`).
    pub fn default_dir(share_dir: Option<&str>) -> (r: Self)
        ensures
            r.dir_spec() == (match share_dir {
                Some(d) => path_join(d@, "plugins"@),
                None => path_join("."@, "plugins"@),
            }),
            r.tools_spec().len() == 0,
            r.results_spec().len() == 0,
    {
        Self::new(get_plugins_dir(share_dir))
    }

    /// The plugins directory.
    pub fn plugins_dir(&self) -> (r: &str)
        ensures
            r@ == self.dir_spec(),
    {
        self.plugins_dir.as_str()
    }

    /// Takes the tools and reports of a load of the plugins directory and
    /// returns the tools.
    pub fn load(&mut self, tools: Vec<T>, results: Vec<PluginLoadResult>) -> (r: &Vec<T>)
        ensures
            final(self).tools_spec() == tools@,
            final(self).results_spec() == results@,
            final(self).dir_spec() == old(self).dir_spec(),
            r@ == tools@,
    {
        self.tools = tools;
        self.loaded = results;
        &self.tools
    }

    /// Forgets what was loaded, then loads again.
    pub fn reload(&mut self, tools: Vec<T>, results: Vec<PluginLoadResult>) -> (r: &Vec<T>)
        ensures
            final(self).tools_spec() == tools@,
            final(self).results_spec() == results@,
            final(self).dir_spec() == old(self).dir_spec(),
            r@ == tools@,
    {
        self.loaded.clear();
        self.tools.clear();
        self.load(tools, results)
    }

    /// The tools from the last load.
    pub fn tools(&self) -> (r: &[T])
        ensures
            r@ == self.tools_spec(),
    {
        self.tools.as_slice()
    }

    /// The reports from the last load.
    pub fn load_results(&self) -> (r: &[PluginLoadResult])
        ensures
            r@ == self.results_spec(),
    {
        self.loaded.as_slice()
    }

    /// Whether any plugin failed to load.
    pub fn had_errors(&self) -> (r: bool)
        ensures
            r == exists|i: int| 0 <= i < self.results_spec().len() && self.results_spec()[i].error is Some,
    {
        let mut i: usize = 0;
        while i < self.loaded.len()
            invariant
                i <= self.loaded.len(),
                forall|j: int| 0 <= j < i ==> self.loaded@[j].error is None,
            decreases self.loaded.len() - i,
        {
            if self.loaded[i].error.is_some() {
                return true;
            }
            i += 1;
        }
        false
    }
}

impl<T> Default for PluginManager<T> {
    /// A manager for `./plugins`, the directory used without a share directory.
    fn default() -> (r: Self)
        ensures
            r.dir_spec() == path_join("."@, "plugins"@),
            r.tools_spec().len() == 0,
            r.results_spec().len() == 0,
    {
        Self::default_dir(None)
    }
}

/// Definition of a single plugin tool; `parameters` is the JSON text of its
/// parameter schema.
#[derive(Debug, Clone)]
pub struct PluginToolDef {
    pub name: String,
    pub description: String,
    pub command: String,
    pub parameters: String,
}

pub open spec fn def_view(d: PluginToolDef) -> (Seq<char>, Seq<char>, Seq<char>, Seq<char>) {
    (d.name@, d.description@, d.command@, d.parameters@)
}

impl PluginToolDef {
    /// A copy of the definition.
    pub fn copy(&self) -> (r: Self)
        ensures
            def_view(r) == def_view(*self),
    {
        PluginToolDef {
            name: self.name.clone(),
            description: self.description.clone(),
            command: self.command.clone(),
            parameters: self.parameters.clone(),
        }
    }
}

/// Positions of the definitions kept among the first `k`: a name is taken
/// only the first time it occurs.
pub open spec fn first_defs(names: Seq<Seq<char>>, k: int) -> Seq<int>
    decreases k,
{
    if k <= 0 {
        Seq::empty()
    } else {
        let r = first_defs(names, k - 1);
        if names.subrange(0, k - 1).contains(names[k - 1]) {
            r
        } else {
            r.push(k - 1)
        }
    }
}

pub open spec fn def_names(defs: Seq<PluginToolDef>) -> Seq<Seq<char>> {
    defs.map_values(|d: PluginToolDef| d.name@)
}

/// Keeps each tool name's first definition, in order.
pub fn dedup_tool_defs(defs: &Vec<PluginToolDef>) -> (r: Vec<PluginToolDef>)
    ensures
        r@.len() == first_defs(def_names(defs@), defs@.len() as int).len(),
        forall|i: int|
            0 <= i < r@.len() ==> def_view(r@[i]) == def_view(
                defs@[first_defs(def_names(defs@), defs@.len() as int)[i]],
            ),
{
    let ghost names = def_names(defs@);
    let mut r: Vec<PluginToolDef> = Vec::new();
    let mut seen: Vec<String> = Vec::new();
    let mut i: usize = 0;
    while i < defs.len()
        invariant
            i <= defs.len(),
            names == def_names(defs@),
            r@.len() == first_defs(names, i as int).len(),
            forall|k: int| 0 <= k < r@.len() ==> def_view(r@[k]) == def_view(defs@[first_defs(names, i as int)[k]]),
            strings_view(seen@).to_set() == names.subrange(0, i as int).to_set(),
        decreases defs.len() - i,
    {
        let found = contains_string(&seen, &defs[i].name);
        assert(names[i as int] == defs@[i as int].name@);
        assert(names.subrange(0, i + 1) =~= names.subrange(0, i as int).push(names[i as int]));
        proof {
            names.subrange(0, i as int).lemma_push_to_set_commute(names[i as int]);
            assert(names.subrange(0, i as int).contains(names[i as int]) == names.subrange(0, i as int).to_set().contains(names[i as int]));
        }
        if found {
            assert(names.subrange(0, i as int).to_set().contains(names[i as int]));
            assert(names.subrange(0, i as int).to_set().insert(names[i as int]) =~= names.subrange(0, i as int).to_set());
        } else {
            assert(!strings_view(seen@).contains(names[i as int])) by {
                if strings_view(seen@).contains(names[i as int]) {
                    let m = choose|m: int| 0 <= m < seen@.len() && strings_view(seen@)[m] == names[i as int];
                    assert(seen@[m]@ == names[i as int]);
                }
            }
            let ghost before = strings_view(seen@);
            seen.push(defs[i].name.clone());
            assert(strings_view(seen@) =~= before.push(names[i as int]));
            proof {
                before.lemma_push_to_set_commute(names[i as int]);
            }
            let ghost rb = r@;
            r.push(defs[i].copy());
            assert forall|q: int| 0 <= q < r@.len() implies def_view(r@[q]) == def_view(
                defs@[first_defs(names, i + 1)[q]],
            ) by {
                if q < rb.len() {
                    assert(r@[q] == rb[q]);
                }
            }
        }
        i += 1;
    }
    r
}

/// The command a plugin tool runs: each argument's `{key}` placeholder in
/// the template replaced by its value, argument by argument.
pub open spec fn build_command_spec(template: Seq<char>, args: Seq<(Seq<char>, Seq<char>)>) -> Seq<char>
    decreases args.len(),
{
    if args.len() == 0 {
        template
    } else {
        replace_all(
            build_command_spec(template, args.drop_last()),
            "{"@ + args.last().0 + "}"@,
            args.last().1,
        )
    }
}

/// Builds a plugin tool's command from its template and its arguments (each
/// value as text).
pub fn build_command(template: &str, args: &Vec<(String, String)>) -> (r: String)
    ensures
        r@ == build_command_spec(template@, args@.map_values(|p: (String, String)| (p.0@, p.1@))),
{
    let ghost av = args@.map_values(|p: (String, String)| (p.0@, p.1@));
    let mut cmd = chars_of(template);
    let mut i: usize = 0;
    while i < args.len()
        invariant
            i <= args.len(),
            av == args@.map_values(|p: (String, String)| (p.0@, p.1@)),
            cmd@ == build_command_spec(template@, av.subrange(0, i as int)),
        decreases args.len() - i,
    {
        let mut ph = chars_of("{");
        append_vec(&mut ph, &chars_of(args[i].0.as_str()));
        append_vec(&mut ph, &chars_of("}"));
        proof {
            reveal_strlit("{");
        }
        cmd = replace_all_exec(&cmd, &ph, &chars_of(args[i].1.as_str()));
        assert(av.subrange(0, i + 1).drop_last() =~= av.subrange(0, i as int));
        i += 1;
    }
    assert(av.subrange(0, args.len() as int) =~= av);
    string_of(&cmd)
}


/// The text a plugin command produced: its output, then its error output
/// on a line of its own when there is any.
pub open spec fn plugin_output_text(stdout: Seq<char>, stderr: Seq<char>) -> Seq<char> {
    if stderr.len() == 0 {
        stdout
    } else if stdout.len() == 0 {
        stderr
    } else {
        stdout + "\n"@ + stderr
    }
}

/// How `Debug` writes an optional exit code.
pub open spec fn exit_code_text(code: Option<i32>) -> Seq<char> {
    match code {
        Some(c) => "Some("@ + int_text(c as int) + ")"@,
        None => "None"@,
    }
}

/// What a plugin tool returns once its command ran: on success the output
/// with trailing whitespace removed; else an error with the exit code and
/// the output. `stdout` and `stderr` are the command's output read as text.
pub fn plugin_call_result(stdout: &str, stderr: &str, success: bool, code: Option<i32>) -> (r: ToolReturnValue)
    ensures
        success ==> (r matches ToolReturnValue::Success { output, message } && output@ == trim_end(
            plugin_output_text(stdout@, stderr@),
        ) && message is None),
        !success ==> (r matches ToolReturnValue::Error { error } && error@ == "Plugin tool exited with code "@
            + exit_code_text(code) + ":\n"@ + plugin_output_text(stdout@, stderr@)),
{
    let mut text = chars_of(stdout);
    let err = chars_of(stderr);
    if err.len() > 0 {
        if text.len() > 0 {
            text.push('\n');
        }
        append_vec(&mut text, &err);
    }
    proof {
        if stderr@.len() > 0 && stdout@.len() > 0 {
            assert(text@ =~= stdout@ + "\n"@ + stderr@) by {
                reveal_strlit("\n");
            }
        }
        if stderr@.len() > 0 && stdout@.len() == 0 {
            assert(text@ =~= stderr@);
        }
    }
    if success {
        return ToolReturnValue::Success { output: string_of(&trim_end_vec(&text)), message: None };
    }
    let mut m = chars_of("Plugin tool exited with code ");
    match code {
        Some(c) => {
            append_vec(&mut m, &chars_of("Some("));
            append_vec(&mut m, &i32_text(c));
            append_vec(&mut m, &chars_of(")"));
        },
        None => append_vec(&mut m, &chars_of("None")),
    }
    append_vec(&mut m, &chars_of(":\n"));
    append_vec(&mut m, &text);
    ToolReturnValue::Error { error: string_of(&m) }
}

/// What a plugin tool returns when its command could not be started.
pub fn plugin_spawn_failure(error: &str) -> (r: ToolReturnValue)
    ensures
        r matches ToolReturnValue::Error { error: e } && e@ == "Failed to execute plugin tool: "@ + error@,
{
    let mut m = chars_of("Failed to execute plugin tool: ");
    append_vec(&mut m, &chars_of(error));
    ToolReturnValue::Error { error: string_of(&m) }
}

/// The shell plugin commands run in: the `SHELL` variable's value, or
/// `/bin/sh` without one.
pub fn plugin_shell(shell_var: Option<String>) -> (r: String)
    ensures
        r@ == (match shell_var {
            Some(s) => s@,
            None => "/bin/sh"@,
        }),
{
    match shell_var {
        Some(s) => s,
        None => "/bin/sh".to_string(),
    }
}


/// What reading one plugin manifest gave.
#[derive(Debug, Clone)]
pub enum ManifestRead {
    /// The file could not be read; the read error's message.
    Unreadable(String),
    /// The file is not a valid manifest; the parse error's message.
    Invalid(String),
    /// The manifest's plugin name and its number of tools.
    Parsed { name: String, tools: usize },
}

/// The name a plugin whose manifest failed is reported under: the
/// manifest's file stem, or nothing.
pub open spec fn fallback_plugin_name(manifest_path: Seq<char>) -> Seq<char> {
    match file_stem_result(manifest_path) {
        Some(s) => s,
        None => Seq::empty(),
    }
}

/// What loading one manifest reports: a parsed manifest's name and tool
/// count; a failed one under its file stem, with no tools and the error.
pub fn manifest_load_result(manifest_path: &str, read: ManifestRead) -> (r: PluginLoadResult)
    ensures
        r.manifest_path@ == manifest_path@,
        match read {
            ManifestRead::Parsed { name, tools } => r.plugin_name@ == name@ && r.tools_loaded == tools
                && r.error is None,
            ManifestRead::Unreadable(e) => r.plugin_name@ == fallback_plugin_name(manifest_path@)
                && r.tools_loaded == 0 && (r.error matches Some(m) && m@ == "Failed to read manifest: "@ + e@),
            ManifestRead::Invalid(e) => r.plugin_name@ == fallback_plugin_name(manifest_path@)
                && r.tools_loaded == 0 && (r.error matches Some(m) && m@ == "Failed to parse manifest: "@ + e@),
        },
{
    let (prefix, e) = match read {
        ManifestRead::Parsed { name, tools } => {
            return PluginLoadResult {
                manifest_path: manifest_path.to_string(),
                plugin_name: name,
                tools_loaded: tools,
                error: None,
            };
        },
        ManifestRead::Unreadable(e) => ("Failed to read manifest: ", e),
        ManifestRead::Invalid(e) => ("Failed to parse manifest: ", e),
    };
    let name = match file_stem(manifest_path) {
        Some(s) => s,
        None => String::new(),
    };
    let mut m = chars_of(prefix);
    append_vec(&mut m, &chars_of(e.as_str()));
    PluginLoadResult {
        manifest_path: manifest_path.to_string(),
        plugin_name: name,
        tools_loaded: 0,
        error: Some(string_of(&m)),
    }
}

/// What loading reports when the plugins directory cannot be read.
pub fn plugins_dir_unreadable(plugins_dir: &str, error: &str) -> (r: PluginLoadResult)
    ensures
        r.manifest_path@ == plugins_dir@,
        r.plugin_name@ == Seq::<char>::empty(),
        r.tools_loaded == 0,
        r.error matches Some(m) && m@ == "Failed to read plugins directory: "@ + error@,
{
    let mut m = chars_of("Failed to read plugins directory: ");
    append_vec(&mut m, &chars_of(error));
    PluginLoadResult {
        manifest_path: plugins_dir.to_string(),
        plugin_name: String::new(),
        tools_loaded: 0,
        error: Some(string_of(&m)),
    }
}

/// Where an entry of the plugins directory keeps its manifest: a
/// directory's `plugin.toml`; a `.toml` file is one itself; anything else
/// has none.
pub fn manifest_path_for(path: &str, is_dir: bool) -> (r: Option<String>)
    ensures
        is_dir ==> (r matches Some(p) && p@ == path_join(path@, "plugin.toml"@)),
        !is_dir ==> (if extension_result(path@) == Some("toml"@) {
            r matches Some(p) && p@ == path@
        } else {
            r is None
        }),
{
    if is_dir {
        return Some(join_path(path, "plugin.toml"));
    }
    match extension(path) {
        Some(e) => {
            if eq_vec(&chars_of(e.as_str()), &chars_of("toml")) {
                Some(path.to_string())
            } else {
                None
            }
        },
        None => None,
    }
}

} // verus!
