//! Slash commands: a registry of named commands with their handlers.
use crate::text::{
    append_vec, chars_of, eq_vec, file_name, file_name_result, join, join_exec, join_path, path_join, string_of,
    to_lowercase, to_lowercase_result, trim, trim_vec,
};
use vstd::prelude::*;

verus! {

/// A slash command definition; `H` is how the command is run.
pub struct SlashCommand<H> {
    pub name: String,
    pub description: String,
    pub handler: H,
}

/// Registry of slash commands; each name is registered at most once.
pub struct SlashCommandRegistry<H> {
    commands: Vec<SlashCommand<H>>,
}

/// The registry's contents: name and description of each command, in the
/// order they were first registered.
pub open spec fn command_names<H>(cs: Seq<SlashCommand<H>>) -> Seq<Seq<char>> {
    cs.map_values(|c: SlashCommand<H>| c.name@)
}

pub open spec fn names_distinct(ns: Seq<Seq<char>>) -> bool {
    forall|a: int, b: int| 0 <= a < b < ns.len() ==> ns[a] != ns[b]
}

impl<H> SlashCommandRegistry<H> {
    /// The registered commands.
    pub closed spec fn commands(&self) -> Seq<SlashCommand<H>> {
        self.commands@
    }

    #[verifier::type_invariant]
    closed spec fn wf(self) -> bool {
        names_distinct(command_names(self.commands@))
    }

    /// An empty registry.
    pub fn new() -> (r: Self)
        ensures
            r.commands().len() == 0,
    {
        SlashCommandRegistry { commands: Vec::new() }
    }

    fn position(&self, name: &str) -> (r: Option<usize>)
        ensures
            match r {
                Some(i) => i < self.commands().len() && self.commands()[i as int].name@ == name@,
                None => forall|i: int| 0 <= i < self.commands().len() ==> self.commands()[i].name@ != name@,
            },
    {
        let n = chars_of(name);
        let mut i: usize = 0;
        while i < self.commands.len()
            invariant
                i <= self.commands.len(),
                n@ == name@,
                forall|j: int| 0 <= j < i ==> self.commands@[j].name@ != name@,
            decreases self.commands.len() - i,
        {
            if eq_vec(&chars_of(self.commands[i].name.as_str()), &n) {
                return Some(i);
            }
            i += 1;
        }
        None
    }

    /// Registers a command, replacing a command of the same name.
    pub fn register(&mut self, cmd: SlashCommand<H>)
        ensures
            ({
                let old_cs = old(self).commands();
                let new_cs = final(self).commands();
                if exists|i: int| 0 <= i < old_cs.len() && old_cs[i].name@ == cmd.name@ {
                    exists|i: int|
                        0 <= i < old_cs.len() && old_cs[i].name@ == cmd.name@ && new_cs == old_cs.update(i, cmd)
                } else {
                    new_cs == old_cs.push(cmd)
                }
            }),
    {
        proof {
            use_type_invariant(&*self);
        }
        match self.position(cmd.name.as_str()) {
            Some(i) => {
                let ghost old_cs = self.commands@;
                let mut cs: Vec<SlashCommand<H>> = Vec::new();
                std::mem::swap(&mut cs, &mut self.commands);
                cs.set(i, cmd);
                assert(command_names(cs@) =~= command_names(old_cs).update(i as int, cmd.name@));
                assert(names_distinct(command_names(cs@))) by {
                    assert forall|a: int, b: int| 0 <= a < b < cs@.len() implies command_names(cs@)[a]
                        != command_names(cs@)[b] by {
                        assert(command_names(old_cs)[a] == old_cs[a].name@);
                        assert(command_names(old_cs)[b] == old_cs[b].name@);
                    }
                }
                self.commands = cs;
            },
            None => {
                let ghost old_cs = self.commands@;
                let mut cs: Vec<SlashCommand<H>> = Vec::new();
                std::mem::swap(&mut cs, &mut self.commands);
                cs.push(cmd);
                assert(command_names(cs@) =~= command_names(old_cs).push(cmd.name@));
                assert(names_distinct(command_names(cs@))) by {
                    assert forall|a: int, b: int| 0 <= a < b < cs@.len() implies command_names(cs@)[a]
                        != command_names(cs@)[b] by {
                        assert(command_names(old_cs)[a] == old_cs[a].name@);
                    }
                }
                self.commands = cs;
            },
        }
    }

    /// Looks up a command by name.
    pub fn get(&self, name: &str) -> (r: Option<&SlashCommand<H>>)
        ensures
            r is Some <==> exists|i: int| 0 <= i < self.commands().len() && self.commands()[i].name@ == name@,
            match r {
                Some(c) => c.name@ == name@ && forall|i: int|
                    0 <= i < self.commands().len() && self.commands()[i].name@ == name@ ==> self.commands()[i] == *c,
                None => forall|i: int| 0 <= i < self.commands().len() ==> self.commands()[i].name@ != name@,
            },
    {
        proof {
            use_type_invariant(self);
        }
        match self.position(name) {
            Some(i) => {
                assert forall|j: int|
                    0 <= j < self.commands@.len() && self.commands@[j].name@ == name@ implies self.commands@[j]
                    == self.commands@[i as int] by {
                    if j != i {
                        assert(command_names(self.commands@)[j] == self.commands@[j].name@);
                        assert(command_names(self.commands@)[i as int] == self.commands@[i as int].name@);
                    }
                }
                assert(self.commands@[i as int].name@ == name@);
                Some(&self.commands[i])
            },
            None => None,
        }
    }

    /// All registered commands.
    pub fn list(&self) -> (r: Vec<&SlashCommand<H>>)
        ensures
            r@.len() == self.commands().len(),
            forall|i: int| 0 <= i < r@.len() ==> *r@[i] == self.commands()[i],
    {
        let mut r: Vec<&SlashCommand<H>> = Vec::new();
        let mut i: usize = 0;
        while i < self.commands.len()
            invariant
                i <= self.commands.len(),
                r@.len() == i,
                forall|j: int| 0 <= j < i ==> *r@[j] == self.commands@[j],
            decreases self.commands.len() - i,
        {
            r.push(&self.commands[i]);
            i += 1;
        }
        r
    }

    /// Consumes the registry and returns all commands.
    pub fn into_commands(self) -> (r: Vec<SlashCommand<H>>)
        ensures
            r@ == self.commands(),
    {
        self.commands
    }
}

/// Names and descriptions of the default slash commands, in order.
pub open spec fn default_commands() -> Seq<(Seq<char>, Seq<char>)> {
    seq![
        ("init"@, "Analyze the codebase and generate an AGENTS.md file"@),
        ("compact"@, "Compact the context (optionally with a custom focus)"@),
        ("clear"@, "Clear the context"@),
        ("yolo"@, "Toggle YOLO mode (auto-approve all actions)"@),
        ("plan"@, "Toggle plan mode. Usage: /plan [on|off|view|clear]"@),
        ("add-dir"@, "Add a directory to the workspace"@),
        ("export"@, "Export current session context to a markdown file"@),
        ("import"@, "Import context from a file or session ID"@),
    ]
}

/// The default slash command registry; `handler_for` gives the handler of
/// each command by name.
pub fn default_registry<H, F: Fn(&str) -> H>(handler_for: F) -> (r: SlashCommandRegistry<H>)
    requires
        forall|n: &str| handler_for.requires((n,)),
    ensures
        r.commands().len() == default_commands().len(),
        forall|i: int|
            0 <= i < default_commands().len() ==> (#[trigger] r.commands()[i]).name@ == default_commands()[i].0
                && r.commands()[i].description@ == default_commands()[i].1,
{
    let names: [&str; 8] = ["init", "compact", "clear", "yolo", "plan", "add-dir", "export", "import"];
    let descriptions: [&str; 8] = [
        "Analyze the codebase and generate an AGENTS.md file",
        "Compact the context (optionally with a custom focus)",
        "Clear the context",
        "Toggle YOLO mode (auto-approve all actions)",
        "Toggle plan mode. Usage: /plan [on|off|view|clear]",
        "Add a directory to the workspace",
        "Export current session context to a markdown file",
        "Import context from a file or session ID",
    ];
    proof {
        reveal_strlit("init");
        reveal_strlit("compact");
        reveal_strlit("clear");
        reveal_strlit("yolo");
        reveal_strlit("plan");
        reveal_strlit("add-dir");
        reveal_strlit("export");
        reveal_strlit("import");
    }
    let mut cs: Vec<SlashCommand<H>> = Vec::new();
    let mut i: usize = 0;
    while i < 8
        invariant
            i <= 8,
            forall|n: &str| handler_for.requires((n,)),
            names@ == seq!["init", "compact", "clear", "yolo", "plan", "add-dir", "export", "import"],
            descriptions@ == seq![
                "Analyze the codebase and generate an AGENTS.md file",
                "Compact the context (optionally with a custom focus)",
                "Clear the context",
                "Toggle YOLO mode (auto-approve all actions)",
                "Toggle plan mode. Usage: /plan [on|off|view|clear]",
                "Add a directory to the workspace",
                "Export current session context to a markdown file",
                "Import context from a file or session ID",
            ],
            cs@.len() == i,
            forall|j: int| 0 <= j < i ==> (#[trigger] cs@[j]).name@ == default_commands()[j].0
                && cs@[j].description@ == default_commands()[j].1,
        decreases 8 - i,
    {
        let h = handler_for(names[i]);
        cs.push(SlashCommand { name: names[i].to_string(), description: descriptions[i].to_string(), handler: h });
        i += 1;
    }
    proof {
        assert forall|a: int, b: int| 0 <= a < b < cs@.len() implies command_names(cs@)[a] != command_names(cs@)[b] by {
            assert(command_names(cs@)[a] == default_commands()[a].0);
            assert(command_names(cs@)[b] == default_commands()[b].0);
            assert(default_commands()[a].0[0] != default_commands()[b].0[0] || default_commands()[a].0.len()
                != default_commands()[b].0.len() || default_commands()[a].0[1] != default_commands()[b].0[1]);
        }
    }
    SlashCommandRegistry { commands: cs }
}


/// Which marker files a project's directory holds.
#[derive(Debug, Clone, Copy)]
pub struct ProjectMarkers {
    pub cargo_toml: bool,
    pub package_json: bool,
    /// `pyproject.toml` or `setup.py`.
    pub python: bool,
    pub go_mod: bool,
}

/// The project type `/init` records: the last kind whose marker is present,
/// in the order Rust, Node, Python, Go.
pub open spec fn project_type_spec(m: ProjectMarkers) -> Seq<char> {
    if m.go_mod {
        "go"@
    } else if m.python {
        "python"@
    } else if m.package_json {
        "node"@
    } else if m.cargo_toml {
        "rust"@
    } else {
        "unknown"@
    }
}

/// The languages `/init` lists, in marker order.
pub open spec fn languages_spec(m: ProjectMarkers) -> Seq<Seq<char>> {
    (if m.cargo_toml { seq!["Rust"@] } else { Seq::empty() }) + (if m.package_json {
        seq!["JavaScript/TypeScript"@]
    } else {
        Seq::empty()
    }) + (if m.python { seq!["Python"@] } else { Seq::empty() }) + (if m.go_mod { seq!["Go"@] } else { Seq::empty() })
}

/// The guide's closing sections.
pub open spec fn agents_md_tail() -> Seq<char> {
    "

## Key Conventions
- Follow existing code style in the repository.
- Prefer editing existing files over creating new ones when possible.
- Run tests before declaring a task complete.
- Ask for clarification when requirements are ambiguous.

## Build / Test Commands
<!-- Add your project's build and test commands here -->

## Notes
<!-- Add any project-specific notes here -->
"@
}

/// The `AGENTS.md` that `/init` writes for a project directory named
/// `name`.
pub open spec fn agents_md_spec(name: Seq<char>, m: ProjectMarkers) -> Seq<char> {
    let langs = languages_spec(m);
    "# Agent Guide for "@ + name + "\n\n## Project Type\n"@ + project_type_spec(m) + "\n\n## Primary Languages\n"@
        + (if langs.len() == 0 {
        "Unknown"@
    } else {
        join(langs, " / "@)
    }) + agents_md_tail()
}

/// The name `/init` gives a work directory: its last component, or the
/// whole path when it has none.
pub open spec fn dir_display_name(work_dir: Seq<char>) -> Seq<char> {
    match file_name_result(work_dir) {
        Some(n) => n,
        None => work_dir,
    }
}

/// The `AGENTS.md` `/init` generates for the work directory.
pub fn init_agents_md(work_dir: &str, markers: ProjectMarkers) -> (r: String)
    ensures
        r@ == agents_md_spec(dir_display_name(work_dir@), markers),
{
    let name = match file_name(work_dir) {
        Some(n) => n,
        None => work_dir.to_string(),
    };
    let project_type = if markers.go_mod {
        "go"
    } else if markers.python {
        "python"
    } else if markers.package_json {
        "node"
    } else if markers.cargo_toml {
        "rust"
    } else {
        "unknown"
    };
    let mut langs: Vec<Vec<char>> = Vec::new();
    if markers.cargo_toml {
        langs.push(chars_of("Rust"));
    }
    if markers.package_json {
        langs.push(chars_of("JavaScript/TypeScript"));
    }
    if markers.python {
        langs.push(chars_of("Python"));
    }
    if markers.go_mod {
        langs.push(chars_of("Go"));
    }
    assert(langs@.map_values(|v: Vec<char>| v@) =~= languages_spec(markers));
    let lang_text = if langs.len() == 0 {
        chars_of("Unknown")
    } else {
        join_exec(&langs, &chars_of(" / "))
    };
    let mut out = chars_of("# Agent Guide for ");
    append_vec(&mut out, &chars_of(name.as_str()));
    append_vec(&mut out, &chars_of("\n\n## Project Type\n"));
    append_vec(&mut out, &chars_of(project_type));
    append_vec(&mut out, &chars_of("\n\n## Primary Languages\n"));
    append_vec(&mut out, &lang_text);
    append_vec(
        &mut out,
        &chars_of(
            "

## Key Conventions
- Follow existing code style in the repository.
- Prefer editing existing files over creating new ones when possible.
- Run tests before declaring a task complete.
- Ask for clarification when requirements are ambiguous.

## Build / Test Commands
<!-- Add your project's build and test commands here -->

## Notes
<!-- Add any project-specific notes here -->
",
        ),
    );
    string_of(&out)
}

/// What `/plan` was asked to do.
#[derive(Debug, Clone, Copy, PartialEq, Eq, Structural)]
pub enum PlanSubcommand {
    On,
    Off,
    View,
    Clear,
    /// Anything else switches plan mode over.
    Toggle,
}

/// Reads `/plan`'s argument: trimmed and lower-cased.
pub open spec fn plan_subcommand_spec(args: Seq<char>) -> PlanSubcommand {
    let a = to_lowercase_result(trim(args));
    if a == "on"@ {
        PlanSubcommand::On
    } else if a == "off"@ {
        PlanSubcommand::Off
    } else if a == "view"@ {
        PlanSubcommand::View
    } else if a == "clear"@ {
        PlanSubcommand::Clear
    } else {
        PlanSubcommand::Toggle
    }
}

/// Reads `/plan`'s argument (see `plan_subcommand_spec`).
pub fn plan_subcommand(args: &str) -> (r: PlanSubcommand)
    ensures
        r == plan_subcommand_spec(args@),
{
    let a = chars_of(to_lowercase(string_of(&trim_vec(&chars_of(args))).as_str()).as_str());
    if eq_vec(&a, &chars_of("on")) {
        PlanSubcommand::On
    } else if eq_vec(&a, &chars_of("off")) {
        PlanSubcommand::Off
    } else if eq_vec(&a, &chars_of("view")) {
        PlanSubcommand::View
    } else if eq_vec(&a, &chars_of("clear")) {
        PlanSubcommand::Clear
    } else {
        PlanSubcommand::Toggle
    }
}

/// The directory `/add-dir` was given: its trimmed argument, when there is one.
pub fn add_dir_argument(args: &str) -> (r: Option<String>)
    ensures
        trim(args@).len() == 0 ==> r is None,
        trim(args@).len() > 0 ==> (r matches Some(p) && p@ == trim(args@)),
{
    let t = trim_vec(&chars_of(args));
    if t.len() == 0 {
        None
    } else {
        Some(string_of(&t))
    }
}

/// Where `/export` writes: the path given, or `exports/<session id>.md`
/// under the share directory.
pub fn export_target(args: &str, share_dir: &str, session_id: &str) -> (r: String)
    ensures
        trim(args@).len() > 0 ==> r@ == trim(args@),
        trim(args@).len() == 0 ==> r@ == path_join(path_join(share_dir@, "exports"@), session_id@ + ".md"@),
{
    let t = trim_vec(&chars_of(args));
    if t.len() > 0 {
        return string_of(&t);
    }
    let dir = join_path(share_dir, "exports");
    let mut f = chars_of(session_id);
    append_vec(&mut f, &chars_of(".md"));
    join_path(dir.as_str(), string_of(&f).as_str())
}

} // verus!
