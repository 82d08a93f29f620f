//! The command that changes plugins, and the environment that it runs in.

use crate::text::string_views;
use vstd::prelude::*;

verus! {

/// The profile whose plugins are changed.
pub const PREINSTALL_PROFILE: &'static str = "web";

/// The arguments, after the program itself, of
/// `dsh plugin --profile web <verb> <package>`.
pub open spec fn command_line(verb: Seq<char>, package: Seq<char>) -> Seq<Seq<char>> {
    seq!["plugin"@, "--profile"@, PREINSTALL_PROFILE@, verb, package]
}

/// The arguments, after the program itself, of
/// `dsh plugin --profile web <verb> <package>`.
pub fn plugin_args(verb: &str, package: &str) -> (args: Vec<String>)
    ensures
        string_views(args@) == command_line(verb@, package@),
{
    let mut args: Vec<String> = Vec::new();
    args.push("plugin".to_string());
    args.push("--profile".to_string());
    args.push(PREINSTALL_PROFILE.to_string());
    args.push(verb.to_string());
    args.push(package.to_string());
    assert(string_views(args@) == command_line(verb@, package@));
    args
}

/// The directories in which programs are looked up: the shims first, then the
/// directory of Node.js where it is known, then those that were inherited.
pub fn search_path<T>(shims: T, node_dir: Option<T>, inherited: Vec<T>) -> (path: Vec<T>)
    ensures
        path@ == seq![shims] + (match node_dir {
            Some(dir) => seq![dir],
            None => seq![],
        }) + inherited@,
{
    let mut path: Vec<T> = Vec::new();
    path.push(shims);
    if let Some(dir) = node_dir {
        path.push(dir);
    }
    let mut rest = inherited;
    path.append(&mut rest);
    path
}

/// One environment variable.
#[derive(Debug, Clone)]
pub struct EnvVar {
    pub name: String,
    pub value: String,
}

impl View for EnvVar {
    type V = (Seq<char>, Seq<char>);

    open spec fn view(&self) -> (Seq<char>, Seq<char>) {
        (self.name@, self.value@)
    }
}

/// What a sequence of variables holds.
pub open spec fn env_views(vars: Seq<EnvVar>) -> Seq<(Seq<char>, Seq<char>)> {
    vars.map_values(|v: EnvVar| v@)
}

/// The variables of the command: where its data lives, no telemetry and no
/// colours; the bundled pnpm, where it is to be used; and the search path, where
/// there is one.
pub open spec fn environment(
    home: Seq<char>,
    prefer_bundled_pnpm: bool,
    path: Option<Seq<char>>,
) -> Seq<(Seq<char>, Seq<char>)> {
    seq![("DSH_HOME"@, home), ("DSH_TELEMETRY_DISABLED"@, "1"@), ("NO_COLOR"@, "1"@)] + (
    if prefer_bundled_pnpm {
        seq![("DSH_PREFER_BUNDLED_PNPM"@, "1"@)]
    } else {
        seq![]
    }) + (match path {
        Some(path) => seq![("PATH"@, path)],
        None => seq![],
    })
}

/// What an optional text holds.
pub open spec fn text_view(text: Option<&str>) -> Option<Seq<char>> {
    match text {
        Some(t) => Some(t@),
        None => None,
    }
}

/// One variable.
fn env_var(name: &str, value: &str) -> (var: EnvVar)
    ensures
        var@ == (name@, value@),
{
    EnvVar { name: name.to_string(), value: value.to_string() }
}

/// The variables of the command.
pub fn plugin_envs(home: &str, prefer_bundled_pnpm: bool, path: Option<&str>) -> (vars: Vec<EnvVar>)
    ensures
        env_views(vars@) == environment(home@, prefer_bundled_pnpm, text_view(path)),
{
    let mut vars: Vec<EnvVar> = Vec::new();
    vars.push(env_var("DSH_HOME", home));
    vars.push(env_var("DSH_TELEMETRY_DISABLED", "1"));
    vars.push(env_var("NO_COLOR", "1"));
    if prefer_bundled_pnpm {
        vars.push(env_var("DSH_PREFER_BUNDLED_PNPM", "1"));
    }
    if let Some(p) = path {
        vars.push(env_var("PATH", p));
    }
    assert(env_views(vars@) == environment(home@, prefer_bundled_pnpm, text_view(path)));
    vars
}

/// No variable is set twice.
pub proof fn law_variables_are_distinct(
    home: Seq<char>,
    prefer_bundled_pnpm: bool,
    path: Option<Seq<char>>,
    i: int,
    j: int,
)
    requires
        0 <= i < j < environment(home, prefer_bundled_pnpm, path).len(),
    ensures
        environment(home, prefer_bundled_pnpm, path)[i].0 != environment(
            home,
            prefer_bundled_pnpm,
            path,
        )[j].0,
{
    reveal_strlit("DSH_HOME");
    reveal_strlit("DSH_TELEMETRY_DISABLED");
    reveal_strlit("NO_COLOR");
    reveal_strlit("DSH_PREFER_BUNDLED_PNPM");
    reveal_strlit("PATH");
    let a = environment(home, prefer_bundled_pnpm, path)[i].0;
    let b = environment(home, prefer_bundled_pnpm, path)[j].0;
    if a == b {
        assert(a.len() == b.len());
        assert(a[0] == b[0]);
    }
}

/// What is missing for the command to run, if anything: Node.js, the command
/// itself, or the window that shows its output, in this order.
pub open spec fn missing_part(node: bool, dsh: bool, window: bool) -> Option<Seq<char>> {
    if !node {
        Some("NODE_NOT_FOUND: Node.js runtime missing"@)
    } else if !dsh {
        Some("HARNESS_NOT_FOUND: dsh CLI missing"@)
    } else if !window {
        Some("WINDOW_NOT_FOUND: main window missing"@)
    } else {
        None
    }
}

/// What is missing for the command to run, if anything.
pub fn check_runtime(node: bool, dsh: bool, window: bool) -> (missing: Option<String>)
    ensures
        match missing_part(node, dsh, window) {
            Some(e) => missing matches Some(s) && s@ == e,
            None => missing is None,
        },
{
    if !node {
        Some("NODE_NOT_FOUND: Node.js runtime missing".to_string())
    } else if !dsh {
        Some("HARNESS_NOT_FOUND: dsh CLI missing".to_string())
    } else if !window {
        Some("WINDOW_NOT_FOUND: main window missing".to_string())
    } else {
        None
    }
}

/// The command is `plugin --profile web`, what is done, and to which package.
pub proof fn law_command_names_verb_and_package(verb: Seq<char>, package: Seq<char>)
    ensures
        command_line(verb, package).len() == 5,
        command_line(verb, package).take(3) == seq!["plugin"@, "--profile"@, "web"@],
        command_line(verb, package)[3] == verb,
        command_line(verb, package)[4] == package,
{
    assert(command_line(verb, package).take(3) == seq!["plugin"@, "--profile"@, "web"@]);
}

/// The environment has exactly these variables: where the data lives, no telemetry,
/// no colours, the bundled pnpm where it is preferred, and the search path where
/// there is one.
pub proof fn law_environment_has_exactly_its_variables(
    home: Seq<char>,
    prefer_bundled_pnpm: bool,
    path: Option<Seq<char>>,
    name: Seq<char>,
    value: Seq<char>,
)
    ensures
        environment(home, prefer_bundled_pnpm, path).contains((name, value)) <==> {
            ||| name == "DSH_HOME"@ && value == home
            ||| name == "DSH_TELEMETRY_DISABLED"@ && value == "1"@
            ||| name == "NO_COLOR"@ && value == "1"@
            ||| prefer_bundled_pnpm && name == "DSH_PREFER_BUNDLED_PNPM"@ && value == "1"@
            ||| name == "PATH"@ && path == Some(value)
        },
{
    let vars = environment(home, prefer_bundled_pnpm, path);
    let own = (name, value);
    assert(vars[0] == ("DSH_HOME"@, home));
    assert(vars[1] == ("DSH_TELEMETRY_DISABLED"@, "1"@));
    assert(vars[2] == ("NO_COLOR"@, "1"@));
    if prefer_bundled_pnpm {
        assert(vars[3] == ("DSH_PREFER_BUNDLED_PNPM"@, "1"@));
    }
    if let Some(p) = path {
        assert(vars[vars.len() - 1] == ("PATH"@, p));
    }
    if vars.contains(own) {
        let i = choose|i: int| 0 <= i < vars.len() && vars[i] == own;
        assert(vars[i] == own);
    }
}

/// The bundled pnpm is forced exactly where it is preferred.
pub proof fn law_preference_forces_the_bundled_pnpm(
    home: Seq<char>,
    prefer_bundled_pnpm: bool,
    path: Option<Seq<char>>,
)
    ensures
        environment(home, prefer_bundled_pnpm, path).contains(("DSH_PREFER_BUNDLED_PNPM"@, "1"@))
            <==> prefer_bundled_pnpm,
{
    reveal_strlit("DSH_HOME");
    reveal_strlit("DSH_TELEMETRY_DISABLED");
    reveal_strlit("NO_COLOR");
    reveal_strlit("DSH_PREFER_BUNDLED_PNPM");
    reveal_strlit("PATH");
    law_environment_has_exactly_its_variables(
        home,
        prefer_bundled_pnpm,
        path,
        "DSH_PREFER_BUNDLED_PNPM"@,
        "1"@,
    );
    let name = "DSH_PREFER_BUNDLED_PNPM"@;
    assert(name.len() != "DSH_HOME"@.len());
    assert(name.len() != "DSH_TELEMETRY_DISABLED"@.len());
    assert(name.len() != "NO_COLOR"@.len());
    assert(name.len() != "PATH"@.len());
}

/// The command can run exactly where nothing is missing, and otherwise the first
/// thing that is missing is named.
pub proof fn law_first_missing_part_is_named(node: bool, dsh: bool, window: bool)
    ensures
        missing_part(node, dsh, window) is None <==> node && dsh && window,
        !node ==> missing_part(node, dsh, window) == Some(
            "NODE_NOT_FOUND: Node.js runtime missing"@,
        ),
        node && !dsh ==> missing_part(node, dsh, window) == Some(
            "HARNESS_NOT_FOUND: dsh CLI missing"@,
        ),
        node && dsh && !window ==> missing_part(node, dsh, window) == Some(
            "WINDOW_NOT_FOUND: main window missing"@,
        ),
{
}

/// The views of variables are what they hold, one by one.
pub proof fn law_variables_are_seen_whole(vars: Seq<EnvVar>, path: Option<&str>)
    ensures
        env_views(vars).len() == vars.len(),
        forall|i: int|
            0 <= i < vars.len() ==> #[trigger] env_views(vars)[i] == (vars[i].name@, vars[i].value@),
        path matches Some(p) ==> text_view(path) == Some(p@),
        path is None ==> text_view(path) is None,
{
}

} // verus!
