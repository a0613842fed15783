//! The manifest model, its JSON text form, the fixed per-user resource
//! layout of an installed program, and the run / remove planning over it.

use vstd::prelude::*;

verus! {

use crate::error::PkgError;
use crate::json::{
    json_parses,
    json_value_of,
    json_field_string,
    json_field_strings,
    parse_json,
    get_string_field,
    get_strings_field,
};
use crate::paths::{seq_views, component_ok, component_is_ok};
use crate::strutil::{json_escaped, arg_escaped, push_json_escaped, push_arg_escaped};

/// Clones a list of strings, element for element.
fn clone_strings(v: &Vec<String>) -> (r: Vec<String>)
    ensures
        r@ == v@,
{
    let mut r: Vec<String> = Vec::new();
    let mut i: usize = 0;
    while i < v.len()
        invariant
            i <= v@.len(),
            r@ == v@.take(i as int),
        decreases v@.len() - i,
    {
        r.push(v[i].clone());
        proof {
            assert(v@.take(i + 1) =~= v@.take(i as int).push(v@[i as int]));
        }
        i = i + 1;
    }
    proof {
        assert(v@.take(v@.len() as int) =~= v@);
    }
    r
}

/// The declarative description of a package: its name, the files it
/// installs, its optional lifecycle scripts (empty means none) and the
/// shell command its launcher runs.
pub struct Manifest {
    pub name: String,
    pub files: Vec<String>,
    pub install_script: String,
    pub remove_script: String,
    pub cmd: String,
}

/// A manifest name must be non-empty and filesystem-safe: it becomes a
/// directory and file name inside the fixed layout.
pub open spec fn valid_name(n: Seq<char>) -> bool {
    component_ok(n)
}

/// A string quoted for JSON: the escaped body between two quotes.
pub open spec fn spec_quoted(s: Seq<char>) -> Seq<char> {
    seq!['"'] + json_escaped(s) + seq!['"']
}

/// The JSON array body for a file list: quoted entries joined by commas.
pub open spec fn spec_files_json(fs: Seq<Seq<char>>) -> Seq<char>
    decreases fs.len(),
{
    if fs.len() == 0 {
        Seq::empty()
    } else if fs.len() == 1 {
        spec_quoted(fs[0])
    } else {
        spec_files_json(fs.drop_last()) + seq![','] + spec_quoted(fs.last())
    }
}

/// The exact JSON text this library writes for a manifest.
pub open spec fn spec_manifest_json(
    name: Seq<char>,
    files: Seq<Seq<char>>,
    install_script: Seq<char>,
    remove_script: Seq<char>,
    cmd: Seq<char>,
) -> Seq<char> {
    "{\"name\":"@ + spec_quoted(name) + ",\"files\":["@ + spec_files_json(files)
        + "],\"install_script\":"@ + spec_quoted(install_script) + ",\"remove_script\":"@
        + spec_quoted(remove_script) + ",\"cmd\":"@ + spec_quoted(cmd) + "}"@
}

/// The fields a manifest's JSON text yields, or nothing when the text is
/// rejected: `name` must be present as a string; `files` may be absent
/// (an empty list) but must otherwise be an array of strings; the two
/// scripts and `cmd` may be absent (empty) but must otherwise be
/// strings.  Unknown fields are ignored.
pub open spec fn spec_manifest_fields(s: Seq<char>) -> Option<
    (Seq<char>, Seq<Seq<char>>, Seq<char>, Seq<char>, Seq<char>),
> {
    if !json_parses(s) {
        None
    } else {
        let v = json_value_of(s);
        match json_field_string(v, "name"@) {
            Some(Some(name)) => {
                let files = match json_field_strings(v, "files"@) {
                    None => Some(Seq::<Seq<char>>::empty()),
                    Some(o) => o,
                };
                let install_script = match json_field_string(v, "install_script"@) {
                    None => Some(Seq::<char>::empty()),
                    Some(o) => o,
                };
                let remove_script = match json_field_string(v, "remove_script"@) {
                    None => Some(Seq::<char>::empty()),
                    Some(o) => o,
                };
                let cmd = match json_field_string(v, "cmd"@) {
                    None => Some(Seq::<char>::empty()),
                    Some(o) => o,
                };
                if files is Some && install_script is Some && remove_script is Some
                    && cmd is Some {
                    Some((name, files->0, install_script->0, remove_script->0, cmd->0))
                } else {
                    None
                }
            },
            _ => None,
        }
    }
}

impl Manifest {
    /// A fresh manifest: the given name and files, no scripts, no command.
    pub fn new(name: String, files: &Vec<String>) -> (r: Self)
        ensures
            r.name@ == name@,
            r.files@ == files@,
            r.install_script@ == Seq::<char>::empty(),
            r.remove_script@ == Seq::<char>::empty(),
            r.cmd@ == Seq::<char>::empty(),
    {
        Self {
            name,
            files: clone_strings(files),
            install_script: String::new(),
            remove_script: String::new(),
            cmd: String::new(),
        }
    }

    /// Whether the name may be used inside the fixed layout.
    pub fn is_valid(&self) -> (r: bool)
        ensures
            r == valid_name(self.name@),
    {
        component_is_ok(&self.name)
    }

    /// Writes the manifest as one line of JSON text.
    pub fn to_json(&self) -> (r: String)
        ensures
            r@ == spec_manifest_json(
                self.name@,
                seq_views(self.files@),
                self.install_script@,
                self.remove_script@,
                self.cmd@,
            ),
    {
        let mut out = String::new();
        out.push_str("{\"name\":");
        out.push('"');
        push_json_escaped(&mut out, self.name.as_str());
        out.push('"');
        out.push_str(",\"files\":[");
        let ghost fs = seq_views(self.files@);
        let ghost head = "{\"name\":"@ + spec_quoted(self.name@) + ",\"files\":["@;
        proof {
            assert(out@ =~= head + spec_files_json(fs.take(0)));
        }
        let mut i: usize = 0;
        while i < self.files.len()
            invariant
                i <= self.files@.len(),
                fs == seq_views(self.files@),
                head == "{\"name\":"@ + spec_quoted(self.name@) + ",\"files\":["@,
                out@ == head + spec_files_json(fs.take(i as int)),
            decreases self.files@.len() - i,
        {
            if i > 0 {
                out.push(',');
            }
            out.push('"');
            push_json_escaped(&mut out, self.files[i].as_str());
            out.push('"');
            proof {
                let t1 = fs.take(i + 1);
                assert(t1.drop_last() =~= fs.take(i as int));
                assert(t1.last() == self.files@[i as int]@);
                assert(out@ =~= head + spec_files_json(t1));
            }
            i = i + 1;
        }
        proof {
            assert(fs.take(self.files@.len() as int) =~= fs);
        }
        out.push_str("],\"install_script\":");
        out.push('"');
        push_json_escaped(&mut out, self.install_script.as_str());
        out.push('"');
        out.push_str(",\"remove_script\":");
        out.push('"');
        push_json_escaped(&mut out, self.remove_script.as_str());
        out.push('"');
        out.push_str(",\"cmd\":");
        out.push('"');
        push_json_escaped(&mut out, self.cmd.as_str());
        out.push('"');
        out.push_str("}");
        proof {
            assert(out@ =~= spec_manifest_json(
                self.name@,
                seq_views(self.files@),
                self.install_script@,
                self.remove_script@,
                self.cmd@,
            ));
        }
        out
    }

    /// Reads a manifest from JSON text: rejected text is a parse
    /// failure, a well-parsed manifest whose name is unusable is an
    /// invalid-name failure, and everything else is returned whole.
    pub fn from_json(s: &str) -> (r: Result<Manifest, PkgError>)
        ensures
            spec_manifest_fields(s@) is None <==> r matches Err(PkgError::Parse(_)),
            spec_manifest_fields(s@) matches Some(t) && !valid_name(t.0) <==> r matches Err(
                PkgError::InvalidName,
            ),
            spec_manifest_fields(s@) matches Some(t) && valid_name(t.0) <==> r is Ok,
            r matches Ok(m) ==> spec_manifest_fields(s@) matches Some(t) && m.name@ == t.0
                && seq_views(m.files@) == t.1 && m.install_script@ == t.2 && m.remove_script@
                == t.3 && m.cmd@ == t.4,
    {
        let v = match parse_json(s) {
            Some(v) => v,
            None => {
                return Err(PkgError::Parse("manifest is not well-formed JSON".to_owned()));
            },
        };
        let name = match get_string_field(&v, "name") {
            Some(Some(name)) => name,
            _ => {
                return Err(PkgError::Parse("manifest has no \"name\" string".to_owned()));
            },
        };
        let files: Vec<String> = match get_strings_field(&v, "files") {
            None => Vec::new(),
            Some(Some(fs)) => fs,
            Some(None) => {
                return Err(
                    PkgError::Parse("\"files\" is not an array of strings".to_owned()),
                );
            },
        };
        let install_script: String = match get_string_field(&v, "install_script") {
            None => String::new(),
            Some(Some(x)) => x,
            Some(None) => {
                return Err(PkgError::Parse("\"install_script\" is not a string".to_owned()));
            },
        };
        let remove_script: String = match get_string_field(&v, "remove_script") {
            None => String::new(),
            Some(Some(x)) => x,
            Some(None) => {
                return Err(PkgError::Parse("\"remove_script\" is not a string".to_owned()));
            },
        };
        let cmd: String = match get_string_field(&v, "cmd") {
            None => String::new(),
            Some(Some(x)) => x,
            Some(None) => {
                return Err(PkgError::Parse("\"cmd\" is not a string".to_owned()));
            },
        };
        if !component_is_ok(&name) {
            return Err(PkgError::InvalidName);
        }
        Ok(Manifest { name, files, install_script, remove_script, cmd })
    }
}

/// The resource-directory path of a program: `<home>/Applications/res/<name>`.
pub open spec fn spec_res_path(home: Seq<char>, name: Seq<char>) -> Seq<char> {
    home + "/Applications/res/"@ + name
}

/// The launcher path of a program: `<home>/Applications/exe/<name>`.
pub open spec fn spec_exe_path(home: Seq<char>, name: Seq<char>) -> Seq<char> {
    home + "/Applications/exe/"@ + name
}

/// The manifest-copy path of a program: `<home>/Applications/<name>.json`.
pub open spec fn spec_manifest_path(home: Seq<char>, name: Seq<char>) -> Seq<char> {
    home + "/Applications/"@ + name + ".json"@
}

/// The text of the launcher script: it re-invokes the program runner
/// with the program's name and forwards the arguments.
pub open spec fn spec_launcher_content(name: Seq<char>) -> Seq<char> {
    "#!/bin/bash\nebpm run "@ + name + " $@"@
}

/// The fixed on-disk locations of one installed program, derived from
/// its name alone.
pub struct ProgramResources {
    pub res_path: String,
    pub exe_path: String,
    pub manifest: String,
}

/// `r` holds exactly the layout paths of `name` under `home`.
pub open spec fn resources_for(r: ProgramResources, home: Seq<char>, name: Seq<char>) -> bool {
    &&& r.res_path@ == spec_res_path(home, name)
    &&& r.exe_path@ == spec_exe_path(home, name)
    &&& r.manifest@ == spec_manifest_path(home, name)
}

/// One step of making the fixed layout exist.  The runner of these
/// actions must reuse a path that already exists as the expected kind
/// and fail loudly when it exists as the wrong kind.
pub enum LayoutAction {
    /// Create this directory if absent; reuse it if it is a directory;
    /// fail if a file stands there.
    EnsureDir(String),
    /// Create an executable launcher file (the given content, mode) if
    /// absent; reuse whatever file stands there; fail on a directory.
    EnsureLauncher { path: String, content: String, mode: u32 },
}

/// `v` is exactly the action list that makes the layout of `name` under
/// `home` exist: the fixed root, the resource root, this program's
/// resource directory, the launcher root, then the launcher itself.
pub open spec fn spec_layout_actions(v: Seq<LayoutAction>, home: Seq<char>, name: Seq<char>) -> bool {
    &&& v.len() == 5
    &&& v[0] matches LayoutAction::EnsureDir(p) && p@ == home + "/Applications"@
    &&& v[1] matches LayoutAction::EnsureDir(p) && p@ == home + "/Applications/res"@
    &&& v[2] matches LayoutAction::EnsureDir(p) && p@ == spec_res_path(home, name)
    &&& v[3] matches LayoutAction::EnsureDir(p) && p@ == home + "/Applications/exe"@
    &&& v[4] matches LayoutAction::EnsureLauncher { path, content, mode } && path@
        == spec_exe_path(home, name) && content@ == spec_launcher_content(name) && mode
        == 0o770u32
}

impl ProgramResources {
    /// Resolves the three layout paths of `name` under `home`.  Pure:
    /// no path is created, and resolution depends on nothing else.
    pub fn new(home: &str, name: &str) -> (r: Self)
        ensures
            resources_for(r, home@, name@),
    {
        let mut res_path = String::new();
        res_path.push_str(home);
        res_path.push_str("/Applications/res/");
        res_path.push_str(name);
        let mut exe_path = String::new();
        exe_path.push_str(home);
        exe_path.push_str("/Applications/exe/");
        exe_path.push_str(name);
        let mut manifest = String::new();
        manifest.push_str(home);
        manifest.push_str("/Applications/");
        manifest.push_str(name);
        manifest.push_str(".json");
        proof {
            assert(res_path@ =~= spec_res_path(home@, name@));
            assert(exe_path@ =~= spec_exe_path(home@, name@));
            assert(manifest@ =~= spec_manifest_path(home@, name@));
        }
        Self { res_path, exe_path, manifest }
    }

    /// The layout of the program a manifest names.
    pub fn from(m: &Manifest, home: &str) -> (r: Self)
        ensures
            resources_for(r, home@, m.name@),
    {
        Self::new(home, m.name.as_str())
    }

    /// The steps that make the layout exist, in the order they must
    /// run: the fixed root, the resource root, this program's resource
    /// directory, the launcher root, and the launcher itself.
    pub fn creation_actions(home: &str, name: &str) -> (r: Vec<LayoutAction>)
        ensures
            spec_layout_actions(r@, home@, name@),
    {
        let mut apps = String::new();
        apps.push_str(home);
        apps.push_str("/Applications");
        let mut res_root = String::new();
        res_root.push_str(home);
        res_root.push_str("/Applications/res");
        let mut exe_root = String::new();
        exe_root.push_str(home);
        exe_root.push_str("/Applications/exe");
        let layout = Self::new(home, name);
        let mut content = String::new();
        content.push_str("#!/bin/bash\nebpm run ");
        content.push_str(name);
        content.push_str(" $@");
        proof {
            assert(content@ =~= spec_launcher_content(name@));
        }
        let mut r: Vec<LayoutAction> = Vec::new();
        r.push(LayoutAction::EnsureDir(apps));
        r.push(LayoutAction::EnsureDir(res_root));
        r.push(LayoutAction::EnsureDir(layout.res_path));
        r.push(LayoutAction::EnsureDir(exe_root));
        r.push(
            LayoutAction::EnsureLauncher { path: layout.exe_path, content, mode: 0o770u32 },
        );
        r
    }
}

/// Layout resolution is idempotent: two resolutions for the same name
/// under the same home yield the same three paths, so repeating it
/// neither moves nor duplicates anything.
pub proof fn lemma_layout_idempotent(
    a: ProgramResources,
    b: ProgramResources,
    home: Seq<char>,
    name: Seq<char>,
)
    requires
        resources_for(a, home, name),
        resources_for(b, home, name),
    ensures
        a.res_path@ == b.res_path@,
        a.exe_path@ == b.exe_path@,
        a.manifest@ == b.manifest@,
{
}

/// A lifecycle script to run: its path, with the working directory to
/// run it in.  A nonzero exit or a spawn failure is fatal to the
/// surrounding command.
pub struct ScriptAction {
    pub script: String,
    pub cwd: String,
}

/// The composed shell command for `run`: the manifest's command, a
/// space, then every extra argument escaped and followed by a space.
pub open spec fn spec_run_command(cmd: Seq<char>, args: Seq<Seq<char>>) -> Seq<char>
    decreases args.len(),
{
    if args.len() == 0 {
        cmd + seq![' ']
    } else {
        spec_run_command(cmd, args.drop_last()) + arg_escaped(args.last()) + seq![' ']
    }
}

/// Everything `run` hands the shell: the composed command and the one
/// environment variable exposed to it.  The runner must clear the rest
/// of the environment — isolation, not inheritance.
pub struct RunPlan {
    pub shell_cmd: String,
    pub env_name: String,
    pub env_value: String,
}

/// What `remove` does, in order: the optional remove script first (a
/// failure aborts everything after it), then the launcher, the manifest
/// copy and the whole resource directory are deleted.
pub struct RemovePlan {
    pub script: Option<ScriptAction>,
    pub remove_launcher: String,
    pub remove_manifest: String,
    pub remove_res_dir: String,
}

impl Manifest {
    /// Plans `run`: re-derives the layout (without creating anything),
    /// composes the shell command from `cmd` and the escaped extra
    /// arguments, and exposes exactly one environment variable, `RES`,
    /// naming the resource directory.
    pub fn run_plan(&self, home: &str, extra_args: &Vec<String>) -> (r: RunPlan)
        ensures
            r.shell_cmd@ == spec_run_command(self.cmd@, seq_views(extra_args@)),
            r.env_name@ == "RES"@,
            r.env_value@ == spec_res_path(home@, self.name@),
    {
        let layout = ProgramResources::from(self, home);
        let mut shell_cmd = String::new();
        shell_cmd.push_str(self.cmd.as_str());
        shell_cmd.push(' ');
        let ghost args = seq_views(extra_args@);
        proof {
            assert(shell_cmd@ =~= spec_run_command(self.cmd@, args.take(0)));
        }
        let mut i: usize = 0;
        while i < extra_args.len()
            invariant
                i <= extra_args@.len(),
                args == seq_views(extra_args@),
                shell_cmd@ == spec_run_command(self.cmd@, args.take(i as int)),
            decreases extra_args@.len() - i,
        {
            push_arg_escaped(&mut shell_cmd, extra_args[i].as_str());
            shell_cmd.push(' ');
            proof {
                let t1 = args.take(i + 1);
                assert(t1.drop_last() =~= args.take(i as int));
                assert(t1.last() == extra_args@[i as int]@);
                assert(shell_cmd@ =~= spec_run_command(self.cmd@, t1));
            }
            i = i + 1;
        }
        proof {
            assert(args.take(extra_args@.len() as int) =~= args);
        }
        let mut env_name = String::new();
        env_name.push_str("RES");
        RunPlan { shell_cmd, env_name, env_value: layout.res_path }
    }

    /// Plans `remove`: the remove script exactly when the manifest
    /// names one, then the three deletions in their fixed order.
    pub fn remove_plan(&self, home: &str) -> (r: RemovePlan)
        ensures
            r.script is Some <==> self.remove_script@.len() > 0,
            r.script matches Some(sa) ==> sa.script@ == self.remove_script@ && sa.cwd@
                == spec_res_path(home@, self.name@),
            r.remove_launcher@ == spec_exe_path(home@, self.name@),
            r.remove_manifest@ == spec_manifest_path(home@, self.name@),
            r.remove_res_dir@ == spec_res_path(home@, self.name@),
    {
        let layout = ProgramResources::from(self, home);
        let script = if self.remove_script.as_str().unicode_len() > 0 {
            Some(
                ScriptAction { script: self.remove_script.clone(), cwd: layout.res_path.clone() },
            )
        } else {
            None
        };
        RemovePlan {
            script,
            remove_launcher: layout.exe_path,
            remove_manifest: layout.manifest,
            remove_res_dir: layout.res_path,
        }
    }
}

} // verus!
