//! The settings that the programs take from the environment.

use vstd::hash_map::StringHashMap;
use vstd::prelude::*;
use vstd::string::*;
use crate::project;
use crate::text;

verus! {

/// A snapshot of the environment.
pub struct Config {
    pub env: StringHashMap<String>,
}

impl View for Config {
    type V = Map<Seq<char>, Seq<char>>;

    open spec fn view(&self) -> Map<Seq<char>, Seq<char>> {
        text::text_map(self.env@)
    }
}

/// A setting that is missing.
#[derive(Debug)]
pub enum ConfigError {
    MissingEnv(String),
}

impl ConfigError {
    /// The message of the error.
    pub fn message(&self) -> (message: String)
        ensures
            match self {
                ConfigError::MissingEnv(key) => message@ == "missing env: "@ + key@,
            },
    {
        match self {
            ConfigError::MissingEnv(key) => "missing env: ".to_owned().concat(key.as_str()),
        }
    }
}

/// What a list of variables sets; of two settings of one variable the later
/// counts.
pub open spec fn settings(vars: Seq<(Seq<char>, Seq<char>)>) -> Map<Seq<char>, Seq<char>>
    decreases vars.len(),
{
    if vars.len() == 0 {
        Map::empty()
    } else {
        settings(vars.drop_last()).insert(vars.last().0, vars.last().1)
    }
}

impl Config {
    /// A snapshot of the given variables.
    pub fn from_vars(vars: Vec<(String, String)>) -> (config: Config)
        ensures
            config@ == settings(project::pairs(vars@)),
    {
        let ghost all = project::pairs(vars@);
        let mut env: StringHashMap<String> = StringHashMap::new();
        assert(text::text_map(env@) =~= Map::<Seq<char>, Seq<char>>::empty());
        assert(all.take(0) =~= Seq::<(Seq<char>, Seq<char>)>::empty());
        for var in it: vars
            invariant
                project::pairs(it.seq()) == all,
                text::text_map(env@) == settings(all.take(it.index())),
        {
            let ghost before = env@;
            assert(all.take(it.index() + 1).drop_last() =~= all.take(it.index()));
            assert(all.take(it.index() + 1).last() == (var.0@, var.1@));
            let (key, value) = var;
            env.insert(key, value);
            assert(text::text_map(env@) =~= text::text_map(before).insert(key@, value@));
        }
        assert(all.take(all.len() as int) =~= all);
        Config { env }
    }

    /// The value of a variable.
    pub fn get(&self, key: &str) -> (r: Option<&str>)
        ensures
            match r {
                Some(value) => self@.contains_key(key@) && value@ == self@[key@],
                None => !self@.contains_key(key@),
            },
    {
        match self.env.get(key) {
            Some(value) => Some(value.as_str()),
            None => None,
        }
    }

    /// The value of a variable that must be set.
    pub fn require(&self, key: &str) -> (r: Result<String, ConfigError>)
        ensures
            match r {
                Ok(value) => self@.contains_key(key@) && value@ == self@[key@],
                Err(ConfigError::MissingEnv(missing)) => !self@.contains_key(key@) && missing@
                    == key@,
            },
    {
        match self.get(key) {
            Some(value) => Ok(value.to_owned()),
            None => Err(ConfigError::MissingEnv(key.to_owned())),
        }
    }
}

/// The value of a variable, or what stands for it where it is not set.
pub open spec fn value_or(env: Map<Seq<char>, Seq<char>>, key: Seq<char>, default: Seq<char>) -> Seq<
    char,
> {
    if env.contains_key(key) {
        env[key]
    } else {
        default
    }
}

/// What every command needs.
#[derive(Debug)]
pub struct MainSettings {
    pub database_url: String,
    pub download_dir: String,
}

/// Reads what every command needs. The database is missed first.
pub fn main_settings(config: &Config) -> (r: Result<MainSettings, ConfigError>)
    ensures
        match r {
            Ok(s) => {
                &&& config@.contains_key("DATABASE_URL"@)
                &&& config@.contains_key("DOWNLOAD_DIR"@)
                &&& s.database_url@ == config@["DATABASE_URL"@]
                &&& s.download_dir@ == config@["DOWNLOAD_DIR"@]
            },
            Err(ConfigError::MissingEnv(missing)) => {
                &&& missing@ == if config@.contains_key("DATABASE_URL"@) {
                    "DOWNLOAD_DIR"@
                } else {
                    "DATABASE_URL"@
                }
                &&& !config@.contains_key(missing@)
            },
        },
{
    let database_url = match config.require("DATABASE_URL") {
        Ok(url) => url,
        Err(e) => return Err(e),
    };
    match config.require("DOWNLOAD_DIR") {
        Ok(download_dir) => Ok(MainSettings { database_url, download_dir }),
        Err(e) => Err(e),
    }
}

/// The directories that the compile run works in.
#[derive(Debug)]
pub struct CompileSettings {
    /// Where the crates are.
    pub download_dir: String,
    /// Where the target directories are made.
    pub cargo_target_base: String,
    /// Where the cargo homes are made.
    pub cargo_home_base: String,
}

/// Reads the directories of the compile run.
pub fn compile_settings(config: &Config) -> (r: Result<CompileSettings, ConfigError>)
    ensures
        match r {
            Ok(s) => {
                &&& config@.contains_key("DOWNLOAD_DIR"@)
                &&& s.download_dir@ == config@["DOWNLOAD_DIR"@]
                &&& s.cargo_target_base@ == value_or(
                    config@,
                    "CARGO_TARGET_BASE_DIR"@,
                    "/var/tmp/cargo-target"@,
                )
                &&& s.cargo_home_base@ == value_or(
                    config@,
                    "CARGO_HOME_BASE_DIR"@,
                    "/var/tmp/cargo-home"@,
                )
                &&& config@.contains_key("CARGO_TARGET_BASE_DIR"@) ==> s.cargo_target_base@
                    == config@["CARGO_TARGET_BASE_DIR"@]
                &&& !config@.contains_key("CARGO_TARGET_BASE_DIR"@) ==> s.cargo_target_base@
                    == "/var/tmp/cargo-target"@
                &&& config@.contains_key("CARGO_HOME_BASE_DIR"@) ==> s.cargo_home_base@
                    == config@["CARGO_HOME_BASE_DIR"@]
                &&& !config@.contains_key("CARGO_HOME_BASE_DIR"@) ==> s.cargo_home_base@
                    == "/var/tmp/cargo-home"@
            },
            Err(ConfigError::MissingEnv(missing)) => missing@ == "DOWNLOAD_DIR"@
                && !config@.contains_key("DOWNLOAD_DIR"@),
        },
{
    let download_dir = match config.require("DOWNLOAD_DIR") {
        Ok(dir) => dir,
        Err(e) => return Err(e),
    };
    let cargo_target_base = match config.get("CARGO_TARGET_BASE_DIR") {
        Some(dir) => dir.to_owned(),
        None => "/var/tmp/cargo-target".to_owned(),
    };
    let cargo_home_base = match config.get("CARGO_HOME_BASE_DIR") {
        Some(dir) => dir.to_owned(),
        None => "/var/tmp/cargo-home".to_owned(),
    };
    Ok(CompileSettings { download_dir, cargo_target_base, cargo_home_base })
}

/// A file of settings: where it is, from the root of the workspace, and whether
/// it takes precedence over what is set already.
#[derive(Debug)]
pub struct EnvFile {
    pub rel_path: Vec<String>,
    pub overrides: bool,
}

/// The files of settings, in the order in which they are loaded.
pub fn env_files() -> (files: Vec<EnvFile>)
    ensures
        files@.len() == 2,
        text::texts(files@[0].rel_path@) == seq![".env"@],
        !files@[0].overrides,
        text::texts(files@[1].rel_path@) == seq!["datahandle"@, "data_import"@, ".env"@],
        files@[1].overrides,
{
    let mut root: Vec<String> = Vec::new();
    root.push(".env".to_owned());
    assert(text::texts(root@) =~= seq![".env"@]);
    let mut import: Vec<String> = Vec::new();
    import.push("datahandle".to_owned());
    import.push("data_import".to_owned());
    import.push(".env".to_owned());
    assert(text::texts(import@) =~= seq!["datahandle"@, "data_import"@, ".env"@]);
    let mut files: Vec<EnvFile> = Vec::new();
    files.push(EnvFile { rel_path: root, overrides: false });
    files.push(EnvFile { rel_path: import, overrides: true });
    files
}

/// The message of the error for a file of settings that cannot be loaded.
pub fn env_file_error(path: &str, cause: &str) -> (message: String)
    ensures
        message@ == "failed to load dotenv from "@ + path@ + ": "@ + cause@,
{
    "failed to load dotenv from ".to_owned().concat(path).concat(": ").concat(cause)
}

/// What came of a file of settings.
#[derive(Debug, Clone, Copy, PartialEq, Eq, Structural)]
pub enum EnvLoad {
    /// The file is not there.
    Absent,
    Loaded,
    Failed,
}

/// Whether the settings are looked for elsewhere, because no file was loaded.
pub fn needs_default_env(loads: &Vec<EnvLoad>) -> (needed: bool)
    ensures
        needed == !loads@.contains(EnvLoad::Loaded),
{
    let mut i: usize = 0;
    while i < loads.len()
        invariant
            i <= loads@.len(),
            forall|j: int| 0 <= j < i ==> loads@[j] != EnvLoad::Loaded,
        decreases loads@.len() - i,
    {
        if loads[i] == EnvLoad::Loaded {
            return false;
        }
        i += 1;
    }
    true
}

proof fn lemma_settings(vars: Seq<(Seq<char>, Seq<char>)>, i: int, n: int)
    requires
        0 <= i < n <= vars.len(),
        forall|j: int| i < j < n ==> (#[trigger] vars[j]).0 != vars[i].0,
    ensures
        settings(vars.take(n)).contains_key(vars[i].0),
        settings(vars.take(n))[vars[i].0] == vars[i].1,
    decreases n,
{
    assert(vars.take(n).drop_last() =~= vars.take(n - 1));
    assert(vars.take(n).last() == vars[n - 1]);
    if i < n - 1 {
        lemma_settings(vars, i, n - 1);
    }
}

/// A variable has the value that was set last.
pub proof fn law_last_setting_counts(vars: Seq<(Seq<char>, Seq<char>)>, i: int)
    requires
        0 <= i < vars.len(),
        forall|j: int| i < j < vars.len() ==> (#[trigger] vars[j]).0 != vars[i].0,
    ensures
        settings(vars).contains_key(vars[i].0),
        settings(vars)[vars[i].0] == vars[i].1,
{
    assert(vars.take(vars.len() as int) =~= vars);
    lemma_settings(vars, i, vars.len() as int);
}

/// A variable that was not set has no value.
pub proof fn law_unset_variable(vars: Seq<(Seq<char>, Seq<char>)>, key: Seq<char>)
    requires
        forall|j: int| 0 <= j < vars.len() ==> (#[trigger] vars[j]).0 != key,
    ensures
        !settings(vars).contains_key(key),
    decreases vars.len(),
{
    if vars.len() > 0 {
        let before = vars.drop_last();
        assert forall|j: int| 0 <= j < before.len() implies (#[trigger] before[j]).0 != key by {
            assert(before[j] == vars[j]);
        }
        law_unset_variable(before, key);
        assert(vars[vars.len() - 1].0 != key);
    }
}

/// A snapshot knows the variables that it holds, with their values, and no
/// others.
pub proof fn law_config_says_what_it_holds(config: Config, key: Seq<char>)
    ensures
        config@.contains_key(key) <==> config.env@.contains_key(key),
        config.env@.contains_key(key) ==> config@[key] == config.env@[key]@,
{
}

/// A variable that is set counts as it is set, even where it is empty; only one
/// that is not set has the default.
pub proof fn law_default_only_where_unset(
    env: Map<Seq<char>, Seq<char>>,
    key: Seq<char>,
    value: Seq<char>,
    default: Seq<char>,
)
    ensures
        value_or(env.insert(key, value), key, default) == value,
        value_or(env.remove(key), key, default) == default,
{
}

} // verus!
