//! The commands of the programs.

use vstd::prelude::*;
use crate::text;

verus! {

/// The command line.
#[derive(Debug)]
pub struct Cli {
    pub command: Commands,
}

/// The commands.
#[derive(Debug)]
pub enum Commands {
    /// Download the sources of the crates.
    Download,
    /// Build the crates.
    Build,
    /// Compile the crates and try the updates of their dependencies.
    Compile,
    /// Prepare data.
    DataBatch(DataBatchCli),
}

/// Which data to prepare.
#[derive(Debug)]
pub struct DataBatchCli {
    pub category: String,
}

/// The data that can be prepared.
#[derive(Debug, Clone, Copy, PartialEq, Eq, Structural)]
pub enum BatchTask {
    /// Import the crate list.
    ImportBase,
    /// Read the versions from the index.
    HandleVersion,
    /// Leave the crates without dependencies out of the compile run.
    PrecompileSkipNoDeps,
}

impl BatchTask {
    pub open spec fn named(self) -> Seq<char> {
        match self {
            BatchTask::ImportBase => "import-base"@,
            BatchTask::HandleVersion => "handle-version"@,
            BatchTask::PrecompileSkipNoDeps => "precompile-skip-no-deps"@,
        }
    }
}

impl DataBatchCli {
    /// The task that the category names; none where it names none.
    pub fn task(&self) -> (r: Option<BatchTask>)
        ensures
            match r {
                Some(task) => self.category@ == task.named(),
                None => forall|task: BatchTask| self.category@ != #[trigger] task.named(),
            },
    {
        let category = self.category.as_str();
        if text::same_text(category, "import-base") {
            Some(BatchTask::ImportBase)
        } else if text::same_text(category, "handle-version") {
            Some(BatchTask::HandleVersion)
        } else if text::same_text(category, "precompile-skip-no-deps") {
            Some(BatchTask::PrecompileSkipNoDeps)
        } else {
            None
        }
    }
}

/// No two tasks have the same name.
pub proof fn law_task_names_differ(a: BatchTask, b: BatchTask)
    ensures
        a.named() == b.named() ==> a == b,
{
    reveal_strlit("import-base");
    reveal_strlit("handle-version");
    reveal_strlit("precompile-skip-no-deps");
    assert("import-base"@.len() == 11);
    assert("handle-version"@.len() == 14);
    assert("precompile-skip-no-deps"@.len() == 23);
}

/// Whether one of the arguments is `wanted`.
pub open spec fn asks_for(args: Seq<Seq<char>>, wanted: Seq<char>) -> bool {
    args.contains(wanted)
}

fn has_arg(args: &Vec<String>, wanted: &str) -> (found: bool)
    ensures
        found == asks_for(text::texts(args@), wanted@),
{
    let ghost all = text::texts(args@);
    let mut i: usize = 0;
    while i < args.len()
        invariant
            i <= args@.len(),
            all == text::texts(args@),
            forall|j: int| 0 <= j < i ==> all[j] != wanted@,
        decreases args@.len() - i,
    {
        assert(all[i as int] == args@[i as int]@);
        if text::same_text(args[i].as_str(), wanted) {
            return true;
        }
        i += 1;
    }
    false
}

/// Whether the arguments of the migration program ask for nothing but new
/// entities.
pub fn only_updates_entities(args: &Vec<String>) -> (yes: bool)
    ensures
        yes == asks_for(text::texts(args@), "update"@),
        yes <==> exists|i: int| 0 <= i < args@.len() && (#[trigger] args@[i])@ == "update"@,
{
    proof {
        law_argument_is_asked_for(args@, "update"@);
    }
    has_arg(args, "update")
}

/// Whether the entities change with the migrations that the arguments ask for.
pub fn should_update_entities(args: &Vec<String>) -> (yes: bool)
    ensures
        yes == (asks_for(text::texts(args@), "up"@) || asks_for(text::texts(args@), "refresh"@)
            || asks_for(text::texts(args@), "fresh"@)),
        yes <==> exists|i: int|
            0 <= i < args@.len() && ((#[trigger] args@[i])@ == "up"@ || args@[i]@ == "refresh"@
                || args@[i]@ == "fresh"@),
{
    proof {
        law_argument_is_asked_for(args@, "up"@);
        law_argument_is_asked_for(args@, "refresh"@);
        law_argument_is_asked_for(args@, "fresh"@);
    }
    has_arg(args, "up") || has_arg(args, "refresh") || has_arg(args, "fresh")
}

/// The arguments of the tool that writes the entities.
pub open spec fn entity_args(database_url: Seq<char>, output_dir: Seq<char>) -> Seq<Seq<char>> {
    seq![
        "generate"@,
        "entity"@,
        "-u"@,
        database_url,
        "-o"@,
        output_dir,
        "--with-serde"@,
        "both"@,
        "--expanded-format"@,
    ]
}

/// The arguments of the tool that writes the entities.
pub fn entity_tool_args(database_url: &str, output_dir: &str) -> (args: Vec<String>)
    ensures
        text::texts(args@) == entity_args(database_url@, output_dir@),
{
    let mut args: Vec<String> = Vec::new();
    args.push("generate".to_owned());
    args.push("entity".to_owned());
    args.push("-u".to_owned());
    args.push(database_url.to_owned());
    args.push("-o".to_owned());
    args.push(output_dir.to_owned());
    args.push("--with-serde".to_owned());
    args.push("both".to_owned());
    args.push("--expanded-format".to_owned());
    assert(text::texts(args@) =~= entity_args(database_url@, output_dir@));
    args
}

/// How a run of the tool that writes the entities went.
#[derive(Debug, Clone, Copy, PartialEq, Eq, Structural)]
pub enum EntityTool {
    Succeeded,
    Failed,
    /// The tool is not installed.
    NotFound,
    /// The tool could not be started.
    NotStarted,
}

/// What a run of that tool means for the migration program.
#[derive(Debug, Clone, Copy, PartialEq, Eq, Structural)]
pub enum EntityUpdate {
    Done,
    /// The entities stay as they are; the migrations still count.
    Skipped,
    /// The run ends with an error of its own.
    ToolFailed,
    /// The run ends with the error of the system.
    SystemError,
}

/// What a run of the tool means. A missing tool spoils nothing.
pub fn entity_update(tool: EntityTool) -> (update: EntityUpdate)
    ensures
        update == match tool {
            EntityTool::Succeeded => EntityUpdate::Done,
            EntityTool::NotFound => EntityUpdate::Skipped,
            EntityTool::Failed => EntityUpdate::ToolFailed,
            EntityTool::NotStarted => EntityUpdate::SystemError,
        },
{
    match tool {
        EntityTool::Succeeded => EntityUpdate::Done,
        EntityTool::NotFound => EntityUpdate::Skipped,
        EntityTool::Failed => EntityUpdate::ToolFailed,
        EntityTool::NotStarted => EntityUpdate::SystemError,
    }
}

/// Something is asked for exactly where one of the arguments is it, wherever it
/// stands.
pub proof fn law_argument_is_asked_for(args: Seq<String>, wanted: Seq<char>)
    ensures
        asks_for(text::texts(args), wanted) <==> exists|i: int|
            0 <= i < args.len() && (#[trigger] args[i])@ == wanted,
{
    let all = text::texts(args);
    if asks_for(all, wanted) {
        let i = choose|i: int| 0 <= i < all.len() && all[i] == wanted;
        assert(args[i]@ == wanted);
    }
    if exists|i: int| 0 <= i < args.len() && (#[trigger] args[i])@ == wanted {
        let i = choose|i: int| 0 <= i < args.len() && (#[trigger] args[i])@ == wanted;
        assert(all[i] == wanted);
    }
}

/// The names under which the tasks are asked for.
pub proof fn law_task_names(task: BatchTask)
    ensures
        task == BatchTask::ImportBase <==> task.named() == "import-base"@,
        task == BatchTask::HandleVersion <==> task.named() == "handle-version"@,
        task == BatchTask::PrecompileSkipNoDeps <==> task.named() == "precompile-skip-no-deps"@,
{
    law_task_names_differ(task, BatchTask::ImportBase);
    law_task_names_differ(task, BatchTask::HandleVersion);
    law_task_names_differ(task, BatchTask::PrecompileSkipNoDeps);
}

/// The entities are written for the given database into the given directory:
/// each of the two stands behind its flag, and nothing else depends on them.
pub proof fn law_entity_arguments(database_url: Seq<char>, output_dir: Seq<char>)
    ensures
        entity_args(database_url, output_dir).len() == 9,
        entity_args(database_url, output_dir).take(3) == seq!["generate"@, "entity"@, "-u"@],
        entity_args(database_url, output_dir)[3] == database_url,
        entity_args(database_url, output_dir)[4] == "-o"@,
        entity_args(database_url, output_dir)[5] == output_dir,
        entity_args(database_url, output_dir).skip(6) == seq![
            "--with-serde"@,
            "both"@,
            "--expanded-format"@,
        ],
{
    let args = entity_args(database_url, output_dir);
    assert(args.take(3) =~= seq!["generate"@, "entity"@, "-u"@]);
    assert(args.skip(6) =~= seq!["--with-serde"@, "both"@, "--expanded-format"@]);
}

} // verus!
