use crates_io::cli::{
    entity_tool_args, entity_update, only_updates_entities, should_update_entities, BatchTask,
    Cli, Commands, DataBatchCli, EntityTool, EntityUpdate,
};
use crates_io::config::{
    compile_settings, env_file_error, env_files, main_settings, needs_default_env, Config,
    ConfigError, EnvLoad,
};
use crates_io::toolchain::{
    after_install, after_list, install_args, install_error, list_args, ToolchainStep,
};

fn config(vars: &[(&str, &str)]) -> Config {
    Config::from_vars(vars.iter().map(|(k, v)| (k.to_string(), v.to_string())).collect())
}

fn strings(parts: &[&str]) -> Vec<String> {
    parts.iter().map(|p| p.to_string()).collect()
}

#[test]
fn variables_are_read_and_the_last_setting_counts() {
    let config = config(&[("A", "1"), ("B", ""), ("A", "2")]);
    assert_eq!(config.get("A"), Some("2"));
    assert_eq!(config.get("B"), Some(""));
    assert_eq!(config.get("a"), None);
    assert_eq!(config.require("A").unwrap(), "2");
    assert_eq!(config.env.len(), 2);
}

#[test]
fn missing_variable_is_named() {
    let error = config(&[]).require("DATABASE_URL").unwrap_err();
    assert!(matches!(&error, ConfigError::MissingEnv(key) if key == "DATABASE_URL"));
    assert_eq!(error.message(), "missing env: DATABASE_URL");
}

#[test]
fn commands_need_a_database_and_a_download_directory() {
    let full = main_settings(&config(&[("DATABASE_URL", "u"), ("DOWNLOAD_DIR", "d")])).unwrap();
    assert_eq!(full.database_url, "u");
    assert_eq!(full.download_dir, "d");
    let none = main_settings(&config(&[])).unwrap_err();
    assert_eq!(none.message(), "missing env: DATABASE_URL");
    let half = main_settings(&config(&[("DATABASE_URL", "u")])).unwrap_err();
    assert_eq!(half.message(), "missing env: DOWNLOAD_DIR");
}

#[test]
fn compile_directories_have_defaults() {
    let plain = compile_settings(&config(&[("DOWNLOAD_DIR", "d")])).unwrap();
    assert_eq!(plain.download_dir, "d");
    assert_eq!(plain.cargo_target_base, "/var/tmp/cargo-target");
    assert_eq!(plain.cargo_home_base, "/var/tmp/cargo-home");
    let set = compile_settings(&config(&[
        ("DOWNLOAD_DIR", "d"),
        ("CARGO_TARGET_BASE_DIR", "t"),
        ("CARGO_HOME_BASE_DIR", "h"),
    ]))
    .unwrap();
    assert_eq!(set.cargo_target_base, "t");
    assert_eq!(set.cargo_home_base, "h");
    assert_eq!(
        compile_settings(&config(&[])).unwrap_err().message(),
        "missing env: DOWNLOAD_DIR"
    );
}

#[test]
fn env_files_are_loaded_in_order() {
    let files = env_files();
    assert_eq!(files.len(), 2);
    assert_eq!(files[0].rel_path.join("/"), ".env");
    assert!(!files[0].overrides);
    assert_eq!(files[1].rel_path.join("/"), "datahandle/data_import/.env");
    assert!(files[1].overrides);
    assert_eq!(env_file_error("/x/.env", "bad"), "failed to load dotenv from /x/.env: bad");
}

#[test]
fn default_env_is_looked_for_when_no_file_was_loaded() {
    assert!(needs_default_env(&vec![]));
    assert!(needs_default_env(&vec![EnvLoad::Absent, EnvLoad::Failed]));
    assert!(!needs_default_env(&vec![EnvLoad::Failed, EnvLoad::Loaded]));
}

#[test]
fn categories_name_tasks() {
    let task = |category: &str| DataBatchCli { category: category.to_string() }.task();
    assert_eq!(task("import-base"), Some(BatchTask::ImportBase));
    assert_eq!(task("handle-version"), Some(BatchTask::HandleVersion));
    assert_eq!(task("precompile-skip-no-deps"), Some(BatchTask::PrecompileSkipNoDeps));
    assert_eq!(task("Import-Base"), None);
    assert_eq!(task(""), None);
    let cli = Cli { command: Commands::DataBatch(DataBatchCli { category: String::new() }) };
    assert!(matches!(cli.command, Commands::DataBatch(_)));
}

#[test]
fn migration_arguments_decide_about_entities() {
    assert!(only_updates_entities(&strings(&["prog", "update"])));
    assert!(!only_updates_entities(&strings(&["prog", "up"])));
    assert!(should_update_entities(&strings(&["prog", "up", "-n", "1"])));
    assert!(should_update_entities(&strings(&["prog", "refresh"])));
    assert!(should_update_entities(&strings(&["prog", "fresh"])));
    assert!(!should_update_entities(&strings(&["prog", "down"])));
    assert!(!should_update_entities(&strings(&["prog", "upp", "status"])));
}

#[test]
fn entity_tool_is_called_with_its_arguments() {
    assert_eq!(
        entity_tool_args("postgres://x", "/out").join(" "),
        "generate entity -u postgres://x -o /out --with-serde both --expanded-format"
    );
    assert_eq!(entity_update(EntityTool::Succeeded), EntityUpdate::Done);
    assert_eq!(entity_update(EntityTool::NotFound), EntityUpdate::Skipped);
    assert_eq!(entity_update(EntityTool::Failed), EntityUpdate::ToolFailed);
    assert_eq!(entity_update(EntityTool::NotStarted), EntityUpdate::SystemError);
}

#[test]
fn listed_toolchain_is_not_installed_again() {
    let list = "stable-x86_64-unknown-linux-gnu (default)\r\n1.95.0-x86_64-unknown-linux-gnu\n";
    assert_eq!(after_list(true, list, "1.95.0"), ToolchainStep::Ready);
    assert_eq!(after_list(false, list, "1.95.0"), ToolchainStep::Install);
    assert_eq!(after_list(true, list, "1.96.0"), ToolchainStep::Install);
    assert_eq!(after_list(true, "x-1.95.0\n", "1.95.0"), ToolchainStep::Install);
    assert_eq!(after_list(true, "", "1.95.0"), ToolchainStep::Install);
}

#[test]
fn installation_decides() {
    assert_eq!(after_install(true), ToolchainStep::Ready);
    assert_eq!(after_install(false), ToolchainStep::Failed);
    assert_eq!(install_error("1.95.0"), "Failed to install rust toolchain: 1.95.0");
    assert_eq!(list_args().join(" "), "toolchain list");
    assert_eq!(install_args("1.95.0").join(" "), "toolchain install 1.95.0");
}
