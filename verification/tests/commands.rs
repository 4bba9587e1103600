use asimov_module_cli::commands::batch::{deciding_failure, goes_on, OnFailure};
use asimov_module_cli::commands::find::{command_name, InstallProbe};
use asimov_module_cli::commands::install::{
    all_module_names, can_enable, missing_variables, wants_all, UnreadableVariable, VariableState,
};
use asimov_module_cli::commands::list::{cli_line, jsonl_line, output_format, rubygems, OutputFormat};
use asimov_module_cli::commands::uninstall::{
    is_installed, is_program_of, manifest_to_remove, removal_plan, uninstall_outcome,
    uninstall_targets, Removal, UninstallError,
};
use asimov_module_cli::commands::upgrade::{
    begin_upgrade, modules_to_upgrade, upgrade_decision, UpgradeDecision,
};
use asimov_module_cli::manifest::ConfigVariable;
use asimov_module_cli::registry::github::{Arch, InstallError, Libc, Os, PlatformTag};
use asimov_module_cli::registry::pipeline::{Action, Event, Stage};
use asimov_module_cli::registry::{ModuleMetadata, ModuleType};

fn strings(items: &[&str]) -> Vec<String> {
    items.iter().map(|s| s.to_string()).collect()
}

fn variable(name: &str, default_value: Option<&str>) -> ConfigVariable {
    ConfigVariable {
        name: name.to_string(),
        description: None,
        environment: None,
        default_value: default_value.map(|s| s.to_string()),
    }
}

fn platform() -> PlatformTag {
    PlatformTag { os: Os::Linux, arch: Arch::X86, libc: Some(Libc::Gnu) }
}

#[test]
fn test_extract_asimov_module_names() {
    let runtime = strings(&[
        "asimov-anthropic-module",
        "asimov-chromium-module",
        "asimov-goodreads-module",
        "asimov-module",
        "asimov-netscape-module",
        "asimov-openai-module",
        "asimov-rdf-module",
        "asimov-rdfs-module",
        "asimov-xsd-module",
    ]);
    let result = rubygems::extract_module_names(&runtime);
    assert_eq!(
        result,
        vec![
            "anthropic",
            "chromium",
            "goodreads",
            "netscape",
            "openai",
            "rdf",
            "rdfs",
            "xsd"
        ]
    );
    assert_eq!(
        rubygems::modules_url("25.0.0.dev.0"),
        "https://rubygems.org/api/v2/rubygems/asimov-modules/versions/25.0.0.dev.0.json"
    );
}

#[test]
fn command_names() {
    assert_eq!(command_name("apify"), "apify-module");
    assert_eq!(command_name(""), "-module");
}

#[test]
fn install_probe_depends_on_the_ecosystem() {
    let module = |kind| ModuleMetadata {
        name: "rdf".to_string(),
        version: "1".to_string(),
        kind,
        url: String::new(),
    };
    assert_eq!(
        module(ModuleType::Rust).install_probe(),
        InstallProbe::Command { name: "rdf-module".to_string() }
    );
    assert_eq!(
        module(ModuleType::Ruby).install_probe(),
        InstallProbe::RubyModule { name: "rdf".to_string() }
    );
    assert_eq!(
        module(ModuleType::Python).install_probe(),
        InstallProbe::PythonModule { name: "rdf".to_string() }
    );
}

#[test]
fn upgrade_to_the_installed_version_does_nothing() {
    let current = Some("1.2.3".to_string());
    assert_eq!(upgrade_decision(&current, "1.2.3"), UpgradeDecision::AlreadyCurrent);
    assert!(begin_upgrade("apify", &current, "1.2.3", platform()).is_none());
}

#[test]
fn upgrade_to_another_version_installs_it() {
    let current = Some("1.2.3".to_string());
    assert_eq!(upgrade_decision(&current, "1.2.4"), UpgradeDecision::Install);
    assert_eq!(upgrade_decision(&current, "1.2.3 "), UpgradeDecision::Install);
    assert_eq!(upgrade_decision(&current, "v1.2.3"), UpgradeDecision::Install);
    assert_eq!(upgrade_decision(&None, "1.2.3"), UpgradeDecision::Install);
    let mut installation = begin_upgrade("apify", &current, "1.2.4", platform()).unwrap();
    assert_eq!(installation.stage, Stage::Start);
    assert_eq!(installation.version.as_deref(), Some("1.2.4"));
    assert_eq!(installation.module, "apify");
    assert_eq!(
        installation.step(Event::Begin),
        Action::FetchManifest {
            url: "https://raw.githubusercontent.com/asimov-modules/asimov-apify-module/1.2.4/.asimov/module.yaml"
                .to_string()
        }
    );
}

#[test]
fn named_modules_are_upgraded_else_all_installed() {
    assert_eq!(modules_to_upgrade(strings(&["a"]), strings(&["b", "c"])), strings(&["a"]));
    assert_eq!(modules_to_upgrade(Vec::new(), strings(&["b", "c"])), strings(&["b", "c"]));
    assert!(modules_to_upgrade(Vec::new(), Vec::new()).is_empty());
}

#[test]
fn files_of_a_module() {
    let programs = strings(&["rdf-tool", "asimov-rdf-reader"]);
    assert!(is_program_of("rdf", &programs, "rdf-tool"));
    assert!(is_program_of("rdf", &programs, "asimov-rdf-reader"));
    assert!(is_program_of("rdf", &programs, "asimov-rdf-module"));
    assert!(is_program_of("rdf", &programs, "asimov-rdf"));
    assert!(is_program_of("rdf", &Vec::new(), "asimov-rdf-writer"));
    assert!(!is_program_of("rdf", &programs, "asimov-xsd-module"));
    assert!(!is_program_of("rdf", &programs, "rdf-tool2"));
    assert!(!is_program_of("rdf", &programs, "asimov-rd"));
    assert!(!is_program_of("rdf", &programs, ""));
    assert_eq!(manifest_to_remove("rdf"), "rdf.yaml");
}

#[test]
fn uninstall_removes_the_files_of_the_module_only() {
    let programs = strings(&["rdf-tool"]);
    let installed = strings(&[
        "asimov-apify-module",
        "asimov-rdf-module",
        "rdf-tool",
        "unrelated",
        "asimov-rdf-reader",
    ]);
    let targets = uninstall_targets("rdf", &programs, &installed);
    assert_eq!(targets, strings(&["asimov-rdf-module", "rdf-tool", "asimov-rdf-reader"]));
}

#[test]
fn uninstalling_twice_finds_nothing_the_second_time() {
    let programs = strings(&["rdf-tool"]);
    let installed = strings(&["asimov-apify-module", "asimov-rdf-module", "rdf-tool"]);
    let targets = uninstall_targets("rdf", &programs, &installed);
    let left: Vec<String> = installed.iter().filter(|f| !targets.contains(f)).cloned().collect();
    assert_eq!(left, strings(&["asimov-apify-module"]));
    assert!(uninstall_targets("rdf", &programs, &left).is_empty());
    assert!(uninstall_targets("rdf", &programs, &Vec::new()).is_empty());
}

#[test]
fn missing_files_do_not_fail_an_uninstall() {
    assert_eq!(uninstall_outcome(&vec![Removal::Removed, Removal::Missing]), Ok(()));
    assert_eq!(uninstall_outcome(&vec![Removal::Missing, Removal::Missing]), Ok(()));
    assert_eq!(uninstall_outcome(&Vec::new()), Ok(()));
}

#[test]
fn a_file_that_cannot_be_removed_fails_an_uninstall() {
    assert_eq!(
        uninstall_outcome(&vec![Removal::Removed, Removal::Failed, Removal::Missing, Removal::Failed]),
        Err(UninstallError::Io(1))
    );
    assert_eq!(uninstall_outcome(&vec![Removal::Failed]), Err(UninstallError::Io(0)));
}

#[test]
fn all_means_all_only_alone() {
    assert!(wants_all(&strings(&["all"])));
    assert!(!wants_all(&strings(&["all", "apify"])));
    assert!(!wants_all(&strings(&["ALL"])));
    assert!(!wants_all(&strings(&["apify"])));
    assert!(!wants_all(&Vec::new()));
}

#[test]
fn all_module_names_are_the_required_modules_of_the_collection() {
    let yaml = "name: all\nlabel: All modules\nrequires:\n  modules:\n    - apify\n    - rdf\n    - xsd\n";
    assert_eq!(all_module_names(200, yaml), Ok(strings(&["apify", "rdf", "xsd"])));
    assert_eq!(all_module_names(200, "name: lonely\n"), Ok(Vec::new()));
}

#[test]
fn all_module_names_fail_on_bad_answers() {
    let yaml = "name: all\nrequires:\n  modules:\n    - apify\n";
    assert_eq!(all_module_names(404, yaml), Err(InstallError::Network));
    assert_eq!(all_module_names(500, yaml), Err(InstallError::Network));
    assert_eq!(all_module_names(200, "requires: [unclosed"), Err(InstallError::Data));
    assert_eq!(all_module_names(200, "label: no name\n"), Err(InstallError::Data));
}

#[test]
fn variables_without_default_or_value_are_missing() {
    let variables = vec![
        variable("token", None),
        variable("region", Some("eu")),
        variable("account", None),
        variable("proxy", None),
    ];
    let states = vec![
        VariableState::Unconfigured,
        VariableState::Unconfigured,
        VariableState::Configured,
        VariableState::Unconfigured,
    ];
    let missing = missing_variables(&variables, &states).unwrap();
    assert_eq!(missing, vec![0, 3]);
    assert!(!can_enable(&missing));
}

#[test]
fn module_without_missing_variables_can_be_enabled() {
    let variables = vec![variable("token", None), variable("region", Some("eu"))];
    let states = vec![VariableState::Configured, VariableState::Unreadable];
    let missing = missing_variables(&variables, &states).unwrap();
    assert!(missing.is_empty());
    assert!(can_enable(&missing));
    assert!(can_enable(&missing_variables(&Vec::new(), &Vec::new()).unwrap()));
}

#[test]
fn unreadable_variable_fails() {
    let variables = vec![variable("a", None), variable("b", None), variable("c", None)];
    let states = vec![
        VariableState::Unconfigured,
        VariableState::Unreadable,
        VariableState::Unreadable,
    ];
    assert_eq!(missing_variables(&variables, &states), Err(UnreadableVariable { position: 1 }));
}

#[test]
fn variables_without_a_state_count_as_unconfigured() {
    let variables = vec![variable("a", None), variable("b", Some("x")), variable("c", None)];
    assert_eq!(missing_variables(&variables, &vec![VariableState::Configured]), Ok(vec![2]));
}

#[test]
fn output_formats() {
    assert_eq!(output_format("jsonl"), OutputFormat::Jsonl);
    assert_eq!(output_format("cli"), OutputFormat::Cli);
    assert_eq!(output_format("json"), OutputFormat::Cli);
    assert_eq!(output_format(""), OutputFormat::Cli);
}

#[test]
fn jsonl_line_of_a_module() {
    assert_eq!(
        jsonl_line("apify", "Apify", true, "0.1.1"),
        r#"{"@type": "AsimovModule", "@id": "https://asimov.directory/modules/apify", "name": "apify", "label": "Apify", "enabled": true, "version": "0.1.1"}"#
    );
    assert_eq!(
        jsonl_line("rdf", "", false, ""),
        r#"{"@type": "AsimovModule", "@id": "https://asimov.directory/modules/rdf", "name": "rdf", "label": "", "enabled": false, "version": ""}"#
    );
}

#[test]
fn cli_line_of_a_module() {
    assert_eq!(cli_line("apify", true), "✓ apify");
    assert_eq!(cli_line("apify", false), "✗ apify");
}

#[test]
fn batches_stop_or_go_on_after_a_failure() {
    assert!(goes_on(OnFailure::Stop, true));
    assert!(!goes_on(OnFailure::Stop, false));
    assert!(goes_on(OnFailure::Continue, true));
    assert!(goes_on(OnFailure::Continue, false));
    assert_eq!(deciding_failure(&vec![true, false, true, false]), Some(1));
    assert_eq!(deciding_failure(&vec![true, true]), None);
    assert_eq!(deciding_failure(&Vec::new()), None);
}

#[test]
fn installed_means_manifest_and_programs() {
    let files = strings(&["asimov-rdf-module", "rdf-tool", "asimov-xsd-reader"]);
    assert!(is_installed("rdf", &Vec::new(), &files, true));
    assert!(!is_installed("rdf", &Vec::new(), &files, false));
    assert!(!is_installed("xsd", &Vec::new(), &files, true));
    assert!(is_installed("xsd", &strings(&["asimov-xsd-reader"]), &files, true));
    assert!(!is_installed("xsd", &strings(&["asimov-xsd-reader", "asimov-xsd-writer"]), &files, true));
    assert!(is_installed("rdf", &strings(&["missing"]), &files, true));
    assert!(!is_installed("rdf", &Vec::new(), &Vec::new(), true));
}

#[test]
fn removed_module_is_not_installed() {
    let programs = strings(&["rdf-tool"]);
    let installed = strings(&["asimov-apify-module", "asimov-rdf-module", "rdf-tool"]);
    assert!(is_installed("rdf", &programs, &installed, true));
    let targets = uninstall_targets("rdf", &programs, &installed);
    let left: Vec<String> = installed.iter().filter(|f| !targets.contains(f)).cloned().collect();
    assert!(!is_installed("rdf", &programs, &left, true));
    assert!(!is_installed("rdf", &programs, &left, false));
    assert!(is_installed("apify", &Vec::new(), &left, true));
}

#[test]
fn removal_plan_lists_programs_and_manifest() {
    let programs = strings(&["rdf-tool"]);
    let installed = strings(&["asimov-apify-module", "asimov-rdf-module", "rdf-tool", "other"]);
    let (files, manifest) = removal_plan("rdf", &programs, &installed);
    assert_eq!(files, strings(&["asimov-rdf-module", "rdf-tool"]));
    assert_eq!(manifest, "rdf.yaml");
    let (files, manifest) = removal_plan("xsd", &Vec::new(), &installed);
    assert!(files.is_empty());
    assert_eq!(manifest, "xsd.yaml");
}
