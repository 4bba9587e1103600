use asimov_module_cli::registry::catalog::{
    collect_available, collect_modules, compare, merge_modules, Cause, Order, RegistryError,
};
use asimov_module_cli::registry::http::{
    ALL_MODULES_URL, CONNECT_TIMEOUT_SECS, CRATES_INDEX_URL, PYPI_COLLECTION_VERSION,
    READ_TIMEOUT_SECS, RUBYGEMS_COLLECTION_VERSION, USER_AGENT,
};
use asimov_module_cli::registry::crates::{
    last_filled_line, newest_entry, CrateVersion, Dependency,
};
use asimov_module_cli::registry::pypi::{package_of, PackageInfo};
use asimov_module_cli::registry::rubygems::{modules_of_gem, GemSummary};
use asimov_module_cli::registry::{
    crates, find_module, module_name, module_names, modules_of, pypi, rubygems, ModuleMetadata,
    ModuleType,
};

fn names(modules: &[ModuleMetadata]) -> Vec<String> {
    modules.iter().map(|m| m.name.clone()).collect()
}

fn entry(name: &str, kind: ModuleType) -> ModuleMetadata {
    ModuleMetadata {
        name: name.to_string(),
        version: "1.0.0".to_string(),
        kind,
        url: kind.package_url(&format!("asimov-{name}-module")),
    }
}

fn dependency(name: &str, req: &str, kind: &str) -> Dependency {
    Dependency {
        name: name.to_string(),
        req: req.to_string(),
        optional: false,
        kind: kind.to_string(),
    }
}

#[test]
fn crates_test_extract_module_names() {
    let crate_version = CrateVersion {
        name: "asimov-modules".to_string(),
        vers: "25.0.0-dev.0".to_string(),
        deps: vec![
            dependency("asimov-foobar-module", "^25", "normal"),
            dependency("shadow-rs", "^1.0", "build"),
        ],
        yanked: false,
    };
    let result: Vec<String> = crates::extract_module_names(&crate_version)
        .iter()
        .map(|m| m.name.clone())
        .collect();
    assert_eq!(result, vec!["foobar"]);
}

#[test]
fn crates_entries_carry_version_type_and_page() {
    let crate_version = CrateVersion {
        name: "asimov-modules".to_string(),
        vers: "25.0.0-dev.0".to_string(),
        deps: vec![dependency("asimov-foobar-module", "^25", "normal")],
        yanked: false,
    };
    let modules = crates::extract_module_names(&crate_version);
    assert_eq!(modules.len(), 1);
    assert_eq!(modules[0].name, "foobar");
    assert_eq!(modules[0].version, "25.0.0-dev.0");
    assert_eq!(modules[0].kind, ModuleType::Rust);
    assert_eq!(modules[0].url, "https://crates.io/crates/asimov-foobar-module");
}

#[test]
fn pypi_test_extract_module_names() {
    let info = PackageInfo {
        name: "asimov-modules".to_string(),
        version: "25.0.0.dev0".to_string(),
        requires_dist: Some(vec![
            "asimov-mlx-module".to_string(),
            "asimov-gpu-module>=1.0.0".to_string(),
            "asimov-cpu-module; python_version >= '3.13'".to_string(),
            "numpy>=1.20.0".to_string(),
            "other-package".to_string(),
        ]),
    };
    let result = pypi::extract_module_names(&info);
    assert_eq!(names(&result), vec!["mlx", "gpu", "cpu"]);
    assert_eq!(result[1].url, "https://pypi.org/project/asimov-gpu-module/");
    assert_eq!(result[1].version, "25.0.0.dev0");
    assert_eq!(result[1].kind, ModuleType::Python);
}

#[test]
fn test_no_dependencies() {
    let info = PackageInfo {
        name: "asimov-modules".to_string(),
        version: "25.0.0.dev0".to_string(),
        requires_dist: None,
    };
    let result = pypi::extract_module_names(&info);
    assert!(result.is_empty());
}

#[test]
fn test_empty_dependencies() {
    let info = PackageInfo {
        name: "asimov-modules".to_string(),
        version: "25.0.0.dev0".to_string(),
        requires_dist: Some(Vec::new()),
    };
    let result = pypi::extract_module_names(&info);
    assert!(result.is_empty());
}

#[test]
fn requirement_names() {
    assert_eq!(package_of("asimov-gpu-module>=1.0.0"), "asimov-gpu-module");
    assert_eq!(package_of("asimov-x-module[extra]"), "asimov-x-module");
    assert_eq!(package_of("asimov-x-module <2"), "asimov-x-module");
    assert_eq!(package_of("asimov-x-module;python_version<'3'"), "asimov-x-module");
    assert_eq!(package_of("asimov-x-module==1.0"), "asimov-x-module==1.0");
    assert_eq!(package_of("plain"), "plain");
    assert_eq!(package_of(""), "");
    assert_eq!(package_of(" leading"), "");
}

#[test]
fn rubygems_test_extract_module_names() {
    let json = r#"{
            "version": "0.0.0",
            "dependencies": {
                "development": [
                    {
                        "name": "rake",
                        "requirements": ">= 13"
                    }
                ],
                "runtime": [
                    {
                        "name": "asimov-anthropic-module",
                        "requirements": ">= 0"
                    },
                    {
                        "name": "asimov-chromium-module",
                        "requirements": ">= 0"
                    },
                    {
                        "name": "asimov-goodreads-module",
                        "requirements": ">= 0"
                    },
                    {
                        "name": "asimov-module",
                        "requirements": ">= 25.0.0.dev"
                    },
                    {
                        "name": "asimov-netscape-module",
                        "requirements": ">= 0"
                    },
                    {
                        "name": "asimov-openai-module",
                        "requirements": ">= 0"
                    },
                    {
                        "name": "asimov-rdf-module",
                        "requirements": ">= 0"
                    },
                    {
                        "name": "asimov-rdfs-module",
                        "requirements": ">= 0"
                    },
                    {
                        "name": "asimov-xsd-module",
                        "requirements": ">= 0"
                    }
                ]
            }
        }"#;

    let result: Vec<String> = rubygems::extract_module_names(json)
        .unwrap()
        .iter()
        .map(|m| m.name.clone())
        .collect();
    assert_eq!(
        result,
        vec![
            "anthropic",
            "chromium",
            "goodreads",
            "netscape",
            "openai",
            "rdf",
            "rdfs",
            "xsd"
        ]
    );
}

#[test]
fn rubygems_reads_version_and_runtime_dependencies_only() {
    let json = r#"{"version": "25.1.0", "dependencies": {
        "development": [{"name": "asimov-dev-module", "requirements": ">= 0"}],
        "runtime": [{"name": "asimov-rdf-module", "requirements": ">= 0"}]}}"#;
    let modules = rubygems::extract_module_names(json).unwrap();
    assert_eq!(modules.len(), 1);
    assert_eq!(modules[0].name, "rdf");
    assert_eq!(modules[0].version, "25.1.0");
    assert_eq!(modules[0].kind, ModuleType::Ruby);
    assert_eq!(modules[0].url, "https://rubygems.org/gems/asimov-rdf-module");
}

#[test]
fn rubygems_fails_on_what_is_no_gem_description() {
    assert!(rubygems::extract_module_names("").is_err());
    assert!(rubygems::extract_module_names("not json").is_err());
    assert!(rubygems::extract_module_names("[]").is_err());
    assert!(rubygems::extract_module_names(r#"{"version": "1"}"#).is_err());
    assert!(rubygems::extract_module_names(r#"{"dependencies": {"runtime": []}}"#).is_err());
    assert!(rubygems::extract_module_names(r#"{"version": "1", "dependencies": {}}"#)
        .unwrap()
        .is_empty());
}

#[test]
fn modules_of_a_gem_summary() {
    let gem = GemSummary {
        version: "2.0".to_string(),
        runtime: vec!["rake".to_string(), "asimov-openai-module".to_string()],
    };
    let modules = modules_of_gem(&gem);
    assert_eq!(names(&modules), vec!["openai"]);
    assert_eq!(modules[0].version, "2.0");
}

#[test]
fn module_names_need_both_affixes() {
    assert_eq!(module_name("asimov-foobar-module"), Some("foobar".to_string()));
    assert_eq!(module_name("asimov-foo-bar-module"), Some("foo-bar".to_string()));
    assert_eq!(module_name("asimov--module"), Some(String::new()));
    assert_eq!(module_name("asimov-module"), None);
    assert_eq!(module_name("asimov-foobar"), None);
    assert_eq!(module_name("foobar-module"), None);
    assert_eq!(module_name("Asimov-foobar-module"), None);
    assert_eq!(module_name("asimov-foobar-modules"), None);
    assert_eq!(module_name(""), None);
}

#[test]
fn module_lists() {
    let packages: Vec<String> = ["asimov-a-module", "b", "asimov-module", "asimov-c-module"]
        .iter()
        .map(|s| s.to_string())
        .collect();
    assert_eq!(module_names(&packages), vec!["a", "c"]);
    let modules = modules_of(&packages, "3.1", ModuleType::Ruby);
    assert_eq!(names(&modules), vec!["a", "c"]);
    assert_eq!(modules[1].url, "https://rubygems.org/gems/asimov-c-module");
    assert_eq!(modules[1].version, "3.1");
}

#[test]
fn index_urls() {
    assert_eq!(
        rubygems::modules_url("25.0.0.dev.0"),
        "https://rubygems.org/api/v2/rubygems/asimov-modules/versions/25.0.0.dev.0.json"
    );
    assert_eq!(
        pypi::modules_url("25.0.0.dev0"),
        "https://pypi.org/pypi/asimov-modules/25.0.0.dev0/json"
    );
    assert_eq!(ModuleType::Rust.to_string(), "rust");
    assert_eq!(ModuleType::Ruby.to_string(), "ruby");
    assert_eq!(ModuleType::Python.to_string(), "python");
}

#[test]
fn newest_entry_is_the_last_filled_line() {
    assert_eq!(newest_entry("{\"a\":1}\n{\"b\":2}\n"), "{\"b\":2}");
    assert_eq!(newest_entry("{\"a\":1}\n{\"b\":2}"), "{\"b\":2}");
    assert_eq!(newest_entry("{\"a\":1}\r\n{\"b\":2}\r\n  \n\t\n"), "{\"b\":2}");
    assert_eq!(newest_entry("one\n two \n\n"), " two ");
    assert_eq!(newest_entry("only"), "only");
    assert_eq!(newest_entry("last\r"), "last\r");
    assert_eq!(newest_entry(""), "");
    assert_eq!(newest_entry("\n \n\r\n"), "");
    let text: Vec<char> = "ab\ncd\n\n".chars().collect();
    assert_eq!(last_filled_line(&text), Some((3, 5)));
    assert_eq!(last_filled_line(&Vec::new()), None);
}

#[test]
fn texts_compare_as_in_the_dictionary() {
    let c = |s: &str| s.chars().collect::<Vec<char>>();
    assert_eq!(compare(&c("abc"), &c("abd")), Order::Before);
    assert_eq!(compare(&c("abd"), &c("abc")), Order::After);
    assert_eq!(compare(&c("abc"), &c("abc")), Order::Same);
    assert_eq!(compare(&c("ab"), &c("abc")), Order::Before);
    assert_eq!(compare(&c("abc"), &c("ab")), Order::After);
    assert_eq!(compare(&c(""), &c("")), Order::Same);
    assert_eq!(compare(&c(""), &c("a")), Order::Before);
    assert_eq!(compare(&c("Z"), &c("a")), Order::Before);
    assert_eq!(compare(&c("z"), &c("é")), Order::Before);
}

#[test]
fn catalogue_is_ordered_by_name() {
    let rust = vec![entry("openai", ModuleType::Rust), entry("apify", ModuleType::Rust)];
    let ruby = vec![entry("rdf", ModuleType::Ruby), entry("chromium", ModuleType::Ruby)];
    let python = vec![entry("mlx", ModuleType::Python)];
    let catalogue = merge_modules(&rust, &ruby, &python);
    assert_eq!(names(&catalogue), vec!["apify", "chromium", "mlx", "openai", "rdf"]);
    let mut sorted = names(&catalogue);
    sorted.sort();
    assert_eq!(names(&catalogue), sorted);
}

#[test]
fn catalogue_names_each_module_once() {
    let rust = vec![entry("rdf", ModuleType::Rust), entry("rdf", ModuleType::Rust)];
    let ruby = vec![entry("rdf", ModuleType::Ruby), entry("xsd", ModuleType::Ruby)];
    let python = vec![entry("xsd", ModuleType::Python), entry("abc", ModuleType::Python)];
    let catalogue = merge_modules(&rust, &ruby, &python);
    assert_eq!(names(&catalogue), vec!["abc", "rdf", "xsd"]);
    assert_eq!(catalogue[0].kind, ModuleType::Python);
    assert_eq!(catalogue[1].kind, ModuleType::Rust);
    assert_eq!(catalogue[2].kind, ModuleType::Ruby);
    assert!(merge_modules(&Vec::new(), &Vec::new(), &Vec::new()).is_empty());
}

#[test]
fn failure_of_one_index_is_reported_as_its_own() {
    let fetch = RegistryError { index: ModuleType::Ruby, cause: Cause::Fetch };
    let parse = RegistryError { index: ModuleType::Python, cause: Cause::Parse };
    let join = RegistryError { index: ModuleType::Rust, cause: Cause::Join };
    let some = || Ok(vec![entry("rdf", ModuleType::Rust)]);
    assert_eq!(collect_modules(some(), Err(fetch), Err(parse)).unwrap_err(), fetch);
    assert_eq!(collect_modules(some(), some(), Err(parse)).unwrap_err(), parse);
    assert_eq!(collect_modules(Err(join), Err(fetch), some()).unwrap_err(), join);
    assert_eq!(names(&collect_modules(some(), some(), some()).unwrap()), vec!["rdf"]);
    assert_eq!(fetch.exit_code(), 69);
    assert_eq!(parse.exit_code(), 65);
    assert_eq!(join.exit_code(), 70);
}

#[test]
fn find_module_gives_the_first_of_that_name() {
    let modules = vec![
        entry("apify", ModuleType::Rust),
        entry("rdf", ModuleType::Ruby),
        entry("rdf", ModuleType::Python),
    ];
    assert_eq!(find_module(&modules, "rdf"), Some(1));
    assert_eq!(find_module(&modules, "apify"), Some(0));
    assert_eq!(find_module(&modules, "rd"), None);
    assert_eq!(find_module(&Vec::new(), "rdf"), None);
}

#[test]
fn available_indexes_are_listed_when_others_fail() {
    let fetch = RegistryError { index: ModuleType::Ruby, cause: Cause::Fetch };
    let parse = RegistryError { index: ModuleType::Python, cause: Cause::Parse };
    let (catalogue, failures) = collect_available(
        Ok(vec![entry("rdf", ModuleType::Rust), entry("apify", ModuleType::Rust)]),
        Err(fetch),
        Ok(vec![entry("mlx", ModuleType::Python), entry("rdf", ModuleType::Python)]),
    );
    assert_eq!(names(&catalogue), vec!["apify", "mlx", "rdf"]);
    assert_eq!(catalogue[2].kind, ModuleType::Rust);
    assert_eq!(failures, vec![fetch]);
    let (catalogue, failures) = collect_available(Err(fetch), Err(parse), Err(fetch));
    assert!(catalogue.is_empty());
    assert_eq!(failures, vec![fetch, parse, fetch]);
    let (catalogue, failures) = collect_available(Ok(Vec::new()), Ok(Vec::new()), Ok(Vec::new()));
    assert!(catalogue.is_empty());
    assert!(failures.is_empty());
}

#[test]
fn request_settings() {
    assert_eq!(USER_AGENT, "asimov-module-cli");
    assert_eq!(CONNECT_TIMEOUT_SECS, 10);
    assert_eq!(READ_TIMEOUT_SECS, 30);
    assert_eq!(CRATES_INDEX_URL, "https://index.crates.io/as/im/asimov-cli");
    assert_eq!(
        ALL_MODULES_URL,
        "https://github.com/asimov-modules/asimov-modules/raw/master/all/.asimov/module.yaml"
    );
    assert_eq!(RUBYGEMS_COLLECTION_VERSION, "25.0.0.dev.0");
    assert_eq!(PYPI_COLLECTION_VERSION, "25.0.0.dev0");
}
