use debian_lsp::control::completion::completions_in;
use debian_lsp::control::completion::get_completions;
use debian_lsp::control::completion::get_field_completions;
use debian_lsp::control::completion::get_package_completions;
use debian_lsp::control::completion::CompletionItemKind;
use debian_lsp::control::detection::is_control_file;
use debian_lsp::control::detection::is_control_path;
use debian_lsp::control::fields::all_fields;
use debian_lsp::control::fields::common_packages;
use debian_lsp::control::fields::get_standard_field_name;
use debian_lsp::control::fields::ControlField;
use debian_lsp::position::Position;
use debian_lsp::session::server_capabilities;
use debian_lsp::session::TextDocumentSyncKind;
use debian_lsp::strings::eq_ignoring_ascii_case;
use debian_lsp::strings::str_eq;

#[test]
fn test_get_completions_for_control_file() {
    let uri = "file:///path/to/debian/control";
    let position = Position { line: 0, character: 0 };

    let completions = get_completions(uri, position);
    assert!(!completions.is_empty());

    let field_count = completions
        .iter()
        .filter(|c| c.kind == Some(CompletionItemKind::Field))
        .count();
    let package_count = completions
        .iter()
        .filter(|c| c.kind == Some(CompletionItemKind::Value))
        .count();

    assert!(field_count > 0);
    assert!(package_count > 0);
}

#[test]
fn test_get_completions_for_non_control_file() {
    let uri = "file:///path/to/other.txt";
    let position = Position { line: 0, character: 0 };

    let completions = get_completions(uri, position);
    assert!(completions.is_empty());
}

#[test]
fn test_field_completions() {
    let completions = get_field_completions();

    assert!(!completions.is_empty());

    for completion in &completions {
        assert!(!completion.label.is_empty());
        assert_eq!(completion.kind, Some(CompletionItemKind::Field));
        assert!(completion.detail.is_some());
        assert!(completion.documentation.is_some());
        assert!(completion.insert_text.is_some());
        assert!(completion.insert_text.as_ref().unwrap().ends_with(": "));
    }

    let labels: Vec<_> = completions.iter().map(|c| &c.label).collect();
    assert!(labels.iter().any(|l| *l == "Source"));
    assert!(labels.iter().any(|l| *l == "Package"));
    assert!(labels.iter().any(|l| *l == "Depends"));
}

#[test]
fn test_package_completions() {
    let completions = get_package_completions();

    assert!(!completions.is_empty());

    for completion in &completions {
        assert!(!completion.label.is_empty());
        assert_eq!(completion.kind, Some(CompletionItemKind::Value));
        assert_eq!(completion.detail, Some("Package name".to_string()));
    }

    let labels: Vec<_> = completions.iter().map(|c| &c.label).collect();
    assert!(labels.iter().any(|l| *l == "debhelper-compat"));
    assert!(labels.iter().any(|l| *l == "cmake"));
}

#[test]
fn test_is_control_file() {
    let control_paths = vec![
        "file:///path/to/debian/control",
        "file:///project/debian/control",
        "file:///control",
        "file:///some/path/control",
    ];

    let non_control_paths = vec![
        "file:///path/to/other.txt",
        "file:///path/to/control.txt",
        "file:///path/to/mycontrol",
        "file:///path/to/debian/control.backup",
    ];

    for path in control_paths {
        assert!(is_control_file(path), "Should detect control file: {}", path);
    }

    for path in non_control_paths {
        assert!(
            !is_control_file(path),
            "Should not detect as control file: {}",
            path
        );
    }
}

#[test]
fn test_control_fields() {
    let fields = all_fields();
    assert!(!fields.is_empty());
    assert!(fields.len() >= 20);

    let field_names: Vec<_> = fields.iter().map(|f| f.name).collect();
    assert!(field_names.contains(&"Source"));
    assert!(field_names.contains(&"Package"));
    assert!(field_names.contains(&"Depends"));
    assert!(field_names.contains(&"Build-Depends"));
}

#[test]
fn test_control_field_validity() {
    for field in all_fields() {
        assert!(!field.name.is_empty());
        assert!(!field.description.is_empty());
        assert!(
            field
                .name
                .chars()
                .all(|c| c.is_ascii_alphanumeric() || c == '-'),
            "Field {} contains invalid characters",
            field.name
        );
    }
}

#[test]
fn test_common_packages() {
    let packages = common_packages();
    assert!(!packages.is_empty());

    for package in packages {
        assert!(!package.is_empty());
        assert!(
            package
                .chars()
                .all(|c| c.is_ascii_alphanumeric() || c == '-' || c.is_ascii_digit()),
            "Package {} contains invalid characters",
            package
        );
    }
}

#[test]
fn test_completion_returns_control_completions() {
    let uri = "file:///path/to/debian/control";
    let completions = get_completions(uri, Position { line: 0, character: 0 });
    assert!(!completions.is_empty());
}

#[test]
fn test_completion_returns_none_for_non_control_files() {
    let uri = "file:///path/to/other.txt";
    let position = Position { line: 0, character: 0 };

    let completions = get_completions(uri, position);
    assert!(completions.is_empty());
}

#[test]
fn test_control_module_integration() {
    let control_uri = "file:///path/to/debian/control";
    let non_control_uri = "file:///path/to/other.txt";
    let position = Position { line: 0, character: 0 };

    let completions = get_completions(control_uri, position);
    assert!(!completions.is_empty());
    assert!(completions.iter().any(|c| c.label == "Source"));
    assert!(completions.iter().any(|c| c.label == "debhelper-compat"));

    let completions = get_completions(non_control_uri, position);
    assert!(completions.is_empty());
}

#[test]
fn test_field_casing_detection() {
    assert_eq!(get_standard_field_name("Source"), Some("Source"));
    assert_eq!(get_standard_field_name("Package"), Some("Package"));
    assert_eq!(get_standard_field_name("Maintainer"), Some("Maintainer"));

    assert_eq!(get_standard_field_name("source"), Some("Source"));
    assert_eq!(get_standard_field_name("package"), Some("Package"));
    assert_eq!(get_standard_field_name("maintainer"), Some("Maintainer"));
    assert_eq!(get_standard_field_name("MAINTAINER"), Some("Maintainer"));

    assert_eq!(get_standard_field_name("UnknownField"), None);
    assert_eq!(get_standard_field_name("random"), None);
}

#[test]
fn catalogue_is_in_policy_order() {
    let names: Vec<&str> = all_fields().iter().map(|f| f.name).collect();
    assert_eq!(
        names,
        vec![
            "Source",
            "Section",
            "Priority",
            "Maintainer",
            "Uploaders",
            "Build-Depends",
            "Build-Depends-Indep",
            "Build-Conflicts",
            "Standards-Version",
            "Homepage",
            "Vcs-Browser",
            "Vcs-Git",
            "Package",
            "Architecture",
            "Multi-Arch",
            "Depends",
            "Pre-Depends",
            "Recommends",
            "Suggests",
            "Enhances",
            "Conflicts",
            "Breaks",
            "Provides",
            "Replaces",
            "Description",
            "Essential",
            "Rules-Requires-Root",
        ]
    );
    assert_eq!(
        common_packages(),
        vec![
            "debhelper-compat",
            "dh-python",
            "python3-all",
            "python3-setuptools",
            "cmake",
            "pkg-config",
            "libssl-dev",
            "libc6-dev",
        ]
    );
}

#[test]
fn control_field_new_keeps_both_parts() {
    let field = ControlField::new("Source", "Name of the source package");
    assert_eq!(field.name, "Source");
    assert_eq!(field.description, "Name of the source package");
}

#[test]
fn standard_name_lookup_is_case_insensitive_and_idempotent() {
    for name in ["build-depends", "BUILD-DEPENDS", "Build-depends", "bUILD-dEPENDS"] {
        assert_eq!(get_standard_field_name(name), Some("Build-Depends"));
    }
    for field in all_fields() {
        let found = get_standard_field_name(field.name);
        assert_eq!(found, Some(field.name));
        assert_eq!(get_standard_field_name(found.unwrap()), found);
        assert_eq!(
            get_standard_field_name(&field.name.to_uppercase()),
            Some(field.name)
        );
    }
}

#[test]
fn standard_name_lookup_folds_ascii_only() {
    // U+212A KELVIN SIGN lowercases to `k` in Unicode, but is no ASCII letter.
    assert_eq!(get_standard_field_name("Pac\u{212A}age"), None);
    assert_eq!(get_standard_field_name("Sourc\u{00E9}"), None);
    assert_eq!(get_standard_field_name(""), None);
    assert_eq!(get_standard_field_name("Source "), None);
}

#[test]
fn string_comparisons() {
    assert!(eq_ignoring_ascii_case("Vcs-Git", "vcs-git"));
    assert!(eq_ignoring_ascii_case("", ""));
    assert!(!eq_ignoring_ascii_case("Vcs-Git", "vcs_git"));
    assert!(!eq_ignoring_ascii_case("abc", "abcd"));
    assert!(!eq_ignoring_ascii_case("[", "{"));
    assert!(!eq_ignoring_ascii_case("@", "`"));
    assert!(str_eq("Source", "Source"));
    assert!(!str_eq("Source", "source"));
    assert!(!str_eq("Source", "Sourc"));
}

#[test]
fn control_path_is_decided_by_its_last_segment() {
    assert!(is_control_path("/control"));
    assert!(is_control_path("/debian/control"));
    assert!(is_control_path("/caf\u{00E9}/control"));
    assert!(!is_control_path("control"));
    assert!(!is_control_path("/mycontrol"));
    assert!(!is_control_path("/control.txt"));
    assert!(!is_control_path("/control/"));
    assert!(!is_control_path(""));
    assert!(!is_control_path("/Control"));
}

#[test]
fn control_uri_is_decided_by_its_path_alone() {
    assert!(is_control_file("file:///p/debian/control?x=1"));
    assert!(is_control_file("file:///p/debian/control#frag"));
    assert!(!is_control_file("file:///p/notes.txt?f=/control"));
    assert!(!is_control_file("not a uri/control"));
    assert!(!is_control_file(""));
}

#[test]
fn completion_on_control_uri() {
    let items = get_completions("file:///p/debian/control", Position { line: 0, character: 0 });
    assert_eq!(items.len(), 27 + 8);
    let source = &items[0];
    assert_eq!(source.label, "Source");
    assert_eq!(source.kind, Some(CompletionItemKind::Field));
    assert_eq!(source.insert_text, Some("Source: ".to_string()));
    assert_eq!(source.detail, Some("Name of the source package".to_string()));
    assert_eq!(source.documentation, Some("Name of the source package".to_string()));
    let debhelper = &items[27];
    assert_eq!(debhelper.label, "debhelper-compat");
    assert_eq!(debhelper.kind, Some(CompletionItemKind::Value));
    assert_eq!(debhelper.detail, Some("Package name".to_string()));
    assert_eq!(debhelper.documentation, None);
    assert_eq!(debhelper.insert_text, None);
}

#[test]
fn completion_on_non_control_uri() {
    let items = get_completions("file:///p/notes.txt", Position { line: 0, character: 0 });
    assert!(items.is_empty());
}

#[test]
fn completions_keep_catalogue_order_without_duplicates() {
    let items = completions_in(true);
    let labels: Vec<&str> = items.iter().map(|c| c.label.as_str()).collect();
    let mut expected: Vec<&str> = all_fields().iter().map(|f| f.name).collect();
    expected.extend(common_packages());
    assert_eq!(labels, expected);
    for (i, a) in labels.iter().enumerate() {
        for b in &labels[i + 1..] {
            assert_ne!(a, b);
        }
    }
    assert!(completions_in(false).is_empty());
    assert_eq!(get_completions("file:///control", Position { line: 7, character: 3 }), items);
}

#[test]
fn capabilities_of_the_server() {
    let capabilities = server_capabilities();
    assert_eq!(capabilities.text_document_sync, TextDocumentSyncKind::Full);
    assert_eq!(
        capabilities.completion_trigger_characters,
        vec![":".to_string(), " ".to_string()]
    );
    assert!(!capabilities.completion_resolve_provider);
    assert!(capabilities.code_action_provider);
}
