use debian_lsp::actions::code_actions_for;
use debian_lsp::actions::diagnostics_at;
use debian_lsp::actions::CodeActionKind;
use debian_lsp::analysis::casing_issue_of;
use debian_lsp::analysis::casing_issues_in;
use debian_lsp::analysis::diagnostics_of;
use debian_lsp::analysis::issue_diagnostic;
use debian_lsp::analysis::issues_in;
use debian_lsp::analysis::Diagnostic;
use debian_lsp::analysis::DiagnosticIssue;
use debian_lsp::analysis::DiagnosticSeverity;
use debian_lsp::analysis::FieldCasingIssue;
use debian_lsp::parse::parse_control;
use debian_lsp::parse::Entry;
use debian_lsp::parse::Paragraph;
use debian_lsp::parse::ParsedControl;
use debian_lsp::parse::PositionedError;
use debian_lsp::position::Position;
use debian_lsp::position::Range;
use debian_lsp::position::TextRange;
use debian_lsp::workspace::SourceFile;
use debian_lsp::workspace::Workspace;

fn pos(line: u32, character: u32) -> Position {
    Position { line, character }
}

fn range(a: (u32, u32), b: (u32, u32)) -> Range {
    Range { start: pos(a.0, a.1), end: pos(b.0, b.1) }
}

fn keys(parsed: &ParsedControl) -> Vec<String> {
    let mut names = Vec::new();
    for paragraph in &parsed.paragraphs {
        for entry in &paragraph.entries {
            if let Some(name) = &entry.key {
                names.push(name.clone());
            }
        }
    }
    names
}

#[test]
fn test_parse_control_with_correct_casing() {
    let mut workspace = Workspace::new();
    let url = "file:///debian/control";
    let content = "Source: test-package\nMaintainer: Test <test@example.com>\n\nPackage: test-package\nArchitecture: amd64\nDescription: A test package\n";

    let file = workspace.update_file(url.to_string(), content.to_string());
    let parsed = workspace.get_parsed_control(file);

    assert!(parsed.errors.is_empty());

    if parsed.errors.is_empty() {
        let field_count: usize = parsed.paragraphs.iter().map(|p| p.entries.len()).sum();
        assert_eq!(field_count, 5);
    } else {
        panic!("Failed to parse valid control file");
    }
}

#[test]
fn test_parse_control_with_incorrect_casing() {
    let mut workspace = Workspace::new();
    let url = "file:///debian/control";
    let content = "source: test-package\nmaintainer: Test <test@example.com>\n\npackage: test-package\narchitecture: amd64\ndescription: A test package\n";

    let file = workspace.update_file(url.to_string(), content.to_string());
    let parsed = workspace.get_parsed_control(file);

    assert!(parsed.errors.is_empty());

    if parsed.errors.is_empty() {
        let field_names = keys(parsed);
        assert!(field_names.contains(&"source".to_string()));
        assert!(field_names.contains(&"maintainer".to_string()));
    }
}

#[test]
fn test_parse_control_with_invalid_content() {
    let mut workspace = Workspace::new();
    let url = "file:///debian/control";
    let content = "invalid debian control content without proper format";

    let file = workspace.update_file(url.to_string(), content.to_string());
    let parsed = workspace.get_parsed_control(file);

    if parsed.errors.is_empty() {
        let field_count: usize = parsed.paragraphs.iter().map(|p| p.entries.len()).sum();
        assert!(field_count <= 1);
    }
}

#[test]
fn test_workspace_integration() {
    let mut workspace = Workspace::new();
    let url = "file:///debian/control";
    let content = "source: test-package\nMaintainer: Test <test@example.com>\n";

    let file = workspace.update_file(url.to_string(), content.to_string());
    let parsed = workspace.get_parsed_control(file);

    assert!(parsed.errors.is_empty());

    if parsed.errors.is_empty() {
        let field_names = keys(parsed);
        assert!(field_names.contains(&"source".to_string()));
        assert!(field_names.contains(&"Maintainer".to_string()));
    }
}

#[test]
fn parser_reports_keys_and_spans() {
    let text = "Source: x\nmaintainer: y <y@z>\n\nPackage: x\n";
    let parsed = parse_control(text);
    assert!(parsed.errors.is_empty());
    assert_eq!(parsed.paragraphs.len(), 2);
    assert_eq!(parsed.paragraphs[0].entries.len(), 2);
    assert_eq!(parsed.paragraphs[1].entries.len(), 1);
    let first = &parsed.paragraphs[0].entries[0];
    assert_eq!(first.key, Some("Source".to_string()));
    assert_eq!(first.range.start, 0);
    let second = &parsed.paragraphs[0].entries[1];
    assert_eq!(second.key, Some("maintainer".to_string()));
    assert_eq!(second.range.start, 10);
    let third = &parsed.paragraphs[1].entries[0];
    assert_eq!(third.key, Some("Package".to_string()));
    assert_eq!(third.range.start, 31);
    for paragraph in &parsed.paragraphs {
        for entry in &paragraph.entries {
            assert!(entry.range.start < entry.range.end);
            assert!(entry.range.end as usize <= text.len());
            let key = entry.key.as_ref().unwrap();
            let start = entry.range.start as usize;
            assert_eq!(&text[start..start + key.len()], key.as_str());
        }
    }
}

#[test]
fn parser_survives_malformed_text() {
    let texts = [
        "",
        "\n",
        ": x\n",
        " leading space\n",
        "Source\n",
        "Source",
        "Source: x\n continued\n \n",
        "# only a comment",
        "a: b\n\n\n\nc: d",
        "caf\u{00E9}: \u{1F600}\n",
    ];
    for text in texts {
        let parsed = parse_control(text);
        for paragraph in &parsed.paragraphs {
            for entry in &paragraph.entries {
                assert!(entry.range.start <= entry.range.end);
                assert!(entry.range.end as usize <= text.len());
                if let Some(key) = &entry.key {
                    assert!(key.len() <= (entry.range.end - entry.range.start) as usize);
                    let start = entry.range.start as usize;
                    assert_eq!(&text[start..start + key.len()], key.as_str());
                }
            }
        }
        for error in &parsed.errors {
            let span = error.range.unwrap();
            assert!(span.start <= span.end);
            assert!(span.end as usize <= text.len());
        }
        let again = parse_control(text);
        assert_eq!(parsed, again);
    }
}

#[test]
fn parse_errors_become_error_diagnostics() {
    let mut workspace = Workspace::new();
    let text = "Source: x\n: orphan\n";
    let file = workspace.update_file("file:///debian/control".to_string(), text.to_string());
    let parsed = workspace.get_parsed_control(file);
    let count = parsed.errors.len();
    assert!(count > 0);
    let diagnostics = workspace.get_diagnostics(file);
    assert_eq!(diagnostics.len(), count);
    for (diagnostic, error) in diagnostics.iter().zip(parsed.errors.iter()) {
        assert_eq!(diagnostic.severity, Some(DiagnosticSeverity::Error));
        assert_eq!(diagnostic.message, error.message);
        assert_eq!(diagnostic.code, None);
        assert_eq!(diagnostic.source, None);
    }
}

#[test]
fn correct_casing_clean_parse() {
    let mut workspace = Workspace::new();
    let text = "Source: x\nMaintainer: y <y@z>\n\nPackage: x\nArchitecture: all\nDescription: d\n";
    let file = workspace.update_file("file:///p/debian/control".to_string(), text.to_string());
    assert_eq!(workspace.get_diagnostics(file), vec![]);
    assert_eq!(workspace.find_field_casing_issues(file, None), vec![]);
}

#[test]
fn casing_only() {
    let mut workspace = Workspace::new();
    let text = "source: x\nmaintainer: y <y@z>\n";
    let file = workspace.update_file("file:///p/debian/control".to_string(), text.to_string());
    let diagnostics = workspace.get_diagnostics(file);
    assert_eq!(
        diagnostics,
        vec![
            Diagnostic {
                range: range((0, 0), (0, 6)),
                severity: Some(DiagnosticSeverity::Warning),
                code: Some("field-casing".to_string()),
                source: Some("debian-lsp".to_string()),
                message: "Field name 'source' should be 'Source'".to_string(),
            },
            Diagnostic {
                range: range((1, 0), (1, 10)),
                severity: Some(DiagnosticSeverity::Warning),
                code: Some("field-casing".to_string()),
                source: Some("debian-lsp".to_string()),
                message: "Field name 'maintainer' should be 'Maintainer'".to_string(),
            },
        ]
    );
    assert_eq!(
        workspace.find_field_casing_issues(file, None),
        vec![
            FieldCasingIssue {
                field_name: "source".to_string(),
                standard_name: "Source".to_string(),
                field_range: TextRange { start: 0, end: 6 },
            },
            FieldCasingIssue {
                field_name: "maintainer".to_string(),
                standard_name: "Maintainer".to_string(),
                field_range: TextRange { start: 10, end: 20 },
            },
        ]
    );
}

#[test]
fn unknown_field() {
    let mut workspace = Workspace::new();
    let file = workspace.update_file("file:///p/debian/control".to_string(), "Foobar: x\n".to_string());
    assert_eq!(workspace.get_diagnostics(file), vec![]);
}

#[test]
fn one_issue_for_each_miscased_known_field() {
    let mut workspace = Workspace::new();
    let text = "SOURCE: x\nx-custom: 1\nbuild-depends: a,\n b\n\npackage: x\nFoobar: y\ndescription: d\n";
    let file = workspace.update_file("file:///debian/control".to_string(), text.to_string());
    let issues = workspace.find_field_casing_issues(file, None);
    let found: Vec<(&str, &str)> = issues
        .iter()
        .map(|i| (i.field_name.as_str(), i.standard_name.as_str()))
        .collect();
    assert_eq!(
        found,
        vec![
            ("SOURCE", "Source"),
            ("build-depends", "Build-Depends"),
            ("package", "Package"),
            ("description", "Description"),
        ]
    );
    for issue in &issues {
        let span = issue.field_range;
        assert!(span.start <= span.end && span.end as usize <= text.len());
        assert_eq!(&text[span.start as usize..span.end as usize], issue.field_name);
    }
}

#[test]
fn range_filter_keeps_overlapping_entries() {
    let mut workspace = Workspace::new();
    let text = "source: x\nmaintainer: y\n";
    let file = workspace.update_file("file:///debian/control".to_string(), text.to_string());
    let first = workspace.get_diagnostics_in_range(file, TextRange { start: 0, end: 10 });
    assert_eq!(first.len(), 1);
    assert_eq!(first[0].range, range((0, 0), (0, 6)));
    let second = workspace.get_diagnostics_in_range(file, TextRange { start: 10, end: 11 });
    assert_eq!(second.len(), 1);
    assert_eq!(second[0].range, range((1, 0), (1, 10)));
    let both = workspace.get_diagnostics_in_range(file, TextRange { start: 9, end: 11 });
    assert_eq!(both.len(), 2);
    let none = workspace.get_diagnostics_in_range(file, TextRange { start: 0, end: 0 });
    assert_eq!(none, vec![]);
}

#[test]
fn filter_to_the_whole_text_keeps_all() {
    let mut workspace = Workspace::new();
    let texts = [
        "source: x\nmaintainer: y <y@z>\n",
        "Source: x\n\npackage: y\nDEPENDS: z\n",
        "Foobar: x\n",
    ];
    for text in texts {
        let file = workspace.update_file("file:///debian/control".to_string(), text.to_string());
        let whole = TextRange { start: 0, end: text.len() as u32 };
        assert_eq!(
            workspace.get_diagnostics_in_range(file, whole),
            workspace.get_diagnostics(file)
        );
    }
}

#[test]
fn empty_span_does_not_pass_the_whole_text_filter() {
    let text = "Source";
    let parsed = ParsedControl {
        paragraphs: vec![],
        errors: vec![PositionedError::new("cut short".to_string(), 6, 6)],
    };
    let whole = TextRange { start: 0, end: 6 };
    assert_eq!(diagnostics_of(text, &parsed, None).len(), 1);
    assert_eq!(diagnostics_of(text, &parsed, Some(whole)).len(), 0);
}

#[test]
fn analyses_of_a_parse_written_by_hand() {
    let text = "depends: a\nFoo\nPackage: b\n";
    let parsed = ParsedControl {
        paragraphs: vec![Paragraph::new(vec![
            Entry::new(Some("depends".to_string()), 0, 11),
            Entry::new(None, 11, 15),
            Entry::new(Some("Package".to_string()), 15, 26),
        ])],
        errors: vec![
            PositionedError::new("missing colon".to_string(), 14, 15),
            PositionedError { message: "somewhere".to_string(), range: None },
        ],
    };
    let issues = casing_issues_in(&parsed, None);
    assert_eq!(
        issues,
        vec![FieldCasingIssue {
            field_name: "depends".to_string(),
            standard_name: "Depends".to_string(),
            field_range: TextRange { start: 0, end: 7 },
        }]
    );
    assert_eq!(casing_issue_of(&parsed.paragraphs[0].entries[1]), None);
    assert_eq!(casing_issue_of(&parsed.paragraphs[0].entries[2]), None);
    let all = issues_in(&parsed, None);
    assert_eq!(all.len(), 3);
    assert_eq!(
        all[0],
        DiagnosticIssue::ParseError {
            message: "missing colon".to_string(),
            range: Some(TextRange { start: 14, end: 15 }),
        }
    );
    let diagnostics = diagnostics_of(text, &parsed, None);
    assert_eq!(
        diagnostics,
        vec![
            Diagnostic {
                range: range((1, 3), (2, 0)),
                severity: Some(DiagnosticSeverity::Error),
                code: None,
                source: None,
                message: "missing colon".to_string(),
            },
            Diagnostic {
                range: range((0, 0), (0, 0)),
                severity: Some(DiagnosticSeverity::Error),
                code: None,
                source: None,
                message: "somewhere".to_string(),
            },
            Diagnostic {
                range: range((0, 0), (0, 7)),
                severity: Some(DiagnosticSeverity::Warning),
                code: Some("field-casing".to_string()),
                source: Some("debian-lsp".to_string()),
                message: "Field name 'depends' should be 'Depends'".to_string(),
            },
        ]
    );
    assert_eq!(issue_diagnostic(text, &all[2]), diagnostics.into_iter().nth(2).unwrap());
    // Only the second line: the error with a span there and the one without a span.
    let filtered = diagnostics_of(text, &parsed, Some(TextRange { start: 11, end: 15 }));
    assert_eq!(filtered.len(), 2);
    assert_eq!(filtered[0].message, "missing colon");
    assert_eq!(filtered[1].message, "somewhere");
}

#[test]
fn update_replaces_the_text_under_the_same_handle() {
    let mut workspace = Workspace::new();
    let a = workspace.update_file("file:///a/control".to_string(), "source: x\n".to_string());
    let b = workspace.update_file("file:///b/control".to_string(), "Package: y\n".to_string());
    assert_eq!(a, SourceFile { id: 0 });
    assert_eq!(b, SourceFile { id: 1 });
    assert_eq!(workspace.source_text(a), "source: x\n");
    assert_eq!(workspace.get_diagnostics(a).len(), 1);
    let again = workspace.update_file("file:///a/control".to_string(), "Source: x\n".to_string());
    assert_eq!(again, a);
    assert_eq!(workspace.source_text(a), "Source: x\n");
    assert_eq!(workspace.source_text(b), "Package: y\n");
    assert_eq!(workspace.get_diagnostics(a), vec![]);
    assert_eq!(workspace.find_file("file:///a/control"), Some(a));
    assert_eq!(workspace.find_file("file:///b/control"), Some(b));
    assert_eq!(workspace.find_file("file:///c/control"), None);
}

#[test]
fn updates_publish_for_control_files_only() {
    let mut workspace = Workspace::new();
    let published = workspace.apply_update("file:///p/debian/control".to_string(), "source: x\n".to_string());
    assert_eq!(published.map(|d| d.len()), Some(1));
    let other = workspace.apply_update("file:///p/notes.txt".to_string(), "source: x\n".to_string());
    assert_eq!(other, None);
    assert_eq!(workspace.find_file("file:///p/notes.txt"), None);
    assert!(workspace.find_file("file:///p/debian/control").is_some());
}

#[test]
fn quick_fix() {
    let mut workspace = Workspace::new();
    let uri = "file:///p/debian/control";
    workspace.update_file(uri.to_string(), "source: x\n".to_string());
    let actions = workspace.code_actions(uri, range((0, 0), (0, 6)), &vec![]);
    assert_eq!(actions.len(), 1);
    let action = &actions[0];
    assert_eq!(action.title, "Fix field casing: source -> Source");
    assert_eq!(action.kind, Some(CodeActionKind::QuickFix));
    assert_eq!(action.uri, uri);
    assert_eq!(action.edit.range, range((0, 0), (0, 6)));
    assert_eq!(action.edit.new_text, "Source");
    assert_eq!(action.diagnostics, vec![]);
}

#[test]
fn quick_fix_takes_up_the_diagnostics_it_resolves() {
    let mut workspace = Workspace::new();
    let uri = "file:///p/debian/control";
    let file = workspace.update_file(uri.to_string(), "source: x\nmaintainer: y\n".to_string());
    let mut context = workspace.get_diagnostics(file);
    context.push(Diagnostic {
        range: range((0, 0), (0, 6)),
        severity: Some(DiagnosticSeverity::Hint),
        code: Some("other".to_string()),
        source: None,
        message: "not ours".to_string(),
    });
    context.push(Diagnostic {
        range: range((0, 0), (0, 6)),
        severity: None,
        code: None,
        source: None,
        message: "no code".to_string(),
    });
    let actions = workspace.code_actions(uri, range((0, 2), (0, 2)), &context);
    assert_eq!(actions.len(), 1);
    assert_eq!(actions[0].diagnostics.len(), 1);
    assert_eq!(actions[0].diagnostics[0], context[0]);
    assert_eq!(diagnostics_at(&context, range((1, 0), (1, 10))).len(), 1);
    assert_eq!(diagnostics_at(&context, range((1, 0), (1, 9))).len(), 0);
    let both = workspace.code_actions(uri, range((0, 0), (5, 0)), &context);
    assert_eq!(both.len(), 2);
    assert_eq!(both[1].title, "Fix field casing: maintainer -> Maintainer");
    assert_eq!(both[1].edit.range, range((1, 0), (1, 10)));
}

#[test]
fn code_actions_need_an_open_control_file_and_a_range_on_the_name() {
    let mut workspace = Workspace::new();
    let uri = "file:///p/debian/control";
    assert_eq!(workspace.code_actions(uri, range((0, 0), (0, 6)), &vec![]), vec![]);
    workspace.update_file(uri.to_string(), "source: x\n".to_string());
    workspace.update_file("file:///p/notes.txt".to_string(), "source: x\n".to_string());
    assert_eq!(
        workspace.code_actions("file:///p/notes.txt", range((0, 0), (0, 6)), &vec![]),
        vec![]
    );
    assert_eq!(
        workspace.code_actions("file:///q/debian/control", range((0, 0), (0, 6)), &vec![]),
        vec![]
    );
    // On the value, behind the name: the entry overlaps, the name does not meet.
    assert_eq!(workspace.code_actions(uri, range((0, 8), (0, 9)), &vec![]), vec![]);
    // Ending where the name ends counts.
    assert_eq!(workspace.code_actions(uri, range((0, 6), (0, 8)), &vec![]).len(), 1);
    // An empty range at the very beginning overlaps no entry.
    assert_eq!(workspace.code_actions(uri, range((0, 0), (0, 0)), &vec![]), vec![]);
    assert_eq!(workspace.code_actions(uri, range((3, 0), (4, 0)), &vec![]), vec![]);
}

#[test]
fn code_actions_of_a_parse_written_by_hand() {
    let text = "depends: a\n";
    let parsed = ParsedControl {
        paragraphs: vec![Paragraph::new(vec![Entry::new(Some("depends".to_string()), 0, 11)])],
        errors: vec![],
    };
    let actions = code_actions_for(text, "file:///control", &parsed, range((0, 1), (0, 3)), &vec![]);
    assert_eq!(actions.len(), 1);
    assert_eq!(actions[0].title, "Fix field casing: depends -> Depends");
    assert_eq!(actions[0].edit.range, range((0, 0), (0, 7)));
    assert_eq!(actions[0].edit.new_text, "Depends");
}

#[test]
fn error_at_the_end_of_the_text_has_an_empty_span() {
    let mut workspace = Workspace::new();
    let text = "Source";
    let file = workspace.update_file("file:///debian/control".to_string(), text.to_string());
    let parsed = workspace.get_parsed_control(file);
    assert_eq!(parsed.errors.len(), 1);
    assert_eq!(parsed.errors[0].range, Some(TextRange { start: 6, end: 6 }));
    let all = workspace.get_diagnostics(file);
    assert_eq!(all.len(), 1);
    assert_eq!(all[0].range, range((0, 6), (0, 6)));
    assert_eq!(all[0].severity, Some(DiagnosticSeverity::Error));
    let whole = TextRange { start: 0, end: text.len() as u32 };
    assert_eq!(workspace.get_diagnostics_in_range(file, whole), vec![]);
}
