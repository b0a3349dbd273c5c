use cargo_workspace_lints::manifest::{parse_manifest, ManifestEntry, ManifestTable, ManifestValue};
use cargo_workspace_lints::validate::{
    member_packages, validate_package, validate_workspace, Package, PackageValidationErrorKind,
    WorkspaceMetadata, WorkspaceValidationError,
};

fn package(id: &str, name: &str, path: &str) -> Package {
    Package { id: id.to_string(), name: name.to_string(), manifest_path: path.to_string() }
}

fn entry(key: &str, value: ManifestValue) -> ManifestEntry {
    ManifestEntry { key: key.to_string(), value }
}

fn lints_table(workspace: Option<ManifestValue>) -> ManifestTable {
    let mut inner = Vec::new();
    if let Some(v) = workspace {
        inner.push(entry("workspace", v));
    }
    ManifestTable { entries: vec![entry("lints", ManifestValue::Mapping(inner))] }
}

fn dummy_package() -> Package {
    package("registry+p#1.0.0", "p", "/ws/p/Cargo.toml")
}

#[test]
fn test_passing_workspace() {
    let metadata = WorkspaceMetadata {
        packages: vec![package("path+file:///ws/a#0.1.0", "a", "/ws/a/Cargo.toml")],
        workspace_members: vec!["path+file:///ws/a#0.1.0".to_string()],
    };
    let reads = vec![Ok("[package]\nname = \"a\"\n\n[lints]\nworkspace = true\n".to_string())];
    assert_eq!(validate_workspace(&metadata, &reads), Ok(()));
}

#[test]
fn test_failing_workspace() {
    let id = "path+file:///ws/tests/failing-workspace/test-crate#0.1.0";
    let metadata = WorkspaceMetadata {
        packages: vec![package(id, "test-crate", "/ws/tests/failing-workspace/test-crate/Cargo.toml")],
        workspace_members: vec![id.to_string()],
    };
    let reads = vec![Ok("[package]\nname = \"test-crate\"\n".to_string())];
    let result = validate_workspace(&metadata, &reads);
    match result {
        Err(WorkspaceValidationError::FailingPackages(failures)) => {
            assert_eq!(failures.len(), 1);
            assert!(failures[0].package.contains("tests/failing-workspace/test-crate"));
            assert_eq!(failures[0].kind, PackageValidationErrorKind::WorkspaceLintsMissing);
        }
        other => panic!("expected failing packages, got {other:?}"),
    }
}

#[test]
fn test_one_passing_one_wrong_value_member() {
    let metadata = WorkspaceMetadata {
        packages: vec![
            package("id-a", "a", "/ws/a/Cargo.toml"),
            package("id-b", "b", "/ws/b/Cargo.toml"),
        ],
        workspace_members: vec!["id-a".to_string(), "id-b".to_string()],
    };
    let reads = vec![
        Ok("[lints]\nworkspace = true\n".to_string()),
        Ok("[lints]\nworkspace = false\n".to_string()),
    ];
    let result = validate_workspace(&metadata, &reads);
    match result {
        Err(WorkspaceValidationError::FailingPackages(failures)) => {
            assert_eq!(failures.len(), 1);
            assert_eq!(failures[0].package, "id-b");
            assert_eq!(
                failures[0].kind,
                PackageValidationErrorKind::WorkspaceLintsWrongValue(ManifestValue::Boolean(
                    false
                ))
            );
        }
        other => panic!("expected failing packages, got {other:?}"),
    }
}

#[test]
fn test_validate_package_delegating_passes() {
    let table = lints_table(Some(ManifestValue::Boolean(true)));
    assert_eq!(validate_package(&dummy_package(), &table), Ok(()));
}

#[test]
fn test_validate_package_no_lints_table_missing() {
    let table = ManifestTable { entries: vec![entry("package", ManifestValue::Mapping(vec![]))] };
    assert_eq!(
        validate_package(&dummy_package(), &table),
        Err(PackageValidationErrorKind::WorkspaceLintsMissing)
    );
}

#[test]
fn test_validate_package_lints_without_workspace_missing() {
    let table = lints_table(None);
    assert_eq!(
        validate_package(&dummy_package(), &table),
        Err(PackageValidationErrorKind::WorkspaceLintsMissing)
    );
}

#[test]
fn test_validate_package_lints_not_a_table_missing() {
    let table = ManifestTable { entries: vec![entry("lints", ManifestValue::Integer(3))] };
    assert_eq!(
        validate_package(&dummy_package(), &table),
        Err(PackageValidationErrorKind::WorkspaceLintsMissing)
    );
}

#[test]
fn test_validate_package_false_is_wrong_value() {
    let table = lints_table(Some(ManifestValue::Boolean(false)));
    assert_eq!(
        validate_package(&dummy_package(), &table),
        Err(PackageValidationErrorKind::WorkspaceLintsWrongValue(ManifestValue::Boolean(false)))
    );
}

#[test]
fn test_validate_package_string_true_is_wrong_value() {
    let table = lints_table(Some(ManifestValue::Str("true".to_string())));
    assert_eq!(
        validate_package(&dummy_package(), &table),
        Err(PackageValidationErrorKind::WorkspaceLintsWrongValue(ManifestValue::Str(
            "true".to_string()
        )))
    );
}

#[test]
fn test_validate_package_integer_one_is_wrong_value() {
    let table = lints_table(Some(ManifestValue::Integer(1)));
    assert_eq!(
        validate_package(&dummy_package(), &table),
        Err(PackageValidationErrorKind::WorkspaceLintsWrongValue(ManifestValue::Integer(1)))
    );
}

#[test]
fn test_parse_manifest_builds_the_tree() {
    let text = "[package]\nname = \"a\"\nedition = \"2021\"\n\n[lints]\nworkspace = true\n";
    let table = parse_manifest(text).expect("well-formed manifest");
    let lints: Vec<&ManifestEntry> =
        table.entries.iter().filter(|e| e.key == "lints").collect();
    assert_eq!(lints.len(), 1);
    match &lints[0].value {
        ManifestValue::Mapping(inner) => {
            assert_eq!(inner.len(), 1);
            assert_eq!(inner[0].key, "workspace");
            assert_eq!(inner[0].value, ManifestValue::Boolean(true));
        }
        other => panic!("lints should be a mapping, got {other:?}"),
    }
    let names: Vec<&ManifestEntry> =
        table.entries.iter().filter(|e| e.key == "package").collect();
    assert_eq!(names.len(), 1);
    match &names[0].value {
        ManifestValue::Mapping(inner) => {
            assert_eq!(inner.len(), 2);
            let name: Vec<&ManifestEntry> = inner.iter().filter(|e| e.key == "name").collect();
            assert_eq!(name.len(), 1);
            assert_eq!(name[0].value, ManifestValue::Str("a".to_string()));
        }
        other => panic!("package should be a mapping, got {other:?}"),
    }
}

#[test]
fn test_parse_manifest_rejects_ill_formed_text() {
    assert!(parse_manifest("= this is not toml =").is_err());
}

#[test]
fn test_every_failing_member_is_reported() {
    let metadata = WorkspaceMetadata {
        packages: vec![
            package("id-a", "a", "/ws/a/Cargo.toml"),
            package("id-b", "b", "/ws/b/Cargo.toml"),
            package("id-c", "c", "/ws/c/Cargo.toml"),
        ],
        workspace_members: vec!["id-a".to_string(), "id-b".to_string(), "id-c".to_string()],
    };
    let reads = vec![
        Ok("[package]\nname = \"a\"\n".to_string()),
        Ok("[lints]\nworkspace = true\n".to_string()),
        Ok("[lints]\nworkspace = \"yes\"\n".to_string()),
    ];
    match validate_workspace(&metadata, &reads) {
        Err(WorkspaceValidationError::FailingPackages(failures)) => {
            assert_eq!(failures.len(), 2);
            assert_eq!(failures[0].package, "id-a");
            assert_eq!(failures[0].kind, PackageValidationErrorKind::WorkspaceLintsMissing);
            assert_eq!(failures[1].package, "id-c");
            assert_eq!(
                failures[1].kind,
                PackageValidationErrorKind::WorkspaceLintsWrongValue(ManifestValue::Str(
                    "yes".to_string()
                ))
            );
            assert_ne!(failures[0], failures[1]);
        }
        other => panic!("expected failing packages, got {other:?}"),
    }
}

#[test]
fn test_non_members_are_excluded() {
    let metadata = WorkspaceMetadata {
        packages: vec![
            package("id-dep", "somedep", "/registry/somedep/Cargo.toml"),
            package("id-a", "a", "/ws/a/Cargo.toml"),
        ],
        workspace_members: vec!["id-a".to_string()],
    };
    let members = member_packages(&metadata);
    assert_eq!(members.len(), 1);
    assert_eq!(members[0].id, "id-a");
    let reads = vec![Ok("[lints]\nworkspace = true\n".to_string())];
    assert_eq!(validate_workspace(&metadata, &reads), Ok(()));
}

#[test]
fn test_two_runs_agree() {
    let build = || {
        let metadata = WorkspaceMetadata {
            packages: vec![
                package("id-a", "a", "/ws/a/Cargo.toml"),
                package("id-b", "b", "/ws/b/Cargo.toml"),
            ],
            workspace_members: vec!["id-a".to_string(), "id-b".to_string()],
        };
        let reads = vec![
            Ok("[lints]\nworkspace = 1\n".to_string()),
            Ok("not = = toml".to_string()),
        ];
        (metadata, reads)
    };
    let (m1, r1) = build();
    let (m2, r2) = build();
    assert_eq!(validate_workspace(&m1, &r1), validate_workspace(&m2, &r2));
}

#[test]
fn test_unreadable_manifest_preempts_policy_failures() {
    let metadata = WorkspaceMetadata {
        packages: vec![
            package("id-a", "a", "/ws/a/Cargo.toml"),
            package("id-b", "b", "/ws/b/Cargo.toml"),
        ],
        workspace_members: vec!["id-a".to_string(), "id-b".to_string()],
    };
    let reads = vec![
        Err("no such file".to_string()),
        Ok("[package]\nname = \"b\"\n".to_string()),
    ];
    assert_eq!(
        validate_workspace(&metadata, &reads),
        Err(WorkspaceValidationError::Io("no such file".to_string()))
    );
}

#[test]
fn test_ill_formed_manifest_preempts_policy_failures() {
    let metadata = WorkspaceMetadata {
        packages: vec![
            package("id-a", "a", "/ws/a/Cargo.toml"),
            package("id-b", "b", "/ws/b/Cargo.toml"),
        ],
        workspace_members: vec!["id-a".to_string(), "id-b".to_string()],
    };
    let reads = vec![
        Ok("= this is not toml =".to_string()),
        Ok("[package]\nname = \"b\"\n".to_string()),
    ];
    match validate_workspace(&metadata, &reads) {
        Err(WorkspaceValidationError::Toml(_)) => {}
        other => panic!("expected a parse failure, got {other:?}"),
    }
}

fn single_member_metadata() -> WorkspaceMetadata {
    WorkspaceMetadata {
        packages: vec![package("id-a", "a", "/ws/a/Cargo.toml")],
        workspace_members: vec!["id-a".to_string()],
    }
}

fn sole_failure(result: Result<(), WorkspaceValidationError>) -> PackageValidationErrorKind {
    match result {
        Err(WorkspaceValidationError::FailingPackages(mut failures)) => {
            assert_eq!(failures.len(), 1);
            failures.remove(0).kind
        }
        other => panic!("expected failing packages, got {other:?}"),
    }
}

#[test]
fn test_float_value_is_carried_as_its_text() {
    let metadata = single_member_metadata();
    let reads = vec![Ok("[lints]\nworkspace = 1.5\n".to_string())];
    let kind = sole_failure(validate_workspace(&metadata, &reads));
    assert_eq!(
        kind,
        PackageValidationErrorKind::WorkspaceLintsWrongValue(ManifestValue::Float(
            "1.5".to_string()
        ))
    );
}

#[test]
fn test_datetime_value_is_wrong_value() {
    let metadata = single_member_metadata();
    let reads = vec![Ok("[lints]\nworkspace = 1979-05-27\n".to_string())];
    let kind = sole_failure(validate_workspace(&metadata, &reads));
    assert!(matches!(
        kind,
        PackageValidationErrorKind::WorkspaceLintsWrongValue(ManifestValue::Str(_))
    ));
}

#[test]
fn test_array_value_is_wrong_value() {
    let metadata = single_member_metadata();
    let reads = vec![Ok("[lints]\nworkspace = [true]\n".to_string())];
    let kind = sole_failure(validate_workspace(&metadata, &reads));
    assert_eq!(
        kind,
        PackageValidationErrorKind::WorkspaceLintsWrongValue(ManifestValue::Sequence(vec![
            ManifestValue::Boolean(true)
        ]))
    );
}

#[test]
fn test_parse_manifest_is_idempotent() {
    let text = "[package]\nname = \"a\"\n\n[lints]\nworkspace = true\n";
    assert_eq!(parse_manifest(text), parse_manifest(text));
}

#[test]
fn test_member_order_is_kept() {
    let metadata = WorkspaceMetadata {
        packages: vec![
            package("id-c", "c", "/ws/c/Cargo.toml"),
            package("id-dep", "somedep", "/registry/somedep/Cargo.toml"),
            package("id-a", "a", "/ws/a/Cargo.toml"),
        ],
        workspace_members: vec!["id-a".to_string(), "id-c".to_string()],
    };
    let members = member_packages(&metadata);
    assert_eq!(members.len(), 2);
    assert_eq!(members[0].id, "id-c");
    assert_eq!(members[1].id, "id-a");
}
