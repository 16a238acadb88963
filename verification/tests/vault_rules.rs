use obsidian_mcp_server::vault::{FsFacts, VaultError, VaultOperations};

#[test]
fn test_validate_filename() {
    assert!(VaultOperations::validate_filename("test").is_ok());
    assert!(VaultOperations::validate_filename("test-file").is_ok());
    assert!(VaultOperations::validate_filename("test_file").is_ok());

    assert!(VaultOperations::validate_filename("").is_err());
    assert!(VaultOperations::validate_filename("test/file").is_err());
    assert!(VaultOperations::validate_filename("test\\file").is_err());
    assert!(VaultOperations::validate_filename("test:file").is_err());
    assert!(VaultOperations::validate_filename("test*file").is_err());
    assert!(VaultOperations::validate_filename("test?file").is_err());
    assert!(VaultOperations::validate_filename("test\"file").is_err());
    assert!(VaultOperations::validate_filename("test<file").is_err());
    assert!(VaultOperations::validate_filename("test>file").is_err());
    assert!(VaultOperations::validate_filename("test|file").is_err());
    assert!(VaultOperations::validate_filename("../test").is_err());
    assert!(VaultOperations::validate_filename("CON").is_err());
    assert!(VaultOperations::validate_filename("con.txt").is_err());
}

#[test]
fn validate_filename_reports_the_reason() {
    assert!(matches!(
        VaultOperations::validate_filename(""),
        Err(VaultError::EmptyFilename)
    ));
    assert!(matches!(
        VaultOperations::validate_filename("a/b"),
        Err(VaultError::InvalidCharacter('/'))
    ));
    assert!(matches!(
        VaultOperations::validate_filename("a:b*c"),
        Err(VaultError::InvalidCharacter(':'))
    ));
    assert!(matches!(
        VaultOperations::validate_filename("a..b"),
        Err(VaultError::PathTraversal)
    ));
    assert!(matches!(
        VaultOperations::validate_filename("lpt7.note"),
        Err(VaultError::ReservedName(_))
    ));
    assert!(VaultOperations::validate_filename("console").is_ok());
    assert!(VaultOperations::validate_filename("com0").is_ok());
}

#[test]
fn candidate_path_appends_the_extension_once() {
    let ops = VaultOperations::new("/vault".to_string(), "Tips".to_string());
    assert_eq!(ops.get_target_directory_path(), "/vault/Tips");
    assert_eq!(ops.candidate_path("note"), "/vault/Tips/note.md");
    assert_eq!(ops.candidate_path("note.md"), "/vault/Tips/note.md");
    let slashed = VaultOperations::new("/vault/".to_string(), "Tips".to_string());
    assert_eq!(slashed.get_target_directory_path(), "/vault/Tips");
}

#[test]
fn containment_is_component_wise() {
    assert!(VaultOperations::is_path_within_vault("/vault", "/vault"));
    assert!(VaultOperations::is_path_within_vault("/vault", "/vault/Tips/a.md"));
    assert!(!VaultOperations::is_path_within_vault("/vault", "/vaulted/a.md"));
    assert!(!VaultOperations::is_path_within_vault("/vault", "/elsewhere/a.md"));
    assert!(VaultOperations::is_path_within_vault("/", "/a.md"));
}

fn clean_facts(ops: &VaultOperations, filename: &str) -> FsFacts {
    FsFacts {
        target_dir_is_dir: true,
        canonical_vault: Some(ops.vault_path().clone()),
        canonical_candidate: Some(ops.candidate_path(filename)),
        candidate_exists: false,
    }
}

#[test]
fn save_is_approved_only_when_every_check_passes() {
    let ops = VaultOperations::new("/vault".to_string(), "notes".to_string());

    let ok = ops.save_markdown_file("test", &clean_facts(&ops, "test"));
    assert_eq!(ok.unwrap(), "/vault/notes/test.md");

    let missing_dir = FsFacts {
        target_dir_is_dir: false,
        ..clean_facts(&ops, "test")
    };
    match ops.save_markdown_file("test", &missing_dir) {
        Err(VaultError::TargetDirectoryMissing(p)) => assert_eq!(p, "/vault/notes"),
        other => panic!("expected a missing-directory failure, got {:?}", other.is_ok()),
    }

    let unresolved = FsFacts {
        canonical_candidate: None,
        ..clean_facts(&ops, "test")
    };
    assert!(matches!(
        ops.save_markdown_file("test", &unresolved),
        Err(VaultError::CanonicalizeFailed(_))
    ));

    let escaped = FsFacts {
        canonical_candidate: Some("/elsewhere/test.md".to_string()),
        ..clean_facts(&ops, "test")
    };
    match ops.save_markdown_file("test", &escaped) {
        Err(VaultError::OutsideVault(p)) => assert_eq!(p, "/vault/notes/test.md"),
        _ => panic!("expected a containment failure"),
    }

    let taken = FsFacts {
        candidate_exists: true,
        ..clean_facts(&ops, "test")
    };
    match ops.save_markdown_file("test", &taken) {
        Err(e @ VaultError::AlreadyExists(_)) => {
            assert!(e.message().contains("already exists"));
            assert_eq!(e.message(), "File already exists: /vault/notes/test.md");
        }
        _ => panic!("expected a no-clobber failure"),
    }

    let bad_name = ops.save_markdown_file("../test", &clean_facts(&ops, "../test"));
    assert!(matches!(bad_name, Err(VaultError::InvalidCharacter('/'))));
}

#[test]
fn test_save_markdown_file() {
    let vault_ops = VaultOperations::new("/vault".to_string(), "notes".to_string());

    let result = vault_ops
        .save_markdown_file("test", &clean_facts(&vault_ops, "test"))
        .unwrap();
    assert_eq!(result, "/vault/notes/test.md");

    // With the file now on disk, the same save is refused.
    let taken = FsFacts {
        candidate_exists: true,
        ..clean_facts(&vault_ops, "test")
    };
    let result = vault_ops.save_markdown_file("test", &taken);
    assert!(result.is_err());
}

#[test]
fn error_messages_name_the_reason() {
    assert_eq!(
        VaultError::EmptyFilename.message(),
        "Filename cannot be empty"
    );
    assert_eq!(
        VaultError::InvalidCharacter('*').message(),
        "Filename contains invalid character: *"
    );
    assert_eq!(
        VaultError::PathTraversal.message(),
        "Filename cannot contain '..'"
    );
    assert_eq!(
        VaultError::ReservedName("CON".to_string()).message(),
        "Filename is reserved: CON"
    );
}
