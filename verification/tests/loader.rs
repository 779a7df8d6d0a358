use volume_loader::command::build_command;
use volume_loader::loader::ImageLoader;
use volume_loader::loader::LoadError;
use volume_loader::paths::PathError;

#[test]
fn test_name() {
    assert!(1 == 1);
}

#[test]
fn lookup_returns_each_tabulated_command() {
    let loader = ImageLoader::new("vol", "/tmp/a.tar.gz", false);
    assert_eq!(loader.lookup_command("gz"), Some("gunzip".to_string()));
    assert_eq!(loader.lookup_command("zip"), Some("unzip".to_string()));
    assert_eq!(loader.lookup_command("rar"), Some("unrar x".to_string()));
    assert_eq!(loader.lookup_command("tar"), Some("tar xvf".to_string()));
    assert_eq!(loader.lookup_command("tgz"), Some("tar xvzf".to_string()));
    assert_eq!(loader.lookup_command("tbz2"), Some("tar xvjf".to_string()));
}

#[test]
fn table_holds_six_fixed_pairs() {
    let table = ImageLoader::extension_vs_commands();
    assert_eq!(table.len(), 6);
    assert_eq!(table[0], ("gz".to_string(), "gunzip".to_string()));
    assert_eq!(table[1], ("zip".to_string(), "unzip".to_string()));
    assert_eq!(table[2], ("rar".to_string(), "unrar x".to_string()));
    assert_eq!(table[3], ("tar".to_string(), "tar xvf".to_string()));
    assert_eq!(table[4], ("tgz".to_string(), "tar xvzf".to_string()));
    assert_eq!(table[5], ("tbz2".to_string(), "tar xvjf".to_string()));
}

#[test]
fn unknown_extension_runs_no_command() {
    let loader = ImageLoader::new("vol", "/tmp/a.xz", false);
    assert_eq!(loader.lookup_command("xz"), None);
    assert_eq!(loader.lookup_command("XZ"), None);
    assert_eq!(loader.lookup_command(""), None);
    assert_eq!(loader.lookup_command("gzz"), None);
    assert_eq!(
        loader.extraction_command("/tmp/a.xz"),
        Err(LoadError::UnsupportedExtension)
    );
}

#[test]
fn lookup_compares_lower_cased() {
    let loader = ImageLoader::new("vol", "/tmp/a.tar.GZ", false);
    assert_eq!(loader.lookup_command("GZ"), Some("gunzip".to_string()));
    assert_eq!(loader.lookup_command("Tar"), Some("tar xvf".to_string()));
    assert_eq!(loader.lookup_command("tBz2"), Some("tar xvjf".to_string()));
}

#[test]
fn mixed_case_extension_extracts_with_original_file_name() {
    let loader = ImageLoader::new("vol1", "/data/vol1.tar.GZ", false);
    let cmd = loader.extraction_command("/data/vol1.tar.GZ").unwrap();
    assert_eq!(
        cmd,
        "docker run --rm --volume vol1:/mybackup -v /data:/backup alpine sh \
         -c \"cd /mybackup && gunzip /backup/vol1.tar.GZ --strip 1\""
    );
}

#[test]
fn empty_extension_is_unsupported() {
    let loader = ImageLoader::new("vol", "/data/foo.", false);
    assert_eq!(
        loader.extraction_command("/data/foo."),
        Err(LoadError::UnsupportedExtension)
    );
}

#[test]
fn missing_extension_is_reported() {
    let loader = ImageLoader::new("vol", "/data/archive", false);
    assert_eq!(
        loader.extraction_command("/data/archive"),
        Err(LoadError::Path(PathError::MissingExtension))
    );
}

#[test]
fn missing_parent_is_reported() {
    let loader = ImageLoader::new("vol", "archive.gz", false);
    assert_eq!(
        loader.extraction_command("archive.gz"),
        Err(LoadError::Path(PathError::MissingParent))
    );
}

#[test]
fn non_interactive_existing_volume_proceeds() {
    let loader = ImageLoader::new("vol", "/tmp/a.tar.gz", false);
    assert!(!loader.needs_confirmation(true));
    assert!(!loader.should_abort(true, true));
    assert!(!loader.should_abort(true, false));
}

#[test]
fn interactive_decline_aborts() {
    let loader = ImageLoader::new("vol", "/tmp/a.tar.gz", true);
    assert!(loader.needs_confirmation(true));
    assert!(loader.should_abort(true, true));
    assert!(!loader.should_abort(true, false));
    assert!(!loader.needs_confirmation(false));
    assert!(!loader.should_abort(false, true));
}

#[test]
fn end_to_end_command_for_gz_archive() {
    let loader = ImageLoader::new("vol1", "/data/vol1.tar.gz", false);
    assert!(!loader.should_abort(false, false));
    let cmd = loader.extraction_command("/data/vol1.tar.gz").unwrap();
    assert_eq!(
        cmd,
        "docker run --rm --volume vol1:/mybackup -v /data:/backup alpine sh \
         -c \"cd /mybackup && gunzip /backup/vol1.tar.gz --strip 1\""
    );
    assert!(cmd.contains("--volume vol1:/mybackup"));
    assert!(cmd.contains("-v /data:/backup"));
    assert!(cmd.contains("gunzip /backup/vol1.tar.gz --strip 1"));
}

#[test]
fn command_line_formula() {
    let cmd = build_command("v", "/p", "f.tgz", "tar xvzf");
    assert_eq!(
        cmd,
        "docker run --rm --volume v:/mybackup -v /p:/backup alpine sh \
         -c \"cd /mybackup && tar xvzf /backup/f.tgz --strip 1\""
    );
}

#[test]
fn repeated_decision_is_stable() {
    let loader = ImageLoader::new("vol", "/tmp/a.tar.gz", false);
    let first = loader.should_abort(true, false);
    let second = loader.should_abort(true, false);
    assert_eq!(first, second);
    assert!(!first);
}
