use cli_tools::extract::{
    announces_success, failure_message, missing_tool_message, parse_args, plan_extraction,
    plan_for, ArchiveType, Config, Invocation, Plan,
};
use std::path::Path;

fn strings(list: &[&str]) -> Vec<String> {
    list.iter().map(|s| s.to_string()).collect()
}

fn config(archive: &str) -> Config {
    Config {
        archive_path: archive.to_string(),
        destination: None,
        list_only: false,
        force: false,
        quiet: false,
        keep: false,
    }
}

#[test]
fn extract_kinds_by_name_and_extension() {
    assert_eq!(ArchiveType::classify("a.tar.gz", "gz"), ArchiveType::TarGz);
    assert_eq!(ArchiveType::classify("a.tar.bz2", "bz2"), ArchiveType::TarBz2);
    assert_eq!(ArchiveType::classify("a.tar.xz", "xz"), ArchiveType::TarXz);
    assert_eq!(ArchiveType::classify("a.tar.zst", "zst"), ArchiveType::TarZst);
    assert_eq!(ArchiveType::classify("a.tgz", "tgz"), ArchiveType::TarGz);
    assert_eq!(ArchiveType::classify("a.tbz2", "tbz2"), ArchiveType::TarBz2);
    assert_eq!(ArchiveType::classify("a.txz", "txz"), ArchiveType::TarXz);
    assert_eq!(ArchiveType::classify("a.zip", "zip"), ArchiveType::Zip);
    assert_eq!(ArchiveType::classify("a.tar", "tar"), ArchiveType::Tar);
    assert_eq!(ArchiveType::classify("a.7z", "7z"), ArchiveType::SevenZip);
    assert_eq!(ArchiveType::classify("a.rar", "rar"), ArchiveType::Rar);
    assert_eq!(ArchiveType::classify("a.gz", "gz"), ArchiveType::Unknown);
    assert_eq!(ArchiveType::classify("a.zst", "zst"), ArchiveType::Unknown);
    assert_eq!(ArchiveType::classify("a.txt", "txt"), ArchiveType::Unknown);
    assert_eq!(ArchiveType::classify("", ""), ArchiveType::Unknown);
    assert_eq!(ArchiveType::classify(".tar.gz", ""), ArchiveType::TarGz);
    assert_eq!(ArchiveType::classify("a.tar.gz", "zip"), ArchiveType::TarGz);
    assert_eq!(ArchiveType::classify("a.ZIP", "ZIP"), ArchiveType::Unknown);
}

#[test]
fn extract_kinds_by_path() {
    assert_eq!(ArchiveType::from_path("archive.zip"), ArchiveType::Zip);
    assert_eq!(ArchiveType::from_path("/tmp/x/backup.tar.gz"), ArchiveType::TarGz);
    assert_eq!(ArchiveType::from_path("backup.tar.bz2"), ArchiveType::TarBz2);
    assert_eq!(ArchiveType::from_path("backup.tar.xz"), ArchiveType::TarXz);
    assert_eq!(ArchiveType::from_path("backup.tar.zst"), ArchiveType::TarZst);
    assert_eq!(ArchiveType::from_path("backup.tgz"), ArchiveType::TarGz);
    assert_eq!(ArchiveType::from_path("backup.tbz2"), ArchiveType::TarBz2);
    assert_eq!(ArchiveType::from_path("backup.txz"), ArchiveType::TarXz);
    assert_eq!(ArchiveType::from_path("backup.tar"), ArchiveType::Tar);
    assert_eq!(ArchiveType::from_path("data.7z"), ArchiveType::SevenZip);
    assert_eq!(ArchiveType::from_path("data.rar"), ArchiveType::Rar);
    assert_eq!(ArchiveType::from_path("data.gz"), ArchiveType::Unknown);
    assert_eq!(ArchiveType::from_path("data"), ArchiveType::Unknown);
    assert_eq!(ArchiveType::from_path(""), ArchiveType::Unknown);
}

#[test]
fn extract_kinds_by_path_in_any_case() {
    assert_eq!(ArchiveType::from_path("ARCHIVE.ZIP"), ArchiveType::Zip);
    assert_eq!(ArchiveType::from_path("Backup.Tar.GZ"), ArchiveType::TarGz);
    assert_eq!(ArchiveType::from_path("x.TGZ"), ArchiveType::TarGz);
}

#[test]
fn extract_only_the_last_component_counts() {
    assert_eq!(ArchiveType::from_path("dir.zip/readme"), ArchiveType::Unknown);
    assert_eq!(ArchiveType::from_path("dir.tar.gz/x.rar"), ArchiveType::Rar);
    assert_eq!(ArchiveType::from_path("x.zip/"), ArchiveType::Zip);
    assert_eq!(ArchiveType::from_path("a.tar.gz/"), ArchiveType::TarGz);
    assert_eq!(ArchiveType::from_path("a.tar.gz/."), ArchiveType::TarGz);
    assert_eq!(ArchiveType::from_path("a.zip/.."), ArchiveType::Unknown);
    assert_eq!(ArchiveType::from_path(".zip"), ArchiveType::Unknown);
    assert_eq!(ArchiveType::from_path(".tar.gz"), ArchiveType::TarGz);
    assert_eq!(ArchiveType::from_path("..zip"), ArchiveType::Zip);
}

#[test]
fn extract_kinds_by_path_agree_with_the_parts_of_the_path() {
    for path in ["a.zip", "x/y.tar.gz", "x.zip/", "q/..", ".rar", "a.b.7z", "/", "a.TAR"] {
        let p = Path::new(path);
        let name = p.file_name().and_then(|n| n.to_str()).unwrap_or("").to_lowercase();
        let ext = p.extension().and_then(|e| e.to_str()).unwrap_or("").to_lowercase();
        assert_eq!(ArchiveType::from_path(path), ArchiveType::classify(&name, &ext));
    }
}

#[test]
fn extract_commands_for_unpacking() {
    assert_eq!(ArchiveType::Zip.get_command(), Some(("unzip", vec!["-q"])));
    assert_eq!(ArchiveType::Tar.get_command(), Some(("tar", vec!["-xf"])));
    assert_eq!(ArchiveType::TarGz.get_command(), Some(("tar", vec!["-xzf"])));
    assert_eq!(ArchiveType::TarBz2.get_command(), Some(("tar", vec!["-xjf"])));
    assert_eq!(ArchiveType::TarXz.get_command(), Some(("tar", vec!["-xJf"])));
    assert_eq!(ArchiveType::TarZst.get_command(), Some(("tar", vec!["--zstd", "-xf"])));
    assert_eq!(ArchiveType::SevenZip.get_command(), Some(("7z", vec!["x"])));
    assert_eq!(ArchiveType::Rar.get_command(), Some(("unrar", vec!["x"])));
    assert_eq!(ArchiveType::Unknown.get_command(), None);
}

#[test]
fn extract_commands_for_listing() {
    assert_eq!(ArchiveType::Zip.get_list_command(), Some(("unzip", vec!["-l"])));
    assert_eq!(ArchiveType::Tar.get_list_command(), Some(("tar", vec!["-tf"])));
    assert_eq!(ArchiveType::TarGz.get_list_command(), Some(("tar", vec!["-tzf"])));
    assert_eq!(ArchiveType::TarBz2.get_list_command(), Some(("tar", vec!["-tjf"])));
    assert_eq!(ArchiveType::TarXz.get_list_command(), Some(("tar", vec!["-tJf"])));
    assert_eq!(ArchiveType::TarZst.get_list_command(), Some(("tar", vec!["--zstd", "-tf"])));
    assert_eq!(ArchiveType::SevenZip.get_list_command(), Some(("7z", vec!["l"])));
    assert_eq!(ArchiveType::Rar.get_list_command(), Some(("unrar", vec!["l"])));
    assert_eq!(ArchiveType::Unknown.get_list_command(), None);
}

fn plan(program: &str, args: &[&str]) -> Plan {
    Plan {
        program: program.to_string(),
        args: strings(args),
        directory: None,
        show_output: true,
        remove_archive: true,
    }
}

#[test]
fn extract_plain_plans() {
    assert_eq!(
        plan_for(ArchiveType::Zip, &config("a.zip")),
        Ok(plan("unzip", &["-q", "a.zip"]))
    );
    assert_eq!(
        plan_for(ArchiveType::TarZst, &config("a.tar.zst")),
        Ok(plan("tar", &["--zstd", "-xf", "a.tar.zst"]))
    );
    assert_eq!(
        plan_for(ArchiveType::Unknown, &config("a.txt")).unwrap_err(),
        "Unsupported archive format"
    );
}

#[test]
fn extract_plans_with_flags() {
    let mut c = config("a");
    c.force = true;
    c.quiet = true;
    let mut wanted = plan("unzip", &["-q", "-o", "-qq", "a"]);
    wanted.show_output = false;
    assert_eq!(plan_for(ArchiveType::Zip, &c), Ok(wanted.clone()));
    wanted.program = "7z".to_string();
    wanted.args = strings(&["x", "-bd", "-y", "a"]);
    assert_eq!(plan_for(ArchiveType::SevenZip, &c), Ok(wanted.clone()));
    wanted.program = "unrar".to_string();
    wanted.args = strings(&["x", "-o+", "-inul", "a"]);
    assert_eq!(plan_for(ArchiveType::Rar, &c), Ok(wanted.clone()));
    wanted.program = "tar".to_string();
    wanted.args = strings(&["-xzf", "a"]);
    assert_eq!(plan_for(ArchiveType::TarGz, &c), Ok(wanted));

    let mut forced = config("a");
    forced.force = true;
    assert_eq!(plan_for(ArchiveType::Zip, &forced), Ok(plan("unzip", &["-q", "-o", "a"])));
    assert_eq!(plan_for(ArchiveType::SevenZip, &forced), Ok(plan("7z", &["x", "-y", "a"])));
    assert_eq!(plan_for(ArchiveType::Rar, &forced), Ok(plan("unrar", &["x", "-o+", "a"])));
}

#[test]
fn extract_plans_for_listing() {
    let mut c = config("a.zip");
    c.list_only = true;
    c.destination = Some("out".to_string());
    c.force = true;
    let mut wanted = plan("unzip", &["-l", "-o", "a.zip"]);
    wanted.remove_archive = false;
    assert_eq!(plan_for(ArchiveType::Zip, &c), Ok(wanted));
}

#[test]
fn extract_plans_with_a_destination_and_keeping() {
    let mut c = config("a.tar");
    c.destination = Some("out/dir".to_string());
    c.keep = true;
    let mut wanted = plan("tar", &["-xf", "a.tar"]);
    wanted.directory = Some("out/dir".to_string());
    wanted.remove_archive = false;
    assert_eq!(plan_for(ArchiveType::Tar, &c), Ok(wanted));
}

#[test]
fn extract_plans_by_path() {
    assert_eq!(
        plan_extraction(&config("/data/Set.TAR.GZ")),
        Ok(plan("tar", &["-xzf", "/data/Set.TAR.GZ"]))
    );
    assert_eq!(
        plan_extraction(&config("notes.txt")).unwrap_err(),
        "Unsupported archive format"
    );
}

#[test]
fn extract_messages() {
    assert_eq!(missing_tool_message("unrar"), "Required command 'unrar' not found");
    assert_eq!(
        failure_message("Extraction failed", "no such file"),
        "Extraction failed: no such file"
    );
    assert_eq!(failure_message("Failed to remove archive", ""), "Failed to remove archive: ");
}

#[test]
fn extract_announcing_success() {
    let mut c = config("a");
    assert!(announces_success(&c));
    c.quiet = true;
    assert!(!announces_success(&c));
    c.quiet = false;
    c.list_only = true;
    assert!(!announces_success(&c));
}

#[test]
fn extract_args_with_an_archive() {
    assert_eq!(
        parse_args(&strings(&["extract", "a.zip"])),
        Ok(Invocation::Run(config("a.zip")))
    );
    let mut wanted = config("a.zip");
    wanted.destination = Some("out".to_string());
    assert_eq!(
        parse_args(&strings(&["extract", "a.zip", "out"])),
        Ok(Invocation::Run(wanted.clone()))
    );
    assert_eq!(
        parse_args(&strings(&["extract", "a.zip", "first", "out"])),
        Ok(Invocation::Run(wanted))
    );
}

#[test]
fn extract_args_with_options() {
    let mut wanted = config("a.zip");
    wanted.list_only = true;
    wanted.force = true;
    wanted.quiet = true;
    wanted.keep = true;
    assert_eq!(
        parse_args(&strings(&["extract", "-l", "-f", "a.zip", "-q", "-k"])),
        Ok(Invocation::Run(wanted.clone()))
    );
    assert_eq!(
        parse_args(&strings(&["extract", "--list", "--force", "--quiet", "--keep", "a.zip"])),
        Ok(Invocation::Run(wanted))
    );
}

#[test]
fn extract_args_asking_for_help() {
    assert_eq!(parse_args(&strings(&["extract", "-h"])), Ok(Invocation::Help));
    assert_eq!(parse_args(&strings(&["extract", "a.zip", "--help"])), Ok(Invocation::Help));
}

#[test]
fn extract_args_errors() {
    assert_eq!(parse_args(&strings(&["extract"])).unwrap_err(), "No archive specified");
    assert_eq!(parse_args(&strings(&[])).unwrap_err(), "No archive specified");
    assert_eq!(parse_args(&strings(&["extract", "-l", "-q"])).unwrap_err(), "No archive specified");
}

#[test]
fn extract_an_empty_archive_name_is_passed_over() {
    let mut wanted = config("b");
    wanted.destination = None;
    assert_eq!(
        parse_args(&strings(&["extract", "", "b"])),
        Ok(Invocation::Run(wanted))
    );
}
