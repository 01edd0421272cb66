use feet::archive::{ArchiveEntry, ArchiveFault};
use feet::extract::{
    extract_runtime, plan_extraction, progress_mark, Escape, Notice, Step, STAGING_DIR,
};
use feet::flow::LaunchError;
use std::io::{Cursor, Write};
use zip::write::{FileOptions, ZipWriter};

fn file(name: &str, content: &[u8], mode: Option<u32>) -> ArchiveEntry {
    ArchiveEntry {
        name: name.to_string(),
        path: name.to_string(),
        content: content.to_vec(),
        mode,
    }
}

fn directory(name: &str, mode: Option<u32>) -> ArchiveEntry {
    ArchiveEntry {
        name: name.to_string(),
        path: name.trim_end_matches('/').to_string(),
        content: Vec::new(),
        mode,
    }
}

fn report(notice: Notice) -> Step {
    Step::Report { notice }
}

fn rename(to: &str) -> Step {
    Step::Rename { from: "feet".to_string(), to: to.to_string() }
}

#[test]
fn staging_directory_is_named_by_the_payload() {
    assert_eq!(STAGING_DIR, "feet");
}

#[test]
fn plan_for_a_directory_and_a_file() {
    let entries = vec![directory("a/", None), file("a/b.txt", b"hello", Some(0o644))];
    let steps = plan_extraction(entries, "app_data").unwrap();
    assert_eq!(
        steps,
        vec![
            report(Notice::Begin),
            Step::CreateDirAll { path: "a".to_string() },
            report(Notice::Tick),
            Step::CreateDirAll { path: "a".to_string() },
            Step::WriteFile { path: "a/b.txt".to_string(), content: b"hello".to_vec() },
            Step::SetMode { path: "a/b.txt".to_string(), mode: 0o644 },
            report(Notice::Tick),
            rename("app_data"),
            report(Notice::Done),
        ]
    );
}

#[test]
fn plan_for_no_entries_only_renames() {
    let steps = plan_extraction(Vec::new(), "app_data").unwrap();
    assert_eq!(steps, vec![report(Notice::Begin), rename("app_data"), report(Notice::Done)]);
}

#[test]
fn file_at_the_top_needs_no_directory() {
    let steps = plan_extraction(vec![file("top.txt", b"", None)], "x_data").unwrap();
    assert_eq!(
        steps,
        vec![
            report(Notice::Begin),
            Step::WriteFile { path: "top.txt".to_string(), content: Vec::new() },
            report(Notice::Tick),
            rename("x_data"),
            report(Notice::Done),
        ]
    );
}

#[test]
fn directory_mode_is_applied_to_the_directory() {
    let steps = plan_extraction(vec![directory("feet/bin/", Some(0o40755))], "x_data").unwrap();
    assert_eq!(
        steps,
        vec![
            report(Notice::Begin),
            Step::CreateDirAll { path: "feet/bin".to_string() },
            Step::SetMode { path: "feet/bin".to_string(), mode: 0o40755 },
            report(Notice::Tick),
            rename("x_data"),
            report(Notice::Done),
        ]
    );
}

#[test]
fn escaping_entry_is_refused() {
    let mut escaping = file("ok.txt", b"x", None);
    escaping.path = "../outside.txt".to_string();
    let entries = vec![file("feet/a", b"a", None), escaping, file("/etc/passwd", b"", None)];
    assert_eq!(plan_extraction(entries, "app_data"), Err(Escape { index: 1 }));
}

#[test]
fn rooted_entry_is_refused() {
    let entries = vec![file("/etc/passwd", b"", None)];
    assert_eq!(plan_extraction(entries, "app_data"), Err(Escape { index: 0 }));
}

#[test]
fn every_hundredth_entry_reports_a_percentage() {
    assert_eq!(progress_mark(0, 250), Notice::Tick);
    assert_eq!(progress_mark(1, 250), Notice::Tick);
    assert_eq!(progress_mark(99, 250), Notice::Tick);
    assert_eq!(progress_mark(100, 250), Notice::Percent { done: 40 });
    assert_eq!(progress_mark(101, 250), Notice::Tick);
    assert_eq!(progress_mark(200, 250), Notice::Percent { done: 80 });
    assert_eq!(progress_mark(100, 300), Notice::Percent { done: 33 });
}

#[test]
fn percentage_past_the_end_is_a_hundred() {
    assert_eq!(progress_mark(100, 100), Notice::Percent { done: 100 });
    assert_eq!(progress_mark(200, 0), Notice::Percent { done: 100 });
}

#[test]
fn percentage_of_a_very_long_archive() {
    assert_eq!(progress_mark(usize::MAX / 100 * 100, usize::MAX), Notice::Percent { done: 99 });
}

#[test]
fn plan_marks_the_hundredth_entry() {
    let entries: Vec<ArchiveEntry> =
        (0..101).map(|i| file(&format!("feet/f{}", i), b"", None)).collect();
    let steps = plan_extraction(entries, "app_data").unwrap();
    let notices: Vec<Notice> = steps
        .iter()
        .filter_map(|step| match step {
            Step::Report { notice } => Some(*notice),
            _ => None,
        })
        .collect();
    assert_eq!(notices.len(), 103);
    assert_eq!(notices[0], Notice::Begin);
    assert_eq!(notices[100], Notice::Tick);
    assert_eq!(notices[101], Notice::Percent { done: 99 });
    assert_eq!(notices[102], Notice::Done);
}

#[test]
fn payload_with_a_directory_and_a_file_is_unpacked_whole() {
    let mut writer = ZipWriter::new(Cursor::new(Vec::new()));
    writer.add_directory("a/", FileOptions::default()).unwrap();
    writer.start_file("a/b.txt", FileOptions::default().unix_permissions(0o644)).unwrap();
    writer.write_all(b"hello").unwrap();
    let payload = writer.finish().unwrap().into_inner();

    let steps = extract_runtime(payload, "app_data").unwrap();
    assert!(steps.contains(&Step::CreateDirAll { path: "a".to_string() }));
    let written = steps.iter().position(|step| {
        *step == Step::WriteFile { path: "a/b.txt".to_string(), content: b"hello".to_vec() }
    });
    let created = steps.iter().position(|step| *step == Step::CreateDirAll { path: "a".to_string() });
    assert!(created.unwrap() < written.unwrap());
    let mode = steps.iter().find_map(|step| match step {
        Step::SetMode { path, mode } if path == "a/b.txt" => Some(*mode),
        _ => None,
    });
    assert_eq!(mode.map(|mode| mode & 0o7777), Some(0o644));
    assert_eq!(steps[steps.len() - 2], rename("app_data"));
    assert_eq!(steps[steps.len() - 1], report(Notice::Done));
}

#[test]
fn traversal_in_a_payload_never_reaches_the_plan() {
    let mut writer = ZipWriter::new(Cursor::new(Vec::new()));
    writer.start_file("../../etc/evil.txt", FileOptions::default()).unwrap();
    writer.write_all(b"x").unwrap();
    writer.start_file("/abs.txt", FileOptions::default()).unwrap();
    writer.write_all(b"y").unwrap();
    let payload = writer.finish().unwrap().into_inner();

    let steps = extract_runtime(payload, "app_data").unwrap();
    for step in &steps {
        let path = match step {
            Step::CreateDirAll { path } => path,
            Step::WriteFile { path, .. } => path,
            Step::SetMode { path, .. } => path,
            _ => continue,
        };
        assert!(!path.starts_with('/'));
        assert!(path.split('/').all(|part| part != ".."));
    }
    assert!(steps.contains(&Step::WriteFile {
        path: "etc/evil.txt".to_string(),
        content: b"x".to_vec()
    }));
    assert!(steps.contains(&Step::WriteFile { path: "abs.txt".to_string(), content: b"y".to_vec() }));
}

#[test]
fn drive_letter_in_a_payload_is_refused() {
    let mut writer = ZipWriter::new(Cursor::new(Vec::new()));
    writer.start_file("feet/ok.txt", FileOptions::default()).unwrap();
    writer.start_file("c:/evil.txt", FileOptions::default()).unwrap();
    let payload = writer.finish().unwrap().into_inner();
    assert_eq!(
        extract_runtime(payload, "app_data"),
        Err(LaunchError::UnsafeEntry { index: 1 })
    );
}

#[test]
fn payload_that_is_no_archive_is_an_archive_failure() {
    assert_eq!(
        extract_runtime(b"plain text, and enough of it to look through".to_vec(), "app_data"),
        Err(LaunchError::Archive(ArchiveFault::Invalid))
    );
}
