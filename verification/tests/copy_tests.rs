use gsc_client::addr::{CpArg, RemotePattern};
use gsc_client::text::{ends_in_slash, join_path};
use gsc_client::copy::{
    choose_upload_name, download_sources, get_base_filename, plan_download, plan_upload,
    tag_resolved, upload_sources, upload_uri, DstType, UploadPlan,
};
use gsc_client::errors::GscError;
use gsc_client::messages::{FileMeta, FilePurpose};

fn meta(name: &str, uri: &str) -> FileMeta {
    FileMeta {
        name: name.to_owned(),
        uri: uri.to_owned(),
        byte_count: 10,
        upload_time: "2019-01-01 12:00".to_owned(),
        purpose: FilePurpose::Source,
    }
}

fn rpat(hw: usize, pat: &str) -> RemotePattern {
    RemotePattern { hw, pat: pat.to_owned() }
}

#[test]
fn download_rejects_local_source() {
    let srcs = vec![
        CpArg::Remote(rpat(3, "*.py")),
        CpArg::Local("here.py".to_owned()),
    ];
    match download_sources(&srcs, "out") {
        Err(GscError::CannotCopyLocalToLocal(src, dst)) => {
            assert_eq!(src, "here.py");
            assert_eq!(dst, "out");
        }
        other => panic!("expected wrong-direction error, got {:?}", other),
    }
}

#[test]
fn download_sources_keeps_order() {
    let srcs = vec![CpArg::Remote(rpat(1, "a")), CpArg::Remote(rpat(2, ""))];
    let rpats = download_sources(&srcs, "out").unwrap();
    assert_eq!(rpats.len(), 2);
    assert_eq!(rpats[0].hw, 1);
    assert_eq!(rpats[1].hw, 2);
    assert!(rpats[1].is_whole_hw());
}

// copy(all=false, [hw3:*.py], "out/") where assignment 3 resolved a.py and
// b.py: both land in out/, and an existing out/ is not an error.
#[test]
fn download_glob_into_existing_directory() {
    let source = rpat(3, "*.py");
    let files = vec![meta("a.py", "/f/a"), meta("b.py", "/f/b")];
    let resolved = tag_resolved(files, &source);
    let plan = plan_download(false, &resolved, "out/", DstType::Dir).unwrap();
    assert!(!plan.create_dst_dir);
    assert_eq!(plan.steps.len(), 2);
    assert_eq!(plan.steps[0].dest, "out/a.py");
    assert_eq!(plan.steps[0].rel_uri, "/f/a");
    assert_eq!(plan.steps[0].ensure_dir, None);
    assert_eq!(plan.steps[1].dest, "out/b.py");
    assert_eq!(plan.steps[1].hw, 3);
}

#[test]
fn download_one_file_onto_existing_file() {
    let resolved = tag_resolved(vec![meta("a.py", "/f/a")], &rpat(3, "a.py"));
    let plan = plan_download(false, &resolved, "local.py", DstType::File).unwrap();
    assert!(!plan.create_dst_dir);
    assert_eq!(plan.steps.len(), 1);
    assert_eq!(plan.steps[0].dest, "local.py");
    assert_eq!(plan.steps[0].ensure_dir, None);
}

#[test]
fn download_whole_assignment_onto_file_is_error() {
    let resolved = tag_resolved(vec![meta("a.py", "/f/a")], &rpat(3, ""));
    match plan_download(false, &resolved, "local.py", DstType::File) {
        Err(GscError::SourceDirToDestinationFile(hw, dst)) => {
            assert_eq!(hw, 3);
            assert_eq!(dst, "local.py");
        }
        other => panic!("expected source-dir error, got {:?}", other),
    }
}

#[test]
fn download_many_onto_file_is_error() {
    let resolved = tag_resolved(vec![meta("a.py", "/f/a"), meta("b.py", "/f/b")], &rpat(3, "*.py"));
    match plan_download(false, &resolved, "local.py", DstType::File) {
        Err(GscError::MultipleSourcesOneDestination(CpArg::Local(dst))) => {
            assert_eq!(dst, "local.py");
        }
        other => panic!("expected multiple-sources error, got {:?}", other),
    }
}

#[test]
fn download_one_file_creates_new_file() {
    let resolved = tag_resolved(vec![meta("a.py", "/f/a")], &rpat(3, "a.py"));
    let plan = plan_download(false, &resolved, "fresh.py", DstType::DoesNotExist).unwrap();
    assert_eq!(plan.steps.len(), 1);
    assert_eq!(plan.steps[0].dest, "fresh.py");
}

#[test]
fn download_slash_path_means_directory() {
    let resolved = tag_resolved(vec![meta("a.py", "/f/a")], &rpat(3, "a.py"));
    let plan = plan_download(true, &resolved, "newdir/", DstType::DoesNotExist).unwrap();
    assert!(plan.create_dst_dir);
    assert_eq!(plan.steps.len(), 1);
    assert_eq!(plan.steps[0].dest, "newdir/a.py");
}

#[test]
fn download_whole_assignment_uses_purpose_subdirs() {
    let mut log = meta("run.log", "/f/log");
    log.purpose = FilePurpose::Log;
    let resolved = tag_resolved(vec![meta("a.py", "/f/a"), log], &rpat(3, ""));
    let plan = plan_download(true, &resolved, "out", DstType::Dir).unwrap();
    assert!(plan.create_dst_dir);
    assert_eq!(plan.steps.len(), 2);
    assert_eq!(plan.steps[0].ensure_dir.as_deref(), Some("out/src"));
    assert_eq!(plan.steps[0].dest, "out/src/a.py");
    assert_eq!(plan.steps[1].ensure_dir.as_deref(), Some("out/log"));
    assert_eq!(plan.steps[1].dest, "out/log/run.log");
}

#[test]
fn upload_rejects_remote_source() {
    let dst = rpat(3, "");
    let srcs = vec![CpArg::Local("a.py".to_owned()), CpArg::Remote(rpat(1, "x"))];
    match upload_sources(&srcs, &dst) {
        Err(GscError::CannotCopyRemoteToRemote(src, d)) => {
            assert_eq!(src.hw, 1);
            assert_eq!(d.hw, 3);
        }
        other => panic!("expected wrong-direction error, got {:?}", other),
    }
}

// copy(all=false, [solution.py], hw3:) uploads solution.py under its own
// name.
#[test]
fn upload_whole_assignment_uses_base_names() {
    let dst = rpat(3, "");
    let srcs = upload_sources(&vec![CpArg::Local("work/solution.py".to_owned())], &dst).unwrap();
    match plan_upload(&srcs, &dst).unwrap() {
        UploadPlan::Whole(w) => {
            assert_eq!(w.steps.len(), 1);
            assert_eq!(w.steps[0].src, "work/solution.py");
            assert_eq!(w.steps[0].name, "solution.py");
            assert!(w.skipped.is_empty());
        }
        other => panic!("expected whole-assignment plan, got {:?}", other),
    }
}

#[test]
fn upload_underivable_name_is_skipped_not_fatal() {
    let dst = rpat(3, "");
    let srcs = vec!["a.py".to_owned(), "work/..".to_owned(), "sub/b.py".to_owned()];
    match plan_upload(&srcs, &dst).unwrap() {
        UploadPlan::Whole(w) => {
            assert_eq!(w.steps.len(), 2);
            assert_eq!(w.steps[0].name, "a.py");
            assert_eq!(w.steps[1].name, "b.py");
            assert_eq!(w.skipped, vec!["work/..".to_owned()]);
        }
        other => panic!("expected whole-assignment plan, got {:?}", other),
    }
}

// copy(all=false, [a.py, b.py], hw3:final.py) fails before any network
// call: the planner rejects it without any listing in hand.
#[test]
fn upload_two_sources_one_name_is_error() {
    let dst = rpat(3, "final.py");
    let srcs = vec!["a.py".to_owned(), "b.py".to_owned()];
    match plan_upload(&srcs, &dst) {
        Err(GscError::MultipleSourcesOneDestination(CpArg::Remote(d))) => {
            assert_eq!(d.hw, 3);
            assert_eq!(d.pat, "final.py");
        }
        other => panic!("expected multiple-sources error, got {:?}", other),
    }
}

#[test]
fn upload_single_source_needs_listing() {
    let dst = rpat(3, "final.py");
    match plan_upload(&vec!["a.py".to_owned()], &dst).unwrap() {
        UploadPlan::NeedListing(src) => assert_eq!(src, "a.py"),
        other => panic!("expected need-listing, got {:?}", other),
    }
}

#[test]
fn upload_name_zero_matches_uses_pattern() {
    let dst = rpat(3, "final.py");
    assert_eq!(choose_upload_name(&dst, &vec![]).unwrap(), "final.py");
}

#[test]
fn upload_name_one_match_overwrites_it() {
    let dst = rpat(3, "fin*");
    let matches = vec![meta("final.py", "/f/fin")];
    assert_eq!(choose_upload_name(&dst, &matches).unwrap(), "final.py");
}

#[test]
fn upload_name_two_matches_is_ambiguous() {
    let dst = rpat(3, "*.py");
    let matches = vec![meta("a.py", "/f/a"), meta("b.py", "/f/b")];
    match choose_upload_name(&dst, &matches) {
        Err(GscError::AmbiguousDestination(d, names)) => {
            assert_eq!(d.pat, "*.py");
            assert_eq!(names, vec!["a.py".to_owned(), "b.py".to_owned()]);
        }
        other => panic!("expected ambiguous-destination error, got {:?}", other),
    }
}

#[test]
fn base_filename_cases() {
    assert_eq!(get_base_filename("dir/file.py").unwrap(), "file.py");
    assert_eq!(get_base_filename("file.py").unwrap(), "file.py");
    assert_eq!(get_base_filename("a/b/c.txt").unwrap(), "c.txt");
    // Trailing separators and `.` components are dropped before the base
    // name is taken, as the standard library reads a file name.
    assert_eq!(get_base_filename("dir/").unwrap(), "dir");
    assert_eq!(get_base_filename("x//").unwrap(), "x");
    assert_eq!(get_base_filename("a/.").unwrap(), "a");
    assert_eq!(get_base_filename("a/./").unwrap(), "a");
    assert_eq!(get_base_filename("a.").unwrap(), "a.");
    assert!(matches!(get_base_filename(""), Err(GscError::BadLocalPath(_))));
    assert!(matches!(get_base_filename("/"), Err(GscError::BadLocalPath(_))));
    assert!(matches!(get_base_filename("."), Err(GscError::BadLocalPath(_))));
    assert!(matches!(get_base_filename("./"), Err(GscError::BadLocalPath(_))));
    assert!(matches!(get_base_filename(".."), Err(GscError::BadLocalPath(_))));
    assert!(matches!(get_base_filename("a/.."), Err(GscError::BadLocalPath(_))));
    match get_base_filename("a/..") {
        Err(GscError::BadLocalPath(p)) => assert_eq!(p, "a/.."),
        other => panic!("expected bad-path error, got {:?}", other),
    }
}

#[test]
fn path_joining() {
    assert_eq!(join_path("out", "a.py"), "out/a.py");
    assert_eq!(join_path("out/", "a.py"), "out/a.py");
    assert_eq!(join_path("", "a.py"), "/a.py");
    assert!(ends_in_slash("out/"));
    assert!(!ends_in_slash("out"));
    assert!(!ends_in_slash(""));
}

#[test]
fn upload_uri_percent_encodes_the_name() {
    let uri = upload_uri("http://host/api/submissions/3/files", "a b.py");
    assert_eq!(uri, "http://host/api/submissions/3/files/a%20b%2Epy");
    let plain = upload_uri("base", "abc123");
    assert_eq!(plain, "base/abc123");
}
