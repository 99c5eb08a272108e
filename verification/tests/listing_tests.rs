use gsc_client::addr::RemotePattern;
use gsc_client::errors::GscError;
use gsc_client::listing::{check_listing_nonempty, filter_files};
use gsc_client::messages::{FileMeta, FilePurpose};

fn meta(name: &str) -> FileMeta {
    FileMeta {
        name: name.to_owned(),
        uri: format!("/files/{}", name),
        byte_count: 1,
        upload_time: "2019-01-01 12:00".to_owned(),
        purpose: FilePurpose::Source,
    }
}

fn names(files: &[FileMeta]) -> Vec<String> {
    files.iter().map(|f| f.name.clone()).collect()
}

// list(address with pattern p) keeps exactly the files whose name
// glob-matches p.
#[test]
fn filter_keeps_exactly_the_matches() {
    let files = vec![meta("a.py"), meta("b.py"), meta("readme.txt")];
    let kept = filter_files(files, "*.py").unwrap();
    assert_eq!(names(&kept), vec!["a.py".to_owned(), "b.py".to_owned()]);
}

// list(address with empty pattern) returns the full set.
#[test]
fn empty_pattern_keeps_everything() {
    let files = vec![meta("a.py"), meta("b.py"), meta("readme.txt")];
    let kept = filter_files(files.clone(), "").unwrap();
    assert_eq!(kept, files);
}

#[test]
fn filter_question_mark_and_classes() {
    let files = vec![meta("a1.py"), meta("a22.py"), meta("b1.py")];
    let kept = filter_files(files.clone(), "a?.py").unwrap();
    assert_eq!(names(&kept), vec!["a1.py".to_owned()]);
    let kept = filter_files(files, "[ab]1.py").unwrap();
    assert_eq!(names(&kept), vec!["a1.py".to_owned(), "b1.py".to_owned()]);
}

#[test]
fn filter_no_match_is_empty_not_error() {
    let files = vec![meta("a.py")];
    let kept = filter_files(files, "*.txt").unwrap();
    assert!(kept.is_empty());
}

#[test]
fn bad_glob_is_rejected() {
    let files = vec![meta("a.py")];
    match filter_files(files, "a[") {
        Err(GscError::InvalidGlob(p)) => assert_eq!(p, "a["),
        other => panic!("expected invalid-glob error, got {:?}", other),
    }
}

#[test]
fn empty_listing_where_one_is_required() {
    let rp = RemotePattern { hw: 9, pat: "nothing*".to_owned() };
    match check_listing_nonempty(&vec![], &rp) {
        Err(GscError::NoSuchRemoteFile(r)) => {
            assert_eq!(r.hw, 9);
            assert_eq!(r.pat, "nothing*");
        }
        other => panic!("expected no-such-file error, got {:?}", other),
    }
    assert!(check_listing_nonempty(&vec![meta("a.py")], &rp).is_ok());
}
