use helix_increment::{for_each_changed_file, head_name, FileChange, RepoStatus, StatusPath};
use std::cell::RefCell;

fn path(p: &str) -> StatusPath {
    StatusPath { path: p.to_string(), copy_source: None }
}

fn sample_status() -> RepoStatus {
    RepoStatus {
        modified: vec![
            StatusPath { path: "a".to_string(), copy_source: Some("z".to_string()) },
            path("b"),
        ],
        added: vec![path("c")],
        unsure: vec![path("d")],
        removed: vec![path("e"), path("f"), path("g")],
    }
}

#[test]
fn every_change_is_handed_in_group_order() {
    let seen = RefCell::new(Vec::new());
    let counts = for_each_changed_file(&sample_status(), |c| {
        seen.borrow_mut().push(c);
        true
    });
    assert_eq!(counts, vec![3, 1, 3]);
    assert_eq!(
        seen.into_inner(),
        vec![
            FileChange::Renamed { from_path: "z".to_string(), to_path: "a".to_string() },
            FileChange::Modified { path: "b".to_string() },
            FileChange::Modified { path: "c".to_string() },
            FileChange::Conflict { path: "d".to_string() },
            FileChange::Deleted { path: "e".to_string() },
            FileChange::Deleted { path: "f".to_string() },
            FileChange::Deleted { path: "g".to_string() },
        ]
    );
}

#[test]
fn a_false_answer_ends_only_its_group() {
    let seen = RefCell::new(Vec::new());
    let counts = for_each_changed_file(&sample_status(), |c| {
        let go_on = !matches!(&c, FileChange::Modified { path } if path == "b")
            && !matches!(&c, FileChange::Deleted { path } if path == "f");
        seen.borrow_mut().push(c);
        go_on
    });
    assert_eq!(counts, vec![2, 1, 2]);
    assert_eq!(seen.into_inner().len(), 5);
}

#[test]
fn an_empty_status_hands_nothing() {
    let status = RepoStatus { modified: vec![], added: vec![], unsure: vec![], removed: vec![] };
    let seen = RefCell::new(0usize);
    let counts = for_each_changed_file(&status, |_| {
        *seen.borrow_mut() += 1;
        true
    });
    assert_eq!(counts, vec![0, 0, 0]);
    assert_eq!(seen.into_inner(), 0);
}

#[test]
fn head_name_joins_branch_and_topic() {
    assert_eq!(head_name("default", None), "default");
    assert_eq!(head_name("default", Some("feature")), "default//feature");
    assert_eq!(head_name("", Some("")), "//");
}
