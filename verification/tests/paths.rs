use jenkins_remote::error::ClientError;
use jenkins_remote::jenkins::Tree;
use jenkins_remote::path::{to_job_segments, ResourcePath};

fn names(path: &ResourcePath) -> Vec<&str> {
    path.segments.iter().map(|s| s.as_str()).collect()
}

#[test]
fn segments_keep_their_order() {
    let path = to_job_segments("a/b/c").unwrap();
    assert_eq!(names(&path), vec!["a", "b", "c"]);
    assert_eq!(path.render(), "job/a/job/b/job/c/");
}

#[test]
fn render_writes_one_marker_per_segment() {
    let path = to_job_segments("team/service/deploy").unwrap();
    let rendered = path.render();
    assert_eq!(rendered.matches("job/").count(), 3);
    assert_eq!(rendered, "job/team/job/service/job/deploy/");
}

#[test]
fn a_segment_that_ends_in_the_marker_word_adds_a_marker() {
    let path = to_job_segments("nightlyjob/run").unwrap();
    let rendered = path.render();
    assert_eq!(rendered, "job/nightlyjob/job/run/");
    assert_eq!(rendered.matches("job/").count(), 3);
}

#[test]
fn single_segment() {
    let path = to_job_segments("deploy").unwrap();
    assert_eq!(names(&path), vec!["deploy"]);
    assert_eq!(path.render(), "job/deploy/");
}

#[test]
fn empty_pieces_are_no_segments() {
    assert_eq!(names(&to_job_segments("/a//b/").unwrap()), vec!["a", "b"]);
}

#[test]
fn a_dot_is_a_segment_only_at_the_start() {
    assert_eq!(names(&to_job_segments("a/./b").unwrap()), vec!["a", "b"]);
    assert_eq!(names(&to_job_segments("./a").unwrap()), vec![".", "a"]);
    assert_eq!(names(&to_job_segments("/./a").unwrap()), vec!["a"]);
    assert_eq!(names(&to_job_segments("a/../b").unwrap()), vec!["a", "..", "b"]);
}

#[test]
fn empty_path_is_invalid() {
    assert_eq!(to_job_segments("").err(), Some(ClientError::InvalidPath));
    assert_eq!(to_job_segments("/").err(), Some(ClientError::InvalidPath));
    assert_eq!(to_job_segments("///").err(), Some(ClientError::InvalidPath));
}

#[test]
fn dots_alone_are_invalid() {
    assert_eq!(to_job_segments(".").err(), Some(ClientError::InvalidPath));
    assert_eq!(to_job_segments("..").err(), Some(ClientError::InvalidPath));
    assert_eq!(to_job_segments("./..").err(), Some(ClientError::InvalidPath));
    assert_eq!(to_job_segments("../..").err(), Some(ClientError::InvalidPath));
}

#[test]
fn tree_new_keeps_the_query() {
    let tree = Tree::new("computer/api/json".to_string());
    assert_eq!(tree.query, "computer/api/json");
}

#[test]
fn build_path_puts_the_prefix_first() {
    let tree = Tree::new("api/json?tree=builds[number,url],nextBuildNumber".to_string());
    let tree = tree.build_path("folder/job").unwrap();
    assert_eq!(
        tree.query,
        "job/folder/job/job/api/json?tree=builds[number,url],nextBuildNumber"
    );
}

#[test]
fn build_path_rejects_a_path_without_names() {
    let tree = Tree::new("42/consoleText".to_string());
    assert_eq!(tree.build_path("").err(), Some(ClientError::InvalidPath));
    let tree = Tree::new("42/consoleText".to_string());
    assert_eq!(tree.build_path("..").err(), Some(ClientError::InvalidPath));
}

#[test]
fn with_path_prefix_agrees_with_build_path() {
    let path = to_job_segments("a/b").unwrap();
    let one = Tree::new("7/stop".to_string()).with_path_prefix(&path);
    let other = Tree::new("7/stop".to_string()).build_path("a/b").unwrap();
    assert_eq!(one.query, other.query);
    assert_eq!(one.query, "job/a/job/b/7/stop");
}

#[test]
fn a_tree_is_written_as_its_query() {
    let tree = Tree::new("7/consoleText".to_string()).build_path("a").unwrap();
    assert_eq!(tree.to_string(), "job/a/7/consoleText");
}
