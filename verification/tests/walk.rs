use jenkins_remote::job::{Info, Jobs};
use jenkins_remote::walk::{classify, Action, FlattenedJob, JobKind, Walker};

const FOLDER: &str = "com.cloudbees.hudson.plugins.folder.Folder";
const PROJECT: &str = "hudson.model.FreeStyleProject";

fn job(class: &str, full_name: &str) -> Jobs {
    let name = full_name.rsplit('/').next().unwrap();
    Jobs {
        class: class.to_string(),
        full_display_name: full_name.replace('/', " » "),
        full_name: full_name.to_string(),
        name: name.to_string(),
    }
}

fn listing(jobs: Vec<Jobs>) -> Info {
    Info { jobs }
}

fn fetch(walker: &mut Walker) -> String {
    match walker.next() {
        Action::Fetch(tree) => tree.query,
        other => panic!("expected a fetch, got {:?}", other),
    }
}

fn emit(walker: &mut Walker) -> FlattenedJob {
    match walker.next() {
        Action::Emit(job) => job,
        other => panic!("expected a job, got {:?}", other),
    }
}

fn crumbs(job: &FlattenedJob) -> String {
    let mut all: Vec<&str> = job.breadcrumb.iter().map(|s| s.as_str()).collect();
    all.push(job.leaf_name.as_str());
    all.join("/")
}

#[test]
fn classes_are_told_apart_by_their_last_word() {
    assert_eq!(classify(FOLDER), JobKind::Folder);
    assert_eq!(classify(PROJECT), JobKind::Leaf);
    assert_eq!(classify("a.b.FOLDER"), JobKind::Folder);
    assert_eq!(classify("a.b.folder"), JobKind::Folder);
    assert_eq!(classify("folder"), JobKind::Folder);
    assert_eq!(classify("jenkins.branch.OrganizationFolder"), JobKind::Leaf);
    assert_eq!(classify("com.cloudbees.hudson.plugins.folder.Folder."), JobKind::Leaf);
    assert_eq!(classify("folder.Project"), JobKind::Leaf);
    assert_eq!(classify(""), JobKind::Leaf);
}

#[test]
fn a_nested_namespace_is_flattened_depth_first() {
    let mut walker = Walker::new(&listing(vec![job(FOLDER, "F")]));
    assert_eq!(
        fetch(&mut walker),
        "/job/F/api/json?tree=jobs[fullDisplayName,fullName,name]"
    );
    walker.expand(&listing(vec![
        job(PROJECT, "F/A"),
        job(PROJECT, "F/B"),
        job(FOLDER, "F/G"),
    ]));
    let mut seen: Vec<String> = Vec::new();
    let a = emit(&mut walker);
    assert_eq!(a.breadcrumb, vec!["F".to_string()]);
    assert_eq!(a.leaf_name, "A");
    assert!(!a.is_folder);
    seen.push(crumbs(&a));
    let b = emit(&mut walker);
    assert_eq!(b.breadcrumb, vec!["F".to_string()]);
    assert_eq!(b.leaf_name, "B");
    seen.push(crumbs(&b));
    assert_eq!(
        fetch(&mut walker),
        "/job/F/job/G/api/json?tree=jobs[fullDisplayName,fullName,name]"
    );
    walker.expand(&listing(vec![job(PROJECT, "F/G/C")]));
    let c = emit(&mut walker);
    assert_eq!(c.breadcrumb, vec!["F".to_string(), "G".to_string()]);
    assert_eq!(c.leaf_name, "C");
    assert!(!c.is_folder);
    seen.push(crumbs(&c));
    assert!(matches!(walker.next(), Action::Done));
    assert!(matches!(walker.next(), Action::Done));
    assert_eq!(seen, vec!["F/A", "F/B", "F/G/C"]);
}

#[test]
fn a_folder_in_the_middle_is_walked_before_what_follows() {
    let mut walker = Walker::new(&listing(vec![
        job(PROJECT, "first"),
        job(FOLDER, "F"),
        job(PROJECT, "last"),
    ]));
    let mut seen: Vec<String> = Vec::new();
    seen.push(crumbs(&emit(&mut walker)));
    assert_eq!(
        fetch(&mut walker),
        "/job/F/api/json?tree=jobs[fullDisplayName,fullName,name]"
    );
    walker.expand(&listing(vec![job(PROJECT, "F/x"), job(PROJECT, "F/y")]));
    seen.push(crumbs(&emit(&mut walker)));
    seen.push(crumbs(&emit(&mut walker)));
    seen.push(crumbs(&emit(&mut walker)));
    assert!(matches!(walker.next(), Action::Done));
    assert_eq!(seen, vec!["first", "F/x", "F/y", "last"]);
}

#[test]
fn an_empty_folder_yields_nothing() {
    let mut walker = Walker::new(&listing(vec![job(FOLDER, "F"), job(PROJECT, "A")]));
    fetch(&mut walker);
    walker.expand(&listing(vec![]));
    assert_eq!(crumbs(&emit(&mut walker)), "A");
    assert!(matches!(walker.next(), Action::Done));
}

#[test]
fn an_empty_namespace_is_done_at_once() {
    let mut walker = Walker::new(&listing(vec![]));
    assert!(matches!(walker.next(), Action::Done));
}

#[test]
fn an_awaited_listing_is_asked_for_again() {
    let mut walker = Walker::new(&listing(vec![job(FOLDER, "F")]));
    let first = fetch(&mut walker);
    let again = fetch(&mut walker);
    assert_eq!(first, again);
    walker.expand(&listing(vec![job(PROJECT, "F/A")]));
    assert_eq!(crumbs(&emit(&mut walker)), "F/A");
}

#[test]
fn a_listing_that_was_not_asked_for_changes_nothing() {
    let mut walker = Walker::new(&listing(vec![job(PROJECT, "A")]));
    walker.expand(&listing(vec![job(PROJECT, "B")]));
    assert_eq!(crumbs(&emit(&mut walker)), "A");
    assert!(matches!(walker.next(), Action::Done));
}

/// What the server lists for a query, in a namespace of three folders and
/// five jobs.
fn served(query: &str) -> Info {
    let end = "/api/json?tree=jobs[fullDisplayName,fullName,name]";
    match query.strip_suffix(end).unwrap() {
        "/job/apps" => listing(vec![
            job(PROJECT, "apps/web"),
            job(FOLDER, "apps/mobile"),
            job(PROJECT, "apps/api"),
        ]),
        "/job/apps/job/mobile" => listing(vec![
            job(PROJECT, "apps/mobile/ios"),
            job(PROJECT, "apps/mobile/android"),
        ]),
        "/job/ops" => listing(vec![]),
        other => panic!("no folder at {}", other),
    }
}

#[test]
fn a_whole_walk_yields_each_job_once_and_asks_once_per_folder() {
    let top = listing(vec![job(FOLDER, "apps"), job(PROJECT, "docs"), job(FOLDER, "ops")]);
    let mut walker = Walker::new(&top);
    let mut seen: Vec<String> = Vec::new();
    let mut asked: Vec<String> = Vec::new();
    let mut turns = 0;
    loop {
        turns += 1;
        assert!(turns <= 9, "the walk does not end");
        match walker.next() {
            Action::Fetch(tree) => {
                walker.expand(&served(&tree.query));
                asked.push(tree.query);
            }
            Action::Emit(job) => seen.push(crumbs(&job)),
            Action::Done => break,
        }
    }
    assert_eq!(turns, 9);
    assert_eq!(
        seen,
        vec!["apps/web", "apps/mobile/ios", "apps/mobile/android", "apps/api", "docs"]
    );
    assert_eq!(
        asked,
        vec![
            "/job/apps/api/json?tree=jobs[fullDisplayName,fullName,name]",
            "/job/apps/job/mobile/api/json?tree=jobs[fullDisplayName,fullName,name]",
            "/job/ops/api/json?tree=jobs[fullDisplayName,fullName,name]",
        ]
    );
}
