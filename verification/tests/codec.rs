use jenkins_remote::codec::{decode_document, Decode};
use jenkins_remote::error::{ClientError, Shape};
use jenkins_remote::jenkins::Jenkins;
use jenkins_remote::job::{Action, ActionObj, BuildInfo, BuildParams, Info};
use jenkins_remote::json::Json;
use jenkins_remote::node::{Computer, NodesInfo};

const NODES: &str = r#"{
    "_class": "hudson.model.ComputerSet",
    "busyExecutors": 3,
    "computer": [
        {"displayName": "built-in", "offline": false, "numExecutors": 4, "icon": "x.png"},
        {"displayName": "agent-1", "offline": true, "monitorData": {}}
    ],
    "displayName": "Nodes",
    "totalExecutors": 10
}"#;

#[test]
fn node_info_is_decoded() {
    let info: NodesInfo = Jenkins::system(NODES.as_bytes()).unwrap();
    assert_eq!(info.busy_executors, 3);
    assert_eq!(info.total_executors, 10);
    assert_eq!(info.display_name, "Nodes");
    assert_eq!(info.computer.len(), 2);
    assert_eq!(info.computer[0].display_name, "built-in");
    assert!(!info.computer[0].offline);
    assert_eq!(info.computer[1].display_name, "agent-1");
    assert!(info.computer[1].offline);
}

#[test]
fn node_info_survives_a_round_trip() {
    let info: NodesInfo = Jenkins::system(NODES.as_bytes()).unwrap();
    let written = info.encode().write();
    let again: NodesInfo = Jenkins::system(written.as_bytes()).unwrap();
    assert_eq!(again.busy_executors, 3);
    assert_eq!(again.total_executors, 10);
    assert_eq!(again.display_name, info.display_name);
    assert_eq!(again.computer.len(), 2);
    assert_eq!(again.computer[1].display_name, "agent-1");
    assert!(again.computer[1].offline);
    assert_eq!(
        written,
        r#"{"busyExecutors":3,"computer":[{"displayName":"built-in","offline":false},{"displayName":"agent-1","offline":true}],"displayName":"Nodes","totalExecutors":10}"#
    );
}

#[test]
fn a_node_is_written_as_it_reads() {
    let node = Computer { display_name: "n".to_string(), offline: true };
    let again = Computer::decode(&node.encode()).unwrap();
    assert_eq!(again.display_name, "n");
    assert!(again.offline);
}

#[test]
fn counts_must_fit_their_fields() {
    let too_many = r#"{"busyExecutors": 4294967296, "computer": [], "displayName": "", "totalExecutors": 1}"#;
    assert_eq!(
        Jenkins::system::<NodesInfo>(too_many.as_bytes()).err(),
        Some(ClientError::DecodeError(Shape::NodeListing))
    );
    let fits = r#"{"busyExecutors": 4294967295, "computer": [], "displayName": "", "totalExecutors": 65535}"#;
    let info: NodesInfo = Jenkins::system(fits.as_bytes()).unwrap();
    assert_eq!(info.busy_executors, u32::MAX);
    assert_eq!(info.total_executors, u16::MAX);
    let total = r#"{"busyExecutors": 1, "computer": [], "displayName": "", "totalExecutors": 65536}"#;
    assert!(Jenkins::system::<NodesInfo>(total.as_bytes()).is_err());
    let negative = r#"{"busyExecutors": -1, "computer": [], "displayName": "", "totalExecutors": 1}"#;
    assert!(Jenkins::system::<NodesInfo>(negative.as_bytes()).is_err());
    let broken = r#"{"busyExecutors": 1.5, "computer": [], "displayName": "", "totalExecutors": 1}"#;
    assert!(Jenkins::system::<NodesInfo>(broken.as_bytes()).is_err());
}

#[test]
fn a_missing_member_is_a_decode_error() {
    let text = r#"{"busyExecutors": 3, "computer": [], "displayName": "Nodes"}"#;
    assert_eq!(
        Jenkins::system::<NodesInfo>(text.as_bytes()).err(),
        Some(ClientError::DecodeError(Shape::NodeListing))
    );
    let node = r#"{"busyExecutors": 3, "computer": [{"displayName": "a"}], "displayName": "Nodes", "totalExecutors": 1}"#;
    assert!(Jenkins::system::<NodesInfo>(node.as_bytes()).is_err());
}

#[test]
fn a_member_of_the_wrong_kind_is_a_decode_error() {
    let text = r#"{"jobs": {"name": "a"}}"#;
    assert_eq!(
        Jenkins::system::<Info>(text.as_bytes()).err(),
        Some(ClientError::DecodeError(Shape::JobListing))
    );
    let text = r#"{"jobs": [{"_class": "c", "fullDisplayName": "a", "fullName": "a", "name": 1}]}"#;
    assert!(Jenkins::system::<Info>(text.as_bytes()).is_err());
}

#[test]
fn bytes_that_hold_no_document_are_a_decode_error() {
    assert_eq!(
        Jenkins::system::<Info>(b"<html>").err(),
        Some(ClientError::DecodeError(Shape::JobListing))
    );
    assert_eq!(
        Jenkins::system::<BuildInfo>(b"").err(),
        Some(ClientError::DecodeError(Shape::BuildListing))
    );
    assert_eq!(
        decode_document::<ActionObj>(None).err(),
        Some(ClientError::DecodeError(Shape::BuildActions))
    );
    assert_eq!(
        decode_document::<BuildParams>(Some(Json::Null)).err(),
        Some(ClientError::DecodeError(Shape::BuildParameters))
    );
}

#[test]
fn shapes_have_names() {
    assert_eq!(Shape::JobListing.name(), "Info");
    assert_eq!(Shape::BuildListing.name(), "BuildInfo");
    assert_eq!(Shape::NodeListing.name(), "NodesInfo");
    assert_eq!(Shape::BuildActions.name(), "ActionObj");
    assert_eq!(Shape::BuildParameters.name(), "BuildParams");
    assert_eq!(NodesInfo::shape(), Shape::NodeListing);
    assert_eq!(Info::shape(), Shape::JobListing);
}

#[test]
fn a_job_listing_is_decoded() {
    let text = r#"{"_class": "hudson.model.Hudson", "jobs": [
        {"_class": "com.cloudbees.hudson.plugins.folder.Folder", "fullDisplayName": "F", "fullName": "F", "name": "F", "url": "http://x/"},
        {"_class": "hudson.model.FreeStyleProject", "fullDisplayName": "F » A", "fullName": "F/A", "name": "A"}
    ]}"#;
    let info: Info = Jenkins::system(text.as_bytes()).unwrap();
    assert_eq!(info.jobs.len(), 2);
    assert_eq!(info.jobs[0].class, "com.cloudbees.hudson.plugins.folder.Folder");
    assert_eq!(info.jobs[0].name, "F");
    assert_eq!(info.jobs[1].full_display_name, "F » A");
    assert_eq!(info.jobs[1].full_name, "F/A");
    assert_eq!(info.jobs[1].name, "A");
}

#[test]
fn a_build_listing_is_decoded() {
    let text = r#"{"_class": "hudson.model.FreeStyleProject",
        "builds": [
            {"_class": "hudson.model.FreeStyleBuild", "number": 12, "url": "http://x/job/a/12/"},
            {"_class": "hudson.model.FreeStyleBuild", "number": 11, "url": "http://x/job/a/11/"}
        ],
        "nextBuildNumber": 13}"#;
    let info: BuildInfo = Jenkins::system(text.as_bytes()).unwrap();
    assert_eq!(info.next_build_number, 13);
    assert_eq!(info.builds.len(), 2);
    assert_eq!(info.builds[0].number, 12);
    assert_eq!(info.builds[1].number, 11);
    assert_eq!(info.builds[1].url, "http://x/job/a/11/");
    assert_eq!(info.class, "hudson.model.FreeStyleProject");
}

#[test]
fn the_action_with_the_parameters_is_selected() {
    let text = r#"{"_class": "hudson.model.FreeStyleBuild", "actions": [
        {"_class": "hudson.model.CauseAction"},
        {},
        {"_class": "hudson.model.ParametersAction"},
        {"_class": "jenkins.metrics.impl.TimeInQueueAction"},
        {}
    ]}"#;
    let actions: ActionObj = Jenkins::system(text.as_bytes()).unwrap();
    assert_eq!(actions.actions.len(), 5);
    assert_eq!(actions.actions[1].class, None);
    assert_eq!(actions.parameters_index(), Some(2));
    let tree = ActionObj::parameters_query("41", 2);
    assert_eq!(tree.query, "41/api/json?tree=actions[parameters[name,value]]{2}");
}

#[test]
fn without_parameters_no_action_is_selected() {
    let none = ActionObj {
        class: "b".to_string(),
        actions: vec![
            Action { class: Some("hudson.model.CauseAction".to_string()) },
            Action { class: None },
        ],
    };
    assert_eq!(none.parameters_index(), None);
    let empty = ActionObj { class: "b".to_string(), actions: vec![] };
    assert_eq!(empty.parameters_index(), None);
}

#[test]
fn the_last_action_with_parameters_counts() {
    let two = ActionObj {
        class: "b".to_string(),
        actions: vec![
            Action { class: Some("hudson.model.ParametersAction".to_string()) },
            Action { class: Some("x.ParametersActionEnvironment".to_string()) },
            Action { class: Some("hudson.model.CauseAction".to_string()) },
        ],
    };
    assert_eq!(two.parameters_index(), Some(1));
}

#[test]
fn build_parameters_become_a_query() {
    let text = r#"{"_class": "hudson.model.FreeStyleBuild", "actions": [
        {"_class": "hudson.model.ParametersAction", "parameters": [
            {"_class": "hudson.model.StringParameterValue", "name": "branch", "value": "main"},
            {"_class": "hudson.model.BooleanParameterValue", "name": "clean", "value": true},
            {"_class": "hudson.model.StringParameterValue", "name": "count", "value": 3}
        ]}
    ]}"#;
    let params: BuildParams = Jenkins::system(text.as_bytes()).unwrap();
    assert_eq!(params.actions.len(), 1);
    assert_eq!(params.actions[0].parameters[0].name, "branch");
    assert_eq!(params.actions[0].parameters[0].value, "\"main\"");
    assert_eq!(params.actions[0].parameters[1].value, "true");
    assert_eq!(params.query(), "&branch=\"main\"&clean=true&count=3");
}

#[test]
fn an_action_without_parameters_is_a_decode_error() {
    let text = r#"{"_class": "b", "actions": [{"_class": "hudson.model.CauseAction"}]}"#;
    assert_eq!(
        Jenkins::system::<BuildParams>(text.as_bytes()).err(),
        Some(ClientError::DecodeError(Shape::BuildParameters))
    );
}

#[test]
fn documents_are_read_member_by_member() {
    let json = Json::read(br#"{"a": "x", "b": 7, "c": true, "d": [null, 1.5], "e": {"f": -2}}"#).unwrap();
    assert_eq!(json.text("a"), Some("x".to_string()));
    assert_eq!(json.number("b"), Some(7));
    assert_eq!(json.flag("c"), Some(true));
    assert_eq!(json.items("d").map(|items| items.len()), Some(2));
    assert_eq!(json.text("b"), None);
    assert_eq!(json.number("a"), None);
    assert_eq!(json.flag("zz"), None);
    assert!(json.get("zz").is_none());
    let inner = json.get("e").unwrap();
    assert_eq!(inner.number("f"), None);
    assert_eq!(inner.write(), r#"{"f":-2}"#);
    assert_eq!(json.get("d").unwrap().write(), "[null,1.5]");
    assert!(Json::read(b"{").is_none());
}

#[test]
fn a_number_that_is_none_is_written_as_null() {
    assert_eq!(Json::Number("12".to_string()).write(), "12");
    assert_eq!(Json::Number("-1.5".to_string()).write(), "-1.5");
    assert_eq!(Json::Number("true".to_string()).write(), "null");
    assert_eq!(Json::Number(String::new()).write(), "null");
    assert_eq!(Json::Text("a\"b".to_string()).write(), "\"a\\\"b\"");
    assert_eq!(
        Json::Array(vec![Json::Null, Json::Bool(false)]).write(),
        "[null,false]"
    );
}
