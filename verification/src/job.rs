use crate::codec::{all_described, all_readable, decode_all, Decode};
use crate::error::Shape;
use crate::jenkins::Tree;
use crate::json::{json_written, Json};
use crate::text::{contains, decimal, decimal_string, occurs_in};
use vstd::prelude::*;
use vstd::string::StringExecFns;

verus! {

/// A listing of jobs: those of the server, or those of one folder.
#[derive(Debug)]
pub struct Info {
    pub jobs: Vec<Jobs>,
}

/// One entry of a job listing.
#[derive(Debug)]
pub struct Jobs {
    /// The server's name for the kind of the entry.
    pub class: String,
    pub full_display_name: String,
    /// The names of the folders above the entry and its own, with slashes
    /// between them.
    pub full_name: String,
    pub name: String,
}

/// A listing of the builds of a job.
#[derive(Debug)]
pub struct BuildInfo {
    pub class: String,
    pub builds: Vec<Build>,
    pub next_build_number: u32,
}

/// One build of a job.
#[derive(Debug)]
pub struct Build {
    pub class: String,
    pub number: u32,
    pub url: String,
}

/// One action attached to a build.
#[derive(Debug)]
pub struct Action {
    /// The server's name for the kind of the action, where it gives one.
    pub class: Option<String>,
}

/// The actions attached to a build.
#[derive(Debug)]
pub struct ActionObj {
    pub class: String,
    pub actions: Vec<Action>,
}

/// The parameters a build was started with, action by action.
#[derive(Debug)]
pub struct BuildParams {
    pub class: String,
    pub actions: Vec<Params>,
}

/// The parameters that one action holds.
#[derive(Debug)]
pub struct Params {
    pub class: String,
    pub parameters: Vec<ParamsAction>,
}

/// One parameter of a build.
#[derive(Debug)]
pub struct ParamsAction {
    pub class: String,
    pub name: String,
    /// The parameter's value, written as a document.
    pub value: String,
}

impl Decode for Jobs {
    open spec fn spec_shape() -> Shape {
        Shape::JobListing
    }

    open spec fn readable(json: Json) -> bool {
        &&& json.spec_text("_class"@) is Some
        &&& json.spec_text("fullDisplayName"@) is Some
        &&& json.spec_text("fullName"@) is Some
        &&& json.spec_text("name"@) is Some
    }

    open spec fn describes(json: Json, record: Self) -> bool {
        &&& json.spec_text("_class"@) == Some(record.class@)
        &&& json.spec_text("fullDisplayName"@) == Some(record.full_display_name@)
        &&& json.spec_text("fullName"@) == Some(record.full_name@)
        &&& json.spec_text("name"@) == Some(record.name@)
    }

    fn shape() -> (shape: Shape) {
        Shape::JobListing
    }

    fn decode(json: &Json) -> (res: Option<Self>) {
        let class = json.text("_class")?;
        let full_display_name = json.text("fullDisplayName")?;
        let full_name = json.text("fullName")?;
        let name = json.text("name")?;
        Some(Jobs { class, full_display_name, full_name, name })
    }
}

impl Decode for Info {
    open spec fn spec_shape() -> Shape {
        Shape::JobListing
    }

    open spec fn readable(json: Json) -> bool {
        json.spec_items("jobs"@) matches Some(items) && all_readable::<Jobs>(items)
    }

    open spec fn describes(json: Json, record: Self) -> bool {
        json.spec_items("jobs"@) matches Some(items) && all_described::<Jobs>(items, record.jobs@)
    }

    fn shape() -> (shape: Shape) {
        Shape::JobListing
    }

    fn decode(json: &Json) -> (res: Option<Self>) {
        let items = json.items("jobs")?;
        let jobs = decode_all::<Jobs>(items)?;
        Some(Info { jobs })
    }
}

/// The number that the member called `key` holds, where it fits in 32 bits.
pub open spec fn spec_number_u32(json: Json, key: Seq<char>) -> Option<u32> {
    match json.spec_number(key) {
        Some(n) => if n <= u32::MAX {
            Some(n as u32)
        } else {
            None
        },
        None => None,
    }
}

/// The number that the member called `key` holds, where it fits in 32 bits.
pub fn number_u32(json: &Json, key: &str) -> (res: Option<u32>)
    ensures
        res == spec_number_u32(*json, key@),
{
    match json.number(key) {
        Some(n) => if n <= u32::MAX as u64 {
            Some(n as u32)
        } else {
            None
        },
        None => None,
    }
}

impl Decode for Build {
    open spec fn spec_shape() -> Shape {
        Shape::BuildListing
    }

    open spec fn readable(json: Json) -> bool {
        &&& json.spec_text("_class"@) is Some
        &&& spec_number_u32(json, "number"@) is Some
        &&& json.spec_text("url"@) is Some
    }

    open spec fn describes(json: Json, record: Self) -> bool {
        &&& json.spec_text("_class"@) == Some(record.class@)
        &&& spec_number_u32(json, "number"@) == Some(record.number)
        &&& json.spec_text("url"@) == Some(record.url@)
    }

    fn shape() -> (shape: Shape) {
        Shape::BuildListing
    }

    fn decode(json: &Json) -> (res: Option<Self>) {
        let class = json.text("_class")?;
        let number = number_u32(json, "number")?;
        let url = json.text("url")?;
        Some(Build { class, number, url })
    }
}

impl Decode for BuildInfo {
    open spec fn spec_shape() -> Shape {
        Shape::BuildListing
    }

    open spec fn readable(json: Json) -> bool {
        &&& json.spec_text("_class"@) is Some
        &&& json.spec_items("builds"@) matches Some(items) && all_readable::<Build>(items)
        &&& spec_number_u32(json, "nextBuildNumber"@) is Some
    }

    open spec fn describes(json: Json, record: Self) -> bool {
        &&& json.spec_text("_class"@) == Some(record.class@)
        &&& json.spec_items("builds"@) matches Some(items) && all_described::<Build>(
            items,
            record.builds@,
        )
        &&& spec_number_u32(json, "nextBuildNumber"@) == Some(record.next_build_number)
    }

    fn shape() -> (shape: Shape) {
        Shape::BuildListing
    }

    fn decode(json: &Json) -> (res: Option<Self>) {
        let class = json.text("_class")?;
        let items = json.items("builds")?;
        let builds = decode_all::<Build>(items)?;
        let next_build_number = number_u32(json, "nextBuildNumber")?;
        Some(BuildInfo { class, builds, next_build_number })
    }
}

impl Decode for Action {
    open spec fn spec_shape() -> Shape {
        Shape::BuildActions
    }

    open spec fn readable(json: Json) -> bool {
        true
    }

    open spec fn describes(json: Json, record: Self) -> bool {
        match record.class {
            Some(class) => json.spec_text("_class"@) == Some(class@),
            None => json.spec_text("_class"@) is None,
        }
    }

    fn shape() -> (shape: Shape) {
        Shape::BuildActions
    }

    fn decode(json: &Json) -> (res: Option<Self>) {
        Some(Action { class: json.text("_class") })
    }
}

impl Decode for ActionObj {
    open spec fn spec_shape() -> Shape {
        Shape::BuildActions
    }

    open spec fn readable(json: Json) -> bool {
        &&& json.spec_text("_class"@) is Some
        &&& json.spec_items("actions"@) is Some
    }

    open spec fn describes(json: Json, record: Self) -> bool {
        &&& json.spec_text("_class"@) == Some(record.class@)
        &&& json.spec_items("actions"@) matches Some(items) && all_described::<Action>(
            items,
            record.actions@,
        )
    }

    fn shape() -> (shape: Shape) {
        Shape::BuildActions
    }

    fn decode(json: &Json) -> (res: Option<Self>) {
        let class = json.text("_class")?;
        let items = json.items("actions")?;
        let actions = decode_all::<Action>(items)?;
        Some(ActionObj { class, actions })
    }
}

impl Decode for ParamsAction {
    open spec fn spec_shape() -> Shape {
        Shape::BuildParameters
    }

    open spec fn readable(json: Json) -> bool {
        &&& json.spec_text("_class"@) is Some
        &&& json.spec_text("name"@) is Some
        &&& json.spec_get("value"@) is Some
    }

    open spec fn describes(json: Json, record: Self) -> bool {
        &&& json.spec_text("_class"@) == Some(record.class@)
        &&& json.spec_text("name"@) == Some(record.name@)
        &&& json.spec_get("value"@) matches Some(value) && record.value@ == json_written(value)
    }

    fn shape() -> (shape: Shape) {
        Shape::BuildParameters
    }

    fn decode(json: &Json) -> (res: Option<Self>) {
        let class = json.text("_class")?;
        let name = json.text("name")?;
        let value = json.get("value")?.write();
        Some(ParamsAction { class, name, value })
    }
}

impl Decode for Params {
    open spec fn spec_shape() -> Shape {
        Shape::BuildParameters
    }

    open spec fn readable(json: Json) -> bool {
        &&& json.spec_text("_class"@) is Some
        &&& json.spec_items("parameters"@) matches Some(items) && all_readable::<ParamsAction>(
            items,
        )
    }

    open spec fn describes(json: Json, record: Self) -> bool {
        &&& json.spec_text("_class"@) == Some(record.class@)
        &&& json.spec_items("parameters"@) matches Some(items) && all_described::<ParamsAction>(
            items,
            record.parameters@,
        )
    }

    fn shape() -> (shape: Shape) {
        Shape::BuildParameters
    }

    fn decode(json: &Json) -> (res: Option<Self>) {
        let class = json.text("_class")?;
        let items = json.items("parameters")?;
        let parameters = decode_all::<ParamsAction>(items)?;
        Some(Params { class, parameters })
    }
}

impl Decode for BuildParams {
    open spec fn spec_shape() -> Shape {
        Shape::BuildParameters
    }

    open spec fn readable(json: Json) -> bool {
        &&& json.spec_text("_class"@) is Some
        &&& json.spec_items("actions"@) matches Some(items) && all_readable::<Params>(items)
    }

    open spec fn describes(json: Json, record: Self) -> bool {
        &&& json.spec_text("_class"@) == Some(record.class@)
        &&& json.spec_items("actions"@) matches Some(items) && all_described::<Params>(
            items,
            record.actions@,
        )
    }

    fn shape() -> (shape: Shape) {
        Shape::BuildParameters
    }

    fn decode(json: &Json) -> (res: Option<Self>) {
        let class = json.text("_class")?;
        let items = json.items("actions")?;
        let actions = decode_all::<Params>(items)?;
        Some(BuildParams { class, actions })
    }
}

/// The word by which an action that holds parameters is known.
pub open spec fn parameters_word() -> Seq<char> {
    "ParametersAction"@
}

/// Whether an action holds the parameters of its build: its class name has
/// the word in it.
pub open spec fn holds_parameters(action: Action) -> bool {
    action.class matches Some(class) && occurs_in(class@, parameters_word())
}

/// The place of the last action that holds parameters.
pub open spec fn parameters_index(actions: Seq<Action>) -> Option<int>
    decreases actions.len(),
{
    if actions.len() == 0 {
        None
    } else if holds_parameters(actions.last()) {
        Some(actions.len() - 1)
    } else {
        parameters_index(actions.drop_last())
    }
}

/// Where one action only holds parameters, its place is the one found.
pub proof fn lemma_single_parameters_action(actions: Seq<Action>, place: int)
    requires
        0 <= place < actions.len(),
        forall|i: int| 0 <= i < actions.len() ==> (holds_parameters(#[trigger] actions[i]) <==> i == place),
    ensures
        parameters_index(actions) == Some(place),
    decreases actions.len(),
{
    if place < actions.len() - 1 {
        let before = actions.drop_last();
        assert forall|i: int| 0 <= i < before.len() implies (holds_parameters(#[trigger] before[i])
            <==> i == place) by {
            assert(before[i] == actions[i]);
        }
        lemma_single_parameters_action(before, place);
    }
}

/// The query for the parameters that the action at `index` of a build holds.
pub open spec fn parameters_query(build: Seq<char>, index: usize) -> Seq<char> {
    build + "/api/json?tree=actions[parameters[name,value]]{"@ + decimal(index as nat) + "}"@
}

impl ActionObj {
    /// The place of the action that holds the build's parameters: of the
    /// last one, where several do.
    pub fn parameters_index(&self) -> (res: Option<usize>)
        ensures
            match res {
                Some(index) => parameters_index(self.actions@) == Some(index as int),
                None => parameters_index(self.actions@) is None,
            },
    {
        let mut i: usize = self.actions.len();
        assert(self.actions@.take(i as int) == self.actions@);
        while i > 0
            invariant
                i <= self.actions.len(),
                parameters_index(self.actions@) == parameters_index(self.actions@.take(i as int)),
            decreases i,
        {
            i -= 1;
            proof {
                let upto = self.actions@.take(i as int + 1);
                assert(upto.last() == self.actions@[i as int]);
                assert(upto.drop_last() == self.actions@.take(i as int));
            }
            let found = match &self.actions[i].class {
                Some(class) => contains(class.as_str(), "ParametersAction"),
                None => false,
            };
            if found {
                return Some(i);
            }
        }
        None
    }

    /// The query for the parameters of build `build`, held by the action at
    /// `index`.
    pub fn parameters_query(build: &str, index: usize) -> (tree: Tree)
        ensures
            tree.query@ == parameters_query(build@, index),
    {
        let mut query = String::from_str(build);
        query.append("/api/json?tree=actions[parameters[name,value]]{");
        query.append(decimal_string(index as u64).as_str());
        query.append("}");
        Tree::new(query)
    }
}

/// The parameters of one action as a query: for each an `&`, its name, an
/// `=` and its value.
pub open spec fn parameters_text(parameters: Seq<ParamsAction>) -> Seq<char>
    decreases parameters.len(),
{
    if parameters.len() == 0 {
        Seq::<char>::empty()
    } else {
        parameters_text(parameters.drop_last()) + "&"@ + parameters.last().name@ + "="@
            + parameters.last().value@
    }
}

/// The parameters of all actions as a query, action after action.
pub open spec fn actions_text(actions: Seq<Params>) -> Seq<char>
    decreases actions.len(),
{
    if actions.len() == 0 {
        Seq::<char>::empty()
    } else {
        actions_text(actions.drop_last()) + parameters_text(actions.last().parameters@)
    }
}

impl BuildParams {
    /// The parameters as the query of a new build with the same parameters.
    pub fn query(&self) -> (text: String)
        ensures
            text@ == actions_text(self.actions@),
    {
        let mut text = String::new();
        let mut i: usize = 0;
        while i < self.actions.len()
            invariant
                i <= self.actions.len(),
                text@ == actions_text(self.actions@.take(i as int)),
            decreases self.actions.len() - i,
        {
            let parameters = &self.actions[i].parameters;
            let mut part = String::new();
            let mut k: usize = 0;
            while k < parameters.len()
                invariant
                    k <= parameters.len(),
                    part@ == parameters_text(parameters@.take(k as int)),
                decreases parameters.len() - k,
            {
                proof {
                    let next = parameters@.take(k as int + 1);
                    assert(next.drop_last() == parameters@.take(k as int));
                    assert(next.last() == parameters@[k as int]);
                }
                part.append("&");
                part.append(parameters[k].name.as_str());
                part.append("=");
                part.append(parameters[k].value.as_str());
                k += 1;
            }
            proof {
                assert(parameters@.take(parameters.len() as int) == parameters@);
                let next = self.actions@.take(i as int + 1);
                assert(next.drop_last() == self.actions@.take(i as int));
                assert(next.last() == self.actions@[i as int]);
            }
            text.append(part.as_str());
            i += 1;
        }
        assert(self.actions@.take(self.actions.len() as int) == self.actions@);
        text
    }
}

} // verus!
