use crate::codec::{all_described, all_readable, decode_all, Decode};
use crate::error::Shape;
use crate::json::{member, Json};
use crate::text::{decimal_string, lemma_decimal_reads_back};
use vstd::prelude::*;
use vstd::string::StringExecFns;

verus! {

/// The nodes of the server and the state of their executors.
#[derive(Debug)]
pub struct NodesInfo {
    pub busy_executors: u32,
    pub computer: Vec<Computer>,
    pub display_name: String,
    pub total_executors: u16,
}

/// One node of the server.
#[derive(Debug)]
pub struct Computer {
    pub display_name: String,
    pub offline: bool,
}

/// The number that the member called `key` holds, where it fits in `bits`
/// bits.
pub open spec fn bounded_number(json: Json, key: Seq<char>, limit: u64) -> Option<u64> {
    match json.spec_number(key) {
        Some(n) => if n <= limit {
            Some(n)
        } else {
            None
        },
        None => None,
    }
}

/// The number that the member called `key` holds, where it is `limit` at
/// most.
fn number_up_to(json: &Json, key: &str, limit: u64) -> (res: Option<u64>)
    ensures
        res == bounded_number(*json, key@, limit),
{
    match json.number(key) {
        Some(n) => if n <= limit {
            Some(n)
        } else {
            None
        },
        None => None,
    }
}

impl Decode for Computer {
    open spec fn spec_shape() -> Shape {
        Shape::NodeListing
    }

    open spec fn readable(json: Json) -> bool {
        &&& json.spec_text("displayName"@) is Some
        &&& json.spec_flag("offline"@) is Some
    }

    open spec fn describes(json: Json, record: Self) -> bool {
        &&& json.spec_text("displayName"@) == Some(record.display_name@)
        &&& json.spec_flag("offline"@) == Some(record.offline)
    }

    fn shape() -> (shape: Shape) {
        Shape::NodeListing
    }

    fn decode(json: &Json) -> (res: Option<Self>) {
        let display_name = json.text("displayName")?;
        let offline = json.flag("offline")?;
        Some(Computer { display_name, offline })
    }
}

impl Decode for NodesInfo {
    open spec fn spec_shape() -> Shape {
        Shape::NodeListing
    }

    open spec fn readable(json: Json) -> bool {
        &&& bounded_number(json, "busyExecutors"@, 0xffff_ffff) is Some
        &&& json.spec_items("computer"@) matches Some(items) && all_readable::<Computer>(items)
        &&& json.spec_text("displayName"@) is Some
        &&& bounded_number(json, "totalExecutors"@, 0xffff) is Some
    }

    open spec fn describes(json: Json, record: Self) -> bool {
        &&& json.spec_number("busyExecutors"@) == Some(record.busy_executors as u64)
        &&& json.spec_items("computer"@) matches Some(items) && all_described::<Computer>(
            items,
            record.computer@,
        )
        &&& json.spec_text("displayName"@) == Some(record.display_name@)
        &&& json.spec_number("totalExecutors"@) == Some(record.total_executors as u64)
    }

    fn shape() -> (shape: Shape) {
        Shape::NodeListing
    }

    fn decode(json: &Json) -> (res: Option<Self>) {
        let busy = number_up_to(json, "busyExecutors", 0xffff_ffff)?;
        let items = json.items("computer")?;
        let computer = decode_all::<Computer>(items)?;
        let display_name = json.text("displayName")?;
        let total = number_up_to(json, "totalExecutors", 0xffff)?;
        Some(
            NodesInfo {
                busy_executors: busy as u32,
                computer,
                display_name,
                total_executors: total as u16,
            },
        )
    }
}

impl Computer {
    /// Writes the node as a document that reads back as the same node.
    pub fn encode(&self) -> (json: Json)
        ensures
            Computer::readable(json),
            Computer::describes(json, *self),
    {
        let mut members: Vec<(String, Json)> = Vec::new();
        members.push((String::from_str("displayName"), Json::Text(self.display_name.clone())));
        members.push((String::from_str("offline"), Json::Bool(self.offline)));
        proof {
            reveal_strlit("displayName");
            reveal_strlit("offline");
            assert("displayName"@.len() != "offline"@.len());
            let rest = members@.drop_first();
            assert(rest[0] == members@[1]);
            assert(member(members@, "offline"@) == member(rest, "offline"@));
        }
        Json::Object(members)
    }
}

impl NodesInfo {
    /// Writes the record as a document that reads back as the same record:
    /// the counts of executors and the names and states of the nodes are
    /// kept as they are.
    pub fn encode(&self) -> (json: Json)
        ensures
            NodesInfo::readable(json),
            NodesInfo::describes(json, *self),
    {
        let mut nodes: Vec<Json> = Vec::new();
        let mut i: usize = 0;
        while i < self.computer.len()
            invariant
                i <= self.computer.len(),
                nodes.len() == i,
                forall|k: int| 0 <= k < i ==> Computer::readable(#[trigger] nodes@[k]),
                forall|k: int|
                    0 <= k < i ==> Computer::describes(#[trigger] nodes@[k], self.computer@[k]),
            decreases self.computer.len() - i,
        {
            nodes.push(self.computer[i].encode());
            i += 1;
        }
        let ghost items = nodes@;
        let mut members: Vec<(String, Json)> = Vec::new();
        members.push(
            (
                String::from_str("busyExecutors"),
                Json::Number(decimal_string(self.busy_executors as u64)),
            ),
        );
        members.push((String::from_str("computer"), Json::Array(nodes)));
        members.push((String::from_str("displayName"), Json::Text(self.display_name.clone())));
        members.push(
            (
                String::from_str("totalExecutors"),
                Json::Number(decimal_string(self.total_executors as u64)),
            ),
        );
        proof {
            reveal_strlit("busyExecutors");
            reveal_strlit("computer");
            reveal_strlit("displayName");
            reveal_strlit("totalExecutors");
            lemma_decimal_reads_back(self.busy_executors as nat);
            lemma_decimal_reads_back(self.total_executors as nat);
            let m0 = members@;
            let m1 = m0.drop_first();
            let m2 = m1.drop_first();
            let m3 = m2.drop_first();
            assert(m1[0] == m0[1]);
            assert(m2[0] == m0[2]);
            assert(m3[0] == m0[3]);
            assert("busyExecutors"@.len() == 13);
            assert("computer"@.len() == 8);
            assert("displayName"@.len() == 11);
            assert("totalExecutors"@.len() == 14);
            assert(member(m0, "busyExecutors"@) == Some(m0[0].1));
            assert(member(m0, "computer"@) == member(m1, "computer"@));
            assert(member(m1, "computer"@) == Some(m0[1].1));
            assert(member(m0, "displayName"@) == member(m1, "displayName"@));
            assert(member(m1, "displayName"@) == member(m2, "displayName"@));
            assert(member(m2, "displayName"@) == Some(m0[2].1));
            assert(member(m0, "totalExecutors"@) == member(m1, "totalExecutors"@));
            assert(member(m1, "totalExecutors"@) == member(m2, "totalExecutors"@));
            assert(member(m2, "totalExecutors"@) == member(m3, "totalExecutors"@));
            assert(member(m3, "totalExecutors"@) == Some(m0[3].1));
        }
        Json::Object(members)
    }
}

/// A document describes one record only: two records that it describes
/// hold the same counts, the same name, and nodes of the same names and
/// states.
pub proof fn lemma_nodes_described_once(json: Json, a: NodesInfo, b: NodesInfo)
    requires
        NodesInfo::describes(json, a),
        NodesInfo::describes(json, b),
    ensures
        a.busy_executors == b.busy_executors,
        a.total_executors == b.total_executors,
        a.display_name@ == b.display_name@,
        a.computer@.len() == b.computer@.len(),
        forall|i: int|
            0 <= i < a.computer@.len() ==> (#[trigger] a.computer@[i]).display_name@
                == b.computer@[i].display_name@ && a.computer@[i].offline == b.computer@[i].offline,
{
    let items = json.spec_items("computer"@)->0;
    assert forall|i: int| 0 <= i < a.computer@.len() implies (#[trigger] a.computer@[i]).display_name@
        == b.computer@[i].display_name@ && a.computer@[i].offline == b.computer@[i].offline by {
        assert(Computer::describes(items[i], a.computer@[i]));
        assert(Computer::describes(items[i], b.computer@[i]));
    }
}

} // verus!
