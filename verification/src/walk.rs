use crate::job::{Info, Jobs};
use crate::jenkins::Tree;
use crate::text::{chars_of, split, split_chars, texts};
use vstd::prelude::*;
use vstd::string::StringExecFns;

verus! {

/// The two kinds of entries in the server's namespace.
#[derive(Clone, Copy, Debug, PartialEq, Eq, Structural)]
pub enum JobKind {
    /// An entry that holds further entries.
    Folder,
    /// An entry that can be built.
    Leaf,
}

/// The last word of a class name: what follows its last dot, or all of it
/// where it has none.
pub open spec fn last_word(class: Seq<char>) -> Seq<char> {
    split(class, '.').last()
}

/// Whether `word` is `lower`, with any of its letters in upper case
/// instead, as `upper` gives them.
pub open spec fn spells(word: Seq<char>, lower: Seq<char>, upper: Seq<char>) -> bool {
    word.len() == lower.len() && forall|i: int|
        0 <= i < word.len() ==> #[trigger] word[i] == lower[i] || word[i] == upper[i]
}

/// Whether a class name is that of a folder: its last word is `folder`, in
/// upper or lower case.
pub open spec fn is_folder_class(class: Seq<char>) -> bool {
    spells(
        last_word(class),
        seq!['f', 'o', 'l', 'd', 'e', 'r'],
        seq!['F', 'O', 'L', 'D', 'E', 'R'],
    )
}

/// The kind of an entry with this class name.
pub open spec fn kind_of(class: Seq<char>) -> JobKind {
    if is_folder_class(class) {
        JobKind::Folder
    } else {
        JobKind::Leaf
    }
}

/// Tells folders from jobs by the class name that the server reports.
pub fn classify(class: &str) -> (kind: JobKind)
    ensures
        kind == kind_of(class@),
{
    let chars = chars_of(class);
    let pieces = split_chars(&chars, '.');
    proof {
        crate::text::lemma_split_pieces(class@, '.');
    }
    let word = &pieces[pieces.len() - 1];
    assert(word@ == last_word(class@));
    let lower: [char; 6] = ['f', 'o', 'l', 'd', 'e', 'r'];
    let upper: [char; 6] = ['F', 'O', 'L', 'D', 'E', 'R'];
    assert(lower@ == seq!['f', 'o', 'l', 'd', 'e', 'r']);
    assert(upper@ == seq!['F', 'O', 'L', 'D', 'E', 'R']);
    if word.len() != 6 {
        return JobKind::Leaf;
    }
    let mut i: usize = 0;
    while i < 6
        invariant
            i <= 6,
            word.len() == 6,
            word@ == last_word(class@),
            lower@ == seq!['f', 'o', 'l', 'd', 'e', 'r'],
            upper@ == seq!['F', 'O', 'L', 'D', 'E', 'R'],
            forall|k: int| 0 <= k < i ==> #[trigger] word@[k] == lower@[k] || word@[k] == upper@[k],
        decreases 6 - i,
    {
        if word[i] != lower[i] && word[i] != upper[i] {
            return JobKind::Leaf;
        }
        i += 1;
    }
    JobKind::Folder
}

/// One entry of the flattened namespace.
#[derive(Debug)]
pub struct FlattenedJob {
    /// The names of the folders above the entry, from the outermost inwards.
    pub breadcrumb: Vec<String>,
    /// The entry's own name.
    pub leaf_name: String,
    pub is_folder: bool,
}

/// The mathematical value of a [`FlattenedJob`].
pub struct Flat {
    pub breadcrumb: Seq<Seq<char>>,
    pub leaf_name: Seq<char>,
    pub is_folder: bool,
}

impl View for FlattenedJob {
    type V = Flat;

    open spec fn view(&self) -> Flat {
        Flat {
            breadcrumb: texts(self.breadcrumb@),
            leaf_name: self.leaf_name@,
            is_folder: self.is_folder,
        }
    }
}

/// The projection that a job listing asks for.
pub open spec fn listing_projection() -> Seq<char> {
    "/api/json?tree=jobs[fullDisplayName,fullName,name]"@
}

/// The path of a folder below the server's address: for each name, from the
/// outermost folder inwards, a slash, the marker and the name.
pub open spec fn folder_path(names: Seq<Seq<char>>) -> Seq<char>
    decreases names.len(),
{
    if names.len() == 0 {
        Seq::<char>::empty()
    } else {
        folder_path(names.drop_last()) + "/job/"@ + names.last()
    }
}

/// The query that lists what a folder holds.
pub open spec fn folder_query(folder: Flat) -> Seq<char> {
    folder_path(folder.breadcrumb.push(folder.leaf_name)) + listing_projection()
}

/// The entry for a job listed at the top of the namespace.
pub open spec fn root_entry(job: Jobs) -> Flat {
    Flat {
        breadcrumb: Seq::<Seq<char>>::empty(),
        leaf_name: job.full_name@,
        is_folder: is_folder_class(job.class@),
    }
}

/// The entry for a job listed in `folder`.
pub open spec fn child_entry(folder: Flat, job: Jobs) -> Flat {
    Flat {
        breadcrumb: folder.breadcrumb.push(folder.leaf_name),
        leaf_name: job.name@,
        is_folder: is_folder_class(job.class@),
    }
}

/// The entries for the jobs of the top listing, the first job last.
pub open spec fn root_entries(jobs: Seq<Jobs>) -> Seq<Flat> {
    Seq::new(jobs.len(), |i: int| root_entry(jobs[jobs.len() - 1 - i]))
}

/// The entries for the jobs listed in `folder`, the first job last.
pub open spec fn child_entries(folder: Flat, jobs: Seq<Jobs>) -> Seq<Flat> {
    Seq::new(jobs.len(), |i: int| child_entry(folder, jobs[jobs.len() - 1 - i]))
}

/// The views of the entries of `v`, in order.
pub open spec fn flats(v: Seq<FlattenedJob>) -> Seq<Flat> {
    v.map_values(|e: FlattenedJob| e@)
}

/// What the walker wants next.
#[derive(Debug)]
pub enum Action {
    /// The listing that answers this query, handed to `expand`.
    Fetch(Tree),
    /// Nothing: this job is the next of the flattened namespace.
    Emit(FlattenedJob),
    /// Nothing: the namespace is walked through.
    Done,
}

/// A walk through the server's namespace, folders first opened when their
/// turn comes, that yields the jobs in depth-first order.
#[derive(Debug)]
pub struct Walker {
    /// The entries still to visit; the next one is the last.
    pub pending: Vec<FlattenedJob>,
    /// The folder whose listing is awaited.
    pub open: Option<FlattenedJob>,
}

/// The mathematical value of a [`Walker`].
pub struct WalkerView {
    pub pending: Seq<Flat>,
    pub open: Option<Flat>,
}

impl View for Walker {
    type V = WalkerView;

    open spec fn view(&self) -> WalkerView {
        WalkerView {
            pending: flats(self.pending@),
            open: match self.open {
                Some(folder) => Some(folder@),
                None => None,
            },
        }
    }
}

/// Copies a list of names.
fn copy_names(names: &Vec<String>) -> (copy: Vec<String>)
    ensures
        texts(copy@) == texts(names@),
{
    let mut copy: Vec<String> = Vec::new();
    let mut i: usize = 0;
    while i < names.len()
        invariant
            i <= names.len(),
            texts(copy@) == texts(names@).take(i as int),
        decreases names.len() - i,
    {
        copy.push(names[i].clone());
        assert(texts(copy@) == texts(names@).take(i as int).push(names@[i as int]@));
        i += 1;
    }
    assert(texts(names@).take(names.len() as int) == texts(names@));
    copy
}

impl Walker {
    /// A walk that begins with the jobs of the top listing.
    pub fn new(top: &Info) -> (walker: Self)
        ensures
            walker@.pending == root_entries(top.jobs@),
            walker@.open is None,
    {
        let mut pending: Vec<FlattenedJob> = Vec::new();
        let n = top.jobs.len();
        let mut i: usize = 0;
        while i < n
            invariant
                i <= n,
                n == top.jobs.len(),
                flats(pending@) == root_entries(top.jobs@).take(i as int),
            decreases n - i,
        {
            let job = &top.jobs[n - 1 - i];
            let entry = FlattenedJob {
                breadcrumb: Vec::new(),
                leaf_name: job.full_name.clone(),
                is_folder: match classify(job.class.as_str()) {
                    JobKind::Folder => true,
                    JobKind::Leaf => false,
                },
            };
            assert(entry@ == root_entry(*job)) by {
                assert(entry@.breadcrumb == Seq::<Seq<char>>::empty());
            }
            pending.push(entry);
            assert(flats(pending@) == root_entries(top.jobs@).take(i as int).push(
                root_entry(*job),
            ));
            i += 1;
        }
        assert(root_entries(top.jobs@).take(n as int) == root_entries(top.jobs@));
        Walker { pending, open: None }
    }

    /// The query that lists what `folder` holds.
    fn query_for(folder: &FlattenedJob) -> (tree: Tree)
        ensures
            tree.query@ == folder_query(folder@),
    {
        let mut query = String::new();
        let ghost names = folder@.breadcrumb.push(folder@.leaf_name);
        let mut i: usize = 0;
        while i < folder.breadcrumb.len()
            invariant
                i <= folder.breadcrumb.len(),
                names == folder@.breadcrumb.push(folder@.leaf_name),
                query@ == folder_path(names.take(i as int)),
            decreases folder.breadcrumb.len() - i,
        {
            proof {
                let next = names.take(i as int + 1);
                assert(next.drop_last() == names.take(i as int));
                assert(next.last() == folder.breadcrumb@[i as int]@);
            }
            query.append("/job/");
            query.append(folder.breadcrumb[i].as_str());
            i += 1;
        }
        proof {
            assert(names.drop_last() == names.take(folder.breadcrumb.len() as int));
            assert(names.last() == folder.leaf_name@);
        }
        query.append("/job/");
        query.append(folder.leaf_name.as_str());
        query.append("/api/json?tree=jobs[fullDisplayName,fullName,name]");
        Tree::new(query)
    }

    /// Takes the next step of the walk. While the listing of a folder is
    /// awaited, asks for it again. Else visits the next entry: a job is
    /// emitted, a folder is opened and its listing asked for. With no
    /// entry left the walk is done.
    pub fn next(&mut self) -> (action: Action)
        ensures
            match old(self)@.open {
                Some(folder) => final(self)@ == old(self)@ && (action matches Action::Fetch(tree)
                    && tree.query@ == folder_query(folder)),
                None => if old(self)@.pending.len() == 0 {
                    final(self)@ == old(self)@ && action is Done
                } else if old(self)@.pending.last().is_folder {
                    &&& final(self)@.pending == old(self)@.pending.drop_last()
                    &&& final(self)@.open == Some(old(self)@.pending.last())
                    &&& action matches Action::Fetch(tree) && tree.query@ == folder_query(
                        old(self)@.pending.last(),
                    )
                } else {
                    &&& final(self)@.pending == old(self)@.pending.drop_last()
                    &&& final(self)@.open is None
                    &&& action matches Action::Emit(job) && job@ == old(self)@.pending.last()
                },
            },
    {
        if let Some(folder) = &self.open {
            return Action::Fetch(Self::query_for(folder));
        }
        let ghost before = self.pending@;
        match self.pending.pop() {
            None => Action::Done,
            Some(entry) => {
                assert(flats(self.pending@) == flats(before).drop_last());
                assert(flats(before).last() == entry@);
                if entry.is_folder {
                    let tree = Self::query_for(&entry);
                    self.open = Some(entry);
                    Action::Fetch(tree)
                } else {
                    Action::Emit(entry)
                }
            },
        }
    }

    /// Takes the listing of the folder that was opened: its entries are
    /// visited next, in their order, before all that was pending. A listing
    /// that was not asked for changes nothing.
    pub fn expand(&mut self, listing: &Info)
        ensures
            final(self)@.open is None,
            final(self)@.pending == match old(self)@.open {
                Some(folder) => old(self)@.pending + child_entries(folder, listing.jobs@),
                None => old(self)@.pending,
            },
    {
        let folder = match self.open.take() {
            Some(folder) => folder,
            None => {
                return ;
            },
        };
        let ghost before = flats(self.pending@);
        let ghost added = child_entries(folder@, listing.jobs@);
        let n = listing.jobs.len();
        let mut i: usize = 0;
        while i < n
            invariant
                i <= n,
                n == listing.jobs.len(),
                self.open is None,
                added == child_entries(folder@, listing.jobs@),
                flats(self.pending@) == before + added.take(i as int),
            decreases n - i,
        {
            let job = &listing.jobs[n - 1 - i];
            let mut breadcrumb = copy_names(&folder.breadcrumb);
            breadcrumb.push(folder.leaf_name.clone());
            assert(texts(breadcrumb@) == folder@.breadcrumb.push(folder@.leaf_name));
            let entry = FlattenedJob {
                breadcrumb,
                leaf_name: job.name.clone(),
                is_folder: match classify(job.class.as_str()) {
                    JobKind::Folder => true,
                    JobKind::Leaf => false,
                },
            };
            assert(entry@ == child_entry(folder@, *job));
            let ghost so_far = flats(self.pending@);
            self.pending.push(entry);
            assert(flats(self.pending@) == so_far.push(child_entry(folder@, *job)));
            assert(added.take(i as int + 1) == added.take(i as int).push(added[i as int]));
            i += 1;
        }
        assert(added.take(n as int) == added);
    }
}


/// A namespace as the server holds it: a job, or a folder with what it
/// holds, each with its name.
pub enum Node {
    Job(Seq<char>),
    Folder(Seq<char>, Seq<Node>),
}

/// The name of an entry of the namespace.
pub open spec fn node_name(node: Node) -> Seq<char> {
    match node {
        Node::Job(name) => name,
        Node::Folder(name, _) => name,
    }
}

/// The jobs below an entry, depth first, each with the folders above it;
/// `crumbs` are the folders above the entry itself.
pub open spec fn leaves(node: Node, crumbs: Seq<Seq<char>>) -> Seq<Flat>
    decreases node,
{
    match node {
        Node::Job(name) => seq![Flat { breadcrumb: crumbs, leaf_name: name, is_folder: false }],
        Node::Folder(name, children) => leaves_all(children, crumbs.push(name)),
    }
}

/// The jobs below a row of entries that stand in one folder, depth first.
pub open spec fn leaves_all(nodes: Seq<Node>, crumbs: Seq<Seq<char>>) -> Seq<Flat>
    decreases nodes,
{
    if nodes.len() == 0 {
        Seq::<Flat>::empty()
    } else {
        leaves(nodes.first(), crumbs) + leaves_all(nodes.drop_first(), crumbs)
    }
}

/// An entry of the namespace that is still to be visited, with the folders
/// above it.
pub struct Visit {
    pub node: Node,
    pub crumbs: Seq<Seq<char>>,
}

/// The walker's entry for a visit.
pub open spec fn visit_entry(visit: Visit) -> Flat {
    Flat {
        breadcrumb: visit.crumbs,
        leaf_name: node_name(visit.node),
        is_folder: visit.node is Folder,
    }
}

/// The visits of a row of entries that stand below `crumbs`, the first
/// entry last.
pub open spec fn visits_of(nodes: Seq<Node>, crumbs: Seq<Seq<char>>) -> Seq<Visit> {
    Seq::new(nodes.len(), |i: int| Visit { node: nodes[nodes.len() - 1 - i], crumbs })
}

/// The jobs that pending visits will yield: those below the last visit
/// first.
pub open spec fn due(visits: Seq<Visit>) -> Seq<Flat>
    decreases visits.len(),
{
    if visits.len() == 0 {
        Seq::<Flat>::empty()
    } else {
        leaves(visits.last().node, visits.last().crumbs) + due(visits.drop_last())
    }
}

/// Whether a listing lists a row of entries: each by its name and with the
/// class of its kind.
pub open spec fn lists(jobs: Seq<Jobs>, nodes: Seq<Node>) -> bool {
    jobs.len() == nodes.len() && forall|i: int|
        0 <= i < jobs.len() ==> (#[trigger] jobs[i]).name@ == node_name(nodes[i])
            && is_folder_class(jobs[i].class@) == (nodes[i] is Folder)
}

/// Whether a listing lists the entries at the top of the namespace, each
/// by its full name.
pub open spec fn lists_top(jobs: Seq<Jobs>, nodes: Seq<Node>) -> bool {
    jobs.len() == nodes.len() && forall|i: int|
        0 <= i < jobs.len() ==> (#[trigger] jobs[i]).full_name@ == node_name(nodes[i])
            && is_folder_class(jobs[i].class@) == (nodes[i] is Folder)
}

/// The visits of a row of entries yield the jobs below the row, before
/// all that was pending.
proof fn lemma_due_row(rest: Seq<Visit>, nodes: Seq<Node>, crumbs: Seq<Seq<char>>)
    ensures
        due(rest + visits_of(nodes, crumbs)) == leaves_all(nodes, crumbs) + due(rest),
    decreases nodes.len(),
{
    let row = visits_of(nodes, crumbs);
    if nodes.len() == 0 {
        assert(rest + row == rest);
    } else {
        let all = rest + row;
        assert(all.last() == Visit { node: nodes.first(), crumbs });
        assert(all.drop_last() == rest + visits_of(nodes.drop_first(), crumbs));
        lemma_due_row(rest, nodes.drop_first(), crumbs);
        assert(leaves(nodes.first(), crumbs) + (leaves_all(nodes.drop_first(), crumbs) + due(rest))
            == leaves_all(nodes, crumbs) + due(rest));
    }
}

/// A walk begins with the visits of the top entries: where the top listing
/// lists them, the walker's pending entries are theirs, and the walk is due
/// to yield the jobs of the namespace, depth first.
pub proof fn lemma_walk_begins(jobs: Seq<Jobs>, nodes: Seq<Node>)
    requires
        lists_top(jobs, nodes),
    ensures
        root_entries(jobs) == visits_of(nodes, Seq::<Seq<char>>::empty()).map_values(
            |v: Visit| visit_entry(v),
        ),
        due(visits_of(nodes, Seq::<Seq<char>>::empty())) == leaves_all(
            nodes,
            Seq::<Seq<char>>::empty(),
        ),
{
    let top = Seq::<Seq<char>>::empty();
    assert(root_entries(jobs) =~= visits_of(nodes, top).map_values(|v: Visit| visit_entry(v)));
    lemma_due_row(Seq::<Visit>::empty(), nodes, top);
    assert(Seq::<Visit>::empty() + visits_of(nodes, top) == visits_of(nodes, top));
    assert(due(Seq::<Visit>::empty()) == Seq::<Flat>::empty());
    assert(leaves_all(nodes, top) + Seq::<Flat>::empty() == leaves_all(nodes, top));
}

/// Visiting a job yields it, and leaves due what was due below the rest.
pub proof fn lemma_walk_emits(rest: Seq<Visit>, name: Seq<char>, crumbs: Seq<Seq<char>>)
    ensures
        due(rest.push(Visit { node: Node::Job(name), crumbs })) == seq![
            visit_entry(Visit { node: Node::Job(name), crumbs }),
        ] + due(rest),
{
    let all = rest.push(Visit { node: Node::Job(name), crumbs });
    assert(all.drop_last() == rest);
}

/// Opening a folder keeps the walk depth first: where the listing lists
/// what the folder holds, the entries that the walker adds are the visits of
/// what it holds, with the folder's name added to the folders above; and
/// with them pending the walk is due to yield what it was due to yield
/// before, the jobs below the folder first.
pub proof fn lemma_walk_opens(
    rest: Seq<Visit>,
    name: Seq<char>,
    children: Seq<Node>,
    crumbs: Seq<Seq<char>>,
    jobs: Seq<Jobs>,
)
    requires
        lists(jobs, children),
    ensures
        child_entries(visit_entry(Visit { node: Node::Folder(name, children), crumbs }), jobs)
            == visits_of(children, crumbs.push(name)).map_values(|v: Visit| visit_entry(v)),
        due(rest + visits_of(children, crumbs.push(name))) == due(
            rest.push(Visit { node: Node::Folder(name, children), crumbs }),
        ),
{
    let folder = Visit { node: Node::Folder(name, children), crumbs };
    assert(child_entries(visit_entry(folder), jobs) =~= visits_of(
        children,
        crumbs.push(name),
    ).map_values(|v: Visit| visit_entry(v)));
    lemma_due_row(rest, children, crumbs.push(name));
    assert(rest.push(folder).drop_last() == rest);
}

/// How many entries stand at and below an entry: all of them where
/// `jobs_too` is set, else the folders only.
pub open spec fn tally(node: Node, jobs_too: bool) -> nat
    decreases node,
{
    match node {
        Node::Job(_) => if jobs_too {
            1
        } else {
            0
        },
        Node::Folder(_, children) => 1 + tally_all(children, jobs_too),
    }
}

/// How many entries stand in and below a row of entries.
pub open spec fn tally_all(nodes: Seq<Node>, jobs_too: bool) -> nat
    decreases nodes,
{
    if nodes.len() == 0 {
        0
    } else {
        tally(nodes.first(), jobs_too) + tally_all(nodes.drop_first(), jobs_too)
    }
}

/// How many entries stand at and below pending visits.
pub open spec fn tally_of(visits: Seq<Visit>, jobs_too: bool) -> nat
    decreases visits.len(),
{
    if visits.len() == 0 {
        0
    } else {
        tally(visits.last().node, jobs_too) + tally_of(visits.drop_last(), jobs_too)
    }
}

/// A walk under way: the visits that are pending, the jobs that were
/// yielded, and the queries that were sent, each in its order.
pub struct Trace {
    pub pending: Seq<Visit>,
    pub emitted: Seq<Flat>,
    pub fetched: Seq<Seq<char>>,
}

/// A walk that is about to begin with these visits.
pub open spec fn trace_from(visits: Seq<Visit>) -> Trace {
    Trace { pending: visits, emitted: Seq::<Flat>::empty(), fetched: Seq::<Seq<char>>::empty() }
}

/// The walker that stands where a walk with these visits pending does,
/// between two turns.
pub open spec fn walker_at(visits: Seq<Visit>) -> WalkerView {
    WalkerView { pending: visits.map_values(|v: Visit| visit_entry(v)), open: None }
}

/// One turn of a walk on a server that holds the namespace: the last
/// pending visit is made. A job is yielded. For a folder its listing is
/// asked for, and what it holds is pending next.
pub open spec fn turn(trace: Trace) -> Trace {
    if trace.pending.len() == 0 {
        trace
    } else {
        let top = trace.pending.last();
        let rest = trace.pending.drop_last();
        match top.node {
            Node::Job(_) => Trace {
                pending: rest,
                emitted: trace.emitted.push(visit_entry(top)),
                fetched: trace.fetched,
            },
            Node::Folder(name, children) => Trace {
                pending: rest + visits_of(children, top.crumbs.push(name)),
                emitted: trace.emitted,
                fetched: trace.fetched.push(folder_query(visit_entry(top))),
            },
        }
    }
}

/// A walk after a number of turns.
pub open spec fn walk(trace: Trace, turns: nat) -> Trace
    decreases turns,
{
    if turns == 0 {
        trace
    } else {
        walk(turn(trace), (turns - 1) as nat)
    }
}

/// The visits of a row of entries add the entries of the row to the tally.
proof fn lemma_tally_row(
    rest: Seq<Visit>,
    nodes: Seq<Node>,
    crumbs: Seq<Seq<char>>,
    jobs_too: bool,
)
    ensures
        tally_of(rest + visits_of(nodes, crumbs), jobs_too) == tally_all(nodes, jobs_too)
            + tally_of(rest, jobs_too),
    decreases nodes.len(),
{
    let row = visits_of(nodes, crumbs);
    if nodes.len() == 0 {
        assert(rest + row == rest);
    } else {
        let all = rest + row;
        assert(all.last() == Visit { node: nodes.first(), crumbs });
        assert(all.drop_last() == rest + visits_of(nodes.drop_first(), crumbs));
        lemma_tally_row(rest, nodes.drop_first(), crumbs, jobs_too);
    }
}

/// A turn of the walk is a step of the walker: with these visits pending
/// the walker's next entry is that of the last visit, and what it leaves
/// pending is the rest; and where the last visit is to a folder and the
/// listing lists what the folder holds, the walker has pending, once it
/// took the listing, what the walk has pending after the turn.
pub proof fn lemma_turn_is_a_step(visits: Seq<Visit>, jobs: Seq<Jobs>)
    requires
        visits.len() > 0,
        visits.last().node matches Node::Folder(_, children) ==> lists(jobs, children),
    ensures
        walker_at(visits).pending.last() == visit_entry(visits.last()),
        walker_at(visits).pending.drop_last() == walker_at(visits.drop_last()).pending,
        visits.last().node is Job ==> walker_at(turn(trace_from(visits)).pending).pending
            == walker_at(visits.drop_last()).pending,
        visits.last().node is Folder ==> walker_at(turn(trace_from(visits)).pending).pending
            == walker_at(visits.drop_last()).pending + child_entries(
            visit_entry(visits.last()),
            jobs,
        ),
{
    let top = visits.last();
    let rest = visits.drop_last();
    assert(walker_at(visits).pending.drop_last() =~= walker_at(rest).pending);
    match top.node {
        Node::Job(_) => {},
        Node::Folder(name, children) => {
            lemma_walk_opens(rest, name, children, top.crumbs, jobs);
            let row = visits_of(children, top.crumbs.push(name));
            assert(walker_at(rest + row).pending =~= walker_at(rest).pending + row.map_values(
                |v: Visit| visit_entry(v),
            ));
        },
    }
}

/// A walk that has run for as many turns as entries were pending, with
/// all below them, has nothing pending; it yielded what was due, and sent
/// one query for each folder.
proof fn lemma_walk_runs(trace: Trace)
    ensures
        walk(trace, tally_of(trace.pending, true)).pending.len() == 0,
        walk(trace, tally_of(trace.pending, true)).emitted == trace.emitted + due(trace.pending),
        walk(trace, tally_of(trace.pending, true)).fetched.len() == trace.fetched.len() + tally_of(
            trace.pending,
            false,
        ),
    decreases tally_of(trace.pending, true),
{
    if trace.pending.len() == 0 {
        assert(trace.emitted + due(trace.pending) == trace.emitted);
    } else {
        let top = trace.pending.last();
        let rest = trace.pending.drop_last();
        let after = turn(trace);
        match top.node {
            Node::Job(name) => {
                assert(top == Visit { node: Node::Job(name), crumbs: top.crumbs });
                assert(trace.pending == rest.push(top));
                lemma_walk_emits(rest, name, top.crumbs);
                lemma_walk_runs(after);
                assert(trace.emitted.push(visit_entry(top)) + due(rest) == trace.emitted + (seq![
                    visit_entry(top),
                ] + due(rest)));
            },
            Node::Folder(name, children) => {
                let row = visits_of(children, top.crumbs.push(name));
                lemma_tally_row(rest, children, top.crumbs.push(name), true);
                lemma_tally_row(rest, children, top.crumbs.push(name), false);
                lemma_due_row(rest, children, top.crumbs.push(name));
                lemma_walk_runs(after);
            },
        }
    }
}

/// A walk of a finite namespace ends: after as many turns as the namespace
/// has entries nothing is pending. By then it has yielded the jobs of the
/// namespace, each once, depth first and in the order of the listings, each
/// with the folders above it; and it has asked for one listing for each
/// folder, and for no other.
pub proof fn lemma_whole_walk(nodes: Seq<Node>)
    ensures
        ({
            let top = visits_of(nodes, Seq::<Seq<char>>::empty());
            let end = walk(trace_from(top), tally_all(nodes, true));
            &&& end.pending.len() == 0
            &&& end.emitted == leaves_all(nodes, Seq::<Seq<char>>::empty())
            &&& end.fetched.len() == tally_all(nodes, false)
        }),
{
    let crumbs = Seq::<Seq<char>>::empty();
    let top = visits_of(nodes, crumbs);
    let none = Seq::<Visit>::empty();
    assert(none + top == top);
    lemma_tally_row(none, nodes, crumbs, true);
    lemma_tally_row(none, nodes, crumbs, false);
    lemma_due_row(none, nodes, crumbs);
    lemma_walk_runs(trace_from(top));
    assert(Seq::<Flat>::empty() + due(top) == due(top));
    assert(leaves_all(nodes, crumbs) + due(none) == leaves_all(nodes, crumbs));
}

} // verus!
