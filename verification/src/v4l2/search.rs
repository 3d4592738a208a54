//! Finding the M2M node for a role.
//!
//! The path is per SoC (`/dev/video11` encodes on a Raspberry Pi, and other SoCs
//! number theirs differently), so the node is identified by what it converts
//! rather than by a table of guesses. An environment variable overrides the
//! search.

use vstd::prelude::*;
use vstd::string::*;

use super::device::{capabilities, check_capabilities, overlap, Role, CAP_DEVICE_CAPS, CAP_M2M, CAP_M2M_MPLANE};
use super::format::Dir;
use super::fourcc::{join_fourcc, spellings};
use crate::error::Error;
use crate::message::{lemma_says, lemma_says_more, says};
use crate::text::{join, joined, texts};

verus! {

/// A V4L2 node there is.
#[derive(Clone, Debug, PartialEq, Eq)]
pub struct Candidate {
    /// The number in its name.
    pub index: usize,
    pub path: String,
}

/// What a [`Candidate`] says.
#[verifier::ext_equal]
pub struct CandidateView {
    pub index: usize,
    pub path: Seq<char>,
}

impl Candidate {
    pub open spec fn view(&self) -> CandidateView {
        CandidateView { index: self.index, path: self.path@ }
    }
}

/// What the nodes of a list say.
pub open spec fn candidates(nodes: Seq<Candidate>) -> Seq<CandidateView> {
    nodes.map_values(|node: Candidate| node@)
}

/// How many of the nodes go before one with `index` that comes after them.
pub open spec fn rank(nodes: Seq<CandidateView>, index: usize) -> int
    decreases nodes.len(),
{
    if nodes.len() == 0 || nodes.last().index <= index {
        nodes.len() as int
    } else {
        rank(nodes.drop_last(), index)
    }
}

/// The nodes by index, those with the same index in the order they came.
pub open spec fn sorted(nodes: Seq<CandidateView>) -> Seq<CandidateView>
    decreases nodes.len(),
{
    if nodes.len() == 0 {
        nodes
    } else {
        let rest = sorted(nodes.drop_last());
        rest.insert(rank(rest, nodes.last().index), nodes.last())
    }
}

proof fn lemma_rank(nodes: Seq<CandidateView>, index: usize)
    ensures
        0 <= rank(nodes, index) <= nodes.len(),
        forall|i: int|
            rank(nodes, index) <= i < nodes.len() ==> (#[trigger] nodes[i]).index > index,
        rank(nodes, index) > 0 ==> nodes[rank(nodes, index) - 1].index <= index,
    decreases nodes.len(),
{
    if nodes.len() > 0 && nodes.last().index > index {
        let rest = nodes.drop_last();
        lemma_rank(rest, index);
        assert forall|i: int| rank(nodes, index) <= i < nodes.len() implies (
        #[trigger] nodes[i]).index > index by {
            if i < rest.len() {
                assert(rest[i] == nodes[i]);
            }
        }
    }
}

/// The search goes through the nodes in order of index, each of them once.
pub proof fn law_nodes_are_tried_in_order(nodes: Seq<CandidateView>)
    ensures
        sorted(nodes).to_multiset() == nodes.to_multiset(),
        forall|i: int, j: int|
            0 <= i < j < nodes.len() ==> (#[trigger] sorted(nodes)[i]).index <= (
            #[trigger] sorted(nodes)[j]).index,
        sorted(nodes).len() == nodes.len(),
    decreases nodes.len(),
{
    broadcast use vstd::seq_lib::group_to_multiset_ensures;

    if nodes.len() > 0 {
        let last = nodes.last();
        let rest = sorted(nodes.drop_last());
        law_nodes_are_tried_in_order(nodes.drop_last());
        let at = rank(rest, last.index);
        lemma_rank(rest, last.index);
        assert(nodes =~= nodes.drop_last().push(last));
        vstd::seq_lib::to_multiset_insert(rest, at, last);
        assert(sorted(nodes).to_multiset() =~= nodes.to_multiset());
        assert forall|i: int, j: int| 0 <= i < j < nodes.len() implies (
        #[trigger] sorted(nodes)[i]).index <= (#[trigger] sorted(nodes)[j]).index by {
            if i < at && j == at {
                assert(rest[i].index <= rest[at - 1].index);
            }
            if i < at && j > at {
                assert(rest[i].index <= rest[j - 1].index);
            }
        }
    }
}

/// Sort the nodes by index.
fn sort(nodes: Vec<Candidate>) -> (sorted_nodes: Vec<Candidate>)
    ensures
        candidates(sorted_nodes@) == sorted(candidates(nodes@)),
{
    let mut out: Vec<Candidate> = Vec::new();
    let mut at: usize = 0;
    assert(candidates(out@) =~= sorted(candidates(nodes@).take(0)));
    while at < nodes.len()
        invariant
            at <= nodes@.len(),
            candidates(out@) == sorted(candidates(nodes@).take(at as int)),
            out@.len() == at,
        decreases nodes@.len() - at,
    {
        let node = nodes[at].clone_of();
        let mut place: usize = out.len();
        let ghost list = candidates(out@);
        assert(list.take(place as int) =~= list);
        while place > 0 && out[place - 1].index > node.index
            invariant
                place <= out@.len(),
                list == candidates(out@),
                rank(list, node.index) == rank(list.take(place as int), node.index),
            decreases place,
        {
            assert(list.take(place as int).last() == out@[place - 1]@);
            assert(list.take(place as int).drop_last() =~= list.take(place - 1));
            place = place - 1;
        }
        proof {
            if place > 0 {
                assert(list.take(place as int).last() == out@[place - 1]@);
            }
            let before = candidates(nodes@).take(at as int);
            let after = candidates(nodes@).take(at + 1);
            assert(after.drop_last() =~= before);
            assert(after.last() == node@);
            lemma_rank(list, node.index);
        }
        out.insert(place, node);
        assert(candidates(out@) =~= list.insert(place as int, node@));
        at = at + 1;
    }
    assert(candidates(nodes@).take(at as int) =~= candidates(nodes@));
    out
}

impl Candidate {
    fn clone_of(&self) -> (copy: Candidate)
        ensures
            copy@ == self@,
    {
        Candidate { index: self.index, path: self.path.clone() }
    }
}

/// What to do next.
#[derive(Debug)]
pub enum Action {
    /// Open the node at [`Search::path`].
    Open,
    /// Read its capabilities.
    QueryCapabilities,
    /// List the formats one of its queues offers.
    ListFormats { dir: Dir },
    /// Nothing: the node that is open serves.
    Found,
    /// Nothing: no node serves.
    Fail(Error),
}

/// What an [`Action`] is.
pub enum Asked {
    Open,
    QueryCapabilities,
    ListFormats { dir: Dir },
    Found,
    Fail(Seq<char>),
}

impl Action {
    pub open spec fn view(&self) -> Asked {
        match self {
            Action::Open => Asked::Open,
            Action::QueryCapabilities => Asked::QueryCapabilities,
            Action::ListFormats { dir } => Asked::ListFormats { dir: *dir },
            Action::Found => Asked::Found,
            Action::Fail(Error::NoDevice { what }) => Asked::Fail(what@),
            Action::Fail(_) => Asked::Fail(Seq::empty()),
        }
    }
}

/// What came of an [`Action`].
#[derive(Debug)]
pub enum Reply {
    /// It was done.
    Done,
    /// It failed, and why.
    Failed(String),
    /// The `capabilities` and `device_caps` of the node.
    Capabilities { driver: u32, device: u32 },
    /// The fourccs the queue offers.
    Offered(Vec<u32>),
}

/// What a [`Reply`] says.
pub enum Told {
    Done,
    Failed(Seq<char>),
    Capabilities { driver: u32, device: u32 },
    Offered(Seq<u32>),
}

impl Reply {
    pub open spec fn view(&self) -> Told {
        match self {
            Reply::Done => Told::Done,
            Reply::Failed(why) => Told::Failed(why@),
            Reply::Capabilities { driver, device } => Told::Capabilities {
                driver: *driver,
                device: *device,
            },
            Reply::Offered(codes) => Told::Offered(codes@),
        }
    }
}

/// What a search is in the middle of.
#[derive(Clone, Copy, Debug, PartialEq, Eq, Structural)]
pub enum Phase {
    Opening,
    Querying,
    Listing { dir: Dir },
    Over,
}

/// A search for the node that serves a role.
#[derive(Debug)]
pub struct Search {
    role: Role,
    /// Whether the node was named rather than searched for.
    named: bool,
    nodes: Vec<Candidate>,
    at: usize,
    /// Why each node before this one does not serve.
    refused: Vec<String>,
    phase: Phase,
}

/// How far a [`Search`] has come.
#[verifier::ext_equal]
pub struct SearchView {
    pub role: Role,
    pub named: bool,
    pub nodes: Seq<CandidateView>,
    pub at: int,
    pub refused: Seq<Seq<char>>,
    pub phase: Phase,
}

impl SearchView {
    pub open spec fn at(self, phase: Phase) -> SearchView {
        SearchView { phase, ..self }
    }

    /// A search through `nodes`, or of the one node that was named.
    pub open spec fn start(role: Role, named: Option<Seq<char>>, nodes: Seq<CandidateView>) -> SearchView {
        SearchView {
            role,
            named: named is Some,
            nodes: match named {
                Some(path) => seq![CandidateView { index: 0, path }],
                None => sorted(nodes),
            },
            at: 0,
            refused: Seq::empty(),
            phase: Phase::Opening,
        }
    }

    /// The node being looked at.
    pub open spec fn path(self) -> Seq<char> {
        self.nodes[self.at].path
    }

    /// Go on to the next node, if there is one.
    pub open spec fn begin(self) -> (SearchView, Asked) {
        if self.at < self.nodes.len() {
            (self.at(Phase::Opening), Asked::Open)
        } else {
            (self.at(Phase::Over), Asked::Fail(self.exhausted()))
        }
    }

    /// What a search that found nothing says.
    pub open spec fn exhausted(self) -> Seq<char> {
        "no V4L2 M2M node converts "@ + spellings(self.role.input@) + " to "@ + spellings(
            self.role.output@,
        ) + " (set "@ + self.role.env@ + " to name one; tried "@ + (if self.refused.len() == 0 {
            "no nodes"@
        } else {
            joined(self.refused, ", "@)
        }) + ")"@
    }

    /// The node does not serve. Most nodes on a box are cameras or metadata nodes,
    /// so a miss is the common case and only interesting when the search finds
    /// nothing. A node that was named is the only one there is.
    pub open spec fn refuse(self, why: Seq<char>) -> (SearchView, Asked) {
        if self.named {
            (self.at(Phase::Over), Asked::Fail(why))
        } else {
            SearchView {
                refused: self.refused.push(self.path() + ": "@ + why),
                at: self.at + 1,
                ..self
            }.begin()
        }
    }

    /// A failure of the node itself, which names it.
    pub open spec fn wrapped(self, why: Seq<char>) -> Seq<char> {
        self.path() + ": "@ + why
    }

    /// What the node's capabilities come to.
    pub open spec fn queried(self, caps: u32) -> (SearchView, Asked) {
        if caps & CAP_M2M_MPLANE != 0 {
            (
                self.at(Phase::Listing { dir: Dir::Output }),
                Asked::ListFormats { dir: Dir::Output },
            )
        } else if caps & CAP_M2M != 0 {
            self.refuse(self.wrapped("single-planar M2M only"@))
        } else {
            self.refuse(self.wrapped("not an M2M device"@))
        }
    }

    /// What the formats of a queue come to: a node serves once both of its queues
    /// do.
    pub open spec fn listed(self, dir: Dir, offered: Seq<u32>) -> (SearchView, Asked) {
        if !overlap(self.role.wanted(dir), offered) {
            self.refuse(
                "offers "@ + spellings(offered) + " where "@ + spellings(self.role.wanted(dir))
                    + " is needed"@,
            )
        } else if dir is Output {
            (
                self.at(Phase::Listing { dir: Dir::Capture }),
                Asked::ListFormats { dir: Dir::Capture },
            )
        } else {
            (self.at(Phase::Over), Asked::Found)
        }
    }

    /// What follows a reply.
    pub open spec fn step(self, told: Told) -> (SearchView, Asked) {
        match (self.phase, told) {
            (Phase::Opening, Told::Done) => (self.at(Phase::Querying), Asked::QueryCapabilities),
            (Phase::Opening, Told::Failed(why)) => self.refuse(self.wrapped("open: "@ + why)),
            (Phase::Querying, Told::Capabilities { driver, device }) => self.queried(
                if driver & CAP_DEVICE_CAPS == 0 {
                    driver
                } else {
                    device
                },
            ),
            (Phase::Querying, Told::Failed(why)) => self.refuse(self.wrapped("QUERYCAP: "@ + why)),
            (Phase::Listing { dir }, Told::Offered(offered)) => self.listed(dir, offered),
            _ => (self.at(Phase::Over), Asked::Fail(Seq::empty())),
        }
    }

    /// Whether the reply answers what was asked.
    pub open spec fn expects(self, told: Told) -> bool {
        match (self.phase, told) {
            (Phase::Opening, Told::Done) => true,
            (Phase::Opening, Told::Failed(_)) => true,
            (Phase::Querying, Told::Capabilities { .. }) => true,
            (Phase::Querying, Told::Failed(_)) => true,
            (Phase::Listing { .. }, Told::Offered(_)) => true,
            _ => false,
        }
    }

    pub open spec fn wf(self) -> bool {
        &&& 0 <= self.at <= self.nodes.len()
        &&& !(self.phase is Over) ==> self.at < self.nodes.len()
        &&& self.refused.len() == self.at
    }
}

impl Search {
    pub closed spec fn view(&self) -> SearchView {
        SearchView {
            role: self.role,
            named: self.named,
            nodes: candidates(self.nodes@),
            at: self.at as int,
            refused: texts(self.refused@),
            phase: self.phase,
        }
    }

    /// Begin to search `nodes` for one that serves `role`, or to try the one the
    /// role's environment variable names.
    pub fn open(role: Role, named: Option<String>, nodes: Vec<Candidate>) -> (r: (Search, Action))
        ensures
            (r.0@, r.1@) == SearchView::start(
                role,
                match named {
                    Some(path) => Some(path@),
                    None => None,
                },
                candidates(nodes@),
            ).begin(),
            r.0@.wf(),
    {
        let is_named = named.is_some();
        let list = match named {
            Some(path) => {
                let list = vec![Candidate { index: 0, path }];
                assert(candidates(list@) =~= seq![CandidateView { index: 0, path: path@ }]);
                list
            },
            None => sort(nodes),
        };
        let mut search = Search {
            role,
            named: is_named,
            nodes: list,
            at: 0,
            refused: Vec::new(),
            phase: Phase::Opening,
        };
        assert(search@ =~= SearchView::start(
            role,
            match named {
                Some(path) => Some(path@),
                None => None,
            },
            candidates(nodes@),
        ));
        let action = search.begin();
        (search, action)
    }

    /// The node being looked at.
    pub fn path(&self) -> (path: Option<&String>)
        ensures
            match path {
                Some(path) => self@.at < self@.nodes.len() && path@ == self@.path(),
                None => self@.at >= self@.nodes.len(),
            },
    {
        if self.at < self.nodes.len() {
            Some(&self.nodes[self.at].path)
        } else {
            None
        }
    }

    fn move_to(&mut self, phase: Phase)
        ensures
            final(self)@ == old(self)@.at(phase),
    {
        self.phase = phase;
    }

    fn begin(&mut self) -> (action: Action)
        requires
            old(self)@.at <= old(self)@.nodes.len(),
        ensures
            (final(self)@, action@) == old(self)@.begin(),
    {
        if self.at < self.nodes.len() {
            self.move_to(Phase::Opening);
            Action::Open
        } else {
            let what = self.exhausted();
            self.move_to(Phase::Over);
            Action::Fail(Error::NoDevice { what })
        }
    }

    fn exhausted(&self) -> (what: String)
        ensures
            what@ == self@.exhausted(),
    {
        let mut what = String::new();
        what.append("no V4L2 M2M node converts ");
        what.append(join_fourcc(self.role.input.as_slice()).as_str());
        what.append(" to ");
        what.append(join_fourcc(self.role.output.as_slice()).as_str());
        what.append(" (set ");
        what.append(self.role.env);
        what.append(" to name one; tried ");
        if self.refused.len() == 0 {
            what.append("no nodes");
        } else {
            what.append(join(&self.refused, ", ").as_str());
        }
        what.append(")");
        assert(what@ =~= self@.exhausted());
        what
    }

    fn refuse(&mut self, why: String) -> (action: Action)
        requires
            old(self)@.wf(),
            old(self)@.at < old(self)@.nodes.len(),
        ensures
            (final(self)@, action@) == old(self)@.refuse(why@),
    {
        if self.named {
            self.move_to(Phase::Over);
            return Action::Fail(Error::NoDevice { what: why });
        }
        let mut entry = self.nodes[self.at].path.clone();
        entry.append(": ");
        entry.append(why.as_str());
        self.refused.push(entry);
        assert(self.nodes.len() == self@.nodes.len());
        self.at = self.at + 1;
        assert(self@ =~= SearchView {
            refused: old(self)@.refused.push(old(self)@.path() + ": "@ + why@),
            at: old(self)@.at + 1,
            ..old(self)@
        });
        self.begin()
    }

    fn wrapped(&self, what: &str, why: &str) -> (text: String)
        requires
            self@.wf(),
            self@.at < self@.nodes.len(),
        ensures
            text@ == self@.wrapped(what@ + why@),
    {
        let mut text = self.nodes[self.at].path.clone();
        text.append(": ");
        text.append(what);
        text.append(why);
        assert(text@ =~= self@.wrapped(what@ + why@));
        text
    }

    fn queried(&mut self, caps: u32) -> (action: Action)
        requires
            old(self)@.wf(),
            old(self)@.at < old(self)@.nodes.len(),
        ensures
            (final(self)@, action@) == old(self)@.queried(caps),
    {
        let what = match check_capabilities(caps) {
            Ok(()) => {
                self.move_to(Phase::Listing { dir: Dir::Output });
                return Action::ListFormats { dir: Dir::Output };
            },
            Err(Error::SinglePlanar) => "single-planar M2M only",
            Err(_) => "not an M2M device",
        };
        let why = self.wrapped(what, "");
        proof {
            reveal_strlit("");
            assert(what@ + ""@ =~= what@);
        }
        self.refuse(why)
    }

    fn listed(&mut self, dir: Dir, offered: Vec<u32>) -> (action: Action)
        requires
            old(self)@.wf(),
            old(self)@.at < old(self)@.nodes.len(),
        ensures
            (final(self)@, action@) == old(self)@.listed(dir, offered@),
    {
        match self.role.check(dir, offered.as_slice()) {
            Err(Error::Unsuitable { what }) => self.refuse(what),
            Err(err) => Action::Fail(err),
            Ok(()) => match dir {
                Dir::Output => {
                    self.move_to(Phase::Listing { dir: Dir::Capture });
                    Action::ListFormats { dir: Dir::Capture }
                },
                Dir::Capture => {
                    self.move_to(Phase::Over);
                    Action::Found
                },
            },
        }
    }

    /// Whether a reply answers what was asked.
    pub fn admits(&self, reply: &Reply) -> (admits: bool)
        ensures
            admits == self@.expects(reply@),
    {
        match (self.phase, reply) {
            (Phase::Opening, Reply::Done | Reply::Failed(_)) => true,
            (Phase::Querying, Reply::Capabilities { .. } | Reply::Failed(_)) => true,
            (Phase::Listing { .. }, Reply::Offered(_)) => true,
            _ => false,
        }
    }

    /// Take in what came of the last action, and say what to do next.
    pub fn step(&mut self, reply: Reply) -> (action: Action)
        requires
            old(self)@.wf(),
            old(self)@.expects(reply@),
        ensures
            (final(self)@, action@) == old(self)@.step(reply@),
            final(self)@.wf(),
    {
        match (self.phase, reply) {
            (Phase::Opening, Reply::Done) => {
                self.move_to(Phase::Querying);
                Action::QueryCapabilities
            },
            (Phase::Opening, Reply::Failed(why)) => {
                let why = self.wrapped("open: ", why.as_str());
                self.refuse(why)
            },
            (Phase::Querying, Reply::Capabilities { driver, device }) => self.queried(
                capabilities(driver, device),
            ),
            (Phase::Querying, Reply::Failed(why)) => {
                let why = self.wrapped("QUERYCAP: ", why.as_str());
                self.refuse(why)
            },
            (Phase::Listing { dir }, Reply::Offered(offered)) => self.listed(dir, offered),
            _ => {
                self.move_to(Phase::Over);
                Action::Fail(Error::NoDevice { what: String::new() })
            },
        }
    }
}

/// Where a search that began as `begun` has come after the replies.
pub open spec fn after(begun: (SearchView, Asked), replies: Seq<Told>) -> (SearchView, Asked)
    decreases replies.len(),
{
    if replies.len() == 0 {
        begun
    } else {
        after(begun, replies.drop_last()).0.step(replies.last())
    }
}

/// Whether each reply answers what was asked before it.
pub open spec fn answers(begun: (SearchView, Asked), replies: Seq<Told>) -> bool
    decreases replies.len(),
{
    replies.len() > 0 ==> {
        &&& answers(begun, replies.drop_last())
        &&& after(begun, replies.drop_last()).0.expects(replies.last())
    }
}

/// Whether a node's capabilities have multi-planar M2M.
pub open spec fn capable(told: Told) -> bool {
    told matches Told::Capabilities { driver, device } && (if driver & CAP_DEVICE_CAPS == 0 {
        driver
    } else {
        device
    }) & CAP_M2M_MPLANE != 0
}

impl SearchView {
    /// Whether a queue offers what the role needs of it.
    pub open spec fn offers(self, dir: Dir, told: Told) -> bool {
        told matches Told::Offered(offered) && overlap(self.role.wanted(dir), offered)
    }

    /// Whether a reply is a reason to pass the node over: it does not open, does not
    /// say what it can do, lacks multi-planar M2M, or offers nothing the role needs of
    /// one of its queues.
    pub open spec fn unfit(self, told: Told) -> bool {
        match self.phase {
            Phase::Opening => told is Failed,
            Phase::Querying => told is Failed || !capable(told),
            Phase::Listing { dir } => !self.offers(dir, told),
            Phase::Over => false,
        }
    }
}

/// Whether the node at `place` was looked at when reply `k` came, and that reply was a
/// reason to pass it over.
pub open spec fn passed_over_at(
    begun: (SearchView, Asked),
    replies: Seq<Told>,
    place: int,
    k: int,
) -> bool {
    &&& 0 <= k < replies.len()
    &&& after(begun, replies.take(k)).0.at == place
    &&& after(begun, replies.take(k)).0.unfit(replies[k])
}

/// Whether the node at `place` was looked at and passed over for a reason.
pub open spec fn passed_over(begun: (SearchView, Asked), replies: Seq<Told>, place: int) -> bool {
    exists|k: int| passed_over_at(begun, replies, place, k)
}

/// Whether the last replies have the node at `place` open, say that it has
/// multi-planar M2M, and offer what the role needs of both of its queues.
pub open spec fn served(begun: (SearchView, Asked), replies: Seq<Told>, place: int) -> bool {
    let listed = replies.drop_last();
    let queried = listed.drop_last();
    let opened = queried.drop_last();
    let begins = after(begun, opened.drop_last()).0;
    &&& replies.len() >= 4
    &&& begins.at == place
    &&& begins.phase is Opening
    &&& opened.last() is Done
    &&& capable(queried.last())
    &&& begins.offers(Dir::Output, listed.last())
    &&& begins.offers(Dir::Capture, replies.last())
}

/// The search finds the first node that serves the role: one that opens, has
/// multi-planar M2M, and offers what the role needs of both of its queues, and every
/// node before it, in order of index, was looked at and passed over for lacking one
/// of those. A search that finds none has passed every node over. A node that was
/// named is the only one looked at.
pub proof fn law_the_first_node_that_serves_is_found(
    role: Role,
    named: Option<Seq<char>>,
    nodes: Seq<CandidateView>,
    replies: Seq<Told>,
)
    requires
        answers(SearchView::start(role, named, nodes).begin(), replies),
    ensures
        ({
            let start = SearchView::start(role, named, nodes);
            let begun = start.begin();
            let (now, asked) = after(begun, replies);
            &&& now.role == role
            &&& now.nodes == start.nodes
            &&& forall|place: int|
                0 <= place < now.at ==> #[trigger] passed_over(begun, replies, place)
            &&& asked is Found ==> 0 <= now.at < now.nodes.len() && served(begun, replies, now.at)
            &&& asked is Fail ==> forall|place: int|
                0 <= place < now.nodes.len() ==> #[trigger] passed_over(begun, replies, place)
        }),
{
    let begun = SearchView::start(role, named, nodes).begin();
    lemma_passed_over(begun, replies);
    if after(begun, replies).1 is Found {
        lemma_history(begun, replies.drop_last());
        lemma_history(begun, replies.drop_last().drop_last());
        lemma_history(begun, replies.drop_last().drop_last().drop_last());
        lemma_same_search(begun, replies);
        let opened = replies.drop_last().drop_last().drop_last();
        lemma_same_search(begun, opened.drop_last());
    }
}

/// What the last reply was, by where the search is.
proof fn lemma_history(begun: (SearchView, Asked), replies: Seq<Told>)
    requires
        answers(begun, replies),
        begun.0.phase is Opening || begun.0.phase is Over,
    ensures
        answers(begun, replies.drop_last()) || replies.len() == 0,
        ({
            let now = after(begun, replies).0;
            let before = after(begun, replies.drop_last()).0;
            match now.phase {
                Phase::Querying => {
                    &&& replies.len() > 0
                    &&& replies.last() is Done
                    &&& before.at == now.at && before.phase is Opening
                },
                Phase::Listing { dir: Dir::Output } => {
                    &&& replies.len() > 0
                    &&& capable(replies.last())
                    &&& before.at == now.at && before.phase is Querying
                },
                Phase::Listing { dir: Dir::Capture } => {
                    &&& replies.len() > 0
                    &&& before.offers(Dir::Output, replies.last())
                    &&& before.at == now.at
                    &&& before.phase == (Phase::Listing { dir: Dir::Output })
                },
                _ => true,
            }
        }),
{
}

/// A search keeps to its role and its nodes.
proof fn lemma_same_search(begun: (SearchView, Asked), replies: Seq<Told>)
    requires
        answers(begun, replies),
        begun.0.wf(),
    ensures
        ({
            let now = after(begun, replies).0;
            &&& now.role == begun.0.role
            &&& now.nodes == begun.0.nodes
            &&& now.named == begun.0.named
            &&& now.wf()
        }),
    decreases replies.len(),
{
    if replies.len() > 0 {
        lemma_same_search(begun, replies.drop_last());
    }
}

/// Every node behind the search was passed over.
proof fn lemma_passed_over(begun: (SearchView, Asked), replies: Seq<Told>)
    requires
        answers(begun, replies),
        begun.0.wf(),
        begun.0.at == 0,
        begun.0.named ==> begun.0.nodes.len() == 1,
        !(begun.1 is Found),
        begun.1 is Fail ==> begun.0.nodes.len() == 0,
    ensures
        ({
            let (now, asked) = after(begun, replies);
            &&& now.wf()
            &&& now.role == begun.0.role
            &&& now.nodes == begun.0.nodes
            &&& now.named == begun.0.named
            &&& asked is Found ==> now.at < now.nodes.len()
            &&& forall|place: int|
                0 <= place < now.at ==> #[trigger] passed_over(begun, replies, place)
            &&& asked is Fail ==> forall|place: int|
                0 <= place < now.nodes.len() ==> #[trigger] passed_over(begun, replies, place)
        }),
    decreases replies.len(),
{
    if replies.len() > 0 {
        let earlier = replies.drop_last();
        let last = replies.len() - 1;
        lemma_passed_over(begun, earlier);
        let before = after(begun, earlier).0;
        let (now, asked) = after(begun, replies);
        assert(replies.take(last) =~= earlier);
        assert forall|place: int| passed_over(begun, earlier, place) implies #[trigger] passed_over(
            begun,
            replies,
            place,
        ) by {
            let k = choose|k: int| passed_over_at(begun, earlier, place, k);
            assert(replies.take(k) =~= earlier.take(k));
            assert(passed_over_at(begun, replies, place, k));
        }
        if now.at > before.at || asked is Fail {
            assert(passed_over_at(begun, replies, before.at, last));
        }
    }
}

/// Looking at a node's second queue takes a first that offers what the role needs,
/// and looking at its first takes multi-planar M2M.
pub proof fn law_a_node_is_checked_in_full(search: SearchView, told: Told)
    requires
        search.wf(),
        search.expects(told),
    ensures
        match search.step(told).1 {
            Asked::ListFormats { dir: Dir::Capture } => {
                &&& told matches Told::Offered(offered)
                &&& overlap(search.role.input@, offered)
            },
            Asked::ListFormats { dir: Dir::Output } => {
                &&& told matches Told::Capabilities { driver, device }
                &&& (if driver & CAP_DEVICE_CAPS == 0 {
                    driver
                } else {
                    device
                }) & CAP_M2M_MPLANE != 0
            },
            Asked::QueryCapabilities => told is Done,
            _ => true,
        },
{
}

/// Nodes that share an index are tried in the order they were listed.
pub proof fn law_nodes_of_one_index_keep_their_order(nodes: Seq<CandidateView>, index: usize)
    ensures
        sorted(nodes).filter(|node: CandidateView| node.index == index) == nodes.filter(
            |node: CandidateView| node.index == index,
        ),
    decreases nodes.len(),
{
    let same = |node: CandidateView| node.index == index;
    reveal(Seq::filter);
    if nodes.len() > 0 {
        let (last, rest) = (nodes.last(), sorted(nodes.drop_last()));
        let at = rank(rest, last.index);
        law_nodes_of_one_index_keep_their_order(nodes.drop_last(), index);
        lemma_rank(rest, last.index);
        let (front, back) = (rest.subrange(0, at), rest.subrange(at, rest.len() as int));
        assert(rest =~= front + back);
        assert(sorted(nodes) =~= front.push(last) + back);
        Seq::filter_distributes_over_add(front, back, same);
        Seq::filter_distributes_over_add(front.push(last), back, same);
        assert(front.push(last).drop_last() =~= front);
        if same(last) {
            lemma_none_kept(back, index);
            assert(front.filter(same) + back.filter(same) =~= front.filter(same));
            assert(front.push(last).filter(same) + back.filter(same) =~= front.push(last).filter(
                same,
            ));
        }
    }
}

proof fn lemma_none_kept(nodes: Seq<CandidateView>, index: usize)
    requires
        forall|i: int| 0 <= i < nodes.len() ==> (#[trigger] nodes[i]).index != index,
    ensures
        nodes.filter(|node: CandidateView| node.index == index).len() == 0,
    decreases nodes.len(),
{
    reveal(Seq::filter);
    if nodes.len() > 0 {
        lemma_none_kept(nodes.drop_last(), index);
    }
}

/// A search begins with the node that was named and no other, or with the first of those
/// listed, and one with nothing to look at is over at once.
pub proof fn law_where_a_search_begins(
    role: Role,
    named: Option<Seq<char>>,
    nodes: Seq<CandidateView>,
)
    ensures
        ({
            let (begun, asked) = SearchView::start(role, named, nodes).begin();
            &&& begun.role == role
            &&& begun.at == 0
            &&& begun.refused.len() == 0
            &&& named matches Some(path) ==> {
                &&& asked is Open
                &&& begun.nodes.len() == 1
                &&& begun.nodes[0].path == path
                &&& begun.named
            }
            &&& named is None ==> {
                &&& !begun.named
                &&& nodes.len() == 0 ==> asked is Fail
                &&& nodes.len() > 0 ==> asked is Open
                &&& begun.nodes.len() == nodes.len()
                &&& forall|i: int|
                    0 <= i < nodes.len() ==> begun.nodes[0].index <= (#[trigger] nodes[i]).index
            }
        }),
{
    if named is None {
        let sorts = sorted(nodes);
        law_nodes_are_tried_in_order(nodes);
        assert forall|i: int| 0 <= i < nodes.len() implies sorts[0].index <= (
        #[trigger] nodes[i]).index by {
            broadcast use vstd::seq_lib::group_to_multiset_ensures;

            assert(nodes.contains(nodes[i]));
            assert(nodes.to_multiset().count(nodes[i]) > 0);
            assert(sorts.contains(nodes[i]));
            let j = choose|j: int| 0 <= j < sorts.len() && sorts[j] == nodes[i];
            assert(sorts[0].index <= sorts[j].index);
        }
    }
}

/// Whether a search has gone on from a node that does not serve: to the next one, or, past
/// the last or from a node that was named, to its end.
pub open spec fn moved_on(search: SearchView, next: SearchView, asked: Asked) -> bool {
    if search.named || search.at + 1 >= search.nodes.len() {
        asked is Fail && next.phase is Over
    } else {
        &&& asked is Open
        &&& next.phase is Opening
        &&& next.at == search.at + 1
        &&& next.refused.len() == search.refused.len() + 1
        &&& next.refused.drop_last() == search.refused
    }
}

/// A node is looked at one step at a time and serves exactly when it opens, says that it
/// does multi-planar M2M, and offers something the role needs of either queue. What a node
/// does is what it says of itself, and what its driver says only of one that does not.
pub proof fn law_what_a_node_has_to_do(search: SearchView, told: Told)
    requires
        search.wf(),
    ensures
        ({
            let (next, asked) = search.step(told);
            match (search.phase, told) {
                (Phase::Opening, Told::Done) => asked is QueryCapabilities && next.phase is Querying
                    && next.at == search.at,
                (Phase::Opening, Told::Failed(_)) => moved_on(search, next, asked),
                (Phase::Querying, Told::Failed(_)) => moved_on(search, next, asked),
                (Phase::Querying, Told::Capabilities { driver, device }) => {
                    let caps = if driver & 0x8000_0000 != 0 {
                        device
                    } else {
                        driver
                    };
                    if caps & 0x4000 != 0 {
                        &&& asked == (Asked::ListFormats { dir: Dir::Output })
                        &&& next.phase == (Phase::Listing { dir: Dir::Output })
                        &&& next.at == search.at
                    } else {
                        moved_on(search, next, asked)
                    }
                },
                (Phase::Listing { dir: Dir::Output }, Told::Offered(offered)) => {
                    if overlap(search.role.input@, offered) {
                        &&& asked == (Asked::ListFormats { dir: Dir::Capture })
                        &&& next.phase == (Phase::Listing { dir: Dir::Capture })
                        &&& next.at == search.at
                    } else {
                        moved_on(search, next, asked)
                    }
                },
                (Phase::Listing { dir: Dir::Capture }, Told::Offered(offered)) => {
                    if overlap(search.role.output@, offered) {
                        asked is Found && next.phase is Over && next.at == search.at
                    } else {
                        moved_on(search, next, asked)
                    }
                },
                _ => true,
            }
        }),
        search.step(told).0.role == search.role,
        search.step(told).0.nodes == search.nodes,
        search.step(told).0.named == search.named,
{
    let (next, asked) = search.step(told);
    if next.refused.len() > search.refused.len() {
        assert(next.refused.drop_last() =~= search.refused);
    }
}

/// A search takes every answer to what it asked.
pub proof fn law_every_answer_is_taken(search: SearchView, told: Told)
    ensures
        search.phase is Opening ==> told is Done || told is Failed ==> search.expects(told),
        search.phase is Querying ==> told is Capabilities || told is Failed ==> search.expects(
            told,
        ),
        search.phase is Listing ==> told is Offered ==> search.expects(told),
{
}

/// A node that is passed over is remembered by its path, and so is why, for the search that
/// finds nothing to say.
pub proof fn law_a_refusal_names_its_node(search: SearchView, told: Told)
    requires
        search.wf(),
        !search.named,
        search.step(told).0.refused.len() > search.refused.len(),
    ensures
        ({
            let said = search.step(told).0.refused.last();
            let path = search.nodes[search.at].path;
            &&& said.len() > path.len()
            &&& said.subrange(0, path.len() as int) == path
            &&& told matches Told::Failed(why) ==> says(said, why)
        }),
        search.step(told).1 matches Asked::Fail(what) ==> {
            &&& says(what, search.role.env@)
            &&& says(what, spellings(search.role.input@))
            &&& says(what, spellings(search.role.output@))
            &&& says(what, joined(search.step(told).0.refused, ", "@))
        },
{
    let (next, asked) = search.step(told);
    let path = search.nodes[search.at].path;
    let front = path + ": "@;
    let said = next.refused.last();
    reveal_strlit(": ");
    assert(said.subrange(0, path.len() as int) =~= path);
    if let Told::Failed(why) = told {
        lemma_says("open: "@, why, Seq::empty());
        lemma_says("QUERYCAP: "@, why, Seq::empty());
        lemma_says_more("open: "@ + why, why, front);
        lemma_says_more("QUERYCAP: "@ + why, why, front);
        lemma_says_more(front + ("open: "@ + why), why, front);
        lemma_says_more(front + ("QUERYCAP: "@ + why), why, front);
    }
    if asked is Fail {
        lemma_what_is_said(next);
    }
}

/// A search that found nothing says what it looked for and what it looked at.
proof fn lemma_what_is_said(search: SearchView)
    requires
        search.refused.len() > 0,
    ensures
        says(search.exhausted(), search.role.env@),
        says(search.exhausted(), spellings(search.role.input@)),
        says(search.exhausted(), spellings(search.role.output@)),
        says(search.exhausted(), joined(search.refused, ", "@)),
{
    let (a, b, c) = (
        spellings(search.role.input@),
        spellings(search.role.output@),
        search.role.env@,
    );
    let d = joined(search.refused, ", "@);
    let one = "no V4L2 M2M node converts "@ + a;
    let two = one + " to "@ + b;
    let three = two + " (set "@ + c;
    let four = three + " to name one; tried "@ + d;
    lemma_says("no V4L2 M2M node converts "@, a, Seq::empty());
    lemma_says_more(one, a, " to "@);
    lemma_says_more(one + " to "@, a, b);
    lemma_says(one + " to "@, b, Seq::empty());
    lemma_says_more(two, a, " (set "@);
    lemma_says_more(two, b, " (set "@);
    lemma_says_more(two + " (set "@, a, c);
    lemma_says_more(two + " (set "@, b, c);
    lemma_says(two + " (set "@, c, Seq::empty());
    lemma_says_more(three, a, " to name one; tried "@);
    lemma_says_more(three, b, " to name one; tried "@);
    lemma_says_more(three, c, " to name one; tried "@);
    lemma_says_more(three + " to name one; tried "@, a, d);
    lemma_says_more(three + " to name one; tried "@, b, d);
    lemma_says_more(three + " to name one; tried "@, c, d);
    lemma_says(three + " to name one; tried "@, d, Seq::empty());
    lemma_says_more(four, a, ")"@);
    lemma_says_more(four, b, ")"@);
    lemma_says_more(four, c, ")"@);
    lemma_says_more(four, d, ")"@);
    assert(search.exhausted() == four + ")"@);
}

/// A search takes nothing but an answer to what it asked, and nothing once it is over.
pub proof fn law_only_an_answer_is_taken(search: SearchView, told: Told)
    requires
        search.expects(told),
    ensures
        match search.phase {
            Phase::Opening => told is Done || told is Failed,
            Phase::Querying => told is Capabilities || told is Failed,
            Phase::Listing { .. } => told is Offered,
            Phase::Over => false,
        },
{
}

} // verus!
