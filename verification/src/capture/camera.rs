//! PipeWire cameras: the `Video/Source` nodes with the `Camera` role, which is
//! how PipeWire presents V4L2 webcams and libcamera sensors such as a Raspberry Pi
//! CSI camera.
//!
//! Outside a sandbox a capture connects to the session's PipeWire socket. A
//! sandbox cannot reach that socket, so there the camera portal grants access and
//! hands back a PipeWire remote that exposes the cameras.

use vstd::prelude::*;
use vstd::string::*;

use crate::error::Error;
use crate::text::{join, joined, law_parts_are_joined_in_order, texts};

verus! {

/// How long the PipeWire daemon may take to list its objects, in microseconds. A
/// connected daemon answers in milliseconds, so running out means it is stuck.
pub const SCAN_TIMEOUT: u64 = 5_000_000;

/// `PW_ID_CORE`: the object every connection starts from.
pub const ID_CORE: u32 = 0;

/// A property of a registry global.
#[derive(Clone, Debug, PartialEq, Eq)]
pub struct Property {
    pub key: String,
    pub value: String,
}

impl Property {
    pub open spec fn view(&self) -> (Seq<char>, Seq<char>) {
        (self.key@, self.value@)
    }

    pub fn new(key: &str, value: &str) -> (property: Property)
        ensures
            property@ == (key@, value@),
    {
        Property { key: key.to_owned(), value: value.to_owned() }
    }
}

/// The properties of a list.
pub open spec fn properties(props: Seq<Property>) -> Seq<(Seq<char>, Seq<char>)> {
    props.map_values(|property: Property| property@)
}

/// The value of the first property named `key`.
pub open spec fn lookup(props: Seq<(Seq<char>, Seq<char>)>, key: Seq<char>) -> Option<Seq<char>>
    decreases props.len(),
{
    if props.len() == 0 {
        None
    } else if props[0].0 == key {
        Some(props[0].1)
    } else {
        lookup(props.drop_first(), key)
    }
}

/// The value of the first property named `key`.
fn property<'a>(props: &'a [Property], key: &str) -> (value: Option<&'a String>)
    ensures
        match value {
            Some(value) => lookup(properties(props@), key@) == Some(value@),
            None => lookup(properties(props@), key@) is None,
        },
{
    let wanted = key.to_owned();
    let mut at: usize = 0;
    assert(properties(props@).skip(0) =~= properties(props@));
    while at < props.len()
        invariant
            at <= props@.len(),
            wanted@ == key@,
            lookup(properties(props@), key@) == lookup(properties(props@).skip(at as int), key@),
        decreases props@.len() - at,
    {
        let ghost rest = properties(props@).skip(at as int);
        assert(rest[0] == props@[at as int]@);
        if props[at].key == wanted {
            return Some(&props[at].value);
        }
        assert(rest.drop_first() =~= properties(props@).skip(at + 1));
        at = at + 1;
    }
    None
}

/// A PipeWire camera node.
#[derive(Clone, Debug, PartialEq, Eq)]
pub struct Node {
    /// The registry id to link to. Only valid for one connection's lifetime.
    pub id: u32,
    /// `node.name`, which stays the same across restarts and reboots.
    pub name: String,
    /// `node.description`, or the best name the node has short of it.
    pub description: String,
}

/// What a [`Node`] says.
#[verifier::ext_equal]
pub struct NodeView {
    pub id: u32,
    pub name: Seq<char>,
    pub description: Seq<char>,
}

/// The camera a registry global is, from its properties, or `None` when it is not
/// one. The criterion is the one xdg-desktop-portal applies when it decides which
/// nodes a sandboxed app may see.
pub open spec fn camera(id: u32, props: Seq<(Seq<char>, Seq<char>)>) -> Option<NodeView> {
    let name = lookup(props, "node.name"@);
    let given = match lookup(props, "node.description"@) {
        Some(description) => Some(description),
        None => lookup(props, "node.nick"@),
    };
    if lookup(props, "media.class"@) != Some("Video/Source"@) || lookup(props, "media.role"@)
        != Some("Camera"@) || name is None || name->0.len() == 0 {
        None
    } else {
        Some(
            NodeView {
                id,
                name: name->0,
                description: match given {
                    Some(description) if description.len() > 0 => description,
                    _ => name->0,
                },
            },
        )
    }
}

impl Node {
    pub open spec fn view(&self) -> NodeView {
        NodeView { id: self.id, name: self.name@, description: self.description@ }
    }

    /// Build a node from a registry global's properties, or `None` when it is not
    /// a camera.
    pub fn from_props(id: u32, props: &[Property]) -> (node: Option<Node>)
        ensures
            match node {
                Some(node) => camera(id, properties(props@)) == Some(node@),
                None => camera(id, properties(props@)) is None,
            },
    {
        match (property(props, "media.class"), property(props, "media.role")) {
            (Some(class), Some(role)) => {
                if *class != "Video/Source".to_owned() || *role != "Camera".to_owned() {
                    return None;
                }
            },
            _ => { return None; },
        }
        let name = match property(props, "node.name") {
            Some(name) => name.clone(),
            None => { return None; },
        };
        // The name is the id's only stable part, so a node without one is unusable.
        if name.as_str().is_empty() {
            return None;
        }
        let given = match property(props, "node.description") {
            Some(description) => Some(description),
            None => property(props, "node.nick"),
        };
        let description = match given {
            Some(description) if !description.as_str().is_empty() => description.clone(),
            _ => name.clone(),
        };
        Some(Node { id, name, description })
    }
}

/// A camera always has something to be called by: an id of its own, and a name to
/// show for it.
pub proof fn law_a_camera_has_a_name(id: u32, props: Seq<(Seq<char>, Seq<char>)>)
    requires
        camera(id, props) is Some,
    ensures
        camera(id, props)->0.name.len() > 0,
        camera(id, props)->0.description.len() > 0,
        camera(id, props)->0.id == id,
{
}

/// What the nodes of a list say.
pub open spec fn nodes_of(nodes: Seq<Node>) -> Seq<NodeView> {
    nodes.map_values(|node: Node| node@)
}

/// The first node named `name`.
pub open spec fn find(nodes: Seq<NodeView>, name: Seq<char>) -> Option<NodeView>
    decreases nodes.len(),
{
    if nodes.len() == 0 {
        None
    } else if nodes[0].name == name {
        Some(nodes[0])
    } else {
        find(nodes.drop_first(), name)
    }
}

/// The names of the nodes, with commas between them.
pub open spec fn names(nodes: Seq<NodeView>) -> Seq<char> {
    joined(nodes.map_values(|node: NodeView| node.name), ", "@)
}

fn list_names(nodes: &[Node]) -> (text: String)
    ensures
        text@ == names(nodes_of(nodes@)),
{
    let mut found: Vec<String> = Vec::new();
    let mut at: usize = 0;
    while at < nodes.len()
        invariant
            at <= nodes@.len(),
            found@.len() == at,
            forall|i: int| 0 <= i < at ==> (#[trigger] found@[i])@ == nodes@[i].name@,
        decreases nodes@.len() - at,
    {
        found.push(nodes[at].name.clone());
        at = at + 1;
    }
    assert(texts(found@) =~= nodes_of(nodes@).map_values(|node: NodeView| node.name));
    join(&found, ", ")
}

/// The node id to link to for `name`, or `None` to let the session manager pick
/// its default camera. Fails when the camera is not there, rather than leaving the
/// stream unlinked until the format wait runs out.
pub fn resolve(nodes: &[Node], name: Option<&str>) -> (r: Result<Option<u32>, Error>)
    ensures
        match (name, r) {
            (None, Ok(id)) => nodes@.len() > 0 && id is None,
            (None, Err(Error::SourceUnavailable { what })) => nodes@.len() == 0 && what@
                == "PipeWire has no camera"@,
            (Some(name), Ok(id)) => {
                &&& find(nodes_of(nodes@), name@) matches Some(node)
                &&& id == Some(node.id)
            },
            (Some(name), Err(Error::SourceUnavailable { what })) => {
                &&& find(nodes_of(nodes@), name@) is None
                &&& what@ == "no PipeWire camera named "@ + name@ + " (found: "@ + names(
                    nodes_of(nodes@),
                ) + ")"@
            },
            (_, Err(_)) => false,
        },
{
    let chosen = match name {
        Some(name) => name,
        None => {
            if nodes.len() == 0 {
                return Err(
                    Error::SourceUnavailable { what: "PipeWire has no camera".to_owned() },
                );
            }
            return Ok(None);
        },
    };
    let wanted = chosen.to_owned();
    let mut at: usize = 0;
    assert(nodes_of(nodes@).skip(0) =~= nodes_of(nodes@));
    while at < nodes.len()
        invariant
            at <= nodes@.len(),
            name == Some(chosen),
            wanted@ == chosen@,
            find(nodes_of(nodes@), chosen@) == find(nodes_of(nodes@).skip(at as int), chosen@),
        decreases nodes@.len() - at,
    {
        let ghost rest = nodes_of(nodes@).skip(at as int);
        assert(rest[0] == nodes@[at as int]@);
        if nodes[at].name == wanted {
            return Ok(Some(nodes[at].id));
        }
        assert(rest.drop_first() =~= nodes_of(nodes@).skip(at + 1));
        at = at + 1;
    }
    let mut what = String::new();
    what.append("no PipeWire camera named ");
    what.append(chosen);
    what.append(" (found: ");
    what.append(list_names(nodes).as_str());
    what.append(")");
    assert(what@ =~= "no PipeWire camera named "@ + chosen@ + " (found: "@ + names(nodes_of(nodes@))
        + ")"@);
    Err(Error::SourceUnavailable { what })
}

/// Every camera that is listed can be opened: resolving its name finds a camera of
/// that name, and its own id when no camera listed before it shares the name.
pub proof fn law_a_listed_camera_resolves(nodes: Seq<NodeView>, at: int)
    requires
        0 <= at < nodes.len(),
    ensures
        find(nodes, nodes[at].name) matches Some(node) && node.name == nodes[at].name,
        (forall|i: int| 0 <= i < at ==> (#[trigger] nodes[i]).name != nodes[at].name) ==> find(
            nodes,
            nodes[at].name,
        ) == Some(nodes[at]),
    decreases at,
{
    if at > 0 && nodes[0].name != nodes[at].name {
        let rest = nodes.drop_first();
        law_a_listed_camera_resolves(rest, at - 1);
        assert(rest[at - 1] == nodes[at]);
        assert forall|i: int|
            0 <= i < at - 1 && (forall|j: int|
                0 <= j < at ==> (#[trigger] nodes[j]).name != nodes[at].name) implies (
        #[trigger] rest[i]).name != nodes[at].name by {
            assert(rest[i] == nodes[i + 1]);
        }
    }
}

/// A camera a caller may choose.
#[derive(Clone, Debug, PartialEq, Eq)]
pub struct Camera {
    /// `pipewire:<node name>`.
    pub id: String,
    pub name: String,
}

impl Camera {
    pub open spec fn view(&self) -> (Seq<char>, Seq<char>) {
        (self.id@, self.name@)
    }
}

/// What a capture of a camera is called: of the one named, or of the session
/// manager's default.
pub open spec fn labelled(node: Option<Seq<char>>) -> Seq<char> {
    match node {
        Some(node) => "pipewire"@ + ":"@ + node,
        None => "pipewire"@,
    }
}

/// What a capture of a camera is called.
pub fn label(node: Option<&str>) -> (label: String)
    ensures
        label@ == labelled(
            match node {
                Some(node) => Some(node@),
                None => None,
            },
        ),
{
    let mut label = String::new();
    label.append("pipewire");
    if let Some(node) = node {
        label.append(":");
        label.append(node);
    }
    assert(label@ =~= labelled(
        match node {
            Some(node) => Some(node@),
            None => None,
        },
    ));
    label
}

/// List the nodes as cameras.
pub fn cameras(nodes: &[Node]) -> (cameras: Vec<Camera>)
    ensures
        cameras@.len() == nodes@.len(),
        forall|i: int|
            0 <= i < nodes@.len() ==> (#[trigger] cameras@[i])@ == (
                labelled(Some(nodes@[i].name@)),
                nodes@[i].description@,
            ),
{
    let mut cameras: Vec<Camera> = Vec::new();
    let mut at: usize = 0;
    while at < nodes.len()
        invariant
            at <= nodes@.len(),
            cameras@.len() == at,
            forall|i: int|
                0 <= i < at ==> (#[trigger] cameras@[i])@ == (
                    labelled(Some(nodes@[i].name@)),
                    nodes@[i].description@,
                ),
        decreases nodes@.len() - at,
    {
        let id = label(Some(nodes[at].name.as_str()));
        cameras.push(Camera { id, name: nodes[at].description.clone() });
        at = at + 1;
    }
    cameras
}

/// What a PipeWire session that cannot be connected to comes to. PipeWire is
/// optional on a host, and a host without it has no PipeWire cameras. A portal
/// remote that fails to connect is broken.
pub fn unconnected(sandboxed: bool, cause: String) -> (r: Result<Vec<Camera>, Error>)
    ensures
        match r {
            Ok(cameras) => !sandboxed && cameras@.len() == 0,
            Err(err) => sandboxed && err == (Error::PipeWire { what: "pipewire connect", cause }),
        },
{
    if sandboxed {
        Err(Error::PipeWire { what: "pipewire connect", cause })
    } else {
        Ok(Vec::new())
    }
}

/// A listing of the camera nodes in progress, until the daemon has sent every
/// registry global.
#[derive(Debug)]
pub struct Scan {
    /// The sync the daemon answers only after every global it announced before it.
    pending: i32,
    nodes: Vec<Node>,
    /// How the listing ended, once it has.
    outcome: Option<Result<(), String>>,
}

/// How far a [`Scan`] has come.
#[verifier::ext_equal]
pub struct ScanView {
    pub pending: i32,
    pub nodes: Seq<NodeView>,
    pub outcome: Option<Result<(), Seq<char>>>,
}

impl ScanView {
    /// The listing after it ends one way, unless it has ended already.
    pub open spec fn ended(self, outcome: Result<(), Seq<char>>) -> ScanView {
        match self.outcome {
            Some(_) => self,
            None => ScanView { outcome: Some(outcome), ..self },
        }
    }

    /// The listing after the daemon answers a sync, and whether it is over.
    pub open spec fn done(self, id: u32, seq: i32) -> (ScanView, bool) {
        if id == ID_CORE && seq == self.pending {
            (self.ended(Ok(())), true)
        } else {
            (self, false)
        }
    }

    /// The listing after the daemon reports an error, and whether it is over.
    pub open spec fn error(self, id: u32, message: Seq<char>) -> (ScanView, bool) {
        if id == ID_CORE {
            (self.ended(Err(message)), true)
        } else {
            (self, false)
        }
    }

    /// The listing after the daemon announces a node.
    pub open spec fn global(self, id: u32, props: Seq<(Seq<char>, Seq<char>)>) -> ScanView {
        match camera(id, props) {
            Some(node) => ScanView { nodes: self.nodes.push(node), ..self },
            None => self,
        }
    }

    /// The listing after the daemon announces an object: only a node that comes with
    /// its properties can be a camera.
    pub open spec fn announce(
        self,
        id: u32,
        node: bool,
        props: Option<Seq<(Seq<char>, Seq<char>)>>,
    ) -> ScanView {
        match props {
            Some(props) if node => self.global(id, props),
            _ => self,
        }
    }
}

impl Scan {
    pub closed spec fn view(&self) -> ScanView {
        ScanView {
            pending: self.pending,
            nodes: nodes_of(self.nodes@),
            outcome: match self.outcome {
                Some(Ok(())) => Some(Ok(())),
                Some(Err(message)) => Some(Err(message@)),
                None => None,
            },
        }
    }

    /// Start a listing that is over once the daemon answers `pending`.
    pub fn new(pending: i32) -> (scan: Scan)
        ensures
            scan@ == (ScanView { pending, nodes: Seq::empty(), outcome: None }),
    {
        let scan = Scan { pending, nodes: Vec::new(), outcome: None };
        assert(scan@.nodes =~= Seq::empty());
        scan
    }

    /// The daemon announced a node.
    pub fn global(&mut self, id: u32, props: &[Property])
        ensures
            final(self)@ == old(self)@.global(id, properties(props@)),
    {
        if let Some(node) = Node::from_props(id, props) {
            self.nodes.push(node);
            assert(nodes_of(self.nodes@) =~= old(self)@.nodes.push(node@));
        }
    }

    /// The daemon announced an object: whether it is a node, and its properties where
    /// it comes with any.
    pub fn announce(&mut self, id: u32, node: bool, props: Option<&[Property]>)
        ensures
            final(self)@ == old(self)@.announce(
                id,
                node,
                match props {
                    Some(props) => Some(properties(props@)),
                    None => None,
                },
            ),
    {
        if let Some(props) = props {
            if node {
                self.global(id, props);
            }
        }
    }

    /// The daemon answered a sync. Says whether to stop listening.
    pub fn done(&mut self, id: u32, seq: i32) -> (quit: bool)
        ensures
            (final(self)@, quit) == old(self)@.done(id, seq),
    {
        if id != ID_CORE || seq != self.pending {
            return false;
        }
        if self.outcome.is_none() {
            self.outcome = Some(Ok(()));
        }
        true
    }

    /// The daemon reported an error. Says whether to stop listening.
    pub fn error(&mut self, id: u32, message: String) -> (quit: bool)
        ensures
            (final(self)@, quit) == old(self)@.error(id, message@),
    {
        if id != ID_CORE {
            return false;
        }
        if self.outcome.is_none() {
            self.outcome = Some(Err(message));
        }
        true
    }

    /// What the listing came to, once listening stops: the nodes, the daemon's
    /// error, or nothing in the whole of [`SCAN_TIMEOUT`].
    pub fn finish(self) -> (r: Result<Vec<Node>, Error>)
        ensures
            match (self@.outcome, r) {
                (Some(Ok(())), Ok(nodes)) => nodes_of(nodes@) == self@.nodes,
                (Some(Err(message)), Err(Error::PipeWire { what, cause })) => what@ == "pipewire"@
                    && cause@ == message,
                (None, Err(err)) => err == Error::ScanStalled,
                _ => false,
            },
    {
        match self.outcome {
            Some(Ok(())) => Ok(self.nodes),
            Some(Err(cause)) => Err(Error::PipeWire { what: "pipewire", cause }),
            None => Err(Error::ScanStalled),
        }
    }
}

/// Something the daemon says during a listing.
pub enum Said {
    /// There is an object: its id, whether it is a node, and its properties.
    Global(u32, bool, Option<Seq<(Seq<char>, Seq<char>)>>),
    Done(u32, i32),
    Error(u32, Seq<char>),
}

impl ScanView {
    pub open spec fn hear(self, said: Said) -> ScanView {
        match said {
            Said::Global(id, node, props) => self.announce(id, node, props),
            Said::Done(id, seq) => self.done(id, seq).0,
            Said::Error(id, message) => self.error(id, message).0,
        }
    }
}

/// The listing after everything the daemon says.
pub open spec fn heard(scan: ScanView, said: Seq<Said>) -> ScanView
    decreases said.len(),
{
    if said.len() == 0 {
        scan
    } else {
        heard(scan, said.drop_last()).hear(said.last())
    }
}

/// How a listing ends is settled by the first thing that ends it, and nothing said
/// after changes it: an error from a daemon that is being left does not turn a
/// finished listing into a failure.
pub proof fn law_the_first_outcome_stands(scan: ScanView, said: Seq<Said>)
    requires
        scan.outcome is Some,
    ensures
        heard(scan, said).outcome == scan.outcome,
    decreases said.len(),
{
    if said.len() > 0 {
        law_the_first_outcome_stands(scan, said.drop_last());
    }
}

/// A listing holds a camera for each node announced that is one, in the order they
/// were announced, whatever else is said.
pub proof fn law_every_announced_camera_is_listed(scan: ScanView, said: Seq<Said>)
    requires
        scan.nodes.len() == 0,
    ensures
        heard(scan, said).nodes == announced(said),
    decreases said.len(),
{
    if said.len() > 0 {
        law_every_announced_camera_is_listed(scan, said.drop_last());
    } else {
        assert(scan.nodes =~= announced(said));
    }
}

/// The cameras announced, in order.
pub open spec fn announced(said: Seq<Said>) -> Seq<NodeView>
    decreases said.len(),
{
    if said.len() == 0 {
        Seq::empty()
    } else {
        let before = announced(said.drop_last());
        match said.last() {
            Said::Global(id, true, Some(props)) => match camera(id, props) {
                Some(node) => before.push(node),
                None => before,
            },
            _ => before,
        }
    }
}

/// What to do next to reach PipeWire.
#[derive(Clone, Debug, PartialEq, Eq)]
pub enum Remote {
    /// Nothing: use the session's socket.
    Socket,
    /// Connect to the camera portal.
    ConnectPortal,
    /// Ask the portal whether there is a camera at all.
    CheckPresent,
    /// Ask the portal for access. It asks the user unless the sandbox's permission
    /// store already holds a grant, so this blocks on the user the first time.
    RequestAccess,
    /// Ask the portal for its PipeWire remote.
    OpenRemote,
    /// Nothing: use the remote the portal gave.
    Portal,
    /// Nothing: there is no way in.
    Fail(Error),
}

/// What came of a [`Remote`] step.
#[derive(Clone, Debug, PartialEq, Eq)]
pub enum Answer {
    /// It was done.
    Done,
    /// Whether there is a camera.
    Present(bool),
    /// The user or the permission store said no.
    Denied(String),
    /// It failed.
    Failed(String),
}

impl Remote {
    /// How to begin: a sandbox has to go through the portal.
    pub fn begin(sandboxed: bool) -> (step: Remote)
        ensures
            step == if sandboxed {
                Remote::ConnectPortal
            } else {
                Remote::Socket
            },
    {
        if sandboxed {
            Remote::ConnectPortal
        } else {
            Remote::Socket
        }
    }

    /// Whether the answer is one this step can get.
    pub open spec fn expects(self, answer: Answer) -> bool {
        match self {
            Remote::ConnectPortal | Remote::OpenRemote => answer is Done || answer is Failed,
            Remote::CheckPresent => answer is Present || answer is Failed,
            Remote::RequestAccess => answer is Done || answer is Denied || answer is Failed,
            _ => false,
        }
    }

    /// What a failure of this step is called.
    pub open spec fn called(self) -> Seq<char> {
        match self {
            Remote::RequestAccess => "camera portal access"@,
            Remote::OpenRemote => "camera portal pipewire remote"@,
            _ => "camera portal"@,
        }
    }

    /// What follows an answer.
    pub fn next(self, answer: Answer) -> (next: Remote)
        requires
            self.expects(answer),
        ensures
            match answer {
                Answer::Done => next == match self {
                    Remote::ConnectPortal => Remote::CheckPresent,
                    Remote::RequestAccess => Remote::OpenRemote,
                    _ => Remote::Portal,
                },
                Answer::Present(true) => next == Remote::RequestAccess,
                Answer::Present(false) => {
                    &&& next matches Remote::Fail(Error::SourceUnavailable { what })
                    &&& what@ == "the camera portal reports no camera"@
                },
                Answer::Denied(cause) => {
                    &&& next matches Remote::Fail(Error::PermissionDenied { what })
                    &&& what@ == "camera access request: "@ + cause@
                },
                Answer::Failed(cause) => {
                    &&& next matches Remote::Fail(Error::PipeWire { what, cause: named })
                    &&& what@ == self.called()
                    &&& named == cause
                },
            },
    {
        match (self, answer) {
            (Remote::ConnectPortal, Answer::Done) => Remote::CheckPresent,
            (Remote::CheckPresent, Answer::Present(true)) => Remote::RequestAccess,
            (Remote::CheckPresent, Answer::Present(false)) => Remote::Fail(
                Error::SourceUnavailable {
                    what: "the camera portal reports no camera".to_owned(),
                },
            ),
            (Remote::RequestAccess, Answer::Done) => Remote::OpenRemote,
            (Remote::RequestAccess, Answer::Denied(cause)) => {
                let mut what = "camera access request: ".to_owned();
                what.append(cause.as_str());
                Remote::Fail(Error::PermissionDenied { what })
            },
            (Remote::RequestAccess, Answer::Failed(cause)) => Remote::Fail(
                Error::PipeWire { what: "camera portal access", cause },
            ),
            (Remote::OpenRemote, Answer::Failed(cause)) => Remote::Fail(
                Error::PipeWire { what: "camera portal pipewire remote", cause },
            ),
            (_, Answer::Failed(cause)) => Remote::Fail(
                Error::PipeWire { what: "camera portal", cause },
            ),
            _ => Remote::Portal,
        }
    }
}

/// A property is the first of its name: those before it are named otherwise, and there is
/// none exactly when all are.
pub proof fn law_the_first_property_of_a_name_counts(
    props: Seq<(Seq<char>, Seq<char>)>,
    key: Seq<char>,
)
    ensures
        match lookup(props, key) {
            Some(value) => exists|at: int|
                0 <= at < props.len() && (#[trigger] props[at]) == (key, value) && forall|i: int|
                    0 <= i < at ==> (#[trigger] props[i]).0 != key,
            None => forall|i: int| 0 <= i < props.len() ==> (#[trigger] props[i]).0 != key,
        },
    decreases props.len(),
{
    if props.len() > 0 {
        if props[0].0 == key {
            assert(props[0] == (key, props[0].1));
        } else {
            let rest = props.drop_first();
            law_the_first_property_of_a_name_counts(rest, key);
            match lookup(props, key) {
                Some(value) => {
                    let at = choose|at: int|
                        0 <= at < rest.len() && (#[trigger] rest[at]) == (key, value)
                            && forall|i: int| 0 <= i < at ==> (#[trigger] rest[i]).0 != key;
                    assert(props[at + 1] == (key, value));
                    assert forall|i: int| 0 <= i < at + 1 implies (#[trigger] props[i]).0
                        != key by {
                        if i > 0 {
                            assert(rest[i - 1] == props[i]);
                        }
                    }
                },
                None => {
                    assert forall|i: int| 0 <= i < props.len() implies (#[trigger] props[i]).0
                        != key by {
                        if i > 0 {
                            assert(rest[i - 1] == props[i]);
                        }
                    }
                },
            }
        }
    }
}

/// A node is a camera exactly when it is a video source in the camera role and has a name
/// of its own. It is shown under its description, failing that its nickname, and failing
/// both, or when what it has of them is empty, under its name.
pub proof fn law_what_a_camera_is(id: u32, props: Seq<(Seq<char>, Seq<char>)>)
    ensures
        ({
            let (name, description, nick) = (
                lookup(props, "node.name"@),
                lookup(props, "node.description"@),
                lookup(props, "node.nick"@),
            );
            let is_camera = lookup(props, "media.class"@) == Some("Video/Source"@) && lookup(
                props,
                "media.role"@,
            ) == Some("Camera"@) && name is Some && name->0.len() > 0;
            &&& camera(id, props) is Some <==> is_camera
            &&& camera(id, props) matches Some(node) ==> {
                &&& node.id == id
                &&& Some(node.name) == name
                &&& description is Some && description->0.len() > 0 ==> Some(node.description)
                    == description
                &&& description is None && nick is Some && nick->0.len() > 0 ==> Some(
                    node.description,
                ) == nick
                &&& description is Some && description->0.len() == 0 ==> Some(node.description)
                    == name
                &&& description is None && (nick is None || nick->0.len() == 0) ==> Some(
                    node.description,
                ) == name
            }
        }),
{
}

/// A name resolves to the first camera that has it, and to none exactly when no camera
/// does.
pub proof fn law_a_name_resolves_to_its_first_camera(nodes: Seq<NodeView>, name: Seq<char>)
    ensures
        match find(nodes, name) {
            Some(node) => exists|at: int|
                0 <= at < nodes.len() && (#[trigger] nodes[at]) == node && node.name == name
                    && forall|i: int| 0 <= i < at ==> (#[trigger] nodes[i]).name != name,
            None => forall|i: int| 0 <= i < nodes.len() ==> (#[trigger] nodes[i]).name != name,
        },
    decreases nodes.len(),
{
    if nodes.len() > 0 {
        if nodes[0].name == name {
            assert(nodes[0] == find(nodes, name)->0);
        } else {
            let rest = nodes.drop_first();
            law_a_name_resolves_to_its_first_camera(rest, name);
            match find(nodes, name) {
                Some(node) => {
                    let at = choose|at: int|
                        0 <= at < rest.len() && (#[trigger] rest[at]) == node && node.name == name
                            && forall|i: int| 0 <= i < at ==> (#[trigger] rest[i]).name != name;
                    assert(nodes[at + 1] == node);
                    assert forall|i: int| 0 <= i < at + 1 implies (#[trigger] nodes[i]).name
                        != name by {
                        if i > 0 {
                            assert(rest[i - 1] == nodes[i]);
                        }
                    }
                },
                None => {
                    assert forall|i: int| 0 <= i < nodes.len() implies (#[trigger] nodes[i]).name
                        != name by {
                        if i > 0 {
                            assert(rest[i - 1] == nodes[i]);
                        }
                    }
                },
            }
        }
    }
}

/// Two cameras of different names have different ids, and none has the default's.
pub proof fn law_an_id_names_its_camera(a: Seq<char>, b: Seq<char>)
    ensures
        labelled(Some(a)) == labelled(Some(b)) ==> a == b,
        labelled(Some(a)) != labelled(None),
        labelled(Some(a)) == "pipewire:"@ + a,
{
    reveal_strlit("pipewire");
    reveal_strlit(":");
    reveal_strlit("pipewire:");
    let (x, y) = (labelled(Some(a)), labelled(Some(b)));
    assert(x =~= "pipewire:"@ + a);
    if x == y {
        assert(a =~= x.subrange(9, x.len() as int));
        assert(b =~= y.subrange(9, y.len() as int));
    }
    assert(x.len() > labelled(None).len());
}

/// A listing ends, and listening stops, when the daemon answers the very sync the listing
/// waits for or reports an error of the connection itself. Answers to other syncs and
/// errors of other objects change nothing.
pub proof fn law_what_ends_a_listing(scan: ScanView, id: u32, seq: i32, message: Seq<char>)
    ensures
        ({
            let (done, quit) = scan.done(id, seq);
            if id == 0 && seq == scan.pending {
                &&& quit
                &&& scan.outcome is None ==> done.outcome == Some(Ok::<(), Seq<char>>(()))
                &&& done.nodes == scan.nodes
            } else {
                !quit && done == scan
            }
        }),
        ({
            let (broken, quit) = scan.error(id, message);
            if id == 0 {
                &&& quit
                &&& scan.outcome is None ==> broken.outcome == Some(Err::<(), Seq<char>>(message))
                &&& broken.nodes == scan.nodes
            } else {
                !quit && broken == scan
            }
        }),
{
}

/// Cameras are named one after another in the order they are listed, with commas between
/// them.
pub proof fn law_cameras_are_named_in_order(nodes: Seq<NodeView>, node: NodeView)
    ensures
        nodes.len() == 0 ==> names(nodes.push(node)) == node.name,
        nodes.len() > 0 ==> names(nodes.push(node)) == names(nodes) + ", "@ + node.name,
{
    let name = |node: NodeView| node.name;
    assert(nodes.push(node).map_values(name) =~= nodes.map_values(name).push(node.name));
    law_parts_are_joined_in_order(nodes.map_values(name), node.name, ", "@);
}

/// The portal takes every answer to what it was asked, and only those.
pub proof fn law_what_the_portal_may_answer(step: Remote, answer: Answer)
    ensures
        step is ConnectPortal || step is OpenRemote ==> (step.expects(answer) <==> answer is Done
            || answer is Failed),
        step is CheckPresent ==> (step.expects(answer) <==> answer is Present || answer is Failed),
        step is RequestAccess ==> (step.expects(answer) <==> !(answer is Present)),
        step is Socket || step is Portal || step is Fail ==> !step.expects(answer),
{
}

/// A portal that fails says at which step: reaching it, asking it for access, or asking it
/// for its remote.
pub proof fn law_a_portal_failure_names_the_step(step: Remote)
    ensures
        step is ConnectPortal || step is CheckPresent ==> step.called() == "camera portal"@,
        step is RequestAccess ==> step.called() == "camera portal access"@,
        step is OpenRemote ==> step.called() == "camera portal pipewire remote"@,
{
}

} // verus!
