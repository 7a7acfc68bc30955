//! The relay as a state machine. It holds the table of open connections and
//! the registry of names, and answers each event on a connection (opened,
//! message received, closed) with the messages to send and a new state.

use crate::address::{any_interface_at, bind_address};
use crate::envelope::{envelope_of, Envelope, EnvelopeView};
use crate::handshake::{parse_requested_name, requested_name};
use crate::laws::{lemma_closed_wf, lemma_opened_wf, lemma_size_counts_named};
use crate::network::{Network, Refusal};
use crate::node::{ConnectionHandle, Node, NodeView};
use crate::text::{characters_of, same_text};
use vstd::prelude::*;
use vstd::string::StringExecFns;

verus! {

/// Addresses a message to every open connection.
pub const ONE_TO_ALL: &'static str = "one-to-all";

/// Addresses a message back to the connection that sent it.
pub const ONE_TO_SELF: &'static str = "one-to-self";

/// Addresses a message to the connection registered under the envelope's endpoint.
pub const ONE_TO_ONE: &'static str = "one-to-one";

/// Sent to a connection that asked for a name which another connection holds.
pub const USERNAME_TAKEN: &'static str = "The username is taken";

/// Sent back when a directed message names no endpoint.
pub const NO_ENDPOINT: &'static str = "No field 'endpoint' provided";

/// Sent back, followed by the endpoint, when no connection is registered
/// under the endpoint of a directed message.
pub const UNKNOWN_ENDPOINT: &'static str = "Could not find a node with the name ";

/// Sent back when the envelope's protocol is none of the three above.
pub const INVALID_PROTOCOL: &'static str =
    "Invalid protocol, valid protocols include:\n                            \
     'one-to-one'\n                            \
     'one-to-self'\n                            \
     'one-to-all'";

/// The status code of a closing handshake that both sides completed.
pub const CLOSE_NORMAL: u16 = 1000;

/// The status code of a peer that is going away.
pub const CLOSE_AWAY: u16 = 1001;

/// The status code that stands for a connection lost without a closing
/// handshake.
pub const CLOSE_ABNORMAL: u16 = 1006;

/// Why a connection closed, as far as the relay tells the causes apart. It
/// serves the log only: the relay does the same whatever the cause.
#[derive(Clone, Copy, Debug, PartialEq, Eq, Structural)]
pub enum CloseReason {
    /// The peer was done with the connection.
    Normal,
    /// The peer left.
    Away,
    /// The connection was lost unexpectedly.
    Abnormal,
    /// Anything else: an error.
    Error,
}

/// The cause that a close status code stands for.
pub open spec fn close_reason(code: u16) -> CloseReason {
    if code == CLOSE_NORMAL {
        CloseReason::Normal
    } else if code == CLOSE_AWAY {
        CloseReason::Away
    } else if code == CLOSE_ABNORMAL {
        CloseReason::Abnormal
    } else {
        CloseReason::Error
    }
}

/// A named connection that has closed: the name it gave up, and why it
/// closed.
#[derive(Clone, Debug, PartialEq, Eq)]
pub struct Departed {
    pub owner: String,
    pub reason: CloseReason,
}

/// A [`Departed`] in contracts.
pub struct DepartedView {
    pub owner: Seq<char>,
    pub reason: CloseReason,
}

impl View for Departed {
    type V = DepartedView;

    open spec fn view(&self) -> DepartedView {
        DepartedView { owner: self.owner@, reason: self.reason }
    }
}

/// One message for the transport to send.
#[derive(Clone, Debug, PartialEq, Eq)]
pub struct Delivery {
    /// The connection to send on.
    pub to: ConnectionHandle,
    /// The text to send.
    pub text: String,
}

/// A [`Delivery`] in contracts.
pub struct DeliveryView {
    pub to: ConnectionHandle,
    pub text: Seq<char>,
}

impl View for Delivery {
    type V = DeliveryView;

    open spec fn view(&self) -> DeliveryView {
        DeliveryView { to: self.to, text: self.text@ }
    }
}

/// The deliveries of a list, each as its view.
pub open spec fn views(deliveries: Seq<Delivery>) -> Seq<DeliveryView> {
    deliveries.map_values(|delivery: Delivery| delivery@)
}

/// The delivery of `text` to a handle, as a function of the handle.
pub open spec fn addressed(text: Seq<char>) -> spec_fn(ConnectionHandle) -> DeliveryView {
    |to: ConnectionHandle| DeliveryView { to, text }
}

/// The relay's state in contracts.
pub struct ServerView {
    /// One entry for each handle issued so far, at the handle's index: the
    /// connection while it is open, `None` once it has closed.
    pub connections: Seq<Option<NodeView>>,
    /// The registry: each registered name with the handle of its holder.
    pub network: Map<Seq<char>, ConnectionHandle>,
}

impl ServerView {
    /// The state of a relay that has seen nothing yet.
    pub open spec fn initial() -> ServerView {
        ServerView { connections: Seq::empty(), network: Map::empty() }
    }

    /// Whether `handle` stands for an open connection.
    pub open spec fn is_open(self, handle: ConnectionHandle) -> bool {
        handle.index < self.connections.len() && self.connections[handle.index as int] is Some
    }

    /// The name that the open connection behind `handle` holds, if any.
    pub open spec fn owner_of(self, handle: ConnectionHandle) -> Option<Seq<char>>
        recommends
            self.is_open(handle),
    {
        self.connections[handle.index as int]->0.owner
    }

    /// The handles of the open connections that hold a name.
    pub open spec fn named(self) -> Set<ConnectionHandle> {
        Set::new(|handle: ConnectionHandle| self.is_open(handle) && self.owner_of(handle) is Some)
    }

    /// Every handle issued so far, oldest first.
    pub open spec fn handles(self) -> Seq<ConnectionHandle> {
        Seq::new(self.connections.len(), |i: int| ConnectionHandle { index: i as usize })
    }

    /// The handles of the open connections, oldest first.
    pub open spec fn open_handles(self) -> Seq<ConnectionHandle> {
        self.handles().filter(self.open())
    }

    /// [`Self::is_open`] as a predicate on handles.
    pub open spec fn open(self) -> spec_fn(ConnectionHandle) -> bool {
        |handle: ConnectionHandle| self.is_open(handle)
    }

    /// `text` for every open connection, oldest connection first.
    pub open spec fn broadcast(self, text: Seq<char>) -> Seq<DeliveryView> {
        self.open_handles().map_values(addressed(text))
    }

    /// The connection that holds `name`: the one that the registry names,
    /// provided it is open. A name whose connection has closed has no
    /// holder, whatever the registry says.
    pub open spec fn holder(self, name: Seq<char>) -> Option<ConnectionHandle> {
        if self.network.contains_key(name) && self.is_open(self.network[name]) {
            Some(self.network[name])
        } else {
            None
        }
    }

    /// The state is consistent: every open connection sits at the index of
    /// its own handle, no registered name is empty, and the registry holds
    /// exactly the names of the open connections, each with the handle of
    /// the connection that holds it.
    pub open spec fn wf(self) -> bool {
        &&& self.connections.len() <= usize::MAX
        &&& self.network.dom().finite()
        &&& !self.network.contains_key(Seq::<char>::empty())
        &&& forall|i: int|
            0 <= i < self.connections.len() && self.connections[i] is Some ==> (
            #[trigger] self.connections[i])->0.sender.index == i
        &&& forall|i: int|
            0 <= i < self.connections.len() && self.connections[i] is Some && (
            #[trigger] self.connections[i])->0.owner is Some ==> {
                let name = self.connections[i]->0.owner->0;
                self.network.contains_key(name) && self.network[name].index == i
            }
        &&& forall|name: Seq<char>| #[trigger]
            self.network.contains_key(name) ==> self.is_open(self.network[name])
                && self.owner_of(self.network[name]) == Some(name)
    }

    /// The handle that the next connection to open will get.
    pub open spec fn next_handle(self) -> ConnectionHandle {
        ConnectionHandle { index: self.connections.len() as usize }
    }

    /// Whether a connection that asks for `request` gets that name: it asked
    /// for a name of at least one character, and nobody holds it.
    pub open spec fn grants(self, request: Option<Seq<char>>) -> bool {
        request matches Some(name) && name.len() > 0 && !self.network.contains_key(name)
    }

    /// Whether a connection that asks for `request` is told that the name
    /// is taken: it asked for a name of at least one character, and the
    /// registry holds it.
    pub open spec fn refuses(self, request: Option<Seq<char>>) -> bool {
        request matches Some(name) && name.len() > 0 && self.network.contains_key(name)
    }

    /// The state after a connection has opened that asked for `request`. The
    /// connection is entered under the next handle. It gets the name if the
    /// name is granted. Otherwise it stays unnamed and the registry is as it
    /// was: that is so for a name that is taken, for the empty name, and
    /// where no name was asked for.
    pub open spec fn opened(self, request: Option<Seq<char>>) -> ServerView {
        let sender = self.next_handle();
        if self.grants(request) {
            ServerView {
                connections: self.connections.push(Some(NodeView { owner: request, sender })),
                network: self.network.insert(request->0, sender),
            }
        } else {
            ServerView {
                connections: self.connections.push(Some(NodeView { owner: None, sender })),
                network: self.network,
            }
        }
    }

    /// What is sent when a connection opens that asks for `request`: the
    /// refusal, to that connection alone, if the name is taken. Nothing is
    /// sent for the empty name: it counts as no name asked for.
    pub open spec fn greeting(self, request: Option<Seq<char>>) -> Seq<DeliveryView> {
        if self.refuses(request) {
            seq![DeliveryView { to: self.next_handle(), text: USERNAME_TAKEN@ }]
        } else {
            seq![]
        }
    }

    /// The state after the connection behind `handle` has closed: its entry
    /// is empty and its name, if it had one, is free again. A handle that is
    /// not open changes nothing.
    pub open spec fn closed(self, handle: ConnectionHandle) -> ServerView {
        if !self.is_open(handle) {
            self
        } else {
            ServerView {
                connections: self.connections.update(handle.index as int, None),
                network: match self.owner_of(handle) {
                    Some(name) => self.network.remove(name),
                    None => self.network,
                },
            }
        }
    }

    /// What the log learns when the connection behind `handle` closes with
    /// the status `code`: the name it held and the cause, if it held a name.
    pub open spec fn departure(self, handle: ConnectionHandle, code: u16) -> Option<DepartedView> {
        if self.is_open(handle) && self.owner_of(handle) is Some {
            Some(DepartedView { owner: self.owner_of(handle)->0, reason: close_reason(code) })
        } else {
            None
        }
    }

    /// What is sent when the connection behind `from` sends `text` with the
    /// envelope `envelope`. Nothing is sent for a handle that is not open. A
    /// message that cannot be routed is answered to its sender; a directed
    /// message whose endpoint has no holder is such a message.
    pub open spec fn routed(
        self,
        from: ConnectionHandle,
        text: Seq<char>,
        envelope: EnvelopeView,
    ) -> Seq<DeliveryView> {
        if !self.is_open(from) {
            seq![]
        } else if envelope.protocol == Some(ONE_TO_ALL@) {
            self.broadcast(text)
        } else if envelope.protocol == Some(ONE_TO_SELF@) {
            seq![DeliveryView { to: from, text }]
        } else if envelope.protocol == Some(ONE_TO_ONE@) {
            match envelope.endpoint {
                Some(endpoint) => match self.holder(endpoint) {
                    Some(to) => seq![DeliveryView { to, text }],
                    None => seq![DeliveryView { to: from, text: UNKNOWN_ENDPOINT@ + endpoint }],
                },
                None => seq![DeliveryView { to: from, text: NO_ENDPOINT@ }],
            }
        } else {
            seq![DeliveryView { to: from, text: INVALID_PROTOCOL@ }]
        }
    }
}

/// The relay: the table of connections and the registry of names.
pub struct Server {
    nodes: Vec<Option<Node>>,
    network: Network,
}

impl View for Server {
    type V = ServerView;

    closed spec fn view(&self) -> ServerView {
        ServerView {
            connections: self.nodes@.map_values(
                |slot: Option<Node>|
                    match slot {
                        Some(node) => Some(node@),
                        None => None,
                    },
            ),
            network: self.network@,
        }
    }
}

/// A list that holds one delivery.
fn single(to: ConnectionHandle, text: String) -> (deliveries: Vec<Delivery>)
    ensures
        views(deliveries@) == seq![DeliveryView { to, text: text@ }],
{
    let mut deliveries: Vec<Delivery> = Vec::new();
    deliveries.push(Delivery { to, text });
    assert(views(deliveries@) =~= seq![DeliveryView { to, text: text@ }]);
    deliveries
}

/// Tells from its status code why a connection closed.
pub fn classify_close(code: u16) -> (reason: CloseReason)
    ensures
        reason == close_reason(code),
{
    if code == CLOSE_NORMAL {
        CloseReason::Normal
    } else if code == CLOSE_AWAY {
        CloseReason::Away
    } else if code == CLOSE_ABNORMAL {
        CloseReason::Abnormal
    } else {
        CloseReason::Error
    }
}

impl Server {
    /// A relay with no connection and no name.
    pub fn new() -> (server: Server)
        ensures
            server@ == ServerView::initial(),
            server@.wf(),
    {
        let server = Server { nodes: Vec::new(), network: Network::default() };
        assert(server@.connections =~= Seq::empty());
        server
    }

    /// Whether `handle` stands for an open connection.
    pub fn is_open(&self, handle: ConnectionHandle) -> (open: bool)
        ensures
            open == self@.is_open(handle),
    {
        handle.index < self.nodes.len() && self.nodes[handle.index].is_some()
    }

    /// The connection behind `handle`, if it is open.
    pub fn node(&self, handle: ConnectionHandle) -> (node: Option<&Node>)
        ensures
            node is Some <==> self@.is_open(handle),
            node matches Some(found) ==> self@.connections[handle.index as int] == Some(found@),
    {
        if handle.index < self.nodes.len() {
            self.nodes[handle.index].as_ref()
        } else {
            None
        }
    }

    /// The registry of names.
    pub fn network(&self) -> (network: &Network)
        ensures
            network@ == self@.network,
    {
        &self.network
    }

    /// The handle of the open connection that holds `name`, if there is one.
    /// A handle that is not open is never returned, whatever the registry
    /// says: a name does not outlive the connection that held it.
    pub fn lookup(&self, name: &str) -> (found: Option<ConnectionHandle>)
        ensures
            found == self@.holder(name@),
            found is Some ==> self@.is_open(found->0),
            self@.wf() && found is Some ==> self@.owner_of(found->0) == Some(name@),
    {
        match self.network.lookup(name) {
            Some(handle) => if self.is_open(handle) {
                Some(handle)
            } else {
                None
            },
            None => None,
        }
    }

    /// The number of registered names, which in a consistent state is the
    /// number of open connections that hold a name.
    pub fn size(&self) -> (count: usize)
        ensures
            count == self@.network.len(),
            self@.wf() ==> count == self@.named().len(),
    {
        proof {
            if self@.wf() {
                lemma_size_counts_named(self@);
            }
        }
        self.network.size()
    }

    /// A connection has completed its handshake with the target `resource`.
    /// It is entered in the table under a fresh handle, which is returned. If
    /// the target asks for a name, the connection is registered under it,
    /// unless the name is taken: then the connection stays open without a
    /// name and is told so. A target that asks for the empty name is treated
    /// as one that asks for none: the connection stays open without a name,
    /// and nothing is sent.
    pub fn on_open(&mut self, resource: &str) -> (opened: (ConnectionHandle, Vec<Delivery>))
        ensures
            opened.0 == old(self)@.next_handle(),
            final(self)@ == old(self)@.opened(requested_name(resource@)),
            views(opened.1@) == old(self)@.greeting(requested_name(resource@)),
            old(self)@.wf() ==> final(self)@.wf(),
    {
        let handle = ConnectionHandle { index: self.nodes.len() };
        let mut node = Node::new(handle);
        let mut deliveries: Vec<Delivery> = Vec::new();
        assert(views(deliveries@) =~= Seq::empty());
        match parse_requested_name(resource) {
            Some(name) => match self.network.add_user(name.as_str(), &mut node) {
                Ok(()) => {},
                Err(Refusal::NameTaken) => {
                    deliveries = single(handle, USERNAME_TAKEN.to_owned());
                },
                Err(Refusal::EmptyName) => {},
            },
            None => {},
        }
        self.nodes.push(Some(node));
        proof {
            let before = old(self)@;
            let after = before.opened(requested_name(resource@));
            assert(self@.connections =~= after.connections);
            assert(self@.network =~= after.network);
            assert(after.connections.len() == self.nodes.len());
            if before.wf() {
                lemma_opened_wf(before, requested_name(resource@));
            }
        }
        (handle, deliveries)
    }

    /// The connection behind `conn` has closed with the status `code`. Its
    /// entry in the table is emptied and its name, if it had one, is taken
    /// out of the registry. The result is for the log.
    pub fn on_close(&mut self, conn: ConnectionHandle, code: u16) -> (departure: Option<Departed>)
        ensures
            final(self)@ == old(self)@.closed(conn),
            departure is Some <==> old(self)@.departure(conn, code) is Some,
            departure matches Some(left) ==> old(self)@.departure(conn, code) == Some(left@),
            old(self)@.wf() ==> final(self)@.wf(),
    {
        if conn.index >= self.nodes.len() {
            return None;
        }
        let slot = self.nodes[conn.index].take();
        let departure = match slot {
            Some(node) => match node.owner {
                Some(owner) => {
                    self.network.remove(owner.as_str());
                    Some(Departed { owner, reason: classify_close(code) })
                },
                None => None,
            },
            None => None,
        };
        proof {
            let before = old(self)@;
            let after = before.closed(conn);
            assert(self@.connections =~= after.connections);
            assert(self@.network =~= after.network);
            if before.wf() {
                lemma_closed_wf(before, conn);
            }
        }
        departure
    }

    /// `text` for every open connection, oldest connection first.
    fn broadcast(&self, text: &str) -> (deliveries: Vec<Delivery>)
        ensures
            views(deliveries@) == self@.broadcast(text@),
    {
        let ghost state = self@;
        let mut deliveries: Vec<Delivery> = Vec::new();
        let mut i: usize = 0;
        assert(state.handles().take(0) =~= Seq::empty());
        assert(views(deliveries@) =~= state.handles().take(0).filter(state.open()).map_values(
            addressed(text@),
        ));
        while i < self.nodes.len()
            invariant
                state == self@,
                i <= self.nodes.len(),
                self.nodes.len() == state.connections.len(),
                views(deliveries@) == state.handles().take(i as int).filter(
                    state.open(),
                ).map_values(addressed(text@)),
            decreases self.nodes.len() - i,
        {
            let to = ConnectionHandle { index: i };
            let ghost before = state.handles().take(i as int);
            proof {
                assert(state.handles().take(i + 1) =~= before.push(to));
                before.lemma_filter_push(to, state.open());
            }
            if self.nodes[i].is_some() {
                let ghost sent = deliveries@;
                deliveries.push(Delivery { to, text: text.to_owned() });
                assert(views(deliveries@) =~= views(sent).push(addressed(text@)(to)));
                assert(before.filter(state.open()).push(to).map_values(addressed(text@))
                    =~= before.filter(state.open()).map_values(addressed(text@)).push(
                    addressed(text@)(to),
                ));
            }
            i += 1;
        }
        assert(state.handles().take(i as int) =~= state.handles());
        deliveries
    }

    /// Routes one message whose envelope has been read: what to send when the
    /// connection `from` has sent `text` and `envelope` is its envelope. The
    /// state does not change.
    pub fn dispatch(&self, from: ConnectionHandle, text: &str, envelope: &Envelope) -> (deliveries:
        Vec<Delivery>)
        ensures
            views(deliveries@) == self@.routed(from, text@, envelope@),
    {
        if !self.is_open(from) {
            let deliveries: Vec<Delivery> = Vec::new();
            assert(views(deliveries@) =~= Seq::empty());
            return deliveries;
        }
        let reply = match &envelope.protocol {
            Some(protocol) => {
                if same_text(protocol.as_str(), ONE_TO_ALL) {
                    return self.broadcast(text);
                } else if same_text(protocol.as_str(), ONE_TO_SELF) {
                    return single(from, text.to_owned());
                } else if same_text(protocol.as_str(), ONE_TO_ONE) {
                    match &envelope.endpoint {
                        Some(endpoint) => match self.lookup(endpoint.as_str()) {
                            Some(to) => {
                                return single(to, text.to_owned());
                            },
                            None => String::from_str(UNKNOWN_ENDPOINT).concat(endpoint.as_str()),
                        },
                        None => NO_ENDPOINT.to_owned(),
                    }
                } else {
                    INVALID_PROTOCOL.to_owned()
                }
            },
            None => INVALID_PROTOCOL.to_owned(),
        };
        single(from, reply)
    }

    /// Routes one message: what to send when the connection `from` has sent
    /// `text`. The state does not change.
    pub fn on_message(&self, from: ConnectionHandle, text: &str) -> (deliveries: Vec<Delivery>)
        ensures
            views(deliveries@) == self@.routed(from, text@, envelope_of(text@)),
    {
        let envelope = Envelope::parse(text);
        self.dispatch(from, text, &envelope)
    }
}

/// The certificate and the private key with which the relay terminates TLS,
/// each as the path of a file.
#[derive(Clone, Debug, PartialEq, Eq)]
pub struct TlsFiles {
    pub certificate: String,
    pub private_key: String,
}

/// [`TlsFiles`] in contracts.
pub struct TlsFilesView {
    pub certificate: Seq<char>,
    pub private_key: Seq<char>,
}

impl View for TlsFiles {
    type V = TlsFilesView;

    open spec fn view(&self) -> TlsFilesView {
        TlsFilesView { certificate: self.certificate@, private_key: self.private_key@ }
    }
}

/// Why TLS cannot be set up. The relay must not start then.
#[derive(Clone, Copy, Debug, PartialEq, Eq, Structural)]
pub enum TlsSetupError {
    /// TLS was asked for without the path of a private key.
    MissingPrivateKey,
    /// TLS was asked for without the path of a certificate.
    MissingCertificate,
}

/// How the relay starts: the address on which it listens and, where it
/// terminates TLS, the files to build the acceptor from.
#[derive(Clone, Debug, PartialEq, Eq)]
pub struct Startup {
    pub address: String,
    pub tls: Option<TlsFiles>,
}

/// A [`Startup`] in contracts.
pub struct StartupView {
    pub address: Seq<char>,
    pub tls: Option<TlsFilesView>,
}

impl View for Startup {
    type V = StartupView;

    open spec fn view(&self) -> StartupView {
        StartupView {
            address: self.address@,
            tls: match self.tls {
                Some(files) => Some(files@),
                None => None,
            },
        }
    }
}

/// How the relay starts at `port`. It listens on every interface. With
/// `use_ssl` it terminates TLS and needs both paths: a missing one is an
/// error, the private key's first. Without `use_ssl` the paths are ignored.
pub open spec fn startup(
    port: u16,
    use_ssl: bool,
    certificate: Option<Seq<char>>,
    private_key: Option<Seq<char>>,
) -> Result<StartupView, TlsSetupError> {
    if !use_ssl {
        Ok(StartupView { address: any_interface_at(port), tls: None })
    } else if private_key is None {
        Err(TlsSetupError::MissingPrivateKey)
    } else if certificate is None {
        Err(TlsSetupError::MissingCertificate)
    } else {
        Ok(
            StartupView {
                address: any_interface_at(port),
                tls: Some(
                    TlsFilesView { certificate: certificate->0, private_key: private_key->0 },
                ),
            },
        )
    }
}

/// Whether `planned` is the outcome `expected`.
pub open spec fn is_startup(
    planned: Result<Startup, TlsSetupError>,
    expected: Result<StartupView, TlsSetupError>,
) -> bool {
    match planned {
        Ok(plan) => expected == Ok::<StartupView, TlsSetupError>(plan@),
        Err(error) => expected == Err::<StartupView, TlsSetupError>(error),
    }
}

/// Plans the start of the relay at `port`: where it listens, and with which
/// files it terminates TLS if `use_ssl` asks for that. Nothing is opened or
/// read here: the caller listens as the plan says, or does not start.
pub fn run(
    port: u16,
    use_ssl: bool,
    ssl_cert_path: Option<String>,
    ssl_cert_key_path: Option<String>,
) -> (planned: Result<Startup, TlsSetupError>)
    ensures
        is_startup(
            planned,
            startup(port, use_ssl, characters_of(ssl_cert_path), characters_of(ssl_cert_key_path)),
        ),
{
    if !use_ssl {
        return Ok(Startup { address: bind_address(port), tls: None });
    }
    match ssl_cert_key_path {
        None => Err(TlsSetupError::MissingPrivateKey),
        Some(private_key) => match ssl_cert_path {
            None => Err(TlsSetupError::MissingCertificate),
            Some(certificate) => Ok(
                Startup {
                    address: bind_address(port),
                    tls: Some(TlsFiles { certificate, private_key }),
                },
            ),
        },
    }
}

} // verus!
