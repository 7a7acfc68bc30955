//! What holds of the relay in every state it can reach, and of every message
//! it routes.

use crate::envelope::EnvelopeView;
use crate::node::ConnectionHandle;
use crate::server::{
    addressed, DeliveryView, ServerView, INVALID_PROTOCOL, NO_ENDPOINT, ONE_TO_ALL, ONE_TO_ONE,
    ONE_TO_SELF, UNKNOWN_ENDPOINT, USERNAME_TAKEN,
};
use vstd::prelude::*;

verus! {

/// One step in the life of the relay.
pub enum Event {
    /// A connection opened and asked for `request`.
    Opened { request: Option<Seq<char>> },
    /// The connection behind `from` sent a message. Routing changes nothing.
    Message { from: ConnectionHandle },
    /// The connection behind `handle` closed.
    Closed { handle: ConnectionHandle },
}

/// The state after one event.
pub open spec fn after(state: ServerView, event: Event) -> ServerView {
    match event {
        Event::Opened { request } => state.opened(request),
        Event::Message { from } => state,
        Event::Closed { handle } => state.closed(handle),
    }
}

/// The state after a history of events, from the initial state.
pub open spec fn after_all(events: Seq<Event>) -> ServerView
    decreases events.len(),
{
    if events.len() == 0 {
        ServerView::initial()
    } else {
        after(after_all(events.drop_last()), events.last())
    }
}

/// The names of the protocols are three different names.
pub proof fn lemma_protocols_differ()
    ensures
        ONE_TO_ALL@ != ONE_TO_SELF@,
        ONE_TO_ALL@ != ONE_TO_ONE@,
        ONE_TO_SELF@ != ONE_TO_ONE@,
{
    reveal_strlit("one-to-all");
    reveal_strlit("one-to-self");
    reveal_strlit("one-to-one");
    assert(ONE_TO_ALL@.len() == 10);
    assert(ONE_TO_SELF@.len() == 11);
    assert(ONE_TO_ALL@[7] == 'a');
    assert(ONE_TO_ONE@[7] == 'o');
}

/// Opening a connection keeps the state consistent, provided the table has
/// room for one more handle.
pub proof fn lemma_opened_wf(state: ServerView, request: Option<Seq<char>>)
    requires
        state.wf(),
        state.connections.len() < usize::MAX,
    ensures
        state.opened(request).wf(),
{
    let next = state.opened(request);
    assert forall|name: Seq<char>| #[trigger]
        next.network.contains_key(name) implies next.is_open(next.network[name])
        && next.owner_of(next.network[name]) == Some(name) by {
        if state.network.contains_key(name) {
            assert(state.is_open(state.network[name]));
        }
    }
}

/// Closing a connection keeps the state consistent.
pub proof fn lemma_closed_wf(state: ServerView, handle: ConnectionHandle)
    requires
        state.wf(),
    ensures
        state.closed(handle).wf(),
{
    let next = state.closed(handle);
    if state.is_open(handle) {
        assert forall|name: Seq<char>| #[trigger]
            next.network.contains_key(name) implies next.is_open(next.network[name])
            && next.owner_of(next.network[name]) == Some(name) by {
            assert(state.network.contains_key(name));
            assert(state.is_open(state.network[name]));
        }
    }
}

/// A history opens no more connections than there are handles.
pub open spec fn fits(events: Seq<Event>) -> bool {
    events.len() <= usize::MAX
}

/// Every state that the relay reaches is consistent, and it has issued at
/// most one handle for each event.
pub proof fn lemma_reachable_wf(events: Seq<Event>)
    requires
        fits(events),
    ensures
        after_all(events).wf(),
        after_all(events).connections.len() <= events.len(),
    decreases events.len(),
{
    if events.len() > 0 {
        let earlier = events.drop_last();
        lemma_reachable_wf(earlier);
        match events.last() {
            Event::Opened { request } => lemma_opened_wf(after_all(earlier), request),
            Event::Message { from } => {},
            Event::Closed { handle } => lemma_closed_wf(after_all(earlier), handle),
        }
    }
}

/// A connection keeps what it has for as long as it is open: no event gives
/// an open connection a name, takes its name away or changes it.
pub proof fn lemma_name_is_kept(state: ServerView, event: Event, handle: ConnectionHandle)
    requires
        state.is_open(handle),
        after(state, event).is_open(handle),
    ensures
        after(state, event).owner_of(handle) == state.owner_of(handle),
{
}

/// A handle is never issued twice: a connection that has closed stays
/// closed, whatever happens.
pub proof fn lemma_closed_stays_closed(state: ServerView, event: Event, handle: ConnectionHandle)
    requires
        state.connections.len() < usize::MAX,
        handle.index < state.connections.len(),
        !state.is_open(handle),
    ensures
        !after(state, event).is_open(handle),
{
}

/// Uniqueness of names: in a consistent state, two open connections that
/// hold the same name are one connection.
pub proof fn lemma_names_unique(state: ServerView, a: ConnectionHandle, b: ConnectionHandle)
    requires
        state.wf(),
        state.is_open(a),
        state.is_open(b),
        state.owner_of(a) is Some,
        state.owner_of(a) == state.owner_of(b),
    ensures
        a == b,
{
    let name = state.owner_of(a)->0;
    assert(state.network[name].index == a.index);
    assert(state.network[name].index == b.index);
}

/// Uniqueness of names at every point: whatever has happened, no two open
/// connections hold the same name.
pub proof fn lemma_names_always_unique(events: Seq<Event>, a: ConnectionHandle, b: ConnectionHandle)
    requires
        fits(events),
        after_all(events).is_open(a),
        after_all(events).is_open(b),
        a != b,
        after_all(events).owner_of(a) is Some,
    ensures
        after_all(events).owner_of(a) != after_all(events).owner_of(b),
{
    lemma_reachable_wf(events);
    if after_all(events).owner_of(a) == after_all(events).owner_of(b) {
        lemma_names_unique(after_all(events), a, b);
    }
}

/// The size of the registry: in a consistent state the registry holds as
/// many names as there are open connections with a name.
pub proof fn lemma_size_counts_named(state: ServerView)
    requires
        state.wf(),
    ensures
        state.named().finite(),
        state.network.len() == state.named().len(),
{
    let registry = state.network;
    // Two names are never registered to one connection: it holds one name.
    assert(registry.is_injective()) by {
        assert forall|x: Seq<char>, y: Seq<char>|
            x != y && registry.dom().contains(x) && registry.dom().contains(
                y,
            ) implies #[trigger] registry[x] != #[trigger] registry[y] by {
            assert(state.owner_of(registry[x]) == Some(x));
            assert(state.owner_of(registry[y]) == Some(y));
        }
    }
    registry.lemma_injective_values_len();
    // The registered handles are the handles of the named connections.
    assert(registry.values() =~= state.named()) by {
        assert forall|handle: ConnectionHandle|
            state.named().contains(handle) implies registry.values().contains(handle) by {
            let name = state.owner_of(handle)->0;
            assert(registry.contains_key(name) && registry[name] == handle);
        }
    }
}

/// The size of the registry at every point: whatever has happened, the
/// registry holds as many names as there are open connections with a name.
pub proof fn lemma_size_always_counts_named(events: Seq<Event>)
    requires
        fits(events),
    ensures
        after_all(events).named().finite(),
        after_all(events).network.len() == after_all(events).named().len(),
{
    lemma_reachable_wf(events);
    lemma_size_counts_named(after_all(events));
}

/// Among the first `n` handles, the open ones are listed in the order in
/// which they were issued.
proof fn lemma_open_handles_before(state: ServerView, n: int)
    requires
        0 <= n <= state.connections.len() <= usize::MAX,
    ensures
        forall|handle: ConnectionHandle|
            state.handles().take(n).filter(state.open()).contains(handle) <==> handle.index < n
                && state.is_open(handle),
        forall|i: int, j: int|
            0 <= i < j < state.handles().take(n).filter(state.open()).len()
                ==> state.handles().take(n).filter(state.open())[i].index < state.handles().take(
                n,
            ).filter(state.open())[j].index,
    decreases n,
{
    let listed = state.handles().take(n).filter(state.open());
    if n == 0 {
        state.handles().take(n).lemma_filter_len(state.open());
    } else {
        let earlier = state.handles().take(n - 1);
        let kept = earlier.filter(state.open());
        let last = state.handles()[n - 1];
        lemma_open_handles_before(state, n - 1);
        assert(state.handles().take(n) =~= earlier.push(last));
        earlier.lemma_filter_push(last, state.open());
        if state.is_open(last) {
            assert(listed == kept.push(last));
            assert forall|handle: ConnectionHandle| listed.contains(handle) implies handle.index < n
                && state.is_open(handle) by {
                let i = choose|i: int| 0 <= i < listed.len() && listed[i] == handle;
                if i < kept.len() {
                    assert(kept.contains(kept[i]));
                }
            }
            assert forall|handle: ConnectionHandle| handle.index < n && state.is_open(
                handle,
            ) implies listed.contains(handle) by {
                if handle.index < n - 1 {
                    assert(kept.contains(handle));
                    let i = choose|i: int| 0 <= i < kept.len() && kept[i] == handle;
                    assert(listed[i] == handle);
                } else {
                    assert(listed[kept.len() as int] == handle);
                }
            }
            assert forall|i: int, j: int| 0 <= i < j < listed.len() implies listed[i].index
                < listed[j].index by {
                assert(kept.contains(kept[i]));
            }
        } else {
            assert(listed == kept);
        }
    }
}

/// The open handles are exactly the handles of open connections, and none
/// occurs twice among them.
pub proof fn lemma_open_handles(state: ServerView)
    requires
        state.connections.len() <= usize::MAX,
    ensures
        forall|handle: ConnectionHandle|
            state.open_handles().contains(handle) <==> state.is_open(handle),
        state.open_handles().no_duplicates(),
{
    lemma_open_handles_before(state, state.connections.len() as int);
    assert(state.handles().take(state.connections.len() as int) =~= state.handles());
}

/// The registry never holds more names than there are open connections:
/// connections without a name are not counted.
pub proof fn lemma_size_at_most_open(state: ServerView)
    requires
        state.wf(),
    ensures
        state.network.len() <= state.open_handles().len(),
{
    let open = state.open_handles();
    lemma_size_counts_named(state);
    lemma_open_handles(state);
    open.unique_seq_to_set();
    assert(state.named().subset_of(open.to_set())) by {
        assert forall|handle: ConnectionHandle|
            state.named().contains(handle) implies open.to_set().contains(handle) by {
            assert(open.contains(handle));
        }
    }
    vstd::set_lib::lemma_len_subset(state.named(), open.to_set());
}

/// Broadcast completeness: a message addressed to all, sent by an open
/// connection, goes as it is to every connection that is open at that time,
/// the sender among them, once to each, and to nobody else.
pub proof fn lemma_broadcast_complete(
    state: ServerView,
    from: ConnectionHandle,
    text: Seq<char>,
    envelope: EnvelopeView,
)
    requires
        state.wf(),
        state.is_open(from),
        envelope.protocol == Some(ONE_TO_ALL@),
    ensures
        forall|to: ConnectionHandle|
            state.is_open(to) <==> state.routed(from, text, envelope).contains(
                DeliveryView { to, text },
            ),
        state.routed(from, text, envelope).contains(DeliveryView { to: from, text }),
        forall|i: int|
            0 <= i < state.routed(from, text, envelope).len() ==> (#[trigger] state.routed(
                from,
                text,
                envelope,
            )[i]).text == text && state.is_open(state.routed(from, text, envelope)[i].to),
        state.routed(from, text, envelope).no_duplicates(),
{
    lemma_open_handles(state);
    let open = state.open_handles();
    let sent = state.routed(from, text, envelope);
    assert(sent == open.map_values(addressed(text)));
    assert forall|to: ConnectionHandle| state.is_open(to) implies sent.contains(
        DeliveryView { to, text },
    ) by {
        let i = choose|i: int| 0 <= i < open.len() && open[i] == to;
        assert(sent[i] == DeliveryView { to, text });
    }
    assert forall|i: int| 0 <= i < sent.len() implies (#[trigger] sent[i]).text == text
        && state.is_open(sent[i].to) by {
        assert(open.contains(open[i]));
    }
    assert forall|to: ConnectionHandle|
        sent.contains(DeliveryView { to, text }) implies state.is_open(to) by {
        let i = choose|i: int| 0 <= i < sent.len() && sent[i] == DeliveryView { to, text };
        assert(sent[i].to == to);
    }
    assert forall|i: int, j: int|
        0 <= i < sent.len() && 0 <= j < sent.len() && i != j implies sent[i] != sent[j] by {
        assert(open[i] != open[j]);
    }
}

/// Self-echo: a message addressed to its sender goes as it is to the sender
/// and to nobody else.
pub proof fn lemma_self_echo(
    state: ServerView,
    from: ConnectionHandle,
    text: Seq<char>,
    envelope: EnvelopeView,
)
    requires
        state.is_open(from),
        envelope.protocol == Some(ONE_TO_SELF@),
    ensures
        state.routed(from, text, envelope) == seq![DeliveryView { to: from, text }],
{
    lemma_protocols_differ();
}

/// Directed delivery: a message addressed to a registered name goes as it is
/// to the connection that holds the name, which is open, and to nobody else.
pub proof fn lemma_directed_delivery(
    state: ServerView,
    from: ConnectionHandle,
    text: Seq<char>,
    envelope: EnvelopeView,
    to: ConnectionHandle,
)
    requires
        state.wf(),
        state.is_open(from),
        state.is_open(to),
        envelope.protocol == Some(ONE_TO_ONE@),
        envelope.endpoint is Some,
        state.owner_of(to) == envelope.endpoint,
    ensures
        state.routed(from, text, envelope) == seq![DeliveryView { to, text }],
{
    lemma_protocols_differ();
    let name = envelope.endpoint->0;
    assert(state.network.contains_key(name) && state.network[name].index == to.index);
}

/// Directed miss: a message addressed to a name that no open connection
/// holds is answered to the sender with the text that names the endpoint.
pub proof fn lemma_directed_miss(
    state: ServerView,
    from: ConnectionHandle,
    text: Seq<char>,
    envelope: EnvelopeView,
)
    requires
        state.wf(),
        state.is_open(from),
        envelope.protocol == Some(ONE_TO_ONE@),
        envelope.endpoint is Some,
        forall|to: ConnectionHandle| state.is_open(to) ==> state.owner_of(to) != envelope.endpoint,
    ensures
        state.routed(from, text, envelope) == seq![
            DeliveryView { to: from, text: UNKNOWN_ENDPOINT@ + envelope.endpoint->0 },
        ],
{
    lemma_protocols_differ();
    let name = envelope.endpoint->0;
    if state.network.contains_key(name) {
        assert(state.is_open(state.network[name]));
    }
}

/// A connection without a name is never the target of a directed message:
/// what another connection addresses to one peer does not reach it,
/// whatever the endpoint.
pub proof fn lemma_unnamed_is_no_target(
    state: ServerView,
    from: ConnectionHandle,
    text: Seq<char>,
    envelope: EnvelopeView,
    unnamed: ConnectionHandle,
)
    requires
        state.wf(),
        state.is_open(unnamed),
        state.owner_of(unnamed) is None,
        unnamed != from,
        envelope.protocol == Some(ONE_TO_ONE@),
    ensures
        forall|i: int|
            0 <= i < state.routed(from, text, envelope).len() ==> (#[trigger] state.routed(
                from,
                text,
                envelope,
            )[i]).to != unnamed,
{
    lemma_protocols_differ();
    if envelope.endpoint is Some && state.network.contains_key(envelope.endpoint->0) {
        let name = envelope.endpoint->0;
        assert(state.owner_of(state.network[name]) == Some(name));
    }
}

/// After a named connection has closed, a message addressed to its name is
/// answered to the sender with the text that names the endpoint.
pub proof fn lemma_directed_miss_after_close(
    state: ServerView,
    from: ConnectionHandle,
    text: Seq<char>,
    envelope: EnvelopeView,
    gone: ConnectionHandle,
)
    requires
        state.wf(),
        state.is_open(from),
        state.is_open(gone),
        from != gone,
        envelope.protocol == Some(ONE_TO_ONE@),
        envelope.endpoint is Some,
        state.owner_of(gone) == envelope.endpoint,
    ensures
        state.closed(gone).routed(from, text, envelope) == seq![
            DeliveryView { to: from, text: UNKNOWN_ENDPOINT@ + envelope.endpoint->0 },
        ],
{
    lemma_protocols_differ();
}

/// Missing endpoint: a directed message without an endpoint is answered to
/// the sender with the text that says so.
pub proof fn lemma_missing_endpoint(
    state: ServerView,
    from: ConnectionHandle,
    text: Seq<char>,
    envelope: EnvelopeView,
)
    requires
        state.is_open(from),
        envelope.protocol == Some(ONE_TO_ONE@),
        envelope.endpoint is None,
    ensures
        state.routed(from, text, envelope) == seq![DeliveryView { to: from, text: NO_ENDPOINT@ }],
{
    lemma_protocols_differ();
}

/// Unrecognized protocol: a message whose envelope names none of the three
/// protocols, or no protocol at all, is answered to the sender with the list
/// of the protocols.
pub proof fn lemma_unrecognized_protocol(
    state: ServerView,
    from: ConnectionHandle,
    text: Seq<char>,
    envelope: EnvelopeView,
)
    requires
        state.is_open(from),
        envelope.protocol != Some(ONE_TO_ALL@),
        envelope.protocol != Some(ONE_TO_SELF@),
        envelope.protocol != Some(ONE_TO_ONE@),
    ensures
        state.routed(from, text, envelope) == seq![
            DeliveryView { to: from, text: INVALID_PROTOCOL@ },
        ],
{
}

/// Every message that the relay sends goes to an open connection.
pub proof fn lemma_routed_to_open(
    state: ServerView,
    from: ConnectionHandle,
    text: Seq<char>,
    envelope: EnvelopeView,
)
    requires
        state.wf(),
    ensures
        forall|i: int|
            0 <= i < state.routed(from, text, envelope).len() ==> state.is_open(
                (#[trigger] state.routed(from, text, envelope)[i]).to,
            ),
{
    if state.is_open(from) && envelope.protocol == Some(ONE_TO_ALL@) {
        lemma_broadcast_complete(state, from, text, envelope);
    }
}

/// Name collision: a connection that asks for a name which another holds is
/// told that the name is taken, and nobody else is told anything. It is open
/// and has no name. The registry, its size, and every connection that was
/// there before are as they were.
pub proof fn lemma_name_collision(state: ServerView, name: Seq<char>)
    requires
        state.wf(),
        state.network.contains_key(name),
    ensures
        state.greeting(Some(name)) == seq![
            DeliveryView { to: state.next_handle(), text: USERNAME_TAKEN@ },
        ],
        state.opened(Some(name)).network == state.network,
        state.opened(Some(name)).network.len() == state.network.len(),
        state.opened(Some(name)).is_open(state.next_handle()),
        state.opened(Some(name)).owner_of(state.next_handle()) is None,
        forall|i: int|
            0 <= i < state.connections.len() ==> #[trigger] state.opened(Some(name)).connections[i]
                == state.connections[i],
{
    if name.len() == 0 {
        assert(name =~= Seq::<char>::empty());
    }
}

/// The empty name: a connection that asks for it is treated as one that
/// asks for no name. It is open and has no name, nothing is sent, and the
/// registry is as it was.
pub proof fn lemma_empty_name(state: ServerView)
    requires
        state.connections.len() <= usize::MAX,
    ensures
        state.opened(Some(Seq::<char>::empty())) == state.opened(None),
        state.greeting(Some(Seq::<char>::empty())) == Seq::<DeliveryView>::empty(),
        state.opened(Some(Seq::<char>::empty())).network == state.network,
        state.opened(Some(Seq::<char>::empty())).owner_of(state.next_handle()) is None,
{
}

/// No registered name is empty, whatever has happened.
pub proof fn lemma_names_never_empty(events: Seq<Event>, name: Seq<char>)
    requires
        fits(events),
        after_all(events).network.contains_key(name),
    ensures
        name.len() > 0,
{
    lemma_reachable_wf(events);
    if name.len() == 0 {
        assert(name =~= Seq::<char>::empty());
    }
}

/// Stale names: where the registry holds a name whose connection is not
/// open, a message addressed to that name is a miss. It is answered to the
/// sender, and nothing goes to the handle that the registry names.
pub proof fn lemma_stale_name_is_a_miss(
    state: ServerView,
    from: ConnectionHandle,
    text: Seq<char>,
    envelope: EnvelopeView,
)
    requires
        state.is_open(from),
        envelope.protocol == Some(ONE_TO_ONE@),
        envelope.endpoint is Some,
        state.network.contains_key(envelope.endpoint->0),
        !state.is_open(state.network[envelope.endpoint->0]),
    ensures
        state.routed(from, text, envelope) == seq![
            DeliveryView { to: from, text: UNKNOWN_ENDPOINT@ + envelope.endpoint->0 },
        ],
{
    lemma_protocols_differ();
}

/// Registration: a connection that asks for a free name of at least one
/// character gets it. The registry grows by that one name, and nothing is
/// sent.
pub proof fn lemma_registration(state: ServerView, name: Seq<char>)
    requires
        state.wf(),
        name.len() > 0,
        !state.network.contains_key(name),
    ensures
        state.greeting(Some(name)) == Seq::<DeliveryView>::empty(),
        state.opened(Some(name)).network == state.network.insert(name, state.next_handle()),
        state.opened(Some(name)).network.len() == state.network.len() + 1,
        state.opened(Some(name)).owner_of(state.next_handle()) == Some(name),
{
}

/// Deregistration on close: closing a connection that holds a name makes the
/// registry smaller by exactly one, and closing an open connection without a
/// name leaves the registry as it was.
pub proof fn lemma_close_size(state: ServerView, handle: ConnectionHandle)
    requires
        state.wf(),
        state.is_open(handle),
    ensures
        state.owner_of(handle) is Some ==> state.closed(handle).network.len() == state.network.len()
            - 1,
        state.owner_of(handle) is Some ==> !state.closed(handle).network.contains_key(
            state.owner_of(handle)->0,
        ),
        state.owner_of(handle) is None ==> state.closed(handle).network == state.network,
{
    if state.owner_of(handle) is Some {
        state.network.lemma_remove_key_len(state.owner_of(handle)->0);
    }
}

/// Closing is idempotent: closing a handle that is not open changes nothing,
/// so closing twice is closing once.
pub proof fn lemma_close_idempotent(state: ServerView, handle: ConnectionHandle)
    ensures
        !state.is_open(handle) ==> state.closed(handle) == state,
        state.closed(handle).closed(handle) == state.closed(handle),
{
}

/// Idempotent removal: taking a name out of a registry that does not hold it
/// leaves the registry as it was, so removing twice is removing once.
pub proof fn lemma_remove_idempotent(registry: Map<Seq<char>, ConnectionHandle>, name: Seq<char>)
    ensures
        !registry.contains_key(name) ==> registry.remove(name) == registry,
        registry.remove(name).remove(name) == registry.remove(name),
{
    assert(registry.remove(name).remove(name) =~= registry.remove(name));
    if !registry.contains_key(name) {
        assert(registry.remove(name) =~= registry);
    }
}

} // verus!
