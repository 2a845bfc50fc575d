//! The connection registry and the notification bus.
//!
//! One worker owns the registry: a list of live duplex connections,
//! each a player connection bound to a session or an administrator
//! connection subscribed to everything.  Request handlers reach the
//! worker only through the bus.  Each tick the worker drains the bus,
//! routes every notification to exactly the matching connections,
//! and purges the connections its probes found dead.
//!
//! Sockets themselves are outside this crate: a connection carries a
//! numeric handle, and routing returns the writes to perform.

use vstd::prelude::*;

use crate::session_id::SessionID;

verus! {

use vstd::string::StringExecFns;

#[verifier::external_type_specification]
#[verifier::external_body]
#[verifier::reject_recursive_types(T)]
pub struct ExSender<T>(std::sync::mpsc::Sender<T>);

#[verifier::external_type_specification]
#[verifier::external_body]
#[verifier::reject_recursive_types(T)]
pub struct ExReceiver<T>(std::sync::mpsc::Receiver<T>);

/// An event for the registry's worker.
pub enum Notification {
    /// The player list of this session changed.
    UpdatePlayerList(SessionID),
    /// A payload for one player, addressed by user id.  The worker
    /// currently routes this nowhere.
    CustomToPlayer(u64, String),
    /// A payload for every connection matching this session.
    CustomToSession(SessionID, String),
    /// A liveness query: the worker writes the current connection
    /// count into the shared slot.
    UpdateConnectionsAlive(std::sync::Arc<std::sync::atomic::AtomicI64>),
}

/// Relies on `Sender::send`: `false` when the consumer is gone; the
/// queue itself is shared state, so nothing more is promised.
#[verifier::external_body]
fn channel_send(s: &std::sync::mpsc::Sender<Notification>, msg: Notification) -> bool {
    s.send(msg).is_ok()
}

/// Relies on `Receiver::try_recv`: the next queued notification, if
/// one is pending; never blocks.
#[verifier::external_body]
fn channel_try_recv(r: &std::sync::mpsc::Receiver<Notification>) -> Option<Notification> {
    r.try_recv().ok()
}

/// The producer half of the notification bus.
pub struct Notifier {
    sender: std::sync::mpsc::Sender<Notification>,
}

impl Notifier {
    /// Wraps a sender half.
    pub fn new(sender: std::sync::mpsc::Sender<Notification>) -> Notifier {
        Notifier { sender }
    }

    /// Submits a notification to the worker.  Fire and forget: a
    /// send failure (consumer gone) is swallowed, as losing a
    /// best-effort notification is not a crash condition.
    pub fn send(&self, msg: Notification) {
        let _delivered = channel_send(&self.sender, msg);
    }
}

/// A registered duplex connection: its kind is fixed at handshake
/// and never changes.  The handle number stands for the socket,
/// which the caller owns.
pub enum WsConnection {
    Player { session_id: SessionID, socket: u64 },
    Admin { socket: u64 },
}

/// Whether a connection should see events of session `sid`: player
/// connections of exactly that session, and every admin connection.
pub open spec fn conn_matches_sid(c: WsConnection, sid: Seq<char>) -> bool {
    match c {
        WsConnection::Player { session_id, .. } => session_id@ == sid,
        WsConnection::Admin { .. } => true,
    }
}

/// The socket handle of a connection.
pub open spec fn conn_sock(c: WsConnection) -> u64 {
    match c {
        WsConnection::Player { socket, .. } => socket,
        WsConnection::Admin { socket } => socket,
    }
}

impl WsConnection {
    /// Whether this connection should see events of session `sid`.
    pub fn associated_w_sid(&self, sid: &SessionID) -> (r: bool)
        ensures
            r == conn_matches_sid(*self, sid@),
    {
        match self {
            WsConnection::Admin { .. } => true,
            WsConnection::Player { session_id, .. } => session_id == sid,
        }
    }

    /// This connection's socket handle.
    pub fn get_socket(&self) -> (r: u64)
        ensures
            r == conn_sock(*self),
    {
        match self {
            WsConnection::Player { socket, .. } => *socket,
            WsConnection::Admin { socket } => *socket,
        }
    }
}

/// One socket write the worker owes after routing.
pub struct Delivery {
    pub socket: u64,
    pub text: String,
}

/// What routing one notification yields: the writes to perform, and
/// the connection count to publish if the notification asked for it.
pub struct RouteOutcome {
    pub deliveries: Vec<Delivery>,
    pub alive_count: Option<usize>,
}

/// The connections that should see an event of session `sid`, in
/// registration order.
pub open spec fn targets(conns: Seq<WsConnection>, sid: Seq<char>) -> Seq<WsConnection>
    decreases conns.len(),
{
    if conns.len() == 0 {
        Seq::empty()
    } else {
        let rest = targets(conns.drop_last(), sid);
        if conn_matches_sid(conns.last(), sid) {
            rest.push(conns.last())
        } else {
            rest
        }
    }
}

/// The writes owed for a text sent to session `sid`.
pub open spec fn session_deliveries(conns: Seq<WsConnection>, sid: Seq<char>, text: Seq<char>)
    -> Seq<(u64, Seq<char>)> {
    targets(conns, sid).map(|_i: int, c: WsConnection| (conn_sock(c), text))
}

/// The writes owed for one notification.
pub open spec fn route_deliveries(conns: Seq<WsConnection>, msg: Notification) -> Seq<
    (u64, Seq<char>),
> {
    match msg {
        Notification::UpdatePlayerList(sid) => session_deliveries(
            conns,
            sid@,
            "update.playerlist"@,
        ),
        Notification::CustomToSession(sid, text) => session_deliveries(conns, sid@, text@),
        Notification::CustomToPlayer(_, _) => Seq::empty(),
        Notification::UpdateConnectionsAlive(_) => Seq::empty(),
    }
}

/// The handle/text views of a delivery list.
pub open spec fn delivery_views(ds: Seq<Delivery>) -> Seq<(u64, Seq<char>)> {
    ds.map(|_i: int, d: Delivery| (d.socket, d.text@))
}

/// The writes owed after routing a batch of notifications against
/// one registry state, in batch order.
pub open spec fn routed_all(conns: Seq<WsConnection>, msgs: Seq<Notification>) -> Seq<
    (u64, Seq<char>),
>
    decreases msgs.len(),
{
    if msgs.len() == 0 {
        Seq::empty()
    } else {
        routed_all(conns, msgs.drop_last()) + route_deliveries(conns, msgs.last())
    }
}

/// Every selected connection matches the session.
proof fn lemma_targets_pred(conns: Seq<WsConnection>, sid: Seq<char>)
    ensures
        forall|j: int|
            0 <= j < targets(conns, sid).len() ==> conn_matches_sid(
                #[trigger] targets(conns, sid)[j],
                sid,
            ),
        targets(conns, sid).len() <= conns.len(),
    decreases conns.len(),
{
    if conns.len() > 0 {
        lemma_targets_pred(conns.drop_last(), sid);
    }
}

/// Every selected connection comes from the registry.
proof fn lemma_targets_from(conns: Seq<WsConnection>, sid: Seq<char>, j: int)
    requires
        0 <= j < targets(conns, sid).len(),
    ensures
        exists|i: int|
            0 <= i < conns.len() && conns[i] == targets(conns, sid)[j]
                && conn_matches_sid(#[trigger] conns[i], sid),
    decreases conns.len(),
{
    lemma_targets_pred(conns, sid);
    if conns.len() > 0 {
        let rest = targets(conns.drop_last(), sid);
        if conn_matches_sid(conns.last(), sid) && j == rest.len() {
            assert(conns[conns.len() - 1] == targets(conns, sid)[j]);
        } else {
            lemma_targets_from(conns.drop_last(), sid, j);
            let i = choose|i: int|
                0 <= i < conns.drop_last().len() && conns.drop_last()[i] == targets(
                    conns.drop_last(),
                    sid,
                )[j] && conn_matches_sid(#[trigger] conns.drop_last()[i], sid);
            assert(conns[i] == targets(conns, sid)[j]);
        }
    }
}

/// Every matching connection is selected.
proof fn lemma_targets_complete(conns: Seq<WsConnection>, sid: Seq<char>, i: int)
    requires
        0 <= i < conns.len(),
        conn_matches_sid(conns[i], sid),
    ensures
        targets(conns, sid).contains(conns[i]),
    decreases conns.len(),
{
    let tg = targets(conns, sid);
    let rest = targets(conns.drop_last(), sid);
    if i == conns.len() - 1 {
        assert(tg[tg.len() - 1] == conns[i]);
    } else {
        lemma_targets_complete(conns.drop_last(), sid, i);
        let j = choose|j: int| 0 <= j < rest.len() && rest[j] == conns.drop_last()[i];
        assert(tg[j] == conns[i]);
    }
}

/// Routes one notification against the current connections.
///
/// Broadcasts are delivered to exactly the matching connections, in
/// registration order; a liveness query yields no writes but the
/// exact current connection count.
pub fn route_notification(conns: &Vec<WsConnection>, msg: &Notification) -> (r: RouteOutcome)
    ensures
        delivery_views(r.deliveries@) == route_deliveries(conns@, *msg),
        msg matches Notification::UpdateConnectionsAlive(_) ==> r.alive_count == Some(
            conns@.len() as usize,
        ),
        !(msg matches Notification::UpdateConnectionsAlive(_)) ==> r.alive_count is None,
{
    match msg {
        Notification::UpdatePlayerList(sid) => {
            let ds = collect_session_deliveries(conns, sid, "update.playerlist");
            RouteOutcome { deliveries: ds, alive_count: None }
        },
        Notification::CustomToSession(sid, text) => {
            let ds = collect_session_deliveries(conns, sid, text.as_str());
            RouteOutcome { deliveries: ds, alive_count: None }
        },
        Notification::CustomToPlayer(_, _) => {
            proof {
                assert(delivery_views(Seq::<Delivery>::empty()) =~= Seq::<(u64, Seq<char>)>::empty());
            }
            RouteOutcome { deliveries: Vec::new(), alive_count: None }
        },
        Notification::UpdateConnectionsAlive(_) => {
            proof {
                assert(delivery_views(Seq::<Delivery>::empty()) =~= Seq::<(u64, Seq<char>)>::empty());
            }
            RouteOutcome { deliveries: Vec::new(), alive_count: Some(conns.len()) }
        },
    }
}

/// Builds the write list for a text addressed to session `sid`.
fn collect_session_deliveries(conns: &Vec<WsConnection>, sid: &SessionID, text: &str) -> (r: Vec<
    Delivery,
>)
    ensures
        delivery_views(r@) == session_deliveries(conns@, sid@, text@),
{
    let mut out: Vec<Delivery> = Vec::new();
    let n = conns.len();
    proof {
        assert(conns@.take(0) =~= Seq::<WsConnection>::empty());
        assert(delivery_views(out@) =~= session_deliveries(conns@.take(0), sid@, text@));
    }
    let mut i: usize = 0;
    while i < n
        invariant
            n == conns@.len(),
            i <= n,
            delivery_views(out@) == session_deliveries(conns@.take(i as int), sid@, text@),
        decreases n - i,
    {
        proof {
            assert(conns@.take(i + 1 as int).drop_last() =~= conns@.take(i as int));
            assert(conns@.take(i + 1 as int).last() == conns@[i as int]);
        }
        if conns[i].associated_w_sid(sid) {
            let ghost prev = out@;
            let d = Delivery { socket: conns[i].get_socket(), text: String::from_str(text) };
            out.push(d);
            proof {
                assert(targets(conns@.take(i + 1 as int), sid@) == targets(
                    conns@.take(i as int),
                    sid@,
                ).push(conns@[i as int]));
                assert(session_deliveries(conns@.take(i + 1 as int), sid@, text@)
                    =~= session_deliveries(conns@.take(i as int), sid@, text@).push(
                    (conn_sock(conns@[i as int]), text@),
                ));
                assert(delivery_views(out@) =~= delivery_views(prev).push(
                    (conn_sock(conns@[i as int]), text@),
                ));
                assert(delivery_views(out@) =~= session_deliveries(
                    conns@.take(i + 1 as int),
                    sid@,
                    text@,
                ));
            }
        } else {
            proof {
                assert(targets(conns@.take(i + 1 as int), sid@) =~= targets(
                    conns@.take(i as int),
                    sid@,
                ));
                assert(delivery_views(out@) =~= session_deliveries(
                    conns@.take(i + 1 as int),
                    sid@,
                    text@,
                ));
            }
        }
        i = i + 1;
    }
    proof {
        assert(conns@.take(n as int) =~= conns@);
    }
    out
}

/// Every owed write goes to a matching connection, and every
/// matching connection is owed the write: broadcasting an event for
/// a session reaches exactly the registered connections of that
/// session plus every admin connection.
pub proof fn lemma_broadcast_exact(conns: Seq<WsConnection>, sid: Seq<char>, text: Seq<char>)
    ensures
        forall|i: int|
            0 <= i < conns.len() && conn_matches_sid(#[trigger] conns[i], sid)
                ==> session_deliveries(conns, sid, text).contains((conn_sock(conns[i]), text)),
        forall|j: int|
            #![trigger targets(conns, sid)[j]]
            0 <= j < targets(conns, sid).len() ==> conn_matches_sid(targets(conns, sid)[j], sid)
                && conns.contains(targets(conns, sid)[j]) && session_deliveries(conns, sid, text)[j]
                == (conn_sock(targets(conns, sid)[j]), text),
        session_deliveries(conns, sid, text).len() == targets(conns, sid).len(),
{
    let tg = targets(conns, sid);
    lemma_targets_pred(conns, sid);
    assert forall|i: int|
        0 <= i < conns.len() && conn_matches_sid(#[trigger] conns[i], sid) implies
        session_deliveries(conns, sid, text).contains((conn_sock(conns[i]), text)) by {
        lemma_targets_complete(conns, sid, i);
        let j = choose|j: int| 0 <= j < tg.len() && tg[j] == conns[i];
        assert(session_deliveries(conns, sid, text)[j] == (conn_sock(conns[i]), text));
    }
    assert forall|j: int|
        #![trigger targets(conns, sid)[j]]
        0 <= j < targets(conns, sid).len() implies conn_matches_sid(targets(conns, sid)[j], sid)
            && conns.contains(targets(conns, sid)[j]) && session_deliveries(conns, sid, text)[j]
            == (conn_sock(targets(conns, sid)[j]), text) by {
        lemma_targets_from(conns, sid, j);
        let i = choose|i: int|
            0 <= i < conns.len() && conns[i] == tg[j] && conn_matches_sid(
                #[trigger] conns[i],
                sid,
            );
        assert(conns.contains(tg[j]));
        assert(session_deliveries(conns, sid, text)[j] == (conn_sock(tg[j]), text));
    }
}

/// What a liveness probe saw for one connection.
#[derive(Copy, Clone, PartialEq, Eq, Structural, Debug)]
pub struct SocketProbe {
    /// The socket can still be read and written.
    pub usable: bool,
    /// A close message arrived on the socket.
    pub close_received: bool,
}

/// A probe outcome that marks its connection dead.
pub open spec fn probe_dead(p: SocketProbe) -> bool {
    !p.usable || p.close_received
}

/// The indices the probes mark dead, in ascending order.
pub open spec fn dead_list(probes: Seq<SocketProbe>) -> Seq<usize>
    decreases probes.len(),
{
    if probes.len() == 0 {
        Seq::empty()
    } else {
        let rest = dead_list(probes.drop_last());
        if probe_dead(probes.last()) {
            rest.push((probes.len() - 1) as usize)
        } else {
            rest
        }
    }
}

/// An index list that strictly ascends.
pub open spec fn strictly_ascending(s: Seq<usize>) -> bool {
    forall|a: int, b: int| 0 <= a < b < s.len() ==> s[a] < s[b]
}

/// The dead list ascends strictly and stays within the probe range.
proof fn lemma_dead_list_props(probes: Seq<SocketProbe>)
    requires
        probes.len() <= usize::MAX,
    ensures
        strictly_ascending(dead_list(probes)),
        forall|a: int|
            0 <= a < dead_list(probes).len() ==> ((#[trigger] dead_list(probes)[a]) as int) < probes.len(),
    decreases probes.len(),
{
    if probes.len() > 0 {
        lemma_dead_list_props(probes.drop_last());
        let rest = dead_list(probes.drop_last());
        if probe_dead(probes.last()) {
            let dl = dead_list(probes);
            assert(dl == rest.push((probes.len() - 1) as usize));
            assert forall|a: int, b: int| 0 <= a < b < dl.len() implies dl[a] < dl[b] by {
                if b == dl.len() - 1 {
                    assert(dl[a] == rest[a]);
                    assert((rest[a] as int) < probes.drop_last().len());
                }
            }
        }
    }
}

/// In a strictly ascending list the values grow at least as fast as
/// the indices.
proof fn lemma_ascending_gap(s: Seq<usize>, i: int, j: int)
    requires
        strictly_ascending(s),
        0 <= i <= j < s.len(),
    ensures
        s[i] as int + (j - i) <= s[j] as int,
    decreases j - i,
{
    if i < j {
        lemma_ascending_gap(s, i, j - 1);
    }
}

/// The registry left after purging the dead indices, which are
/// expected in ascending order: removals run from the highest index
/// down, so earlier indices stay meaningful.
pub open spec fn purge(conns: Seq<WsConnection>, dead: Seq<usize>) -> Seq<WsConnection>
    decreases dead.len(),
{
    if dead.len() == 0 {
        conns
    } else if (dead.last() as int) < conns.len() {
        purge(conns.remove(dead.last() as int), dead.drop_last())
    } else {
        purge(conns, dead.drop_last())
    }
}

/// A purge pass removes exactly one connection per dead index: the
/// reaped registry's size drops by the number of marked connections.
pub proof fn lemma_purge_len(conns: Seq<WsConnection>, dead: Seq<usize>)
    requires
        strictly_ascending(dead),
        forall|a: int| 0 <= a < dead.len() ==> ((#[trigger] dead[a]) as int) < conns.len(),
    ensures
        purge(conns, dead).len() == conns.len() - dead.len(),
    decreases dead.len(),
{
    if dead.len() > 0 {
        let d = dead.last();
        assert((d as int) < conns.len());
        assert forall|a: int|
            0 <= a < dead.drop_last().len() implies ((#[trigger] dead.drop_last()[a]) as int)
            < conns.remove(d as int).len() by {
            lemma_ascending_gap(dead, a, dead.len() - 1);
        }
        lemma_purge_len(conns.remove(d as int), dead.drop_last());
    }
}

/// Purging with nothing marked dead changes nothing.  Since a reaper
/// pass clears the dead list, running the reaper twice in succession
/// with no new dead connections in between is idempotent: the second
/// pass removes nothing and leaves the registry as it was.
pub proof fn lemma_reap_idempotent(conns: Seq<WsConnection>)
    ensures
        purge(conns, Seq::<usize>::empty()) == conns,
{
}

/// The registry's worker state: the live connections, the indices
/// marked dead by the last probe pass, and the receiving half of the
/// notification bus.  Only the owning worker touches a value of this
/// type; everyone else goes through the [`Notifier`].
pub struct WebsocketHandler {
    message_queue: std::sync::mpsc::Receiver<Notification>,
    connections: Vec<WsConnection>,
    dead_sockets: Vec<usize>,
}

impl WebsocketHandler {
    /// The registered connections, in registration order.
    pub closed spec fn spec_connections(&self) -> Seq<WsConnection> {
        self.connections@
    }

    /// The indices marked dead and not yet purged.
    pub closed spec fn spec_dead(&self) -> Seq<usize> {
        self.dead_sockets@
    }

    /// Internal invariant: dead indices ascend strictly and index
    /// into the connection list.
    pub open spec fn wf(&self) -> bool {
        &&& strictly_ascending(self.spec_dead())
        &&& forall|a: int|
            0 <= a < self.spec_dead().len() ==> ((#[trigger] self.spec_dead()[a]) as int) <
                self.spec_connections().len()
    }

    /// A fresh handler owning the receiving half of the bus.
    pub fn new(message_queue: std::sync::mpsc::Receiver<Notification>) -> (r: WebsocketHandler)
        ensures
            r.spec_connections() == Seq::<WsConnection>::empty(),
            r.spec_dead() == Seq::<usize>::empty(),
            r.wf(),
    {
        let r = WebsocketHandler {
            message_queue,
            connections: Vec::new(),
            dead_sockets: Vec::new(),
        };
        proof {
            assert(r.spec_connections() =~= Seq::<WsConnection>::empty());
            assert(r.spec_dead() =~= Seq::<usize>::empty());
        }
        r
    }

    /// Registers a connection accepted by the handshake gate.
    pub fn add_socket(&mut self, conn: WsConnection)
        ensures
            final(self).spec_connections() == old(self).spec_connections().push(conn),
            final(self).spec_dead() == old(self).spec_dead(),
            old(self).wf() ==> final(self).wf(),
    {
        self.connections.push(conn);
    }

    /// How many connections are registered.
    pub fn connection_count(&self) -> (r: usize)
        ensures
            r == self.spec_connections().len(),
    {
        self.connections.len()
    }

    /// Records the outcome of one probe pass: every connection whose
    /// probe shows it unusable, or from which a close arrived, is
    /// marked dead, and nothing else.
    pub fn poll_messages(&mut self, probes: &Vec<SocketProbe>)
        requires
            old(self).spec_dead().len() == 0,
            probes@.len() == old(self).spec_connections().len(),
        ensures
            final(self).spec_connections() == old(self).spec_connections(),
            final(self).spec_dead() == dead_list(probes@),
            final(self).wf(),
    {
        let n = probes.len();
        proof {
            assert(probes@.take(0) =~= Seq::<SocketProbe>::empty());
            assert(self.dead_sockets@ =~= dead_list(probes@.take(0)));
        }
        let mut i: usize = 0;
        while i < n
            invariant
                n == probes@.len(),
                i <= n,
                self.spec_connections() == old(self).spec_connections(),
                probes@.len() == self.spec_connections().len(),
                self.dead_sockets@ == dead_list(probes@.take(i as int)),
            decreases n - i,
        {
            proof {
                assert(probes@.take(i + 1 as int).drop_last() =~= probes@.take(i as int));
                assert(probes@.take(i + 1 as int).last() == probes@[i as int]);
            }
            let p = probes[i];
            if !p.usable || p.close_received {
                self.dead_sockets.push(i);
            }
            i = i + 1;
        }
        proof {
            assert(probes@.take(n as int) =~= probes@);
            lemma_dead_list_props(probes@);
        }
    }

    /// Whether a purge pass is due.
    pub fn needs_cleanup(&self) -> (r: bool)
        ensures
            r == (self.spec_dead().len() > 0),
    {
        self.dead_sockets.len() > 0
    }

    /// Purges every connection marked dead, in one pass from the
    /// highest index down, and clears the dead list.
    pub fn clean_up(&mut self)
        requires
            old(self).wf(),
        ensures
            final(self).spec_connections() == purge(
                old(self).spec_connections(),
                old(self).spec_dead(),
            ),
            final(self).spec_dead() == Seq::<usize>::empty(),
            final(self).wf(),
    {
        let ghost oconns = self.connections@;
        let ghost odead = self.dead_sockets@;
        proof {
            assert(odead.take(odead.len() as int) =~= odead);
        }
        let mut k = self.dead_sockets.len();
        while k > 0
            invariant
                k <= odead.len(),
                self.dead_sockets@ == odead,
                strictly_ascending(odead),
                forall|a: int| 0 <= a < odead.len() ==> ((#[trigger] odead[a]) as int) < oconns.len(),
                self.connections@.len() == oconns.len() - (odead.len() - k),
                purge(oconns, odead) == purge(self.connections@, odead.take(k as int)),
            decreases k,
        {
            k = k - 1;
            let idx = self.dead_sockets[k];
            proof {
                lemma_ascending_gap(odead, k as int, odead.len() - 1);
                assert((idx as int) < self.connections@.len());
                assert(odead.take(k + 1 as int).drop_last() =~= odead.take(k as int));
                assert(odead.take(k + 1 as int).last() == odead[k as int]);
            }
            let _gone = self.connections.remove(idx);
        }
        proof {
            assert(odead.take(0) =~= Seq::<usize>::empty());
        }
        self.dead_sockets.clear();
        proof {
            assert(final(self).spec_dead() =~= Seq::<usize>::empty());
        }
    }

    /// Drains up to `max_drain` pending notifications without
    /// blocking, routes each against the current connections, and
    /// answers liveness queries by publishing the exact connection
    /// count into the caller's slot.  Returns the socket writes the
    /// caller owes: exactly the routed deliveries of the drained
    /// batch, in order.  What sits in the queue is other threads'
    /// doing, so only the batch is bounded, not named.  A failed
    /// write is the caller's cue to report the socket unusable on
    /// the next probe pass.
    pub fn handle_notifications(&self, max_drain: usize) -> (r: Vec<Delivery>)
        ensures
            exists|msgs: Seq<Notification>|
                msgs.len() <= max_drain && delivery_views(r@) == routed_all(
                    self.spec_connections(),
                    msgs,
                ),
    {
        let mut out: Vec<Delivery> = Vec::new();
        let ghost mut msgs: Seq<Notification> = Seq::empty();
        proof {
            assert(delivery_views(out@) =~= routed_all(self.spec_connections(), msgs));
        }
        let mut budget = max_drain;
        while budget > 0
            invariant
                budget <= max_drain,
                msgs.len() == max_drain - budget,
                delivery_views(out@) == routed_all(self.spec_connections(), msgs),
            ensures
                msgs.len() <= max_drain,
                delivery_views(out@) == routed_all(self.spec_connections(), msgs),
            decreases budget,
        {
            let msg = match channel_try_recv(&self.message_queue) {
                Some(m) => m,
                None => {
                    break ;
                },
            };
            let mut oc = route_notification(&self.connections, &msg);
            let ghost prev_out = out@;
            out.append(&mut oc.deliveries);
            proof {
                let prev_msgs = msgs;
                msgs = msgs.push(msg);
                assert(msgs.drop_last() =~= prev_msgs);
                assert(msgs.last() == msg);
                assert(delivery_views(out@) =~= delivery_views(prev_out) + route_deliveries(
                    self.spec_connections(),
                    msg,
                ));
                assert(delivery_views(out@) =~= routed_all(self.spec_connections(), msgs));
            }
            match (&msg, oc.alive_count) {
                (Notification::UpdateConnectionsAlive(slot), Some(cnt)) => {
                    let capped: i64 = if cnt as u64 > i64::MAX as u64 {
                        i64::MAX
                    } else {
                        cnt as i64
                    };
                    publish_count(slot, capped);
                },
                _ => {},
            }
            budget = budget - 1;
        }
        proof {
            assert(msgs.len() <= max_drain && delivery_views(out@) == routed_all(
                self.spec_connections(),
                msgs,
            ));
        }
        out
    }

    /// Hands back every socket handle for the caller to close, in
    /// registration order, consuming the handler: cooperative
    /// shutdown closes all connections.
    pub fn terminate(self) -> (r: Vec<u64>)
        ensures
            r@ == self.spec_connections().map(|_i: int, c: WsConnection| conn_sock(c)),
    {
        let mut out: Vec<u64> = Vec::new();
        let n = self.connections.len();
        let mut i: usize = 0;
        while i < n
            invariant
                n == self.connections@.len(),
                i <= n,
                out@ == self.spec_connections().take(i as int).map(
                    |_i: int, c: WsConnection| conn_sock(c),
                ),
            decreases n - i,
        {
            out.push(self.connections[i].get_socket());
            proof {
                assert(out@ =~= self.spec_connections().take(i + 1 as int).map(
                    |_i: int, c: WsConnection| conn_sock(c),
                ));
            }
            i = i + 1;
        }
        proof {
            assert(self.spec_connections().take(n as int) =~= self.spec_connections());
        }
        out
    }
}

/// Publishes a liveness answer into the shared slot.  The cell is
/// shared across threads, so nothing is known of its content.
pub fn publish_count(slot: &std::sync::Arc<std::sync::atomic::AtomicI64>, v: i64) {
    slot.store(v, std::sync::atomic::Ordering::Relaxed);
}

/// Reads the shared liveness slot.  Other threads write the cell,
/// so nothing is known of the value.
pub fn read_count(slot: &std::sync::Arc<std::sync::atomic::AtomicI64>) -> i64 {
    slot.load(std::sync::atomic::Ordering::Relaxed)
}

} // verus!
