//! The publish sink: what one session with the broker sends, and when the
//! session has seen its own message come back and be acknowledged.

use crate::tempo::TempoDay;
use crate::text::same_text;
use vstd::prelude::*;

verus! {

/// How hard the broker must try to deliver a message.
#[derive(Debug, PartialEq, Eq, Clone, Copy, Structural)]
pub enum QoS {
    AtMostOnce,
    AtLeastOnce,
    ExactlyOnce,
}

/// How to reach the broker.
#[derive(Debug)]
pub struct ConnectOptions {
    pub client_id: String,
    pub host: String,
    pub port: u16,
    pub username: String,
    pub password: String,
    pub keep_alive_secs: u64,
}

/// What `ConnectOptions` hold.
pub struct ConnectOptionsView {
    pub client_id: Seq<char>,
    pub host: Seq<char>,
    pub port: u16,
    pub username: Seq<char>,
    pub password: Seq<char>,
    pub keep_alive_secs: u64,
}

impl View for ConnectOptions {
    type V = ConnectOptionsView;

    open spec fn view(&self) -> ConnectOptionsView {
        ConnectOptionsView {
            client_id: self.client_id@,
            host: self.host@,
            port: self.port,
            username: self.username@,
            password: self.password@,
            keep_alive_secs: self.keep_alive_secs,
        }
    }
}

impl Clone for ConnectOptions {
    fn clone(&self) -> (r: Self)
        ensures
            r@ == self@,
    {
        ConnectOptions {
            client_id: self.client_id.clone(),
            host: self.host.clone(),
            port: self.port,
            username: self.username.clone(),
            password: self.password.clone(),
            keep_alive_secs: self.keep_alive_secs,
        }
    }
}

/// What one session does: it opens a connection of its own with `options`,
/// subscribes to `topic`, then publishes `payload` to the same topic. It
/// then waits, `wait_secs` seconds at most, for the events that a
/// `Handshake` follows.
#[derive(Debug)]
pub struct PublishSession {
    pub options: ConnectOptions,
    pub topic: String,
    pub payload: String,
    pub subscribe_qos: QoS,
    pub publish_qos: QoS,
    pub retain: bool,
    pub wait_secs: u64,
}

/// What a `PublishSession` holds.
pub struct PublishSessionView {
    pub options: ConnectOptionsView,
    pub topic: Seq<char>,
    pub payload: Seq<char>,
    pub subscribe_qos: QoS,
    pub publish_qos: QoS,
    pub retain: bool,
    pub wait_secs: u64,
}

impl View for PublishSession {
    type V = PublishSessionView;

    open spec fn view(&self) -> PublishSessionView {
        PublishSessionView {
            options: self.options@,
            topic: self.topic@,
            payload: self.payload@,
            subscribe_qos: self.subscribe_qos,
            publish_qos: self.publish_qos,
            retain: self.retain,
            wait_secs: self.wait_secs,
        }
    }
}

/// The session that publishes `payload` for `sink`: subscribed at most
/// once, published at least once, not retained, five seconds to round-trip.
pub open spec fn session_of(sink: MQTTHandlerView, payload: Seq<char>) -> PublishSessionView {
    PublishSessionView {
        options: sink.options,
        topic: sink.topic,
        payload,
        subscribe_qos: QoS::AtMostOnce,
        publish_qos: QoS::AtLeastOnce,
        retain: false,
        wait_secs: 5,
    }
}

/// The client name used where none is given.
pub open spec fn default_identity() -> Seq<char> {
    "bot_tempo_rs"@
}

/// What an `MQTTHandler` holds.
pub struct MQTTHandlerView {
    pub topic: Seq<char>,
    pub options: ConnectOptionsView,
}

/// The publish sink: a topic, and how to reach the broker.
#[derive(Debug)]
pub struct MQTTHandler {
    topic: String,
    options: ConnectOptions,
}

impl View for MQTTHandler {
    type V = MQTTHandlerView;

    closed spec fn view(&self) -> MQTTHandlerView {
        MQTTHandlerView { topic: self.topic@, options: self.options@ }
    }
}

impl MQTTHandler {
    /// The sink that publishes on `topic` at the broker `ip`:`port`, under
    /// the client name `identity` or, without one, `bot_tempo_rs`. The
    /// connection is kept alive every five seconds.
    pub fn new(
        ip: &str,
        port: u16,
        username: &str,
        password: &str,
        topic: &str,
        identity: Option<&str>,
    ) -> (r: Self)
        ensures
            r@.topic == topic@,
            r@.options == (ConnectOptionsView {
                client_id: match identity {
                    Some(name) => name@,
                    None => default_identity(),
                },
                host: ip@,
                port,
                username: username@,
                password: password@,
                keep_alive_secs: 5,
            }),
    {
        let client_id = match identity {
            Some(name) => name.to_owned(),
            None => "bot_tempo_rs".to_owned(),
        };
        Self {
            topic: topic.to_owned(),
            options: ConnectOptions {
                client_id,
                host: ip.to_owned(),
                port,
                username: username.to_owned(),
                password: password.to_owned(),
                keep_alive_secs: 5,
            },
        }
    }

    /// The topic that the sink publishes on.
    pub fn topic(&self) -> (r: &str)
        ensures
            r@ == self@.topic,
    {
        self.topic.as_str()
    }

    /// How to reach the broker.
    pub fn options(&self) -> (r: &ConnectOptions)
        ensures
            r@ == self@.options,
    {
        &self.options
    }

    /// The session that publishes `msg`.
    pub fn send_msg(&self, msg: &str) -> (r: PublishSession)
        ensures
            r@ == session_of(self@, msg@),
    {
        PublishSession {
            options: self.options.clone(),
            topic: self.topic.clone(),
            payload: msg.to_owned(),
            subscribe_qos: QoS::AtMostOnce,
            publish_qos: QoS::AtLeastOnce,
            retain: false,
            wait_secs: 5,
        }
    }

    /// The session that announces tomorrow's colour.
    pub fn handle_day(&self, tomorrow: &TempoDay) -> (r: PublishSession)
        ensures
            r@ == session_of(self@, tomorrow@.mqtt_text()),
    {
        self.send_msg(tomorrow.to_mqtt_string().as_str())
    }
}

/// What a session hears after it has subscribed and published.
#[derive(Debug)]
pub enum SessionEvent {
    /// A message was delivered on `topic`.
    Delivery { topic: String },
    /// The broker acknowledged a publication.
    Acknowledged,
    /// Anything else the broker or the client reports.
    Other,
    /// The connection failed.
    Lost,
    /// The wait is over.
    TimedOut,
}

/// What a `SessionEvent` holds.
pub enum SessionEventView {
    Delivery { topic: Seq<char> },
    Acknowledged,
    Other,
    Lost,
    TimedOut,
}

impl View for SessionEvent {
    type V = SessionEventView;

    open spec fn view(&self) -> SessionEventView {
        match self {
            SessionEvent::Delivery { topic } => SessionEventView::Delivery { topic: topic@ },
            SessionEvent::Acknowledged => SessionEventView::Acknowledged,
            SessionEvent::Other => SessionEventView::Other,
            SessionEvent::Lost => SessionEventView::Lost,
            SessionEvent::TimedOut => SessionEventView::TimedOut,
        }
    }
}

impl SessionEventView {
    /// The event ends a session that still waits: the connection failed or
    /// the wait is over.
    pub open spec fn breaks(self) -> bool {
        self is Lost || self is TimedOut
    }
}

/// Where a session stands.
#[derive(Debug, PartialEq, Eq, Clone, Copy, Structural)]
pub enum SessionStatus {
    /// The message has not yet come back and been acknowledged.
    Waiting,
    /// The message came back on the topic, and an acknowledgment followed.
    RoundTripped,
    /// The connection failed or the wait ended first.
    Unavailable,
}

/// What a `Handshake` holds.
pub struct HandshakeView {
    pub topic: Seq<char>,
    pub seen_delivery: bool,
    pub seen_ack: bool,
    pub broken: bool,
}

impl HandshakeView {
    /// A handshake that has heard nothing yet.
    pub open spec fn fresh(topic: Seq<char>) -> HandshakeView {
        HandshakeView { topic, seen_delivery: false, seen_ack: false, broken: false }
    }

    /// An acknowledgment counts only after a delivery, and a session does
    /// not both succeed and fail.
    pub open spec fn wf(self) -> bool {
        &&& self.seen_ack ==> self.seen_delivery
        &&& !(self.seen_ack && self.broken)
    }

    /// Where the session stands.
    pub open spec fn status(self) -> SessionStatus {
        if self.broken {
            SessionStatus::Unavailable
        } else if self.seen_delivery && self.seen_ack {
            SessionStatus::RoundTripped
        } else {
            SessionStatus::Waiting
        }
    }

    /// The handshake after one more event. A session that has ended hears
    /// nothing more. One that waits notes a delivery on its topic, counts an
    /// acknowledgment once a delivery was noted, and ends on a failure or a
    /// timeout.
    pub open spec fn step(self, event: SessionEventView) -> HandshakeView {
        if self.status() != SessionStatus::Waiting {
            self
        } else {
            match event {
                SessionEventView::Delivery { topic } => if topic == self.topic {
                    HandshakeView { seen_delivery: true, ..self }
                } else {
                    self
                },
                SessionEventView::Acknowledged => if self.seen_delivery {
                    HandshakeView { seen_ack: true, ..self }
                } else {
                    self
                },
                SessionEventView::Other => self,
                SessionEventView::Lost => HandshakeView { broken: true, ..self },
                SessionEventView::TimedOut => HandshakeView { broken: true, ..self },
            }
        }
    }

    /// The handshake after the events of a list, in order.
    pub open spec fn run(self, events: Seq<SessionEventView>) -> HandshakeView
        decreases events.len(),
    {
        if events.len() == 0 {
            self
        } else {
            self.run(events.drop_last()).step(events.last())
        }
    }
}

/// The handshake of one session: whether its message has come back on the
/// topic, and whether an acknowledgment has followed.
#[derive(Debug)]
pub struct Handshake {
    topic: String,
    seen_delivery: bool,
    seen_ack: bool,
    broken: bool,
}

impl View for Handshake {
    type V = HandshakeView;

    closed spec fn view(&self) -> HandshakeView {
        HandshakeView {
            topic: self.topic@,
            seen_delivery: self.seen_delivery,
            seen_ack: self.seen_ack,
            broken: self.broken,
        }
    }
}

impl PublishSession {
    /// The handshake of the session, before it has heard anything.
    pub fn handshake(&self) -> (r: Handshake)
        ensures
            r@ == HandshakeView::fresh(self@.topic),
    {
        Handshake::new(self.topic.as_str())
    }
}

impl Handshake {
    /// Every `Handshake` is well formed.
    #[verifier::type_invariant]
    pub open spec fn type_wf(self) -> bool {
        self@.wf()
    }

    /// The handshake of a session on `topic`, before it has heard anything.
    pub fn new(topic: &str) -> (r: Self)
        ensures
            r@ == HandshakeView::fresh(topic@),
    {
        Handshake { topic: topic.to_owned(), seen_delivery: false, seen_ack: false, broken: false }
    }

    /// Where the session stands.
    pub fn status(&self) -> (r: SessionStatus)
        ensures
            r == self@.status(),
    {
        if self.broken {
            SessionStatus::Unavailable
        } else if self.seen_delivery && self.seen_ack {
            SessionStatus::RoundTripped
        } else {
            SessionStatus::Waiting
        }
    }

    /// Whether the message has come back on the topic.
    pub fn seen_delivery(&self) -> (r: bool)
        ensures
            r == self@.seen_delivery,
    {
        self.seen_delivery
    }

    /// Whether an acknowledgment has followed the delivery.
    pub fn seen_ack(&self) -> (r: bool)
        ensures
            r == self@.seen_ack,
    {
        self.seen_ack
    }

    /// Takes one event in, and says where the session stands after it.
    pub fn on_event(&mut self, event: &SessionEvent) -> (r: SessionStatus)
        ensures
            final(self)@ == old(self)@.step(event@),
            r == final(self)@.status(),
    {
        proof {
            use_type_invariant(&*self);
        }
        if !matches!(self.status(), SessionStatus::Waiting) {
            return self.status();
        }
        match event {
            SessionEvent::Delivery { topic } => {
                if same_text(topic.as_str(), self.topic.as_str()) {
                    self.seen_delivery = true;
                }
            },
            SessionEvent::Acknowledged => {
                if self.seen_delivery {
                    self.seen_ack = true;
                }
            },
            SessionEvent::Other => {},
            SessionEvent::Lost => {
                self.broken = true;
            },
            SessionEvent::TimedOut => {
                self.broken = true;
            },
        }
        self.status()
    }
}

/// None of the first `n` events ends a waiting session.
pub open spec fn unbroken(events: Seq<SessionEventView>, n: int) -> bool {
    forall|k: int| 0 <= k < n && k < events.len() ==> !(#[trigger] events[k]).breaks()
}

/// One of the first `n` events is a delivery on `topic`.
pub open spec fn delivered(topic: Seq<char>, events: Seq<SessionEventView>, n: int) -> bool {
    exists|i: int|
        0 <= i < n && i < events.len() && #[trigger] events[i] == (SessionEventView::Delivery {
            topic,
        })
}

/// The event at `j` is an acknowledgment that completes the round trip: a
/// delivery on `topic` came before it, and nothing before it ended the
/// session.
pub open spec fn completes_at(topic: Seq<char>, events: Seq<SessionEventView>, j: int) -> bool {
    &&& 0 <= j < events.len()
    &&& events[j] is Acknowledged
    &&& delivered(topic, events, j)
    &&& unbroken(events, j)
}

/// Some acknowledgment among the first `n` events completes the round trip.
pub open spec fn completed(topic: Seq<char>, events: Seq<SessionEventView>, n: int) -> bool {
    exists|j: int| 0 <= j < n && #[trigger] completes_at(topic, events, j)
}

/// Some event ends the session before any acknowledgment completes it.
pub open spec fn interrupted(topic: Seq<char>, events: Seq<SessionEventView>) -> bool {
    exists|k: int|
        0 <= k < events.len() && (#[trigger] events[k]).breaks() && !completed(topic, events, k)
}

/// A session that has ended stays as it is, whatever it hears.
pub proof fn lemma_ended_session_is_final(h: HandshakeView, event: SessionEventView)
    requires
        h.status() != SessionStatus::Waiting,
    ensures
        h.step(event) == h,
{
}

/// Where a session stands after any list of events. It has round-tripped
/// exactly where a delivery on its topic was followed by an acknowledgment
/// with no failure and no timeout before that acknowledgment; an
/// acknowledgment that comes before the delivery does not count. It is
/// unavailable exactly where a failure or a timeout came before any such
/// acknowledgment. Otherwise it waits.
pub proof fn lemma_session_outcome(topic: Seq<char>, events: Seq<SessionEventView>)
    ensures
        HandshakeView::fresh(topic).run(events).wf(),
        HandshakeView::fresh(topic).run(events).topic == topic,
        HandshakeView::fresh(topic).run(events).status() == SessionStatus::RoundTripped
            <==> completed(topic, events, events.len() as int),
        HandshakeView::fresh(topic).run(events).status() == SessionStatus::Unavailable
            <==> interrupted(topic, events),
        HandshakeView::fresh(topic).run(events).status() == SessionStatus::Waiting ==> (
        HandshakeView::fresh(topic).run(events).seen_delivery <==> delivered(
            topic,
            events,
            events.len() as int,
        )),
    decreases events.len(),
{
    let n = events.len() as int;
    if n > 0 {
        let rest = events.drop_last();
        let last = events.last();
        let before = HandshakeView::fresh(topic).run(rest);
        let after = before.step(last);
        lemma_session_outcome(topic, rest);
        assert forall|k: int| 0 <= k < n - 1 implies rest[k] == events[k] by {}
        assert forall|j: int| 0 <= j < n - 1 implies completes_at(topic, rest, j) == completes_at(
            topic,
            events,
            j,
        ) by {
            lemma_completes_at_prefix(topic, events, rest, j);
        }
        assert forall|k: int| 0 <= k <= n - 1 implies completed(topic, rest, k) == completed(
            topic,
            events,
            k,
        ) by {
            if completed(topic, rest, k) {
                let j = choose|j: int| 0 <= j < k && #[trigger] completes_at(topic, rest, j);
                assert(completes_at(topic, events, j));
            }
            if completed(topic, events, k) {
                let j = choose|j: int| 0 <= j < k && #[trigger] completes_at(topic, events, j);
                assert(completes_at(topic, rest, j));
            }
        }
        // what the earlier events say of the whole list
        if completed(topic, rest, n - 1) {
            let j = choose|j: int| 0 <= j < n - 1 && #[trigger] completes_at(topic, rest, j);
            assert(completes_at(topic, events, j));
            assert(completed(topic, events, n));
        }
        if interrupted(topic, rest) {
            let k = choose|k: int|
                0 <= k < rest.len() && (#[trigger] rest[k]).breaks() && !completed(topic, rest, k);
            assert(events[k].breaks() && !completed(topic, events, k));
            assert(interrupted(topic, events));
        }
        if delivered(topic, rest, n - 1) {
            let i = choose|i: int|
                0 <= i < n - 1 && i < rest.len() && #[trigger] rest[i] == (
                SessionEventView::Delivery { topic });
            assert(events[i] == rest[i]);
            assert(delivered(topic, events, n));
            assert(delivered(topic, events, n - 1));
        }
        // what the whole list says of the earlier events
        if completed(topic, events, n) && !completed(topic, rest, n - 1) {
            let j = choose|j: int| 0 <= j < n && #[trigger] completes_at(topic, events, j);
            assert(j == n - 1);
            assert(unbroken(rest, n - 1));
            let i = choose|i: int|
                0 <= i < n - 1 && i < events.len() && #[trigger] events[i] == (
                SessionEventView::Delivery { topic });
            assert(rest[i] == events[i]);
            assert(delivered(topic, rest, n - 1));
            if interrupted(topic, rest) {
                let k = choose|k: int|
                    0 <= k < rest.len() && (#[trigger] rest[k]).breaks() && !completed(
                        topic,
                        rest,
                        k,
                    );
                assert(!events[k].breaks());
            }
        }
        if interrupted(topic, events) && !interrupted(topic, rest) {
            let k = choose|k: int|
                0 <= k < events.len() && (#[trigger] events[k]).breaks() && !completed(
                    topic,
                    events,
                    k,
                );
            if k < n - 1 {
                assert(rest[k].breaks() && !completed(topic, rest, k));
            }
            assert(k == n - 1);
        }
        if delivered(topic, events, n) && !delivered(topic, rest, n - 1) {
            let i = choose|i: int|
                0 <= i < n && i < events.len() && #[trigger] events[i] == (
                SessionEventView::Delivery { topic });
            if i < n - 1 {
                assert(rest[i] == events[i]);
            }
            assert(i == n - 1);
        }
        if before.status() == SessionStatus::Waiting {
            assert(unbroken(rest, n - 1)) by {
                assert forall|k: int| 0 <= k < n - 1 && k < rest.len() implies !(
                #[trigger] rest[k]).breaks() by {
                    if rest[k].breaks() {
                        assert(!completed(topic, rest, k)) by {
                            if completed(topic, rest, k) {
                                let j = choose|j: int|
                                    0 <= j < k && #[trigger] completes_at(topic, rest, j);
                                assert(completed(topic, rest, n - 1));
                            }
                        }
                        assert(interrupted(topic, rest));
                    }
                }
            }
            assert(unbroken(events, n - 1));
            if last is Acknowledged && before.seen_delivery {
                assert(completes_at(topic, events, n - 1));
                assert(completed(topic, events, n));
            }
            if last.breaks() {
                assert(!completed(topic, events, n - 1));
                assert(interrupted(topic, events));
            }
            if last == (SessionEventView::Delivery { topic }) {
                assert(delivered(topic, events, n));
            }
        }
    }
}

/// Whether an acknowledgment completes the round trip depends only on the
/// events up to it.
proof fn lemma_completes_at_prefix(
    topic: Seq<char>,
    events: Seq<SessionEventView>,
    rest: Seq<SessionEventView>,
    j: int,
)
    requires
        rest == events.drop_last(),
        events.len() > 0,
        0 <= j < rest.len(),
    ensures
        completes_at(topic, rest, j) == completes_at(topic, events, j),
{
    assert forall|k: int| 0 <= k < rest.len() implies rest[k] == events[k] by {}
    if delivered(topic, rest, j) {
        let i = choose|i: int|
            0 <= i < j && i < rest.len() && #[trigger] rest[i] == (SessionEventView::Delivery {
                topic,
            });
        assert(events[i] == rest[i]);
    }
    if delivered(topic, events, j) {
        let i = choose|i: int|
            0 <= i < j && i < events.len() && #[trigger] events[i] == (SessionEventView::Delivery {
                topic,
            });
        assert(rest[i] == events[i]);
    }
    if unbroken(rest, j) {
        assert forall|k: int| 0 <= k < j && k < events.len() implies !(
        #[trigger] events[k]).breaks() by {
            assert(rest[k] == events[k]);
        }
    }
    if unbroken(events, j) {
        assert forall|k: int| 0 <= k < j && k < rest.len() implies !(#[trigger] rest[k]).breaks() by {
            assert(rest[k] == events[k]);
        }
    }
}

} // verus!
