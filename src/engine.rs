//! The decisions of the WebSocket engine: which channels to send, what to do with
//! each frame that arrives, and when to ping, stop or exit.
use vstd::prelude::*;
use crate::text::{str_eq, views};

verus! {

/// A WebSocket frame, as the engine sees it.
pub enum Frame {
    Text(String),
    Binary(Vec<u8>),
    Ping(Vec<u8>),
    Pong(Vec<u8>),
    /// A close frame, with its close code where it carries one.
    Close(Option<u16>),
}

/// How an exchange's dialect classifies a text message.
pub enum MiscMessage {
    /// A frame to write back to the server, such as an application-level pong.
    WebSocket(Frame),
    /// The server asks for a new connection.
    Reconnect,
    /// A message to drop.
    Misc,
    /// An answer to the client's ping.
    Pong,
    /// Market data, to forward.
    Normal,
}

/// What one read from the socket brought.
pub enum Incoming {
    /// A text frame, or a binary frame decompressed, with its class in the exchange's
    /// dialect.
    Message { text: String, class: MiscMessage },
    /// A binary frame that did not decompress.
    Undecodable,
    /// A binary frame from an exchange that sends none.
    UnknownBinary,
    Ping(Vec<u8>),
    Pong,
    /// A close frame, with its close code where it carries one.
    Close(Option<u16>),
    /// The read timed out.
    WouldBlock,
    /// The read was interrupted by a signal.
    Interrupted,
    /// The peer closed the connection, the pipe broke, or the connection was reset
    /// without a closing handshake.
    ConnectionLost,
    /// A protocol error that the connection survives.
    ProtocolError,
    /// An error that a live socket should never give.
    Unexpected,
}

/// What the loop does after one read, in this order: forward a text, write a reply,
/// exit the process (after a pause, for a supervisor to restart it), write a ping, or
/// leave the loop.
pub struct Step {
    pub forward: Option<String>,
    pub reply: Option<Frame>,
    pub exit: bool,
    pub ping: Option<Frame>,
    pub stop: bool,
}

/// The close codes after which the server may simply be gone: normal closure and
/// going away.
pub open spec fn benign_close(code: u16) -> bool {
    code == 1000 || code == 1001
}

/// The read brought a frame.
pub open spec fn is_frame(i: Incoming) -> bool {
    match i {
        Incoming::Message { .. } | Incoming::Undecodable | Incoming::UnknownBinary
        | Incoming::Ping(_) | Incoming::Pong | Incoming::Close(_) => true,
        _ => false,
    }
}

/// What ends the process at once.
pub open spec fn is_fatal(i: Incoming) -> bool {
    match i {
        Incoming::Message { class: MiscMessage::Reconnect, .. } => true,
        Incoming::UnknownBinary | Incoming::ConnectionLost | Incoming::Unexpected => true,
        Incoming::Close(Some(code)) => !benign_close(code),
        _ => false,
    }
}

/// What answers the client's last ping.
pub open spec fn answers_ping(i: Incoming) -> bool {
    match i {
        Incoming::Pong | Incoming::Message { class: MiscMessage::Pong, .. } => true,
        _ => false,
    }
}

/// Market data, which is forwarded.
pub open spec fn forwarded(i: Incoming) -> Option<String> {
    match i {
        Incoming::Message { text, class: MiscMessage::Normal } => Some(text),
        _ => None,
    }
}

/// The frame written back: a pong for a ping, or what the dialect asks for.
pub open spec fn reply_to(i: Incoming) -> Option<Frame> {
    match i {
        Incoming::Ping(p) => Some(Frame::Pong(p)),
        Incoming::Message { class: MiscMessage::WebSocket(f), .. } => Some(f),
        _ => None,
    }
}

pub open spec fn saturating_inc(x: u64) -> u64 {
    if x < u64::MAX {
        (x + 1) as u64
    } else {
        x
    }
}

/// Milliseconds from `from` to `to`, none where the clock went back.
pub open spec fn elapsed_ms(from: u64, to: u64) -> int {
    if to >= from {
        to - from
    } else {
        0
    }
}

/// The channels of `chs` that are new against `seen`, each once, in order.
pub open spec fn fresh(seen: Set<Seq<char>>, chs: Seq<Seq<char>>) -> Seq<Seq<char>>
    decreases chs.len(),
{
    if chs.len() == 0 {
        Seq::empty()
    } else if seen.contains(chs[0]) {
        fresh(seen, chs.drop_first())
    } else {
        seq![chs[0]] + fresh(seen.insert(chs[0]), chs.drop_first())
    }
}

/// The channels of `chs` that stand in `subscribed`, each once, in order.
pub open spec fn stale(subscribed: Set<Seq<char>>, chs: Seq<Seq<char>>) -> Seq<Seq<char>>
    decreases chs.len(),
{
    if chs.len() == 0 {
        Seq::empty()
    } else if subscribed.contains(chs[0]) {
        seq![chs[0]] + stale(subscribed.remove(chs[0]), chs.drop_first())
    } else {
        stale(subscribed, chs.drop_first())
    }
}

/// Subscribing to channels that are all subscribed already sends nothing; so
/// subscribing twice to the same channels sends commands only the first time.
pub proof fn lemma_subscribe_twice(seen: Set<Seq<char>>, chs: Seq<Seq<char>>)
    ensures
        fresh(seen.union(chs.to_set()), chs) == Seq::<Seq<char>>::empty(),
    decreases chs.len(),
{
    if chs.len() > 0 {
        let rest = chs.drop_first();
        assert(chs.to_set().contains(chs[0]));
        assert(seen.union(chs.to_set()).contains(chs[0]));
        lemma_fresh_within(seen.union(chs.to_set()), rest);
    }
}

proof fn lemma_fresh_within(seen: Set<Seq<char>>, chs: Seq<Seq<char>>)
    requires
        forall|i: int| 0 <= i < chs.len() ==> seen.contains(chs[i]),
    ensures
        fresh(seen, chs) == Seq::<Seq<char>>::empty(),
    decreases chs.len(),
{
    if chs.len() > 0 {
        assert(seen.contains(chs[0]));
        let rest = chs.drop_first();
        assert forall|i: int| 0 <= i < rest.len() implies seen.contains(rest[i]) by {
            assert(rest[i] == chs[i + 1]);
        }
        lemma_fresh_within(seen, rest);
    }
}

/// What the engine keeps of one connection: the subscribed channels, the liveness
/// counters and the stop flag. The socket, the output channel and the clock belong to
/// the loop that runs the engine.
pub struct WSClientInternal {
    exchange: String,
    url: String,
    channels: Vec<String>,
    client_ping_interval_and_msg: Option<(u64, String)>,
    server_ping_interval: Option<u64>,
    num_unanswered_ping: u64,
    num_read_timeout: u64,
    should_stop: bool,
    start_ms: u64,
    last_ping_ms: u64,
}

impl WSClientInternal {
    pub closed spec fn exchange_name(&self) -> Seq<char> {
        self.exchange@
    }

    pub closed spec fn url_view(&self) -> Seq<char> {
        self.url@
    }

    pub fn exchange(&self) -> (r: &str)
        ensures
            r@ == self.exchange_name(),
    {
        self.exchange.as_str()
    }

    pub fn url(&self) -> (r: &str)
        ensures
            r@ == self.url_view(),
    {
        self.url.as_str()
    }

    /// The channels subscribed now.
    pub closed spec fn channel_set(&self) -> Set<Seq<char>> {
        views(self.channels@).to_set()
    }

    pub closed spec fn wf(&self) -> bool {
        views(self.channels@).no_duplicates() && !(self.client_ping_interval_and_msg is Some
            && self.server_ping_interval is Some)
    }

    pub closed spec fn client_ping(&self) -> Option<(u64, String)> {
        self.client_ping_interval_and_msg
    }

    pub closed spec fn server_ping(&self) -> Option<u64> {
        self.server_ping_interval
    }

    pub closed spec fn unanswered_pings(&self) -> u64 {
        self.num_unanswered_ping
    }

    pub closed spec fn read_timeouts(&self) -> u64 {
        self.num_read_timeout
    }

    pub closed spec fn stopped(&self) -> bool {
        self.should_stop
    }

    pub closed spec fn started_at(&self) -> u64 {
        self.start_ms
    }

    pub closed spec fn last_ping_at(&self) -> u64 {
        self.last_ping_ms
    }

    /// A client that pings the server every `client_ping_interval_and_msg.0` seconds, or
    /// one whose server pings every `server_ping_interval` seconds; not both.
    pub fn new(
        exchange: &str,
        url: &str,
        client_ping_interval_and_msg: Option<(u64, String)>,
        server_ping_interval: Option<u64>,
    ) -> (r: Self)
        requires
            !(client_ping_interval_and_msg is Some && server_ping_interval is Some),
        ensures
            r.wf(),
            r.exchange_name() == exchange@,
            r.url_view() == url@,
            r.channel_set() == Set::<Seq<char>>::empty(),
            r.client_ping() == client_ping_interval_and_msg,
            r.server_ping() == server_ping_interval,
            r.unanswered_pings() == 0,
            r.read_timeouts() == 0,
            !r.stopped(),
    {
        let r = WSClientInternal {
            exchange: String::from_str(exchange),
            url: String::from_str(url),
            channels: Vec::new(),
            client_ping_interval_and_msg,
            server_ping_interval,
            num_unanswered_ping: 0,
            num_read_timeout: 0,
            should_stop: false,
            start_ms: 0,
            last_ping_ms: 0,
        };
        assert(views(r.channels@) =~= Seq::<Seq<char>>::empty());
        r
    }

    /// How long a read may block, in seconds: half the client's ping interval, or half
    /// the server's.
    pub fn read_timeout(&self) -> (r: Option<u64>)
        ensures
            r == match self.client_ping() {
                Some(p) => Some(p.0 / 2),
                None => match self.server_ping() {
                    Some(s) => Some(s / 2),
                    None => None,
                },
            },
    {
        match &self.client_ping_interval_and_msg {
            Some(p) => Some(p.0 / 2),
            None => match self.server_ping_interval {
                Some(s) => Some(s / 2),
                None => None,
            },
        }
    }

    /// The pause after each command, in milliseconds: Binance and Kucoin take at most
    /// ten commands a second.
    pub fn send_interval_ms(&self) -> (r: Option<u64>)
        ensures
            r == (if self.exchange_name() == "binance"@ || self.exchange_name() == "kucoin"@ {
                Some(100u64)
            } else {
                None
            }),
    {
        if str_eq(self.exchange.as_str(), "binance") || str_eq(self.exchange.as_str(), "kucoin") {
            Some(100)
        } else {
            None
        }
    }

    fn index_of(&self, ch: &str) -> (r: Option<usize>)
        ensures
            match r {
                Some(i) => i < self.channels@.len() && self.channels@[i as int]@ == ch@,
                None => !self.channel_set().contains(ch@),
            },
    {
        let mut i: usize = 0;
        while i < self.channels.len()
            invariant
                i <= self.channels@.len(),
                forall|j: int| 0 <= j < i ==> self.channels@[j]@ != ch@,
            decreases self.channels@.len() - i,
        {
            if str_eq(self.channels[i].as_str(), ch) {
                return Some(i);
            }
            i += 1;
        }
        proof {
            if self.channel_set().contains(ch@) {
                let k = choose|k: int| 0 <= k < views(self.channels@).len() && views(self.channels@)[k] == ch@;
                assert(self.channels@[k]@ == ch@);
            }
        }
        None
    }

    /// Adds the channels not subscribed yet and returns them, each once, in order: the
    /// channels to send subscribe commands for.
    pub fn subscribe(&mut self, channels: &Vec<String>) -> (r: Vec<String>)
        requires
            old(self).wf(),
        ensures
            final(self).wf(),
            views(r@) == fresh(old(self).channel_set(), views(channels@)),
            final(self).channel_set() == old(self).channel_set().union(views(channels@).to_set()),
            final(self).client_ping() == old(self).client_ping(),
            final(self).server_ping() == old(self).server_ping(),
            final(self).unanswered_pings() == old(self).unanswered_pings(),
            final(self).read_timeouts() == old(self).read_timeouts(),
            final(self).stopped() == old(self).stopped(),
            final(self).exchange_name() == old(self).exchange_name(),
    {
        let ghost chs = views(channels@);
        let ghost seen0 = self.channel_set();
        let mut diff: Vec<String> = Vec::new();
        let mut i: usize = 0;
        assert(chs.subrange(0, chs.len() as int) =~= chs);
        assert(views(diff@) =~= Seq::<Seq<char>>::empty());
        assert(seen0.union(chs.subrange(0, 0).to_set()) =~= seen0);
        while i < channels.len()
            invariant
                self.wf(),
                chs == views(channels@),
                i <= chs.len(),
                views(diff@) + fresh(self.channel_set(), chs.subrange(i as int, chs.len() as int))
                    == fresh(seen0, chs),
                self.channel_set() == seen0.union(chs.subrange(0, i as int).to_set()),
                self.client_ping() == old(self).client_ping(),
                self.server_ping() == old(self).server_ping(),
                self.unanswered_pings() == old(self).unanswered_pings(),
                self.read_timeouts() == old(self).read_timeouts(),
                self.stopped() == old(self).stopped(),
                self.exchange_name() == old(self).exchange_name(),
            decreases chs.len() - i,
        {
            let ghost rest = chs.subrange(i as int, chs.len() as int);
            assert(rest.drop_first() =~= chs.subrange(i + 1, chs.len() as int));
            assert(rest[0] == chs[i as int]);
            assert(chs.subrange(0, i + 1).to_set() =~= chs.subrange(0, i as int).to_set().insert(chs[i as int])) by {
                assert(chs.subrange(0, i + 1) =~= chs.subrange(0, i as int).push(chs[i as int]));
                chs.subrange(0, i as int).lemma_push_to_set_commute(chs[i as int]);
            }
            let ch = &channels[i];
            let found = self.index_of(ch.as_str());
            if found.is_none() {
                let ghost before = self.channels@;
                self.channels.push(ch.clone());
                assert(views(self.channels@) =~= views(before).push(ch@));
                proof {
                    views(before).lemma_push_to_set_commute(ch@);
                }
                let ghost dbefore = diff@;
                diff.push(ch.clone());
                assert(views(diff@) =~= views(dbefore).push(ch@));
                assert(views(diff@) + fresh(self.channel_set(), chs.subrange(i + 1, chs.len() as int))
                    =~= views(dbefore) + fresh(seen0.union(chs.subrange(0, i as int).to_set()), rest));
                assert(self.channel_set() =~= seen0.union(chs.subrange(0, i + 1).to_set()));
            } else {
                let k = found.unwrap();
                assert(views(self.channels@)[k as int] == ch@);
                assert(self.channel_set().contains(ch@));
                assert(self.channel_set() =~= seen0.union(chs.subrange(0, i + 1).to_set()));
            }
            i += 1;
        }
        assert(chs.subrange(i as int, chs.len() as int).len() == 0);
        assert(chs.subrange(0, i as int) =~= chs);
        assert(views(diff@) + Seq::<Seq<char>>::empty() =~= views(diff@));
        diff
    }

    /// Removes the channels subscribed now and returns them, each once, in order: the
    /// channels to send unsubscribe commands for.
    pub fn unsubscribe(&mut self, channels: &Vec<String>) -> (r: Vec<String>)
        requires
            old(self).wf(),
        ensures
            final(self).wf(),
            views(r@) == stale(old(self).channel_set(), views(channels@)),
            final(self).channel_set() == old(self).channel_set().difference(views(channels@).to_set()),
            final(self).client_ping() == old(self).client_ping(),
            final(self).server_ping() == old(self).server_ping(),
            final(self).unanswered_pings() == old(self).unanswered_pings(),
            final(self).read_timeouts() == old(self).read_timeouts(),
            final(self).stopped() == old(self).stopped(),
            final(self).exchange_name() == old(self).exchange_name(),
    {
        let ghost chs = views(channels@);
        let ghost set0 = self.channel_set();
        let mut diff: Vec<String> = Vec::new();
        let mut i: usize = 0;
        assert(chs.subrange(0, chs.len() as int) =~= chs);
        assert(views(diff@) =~= Seq::<Seq<char>>::empty());
        assert(set0.difference(chs.subrange(0, 0).to_set()) =~= set0);
        while i < channels.len()
            invariant
                self.wf(),
                chs == views(channels@),
                i <= chs.len(),
                views(diff@) + stale(self.channel_set(), chs.subrange(i as int, chs.len() as int))
                    == stale(set0, chs),
                self.channel_set() == set0.difference(chs.subrange(0, i as int).to_set()),
                self.client_ping() == old(self).client_ping(),
                self.server_ping() == old(self).server_ping(),
                self.unanswered_pings() == old(self).unanswered_pings(),
                self.read_timeouts() == old(self).read_timeouts(),
                self.stopped() == old(self).stopped(),
                self.exchange_name() == old(self).exchange_name(),
            decreases chs.len() - i,
        {
            let ghost rest = chs.subrange(i as int, chs.len() as int);
            assert(rest.drop_first() =~= chs.subrange(i + 1, chs.len() as int));
            assert(rest[0] == chs[i as int]);
            assert(chs.subrange(0, i + 1).to_set() =~= chs.subrange(0, i as int).to_set().insert(chs[i as int])) by {
                assert(chs.subrange(0, i + 1) =~= chs.subrange(0, i as int).push(chs[i as int]));
                chs.subrange(0, i as int).lemma_push_to_set_commute(chs[i as int]);
            }
            let ch = &channels[i];
            match self.index_of(ch.as_str()) {
                Some(k) => {
                    let ghost before = views(self.channels@);
                    assert(before[k as int] == ch@);
                    assert(before.to_set().contains(ch@));
                    let removed = self.channels.remove(k);
                    proof {
                        assert(views(self.channels@) =~= before.remove(k as int));
                        assert(views(self.channels@).no_duplicates()) by {
                            assert forall|a: int, b: int|
                                0 <= a < b < views(self.channels@).len() implies views(self.channels@)[a]
                                != views(self.channels@)[b] by {
                                let a0 = if a < k { a } else { a + 1 };
                                let b0 = if b < k { b } else { b + 1 };
                                assert(views(self.channels@)[a] == before[a0]);
                                assert(views(self.channels@)[b] == before[b0]);
                            }
                        }
                        assert(views(self.channels@).to_set() =~= before.to_set().remove(ch@)) by {
                            assert forall|x: Seq<char>| views(self.channels@).to_set().contains(x)
                                <==> before.to_set().remove(ch@).contains(x) by {
                                if views(self.channels@).to_set().contains(x) {
                                    let j = choose|j: int| 0 <= j < views(self.channels@).len() && views(self.channels@)[j] == x;
                                    let j0 = if j < k { j } else { j + 1 };
                                    assert(before[j0] == x);
                                    assert(j0 != k);
                                    assert(before[j0] != before[k as int]);
                                }
                                if before.to_set().remove(ch@).contains(x) {
                                    let j0 = choose|j: int| 0 <= j < before.len() && before[j] == x;
                                    assert(j0 != k);
                                    let j = if j0 < k { j0 } else { j0 - 1 };
                                    assert(views(self.channels@)[j] == x);
                                }
                            }
                        }
                    }
                    let ghost dbefore = diff@;
                    diff.push(removed);
                    assert(views(diff@) =~= views(dbefore).push(ch@));
                    assert(views(diff@) + stale(self.channel_set(), chs.subrange(i + 1, chs.len() as int))
                        =~= views(dbefore) + stale(set0.difference(chs.subrange(0, i as int).to_set()), rest));
                    assert(self.channel_set() =~= set0.difference(chs.subrange(0, i + 1).to_set()));
                },
                None => {
                    assert(self.channel_set() =~= set0.difference(chs.subrange(0, i + 1).to_set()));
                },
            }
            i += 1;
        }
        assert(chs.subrange(i as int, chs.len() as int).len() == 0);
        assert(chs.subrange(0, i as int) =~= chs);
        assert(views(diff@) + Seq::<Seq<char>>::empty() =~= views(diff@));
        diff
    }

    /// The number of timed-out reads after this read.
    pub open spec fn timeouts_after(&self, i: Incoming) -> u64 {
        if is_frame(i) {
            0
        } else if i is WouldBlock {
            saturating_inc(self.read_timeouts())
        } else {
            self.read_timeouts()
        }
    }

    /// The number of unanswered pings after this read, before any new ping.
    pub open spec fn unanswered_after(&self, i: Incoming) -> u64 {
        if answers_ping(i) {
            0
        } else {
            self.unanswered_pings()
        }
    }

    /// The liveness check fails: more than five pings unanswered (client pings), or more
    /// than five reads in a row timed out (server pings).
    pub open spec fn liveness_lost(&self, i: Incoming) -> bool {
        if self.client_ping() is Some {
            self.unanswered_after(i) > 5
        } else {
            self.timeouts_after(i) > 5
        }
    }

    /// A ping is due: the client pings, and half its interval has passed since the last.
    pub open spec fn ping_due(&self, i: Incoming, now_ms: u64) -> bool {
        match self.client_ping() {
            Some(p) => !is_fatal(i) && !self.liveness_lost(i) && elapsed_ms(self.last_ping_at(), now_ms)
                >= (p.0 / 2) * 1000,
            None => false,
        }
    }

    /// Starts the clock of a run at `now_ms`.
    pub fn start(&mut self, now_ms: u64)
        requires
            old(self).wf(),
        ensures
            final(self).wf(),
            final(self).started_at() == now_ms,
            final(self).last_ping_at() == now_ms,
            final(self).channel_set() == old(self).channel_set(),
            final(self).client_ping() == old(self).client_ping(),
            final(self).server_ping() == old(self).server_ping(),
            final(self).unanswered_pings() == old(self).unanswered_pings(),
            final(self).read_timeouts() == 0,
            final(self).stopped() == old(self).stopped(),
            final(self).exchange_name() == old(self).exchange_name(),
    {
        self.start_ms = now_ms;
        self.last_ping_ms = now_ms;
        self.num_read_timeout = 0;
    }

    /// Asks the run loop to stop.
    pub fn close(&mut self)
        requires
            old(self).wf(),
        ensures
            final(self).wf(),
            final(self).stopped(),
            final(self).channel_set() == old(self).channel_set(),
            final(self).client_ping() == old(self).client_ping(),
            final(self).server_ping() == old(self).server_ping(),
            final(self).exchange_name() == old(self).exchange_name(),
    {
        self.should_stop = true;
    }

    pub fn is_stopped(&self) -> (r: bool)
        ensures
            r == self.stopped(),
    {
        self.should_stop
    }

    /// Decides what follows one read at `now_ms`, for a run that lasts at least
    /// `duration` seconds where it is given.
    pub fn step(&mut self, incoming: Incoming, now_ms: u64, duration: Option<u64>) -> (r: Step)
        requires
            old(self).wf(),
        ensures
            final(self).wf(),
            r.forward == forwarded(incoming),
            r.reply == reply_to(incoming),
            r.exit == (is_fatal(incoming) || old(self).liveness_lost(incoming)),
            r.ping.is_some() == old(self).ping_due(incoming, now_ms),
            r.ping matches Some(f) ==> (match old(self).client_ping() {
                Some(p) => if p.1@.len() == 0 {
                    f matches Frame::Ping(v) && v@.len() == 0
                } else {
                    f == Frame::Text(p.1)
                },
                None => false,
            }),
            r.stop == (!r.exit && forwarded(incoming) is Some && match duration {
                Some(d) => elapsed_ms(old(self).started_at(), now_ms) > d * 1000,
                None => false,
            }),
            final(self).unanswered_pings() == (if old(self).ping_due(incoming, now_ms) {
                old(self).unanswered_after(incoming) + 1
            } else {
                old(self).unanswered_after(incoming) as int
            }),
            final(self).last_ping_at() == (if old(self).ping_due(incoming, now_ms) {
                now_ms
            } else {
                old(self).last_ping_at()
            }),
            final(self).read_timeouts() == old(self).timeouts_after(incoming),
            final(self).started_at() == old(self).started_at(),
            final(self).channel_set() == old(self).channel_set(),
            final(self).client_ping() == old(self).client_ping(),
            final(self).server_ping() == old(self).server_ping(),
            final(self).stopped() == old(self).stopped(),
            final(self).exchange_name() == old(self).exchange_name(),
    {
        let ghost i0 = incoming;
        let frame = match &incoming {
            Incoming::Message { .. } | Incoming::Undecodable | Incoming::UnknownBinary
            | Incoming::Ping(_) | Incoming::Pong | Incoming::Close(_) => true,
            _ => false,
        };
        if frame {
            self.num_read_timeout = 0;
        } else if let Incoming::WouldBlock = &incoming {
            if self.num_read_timeout < u64::MAX {
                self.num_read_timeout = self.num_read_timeout + 1;
            }
        }
        let fatal = match &incoming {
            Incoming::Message { class: MiscMessage::Reconnect, .. } => true,
            Incoming::UnknownBinary | Incoming::ConnectionLost | Incoming::Unexpected => true,
            Incoming::Close(Some(code)) => !(*code == 1000 || *code == 1001),
            _ => false,
        };
        let answered = match &incoming {
            Incoming::Pong | Incoming::Message { class: MiscMessage::Pong, .. } => true,
            _ => false,
        };
        if answered {
            self.num_unanswered_ping = 0;
        }
        let (forward, reply) = match incoming {
            Incoming::Message { text, class: MiscMessage::Normal } => (Some(text), None),
            Incoming::Message { class: MiscMessage::WebSocket(f), .. } => (None, Some(f)),
            Incoming::Ping(p) => (None, Some(Frame::Pong(p))),
            _ => (None, None),
        };
        let lost = match &self.client_ping_interval_and_msg {
            Some(_) => self.num_unanswered_ping > 5,
            None => self.num_read_timeout > 5,
        };
        let exit = fatal || lost;
        let mut ping: Option<Frame> = None;
        if !exit {
            if let Some(p) = &self.client_ping_interval_and_msg {
                let elapsed: u64 = if now_ms >= self.last_ping_ms {
                    now_ms - self.last_ping_ms
                } else {
                    0
                };
                if elapsed as u128 >= (p.0 / 2) as u128 * 1000 {
                    ping = Some(
                        if p.1.as_str().unicode_len() == 0 {
                            Frame::Ping(Vec::new())
                        } else {
                            Frame::Text(p.1.clone())
                        },
                    );
                    self.num_unanswered_ping = self.num_unanswered_ping + 1;
                    self.last_ping_ms = now_ms;
                }
            }
        }
        let stop = match duration {
            Some(d) => {
                let elapsed: u64 = if now_ms >= self.start_ms {
                    now_ms - self.start_ms
                } else {
                    0
                };
                !exit && forward.is_some() && elapsed as u128 > d as u128 * 1000
            },
            None => false,
        };
        Step { forward, reply, exit, ping, stop }
    }

    /// Every channel subscribed now, to subscribe again on a new connection.
    pub fn subscribed_channels(&self) -> (r: Vec<String>)
        requires
            self.wf(),
        ensures
            views(r@).to_set() == self.channel_set(),
            views(r@).no_duplicates(),
    {
        let r = crate::text::clone_range(&self.channels, 0, self.channels.len());
        assert(views(self.channels@).subrange(0, self.channels@.len() as int) =~= views(self.channels@));
        r
    }
}

} // verus!
