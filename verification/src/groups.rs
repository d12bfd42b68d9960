//! Participatory group synchronisation: hosts that start the same group
//! converge on the earliest start anyone has announced.
//!
//! There is no leader and no sequence number.  Each member keeps the frame
//! of the group it is in, announces it every [`TIMEOUT_MILLIS`], and adopts
//! any announcement of the same group with a strictly older start.  The
//! decisions are taken here; the worker that owns the sockets and the beat
//! clock carries them out.

use vstd::prelude::*;
use vstd::string::StringSliceAdditionalSpecFns;
use crate::frame::{carries, group_id_from_str, padded_id, Error, GroupFrame};

verus! {

/// Milliseconds between two announcements of the current group.
pub const TIMEOUT_MILLIS: u64 = 50;

/// Requests that the group worker handles.
#[derive(Debug, Clone, Copy, PartialEq, Eq)]
pub enum Action {
    /// Start playing in the group of this frame.  [`Action::start`] makes
    /// it from a name, and makes none from the empty name.
    Start(GroupFrame),
    /// A peer announced this frame; join it if it is an older start of our group.
    Join(GroupFrame),
    /// Leave the current group.
    Stop,
    /// Quit the worker.
    Quit,
}

/// What the worker has to ask of the beat clock after a request.
#[derive(Debug, Clone, Copy, PartialEq, Eq)]
pub enum ClockRequest {
    /// Leave the session as it is.
    Nothing,
    /// Request beat zero at the host time of this ghost time and commit.
    StartAt { ghost_time: i64 },
    /// Shift the beat so that it counts from the host time of this ghost
    /// time, the start of the peer whose frame was adopted, and commit.
    Realign { ghost_time: i64 },
}

/// The decisions taken on one request.
#[derive(Debug, Clone, Copy, PartialEq, Eq)]
pub struct Outcome {
    /// What to ask of the beat clock.
    pub clock: ClockRequest,
    /// The frame to send on every interface now, if one is due.
    pub broadcast: Option<GroupFrame>,
    /// The worker leaves its loop.
    pub quit: bool,
}

/// State of the group synchronisation worker.
#[derive(Debug, Clone, Copy, PartialEq, Eq)]
pub struct Groups {
    /// The group we are in, with the earliest start seen for it.
    pub current: Option<GroupFrame>,
    /// Set while there is a group in which we are playing.
    pub playing: bool,
    /// Time of the last announcement, in milliseconds of the worker's clock.
    pub last_send: u64,
}

/// The announcement `datagram`, as a request for the worker.  Only
/// supported frames make one.
pub open spec fn inbound_request(datagram: Seq<u8>, request: Option<Action>) -> bool {
    match request {
        Some(Action::Join(frame)) => carries(datagram, frame) && frame.supported(),
        Some(_) => false,
        None => datagram.len() < 28 || forall|frame: GroupFrame|
            carries(datagram, frame) ==> !frame.supported(),
    }
}

/// Turn a received datagram into a request for the worker.  Datagrams that
/// are too short, carry another magic or another version are dropped here
/// and never reach the negotiation.
pub fn inbound(datagram: &[u8]) -> (request: Option<Action>)
    ensures
        inbound_request(datagram@, request),
{
    match GroupFrame::decode(datagram) {
        Ok(frame) => {
            proof {
                crate::frame::lemma_encode_decode(datagram@, frame);
            }
            if frame.is_supported() {
                Some(Action::Join(frame))
            } else {
                None
            }
        },
        Err(_) => None,
    }
}

/// Compare two group ids.
pub fn same_group(a: &[u8; 15], b: &[u8; 15]) -> (same: bool)
    ensures
        same == (*a == *b),
{
    let mut i: usize = 0;
    while i < 15
        invariant
            i <= 15,
            forall|k: int| 0 <= k < i ==> a@[k] == b@[k],
        decreases 15 - i,
    {
        if a[i] != b[i] {
            return false;
        }
        i += 1;
    }
    assert(a@ =~= b@);
    assert(*a =~= *b);
    true
}

impl Action {
    /// The request that starts the group `group_id_str` at `ghost_time`.
    /// The empty name names no group: there is nothing to ask of the
    /// network, and the start is a solo start.  A name longer than 15 bytes
    /// is refused.
    pub fn start(group_id_str: &str, ghost_time: i64) -> (r: Result<Option<Action>, Error>)
        ensures
            r is Ok <==> group_id_str.spec_bytes().len() <= 15,
            r is Err ==> r->Err_0 == Error::GroupIdTooLong,
            r is Ok ==> (r->Ok_0 is None <==> group_id_str.spec_bytes().len() == 0),
            r is Ok && r->Ok_0 is Some ==> (r->Ok_0->Some_0 matches Action::Start(frame)
                && frame.supported() && frame.group_id@ == padded_id(group_id_str.spec_bytes())
                && frame.timestamp == ghost_time),
    {
        if group_id_str.as_bytes().len() == 0 {
            return Ok(None);
        }
        match group_id_from_str(group_id_str) {
            Ok(id) => Ok(Some(Action::Start(GroupFrame::new(id, ghost_time)))),
            Err(e) => Err(e),
        }
    }
}

impl Groups {
    /// We are playing exactly while we are in a group.
    pub open spec fn wf(self) -> bool {
        self.playing == (self.current is Some)
    }

    /// A peer's frame is adopted when it announces our group with a
    /// strictly older start.  Equal starts coexist.
    pub open spec fn accepts(self, frame: GroupFrame) -> bool {
        self.current matches Some(cur) && cur.group_id == frame.group_id && frame.timestamp
            < cur.timestamp
    }

    /// The group we are in after `request`.
    pub open spec fn current_after(self, request: Option<Action>) -> Option<GroupFrame> {
        match request {
            Some(Action::Start(frame)) => Some(frame),
            Some(Action::Join(frame)) => if self.accepts(frame) {
                Some(frame)
            } else {
                self.current
            },
            Some(Action::Stop) => None,
            Some(Action::Quit) => self.current,
            None => self.current,
        }
    }

    /// Whether we are playing after `request`.
    pub open spec fn playing_after(self, request: Option<Action>) -> bool {
        match request {
            Some(Action::Start(_)) => true,
            Some(Action::Stop) => false,
            _ => self.playing,
        }
    }

    /// What `request` asks of the beat clock.
    pub open spec fn clock_after(self, request: Option<Action>) -> ClockRequest {
        match request {
            Some(Action::Start(frame)) => ClockRequest::StartAt { ghost_time: frame.timestamp },
            Some(Action::Join(frame)) => if self.accepts(frame) {
                ClockRequest::Realign { ghost_time: frame.timestamp }
            } else {
                ClockRequest::Nothing
            },
            _ => ClockRequest::Nothing,
        }
    }

    /// An announcement is due at `now` once `request` is handled: we are in
    /// a group, the worker goes on, and the last one is 50 ms old.
    pub open spec fn announces(self, request: Option<Action>, now: u64) -> bool {
        &&& !(request matches Some(Action::Quit))
        &&& self.current_after(request) is Some
        &&& now >= self.last_send
        &&& now - self.last_send >= TIMEOUT_MILLIS
    }

    /// The state after `request` was handled at `now`.
    pub open spec fn after(self, request: Option<Action>, now: u64) -> Groups {
        Groups {
            current: self.current_after(request),
            playing: self.playing_after(request),
            last_send: if self.announces(request, now) {
                now
            } else {
                self.last_send
            },
        }
    }

    /// The decisions taken on `request` at `now`.
    pub open spec fn outcome(self, request: Option<Action>, now: u64) -> Outcome {
        Outcome {
            clock: self.clock_after(request),
            broadcast: if self.announces(request, now) {
                self.current_after(request)
            } else {
                None
            },
            quit: request matches Some(Action::Quit),
        }
    }

    /// Check if we are playing.
    pub fn is_playing(&self) -> (playing: bool)
        ensures
            playing == self.playing,
    {
        self.playing
    }

    /// How long the worker may wait for the next request: while we are in a
    /// group it wakes after [`TIMEOUT_MILLIS`] to announce it, otherwise it
    /// waits for a request however long that takes.
    pub fn wait_limit(&self) -> (limit: Option<u64>)
        ensures
            limit == (if self.current is Some {
                Some(TIMEOUT_MILLIS)
            } else {
                None::<u64>
            }),
    {
        if self.current.is_some() {
            Some(TIMEOUT_MILLIS)
        } else {
            None
        }
    }

    /// One turn of the worker: handle `request` (`None` when the wait ran
    /// out) at time `now`, and say what to do about the clock, the network
    /// and the loop.
    pub fn negotiate(&mut self, request: Option<Action>, now: u64) -> (out: Outcome)
        requires
            old(self).wf(),
        ensures
            final(self).wf(),
            *final(self) == old(self).after(request, now),
            out == old(self).outcome(request, now),
    {
        let mut clock = ClockRequest::Nothing;
        let mut quit = false;
        match request {
            Some(Action::Start(frame)) => {
                self.current = Some(frame);
                self.playing = true;
                clock = ClockRequest::StartAt { ghost_time: frame.timestamp };
            },
            Some(Action::Join(frame)) => {
                if let Some(cur) = self.current {
                    if same_group(&cur.group_id, &frame.group_id) && cur.timestamp
                        > frame.timestamp {
                        self.current = Some(frame);
                        clock = ClockRequest::Realign { ghost_time: frame.timestamp };
                    }
                }
            },
            Some(Action::Stop) => {
                self.current = None;
                self.playing = false;
            },
            Some(Action::Quit) => {
                quit = true;
            },
            None => {},
        }
        let mut broadcast: Option<GroupFrame> = None;
        if !quit && now >= self.last_send && now - self.last_send >= TIMEOUT_MILLIS {
            if let Some(frame) = self.current {
                broadcast = Some(frame);
                self.last_send = now;
            }
        }
        Outcome { clock, broadcast, quit }
    }

    /// Start or join the group named by the user, at ghost time
    /// `ghost_time`.
    ///
    /// The empty name is a solo start: we leave whatever group we were in,
    /// as on a stop, the clock is asked for beat zero at `ghost_time`, and
    /// no frame is sent, now or later.  A name that is too long is refused
    /// with the state untouched.
    pub fn start(&mut self, group_id_str: &str, ghost_time: i64, now: u64) -> (r: Result<
        Outcome,
        Error,
    >)
        requires
            old(self).wf(),
        ensures
            final(self).wf(),
            r is Ok <==> group_id_str.spec_bytes().len() <= 15,
            r is Err ==> r->Err_0 == Error::GroupIdTooLong && *final(self) == *old(self),
            group_id_str.spec_bytes().len() == 0 ==> final(self).current is None && !final(self).playing && *final(self) == old(self).after(Some(Action::Stop), now) && r == Ok::<
                Outcome,
                Error,
            >(
                Outcome {
                    clock: ClockRequest::StartAt { ghost_time },
                    broadcast: None,
                    quit: false,
                },
            ),
            0 < group_id_str.spec_bytes().len() <= 15 ==> (final(self).current matches Some(frame)
                && frame.supported() && frame.group_id@ == padded_id(group_id_str.spec_bytes())
                && frame.timestamp == ghost_time && *final(self) == old(self).after(
                Some(Action::Start(frame)),
                now,
            ) && r == Ok::<Outcome, Error>(old(self).outcome(Some(Action::Start(frame)), now))),
    {
        match Action::start(group_id_str, ghost_time) {
            Ok(Some(action)) => Ok(self.negotiate(Some(action), now)),
            Ok(None) => {
                self.negotiate(Some(Action::Stop), now);
                Ok(
                    Outcome {
                        clock: ClockRequest::StartAt { ghost_time },
                        broadcast: None,
                        quit: false,
                    },
                )
            },
            Err(e) => Err(e),
        }
    }

    /// Stop performing in the current group.
    pub fn stop(&mut self, now: u64) -> (out: Outcome)
        requires
            old(self).wf(),
        ensures
            final(self).wf(),
            final(self).current is None,
            !final(self).playing,
            *final(self) == old(self).after(Some(Action::Stop), now),
            out == old(self).outcome(Some(Action::Stop), now),
            out.broadcast is None,
    {
        self.negotiate(Some(Action::Stop), now)
    }

    /// Stop the synchronisation worker; used in graceful shutdown.  The
    /// state stays as it is and nothing is announced any more.
    pub fn shutdown(&mut self, now: u64) -> (out: Outcome)
        requires
            old(self).wf(),
        ensures
            *final(self) == *old(self),
            out.quit,
            out.broadcast is None,
            out.clock == ClockRequest::Nothing,
    {
        self.negotiate(Some(Action::Quit), now)
    }
}

/// Create the state of a worker that starts at `now`: in no group, not
/// playing.
pub fn listen(now: u64) -> (groups: Groups)
    ensures
        groups.wf(),
        groups == (Groups { current: None, playing: false, last_send: now }),
{
    Groups { current: None, playing: false, last_send: now }
}

/// The playing flag rises only on a start and falls only on a stop.
pub proof fn lemma_playing_changes(groups: Groups, request: Option<Action>, now: u64)
    ensures
        !groups.playing && groups.after(request, now).playing ==> (request matches Some(
            Action::Start(_),
        )),
        groups.playing && !groups.after(request, now).playing ==> (request matches Some(
            Action::Stop,
        )),
{
}

/// A peer's frame replaces the current one only if it announces the same
/// group with a strictly older start.
pub proof fn lemma_join_adopts_older(groups: Groups, frame: GroupFrame, now: u64)
    requires
        groups.after(Some(Action::Join(frame)), now).current != groups.current,
    ensures
        groups.current is Some,
        frame.timestamp < groups.current->Some_0.timestamp,
        frame.group_id == groups.current->Some_0.group_id,
        groups.after(Some(Action::Join(frame)), now).current == Some(frame),
{
}

/// Announcements from peers never make the start of our group later, and
/// never move us to another group.
pub proof fn lemma_earliest_wins(groups: Groups, frame: GroupFrame, now: u64)
    requires
        groups.current is Some,
    ensures
        groups.after(Some(Action::Join(frame)), now).current matches Some(next)
            && next.group_id == groups.current->Some_0.group_id && next.timestamp
            <= groups.current->Some_0.timestamp && (next.timestamp == if frame.group_id
            == groups.current->Some_0.group_id && frame.timestamp
            < groups.current->Some_0.timestamp {
            frame.timestamp
        } else {
            groups.current->Some_0.timestamp
        }),
{
}

/// Two members of a group that hear each other's announcement agree
/// afterwards: both hold the earlier of the two starts.
pub proof fn lemma_peers_converge(a: Groups, b: Groups, now_a: u64, now_b: u64)
    requires
        a.current is Some,
        b.current is Some,
        a.current->Some_0.group_id == b.current->Some_0.group_id,
    ensures
        ({
            let (ta, tb) = (a.current->Some_0.timestamp, b.current->Some_0.timestamp);
            let earlier = if ta <= tb {
                ta
            } else {
                tb
            };
            let a_next = a.after(Some(Action::Join(b.current->Some_0)), now_a).current;
            let b_next = b.after(Some(Action::Join(a.current->Some_0)), now_b).current;
            &&& a_next is Some && a_next->Some_0.timestamp == earlier
            &&& b_next is Some && b_next->Some_0.timestamp == earlier
            &&& a_next->Some_0.group_id == b_next->Some_0.group_id
        }),
{
}

/// A solo start leaves the network alone for good: after it, no request
/// but a start of a named group makes the worker announce anything.
pub proof fn lemma_solo_start_is_silent(groups: Groups, now: u64, request: Option<Action>, later: u64)
    requires
        !(request matches Some(Action::Start(_))),
    ensures
        groups.after(Some(Action::Stop), now).current is None,
        groups.after(Some(Action::Stop), now).outcome(request, later).broadcast is None,
{
}

/// Outside a group nothing is announced: only a start brings a frame onto
/// the network, so a playback that starts alone never sends one.
pub proof fn lemma_silent_outside_group(groups: Groups, request: Option<Action>, now: u64)
    requires
        groups.current is None,
        !(request matches Some(Action::Start(_))),
    ensures
        groups.outcome(request, now).broadcast is None,
        groups.after(request, now).current is None,
{
}

/// Whatever a datagram holds, the request made of it is a join of a
/// supported frame or none at all.
pub proof fn lemma_unsupported_never_forwarded(datagram: Seq<u8>, request: Option<Action>)
    requires
        inbound_request(datagram, request),
        request is Some,
    ensures
        request->Some_0 matches Action::Join(frame) && frame.magic@ == crate::frame::magic_bytes()
            && frame.version == 1,
{
}

} // verus!
