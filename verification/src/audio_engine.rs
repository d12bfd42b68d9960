//! The engine that executes blocks.
//!
//! One worker takes requests from a queue of depth one.  Whatever the
//! request is, the playback that is still in flight is interrupted and
//! joined first; only then is a new one spawned.  Requests are rare and paced
//! by a human, so a sender that finds the queue full is told so and may try
//! again.
//!
//! The worker owns threads and ports; here is what it decides: what a
//! request does to the queue, what a turn of the worker does, and what a
//! block asks the playback to do.

use vstd::prelude::*;
use vstd::utf8::encode_utf8;
use crate::block::{Block, Content, MidiSource};
use crate::frame::{group_id_from_str, padded_id};
use crate::playback::PlayError;

verus! {

/// Requests that the worker can receive.
#[derive(Debug, Clone, PartialEq, Eq)]
pub enum Request {
    /// Stop playing and quit the worker.
    Quit,
    /// Stop playing and wait for more requests.
    Interrupt,
    /// Stop the previous block and start playing the block with this identifier.
    Play(String),
}

/// Why a request was not queued.
#[derive(Debug, Clone, Copy, PartialEq, Eq)]
pub enum SendError {
    /// The queue holds a request that the worker has not taken yet.
    Full,
    /// The worker has quit.
    Closed,
}

/// What the worker does in one turn, in this order.
#[derive(Debug, Clone, PartialEq, Eq)]
pub struct Turn {
    /// Set the interrupt flag of the playback in flight, wake it, and wait
    /// until it has finished.
    pub join_previous: bool,
    /// Spawn a playback of the block with this identifier, bound to a fresh
    /// interrupt pair.
    pub spawn: Option<String>,
    /// Leave the worker loop.
    pub quit: bool,
}

/// State of the audio engine: its queue and its worker.
#[derive(Debug, Clone, PartialEq, Eq)]
pub struct AudioEngine {
    /// The request that waits for the worker.
    pub pending: Option<Request>,
    /// A playback was spawned and has not been joined.
    pub in_flight: bool,
    /// The worker has quit.
    pub stopped: bool,
}

/// How a playback starts its beat.
#[derive(Debug, Clone, Copy, PartialEq, Eq)]
pub enum StartMode {
    /// Alone: request beat zero now and commit.  No frame is ever sent.
    Solo,
    /// In the group with this id: ask the group worker to start it and wait
    /// for its acknowledgement.
    Group([u8; 15]),
}

/// What a playback task has to play.
#[derive(Debug, Clone, PartialEq, Eq)]
pub enum Job {
    /// Play a MIDI file on its port.
    Midi { source: MidiSource, start: StartMode },
    /// Publish the beat into the shared memory region at `path`.
    SharedMemory { path: String, start: StartMode },
}

/// The start mode of a group label: solo for the empty label, the group
/// otherwise.
pub open spec fn start_mode_of(label: Seq<u8>, mode: StartMode) -> bool {
    match mode {
        StartMode::Solo => label.len() == 0,
        StartMode::Group(id) => 0 < label.len() <= 15 && id@ == padded_id(label),
    }
}

/// Number of playbacks alive after a turn that began with `before` of them:
/// the join ends the one in flight, the spawn adds one.
pub open spec fn instances_after(before: int, turn: Turn) -> int {
    (if turn.join_previous {
        0
    } else {
        before
    }) + (if turn.spawn is Some {
        1int
    } else {
        0int
    })
}

impl AudioEngine {
    /// Number of playbacks alive.
    pub open spec fn instances(self) -> int {
        if self.in_flight {
            1
        } else {
            0
        }
    }

    /// The state once `request` was sent.
    pub open spec fn sent(self, request: Request) -> Result<AudioEngine, SendError> {
        if self.stopped {
            Err(SendError::Closed)
        } else if self.pending is Some {
            Err(SendError::Full)
        } else {
            Ok(AudioEngine { pending: Some(request), ..self })
        }
    }

    /// The turn that the worker takes on `request`.
    pub open spec fn turn_on(self, request: Request) -> Turn {
        Turn {
            join_previous: self.in_flight,
            spawn: match request {
                Request::Play(uuid) => Some(uuid),
                _ => None,
            },
            quit: request is Quit,
        }
    }

    /// The state after the worker's turn on `request`.
    pub open spec fn turned(self, request: Request) -> AudioEngine {
        AudioEngine { pending: None, in_flight: request is Play, stopped: request is Quit }
    }

    /// Put `request` into the queue.
    pub fn send(&mut self, request: Request) -> (r: Result<(), SendError>)
        ensures
            match old(self).sent(request) {
                Ok(engine) => r is Ok && *final(self) == engine,
                Err(e) => r == Err::<(), SendError>(e) && *final(self) == *old(self),
            },
    {
        if self.stopped {
            Err(SendError::Closed)
        } else if self.pending.is_some() {
            Err(SendError::Full)
        } else {
            self.pending = Some(request);
            Ok(())
        }
    }

    /// One turn of the worker: take the pending request, if there is one,
    /// and decide what to do.  `None` while the queue is empty or once the
    /// worker has quit.
    pub fn next_turn(&mut self) -> (turn: Option<Turn>)
        ensures
            match old(self).pending {
                Some(request) if !old(self).stopped => turn == Some(old(self).turn_on(request))
                    && *final(self) == old(self).turned(request),
                _ => turn is None && *final(self) == *old(self),
            },
    {
        if self.stopped {
            return None;
        }
        match self.pending.take() {
            None => None,
            Some(request) => {
                let join_previous = self.in_flight;
                self.in_flight = false;
                match request {
                    Request::Play(uuid) => {
                        self.in_flight = true;
                        Some(Turn { join_previous, spawn: Some(uuid), quit: false })
                    },
                    Request::Interrupt => Some(Turn { join_previous, spawn: None, quit: false }),
                    Request::Quit => {
                        self.stopped = true;
                        Some(Turn { join_previous, spawn: None, quit: true })
                    },
                }
            },
        }
    }
}

impl Default for AudioEngine {
    /// An engine with an empty queue and nothing in flight.
    fn default() -> (engine: Self)
        ensures
            engine == (AudioEngine { pending: None, in_flight: false, stopped: false }),
    {
        AudioEngine { pending: None, in_flight: false, stopped: false }
    }
}

/// Send the quit request to the worker.  On success the caller waits for
/// the worker to end.
pub fn quit(engine: &mut AudioEngine) -> (r: Result<(), SendError>)
    ensures
        match old(engine).sent(Request::Quit) {
            Ok(next) => r is Ok && *final(engine) == next,
            Err(e) => r == Err::<(), SendError>(e) && *final(engine) == *old(engine),
        },
{
    engine.send(Request::Quit)
}

/// Send the interrupt request to the worker.
pub fn interrupt(engine: &mut AudioEngine) -> (r: Result<(), SendError>)
    ensures
        match old(engine).sent(Request::Interrupt) {
            Ok(next) => r is Ok && *final(engine) == next,
            Err(e) => r == Err::<(), SendError>(e) && *final(engine) == *old(engine),
        },
{
    engine.send(Request::Interrupt)
}

/// Send the request to play the block with identifier `uuid`.
pub fn play(engine: &mut AudioEngine, uuid: &str) -> (r: Result<(), SendError>)
    ensures
        r is Ok <==> !old(engine).stopped && old(engine).pending is None,
        r is Ok ==> (final(engine).pending matches Some(Request::Play(id)) && id@ == uuid@)
            && final(engine).in_flight == old(engine).in_flight && !final(engine).stopped,
        r is Err ==> *final(engine) == *old(engine) && r->Err_0 == (if old(engine).stopped {
            SendError::Closed
        } else {
            SendError::Full
        }),
{
    engine.send(Request::Play(uuid.to_owned()))
}

/// How the playback of a block with group label `group` starts.
pub fn start_mode(group: &str) -> (r: Result<StartMode, PlayError>)
    ensures
        r is Ok <==> encode_utf8(group@).len() <= 15,
        r is Ok ==> start_mode_of(encode_utf8(group@), r->Ok_0),
        r is Err ==> r->Err_0 == PlayError::GroupIdTooLong,
{
    if group.as_bytes().len() == 0 {
        return Ok(StartMode::Solo);
    }
    match group_id_from_str(group) {
        Ok(id) => Ok(StartMode::Group(id)),
        Err(_) => Err(PlayError::GroupIdTooLong),
    }
}

/// Turn the block found for a play request into the job of the playback
/// task.  A missing block fails the request; so does a group label that
/// does not fit a frame.
pub fn audio_engine_main(block: Option<Block>) -> (r: Result<Job, PlayError>)
    ensures
        match block {
            None => r == Err::<Job, PlayError>(PlayError::BlockNotFound),
            Some(b) => if encode_utf8(b.group@).len() > 15 {
                r == Err::<Job, PlayError>(PlayError::GroupIdTooLong)
            } else {
                match b.content {
                    Content::Midi(midi) => r matches Ok(Job::Midi { source, start }) && source
                        == midi && start_mode_of(encode_utf8(b.group@), start),
                    Content::SharedMemory { path } => r matches Ok(
                        Job::SharedMemory { path: p, start },
                    ) && p == path && start_mode_of(encode_utf8(b.group@), start),
                }
            },
        },
{
    let block = match block {
        Some(block) => block,
        None => {
            return Err(PlayError::BlockNotFound);
        },
    };
    let start = match start_mode(block.group.as_str()) {
        Ok(start) => start,
        Err(e) => {
            return Err(e);
        },
    };
    match block.content {
        Content::Midi(source) => Ok(Job::Midi { source, start }),
        Content::SharedMemory { path } => Ok(Job::SharedMemory { path, start }),
    }
}

/// At most one playback is alive at any time: the worker joins the one in
/// flight before it spawns the next.
pub proof fn lemma_at_most_one_playback(engine: AudioEngine, request: Request)
    ensures
        engine.turn_on(request).spawn is Some && engine.in_flight ==> engine.turn_on(
            request,
        ).join_previous,
        instances_after(engine.instances(), engine.turn_on(request)) == engine.turned(
            request,
        ).instances(),
        engine.turned(request).instances() <= 1,
{
}

/// The engine after the worker took these requests one by one, starting
/// with nothing in flight.
pub open spec fn engine_after(requests: Seq<Request>) -> AudioEngine
    decreases requests.len(),
{
    if requests.len() == 0 {
        AudioEngine { pending: None, in_flight: false, stopped: false }
    } else {
        engine_after(requests.drop_last()).turned(requests.last())
    }
}

/// Playbacks alive after the worker took these requests one by one and did,
/// in each turn, the join and the spawn that the turn names.
pub open spec fn alive_after(requests: Seq<Request>) -> int
    decreases requests.len(),
{
    if requests.len() == 0 {
        0
    } else {
        instances_after(
            alive_after(requests.drop_last()),
            engine_after(requests.drop_last()).turn_on(requests.last()),
        )
    }
}

/// Whatever requests arrive in whatever order, no more than one playback
/// is ever alive, and the engine knows whether one is.
pub proof fn lemma_never_two_playbacks(requests: Seq<Request>)
    ensures
        alive_after(requests) == engine_after(requests).instances(),
        0 <= alive_after(requests) <= 1,
    decreases requests.len(),
{
    if requests.len() > 0 {
        lemma_never_two_playbacks(requests.drop_last());
        lemma_at_most_one_playback(engine_after(requests.drop_last()), requests.last());
    }
}

/// A queued request fills the queue: it is the pending one, and the next
/// sender finds the queue full.
pub proof fn lemma_queue_in_order(engine: AudioEngine, request: Request)
    requires
        engine.sent(request) is Ok,
    ensures
        engine.sent(request)->Ok_0.pending == Some(request),
        engine.sent(request)->Ok_0.sent(request) == Err::<AudioEngine, SendError>(SendError::Full),
{
}

} // verus!
