//! The session-lifecycle state machine driving WebRTC negotiation.
//!
//! One negotiation attempt is one `Session`, a handle with a fresh
//! identifier and a phase running `Idle → Announced → Negotiating →
//! DataChannelOpen`, with `Ended` on failure.  The machine owns no I/O:
//! each inbound event is a method that moves the phase and returns the
//! actions its surroundings must perform — send a message, ask the
//! engine for an offer, apply a remote description, create the data
//! channel, or tear the engine session down.  A transport reconnect is
//! the sole recovery path: it invalidates the old handle before minting
//! a new one, emits exactly one engine teardown and one re-announcement,
//! and events bearing a dead handle's phase are ignored rather than
//! replayed.

use vstd::prelude::*;

verus! {

use crate::errors::ProtocolError;
use crate::messages::AnswerStatus;
use crate::messages::IceCandidateInit;
use crate::messages::JoinerRole;
use crate::messages::SessionDescription;

/// Phase of one negotiation attempt.
#[derive(Clone, Copy, Debug, PartialEq, Eq, Structural)]
pub enum SessionPhase {
    Announced,
    Negotiating,
    DataChannelOpen,
    Ended,
}

/// Handle of one negotiation attempt.  The identifier distinguishes it
/// from every earlier, invalidated attempt.
#[derive(Clone, Copy, Debug, PartialEq, Eq, Structural)]
pub struct Session {
    pub id: u64,
    pub phase: SessionPhase,
}

/// What a machine announces when its transport comes up: the socket
/// backend joins with a role, the stream backend pushes a room name.
#[derive(Debug)]
pub enum Announcement {
    Join(JoinerRole),
    PushRoom(String),
}

/// The data channel's required configuration: ordered delivery, a
/// retransmission cap of two, high priority.
#[derive(Clone, Copy, Debug, PartialEq, Eq, Structural)]
pub struct DataChannelConfig {
    pub ordered: bool,
    pub max_retransmits: u32,
    pub high_priority: bool,
}

/// The one configuration every created channel must have.
pub open spec fn spec_channel_config() -> DataChannelConfig {
    DataChannelConfig { ordered: true, max_retransmits: 2, high_priority: true }
}

/// What the machine asks its surroundings to do, in order.
#[derive(Debug)]
pub enum SignalAction {
    /// Send the announcement over the transport.
    SendAnnounce(Announcement),
    /// Ask the local engine to generate an offer.
    RequestLocalDescription,
    /// Apply a remote description to the engine.
    ApplyRemoteDescription(SessionDescription),
    /// Apply one trickled remote candidate to the engine.
    ApplyRemoteCandidate(IceCandidateInit),
    /// Forward a local description over the transport.
    SendSdp(SessionDescription),
    /// Forward one local candidate over the transport.
    SendIce(IceCandidateInit),
    /// Create the data channel with the required configuration.
    CreateDataChannel(DataChannelConfig),
    /// Tear down the engine's session.
    EndEngineSession,
    /// Surface a terminal failure to the process owner.
    ReportFailure(ProtocolError),
}

/// The announcement as the model sees it.
pub enum AnnouncementModel {
    Join(JoinerRole),
    PushRoom(Seq<char>),
}

/// What an announcement denotes.
pub open spec fn announcement_model(a: Announcement) -> AnnouncementModel {
    match a {
        Announcement::Join(role) => AnnouncementModel::Join(role),
        Announcement::PushRoom(room) => AnnouncementModel::PushRoom(room@),
    }
}

/// The machine's abstract state.
pub struct MachineModel {
    pub announcement: Option<AnnouncementModel>,
    pub session: Option<Session>,
    /// Identifier the next minted session will carry.
    pub next_id: u64,
    /// Engine teardowns emitted so far.
    pub sessions_ended: int,
    /// Announcements sent so far.
    pub announces: int,
    /// Externally shut down; nothing is sent any more.
    pub down: bool,
}

impl MachineModel {
    /// Sanity of a reachable state: a session exists only once an
    /// announcement is configured, and its identifier was minted.
    pub open spec fn wf(self) -> bool {
        match self.session {
            Option::Some(s) => self.announcement is Some && s.id < self.next_id,
            Option::None => true,
        }
    }
}

/// What one reconnect notification does: a dead machine, or one that
/// never started, ignores it; otherwise the old session is invalidated,
/// exactly one engine teardown and one re-announcement are emitted, and
/// a fresh handle is minted.
pub open spec fn spec_reconnect(m: MachineModel) -> MachineModel {
    if m.down || m.session is None {
        m
    } else {
        MachineModel {
            session: Option::Some(Session { id: m.next_id, phase: SessionPhase::Announced }),
            next_id: (m.next_id + 1) as u64,
            sessions_ended: m.sessions_ended + 1,
            announces: m.announces + 1,
            ..m
        }
    }
}

/// `n` reconnect notifications in sequence.
pub open spec fn spec_reconnect_n(m: MachineModel, n: nat) -> MachineModel
    decreases n,
{
    if n == 0 {
        m
    } else {
        spec_reconnect(spec_reconnect_n(m, (n - 1) as nat))
    }
}

/// At most one live session: across any run of reconnect notifications,
/// each notification yields exactly one engine teardown and exactly one
/// re-announcement, the machine holds one session handle at a time, and
/// that handle is always the newest ever minted — every older one is
/// invalid before a new one exists.
pub proof fn lemma_reconnect_notifications(m: MachineModel, n: nat)
    requires
        m.wf(),
        !m.down,
        m.session is Some,
        m.next_id + n <= u64::MAX,
    ensures
        ({
            let f = spec_reconnect_n(m, n);
            &&& f.sessions_ended == m.sessions_ended + n
            &&& f.announces == m.announces + n
            &&& f.next_id == m.next_id + n
            &&& f.wf()
            &&& !f.down
            &&& f.session is Some
            &&& n > 0 ==> f.session->0 == Session {
                id: (m.next_id + n - 1) as u64,
                phase: SessionPhase::Announced,
            }
        }),
    decreases n,
{
    if n > 0 {
        lemma_reconnect_notifications(m, (n - 1) as nat);
    }
}

/// The signaling state machine.  It decides; its caller performs.
pub struct SignalingMachine {
    announcement: Option<Announcement>,
    session: Option<Session>,
    next_id: u64,
    sessions_ended: u64,
    announces: u64,
    down: bool,
}

fn clone_announcement(a: &Announcement) -> (r: Announcement)
    ensures
        r == *a,
{
    match a {
        Announcement::Join(role) => Announcement::Join(*role),
        Announcement::PushRoom(room) => Announcement::PushRoom(room.clone()),
    }
}

impl SignalingMachine {
    /// The abstract state.
    pub closed spec fn model(self) -> MachineModel {
        MachineModel {
            announcement: match self.announcement {
                Option::Some(a) => Option::Some(announcement_model(a)),
                Option::None => Option::None,
            },
            session: self.session,
            next_id: self.next_id,
            sessions_ended: self.sessions_ended as int,
            announces: self.announces as int,
            down: self.down,
        }
    }

    /// A machine that has not announced anything yet.
    pub fn new() -> (r: Self)
        ensures
            r.model() == (MachineModel {
                announcement: Option::None,
                session: Option::None,
                next_id: 0,
                sessions_ended: 0,
                announces: 0,
                down: false,
            }),
            r.model().wf(),
    {
        SignalingMachine {
            announcement: Option::None,
            session: Option::None,
            next_id: 0,
            sessions_ended: 0,
            announces: 0,
            down: false,
        }
    }

    /// Configure what the machine announces; must happen before the
    /// transport comes up, or `start` refuses to run.
    pub fn set_announcement(&mut self, a: Announcement)
        ensures
            final(self).model() == (MachineModel {
                announcement: Option::Some(announcement_model(a)),
                ..old(self).model()
            }),
    {
        self.announcement = Option::Some(a);
    }

    /// The transport is ready: mint the first session and announce.
    /// Without a configured announcement this is a protocol error — the
    /// session cannot start — and nothing changes.
    pub fn start(&mut self) -> (r: Result<Vec<SignalAction>, ProtocolError>)
        requires
            old(self).model().session is None,
            old(self).model().next_id < u64::MAX,
            old(self).model().announces < u64::MAX,
            old(self).model().wf(),
            !old(self).model().down,
        ensures
            final(self).model().wf(),
            old(self).model().announcement is None ==> r == Err::<Vec<SignalAction>, ProtocolError>(
                ProtocolError::NotConfigured,
            ) && final(self).model() == old(self).model(),
            old(self).model().announcement matches Some(am) ==> (r matches Ok(actions)
                && actions@.len() == 1 && (actions@[0] matches SignalAction::SendAnnounce(a)
                && announcement_model(a) == am) && final(self).model() == (MachineModel {
                session: Option::Some(
                    Session { id: old(self).model().next_id, phase: SessionPhase::Announced },
                ),
                next_id: (old(self).model().next_id + 1) as u64,
                announces: old(self).model().announces + 1,
                ..old(self).model()
            })),
    {
        match &self.announcement {
            Option::None => Err(ProtocolError::NotConfigured),
            Option::Some(a) => {
                let announce = clone_announcement(a);
                self.session = Option::Some(
                    Session { id: self.next_id, phase: SessionPhase::Announced },
                );
                self.next_id = self.next_id + 1;
                self.announces = self.announces + 1;
                let mut actions: Vec<SignalAction> = Vec::new();
                actions.push(SignalAction::SendAnnounce(announce));
                Ok(actions)
            },
        }
    }

    /// The relay answered the announcement.  Only `Accepted` moves the
    /// session into negotiation and asks the engine for an offer; any
    /// other status ends the session with a terminal, non-retried
    /// failure, and no offer is ever requested.  An answer with no
    /// session live — a stray late callback — is ignored.
    pub fn on_answer(&mut self, status: AnswerStatus) -> (r: Vec<SignalAction>)
        requires
            old(self).model().wf(),
        ensures
            final(self).model().wf(),
            final(self).model().announcement == old(self).model().announcement,
            final(self).model().next_id == old(self).model().next_id,
            final(self).model().sessions_ended == old(self).model().sessions_ended,
            final(self).model().announces == old(self).model().announces,
            final(self).model().down == old(self).model().down,
            match old(self).model().session {
                Option::Some(s) => {
                    if s.phase == SessionPhase::Announced && !old(self).model().down {
                        match status {
                            AnswerStatus::Accepted => final(self).model().session == Option::Some(
                                Session { id: s.id, phase: SessionPhase::Negotiating },
                            ) && r@.len() == 1 && r@[0]
                                == SignalAction::RequestLocalDescription,
                            AnswerStatus::Offline => final(self).model().session == Option::Some(
                                Session { id: s.id, phase: SessionPhase::Ended },
                            ) && r@.len() == 1 && r@[0] == SignalAction::ReportFailure(
                                ProtocolError::PeerOffline,
                            ),
                            AnswerStatus::InUse => final(self).model().session == Option::Some(
                                Session { id: s.id, phase: SessionPhase::Ended },
                            ) && r@.len() == 1 && r@[0] == SignalAction::ReportFailure(
                                ProtocolError::RoomInUse,
                            ),
                        }
                    } else {
                        final(self).model().session == old(self).model().session && r@.len() == 0
                    }
                },
                Option::None => final(self).model().session == old(self).model().session && r@.len()
                    == 0,
            },
    {
        let mut actions: Vec<SignalAction> = Vec::new();
        match &self.session {
            Option::Some(s) => {
                if matches!(s.phase, SessionPhase::Announced) && !self.down {
                    let id = s.id;
                    match status {
                        AnswerStatus::Accepted => {
                            self.session = Option::Some(
                                Session { id, phase: SessionPhase::Negotiating },
                            );
                            actions.push(SignalAction::RequestLocalDescription);
                        },
                        AnswerStatus::Offline => {
                            self.session = Option::Some(
                                Session { id, phase: SessionPhase::Ended },
                            );
                            actions.push(
                                SignalAction::ReportFailure(ProtocolError::PeerOffline),
                            );
                        },
                        AnswerStatus::InUse => {
                            self.session = Option::Some(Session { id, phase: SessionPhase::Ended });
                            actions.push(SignalAction::ReportFailure(ProtocolError::RoomInUse));
                        },
                    }
                }
            },
            Option::None => {},
        }
        actions
    }

    /// The stream relay acknowledged the pushed room, which accepts the
    /// announcement exactly as `Answer{ok}` does.
    pub fn on_push_ok(&mut self) -> (r: Vec<SignalAction>)
        requires
            old(self).model().wf(),
        ensures
            final(self).model().wf(),
            final(self).model().announcement == old(self).model().announcement,
            final(self).model().next_id == old(self).model().next_id,
            final(self).model().sessions_ended == old(self).model().sessions_ended,
            final(self).model().announces == old(self).model().announces,
            final(self).model().down == old(self).model().down,
            match old(self).model().session {
                Option::Some(s) => {
                    if s.phase == SessionPhase::Announced && !old(self).model().down {
                        final(self).model().session == Option::Some(
                            Session { id: s.id, phase: SessionPhase::Negotiating },
                        ) && r@.len() == 1 && r@[0] == SignalAction::RequestLocalDescription
                    } else {
                        final(self).model().session == old(self).model().session && r@.len() == 0
                    }
                },
                Option::None => final(self).model().session == old(self).model().session && r@.len()
                    == 0,
            },
    {
        let mut actions: Vec<SignalAction> = Vec::new();
        match &self.session {
            Option::Some(s) => {
                if matches!(s.phase, SessionPhase::Announced) && !self.down {
                    let id = s.id;
                    self.session = Option::Some(Session { id, phase: SessionPhase::Negotiating });
                    actions.push(SignalAction::RequestLocalDescription);
                }
            },
            Option::None => {},
        }
        actions
    }

    /// A remote description arrived.  While negotiating, a description
    /// of kind `answer` completes the remote side and is applied; any
    /// other kind, or any other phase, drops it.
    pub fn on_remote_sdp(&mut self, sdp: SessionDescription) -> (r: Vec<SignalAction>)
        requires
            old(self).model().wf(),
        ensures
            final(self).model().wf(),
            final(self).model() == old(self).model(),
            ({
                let live = old(self).model().session matches Some(s) && s.phase
                    == SessionPhase::Negotiating && !old(self).model().down;
                if live && sdp.sdp_type@ == "answer"@ {
                    r@.len() == 1 && r@[0] == SignalAction::ApplyRemoteDescription(sdp)
                } else {
                    r@.len() == 0
                }
            }),
    {
        let mut actions: Vec<SignalAction> = Vec::new();
        let live = match &self.session {
            Option::Some(s) => matches!(s.phase, SessionPhase::Negotiating) && !self.down,
            Option::None => false,
        };
        if live && crate::json::str_eq(sdp.sdp_type.as_str(), "answer") {
            actions.push(SignalAction::ApplyRemoteDescription(sdp));
        }
        actions
    }

    /// A remote candidate arrived.  Candidates trickle in any order and
    /// any number while a session negotiates or streams; each one is
    /// applied as it arrives.  Outside a live session they are dropped.
    pub fn on_remote_ice(&mut self, candidate: IceCandidateInit) -> (r: Vec<SignalAction>)
        requires
            old(self).model().wf(),
        ensures
            final(self).model().wf(),
            final(self).model() == old(self).model(),
            ({
                let live = old(self).model().session matches Some(s) && (s.phase
                    == SessionPhase::Negotiating || s.phase == SessionPhase::DataChannelOpen)
                    && !old(self).model().down;
                if live {
                    r@.len() == 1 && r@[0] == SignalAction::ApplyRemoteCandidate(candidate)
                } else {
                    r@.len() == 0
                }
            }),
    {
        let mut actions: Vec<SignalAction> = Vec::new();
        let live = match &self.session {
            Option::Some(s) => (matches!(s.phase, SessionPhase::Negotiating) || matches!(
                s.phase,
                SessionPhase::DataChannelOpen,
            )) && !self.down,
            Option::None => false,
        };
        if live {
            actions.push(SignalAction::ApplyRemoteCandidate(candidate));
        }
        actions
    }

    /// The engine produced a local offer: forward it over the transport
    /// as one `sdp` message of kind `offer` — push, not poll.
    pub fn on_local_offer(&mut self, sdp_text: String) -> (r: Vec<SignalAction>)
        requires
            old(self).model().wf(),
        ensures
            final(self).model().wf(),
            final(self).model() == old(self).model(),
            ({
                let live = old(self).model().session matches Some(s) && s.phase
                    == SessionPhase::Negotiating && !old(self).model().down;
                if live {
                    r@.len() == 1 && (r@[0] matches SignalAction::SendSdp(d) && d.sdp_type@
                        == "offer"@ && d.sdp@ == sdp_text@)
                } else {
                    r@.len() == 0
                }
            }),
    {
        let mut actions: Vec<SignalAction> = Vec::new();
        let live = match &self.session {
            Option::Some(s) => matches!(s.phase, SessionPhase::Negotiating) && !self.down,
            Option::None => false,
        };
        if live {
            actions.push(
                SignalAction::SendSdp(
                    SessionDescription { sdp_type: String::from_str("offer"), sdp: sdp_text },
                ),
            );
        }
        actions
    }

    /// The engine produced a local candidate: forward it over the
    /// transport as one `ice` message.
    pub fn on_local_candidate(&mut self, candidate: IceCandidateInit) -> (r: Vec<SignalAction>)
        requires
            old(self).model().wf(),
        ensures
            final(self).model().wf(),
            final(self).model() == old(self).model(),
            ({
                let live = old(self).model().session matches Some(s) && (s.phase
                    == SessionPhase::Negotiating || s.phase == SessionPhase::DataChannelOpen)
                    && !old(self).model().down;
                if live {
                    r@.len() == 1 && r@[0] == SignalAction::SendIce(candidate)
                } else {
                    r@.len() == 0
                }
            }),
    {
        let mut actions: Vec<SignalAction> = Vec::new();
        let live = match &self.session {
            Option::Some(s) => (matches!(s.phase, SessionPhase::Negotiating) || matches!(
                s.phase,
                SessionPhase::DataChannelOpen,
            )) && !self.down,
            Option::None => false,
        };
        if live {
            actions.push(SignalAction::SendIce(candidate));
        }
        actions
    }

    /// The engine is ready for the data channel: create it with ordered
    /// delivery, a retransmission cap of two and high priority, and move
    /// the session to `DataChannelOpen`.
    pub fn on_data_channel_ready(&mut self) -> (r: Vec<SignalAction>)
        requires
            old(self).model().wf(),
        ensures
            final(self).model().wf(),
            final(self).model().announcement == old(self).model().announcement,
            final(self).model().next_id == old(self).model().next_id,
            final(self).model().sessions_ended == old(self).model().sessions_ended,
            final(self).model().announces == old(self).model().announces,
            final(self).model().down == old(self).model().down,
            match old(self).model().session {
                Option::Some(s) => {
                    if s.phase == SessionPhase::Negotiating && !old(self).model().down {
                        final(self).model().session == Option::Some(
                            Session { id: s.id, phase: SessionPhase::DataChannelOpen },
                        ) && r@.len() == 1 && r@[0] == SignalAction::CreateDataChannel(
                            spec_channel_config(),
                        )
                    } else {
                        final(self).model().session == old(self).model().session && r@.len() == 0
                    }
                },
                Option::None => final(self).model().session == old(self).model().session && r@.len()
                    == 0,
            },
    {
        let mut actions: Vec<SignalAction> = Vec::new();
        match &self.session {
            Option::Some(s) => {
                if matches!(s.phase, SessionPhase::Negotiating) && !self.down {
                    let id = s.id;
                    self.session = Option::Some(
                        Session { id, phase: SessionPhase::DataChannelOpen },
                    );
                    actions.push(
                        SignalAction::CreateDataChannel(
                            DataChannelConfig {
                                ordered: true,
                                max_retransmits: 2,
                                high_priority: true,
                            },
                        ),
                    );
                }
            },
            Option::None => {},
        }
        actions
    }

    /// The transport reconnected.  The sole recovery path for a dropped
    /// session: the old handle is invalidated, the engine session is
    /// torn down, and the announcement goes out again — exactly one
    /// teardown and one re-announcement per notification.
    pub fn on_reconnected(&mut self) -> (r: Vec<SignalAction>)
        requires
            old(self).model().wf(),
            old(self).model().next_id < u64::MAX,
            old(self).model().sessions_ended < u64::MAX,
            old(self).model().announces < u64::MAX,
        ensures
            final(self).model().wf(),
            final(self).model() == spec_reconnect(old(self).model()),
            ({
                if old(self).model().down || old(self).model().session is None {
                    r@.len() == 0
                } else {
                    r@.len() == 2 && r@[0] == SignalAction::EndEngineSession && (r@[1] matches
                        SignalAction::SendAnnounce(a) && Option::Some(announcement_model(a))
                        == old(self).model().announcement)
                }
            }),
    {
        let mut actions: Vec<SignalAction> = Vec::new();
        if self.down {
            return actions;
        }
        match &self.session {
            Option::None => actions,
            Option::Some(_) => {
                let announce = match &self.announcement {
                    Option::Some(a) => clone_announcement(a),
                    Option::None => {
                        // A live session exists only after a configured
                        // start, so this arm cannot be reached.
                        proof {
                            assert(false);
                        }
                        Announcement::Join(JoinerRole::Node)
                    },
                };
                self.session = Option::Some(
                    Session { id: self.next_id, phase: SessionPhase::Announced },
                );
                self.next_id = self.next_id + 1;
                self.sessions_ended = self.sessions_ended + 1;
                self.announces = self.announces + 1;
                actions.push(SignalAction::EndEngineSession);
                actions.push(SignalAction::SendAnnounce(announce));
                actions
            },
        }
    }

    /// External shutdown: tear the engine session down if one is live;
    /// afterwards the machine sends nothing, whatever arrives.
    pub fn shutdown(&mut self) -> (r: Vec<SignalAction>)
        requires
            old(self).model().wf(),
            old(self).model().sessions_ended < u64::MAX,
        ensures
            final(self).model().wf(),
            final(self).model().down,
            final(self).model().announcement == old(self).model().announcement,
            final(self).model().next_id == old(self).model().next_id,
            final(self).model().announces == old(self).model().announces,
            final(self).model().session is None,
            match old(self).model().session {
                Option::Some(_) => final(self).model().sessions_ended == old(
                    self,
                ).model().sessions_ended + 1 && r@.len() == 1 && r@[0]
                    == SignalAction::EndEngineSession,
                Option::None => final(self).model().sessions_ended == old(
                    self,
                ).model().sessions_ended && r@.len() == 0,
            },
    {
        let mut actions: Vec<SignalAction> = Vec::new();
        self.down = true;
        match &self.session {
            Option::Some(_) => {
                self.session = Option::None;
                self.sessions_ended = self.sessions_ended + 1;
                actions.push(SignalAction::EndEngineSession);
            },
            Option::None => {},
        }
        actions
    }
}

} // verus!
