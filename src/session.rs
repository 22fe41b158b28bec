use vstd::prelude::*;

verus! {

/// Snapshots a client waits for before it shows the world.
pub const MIN_SNAPSHOTS: u32 = 3;

/// Time, in milliseconds, a client keeps its loading screen after the first snapshot.
pub const MIN_LOADING_MS: u64 = 1500;

/// What a client has received so far while it synchronises.
#[derive(Clone, Copy, Debug, PartialEq, Eq, Structural)]
pub struct LoadingState {
    pub welcome_received: bool,
    pub first_state_received: bool,
    pub state_count: u32,
    /// When the first snapshot arrived, in milliseconds of the client's clock.
    pub first_state_at_ms: Option<u64>,
}

impl LoadingState {
    /// Welcome received, at least three snapshots, and 1.5 s since the first one.
    pub open spec fn ready_spec(&self, now_ms: u64) -> bool {
        &&& self.welcome_received
        &&& self.first_state_received
        &&& self.state_count >= MIN_SNAPSHOTS
        &&& self.first_state_at_ms matches Some(t)
        &&& t <= now_ms
        &&& now_ms - t >= MIN_LOADING_MS
    }

    /// Nothing received yet.
    pub fn new() -> (r: LoadingState)
        ensures
            !r.welcome_received,
            !r.first_state_received,
            r.state_count == 0,
            r.first_state_at_ms is None,
    {
        LoadingState { welcome_received: false, first_state_received: false, state_count: 0, first_state_at_ms: None }
    }

    /// Records the Welcome message.
    pub fn on_welcome(&mut self)
        ensures
            *final(self) == (LoadingState { welcome_received: true, ..*old(self) }),
    {
        self.welcome_received = true;
    }

    /// Records a snapshot that arrived at `now_ms`; the first one starts the loading clock.
    pub fn on_state(&mut self, now_ms: u64)
        ensures
            !old(self).first_state_received ==> *final(self) == (LoadingState {
                first_state_received: true,
                state_count: 1,
                first_state_at_ms: Some(now_ms),
                ..*old(self)
            }),
            old(self).first_state_received ==> *final(self) == (LoadingState {
                state_count: if old(self).state_count < u32::MAX { (old(self).state_count + 1) as u32 } else { u32::MAX },
                ..*old(self)
            }),
    {
        if !self.first_state_received {
            self.first_state_received = true;
            self.state_count = 1;
            self.first_state_at_ms = Some(now_ms);
        } else if self.state_count < u32::MAX {
            self.state_count = self.state_count + 1;
        }
    }

    /// Whether the client may leave its loading screen at `now_ms`.
    pub fn is_ready(&self, now_ms: u64) -> (r: bool)
        ensures
            r == self.ready_spec(now_ms),
    {
        if !self.welcome_received || !self.first_state_received {
            return false;
        }
        if self.state_count < MIN_SNAPSHOTS {
            return false;
        }
        match self.first_state_at_ms {
            Some(t) => t <= now_ms && now_ms - t >= MIN_LOADING_MS,
            None => false,
        }
    }
}

impl Default for LoadingState {
    fn default() -> (r: LoadingState)
        ensures
            !r.welcome_received,
            !r.first_state_received,
            r.state_count == 0,
            r.first_state_at_ms is None,
    {
        LoadingState::new()
    }
}

/// Where a client's connection stands.
#[derive(Clone, Copy, Debug, PartialEq, Eq, Structural)]
pub enum ConnectionPhase {
    Disconnected,
    Connecting,
    AwaitingWelcome,
    Syncing,
    Ready,
}

/// What happens to a client's connection.
#[derive(Clone, Copy, Debug, PartialEq, Eq, Structural)]
pub enum SessionEvent {
    /// A connection attempt starts.
    Dial,
    /// The transport is open.
    Opened,
    /// The Welcome message arrived.
    Welcome,
    /// A snapshot arrived.
    Snapshot,
    /// Time passed.
    Clock,
    /// The transport failed or closed.
    Failed,
}

/// The phase after an event, given whether the loading condition then holds.
pub open spec fn phase_after(p: ConnectionPhase, ev: SessionEvent, ready: bool) -> ConnectionPhase {
    if ev == SessionEvent::Failed {
        ConnectionPhase::Disconnected
    } else {
        match p {
            ConnectionPhase::Disconnected => if ev == SessionEvent::Dial { ConnectionPhase::Connecting } else { p },
            ConnectionPhase::Connecting => if ev == SessionEvent::Opened { ConnectionPhase::AwaitingWelcome } else { p },
            ConnectionPhase::AwaitingWelcome => if ev == SessionEvent::Welcome {
                if ready { ConnectionPhase::Ready } else { ConnectionPhase::Syncing }
            } else {
                p
            },
            ConnectionPhase::Syncing => if ready { ConnectionPhase::Ready } else { p },
            ConnectionPhase::Ready => p,
        }
    }
}

/// A client's connection phase with what it has received.
#[derive(Clone, Copy, Debug, PartialEq, Eq, Structural)]
pub struct ClientSession {
    pub phase: ConnectionPhase,
    pub loading: LoadingState,
}

impl ClientSession {
    /// Disconnected, nothing received.
    pub fn new() -> (r: ClientSession)
        ensures
            r.phase == ConnectionPhase::Disconnected,
            r.loading == LoadingState::new_spec(),
    {
        ClientSession { phase: ConnectionPhase::Disconnected, loading: LoadingState::new() }
    }

    /// Applies an event at `now_ms`: Welcome and snapshots are recorded, then the phase moves.
    /// A failure drops the connection and forgets what was received.
    pub fn on_event(&mut self, ev: SessionEvent, now_ms: u64)
        ensures
            ev == SessionEvent::Failed ==> final(self).loading == LoadingState::new_spec(),
            ev == SessionEvent::Welcome ==> final(self).loading == (LoadingState { welcome_received: true, ..old(self).loading }),
            ev == SessionEvent::Snapshot && !old(self).loading.first_state_received ==> final(self).loading == (LoadingState {
                first_state_received: true,
                state_count: 1,
                first_state_at_ms: Some(now_ms),
                ..old(self).loading
            }),
            ev == SessionEvent::Snapshot && old(self).loading.first_state_received ==> final(self).loading == (LoadingState {
                state_count: if old(self).loading.state_count < u32::MAX { (old(self).loading.state_count + 1) as u32 } else { u32::MAX },
                ..old(self).loading
            }),
            ev == SessionEvent::Dial || ev == SessionEvent::Opened || ev == SessionEvent::Clock ==> final(self).loading == old(self).loading,
            final(self).phase == phase_after(old(self).phase, ev, final(self).loading.ready_spec(now_ms)),
    {
        match ev {
            SessionEvent::Failed => {
                self.loading = LoadingState::new();
            },
            SessionEvent::Welcome => {
                self.loading.on_welcome();
            },
            SessionEvent::Snapshot => {
                self.loading.on_state(now_ms);
            },
            _ => {},
        }
        let ready = self.loading.is_ready(now_ms);
        self.phase = if ev == SessionEvent::Failed {
            ConnectionPhase::Disconnected
        } else {
            match self.phase {
                ConnectionPhase::Disconnected => if ev == SessionEvent::Dial { ConnectionPhase::Connecting } else { self.phase },
                ConnectionPhase::Connecting => if ev == SessionEvent::Opened { ConnectionPhase::AwaitingWelcome } else { self.phase },
                ConnectionPhase::AwaitingWelcome => if ev == SessionEvent::Welcome {
                    if ready { ConnectionPhase::Ready } else { ConnectionPhase::Syncing }
                } else {
                    self.phase
                },
                ConnectionPhase::Syncing => if ready { ConnectionPhase::Ready } else { self.phase },
                ConnectionPhase::Ready => self.phase,
            }
        };
    }
}

impl LoadingState {
    /// The state with nothing received.
    pub open spec fn new_spec() -> LoadingState {
        LoadingState { welcome_received: false, first_state_received: false, state_count: 0, first_state_at_ms: None }
    }
}

} // verus!
