//! The audio engine's state machine.
//!
//! The real engine runs on a dedicated worker that owns the output device and
//! at most one sink. That worker is unverified glue: it polls a command
//! channel, performs sink and file operations, and asks this module what to do
//! and what to report. Every decision the worker makes — how a command changes
//! the session, when `Ended` is signalled, what a status message carries, and
//! the playback timing arithmetic — is taken by the verified methods of
//! [`Player`].
//!
//! Times are wall-clock instants and durations in milliseconds. The worker
//! hands each method the current instant `now`, drawn from a monotonic clock,
//! so `now` never decreases between calls.

use vstd::prelude::*;

verus! {

/// A command sent by the controller to the audio engine.
#[derive(Debug)]
pub enum PlayerCommand {
    /// Set the output gain, as a percentage 0..=100.
    Volume(u8),
    /// Stop whatever is loaded and play this track reference at this volume.
    Play(String, u8),
    /// Toggle between playing and paused.
    Pause,
}

/// Mathematical value of a [`PlayerCommand`].
pub enum CmdView {
    Volume(u8),
    Play(Seq<char>, u8),
    Pause,
}

impl View for PlayerCommand {
    type V = CmdView;

    open spec fn view(&self) -> CmdView {
        match self {
            PlayerCommand::Volume(v) => CmdView::Volume(*v),
            PlayerCommand::Play(t, v) => CmdView::Play(t@, *v),
            PlayerCommand::Pause => CmdView::Pause,
        }
    }
}

/// A status event emitted by the audio engine, consumed by the controller.
#[derive(Debug, PartialEq)]
pub enum PlayerStatus {
    /// A track (re)started or resumed: resolved path and total duration in
    /// milliseconds, if the format exposes one.
    Playing(String, Option<u64>),
    /// The loaded sink has drained; emitted once per natural completion.
    Ended,
    /// A track could not be opened or decoded; carries the original
    /// reference, not a resolved path.
    InvalidFile(String),
    /// The track was paused.
    Paused,
    /// Elapsed playback time in milliseconds, `None` if nothing ever played.
    Playtime(Option<u64>),
}

/// Mathematical value of a [`PlayerStatus`].
pub enum StatusView {
    Playing(Seq<char>, Option<u64>),
    Ended,
    InvalidFile(Seq<char>),
    Paused,
    Playtime(Option<u64>),
}

impl View for PlayerStatus {
    type V = StatusView;

    open spec fn view(&self) -> StatusView {
        match self {
            PlayerStatus::Playing(f, d) => StatusView::Playing(f@, *d),
            PlayerStatus::Ended => StatusView::Ended,
            PlayerStatus::InvalidFile(f) => StatusView::InvalidFile(f@),
            PlayerStatus::Paused => StatusView::Paused,
            PlayerStatus::Playtime(t) => StatusView::Playtime(*t),
        }
    }
}

/// The engine's transient playback session and signalling state.
///
/// `loaded` mirrors whether the worker holds a sink; `paused` mirrors the
/// sink's pause flag; `ended` is the edge trigger that makes `Ended` fire
/// exactly once per completion. A status produced by a command is parked in
/// `pending` and handed out on the next idle poll, so a newer command
/// supersedes an unreported status.
pub struct Player {
    loaded: bool,
    paused: bool,
    ended: bool,
    last_file: String,
    length: Option<u64>,
    play_start: Option<u64>,
    pause_start: Option<u64>,
    pause_time: u64,
    pending: Option<PlayerStatus>,
}

/// Mathematical value of a [`Player`].
#[verifier::ext_equal]
pub struct PlayerView {
    pub loaded: bool,
    pub paused: bool,
    pub ended: bool,
    pub last_file: Seq<char>,
    pub length: Option<u64>,
    pub play_start: Option<u64>,
    pub pause_start: Option<u64>,
    pub pause_time: u64,
    pub pending: Option<StatusView>,
}

impl View for Player {
    type V = PlayerView;

    closed spec fn view(&self) -> PlayerView {
        PlayerView {
            loaded: self.loaded,
            paused: self.paused,
            ended: self.ended,
            last_file: self.last_file@,
            length: self.length,
            play_start: self.play_start,
            pause_start: self.pause_start,
            pause_time: self.pause_time,
            pending: match self.pending {
                Some(ref st) => Some(st@),
                None => None,
            },
        }
    }
}

/// Internal consistency of an engine state: the pause marker exists exactly
/// while paused, pausing needs a session, and the accumulated pause time never
/// outruns the interval between starting playback and the pause marker.
pub open spec fn player_wf(p: PlayerView) -> bool {
    &&& p.paused <==> p.pause_start is Some
    &&& p.paused ==> p.loaded
    &&& p.loaded ==> p.play_start is Some
    &&& (p.pause_start matches Some(qs) ==> p.play_start matches Some(ps) && ps + p.pause_time
        <= qs)
    &&& p.play_start is None ==> p.pause_time == 0 && p.pause_start is None
}

/// Every instant recorded in the state lies at or before `now`; holds whenever
/// `now` comes from the monotonic clock that produced those instants.
pub open spec fn player_clocked(p: PlayerView, now: u64) -> bool {
    &&& (p.play_start matches Some(ps) ==> ps + p.pause_time <= now)
    &&& (p.pause_start matches Some(qs) ==> qs <= now)
}

/// The elapsed playback time reported at instant `now`: time since playback
/// started, less the accumulated pause time, less the still-open pause
/// interval if currently paused. `None` if nothing has ever played.
pub open spec fn playtime_at(p: PlayerView, now: u64) -> Option<u64> {
    match p.play_start {
        None => None,
        Some(ps) => {
            let open_pause: int = match p.pause_start {
                Some(qs) => now - qs,
                None => 0int,
            };
            Some((now - ps - p.pause_time - open_pause) as u64)
        },
    }
}

/// State change when a `Play` command arrives, before the track is opened:
/// the completion edge is re-armed (the worker stops the old sink).
pub open spec fn begin_play_step(p: PlayerView) -> PlayerView {
    PlayerView { ended: false, ..p }
}

/// State change once the worker knows whether the resolved track opened.
///
/// `opened` is `Some((resolved_path, duration_ms))` on success: a fresh
/// session starts at `now` with no pause history, and `Playing` is parked for
/// emission. On failure no session is left loaded and `InvalidFile` carries
/// the original reference.
pub open spec fn finish_play_step(
    p: PlayerView,
    origin: Seq<char>,
    opened: Option<(Seq<char>, Option<u64>)>,
    now: u64,
) -> PlayerView {
    match opened {
        Some((resolved, length)) => PlayerView {
            loaded: true,
            paused: false,
            ended: false,
            last_file: resolved,
            length,
            play_start: Some(now),
            pause_start: None,
            pause_time: 0,
            pending: Some(StatusView::Playing(resolved, length)),
        },
        None => PlayerView {
            loaded: false,
            paused: false,
            ended: false,
            pause_start: None,
            pause_time: match p.pause_start {
                Some(qs) => (p.pause_time + (now - qs)) as u64,
                None => p.pause_time,
            },
            pending: Some(StatusView::InvalidFile(origin)),
            ..p
        },
    }
}

/// State change for a `Pause` command: toggles between playing and paused,
/// folding a closed pause interval into the accumulated pause time on resume.
/// With nothing loaded only the completion edge is re-armed.
pub open spec fn pause_step(p: PlayerView, now: u64) -> PlayerView {
    if !p.loaded {
        PlayerView { ended: false, ..p }
    } else if p.paused {
        PlayerView {
            ended: false,
            paused: false,
            pause_start: None,
            pause_time: (p.pause_time + (now - p.pause_start.unwrap())) as u64,
            pending: Some(StatusView::Playing(p.last_file, p.length)),
            ..p
        }
    } else {
        PlayerView {
            ended: false,
            paused: true,
            pause_start: Some(now),
            pending: Some(StatusView::Paused),
            ..p
        }
    }
}

/// State change and emitted status for an idle poll (no command pending).
///
/// A parked status is emitted first. Otherwise, if the sink is absent or
/// drained and completion has not been signalled since the last command,
/// `Ended` fires once; else the current playtime is reported.
pub open spec fn idle_step(p: PlayerView, sink_empty: bool, now: u64) -> (PlayerView, StatusView) {
    match p.pending {
        Some(st) => (PlayerView { pending: None, ..p }, st),
        None => {
            if (!p.loaded || sink_empty) && !p.ended {
                (PlayerView { ended: true, ..p }, StatusView::Ended)
            } else {
                (p, StatusView::Playtime(playtime_at(p, now)))
            }
        },
    }
}

/// The state of an engine that has not processed any command yet.
pub open spec fn init_player() -> PlayerView {
    PlayerView {
        loaded: false,
        paused: false,
        ended: false,
        last_file: Seq::empty(),
        length: None,
        play_start: None,
        pause_start: None,
        pause_time: 0,
        pending: None,
    }
}

impl Player {
    /// A fresh engine: nothing loaded, nothing ever played, completion not
    /// yet signalled (so the first idle poll reports `Ended` once).
    pub fn new() -> (p: Player)
        ensures
            p@ == init_player(),
            player_wf(p@),
    {
        Player {
            loaded: false,
            paused: false,
            ended: false,
            last_file: String::new(),
            length: None,
            play_start: None,
            pause_start: None,
            pause_time: 0,
            pending: None,
        }
    }

    /// Decision for a `Volume` command: the gain is applied only when a sink
    /// is loaded; the state does not change and nothing is reported.
    pub fn on_volume(&self) -> (apply: bool)
        ensures
            apply == self@.loaded,
    {
        self.loaded
    }

    /// First half of a `Play` command, after the worker has stopped and
    /// discarded the old sink: resolves the track reference. A reference that
    /// is not a URL is used as a filesystem path unchanged; a URL is accepted
    /// only if it converts to a local file path, and `None` rejects it (the
    /// worker logs and skips, leaving the stopped sink to drain into `Ended`).
    pub fn begin_play(&mut self, origin: &String) -> (target: Option<String>)
        ensures
            final(self)@ == begin_play_step(old(self)@),
            target is None ==> parses_as_url(origin@),
            target matches Some(t) ==> (parses_as_url(origin@) || t@ == origin@),
    {
        self.ended = false;
        play_route(origin)
    }

    /// Second half of a `Play` command, once the worker has tried to open and
    /// decode the resolved target: `opened` carries the resolved path and the
    /// decoded total duration on success, `None` on any open or decode
    /// failure. On failure `InvalidFile` reports the original reference and
    /// no session is left loaded.
    pub fn finish_play(
        &mut self,
        origin: String,
        opened: Option<(String, Option<u64>)>,
        now: u64,
    )
        requires
            player_wf(old(self)@),
            player_clocked(old(self)@, now),
        ensures
            final(self)@ == finish_play_step(old(self)@, origin@, opened_view(opened), now),
            player_wf(final(self)@),
            player_clocked(final(self)@, now),
    {
        match opened {
            Some((resolved, length)) => {
                self.loaded = true;
                self.paused = false;
                self.ended = false;
                self.last_file = resolved.clone();
                self.length = length;
                self.play_start = Some(now);
                self.pause_start = None;
                self.pause_time = 0;
                self.pending = Some(PlayerStatus::Playing(resolved, length));
            },
            None => {
                self.loaded = false;
                self.paused = false;
                self.ended = false;
                if let Some(qs) = self.pause_start {
                    self.pause_time = self.pause_time + (now - qs);
                }
                self.pause_start = None;
                self.pending = Some(PlayerStatus::InvalidFile(origin));
            },
        }
    }

    /// Decision for a `Pause` command. The returned action tells the worker
    /// what to do with the sink; the status to report is parked in the state.
    pub fn on_pause(&mut self, now: u64) -> (act: PauseAction)
        requires
            player_wf(old(self)@),
            player_clocked(old(self)@, now),
        ensures
            final(self)@ == pause_step(old(self)@, now),
            player_wf(final(self)@),
            player_clocked(final(self)@, now),
            act == (if !old(self)@.loaded {
                PauseAction::Nothing
            } else if old(self)@.paused {
                PauseAction::ResumeSink
            } else {
                PauseAction::PauseSink
            }),
    {
        self.ended = false;
        if !self.loaded {
            PauseAction::Nothing
        } else if self.paused {
            if let Some(qs) = self.pause_start {
                self.pause_time = self.pause_time + (now - qs);
            }
            self.pause_start = None;
            self.paused = false;
            self.pending = Some(PlayerStatus::Playing(self.last_file.clone(), self.length));
            PauseAction::ResumeSink
        } else {
            self.pause_start = Some(now);
            self.paused = true;
            self.pending = Some(PlayerStatus::Paused);
            PauseAction::PauseSink
        }
    }

    /// Decision for an idle poll, when no command is waiting: `sink_empty`
    /// says whether the worker's sink is absent or drained. Returns the
    /// status to report; the worker sleeps briefly after a `Playtime`.
    pub fn on_idle(&mut self, sink_empty: bool, now: u64) -> (st: PlayerStatus)
        requires
            player_wf(old(self)@),
            player_clocked(old(self)@, now),
        ensures
            ({
                let (p, sv) = idle_step(old(self)@, sink_empty, now);
                final(self)@ == p && st@ == sv
            }),
            player_wf(final(self)@),
            player_clocked(final(self)@, now),
            // the reported playtime is the exact arithmetic value, not a
            // truncation
            old(self)@.pending is None ==> (st matches PlayerStatus::Playtime(pt) ==> match pt {
                None => old(self)@.play_start is None,
                Some(v) => old(self)@.play_start matches Some(ps) && v == now - ps
                    - old(self)@.pause_time - (match old(self)@.pause_start {
                    Some(qs) => now - qs,
                    None => 0int,
                }),
            }),
    {
        if self.pending.is_some() {
            let mut taken: Option<PlayerStatus> = None;
            core::mem::swap(&mut taken, &mut self.pending);
            match taken {
                Some(st) => st,
                None => PlayerStatus::Ended,  // unreachable: pending was tested non-empty
            }
        } else if (!self.loaded || sink_empty) && !self.ended {
            self.ended = true;
            PlayerStatus::Ended
        } else {
            match self.play_start {
                None => PlayerStatus::Playtime(None),
                Some(ps) => {
                    let since_start: u64 = now - ps;
                    let base: u64 = since_start - self.pause_time;
                    let elapsed: u64 = match self.pause_start {
                        Some(qs) => base - (now - qs),
                        None => base,
                    };
                    PlayerStatus::Playtime(Some(elapsed))
                },
            }
        }
    }
}

/// Law: while the engine is paused, the reported playtime does not advance.
/// At any two instants consistent with the recorded ones it reports the same
/// value: the span from the start of playback to the pause marker, less the
/// accumulated pause time.
pub proof fn lemma_playtime_frozen_while_paused(p: PlayerView, n1: u64, n2: u64)
    requires
        player_wf(p),
        p.paused,
        player_clocked(p, n1),
        player_clocked(p, n2),
    ensures
        playtime_at(p, n1) == playtime_at(p, n2),
        playtime_at(p, n1) matches Some(v) && v == p.pause_start.unwrap()
            - p.play_start.unwrap() - p.pause_time,
{
}

/// Law: a `Play` processed before the previous `Play`'s status was reported
/// fully supersedes it. After the two commands the engine holds a session
/// for the second track only, and exactly one `Playing` is emitted — for the
/// second track — on the next idle poll.
pub proof fn lemma_play_supersedes_play(
    p: PlayerView,
    o1: Seq<char>,
    r1: Seq<char>,
    l1: Option<u64>,
    t1: u64,
    o2: Seq<char>,
    r2: Seq<char>,
    l2: Option<u64>,
    t2: u64,
    sink_empty: bool,
    t3: u64,
)
    ensures
        ({
            let after_first = finish_play_step(begin_play_step(p), o1, Some((r1, l1)), t1);
            let after_second = finish_play_step(
                begin_play_step(after_first),
                o2,
                Some((r2, l2)),
                t2,
            );
            &&& after_second.pending == Some(StatusView::Playing(r2, l2))
            &&& after_second.last_file == r2
            &&& after_second.play_start == Some(t2)
            &&& idle_step(after_second, sink_empty, t3).1 == StatusView::Playing(r2, l2)
            &&& idle_step(after_second, sink_empty, t3).0.pending is None
        }),
{
}

/// Law: an idle poll with no parked status reports only `Ended` or
/// `Playtime`; a `Playing` status can arise from a command alone. Together
/// with [`lemma_play_supersedes_play`] this pins "exactly one `Playing` per
/// successful `Play`".
pub proof fn lemma_idle_never_plays(p: PlayerView, sink_empty: bool, now: u64)
    requires
        p.pending is None,
    ensures
        !(idle_step(p, sink_empty, now).1 matches StatusView::Playing(_, _)),
{
}

/// Law: `Ended` is edge-triggered — once an idle poll has reported it, later
/// idle polls report the playtime instead, however long the engine idles,
/// until a `Play` or `Pause` command re-arms the edge.
pub proof fn lemma_ended_fires_once(
    p: PlayerView,
    se1: bool,
    n1: u64,
    se2: bool,
    n2: u64,
)
    requires
        p.pending is None,
        idle_step(p, se1, n1).1 == StatusView::Ended,
    ensures
        idle_step(idle_step(p, se1, n1).0, se2, n2).1 matches StatusView::Playtime(_),
{
}

/// What the worker must do to the sink after a `Pause` command.
#[derive(Debug, PartialEq, Eq, Structural, Clone, Copy)]
pub enum PauseAction {
    /// Nothing is loaded: leave the sink alone.
    Nothing,
    /// The sink was paused: let it play again.
    ResumeSink,
    /// The sink was playing: pause it.
    PauseSink,
}

/// Mathematical value of the `opened` argument to [`Player::finish_play`].
pub open spec fn opened_view(opened: Option<(String, Option<u64>)>) -> Option<
    (Seq<char>, Option<u64>),
> {
    match opened {
        Some((resolved, length)) => Some((resolved@, length)),
        None => None,
    }
}

/// Whether the `url` crate accepts this string as an absolute URL. Knowable
/// only by calling it; named so that contracts can say "taken as a plain
/// path" exactly when parsing fails.
pub uninterp spec fn parses_as_url(s: Seq<char>) -> bool;

/// Relies on `url::Url::parse` and `url::Url::to_file_path`: a string that
/// does not parse as a URL is returned unchanged, to be treated as a
/// filesystem path; one that parses is returned as the converted local file
/// path, or rejected (`None`) when the URL does not name a local file.
#[verifier::external_body]
fn play_route(origin: &String) -> (target: Option<String>)
    ensures
        target is None ==> parses_as_url(origin@),
        target matches Some(t) ==> (parses_as_url(origin@) || t@ == origin@),
{
    match url::Url::parse(origin) {
        Ok(u) => match u.to_file_path() {
            Ok(p) => Some(p.to_string_lossy().into_owned()),
            Err(()) => None,
        },
        Err(_) => Some(origin.clone()),
    }
}

} // verus!
