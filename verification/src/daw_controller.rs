use vstd::prelude::*;

verus! {

/// How the controller was started.
#[derive(Clone, Copy, Debug, PartialEq, Eq, Structural)]
pub enum DawMode {
    /// Record only, nothing to play along with.
    RecordOnly,
    /// Record while a backing track plays.
    KaraokeRecord,
}

/// The start-up plan taken from the command line (`args[0]` is the program):
/// with two paths a backing track and a second track, with one path a
/// backing track, with none recording only.
pub fn launch_plan(args: &Vec<String>) -> (r: (DawMode, Option<String>, Option<String>))
    ensures
        args@.len() > 2 ==> r.0 == DawMode::KaraokeRecord
            && r.1 == Some(args@[1]) && r.2 == Some(args@[2]),
        args@.len() == 2 ==> r.0 == DawMode::KaraokeRecord && r.1 == Some(args@[1]) && r.2 is None,
        args@.len() < 2 ==> r.0 == DawMode::RecordOnly && r.1 is None && r.2 is None,
{
    if args.len() > 2 {
        (DawMode::KaraokeRecord, Some(args[1].clone()), Some(args[2].clone()))
    } else if args.len() > 1 {
        (DawMode::KaraokeRecord, Some(args[1].clone()), None)
    } else {
        (DawMode::RecordOnly, None, None)
    }
}

/// A key as the controller sees it.
#[derive(Clone, Copy, Debug, PartialEq, Eq, Structural)]
pub enum Key {
    Char(char),
    Up,
    Down,
    Left,
    Right,
    /// Any other key; no binding uses it.
    Other,
}

/// The modifier keys held with a key.
#[derive(Clone, Copy, Debug, PartialEq, Eq, Structural)]
pub struct Modifiers {
    pub control: bool,
}

/// Shortcuts that need CONTROL and take the key for themselves.
#[derive(Clone, Copy, Debug, PartialEq, Eq, Structural)]
pub enum Shortcut {
    Undo,
    Redo,
    Save,
    Bounce,
    Open,
}

/// Transport and mixing actions of the engine-backed controller. Track
/// numbers count from 0.
#[derive(Clone, Copy, Debug, PartialEq, Eq, Structural)]
pub enum PlaybackAction {
    TogglePlayPause,
    VolumeUp,
    VolumeDown,
    /// Seek by this many seconds (negative: backwards).
    SeekBy(i64),
    AddSecondTrack,
    ToggleMute(usize),
    Solo(usize),
    ClearSolo,
    GainDown(usize),
    GainUp(usize),
    ResetGain(usize),
    PanLeft(usize),
    PanRight(usize),
    ResetPan(usize),
}

/// Actions of the single-file player controller.
#[derive(Clone, Copy, Debug, PartialEq, Eq, Structural)]
pub enum PlayerAction {
    TogglePlayback,
    VolumeUp,
    VolumeDown,
    /// Seek by this many seconds (negative: backwards).
    SeekBy(i64),
}

/// Everything one key press asks of the controller, in the order the
/// controller carries it out.
#[derive(Clone, Copy, Debug, PartialEq, Eq, Structural)]
pub struct KeyDispatch {
    pub shortcut: Option<Shortcut>,
    pub playback: Option<PlaybackAction>,
    pub toggle_recording: bool,
    pub toggle_monitor: bool,
}

/// The shortcut bound to `key` when CONTROL is held.
pub open spec fn shortcut_binding(key: Key) -> Option<Shortcut> {
    match key {
        Key::Char('z') | Key::Char('Z') => Some(Shortcut::Undo),
        Key::Char('y') | Key::Char('Y') => Some(Shortcut::Redo),
        Key::Char('s') | Key::Char('S') => Some(Shortcut::Save),
        Key::Char('b') | Key::Char('B') => Some(Shortcut::Bounce),
        Key::Char('o') | Key::Char('O') => Some(Shortcut::Open),
        _ => None,
    }
}

/// The playback key map of the engine-backed controller.
pub open spec fn playback_binding(key: Key) -> Option<PlaybackAction> {
    match key {
        Key::Char(' ') => Some(PlaybackAction::TogglePlayPause),
        Key::Up => Some(PlaybackAction::VolumeUp),
        Key::Down => Some(PlaybackAction::VolumeDown),
        Key::Right => Some(PlaybackAction::SeekBy(5i64)),
        Key::Left => Some(PlaybackAction::SeekBy(-5i64)),
        Key::Char('t') | Key::Char('T') => Some(PlaybackAction::AddSecondTrack),
        Key::Char('1') => Some(PlaybackAction::ToggleMute(0)),
        Key::Char('2') => Some(PlaybackAction::ToggleMute(1)),
        Key::Char('s') | Key::Char('S') => Some(PlaybackAction::Solo(0)),
        Key::Char('d') | Key::Char('D') => Some(PlaybackAction::Solo(1)),
        Key::Char('c') | Key::Char('C') => Some(PlaybackAction::ClearSolo),
        Key::Char('z') | Key::Char('Z') => Some(PlaybackAction::GainDown(0)),
        Key::Char('x') | Key::Char('X') => Some(PlaybackAction::GainUp(0)),
        Key::Char('q') | Key::Char('Q') => Some(PlaybackAction::ResetGain(0)),
        Key::Char('b') | Key::Char('B') => Some(PlaybackAction::GainDown(1)),
        Key::Char('n') | Key::Char('N') => Some(PlaybackAction::GainUp(1)),
        Key::Char('w') | Key::Char('W') => Some(PlaybackAction::ResetGain(1)),
        Key::Char('a') | Key::Char('A') => Some(PlaybackAction::PanLeft(0)),
        Key::Char('f') | Key::Char('F') => Some(PlaybackAction::PanRight(0)),
        Key::Char('e') | Key::Char('E') => Some(PlaybackAction::ResetPan(0)),
        Key::Char('g') | Key::Char('G') => Some(PlaybackAction::PanLeft(1)),
        Key::Char('h') | Key::Char('H') => Some(PlaybackAction::PanRight(1)),
        Key::Char('j') | Key::Char('J') => Some(PlaybackAction::ResetPan(1)),
        _ => None,
    }
}

/// The key map of the single-file player controller.
pub open spec fn player_binding(key: Key) -> Option<PlayerAction> {
    match key {
        Key::Char(' ') => Some(PlayerAction::TogglePlayback),
        Key::Up => Some(PlayerAction::VolumeUp),
        Key::Down => Some(PlayerAction::VolumeDown),
        Key::Right => Some(PlayerAction::SeekBy(5i64)),
        Key::Left => Some(PlayerAction::SeekBy(-5i64)),
        _ => None,
    }
}

pub open spec fn is_record_key(key: Key) -> bool {
    key == Key::Char('r') || key == Key::Char('R')
}

pub open spec fn is_monitor_key(key: Key) -> bool {
    key == Key::Char('l') || key == Key::Char('L')
}

pub open spec fn is_quit_key(key: Key) -> bool {
    key == Key::Char('q') || key == Key::Char('Q')
}

/// The global shortcut that `key` triggers: only with CONTROL held.
pub fn global_shortcut(key: Key, modifiers: Modifiers) -> (s: Option<Shortcut>)
    ensures
        s == if modifiers.control { shortcut_binding(key) } else { None },
{
    if !modifiers.control {
        return None;
    }
    match key {
        Key::Char('z') | Key::Char('Z') => Some(Shortcut::Undo),
        Key::Char('y') | Key::Char('Y') => Some(Shortcut::Redo),
        Key::Char('s') | Key::Char('S') => Some(Shortcut::Save),
        Key::Char('b') | Key::Char('B') => Some(Shortcut::Bounce),
        Key::Char('o') | Key::Char('O') => Some(Shortcut::Open),
        _ => None,
    }
}

/// The playback action of the engine-backed controller bound to `key`.
pub fn playback_action(key: Key) -> (a: Option<PlaybackAction>)
    ensures
        a == playback_binding(key),
{
    match key {
        Key::Char(' ') => Some(PlaybackAction::TogglePlayPause),
        Key::Up => Some(PlaybackAction::VolumeUp),
        Key::Down => Some(PlaybackAction::VolumeDown),
        Key::Right => Some(PlaybackAction::SeekBy(5i64)),
        Key::Left => Some(PlaybackAction::SeekBy(-5i64)),
        Key::Char('t') | Key::Char('T') => Some(PlaybackAction::AddSecondTrack),
        Key::Char('1') => Some(PlaybackAction::ToggleMute(0)),
        Key::Char('2') => Some(PlaybackAction::ToggleMute(1)),
        Key::Char('s') | Key::Char('S') => Some(PlaybackAction::Solo(0)),
        Key::Char('d') | Key::Char('D') => Some(PlaybackAction::Solo(1)),
        Key::Char('c') | Key::Char('C') => Some(PlaybackAction::ClearSolo),
        Key::Char('z') | Key::Char('Z') => Some(PlaybackAction::GainDown(0)),
        Key::Char('x') | Key::Char('X') => Some(PlaybackAction::GainUp(0)),
        Key::Char('q') | Key::Char('Q') => Some(PlaybackAction::ResetGain(0)),
        Key::Char('b') | Key::Char('B') => Some(PlaybackAction::GainDown(1)),
        Key::Char('n') | Key::Char('N') => Some(PlaybackAction::GainUp(1)),
        Key::Char('w') | Key::Char('W') => Some(PlaybackAction::ResetGain(1)),
        Key::Char('a') | Key::Char('A') => Some(PlaybackAction::PanLeft(0)),
        Key::Char('f') | Key::Char('F') => Some(PlaybackAction::PanRight(0)),
        Key::Char('e') | Key::Char('E') => Some(PlaybackAction::ResetPan(0)),
        Key::Char('g') | Key::Char('G') => Some(PlaybackAction::PanLeft(1)),
        Key::Char('h') | Key::Char('H') => Some(PlaybackAction::PanRight(1)),
        Key::Char('j') | Key::Char('J') => Some(PlaybackAction::ResetPan(1)),
        _ => None,
    }
}

/// The action of the single-file player controller bound to `key`.
pub fn player_action(key: Key) -> (a: Option<PlayerAction>)
    ensures
        a == player_binding(key),
{
    match key {
        Key::Char(' ') => Some(PlayerAction::TogglePlayback),
        Key::Up => Some(PlayerAction::VolumeUp),
        Key::Down => Some(PlayerAction::VolumeDown),
        Key::Right => Some(PlayerAction::SeekBy(5i64)),
        Key::Left => Some(PlayerAction::SeekBy(-5i64)),
        _ => None,
    }
}

/// Whether `key` starts or stops a recording.
pub fn record_key(key: Key) -> (b: bool)
    ensures
        b == is_record_key(key),
{
    match key {
        Key::Char('r') | Key::Char('R') => true,
        _ => false,
    }
}

/// Whether `key` switches input monitoring.
pub fn monitor_key(key: Key) -> (b: bool)
    ensures
        b == is_monitor_key(key),
{
    match key {
        Key::Char('l') | Key::Char('L') => true,
        _ => false,
    }
}

/// Whether `key` quits the program.
pub fn should_quit(key: Key) -> (b: bool)
    ensures
        b == is_quit_key(key),
{
    match key {
        Key::Char('q') | Key::Char('Q') => true,
        _ => false,
    }
}

/// Keys of the bare engine player (two tracks, no recording).
#[derive(Clone, Copy, Debug, PartialEq, Eq, Structural)]
pub enum EngineKeyAction {
    Quit,
    TogglePlay,
    ToggleMute(usize),
    Solo(usize),
}

/// The key map of the bare engine player.
pub open spec fn engine_key_binding(key: Key) -> Option<EngineKeyAction> {
    match key {
        Key::Char('q') | Key::Char('Q') => Some(EngineKeyAction::Quit),
        Key::Char(' ') => Some(EngineKeyAction::TogglePlay),
        Key::Char('1') => Some(EngineKeyAction::ToggleMute(0)),
        Key::Char('2') => Some(EngineKeyAction::ToggleMute(1)),
        Key::Char('s') | Key::Char('S') => Some(EngineKeyAction::Solo(0)),
        Key::Char('d') | Key::Char('D') => Some(EngineKeyAction::Solo(1)),
        _ => None,
    }
}

/// The action of the bare engine player bound to `key`; the track number
/// counts from 0 in the order the tracks were added.
pub fn engine_key_action(key: Key) -> (a: Option<EngineKeyAction>)
    ensures
        a == engine_key_binding(key),
{
    match key {
        Key::Char('q') | Key::Char('Q') => Some(EngineKeyAction::Quit),
        Key::Char(' ') => Some(EngineKeyAction::TogglePlay),
        Key::Char('1') => Some(EngineKeyAction::ToggleMute(0)),
        Key::Char('2') => Some(EngineKeyAction::ToggleMute(1)),
        Key::Char('s') | Key::Char('S') => Some(EngineKeyAction::Solo(0)),
        Key::Char('d') | Key::Char('D') => Some(EngineKeyAction::Solo(1)),
        _ => None,
    }
}

/// What a key press asks of the engine-backed controller: a global
/// shortcut, when one fires, takes the key for itself; otherwise the key
/// goes to the playback, record and monitor handlers in turn.
pub fn dispatch_key(key: Key, modifiers: Modifiers) -> (d: KeyDispatch)
    ensures
        d.shortcut == (if modifiers.control { shortcut_binding(key) } else { None }),
        d.shortcut is Some ==> d.playback is None && !d.toggle_recording && !d.toggle_monitor,
        d.shortcut is None ==> {
            &&& d.playback == playback_binding(key)
            &&& d.toggle_recording == is_record_key(key)
            &&& d.toggle_monitor == is_monitor_key(key)
        },
{
    let shortcut = global_shortcut(key, modifiers);
    if shortcut.is_some() {
        return KeyDispatch { shortcut, playback: None, toggle_recording: false, toggle_monitor: false };
    }
    KeyDispatch {
        shortcut: None,
        playback: playback_action(key),
        toggle_recording: record_key(key),
        toggle_monitor: monitor_key(key),
    }
}

/// What the recorder reports to the redraw planner: the recording time in
/// whole seconds and the number of live waveform bins, `None` when the
/// waveform was busy and could not be read.
#[derive(Clone, Copy, Debug, PartialEq, Eq, Structural)]
pub struct RecordingProbe {
    pub rec_secs: u64,
    pub waveform_len: Option<usize>,
}

/// The number keys address tracks by position: a key toggles the mute of
/// track `i` exactly when it is the digit `i + 1`, for the two tracks the
/// controller drives; so different number keys mute different tracks.
pub proof fn lemma_number_keys_mute_by_position(key: Key, i: usize)
    ensures
        (playback_binding(key) == Some(PlaybackAction::ToggleMute(i)))
            <==> (i < 2 && key is Char && key->Char_0 as u32 == 49 + i),
{
}

/// Upper- and lower-case letters are bound alike in the playback key map.
pub proof fn lemma_playback_letters_ignore_case(c: char)
    requires
        'a' <= c <= 'z',
    ensures
        playback_binding(Key::Char(c)) == playback_binding(Key::Char(((c as u32) - 32) as char)),
{
}

/// Every track-addressed action of the playback key map addresses one of the
/// two tracks the controller drives, and a seek moves by five seconds, forward
/// on the right arrow and backward on the left.
pub proof fn lemma_playback_targets(key: Key)
    ensures
        match playback_binding(key) {
            Some(PlaybackAction::ToggleMute(i)) => i < 2,
            Some(PlaybackAction::Solo(i)) => i < 2,
            Some(PlaybackAction::GainDown(i)) => i < 2,
            Some(PlaybackAction::GainUp(i)) => i < 2,
            Some(PlaybackAction::ResetGain(i)) => i < 2,
            Some(PlaybackAction::PanLeft(i)) => i < 2,
            Some(PlaybackAction::PanRight(i)) => i < 2,
            Some(PlaybackAction::ResetPan(i)) => i < 2,
            Some(PlaybackAction::SeekBy(d)) => (d == 5 && key == Key::Right) || (d == -5 && key == Key::Left),
            _ => true,
        },
{
}

/// The shortcuts, the record, monitor and quit keys and the bare player's
/// keys treat a letter and its capital alike.
pub proof fn lemma_letter_keys_ignore_case(c: char)
    requires
        'a' <= c <= 'z',
    ensures
        ({
            let upper = Key::Char(((c as u32) - 32) as char);
            &&& shortcut_binding(Key::Char(c)) == shortcut_binding(upper)
            &&& engine_key_binding(Key::Char(c)) == engine_key_binding(upper)
            &&& is_record_key(Key::Char(c)) == is_record_key(upper)
            &&& is_monitor_key(Key::Char(c)) == is_monitor_key(upper)
            &&& is_quit_key(Key::Char(c)) == is_quit_key(upper)
        }),
{
}

/// Each of the two tracks can be muted, soloed, turned down, up and reset,
/// and panned left, right and back from the keyboard, and every transport
/// action has a key.
pub proof fn lemma_every_action_has_a_key(i: usize)
    requires
        i < 2,
    ensures
        exists|k: Key| playback_binding(k) == Some(PlaybackAction::ToggleMute(i)),
        exists|k: Key| playback_binding(k) == Some(PlaybackAction::Solo(i)),
        exists|k: Key| playback_binding(k) == Some(PlaybackAction::GainDown(i)),
        exists|k: Key| playback_binding(k) == Some(PlaybackAction::GainUp(i)),
        exists|k: Key| playback_binding(k) == Some(PlaybackAction::ResetGain(i)),
        exists|k: Key| playback_binding(k) == Some(PlaybackAction::PanLeft(i)),
        exists|k: Key| playback_binding(k) == Some(PlaybackAction::PanRight(i)),
        exists|k: Key| playback_binding(k) == Some(PlaybackAction::ResetPan(i)),
        exists|k: Key| playback_binding(k) == Some(PlaybackAction::TogglePlayPause),
        exists|k: Key| playback_binding(k) == Some(PlaybackAction::VolumeUp),
        exists|k: Key| playback_binding(k) == Some(PlaybackAction::VolumeDown),
        exists|k: Key| playback_binding(k) == Some(PlaybackAction::ClearSolo),
        exists|k: Key| playback_binding(k) == Some(PlaybackAction::AddSecondTrack),
{
    if i == 0 {
        assert(playback_binding(Key::Char('1')) == Some(PlaybackAction::ToggleMute(i)));
        assert(playback_binding(Key::Char('s')) == Some(PlaybackAction::Solo(i)));
        assert(playback_binding(Key::Char('z')) == Some(PlaybackAction::GainDown(i)));
        assert(playback_binding(Key::Char('x')) == Some(PlaybackAction::GainUp(i)));
        assert(playback_binding(Key::Char('q')) == Some(PlaybackAction::ResetGain(i)));
        assert(playback_binding(Key::Char('a')) == Some(PlaybackAction::PanLeft(i)));
        assert(playback_binding(Key::Char('f')) == Some(PlaybackAction::PanRight(i)));
        assert(playback_binding(Key::Char('e')) == Some(PlaybackAction::ResetPan(i)));
    } else {
        assert(playback_binding(Key::Char('2')) == Some(PlaybackAction::ToggleMute(i)));
        assert(playback_binding(Key::Char('d')) == Some(PlaybackAction::Solo(i)));
        assert(playback_binding(Key::Char('b')) == Some(PlaybackAction::GainDown(i)));
        assert(playback_binding(Key::Char('n')) == Some(PlaybackAction::GainUp(i)));
        assert(playback_binding(Key::Char('w')) == Some(PlaybackAction::ResetGain(i)));
        assert(playback_binding(Key::Char('g')) == Some(PlaybackAction::PanLeft(i)));
        assert(playback_binding(Key::Char('h')) == Some(PlaybackAction::PanRight(i)));
        assert(playback_binding(Key::Char('j')) == Some(PlaybackAction::ResetPan(i)));
    }
    assert(playback_binding(Key::Char(' ')) == Some(PlaybackAction::TogglePlayPause));
    assert(playback_binding(Key::Up) == Some(PlaybackAction::VolumeUp));
    assert(playback_binding(Key::Down) == Some(PlaybackAction::VolumeDown));
    assert(playback_binding(Key::Char('c')) == Some(PlaybackAction::ClearSolo));
    assert(playback_binding(Key::Char('t')) == Some(PlaybackAction::AddSecondTrack));
}

/// The single-file player and the bare engine player use the keys of the
/// engine-backed controller for what they share: the player's space, arrows
/// and seeks, and the engine player's play, mute and solo keys; the engine
/// player quits on the quit key.
pub proof fn lemma_controllers_share_keys(key: Key, i: usize, d: i64)
    ensures
        (player_binding(key) == Some(PlayerAction::TogglePlayback))
            == (playback_binding(key) == Some(PlaybackAction::TogglePlayPause)),
        (player_binding(key) == Some(PlayerAction::VolumeUp)) == (playback_binding(key) == Some(PlaybackAction::VolumeUp)),
        (player_binding(key) == Some(PlayerAction::VolumeDown))
            == (playback_binding(key) == Some(PlaybackAction::VolumeDown)),
        (player_binding(key) == Some(PlayerAction::SeekBy(d))) == (playback_binding(key) == Some(PlaybackAction::SeekBy(d))),
        (engine_key_binding(key) == Some(EngineKeyAction::TogglePlay))
            == (playback_binding(key) == Some(PlaybackAction::TogglePlayPause)),
        (engine_key_binding(key) == Some(EngineKeyAction::ToggleMute(i)))
            == (playback_binding(key) == Some(PlaybackAction::ToggleMute(i))),
        (engine_key_binding(key) == Some(EngineKeyAction::Solo(i))) == (playback_binding(key) == Some(PlaybackAction::Solo(i))),
        (engine_key_binding(key) == Some(EngineKeyAction::Quit)) == is_quit_key(key),
{
}

/// What one frame of the terminal view should do.
#[derive(Clone, Copy, Debug, PartialEq, Eq, Structural)]
pub struct FramePlan {
    /// Redraw the screen at all.
    pub draw: bool,
    /// Rebuild the waveform grid before drawing.
    pub rebuild_grid: bool,
}

/// What was last drawn, so that unchanged frames are skipped.
#[derive(Clone, Copy, Debug, PartialEq, Eq, Structural)]
pub struct RedrawState {
    pub cached_play_secs: u64,
    pub cached_rec_secs: u64,
    pub cached_waveform_len: usize,
    pub waveform_drawn: bool,
    pub force_redraw: bool,
}

/// The planner's decision for one frame and the state after it.
pub open spec fn plan_next(
    s: RedrawState,
    play_secs: u64,
    recording: Option<RecordingProbe>,
    has_precomputed: bool,
) -> (RedrawState, FramePlan) {
    let (is_recording, rec_secs, wf_len) = match recording {
        Some(p) => (true, p.rec_secs, match p.waveform_len {
            Some(n) => n,
            None => s.cached_waveform_len,
        }),
        None => (false, 0u64, 0usize),
    };
    let time_changed = play_secs != s.cached_play_secs || rec_secs != s.cached_rec_secs;
    let wf_changed = is_recording && wf_len != s.cached_waveform_len;
    let static_needs_draw = has_precomputed && !s.waveform_drawn;
    if !time_changed && !wf_changed && !static_needs_draw && !s.force_redraw {
        (s, FramePlan { draw: false, rebuild_grid: false })
    } else {
        let rebuild = wf_changed || static_needs_draw;
        (
            RedrawState {
                cached_play_secs: play_secs,
                cached_rec_secs: rec_secs,
                cached_waveform_len: wf_len,
                waveform_drawn: s.waveform_drawn || rebuild,
                force_redraw: false,
            },
            FramePlan { draw: true, rebuild_grid: rebuild },
        )
    }
}

impl RedrawState {
    /// Nothing drawn yet; the first frame is drawn.
    pub fn new() -> (s: Self)
        ensures
            s == (RedrawState {
                cached_play_secs: u64::MAX,
                cached_rec_secs: u64::MAX,
                cached_waveform_len: 0,
                waveform_drawn: false,
                force_redraw: true,
            }),
    {
        RedrawState {
            cached_play_secs: u64::MAX,
            cached_rec_secs: u64::MAX,
            cached_waveform_len: 0,
            waveform_drawn: false,
            force_redraw: true,
        }
    }

    /// Asks for the next frame to be drawn whatever changed.
    pub fn request_redraw(&mut self)
        ensures
            *final(self) == (RedrawState { force_redraw: true, ..*old(self) }),
    {
        self.force_redraw = true;
    }

    /// Decides whether this frame is drawn: only when the playback or
    /// recording time (in whole seconds) changed, the live waveform grew or
    /// shrank, a precomputed waveform was never drawn, or a redraw was
    /// requested. A drawn frame remembers what it showed.
    pub fn plan(&mut self, play_secs: u64, recording: Option<RecordingProbe>, has_precomputed: bool) -> (p: FramePlan)
        ensures
            (*final(self), p) == plan_next(*old(self), play_secs, recording, has_precomputed),
    {
        let (is_recording, rec_secs, wf_len) = match recording {
            Some(probe) => (true, probe.rec_secs, match probe.waveform_len {
                Some(n) => n,
                None => self.cached_waveform_len,
            }),
            None => (false, 0u64, 0usize),
        };
        let time_changed = play_secs != self.cached_play_secs || rec_secs != self.cached_rec_secs;
        let wf_changed = is_recording && wf_len != self.cached_waveform_len;
        let static_needs_draw = has_precomputed && !self.waveform_drawn;
        if !time_changed && !wf_changed && !static_needs_draw && !self.force_redraw {
            return FramePlan { draw: false, rebuild_grid: false };
        }
        self.cached_play_secs = play_secs;
        self.cached_rec_secs = rec_secs;
        self.cached_waveform_len = wf_len;
        self.force_redraw = false;
        let rebuild = wf_changed || static_needs_draw;
        if rebuild {
            self.waveform_drawn = true;
        }
        FramePlan { draw: true, rebuild_grid: rebuild }
    }
}

/// Once a frame was planned, planning again with the same readings draws
/// nothing and changes nothing: the view is only redrawn when something
/// changed.
pub proof fn lemma_plan_settles(
    s: RedrawState,
    play_secs: u64,
    recording: Option<RecordingProbe>,
    has_precomputed: bool,
)
    ensures
        ({
            let (s1, _) = plan_next(s, play_secs, recording, has_precomputed);
            let (s2, p2) = plan_next(s1, play_secs, recording, has_precomputed);
            &&& !p2.draw
            &&& s2 == s1
        }),
{
}

/// A frame is drawn whenever the playback time or the recording time, in
/// whole seconds, differs from what was last drawn, or a redraw was asked
/// for; and a drawn frame remembers the times it showed.
pub proof fn lemma_plan_draws_on_time_change(
    s: RedrawState,
    play_secs: u64,
    recording: Option<RecordingProbe>,
    has_precomputed: bool,
)
    ensures
        ({
            let (s1, p) = plan_next(s, play_secs, recording, has_precomputed);
            &&& play_secs != s.cached_play_secs ==> p.draw
            &&& (recording matches Some(r) ==> (r.rec_secs != s.cached_rec_secs ==> p.draw))
            &&& s.force_redraw ==> p.draw
            &&& (has_precomputed && !s.waveform_drawn) ==> p.draw && p.rebuild_grid
            &&& p.draw ==> s1.cached_play_secs == play_secs && !s1.force_redraw
            &&& p.draw ==> (recording matches Some(r) ==> s1.cached_rec_secs == r.rec_secs)
            &&& !p.draw ==> s1 == s
            &&& p.rebuild_grid ==> p.draw
        }),
{
}

/// The glyph at height `visual_y` (0 at the bottom) of a waveform column
/// that covers the rows from `start_row` up to, not including, `end_row`:
/// a bar inside the span, the centre line at half height, blank elsewhere.
pub open spec fn grid_cell(visual_y: int, start_row: int, end_row: int, height: int) -> char {
    if start_row <= visual_y && visual_y < end_row {
        '│'
    } else if visual_y == height / 2 {
        '─'
    } else {
        ' '
    }
}

/// How many columns of `len` are cut off on the left so that the last
/// `cols` are shown.
pub open spec fn hidden_columns(len: int, cols: int) -> int {
    if len > cols { len - cols } else { 0 }
}

/// Lays out the waveform grid: the last `cols` columns, each spanning
/// rows `(start_row, end_row)` counted from the bottom, on `height` lines.
/// Line 0 is the top of the screen.
pub fn waveform_grid(spans: &Vec<(usize, usize)>, cols: usize, height: usize) -> (lines: Vec<Vec<char>>)
    ensures
        lines@.len() == height,
        forall|row: int| 0 <= row < height ==>
            (#[trigger] lines@[row])@.len() == spans@.len() - hidden_columns(spans@.len() as int, cols as int),
        forall|row: int, i: int| 0 <= row < height && 0 <= i < spans@.len() - hidden_columns(spans@.len() as int, cols as int) ==> {
            let span = spans@[i + hidden_columns(spans@.len() as int, cols as int)];
            #[trigger] lines@[row]@[i] == grid_cell(height - 1 - row, span.0 as int, span.1 as int, height as int)
        },
{
    let len = spans.len();
    let start = if len > cols { len - cols } else { 0 };
    let mut lines: Vec<Vec<char>> = Vec::with_capacity(height);
    let mut row: usize = 0;
    while row < height
        invariant
            len == spans@.len(),
            start == hidden_columns(len as int, cols as int),
            0 <= row <= height,
            lines@.len() == row,
            forall|r: int| 0 <= r < row ==> (#[trigger] lines@[r])@.len() == len - start,
            forall|r: int, i: int| 0 <= r < row && 0 <= i < len - start ==> {
                let span = spans@[i + start];
                #[trigger] lines@[r]@[i] == grid_cell(height - 1 - r, span.0 as int, span.1 as int, height as int)
            },
        decreases height - row,
    {
        let visual_y = height - 1 - row;
        let mut line: Vec<char> = Vec::with_capacity(len - start);
        let mut i = start;
        while i < len
            invariant
                len == spans@.len(),
                start <= i <= len,
                0 <= row < height,
                visual_y == height - 1 - row,
                line@.len() == i - start,
                forall|c: int| 0 <= c < i - start ==> {
                    let span = spans@[c + start];
                    #[trigger] line@[c] == grid_cell(visual_y as int, span.0 as int, span.1 as int, height as int)
                },
            decreases len - i,
        {
            let (start_row, end_row) = spans[i];
            let ch = if visual_y >= start_row && visual_y < end_row {
                '│'
            } else if visual_y == height / 2 {
                '─'
            } else {
                ' '
            };
            line.push(ch);
            i = i + 1;
        }
        lines.push(line);
        row = row + 1;
    }
    lines
}

/// Of `len` columns, the last `min(len, cols)` are shown: the cut-off ones
/// are at the left, and the newest column always stays on screen.
pub proof fn lemma_grid_shows_the_newest(len: int, cols: int)
    requires
        len >= 0,
        cols >= 0,
    ensures
        0 <= hidden_columns(len, cols) <= len,
        len - hidden_columns(len, cols) == if len < cols { len } else { cols },
        (len > 0 && cols > 0) ==> hidden_columns(len, cols) <= len - 1,
{
}

/// A grid cell shows a bar exactly inside its column's span, the centre line
/// at half height outside it, and is blank otherwise.
pub proof fn lemma_grid_cell_glyphs(visual_y: int, start_row: int, end_row: int, height: int)
    ensures
        (grid_cell(visual_y, start_row, end_row, height) == '│') == (start_row <= visual_y < end_row),
        (grid_cell(visual_y, start_row, end_row, height) == '─')
            == (!(start_row <= visual_y < end_row) && visual_y == height / 2),
{
}

} // verus!
