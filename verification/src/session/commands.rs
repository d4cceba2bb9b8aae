use vstd::prelude::*;
use crate::engine::routing::{first_with_id, lemma_first_with_id, position_of_track};
use crate::engine::track::{Track, TrackId, routed};

verus! {

/// An edit that can be applied to an engine of type `E` and taken back.
pub trait Command<E> {
    type Error;

    /// Whether executing the command may turn `before` into `after` with
    /// outcome `r`. A command that does not say allows any change.
    open spec fn executes(&self, before: E, after: E, r: Result<(), Self::Error>) -> bool {
        true
    }

    /// Whether reverting the command may turn `before` into `after` with
    /// outcome `r`. A command that does not say allows any change.
    open spec fn undoes(&self, before: E, after: E, r: Result<(), Self::Error>) -> bool {
        true
    }

    /// Applies the change to the engine.
    fn execute(&self, engine: &mut E) -> (r: Result<(), Self::Error>)
        ensures
            self.executes(*old(engine), *final(engine), r),
    ;

    /// Reverts the change on the engine.
    fn undo(&self, engine: &mut E) -> (r: Result<(), Self::Error>)
        ensures
            self.undoes(*old(engine), *final(engine), r),
    ;

    /// A description for the user interface.
    fn name(&self) -> &str;
}

/// The abstract state of a `CommandManager`: the commands that can be
/// undone (the last one first), those that can be redone, and the bound on
/// the undo history.
pub struct HistoryView<C> {
    pub undo: Seq<C>,
    pub redo: Seq<C>,
    pub max_history: nat,
}

/// The undo history after an executed command `c` was recorded: it goes on
/// top of the undo stack, the oldest entry leaves when the bound is passed,
/// and the redo stack is emptied (a new branch of history starts).
pub open spec fn recorded<C>(h: HistoryView<C>, c: C) -> HistoryView<C> {
    let pushed = h.undo.push(c);
    HistoryView {
        undo: if pushed.len() > h.max_history { pushed.drop_first() } else { pushed },
        redo: Seq::empty(),
        max_history: h.max_history,
    }
}

/// The history after the top of the undo stack was undone.
pub open spec fn undone<C>(h: HistoryView<C>) -> HistoryView<C> {
    HistoryView { undo: h.undo.drop_last(), redo: h.redo.push(h.undo.last()), max_history: h.max_history }
}

/// The history after the top of the redo stack was redone.
pub open spec fn redone<C>(h: HistoryView<C>) -> HistoryView<C> {
    HistoryView { undo: h.undo.push(h.redo.last()), redo: h.redo.drop_last(), max_history: h.max_history }
}

/// The history after taking back the top of the undo stack failed: the
/// command is dropped.
pub open spec fn undo_dropped<C>(h: HistoryView<C>) -> HistoryView<C> {
    HistoryView { undo: h.undo.drop_last(), redo: h.redo, max_history: h.max_history }
}

/// The history after replaying the top of the redo stack failed: the
/// command is dropped.
pub open spec fn redo_dropped<C>(h: HistoryView<C>) -> HistoryView<C> {
    HistoryView { undo: h.undo, redo: h.redo.drop_last(), max_history: h.max_history }
}

/// The history holds no more commands than its bound.
pub open spec fn within_bound<C>(h: HistoryView<C>) -> bool {
    h.undo.len() + h.redo.len() <= h.max_history
}

/// Manages the history of commands.
pub struct CommandManager<C> {
    undo_stack: Vec<C>,
    redo_stack: Vec<C>,
    max_history: usize,
}

impl<C> View for CommandManager<C> {
    type V = HistoryView<C>;

    closed spec fn view(&self) -> HistoryView<C> {
        HistoryView { undo: self.undo_stack@, redo: self.redo_stack@, max_history: self.max_history as nat }
    }
}

impl<C> CommandManager<C> {
    pub fn new(max_history: usize) -> (m: Self)
        ensures
            m@.undo == Seq::<C>::empty(),
            m@.redo == Seq::<C>::empty(),
            m@.max_history == max_history,
    {
        CommandManager { undo_stack: Vec::new(), redo_stack: Vec::new(), max_history }
    }

    /// Records a command that has already been executed.
    fn record(&mut self, command: C)
        ensures
            final(self)@ == recorded(old(self)@, command),
    {
        self.undo_stack.push(command);
        self.redo_stack.clear();
        if self.undo_stack.len() > self.max_history {
            self.undo_stack.remove(0);
        }
        proof {
            let h = recorded(old(self)@, command);
            assert(self.undo_stack@ =~= h.undo);
            assert(self.redo_stack@ =~= h.redo);
        }
    }

    /// Settles a command after its execution with `outcome`: recorded when
    /// it succeeded, dropped when it failed; the outcome is handed back.
    pub fn finish_push<X>(&mut self, command: C, outcome: Result<(), X>) -> (r: Result<(), X>)
        ensures
            r == outcome,
            outcome is Ok ==> final(self)@ == recorded(old(self)@, command),
            outcome is Err ==> final(self)@ == old(self)@,
    {
        if outcome.is_ok() {
            self.record(command);
        }
        outcome
    }

    /// Settles a command taken off the undo stack after its undo gave
    /// `outcome`: it goes on the redo stack when the undo succeeded and is
    /// dropped when it failed.
    pub fn finish_undo<X>(&mut self, command: C, outcome: Result<(), X>) -> (r: Result<bool, X>)
        ensures
            outcome is Ok ==> r == Ok::<bool, X>(true) && final(self)@ == (HistoryView {
                undo: old(self)@.undo,
                redo: old(self)@.redo.push(command),
                max_history: old(self)@.max_history,
            }),
            outcome matches Err(e) ==> r == Err::<bool, X>(e) && final(self)@ == old(self)@,
    {
        match outcome {
            Ok(()) => {
                self.redo_stack.push(command);
                Ok(true)
            },
            Err(e) => Err(e),
        }
    }

    /// Settles a command taken off the redo stack after executing it again
    /// gave `outcome`: it goes back on the undo stack when that succeeded and
    /// is dropped when it failed.
    pub fn finish_redo<X>(&mut self, command: C, outcome: Result<(), X>) -> (r: Result<bool, X>)
        ensures
            outcome is Ok ==> r == Ok::<bool, X>(true) && final(self)@ == (HistoryView {
                undo: old(self)@.undo.push(command),
                redo: old(self)@.redo,
                max_history: old(self)@.max_history,
            }),
            outcome matches Err(e) ==> r == Err::<bool, X>(e) && final(self)@ == old(self)@,
    {
        match outcome {
            Ok(()) => {
                self.undo_stack.push(command);
                Ok(true)
            },
            Err(e) => Err(e),
        }
    }

    /// Executes `command` on `engine` and records it on the undo stack,
    /// clearing the redo stack. The result is the command's own outcome;
    /// when it failed, the history is left as it was.
    pub fn push<E>(&mut self, command: C, engine: &mut E) -> (r: Result<(), C::Error>)
        where
            C: Command<E>,
        ensures
            command.executes(*old(engine), *final(engine), r),
            r is Ok ==> final(self)@ == recorded(old(self)@, command),
            r is Err ==> final(self)@ == old(self)@,
    {
        let outcome = command.execute(engine);
        self.finish_push(command, outcome)
    }

    /// Takes back the last command on `engine`. Returns `Ok(false)`,
    /// touching nothing, when there is none; otherwise the command's undo
    /// runs, its outcome is returned (`Ok(true)` on success), the command
    /// leaves the undo stack and, when its undo succeeded, goes on the redo
    /// stack.
    pub fn undo<E>(&mut self, engine: &mut E) -> (r: Result<bool, C::Error>)
        where
            C: Command<E>,
        ensures
            old(self)@.undo.len() == 0 ==> {
                &&& r == Ok::<bool, C::Error>(false)
                &&& final(self)@ == old(self)@
                &&& *final(engine) == *old(engine)
            },
            old(self)@.undo.len() > 0 ==> {
                let c = old(self)@.undo.last();
                match r {
                    Ok(b) => {
                        &&& b
                        &&& c.undoes(*old(engine), *final(engine), Ok::<(), C::Error>(()))
                        &&& final(self)@ == undone(old(self)@)
                    },
                    Err(e) => {
                        &&& c.undoes(*old(engine), *final(engine), Err::<(), C::Error>(e))
                        &&& final(self)@ == undo_dropped(old(self)@)
                    },
                }
            },
    {
        match self.undo_stack.pop() {
            Some(cmd) => {
                let outcome = cmd.undo(engine);
                proof {
                    if outcome is Ok {
                        let u: () = outcome->Ok_0;
                        assert(u == ());
                        assert(outcome == Ok::<(), <C as Command<E>>::Error>(()));
                    }
                }
                self.finish_undo(cmd, outcome)
            },
            None => Ok(false),
        }
    }

    /// Replays the last undone command on `engine`. Returns `Ok(false)`,
    /// touching nothing, when there is none; otherwise the command executes
    /// again, its outcome is returned (`Ok(true)` on success), the command
    /// leaves the redo stack and, when it succeeded, goes back on the undo
    /// stack.
    pub fn redo<E>(&mut self, engine: &mut E) -> (r: Result<bool, C::Error>)
        where
            C: Command<E>,
        ensures
            old(self)@.redo.len() == 0 ==> {
                &&& r == Ok::<bool, C::Error>(false)
                &&& final(self)@ == old(self)@
                &&& *final(engine) == *old(engine)
            },
            old(self)@.redo.len() > 0 ==> {
                let c = old(self)@.redo.last();
                match r {
                    Ok(b) => {
                        &&& b
                        &&& c.executes(*old(engine), *final(engine), Ok::<(), C::Error>(()))
                        &&& final(self)@ == redone(old(self)@)
                    },
                    Err(e) => {
                        &&& c.executes(*old(engine), *final(engine), Err::<(), C::Error>(e))
                        &&& final(self)@ == redo_dropped(old(self)@)
                    },
                }
            },
    {
        match self.redo_stack.pop() {
            Some(cmd) => {
                let outcome = cmd.execute(engine);
                proof {
                    if outcome is Ok {
                        let u: () = outcome->Ok_0;
                        assert(u == ());
                        assert(outcome == Ok::<(), <C as Command<E>>::Error>(()));
                    }
                }
                self.finish_redo(cmd, outcome)
            },
            None => Ok(false),
        }
    }

    pub fn can_undo(&self) -> (b: bool)
        ensures
            b == (self@.undo.len() > 0),
    {
        !self.undo_stack.is_empty()
    }

    pub fn can_redo(&self) -> (b: bool)
        ensures
            b == (self@.redo.len() > 0),
    {
        !self.redo_stack.is_empty()
    }
}

/// Undoing a command and redoing it gives back the history.
pub proof fn lemma_undo_then_redo<C>(h: HistoryView<C>)
    requires
        h.undo.len() > 0,
    ensures
        redone(undone(h)) == h,
{
    assert(redone(undone(h)).undo =~= h.undo);
    assert(redone(undone(h)).redo =~= h.redo);
}

/// Redoing a command and undoing it again gives back the history.
pub proof fn lemma_redo_then_undo<C>(h: HistoryView<C>)
    requires
        h.redo.len() > 0,
    ensures
        undone(redone(h)) == h,
{
    assert(undone(redone(h)).undo =~= h.undo);
    assert(undone(redone(h)).redo =~= h.redo);
}

/// Undoing a command right after it was recorded, when the bound did not
/// push anything out, gives back the undo stack from before and offers just
/// that command for redo.
pub proof fn lemma_record_then_undo<C>(h: HistoryView<C>, c: C)
    requires
        h.undo.len() < h.max_history,
    ensures
        undone(recorded(h, c)).undo == h.undo,
        undone(recorded(h, c)).redo == seq![c],
{
    assert(undone(recorded(h, c)).undo =~= h.undo);
    assert(undone(recorded(h, c)).redo =~= seq![c]);
}

/// The history after recording the commands `cs`, first to last.
pub open spec fn recorded_all<C>(h: HistoryView<C>, cs: Seq<C>) -> HistoryView<C>
    decreases cs.len(),
{
    if cs.len() == 0 {
        h
    } else {
        recorded(recorded_all(h, cs.drop_last()), cs.last())
    }
}

/// The history after `k` successful undos.
pub open spec fn undone_times<C>(h: HistoryView<C>, k: nat) -> HistoryView<C>
    decreases k,
{
    if k == 0 {
        h
    } else {
        undone(undone_times(h, (k - 1) as nat))
    }
}

/// After commands were recorded on an empty history with bound `m`, the
/// undo stack holds the last `min(n, m)` of them in the order they came and
/// nothing can be redone.
pub proof fn lemma_history_keeps_the_latest<C>(cs: Seq<C>, m: nat)
    ensures
        ({
            let h = recorded_all(HistoryView { undo: Seq::empty(), redo: Seq::empty(), max_history: m }, cs);
            let k = if cs.len() < m { cs.len() } else { m };
            &&& h.undo == cs.subrange(cs.len() - k, cs.len() as int)
            &&& h.redo == Seq::<C>::empty()
            &&& h.max_history == m
        }),
    decreases cs.len(),
{
    let h0 = HistoryView { undo: Seq::<C>::empty(), redo: Seq::<C>::empty(), max_history: m };
    if cs.len() == 0 {
        assert(cs.subrange(0, 0) =~= Seq::<C>::empty());
    } else {
        let prev = cs.drop_last();
        lemma_history_keeps_the_latest(prev, m);
        let hp = recorded_all(h0, prev);
        let n = cs.len() as int;
        let kp = if prev.len() < m { prev.len() as int } else { m as int };
        let k = if cs.len() < m { cs.len() as int } else { m as int };
        assert(hp.undo == prev.subrange(n - 1 - kp, n - 1));
        let pushed = hp.undo.push(cs.last());
        assert(pushed =~= cs.subrange(n - 1 - kp, n));
        if pushed.len() > m {
            assert(pushed.drop_first() =~= cs.subrange(n - k, n));
        } else {
            assert(pushed =~= cs.subrange(n - k, n));
        }
    }
}

/// `k` successful undos take the last `k` commands off the undo stack and
/// put them on the redo stack, the most recent first.
pub proof fn lemma_undos_come_latest_first<C>(h: HistoryView<C>, k: nat)
    requires
        k <= h.undo.len(),
    ensures
        undone_times(h, k).undo == h.undo.subrange(0, h.undo.len() - k),
        undone_times(h, k).redo == h.redo + h.undo.subrange(h.undo.len() - k, h.undo.len() as int).reverse(),
        undone_times(h, k).max_history == h.max_history,
    decreases k,
{
    let n = h.undo.len() as int;
    if k == 0 {
        assert(h.undo.subrange(0, n) =~= h.undo);
        assert(h.redo + h.undo.subrange(n, n).reverse() =~= h.redo);
    } else {
        lemma_undos_come_latest_first(h, (k - 1) as nat);
        let p = undone_times(h, (k - 1) as nat);
        assert(p.undo.last() == h.undo[n - k]);
        assert(p.undo.drop_last() =~= h.undo.subrange(0, n - k));
        assert(h.undo.subrange(n - k, n).reverse() =~= h.undo.subrange(n - k + 1, n).reverse().push(h.undo[n - k]));
        assert(p.redo.push(p.undo.last()) =~= h.redo + h.undo.subrange(n - k, n).reverse());
    }
}

/// After `n` commands `cs` were pushed on a fresh history with bound `m`,
/// and `k` of them undone since, something can still be undone exactly while
/// `k < min(n, m)`, and the next undo takes back `cs[n - 1 - k]`: the latest
/// command first.
pub proof fn lemma_undo_order_after_pushes<C>(cs: Seq<C>, m: nat, k: nat)
    requires
        k <= (if cs.len() < m { cs.len() } else { m }),
    ensures
        ({
            let h = recorded_all(HistoryView { undo: Seq::empty(), redo: Seq::empty(), max_history: m }, cs);
            let kept = if cs.len() < m { cs.len() } else { m };
            let after = undone_times(h, k);
            &&& (after.undo.len() > 0) == (k < kept)
            &&& k < kept ==> after.undo.last() == cs[cs.len() - 1 - k]
        }),
{
    let h = recorded_all(HistoryView { undo: Seq::empty(), redo: Seq::empty(), max_history: m }, cs);
    let kept = if cs.len() < m { cs.len() } else { m };
    lemma_history_keeps_the_latest(cs, m);
    assert(h.undo.len() == kept);
    lemma_undos_come_latest_first(h, k);
    let after = undone_times(h, k);
    assert(after.undo.len() == kept - k);
    if k < kept {
        let n = cs.len() as int;
        assert(after.undo.last() == h.undo[kept - k - 1]);
        assert(h.undo[kept - k - 1] == cs[n - kept + (kept - k - 1)]);
    }
}

/// Every step of the history keeps it within its bound.
pub proof fn lemma_history_stays_bounded<C>(h: HistoryView<C>, c: C)
    requires
        within_bound(h),
    ensures
        within_bound(recorded(h, c)),
        h.undo.len() > 0 ==> within_bound(undone(h)) && within_bound(undo_dropped(h)),
        h.redo.len() > 0 ==> within_bound(redone(h)) && within_bound(redo_dropped(h)),
{
}

/// Sets the mute flag of a track to `new_state`; undoing it puts back
/// `old_state`, the flag the track had before.
pub struct SetTrackMute {
    pub track_id: TrackId,
    pub old_state: bool,
    pub new_state: bool,
}

/// The mute command that sets track `id` of `tracks` to `new_state`,
/// remembering the flag the track has now; for a missing track, whose flag
/// no step touches, it remembers the opposite of `new_state`.
pub open spec fn mute_command<S>(tracks: Seq<Track<S>>, id: TrackId, new_state: bool) -> SetTrackMute {
    SetTrackMute {
        track_id: id,
        old_state: match first_with_id(tracks, id) {
            Some(i) => tracks[i].muted,
            None => !new_state,
        },
        new_state,
    }
}

impl SetTrackMute {
    /// Builds the command that sets the mute flag of track `track_id` to
    /// `new_state`, reading the flag it has now from `tracks` so that undo
    /// puts it back.
    pub fn for_track<S>(tracks: &Vec<Track<S>>, track_id: TrackId, new_state: bool) -> (c: SetTrackMute)
        ensures
            c == mute_command(tracks@, track_id, new_state),
    {
        let old_state = match position_of_track(tracks, track_id) {
            Some(i) => {
                proof {
                    lemma_first_with_id(tracks@, track_id);
                }
                tracks[i].muted
            },
            None => !new_state,
        };
        SetTrackMute { track_id, old_state, new_state }
    }
}

/// `tracks` with the mute flag of the first track whose id is `id` set to
/// `muted`; unchanged when no track has that id.
pub open spec fn mute_set<S>(tracks: Seq<Track<S>>, id: TrackId, muted: bool) -> Seq<Track<S>> {
    match first_with_id(tracks, id) {
        Some(i) => tracks.update(i, routed(tracks[i], muted, tracks[i].solo)),
        None => tracks,
    }
}

fn set_mute_by_id<S>(tracks: &mut Vec<Track<S>>, id: TrackId, muted: bool)
    ensures
        final(tracks)@ == mute_set(old(tracks)@, id, muted),
{
    if let Some(i) = position_of_track(tracks, id) {
        proof {
            lemma_first_with_id(tracks@, id);
        }
        tracks[i].muted = muted;
        assert(tracks@ =~= mute_set(old(tracks)@, id, muted));
    }
}

impl<S> Command<Vec<Track<S>>> for SetTrackMute {
    type Error = ();

    /// The track's flag becomes `new_state`; it always succeeds.
    open spec fn executes(&self, before: Vec<Track<S>>, after: Vec<Track<S>>, r: Result<(), ()>) -> bool {
        r is Ok && after@ == mute_set(before@, self.track_id, self.new_state)
    }

    /// The track's flag goes back to `old_state`; it always succeeds.
    open spec fn undoes(&self, before: Vec<Track<S>>, after: Vec<Track<S>>, r: Result<(), ()>) -> bool {
        r is Ok && after@ == mute_set(before@, self.track_id, self.old_state)
    }

    fn execute(&self, engine: &mut Vec<Track<S>>) -> (r: Result<(), ()>) {
        set_mute_by_id(engine, self.track_id, self.new_state);
        Ok(())
    }

    fn undo(&self, engine: &mut Vec<Track<S>>) -> (r: Result<(), ()>) {
        set_mute_by_id(engine, self.track_id, self.old_state);
        Ok(())
    }

    fn name(&self) -> &str
        returns
            "Toggle Mute",
    {
        "Toggle Mute"
    }
}

/// Setting a track's mute flag and undoing it gives back the tracks, when
/// the command's `old_state` is the flag the track had.
pub proof fn lemma_set_mute_then_undo<S>(tracks: Seq<Track<S>>, id: TrackId, old_state: bool, new_state: bool)
    requires
        match first_with_id(tracks, id) {
            Some(i) => tracks[i].muted == old_state,
            None => true,
        },
    ensures
        mute_set(mute_set(tracks, id, new_state), id, old_state) == tracks,
{
    lemma_first_with_id(tracks, id);
    match first_with_id(tracks, id) {
        Some(i) => {
            let once = mute_set(tracks, id, new_state);
            assert(once =~= tracks.update(i, routed(tracks[i], new_state, tracks[i].solo)));
            assert(first_with_id(once, id) == Some(i)) by {
                let w = choose|w: int|
                    0 <= w < once.len() && once[w].id == id
                        && forall|j: int| 0 <= j < w ==> #[trigger] once[j].id != id;
                assert(0 <= i < once.len() && once[i].id == id
                    && forall|j: int| 0 <= j < i ==> #[trigger] once[j].id != id);
                if w < i {
                    assert(once[w].id != id);
                } else if w > i {
                    assert(once[i].id != id);
                }
            }
            assert(mute_set(once, id, old_state) =~= tracks);
        },
        None => {},
    }
}

/// A mute command built from the tracks it will run on is taken back by its
/// undo: executing it and then undoing it gives back the tracks, whatever
/// flag the track had and whether or not the track exists.
pub proof fn lemma_mute_command_round_trip<S>(tracks: Seq<Track<S>>, id: TrackId, new_state: bool)
    ensures
        ({
            let c = mute_command(tracks, id, new_state);
            mute_set(mute_set(tracks, c.track_id, c.new_state), c.track_id, c.old_state) == tracks
        }),
{
    let c = mute_command(tracks, id, new_state);
    lemma_set_mute_then_undo(tracks, id, c.old_state, new_state);
}

} // verus!
