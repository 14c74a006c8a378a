use vstd::prelude::*;

verus! {

/// What the player does next.
#[derive(Debug, Clone, Copy, PartialEq, Eq, Structural)]
pub enum PlaybackAction {
    /// Draw frame `i`, then wait for the next step.
    Show(usize),
    /// Keep the still image on screen and wait a moment.
    Wait,
    /// Playback is over.
    Finish,
}

/// Shows a sequence of frames: a single frame stays on screen until playback
/// is interrupted; several frames are shown once each, in order, until the
/// last one or an interruption.
pub struct Player {
    count: usize,
    next: usize,
    stopped: bool,
}

/// One step of playback. From the number of frames, the next frame to show,
/// whether playback has ended, and whether it may go on, the step gives the
/// next frame to show, whether playback has ended, and the action.
pub open spec fn player_step(count: nat, next: nat, stopped: bool, running: bool) -> (nat, bool, PlaybackAction) {
    if stopped || count == 0 {
        (next, true, PlaybackAction::Finish)
    } else if count == 1 {
        if next == 0 {
            (1, false, PlaybackAction::Show(0))
        } else if running {
            (next, false, PlaybackAction::Wait)
        } else {
            (next, true, PlaybackAction::Finish)
        }
    } else if running && next < count {
        ((next + 1) as nat, false, PlaybackAction::Show(next as usize))
    } else {
        (next, true, PlaybackAction::Finish)
    }
}

impl Player {
    /// The number of frames.
    pub closed spec fn frame_count(self) -> nat {
        self.count as nat
    }

    /// The index of the next frame to show.
    pub closed spec fn next_frame(self) -> nat {
        self.next as nat
    }

    /// Playback has ended.
    pub closed spec fn is_stopped(self) -> bool {
        self.stopped
    }

    #[verifier::type_invariant]
    closed spec fn next_in_range(self) -> bool {
        self.next <= self.count
    }

    /// A player for `count` frames, before the first step.
    pub fn new(count: usize) -> (p: Player)
        ensures
            p.frame_count() == count,
            p.next_frame() == 0,
            !p.is_stopped(),
    {
        Player { count, next: 0, stopped: false }
    }

    /// The next action, given whether playback may go on (no interruption has
    /// been asked for).
    pub fn step(&mut self, running: bool) -> (action: PlaybackAction)
        ensures
            ({
                let s = player_step(
                    old(self).frame_count(),
                    old(self).next_frame(),
                    old(self).is_stopped(),
                    running,
                );
                &&& final(self).frame_count() == old(self).frame_count()
                &&& final(self).next_frame() == s.0
                &&& final(self).is_stopped() == s.1
                &&& action == s.2
            }),
            action matches PlaybackAction::Show(i) ==> i < old(self).frame_count(),
    {
        proof {
            use_type_invariant(&*self);
        }
        if self.stopped || self.count == 0 {
            self.stopped = true;
            PlaybackAction::Finish
        } else if self.count == 1 {
            if self.next == 0 {
                self.next = 1;
                PlaybackAction::Show(0)
            } else if running {
                PlaybackAction::Wait
            } else {
                self.stopped = true;
                PlaybackAction::Finish
            }
        } else if running && self.next < self.count {
            let i: usize = self.next;
            self.next = self.next + 1;
            PlaybackAction::Show(i)
        } else {
            self.stopped = true;
            PlaybackAction::Finish
        }
    }
}

/// The actions of `k` steps taken while playback may go on, from the given state.
pub open spec fn uninterrupted_actions(count: nat, next: nat, stopped: bool, k: nat) -> Seq<PlaybackAction>
    decreases k,
{
    if k == 0 {
        Seq::empty()
    } else {
        let s = player_step(count, next, stopped, true);
        seq![s.2] + uninterrupted_actions(count, s.0, s.1, (k - 1) as nat)
    }
}

/// Once playback has finished it stays finished, whatever happens next.
pub proof fn lemma_finish_is_final(count: nat, next: nat, stopped: bool, running: bool, later: bool)
    requires
        player_step(count, next, stopped, running).2 == PlaybackAction::Finish,
    ensures
        ({
            let s = player_step(count, next, stopped, running);
            player_step(count, s.0, s.1, later).2 == PlaybackAction::Finish
        }),
{
}

/// An interruption ends playback at the next step; only a still image is
/// first drawn once.
pub proof fn lemma_interruption_finishes(count: nat, next: nat, stopped: bool)
    requires
        !(count == 1 && next == 0 && !stopped),
    ensures
        player_step(count, next, stopped, false).2 == PlaybackAction::Finish,
{
}

proof fn lemma_sequence_from(count: nat, next: nat)
    requires
        count >= 2,
        next <= count,
    ensures
        uninterrupted_actions(count, next, false, (count - next + 1) as nat) == Seq::new(
            (count - next) as nat,
            |i: int| PlaybackAction::Show((next + i) as usize),
        ).push(PlaybackAction::Finish),
    decreases count - next,
{
    if next == count {
        assert(uninterrupted_actions(count, next, true, 0) == Seq::<PlaybackAction>::empty());
        assert(uninterrupted_actions(count, next, false, 1) =~= seq![PlaybackAction::Finish]);
        assert(Seq::new(0, |i: int| PlaybackAction::Show((next + i) as usize)).push(
            PlaybackAction::Finish,
        ) =~= seq![PlaybackAction::Finish]);
    } else {
        lemma_sequence_from(count, next + 1);
        assert(uninterrupted_actions(count, next, false, (count - next + 1) as nat) =~= Seq::new(
            (count - next) as nat,
            |i: int| PlaybackAction::Show((next + i) as usize),
        ).push(PlaybackAction::Finish));
    }
}

/// Uninterrupted, several frames are shown once each, in order, and then
/// playback finishes.
pub proof fn lemma_sequence_plays_every_frame_once(count: nat)
    requires
        count >= 2,
    ensures
        uninterrupted_actions(count, 0, false, count + 1) == Seq::new(
            count,
            |i: int| PlaybackAction::Show(i as usize),
        ).push(PlaybackAction::Finish),
{
    lemma_sequence_from(count, 0);
    assert(Seq::new(count, |i: int| PlaybackAction::Show((0 + i) as usize)) =~= Seq::new(
        count,
        |i: int| PlaybackAction::Show(i as usize),
    ));
}

proof fn lemma_still_waits(k: nat)
    ensures
        uninterrupted_actions(1, 1, false, k) == Seq::new(k, |i: int| PlaybackAction::Wait),
    decreases k,
{
    if k > 0 {
        lemma_still_waits((k - 1) as nat);
        assert(uninterrupted_actions(1, 1, false, k) =~= Seq::new(k, |i: int| PlaybackAction::Wait));
    } else {
        assert(uninterrupted_actions(1, 1, false, k) =~= Seq::new(k, |i: int| PlaybackAction::Wait));
    }
}

/// Uninterrupted, a single frame is drawn once and then stays on screen.
pub proof fn lemma_still_image_stays(k: nat)
    requires
        k >= 1,
    ensures
        uninterrupted_actions(1, 0, false, k) == seq![PlaybackAction::Show(0)] + Seq::new(
            (k - 1) as nat,
            |i: int| PlaybackAction::Wait,
        ),
{
    lemma_still_waits((k - 1) as nat);
}

} // verus!
