use crate::area::Choice;
use vstd::prelude::*;

verus! {

/// How a game ended.
#[derive(Debug, Clone, Copy, PartialEq, Eq, Structural)]
pub enum StopType {
    Win,
    Lose,
}

/// Where the game is between inputs.
pub enum Phase {
    Invalid,
    ChooseLocation(Choice),
    CommandInput,
    Stopped(StopType),
    LoadLocation(String),
}

/// The phase that the game goes on in, and the message of a failure to load, if any.
pub struct PhaseResult {
    pub next_phase: Phase,
    pub load_error: Option<String>,
}

impl Phase {
    /// The phase with a failure to load.
    pub fn with_error(self, message: String) -> (r: PhaseResult)
        ensures
            r.next_phase == self,
            r.load_error == Some(message),
    {
        PhaseResult { next_phase: self, load_error: Some(message) }
    }
}

impl PhaseResult {
    /// The phase without a failure.
    pub fn from_phase(phase: Phase) -> (r: PhaseResult)
        ensures
            r.next_phase == phase,
            r.load_error is None,
    {
        PhaseResult { next_phase: phase, load_error: None }
    }
}

/// The frames that are left to show, the last one shown, and a frame for an error that stopped
/// the game. The frames wait in reverse order, the next one last.
pub struct FrameCache<F> {
    last_frame: Option<F>,
    remaining_frames: Vec<F>,
    error_frame: Option<F>,
}

/// The elements in the reverse order.
pub open spec fn reversed<F>(s: Seq<F>) -> Seq<F> {
    Seq::new(s.len(), |i: int| s[s.len() - 1 - i])
}

fn reverse_vec<F>(v: Vec<F>) -> (r: Vec<F>)
    ensures
        r@ == reversed(v@),
{
    let ghost given = v@;
    let mut v = v;
    let mut r: Vec<F> = Vec::new();
    while v.len() > 0
        invariant
            v@ == given.take(v.len() as int),
            r.len() + v.len() == given.len(),
            forall|k: int| 0 <= k < r.len() ==> r@[k] == given[given.len() - 1 - k],
        decreases v.len(),
    {
        let ghost before = v@;
        let x = v.pop().unwrap();
        assert(x == given[v.len() as int]);
        r.push(x);
        assert(v@ =~= given.take(v.len() as int));
    }
    assert(r@ =~= reversed(given));
    r
}

impl<F> FrameCache<F> {
    /// The frames still to be shown, in order: the remaining ones, then the error frame.
    pub closed spec fn pending(&self) -> Seq<F> {
        reversed(self.remaining_frames@) + match self.error_frame {
            Some(f) => seq![f],
            None => seq![],
        }
    }

    /// The frames still to be shown before any error frame, in order.
    pub closed spec fn remaining_view(&self) -> Seq<F> {
        reversed(self.remaining_frames@)
    }

    /// Whether there is an error frame waiting.
    pub closed spec fn has_error_frame(&self) -> bool {
        self.error_frame is Some
    }

    /// The frame shown last, if any.
    pub closed spec fn last_frame_view(&self) -> Option<F> {
        self.last_frame
    }

    /// A cache that shows these frames, in order.
    pub fn new(frames: Vec<F>) -> (c: Self)
        ensures
            c.pending() == frames@,
            !c.has_error_frame(),
            c.last_frame_view() is None,
    {
        let remaining = reverse_vec(frames);
        let c = FrameCache { last_frame: None, remaining_frames: remaining, error_frame: None };
        assert(reversed(reversed(frames@)) =~= frames@);
        assert(c.pending() =~= frames@);
        c
    }

    /// Adds frames after those still waiting; a waiting error frame is dropped.
    pub fn add_new_frames(&mut self, frames: Vec<F>)
        ensures
            final(self).pending() == old(self).remaining_view() + frames@,
            !final(self).has_error_frame(),
            final(self).last_frame_view() == old(self).last_frame_view(),
    {
        let ghost added = frames@;
        let mut frames = reverse_vec(frames);
        let ghost new_reversed = frames@;
        let ghost old_remaining = self.remaining_frames@;
        std::mem::swap(&mut self.remaining_frames, &mut frames);
        self.remaining_frames.append(&mut frames);
        self.error_frame = None;
        assert(self.remaining_frames@ == new_reversed + old_remaining);
        assert(reversed(new_reversed + old_remaining) =~= reversed(old_remaining) + reversed(new_reversed));
        assert(reversed(new_reversed) =~= added);
        assert(final(self).pending() =~= reversed(old_remaining) + reversed(new_reversed));
    }

    /// Sets the frame that shows an error that stopped the game.
    pub fn set_error_frame(&mut self, frame: F)
        ensures
            final(self).pending() == old(self).remaining_view() + seq![frame],
            final(self).has_error_frame(),
            final(self).last_frame_view() == old(self).last_frame_view(),
    {
        self.error_frame = Some(frame);
    }

    /// Whether there are frames left to show.
    pub fn has_more_frames(&self) -> (r: bool)
        ensures
            r == (self.pending().len() > 0),
    {
        self.remaining_frames.len() > 0 || self.error_frame.is_some()
    }
}

impl<F: Clone> FrameCache<F> {
    /// Takes the next frame to show: the next remaining one (which becomes the last frame), or
    /// else the error frame.
    pub fn take_next_frame(&mut self) -> (r: Option<F>)
        ensures
            old(self).pending().len() == 0 ==> r is None && final(self).pending() == old(self).pending(),
            old(self).pending().len() > 0 ==> r == Some(old(self).pending()[0]) && final(self).pending()
                == old(self).pending().drop_first(),
            !old(self).has_error_frame() ==> !final(self).has_error_frame(),
    {
        let ghost old_pending = self.pending();
        let ghost old_remaining = self.remaining_frames@;
        match self.remaining_frames.pop() {
            Some(frame) => {
                self.last_frame = Some(frame.clone());
                assert(old_remaining == self.remaining_frames@.push(frame));
                assert(reversed(old_remaining) =~= seq![frame] + reversed(self.remaining_frames@));
                assert(self.pending() =~= old_pending.drop_first());
                Some(frame)
            },
            None => {
                assert(old_remaining.len() == 0);
                assert(reversed(self.remaining_frames@) =~= Seq::<F>::empty());
                let frame = self.error_frame.take();
                assert(self.pending() =~= old_pending.drop_first() || frame is None);
                frame
            },
        }
    }
}

/// The frames still to show are those before any error frame, then the error frame: without
/// one they are just the remaining frames, and with one it comes last.
pub proof fn lemma_pending_parts<F>(c: FrameCache<F>)
    ensures
        !c.has_error_frame() ==> c.pending() == c.remaining_view(),
        c.has_error_frame() ==> c.pending().len() == c.remaining_view().len() + 1 && c.pending().drop_last()
            == c.remaining_view(),
{
    if c.has_error_frame() {
        assert(c.pending().drop_last() =~= c.remaining_view());
    } else {
        assert(c.pending() =~= c.remaining_view());
    }
}

/// What a run of frame events does to the frames of a cache without an error frame, as
/// `add_new_frames` and `take_next_frame` say: an event `Some(frames)` adds the frames after
/// those waiting, and `None` takes the next frame, if any. Gives the frames taken, in order,
/// and those left waiting.
pub open spec fn replay_frames<F>(start: Seq<F>, events: Seq<Option<Seq<F>>>) -> (Seq<F>, Seq<F>)
    decreases events.len(),
{
    if events.len() == 0 {
        (Seq::empty(), start)
    } else {
        let (taken, waiting) = replay_frames(start, events.drop_last());
        match events.last() {
            Some(frames) => (taken, waiting + frames),
            None => if waiting.len() > 0 {
                (taken.push(waiting[0]), waiting.drop_first())
            } else {
                (taken, waiting)
            },
        }
    }
}

/// All the frames that the events add, in order.
pub open spec fn added_frames<F>(events: Seq<Option<Seq<F>>>) -> Seq<F>
    decreases events.len(),
{
    if events.len() == 0 {
        Seq::empty()
    } else {
        added_frames(events.drop_last()) + match events.last() {
            Some(frames) => frames,
            None => Seq::empty(),
        }
    }
}

/// Frames come out first in, first out: whatever frames are added and taken, the frames taken
/// and those still waiting are, in order, the frames the cache was made with followed by all
/// those added. So each take gives the oldest frame not yet taken.
pub proof fn law_frames_first_in_first_out<F>(start: Seq<F>, events: Seq<Option<Seq<F>>>)
    ensures
        replay_frames(start, events).0 + replay_frames(start, events).1 == start + added_frames(events),
    decreases events.len(),
{
    if events.len() > 0 {
        law_frames_first_in_first_out(start, events.drop_last());
        let (taken, waiting) = replay_frames(start, events.drop_last());
        match events.last() {
            Some(frames) => {
                assert(taken + (waiting + frames) =~= (taken + waiting) + frames);
            },
            None => {
                if waiting.len() > 0 {
                    assert(taken.push(waiting[0]) + waiting.drop_first() =~= taken + waiting);
                }
                assert(start + added_frames(events) =~= start + added_frames(events.drop_last()));
            },
        }
    }
}

/// Whether one call leads from cache `before` to cache `after`, as the contracts of the calls
/// say: `Some(frames)` is `add_new_frames(frames)`, and `None` is `take_next_frame`, which gives
/// `taken`.
pub open spec fn frame_step<F>(before: FrameCache<F>, event: Option<Seq<F>>, taken: Option<F>, after: FrameCache<F>) -> bool {
    match event {
        Some(frames) => {
            &&& after.pending() == before.remaining_view() + frames
            &&& !after.has_error_frame()
            &&& taken is None
        },
        None => {
            &&& before.pending().len() == 0 ==> taken is None && after.pending() == before.pending()
            &&& before.pending().len() > 0 ==> taken == Some(before.pending()[0]) && after.pending()
                == before.pending().drop_first()
            &&& !before.has_error_frame() ==> !after.has_error_frame()
        },
    }
}

/// The frames that the takes gave, in order.
pub open spec fn frames_taken<F>(taken: Seq<Option<F>>) -> Seq<F>
    decreases taken.len(),
{
    if taken.len() == 0 {
        Seq::empty()
    } else {
        frames_taken(taken.drop_last()) + match taken.last() {
            Some(f) => seq![f],
            None => Seq::empty(),
        }
    }
}

/// Frames come out of a cache first in, first out: over a run of calls from a cache without
/// an error frame, where frames are added and taken, the frames taken and those still waiting
/// are, in order, the frames the cache began with followed by all the frames added. So each take
/// gives the oldest frame not yet taken.
pub proof fn law_frame_cache_first_in_first_out<F>(
    caches: Seq<FrameCache<F>>,
    events: Seq<Option<Seq<F>>>,
    taken: Seq<Option<F>>,
)
    requires
        caches.len() == events.len() + 1,
        taken.len() == events.len(),
        !caches[0].has_error_frame(),
        forall|i: int| 0 <= i < events.len() ==> frame_step(#[trigger] caches[i], events[i], taken[i], caches[i + 1]),
    ensures
        frames_taken(taken) + caches.last().pending() == caches[0].pending() + added_frames(events),
        !caches.last().has_error_frame(),
    decreases events.len(),
{
    if events.len() > 0 {
        let n = events.len() - 1;
        law_frame_cache_first_in_first_out(caches.drop_last(), events.drop_last(), taken.drop_last());
        let before = caches[n];
        let after = caches[n + 1];
        assert(caches.drop_last().last() == before);
        assert(frame_step(caches[n], events[n], taken[n], caches[n + 1]));
        lemma_pending_parts(before);
        let prior = frames_taken(taken.drop_last());
        match events[n] {
            Some(frames) => {
                assert(prior + (before.pending() + frames) =~= (prior + before.pending()) + frames);
            },
            None => {
                if before.pending().len() > 0 {
                    assert(prior + seq![before.pending()[0]] + before.pending().drop_first() =~= prior
                        + before.pending());
                }
                assert(added_frames(events) =~= added_frames(events.drop_last()));
            },
        }
    }
}

/// What the game needs next: a frame to show, input from the player, or nothing more.
pub enum GameResult {
    Frame,
    Input,
    Stop,
}

impl GameResult {
    /// Whether the result is a frame.
    pub fn has_frame(&self) -> (r: bool)
        ensures
            r == (*self is Frame),
    {
        match self {
            GameResult::Frame => true,
            _ => false,
        }
    }
}

/// Hands out the next frame of a cache that has one.
pub struct FrameGetter;

impl FrameGetter {
    /// The next frame of the cache.
    pub fn get<F: Clone>(cache: &mut FrameCache<F>) -> (f: F)
        requires
            old(cache).pending().len() > 0,
        ensures
            f == old(cache).pending()[0],
            final(cache).pending() == old(cache).pending().drop_first(),
            !old(cache).has_error_frame() ==> !final(cache).has_error_frame(),
    {
        cache.take_next_frame().unwrap()
    }
}

/// Whether the game takes input now: no frames are left to show and the phase asks for input.
pub fn ready_to_take_input<F>(cache: &FrameCache<F>, phase: &Phase) -> (r: bool)
    requires
        !(*phase is Invalid),
    ensures
        r == (cache.pending().len() == 0 && (*phase is ChooseLocation || *phase is CommandInput)),
{
    if cache.has_more_frames() {
        false
    } else {
        match phase {
            Phase::ChooseLocation(_) | Phase::CommandInput => true,
            _ => false,
        }
    }
}

/// What comes next where no location is waiting to be loaded: frames while there are any, a
/// stop after an error or when the game is over, and input otherwise. Where the phase loads a
/// location, the loading comes first, and none is returned.
pub fn next_result<F>(cache: &FrameCache<F>, is_in_error_state: bool, phase: &Phase) -> (r: Option<GameResult>)
    requires
        !(*phase is Invalid),
    ensures
        cache.pending().len() > 0 ==> r == Some(GameResult::Frame),
        cache.pending().len() == 0 && is_in_error_state ==> r == Some(GameResult::Stop),
        cache.pending().len() == 0 && !is_in_error_state ==> r == (match *phase {
            Phase::ChooseLocation(_) | Phase::CommandInput => Some(GameResult::Input),
            Phase::Stopped(_) => Some(GameResult::Stop),
            _ => None,
        }),
{
    if cache.has_more_frames() {
        Some(GameResult::Frame)
    } else if is_in_error_state {
        Some(GameResult::Stop)
    } else {
        match phase {
            Phase::ChooseLocation(_) | Phase::CommandInput => Some(GameResult::Input),
            Phase::Stopped(_) => Some(GameResult::Stop),
            _ => None,
        }
    }
}

} // verus!
