//! `AppData`: the application state machine. It holds the current bounds,
//! the last drawn result, and the derived blocked flag, and reacts to the
//! three events the embedding shell can raise.

use vstd::prelude::*;

use crate::range::RangeInt;

verus! {

/// An event the embedding shell delivers to the state machine.
pub enum AppEvent {
    /// Draw a value from the current range, if it is not inverted.
    Generate,
    /// Replace the start bound.
    SetRangeStart(RangeInt),
    /// Replace the end bound.
    SetRangeEnd(RangeInt),
}

impl AppEvent {
    /// Any bound carried by the event satisfies the bound invariant.
    pub open spec fn wf(&self) -> bool {
        match self {
            AppEvent::Generate => true,
            AppEvent::SetRangeStart(v) => v.wf(),
            AppEvent::SetRangeEnd(v) => v.wf(),
        }
    }
}

/// The full session state.
pub struct AppData {
    /// Lower end of the selectable range.
    pub range_start: RangeInt,
    /// Upper end of the selectable range.
    pub range_end: RangeInt,
    /// The last drawn value; absent until the first successful draw, and
    /// only ever replaced, never cleared.
    pub result: Option<RangeInt>,
    /// Derived flag: true iff the range is inverted (end < start).
    pub generation_blocked: bool,
}

impl AppData {
    /// The state invariant: both bounds are valid, the blocked flag is
    /// exactly the inversion test, and a present result is a valid bound
    /// (it may lie outside bounds edited after the draw).
    pub open spec fn wf(&self) -> bool {
        &&& self.range_start.wf()
        &&& self.range_end.wf()
        &&& self.generation_blocked == (self.range_end@ < self.range_start@)
        &&& match self.result {
            Some(v) => v.wf(),
            None => true,
        }
    }

    /// How one event steps the state: bound edits replace one bound and
    /// recompute the blocked flag, leaving the result alone; a blocked
    /// `Generate` changes nothing; an unblocked one only replaces the
    /// result, with a value inside the bounds at the moment of the draw.
    pub open spec fn transition_rel(pre: AppData, event: AppEvent, post: AppData) -> bool {
        match event {
            AppEvent::SetRangeStart(v) => post == (AppData {
                range_start: v,
                range_end: pre.range_end,
                result: pre.result,
                generation_blocked: pre.range_end@ < v@,
            }),
            AppEvent::SetRangeEnd(v) => post == (AppData {
                range_start: pre.range_start,
                range_end: v,
                result: pre.result,
                generation_blocked: v@ < pre.range_start@,
            }),
            AppEvent::Generate => if pre.generation_blocked {
                post == pre
            } else {
                &&& post.range_start == pre.range_start
                &&& post.range_end == pre.range_end
                &&& post.generation_blocked == pre.generation_blocked
                &&& post.result matches Some(v) && pre.range_start@ <= v@ <= pre.range_end@
            },
        }
    }

    /// Builds the state from persisted or default bounds: no result yet,
    /// and the blocked flag derived from the bounds.
    pub fn from_bounds(start: RangeInt, end: RangeInt) -> (d: AppData)
        requires
            start.wf(),
            end.wf(),
        ensures
            d.wf(),
            d.range_start == start,
            d.range_end == end,
            d.result is None,
            d.generation_blocked == (end@ < start@),
    {
        AppData {
            range_start: start,
            range_end: end,
            result: None,
            generation_blocked: end.get() < start.get(),
        }
    }

    /// Draws a value from the current, non-inverted range and stores it.
    fn gen_rand(&mut self)
        requires
            old(self).wf(),
            !old(self).generation_blocked,
        ensures
            final(self).wf(),
            final(self).range_start == old(self).range_start,
            final(self).range_end == old(self).range_end,
            final(self).generation_blocked == old(self).generation_blocked,
            final(self).result matches Some(v) && old(self).range_start@ <= v@ <= old(
                self,
            ).range_end@,
    {
        let v = draw_uniform(self.range_start.get(), self.range_end.get());
        self.result = Some(RangeInt::new(v));
    }

    /// The single entry point: consumes one event and mutates the state as
    /// `transition_rel` describes, preserving the state invariant.
    pub fn transition(&mut self, event: AppEvent)
        requires
            old(self).wf(),
            event.wf(),
        ensures
            final(self).wf(),
            AppData::transition_rel(*old(self), event, *final(self)),
    {
        match event {
            AppEvent::SetRangeStart(v) => {
                self.range_start = v;
                self.generation_blocked = self.range_end.get() < self.range_start.get();
            },
            AppEvent::SetRangeEnd(v) => {
                self.range_end = v;
                self.generation_blocked = self.range_end.get() < self.range_start.get();
            },
            AppEvent::Generate => {
                if !self.generation_blocked {
                    self.gen_rand()
                }
            },
        }
    }
}

impl Default for AppData {
    /// The freshly started session: both bounds 1, no result, not blocked.
    fn default() -> (d: Self)
        ensures
            d.wf(),
            d.range_start@ == 1,
            d.range_end@ == 1,
            d.result is None,
            !d.generation_blocked,
    {
        AppData {
            range_start: RangeInt::new(1),
            range_end: RangeInt::new(1),
            result: None,
            generation_blocked: false,
        }
    }
}

/// After setting the start to `s` and the end to `e`, in either order, the
/// blocked flag is exactly whether the end lies below the start, and the
/// bounds are the two values just set.
pub proof fn lemma_blocked_after_both_edits(
    pre: AppData,
    s: RangeInt,
    e: RangeInt,
    mid: AppData,
    post: AppData,
)
    requires
        (AppData::transition_rel(pre, AppEvent::SetRangeStart(s), mid) && AppData::transition_rel(
            mid,
            AppEvent::SetRangeEnd(e),
            post,
        )) || (AppData::transition_rel(pre, AppEvent::SetRangeEnd(e), mid)
            && AppData::transition_rel(mid, AppEvent::SetRangeStart(s), post)),
    ensures
        post.generation_blocked == (e@ < s@),
        post.range_start == s,
        post.range_end == e,
        post.result == pre.result,
{
}

/// While the state is blocked, `Generate` is a no-op: the result — present
/// or not — and everything else stay unchanged.
pub proof fn lemma_generate_blocked_is_noop(pre: AppData, post: AppData)
    requires
        pre.generation_blocked,
        AppData::transition_rel(pre, AppEvent::Generate, post),
    ensures
        post == pre,
        post.result == pre.result,
{
}

/// While the state is not blocked, `Generate` stores a result within the
/// bounds; with equal bounds the draw is deterministic: it is that single
/// value.
pub proof fn lemma_generate_in_bounds(pre: AppData, post: AppData)
    requires
        !pre.generation_blocked,
        AppData::transition_rel(pre, AppEvent::Generate, post),
    ensures
        post.result matches Some(v) && pre.range_start@ <= v@ <= pre.range_end@,
        pre.range_start@ == pre.range_end@ ==> post.result == Some(pre.range_start),
{
    if pre.range_start@ == pre.range_end@ {
        let v = post.result->0;
        crate::range::lemma_range_int_eq(v, pre.range_start);
    }
}

/// Relies on rand::random_range on an inclusive integer range: the sampled
/// value lies within the (nonempty) range; the draw is uniform over it.
#[verifier::external_body]
fn draw_uniform(lo: u8, hi: u8) -> (r: u8)
    requires
        lo <= hi,
    ensures
        lo <= r <= hi,
{
    rand::random_range(lo..=hi)
}

} // verus!
