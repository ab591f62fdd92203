//! The smallest change that brings the drawn screen up to date: nothing,
//! new lines at the end, or a full redraw.
use vstd::prelude::*;
use crate::terminal::model::{ScreenLine, ScreenView, ViewModel, screen_view};
use crate::terminal::render_state::RenderState;

verus! {

/// How the shown lines change.
pub enum VisibleScreenChange<'a> {
    Noop,
    Append(&'a [ScreenLine]),
    ReplaceAll(&'a [ScreenLine]),
}

impl<'a> VisibleScreenChange<'a> {
    /// The lines shown after this change is made to `previous`.
    pub open spec fn applied_to(&self, previous: Seq<ScreenView>) -> Seq<ScreenView> {
        match self {
            VisibleScreenChange::Noop => previous,
            VisibleScreenChange::Append(lines) => previous + screen_view(lines@),
            VisibleScreenChange::ReplaceAll(lines) => screen_view(lines@),
        }
    }
}

/// What the page has to do to show the next view.
pub struct RenderPlan<'a> {
    pub visible_screen: VisibleScreenChange<'a>,
    pub prompt_enabled: bool,
}

/// Works out render plans.
pub struct RenderDiffStrategy;

/// The next lines start with the previous ones.
pub open spec fn is_extension(previous: Seq<ScreenView>, next: Seq<ScreenView>) -> bool {
    previous.len() <= next.len() && next.subrange(0, previous.len() as int) == previous
}

fn is_visible_screen_extension(previous: &[ScreenLine], next: &[ScreenLine]) -> (r: bool)
    ensures
        r == is_extension(screen_view(previous@), screen_view(next@)),
{
    if previous.len() > next.len() {
        return false;
    }
    let mut i: usize = 0;
    while i < previous.len()
        invariant
            i <= previous@.len(),
            previous@.len() <= next@.len(),
            forall|j: int| 0 <= j < i ==> (#[trigger] previous@[j])@ == next@[j]@,
        decreases previous@.len() - i,
    {
        if !previous[i].same_as(&next[i]) {
            assert(screen_view(next@).subrange(0, previous@.len() as int)[i as int]
                != screen_view(previous@)[i as int]);
            return false;
        }
        i = i + 1;
    }
    assert(screen_view(next@).subrange(0, previous@.len() as int) =~= screen_view(previous@));
    true
}

impl RenderDiffStrategy {
    /// The plan that turns what `previous` shows into what `next` shows.
    pub fn build<'a>(&self, previous: &RenderState, next: &'a ViewModel) -> (plan: RenderPlan<'a>)
        ensures
            plan.prompt_enabled == next@.prompt_enabled,
            plan.visible_screen.applied_to(previous@) == next@.visible_lines,
            plan.visible_screen is ReplaceAll <==> !is_extension(previous@, next@.visible_lines),
            plan.visible_screen is Noop <==> previous@ == next@.visible_lines,
    {
        let prev = previous.visible_lines();
        let lines = next.visible_lines();
        let visible_screen = if !is_visible_screen_extension(prev, lines) {
            assert(screen_view(lines@).subrange(0, lines@.len() as int) =~= screen_view(lines@));
            VisibleScreenChange::ReplaceAll(lines)
        } else if prev.len() == lines.len() {
            assert(screen_view(lines@).subrange(0, prev@.len() as int) =~= screen_view(lines@));
            VisibleScreenChange::Noop
        } else {
            let (_, rest) = lines.split_at(prev.len());
            assert(screen_view(prev@) + screen_view(rest@) =~= screen_view(lines@));
            assert(screen_view(prev@).len() != screen_view(lines@).len());
            VisibleScreenChange::Append(rest)
        };
        RenderPlan { visible_screen, prompt_enabled: next.prompt_enabled() }
    }
}

} // verus!
