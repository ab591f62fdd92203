//! What the page last drew.
use vstd::prelude::*;
use crate::terminal::model::{ScreenLine, ScreenView, copy_screen, screen_view};

verus! {

/// The lines the page shows since the last render.
pub struct RenderState {
    visible_lines: Vec<ScreenLine>,
}

impl View for RenderState {
    type V = Seq<ScreenView>;

    closed spec fn view(&self) -> Seq<ScreenView> {
        screen_view(self.visible_lines@)
    }
}

impl Default for RenderState {
    fn default() -> (r: Self)
        ensures
            r@ == Seq::<ScreenView>::empty(),
    {
        let r = RenderState { visible_lines: Vec::new() };
        assert(r@ =~= Seq::<ScreenView>::empty());
        r
    }
}

impl RenderState {
    pub fn visible_lines(&self) -> (r: &[ScreenLine])
        ensures
            screen_view(r@) == self@,
    {
        self.visible_lines.as_slice()
    }

    /// Remembers `visible_lines` as what the page now shows.
    pub fn update(&mut self, visible_lines: &[ScreenLine], prompt_enabled: bool)
        ensures
            final(self)@ == screen_view(visible_lines@),
    {
        self.visible_lines = copy_screen(visible_lines);
    }
}

} // verus!
