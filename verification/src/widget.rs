//! The Widget trait: a UI component that renders into a buffer and
//! handles input.

use vstd::prelude::*;
use crate::buffer::Buffer;
use crate::rect::Rect;
use crate::messages::InputEvent;

verus! {

/// A UI component that can be rendered to a buffer and handle input.
/// Widgets are composed into layouts and driven uniformly by the
/// application's frame loop.
pub trait Widget {
    /// The widget's current bounds.
    fn bounds(&self) -> Rect;

    /// Move or resize the widget, as when the terminal is resized.
    fn set_bounds(&mut self, bounds: Rect);

    /// Render the widget into the buffer.  The buffer's dimensions are
    /// preserved; the widget writes only cells.
    fn render(&self, buffer: &mut Buffer)
        requires
            old(buffer).wf(),
        ensures
            final(buffer).wf(),
            final(buffer).spec_width() == old(buffer).spec_width(),
            final(buffer).spec_height() == old(buffer).spec_height(),
    ;

    /// Handle an input event; returns whether the event was consumed.
    fn handle_input(&mut self, event: &InputEvent) -> bool;

    /// Whether the widget needs to be redrawn.
    fn needs_redraw(&self) -> bool;

    /// Clear the redraw flag after rendering.
    fn clear_redraw(&mut self);
}

} // verus!
