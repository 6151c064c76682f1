//! The text that shows the frame rate, and when it last changed.

use vstd::prelude::*;

verus! {

/// `std::time::Instant`, carried as an opaque value: the library never looks inside it.
#[verifier::external_type_specification]
#[verifier::external_body]
pub struct ExInstant(std::time::Instant);

/// The frame-rate text and the moment it was last refreshed.
pub struct FpsText {
    /// When the text was last refreshed; `None` until the first refresh.
    pub last_fps_text_change: Option<std::time::Instant>,
    /// The text shown.
    pub fps_text: String,
}

impl FpsText {
    /// A text that was never refreshed: no refresh time and an empty text.
    pub fn new() -> (res: Self)
        ensures
            res.last_fps_text_change is None,
            res.fps_text@ == Seq::<char>::empty(),
    {
        FpsText { last_fps_text_change: None, fps_text: String::new() }
    }

    /// Whether the text is due for a refresh: it never was refreshed, or, as the caller
    /// measured it, at least a second has passed since it last was.
    pub fn refresh_due(&self, a_second_has_passed: bool) -> (res: bool)
        ensures
            res == (self.last_fps_text_change is None || a_second_has_passed),
    {
        match self.last_fps_text_change {
            Some(_) => a_second_has_passed,
            None => true,
        }
    }

    /// Shows `text` from the moment `now` on.
    pub fn refresh(&mut self, now: std::time::Instant, text: String)
        ensures
            final(self).last_fps_text_change == Some(now),
            final(self).fps_text@ == text@,
    {
        self.fps_text = text;
        self.last_fps_text_change = Some(now);
    }
}

} // verus!
