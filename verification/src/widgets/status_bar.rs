//! The status bar of the first chat window.
use vstd::prelude::*;
use vstd::string::StringExecFns;

use crate::cli::{spinner_at, spinner_glyph};
use crate::model::{Model, StreamingState};
use crate::text::char_string;

verus! {

pub struct StatusBar {
    left: String,
    right: String,
}

impl StatusBar {
    /// The left text.
    pub closed spec fn left_spec(&self) -> Seq<char> {
        self.left@
    }

    /// The right text.
    pub closed spec fn right_spec(&self) -> Seq<char> {
        self.right@
    }

    /// The status followed by a space and the spinner (a space when idle) on
    /// the left, and the right status, if any, on the right.
    pub fn new(model: &Model) -> (r: Self)
        ensures
            r.left_spec() == model@.left_status + seq![
                ' ',
                if model@.streaming != StreamingState::Idle { spinner_at(model@.spinner_index) } else { ' ' },
            ],
            r.right_spec() == match model@.right_status {
                Some(s) => s,
                None => Seq::empty(),
            },
    {
        let streaming = match model.streaming_state() {
            StreamingState::Streaming | StreamingState::AwaitingStream => true,
            _ => false,
        };
        let glyph = spinner_glyph(streaming, model.spinner_index());
        let mut left = model.left_status_text();
        let ghost status = left@;
        left.append(" ");
        left.append(char_string(glyph).as_str());
        proof {
            reveal_strlit(" ");
            assert(left@ =~= status + seq![' ', glyph]);
        }
        let right = match model.right_status_text() {
            Some(s) => s,
            None => String::new(),
        };
        Self { left, right }
    }

    /// The left text.
    pub fn left(&self) -> (r: &str)
        ensures
            r@ == self.left_spec(),
    {
        self.left.as_str()
    }

    /// The right text.
    pub fn right(&self) -> (r: &str)
        ensures
            r@ == self.right_spec(),
    {
        self.right.as_str()
    }
}

} // verus!
