//! Reading one line of the stream.

use crate::accumulator::{StreamDelta, StreamDeltaView};
use crate::json::{json_document, parse_value};
use crate::text::{same_text, strip_prefix};
use crate::wire::{decode_delta, delta_of};
use vstd::prelude::*;

verus! {

/// What one line of the stream is.
#[derive(Clone, Debug, PartialEq, Eq)]
pub enum ParsedFrame {
    /// The line carries no payload: a keep-alive, a comment, an empty line.
    NoPayload,
    /// The line is the sentinel that ends the stream.
    Terminator,
    /// The line carries a chunk of the turn.
    Decoded(StreamDelta),
}

/// What a [`ParsedFrame`] holds.
pub enum ParsedFrameView {
    NoPayload,
    Terminator,
    Decoded(StreamDeltaView),
}

impl View for ParsedFrame {
    type V = ParsedFrameView;

    open spec fn view(&self) -> ParsedFrameView {
        match self {
            ParsedFrame::NoPayload => ParsedFrameView::NoPayload,
            ParsedFrame::Terminator => ParsedFrameView::Terminator,
            ParsedFrame::Decoded(delta) => ParsedFrameView::Decoded(delta@),
        }
    }
}

/// Why the payload of a line could not be used. Such a line is skipped; it
/// does not end the stream.
#[derive(Clone, Copy, Debug, PartialEq, Eq, Structural)]
pub enum FrameDecodeError {
    /// The payload is not a JSON document.
    InvalidJson,
    /// The payload is a JSON document that is no chunk of a turn.
    UnexpectedShape,
}

/// The marker that a line with a payload starts with.
pub open spec fn event_marker() -> Seq<char> {
    "data: "@
}

/// The payload that ends the stream.
pub open spec fn done_sentinel() -> Seq<char> {
    "[DONE]"@
}

/// What a payload is.
pub open spec fn payload_frame(payload: Seq<char>) -> Result<ParsedFrameView, FrameDecodeError> {
    if payload == done_sentinel() {
        Ok(ParsedFrameView::Terminator)
    } else {
        match json_document(payload) {
            None => Err(FrameDecodeError::InvalidJson),
            Some(chunk) => match delta_of(chunk) {
                Some(delta) => Ok(ParsedFrameView::Decoded(delta)),
                None => Err(FrameDecodeError::UnexpectedShape),
            },
        }
    }
}

/// What a line is: without the event marker in front it carries no payload;
/// with it, what follows the marker is the payload.
pub open spec fn frame_of(line: Seq<char>) -> Result<ParsedFrameView, FrameDecodeError> {
    if event_marker().is_prefix_of(line) {
        payload_frame(line.skip(event_marker().len() as int))
    } else {
        Ok(ParsedFrameView::NoPayload)
    }
}

/// A parsed line, or the error of one, by what it holds.
pub open spec fn frame_view(parsed: Result<ParsedFrame, FrameDecodeError>) -> Result<
    ParsedFrameView,
    FrameDecodeError,
> {
    match parsed {
        Ok(frame) => Ok(frame@),
        Err(error) => Err(error),
    }
}

/// Reads one line of the stream.
pub fn parse_frame(line: &str) -> (r: Result<ParsedFrame, FrameDecodeError>)
    ensures
        frame_view(r) == frame_of(line@),
{
    match strip_prefix(line, "data: ") {
        None => Ok(ParsedFrame::NoPayload),
        Some(payload) => {
            proof {
                let marker = event_marker();
                assert(line@.subrange(0, marker.len() as int) =~= marker);
                assert(line@.skip(marker.len() as int) =~= payload@);
            }
            if same_text(payload, "[DONE]") {
                Ok(ParsedFrame::Terminator)
            } else {
                match parse_value(payload) {
                    None => Err(FrameDecodeError::InvalidJson),
                    Some(chunk) => match decode_delta(&chunk) {
                        Some(delta) => Ok(ParsedFrame::Decoded(delta)),
                        None => Err(FrameDecodeError::UnexpectedShape),
                    },
                }
            }
        },
    }
}

} // verus!
