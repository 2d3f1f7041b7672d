//! The states of a scan over HTML for `<pre class="lang"><code>` blocks
//! whose text is to be highlighted.
use vstd::prelude::*;

verus! {

/// Where a scan over HTML stands with respect to a code block to highlight.
#[derive(Clone, Debug, PartialEq)]
pub enum ParseState {
    /// Not in a code block at all.
    NotInBlock,
    /// Possibly the start of a highlight block, with the language as payload.
    MaybeStartBlock(String),
    /// The start of the code block has been confirmed; highlight next text node.
    WillStartCodeBlock(String),
    /// In a code block; use the content for highlighting.
    InCodeBlock(String),
}

/// The parts of the HTML that the scan reacts to.
#[derive(Debug)]
pub enum ParseEvent {
    /// Starting a `<pre>`, with the language its `class` names, if any.
    StartPre(Option<String>),
    /// Starting a `<code>`.
    StartCode,
    /// Ending a `<code>`.
    EndCode,
    Text,
    Other,
}

/// The state after `event`: a `<pre>` with a language may start a block, a
/// `<code>` right after it confirms it, its first text is the code, and
/// anything else leaves the block.
pub open spec fn next_state(state: ParseState, event: ParseEvent) -> ParseState {
    match (state, event) {
        (ParseState::NotInBlock, ParseEvent::StartPre(Some(language))) => ParseState::MaybeStartBlock(language),
        (ParseState::MaybeStartBlock(language), ParseEvent::StartCode) => ParseState::WillStartCodeBlock(language),
        (ParseState::WillStartCodeBlock(language), ParseEvent::Text) => ParseState::InCodeBlock(language),
        _ => ParseState::NotInBlock,
    }
}

impl ParseState {
    /// The state before any HTML is read.
    pub fn new() -> (r: ParseState)
        ensures
            r == ParseState::NotInBlock,
    {
        ParseState::NotInBlock
    }

    /// The next state given the current one and an event.
    pub fn next(self, event: ParseEvent) -> (r: ParseState)
        ensures
            r == next_state(self, event),
    {
        match (self, event) {
            (ParseState::NotInBlock, ParseEvent::StartPre(Some(language))) => ParseState::MaybeStartBlock(language),
            (ParseState::MaybeStartBlock(language), ParseEvent::StartCode) => ParseState::WillStartCodeBlock(language),
            (ParseState::WillStartCodeBlock(language), ParseEvent::Text) => ParseState::InCodeBlock(language),
            _ => ParseState::NotInBlock,
        }
    }
}

} // verus!
