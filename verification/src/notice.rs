//! The lines that report what a run is doing and how each step ended.

use crate::account::BlockId;
use crate::call::{call_text, describe_call, AdministrativeCall};
use crate::endpoint::{relay_label, relay_name, RelayChain};
use crate::text::{decimal, decimal_string, hex, hex_string};
use vstd::prelude::*;

verus! {

/// The step of a run at which a failure occurred.
#[derive(Clone, Copy, Debug, PartialEq, Eq, Structural)]
pub enum ErrorKind {
    /// No connection to the node could be opened.
    Connection,
    /// The node did not answer the query for the sequence number.
    Rpc,
    /// The call was rejected, reverted, or dropped before finality.
    Submission,
}

/// A failure of a step, with what the node or the transport said of it.
#[derive(Debug, PartialEq, Eq)]
pub struct RunError {
    pub kind: ErrorKind,
    pub detail: String,
}

/// What a failure holds.
pub struct RunErrorView {
    pub kind: ErrorKind,
    pub detail: Seq<char>,
}

impl View for RunError {
    type V = RunErrorView;

    open spec fn view(&self) -> RunErrorView {
        RunErrorView { kind: self.kind, detail: self.detail@ }
    }
}

impl RunError {
    /// A second value that holds the same failure.
    pub fn duplicate(&self) -> (copy: RunError)
        ensures
            copy@ == self@,
    {
        RunError { kind: self.kind, detail: self.detail.clone() }
    }
}

/// One line of the report of a run.
#[derive(Debug, PartialEq, Eq)]
pub enum Notice {
    /// Work on the parachain `id` begins.
    Updating { relay: RelayChain, id: u32 },
    /// A connection to the parachain's node is being opened.
    Connecting,
    /// The call is about to be submitted.
    Submitting(AdministrativeCall),
    /// The call took effect in the finalized block.
    Included(BlockId),
    /// A step failed.
    Failed(RunError),
}

/// What a notice holds.
pub enum NoticeView {
    Updating { relay: RelayChain, id: u32 },
    Connecting,
    Submitting(AdministrativeCall),
    Included(BlockId),
    Failed(RunErrorView),
}

impl View for Notice {
    type V = NoticeView;

    open spec fn view(&self) -> NoticeView {
        match self {
            Notice::Updating { relay, id } => NoticeView::Updating { relay: *relay, id: *id },
            Notice::Connecting => NoticeView::Connecting,
            Notice::Submitting(call) => NoticeView::Submitting(*call),
            Notice::Included(block) => NoticeView::Included(*block),
            Notice::Failed(error) => NoticeView::Failed(error@),
        }
    }
}

/// What introduces the detail of a failure of each kind.
pub open spec fn failure_heading(kind: ErrorKind) -> Seq<char> {
    match kind {
        ErrorKind::Connection => "- Connection failed: "@,
        ErrorKind::Rpc => "- Sequence lookup failed: "@,
        ErrorKind::Submission => "- Tx did not succeed: "@,
    }
}

/// The text of a notice. The notice that opens a parachain starts with an
/// empty line; a block is written as `0x` and its hash in hexadecimal.
pub open spec fn notice_text(notice: NoticeView) -> Seq<char> {
    match notice {
        NoticeView::Updating { relay, id } => "\nUpdating "@ + relay_name(relay) + " Glutton "@
            + decimal(id as nat),
        NoticeView::Connecting => "- Connecting to client..."@,
        NoticeView::Submitting(call) => "- Submitting '"@ + call_text(call) + "'..."@,
        NoticeView::Included(block) => "- Tx included in block 0x"@ + hex(block.hash@),
        NoticeView::Failed(error) => failure_heading(error.kind) + error.detail,
    }
}

impl Notice {
    /// Writes the notice as the report shows it.
    pub fn render(&self) -> (text: String)
        ensures
            text@ == notice_text(self@),
    {
        match self {
            Notice::Updating { relay, id } => {
                let mut text = String::from_str("\nUpdating ");
                text.append(relay_label(*relay));
                text.append(" Glutton ");
                text.append(decimal_string(*id as u64).as_str());
                text
            },
            Notice::Connecting => String::from_str("- Connecting to client..."),
            Notice::Submitting(call) => {
                let mut text = String::from_str("- Submitting '");
                text.append(describe_call(*call).as_str());
                text.append("'...");
                text
            },
            Notice::Included(block) => {
                let mut text = String::from_str("- Tx included in block 0x");
                text.append(hex_string(block.hash.as_slice()).as_str());
                text
            },
            Notice::Failed(error) => {
                let mut text = match error.kind {
                    ErrorKind::Connection => String::from_str("- Connection failed: "),
                    ErrorKind::Rpc => String::from_str("- Sequence lookup failed: "),
                    ErrorKind::Submission => String::from_str("- Tx did not succeed: "),
                };
                text.append(error.detail.as_str());
                text
            },
        }
    }
}

} // verus!
