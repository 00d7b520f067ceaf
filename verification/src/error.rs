//! The errors that the library reports.

use vstd::prelude::*;

verus! {

/// Why an intercepted HTLC was turned down.
#[derive(Clone, Copy, Debug, PartialEq, Eq, Structural)]
pub enum HtlcRejection {
    /// The offer under which the channel was sold has expired.
    OfferExpired,
    /// More is to be forwarded than came in.
    OutboundExceedsInbound,
    /// What is held back is less than the opening fee.
    FeeTooLow,
    /// The amount that came in is not the payment size that was agreed.
    WrongPaymentSize,
    /// The channel already holds a payment that waits for it.
    AlreadyPaid,
}

/// An error that the library reports to its caller.
#[derive(Clone, Copy, Debug, PartialEq, Eq, Structural)]
pub enum Error {
    /// JIT channels were not configured when the manager was made.
    NotConfigured,
    /// There is no channel with this id for this counterparty.
    UnknownChannel,
    /// No request with this id waits for this answer.
    UnknownRequest,
    /// The channel is not in a state for this step.
    UnexpectedState,
    /// An intercepted HTLC was turned down and is to be failed.
    HtlcRejected(HtlcRejection),
    /// The peer could not read a message that we sent.
    PeerRejectedMessage,
    /// A message arrived for a protocol that is not configured.
    ProtocolNotConfigured,
    /// A response arrived that no channel was waiting for.
    UnknownResponse,
    /// The LSP supports none of our versions of the protocol.
    NoCommonVersion,
    /// The LSP answered with a short channel id that cannot be read.
    InvalidScid,
    /// The peer answered `lsps0.list_protocols` with an error.
    ListProtocolsRejected,
    /// A request of a client was answered with the error of this code.
    RequestRejected(i32),
}

impl Error {
    /// Whether the error is one of the caller's own making, as opposed to one
    /// that a message of a peer gave rise to.
    pub fn is_misuse(&self) -> (res: bool)
        ensures
            res == (*self is NotConfigured || *self is UnknownChannel || *self is UnknownRequest
                || *self is UnexpectedState || *self is HtlcRejected),
    {
        match self {
            Error::NotConfigured => true,
            Error::UnknownChannel => true,
            Error::UnknownRequest => true,
            Error::UnexpectedState => true,
            Error::HtlcRejected(_) => true,
            _ => false,
        }
    }

    /// The error in words.
    pub open spec fn description_text(self) -> Seq<char> {
        match self {
            Error::NotConfigured => {
                "JIT Channels were not configured when LSPManager was instantiated"@
            },
            Error::UnknownChannel => "no channel with this id exists for this counterparty"@,
            Error::UnknownRequest => "no request with this id waits for this answer"@,
            Error::UnexpectedState => "the channel is not in a state for this step"@,
            Error::HtlcRejected(HtlcRejection::OfferExpired) => {
                "the intercepted HTLC arrived after the offer expired"@
            },
            Error::HtlcRejected(HtlcRejection::OutboundExceedsInbound) => {
                "the intercepted HTLC is to forward more than came in"@
            },
            Error::HtlcRejected(HtlcRejection::FeeTooLow) => {
                "the intercepted HTLC does not leave the opening fee"@
            },
            Error::HtlcRejected(HtlcRejection::WrongPaymentSize) => {
                "the intercepted HTLC is not of the payment size that was agreed"@
            },
            Error::HtlcRejected(HtlcRejection::AlreadyPaid) => {
                "the channel already holds a payment that waits for it"@
            },
            Error::PeerRejectedMessage => {
                "the peer did not understand a message we previously sent, maybe they don't support a protocol we are trying to use?"@
            },
            Error::ProtocolNotConfigured => {
                "received LSPS2 message without LSPS2 message handler configured"@
            },
            Error::UnknownResponse => "received a response that no channel was waiting for"@,
            Error::NoCommonVersion => "LSP does not support any of our specification versions"@,
            Error::InvalidScid => "received buy response with an invalid scid"@,
            Error::ListProtocolsRejected => "the peer answered lsps0.list_protocols with an error"@,
            Error::RequestRejected(_) => "a request of a client was rejected"@,
        }
    }

    /// The error in words.
    pub fn description(&self) -> (text: &'static str)
        ensures
            text@ == self.description_text(),
    {
        match self {
            Error::NotConfigured => {
                "JIT Channels were not configured when LSPManager was instantiated"
            },
            Error::UnknownChannel => "no channel with this id exists for this counterparty",
            Error::UnknownRequest => "no request with this id waits for this answer",
            Error::UnexpectedState => "the channel is not in a state for this step",
            Error::HtlcRejected(HtlcRejection::OfferExpired) => {
                "the intercepted HTLC arrived after the offer expired"
            },
            Error::HtlcRejected(HtlcRejection::OutboundExceedsInbound) => {
                "the intercepted HTLC is to forward more than came in"
            },
            Error::HtlcRejected(HtlcRejection::FeeTooLow) => {
                "the intercepted HTLC does not leave the opening fee"
            },
            Error::HtlcRejected(HtlcRejection::WrongPaymentSize) => {
                "the intercepted HTLC is not of the payment size that was agreed"
            },
            Error::HtlcRejected(HtlcRejection::AlreadyPaid) => {
                "the channel already holds a payment that waits for it"
            },
            Error::PeerRejectedMessage => {
                "the peer did not understand a message we previously sent, maybe they don't support a protocol we are trying to use?"
            },
            Error::ProtocolNotConfigured => {
                "received LSPS2 message without LSPS2 message handler configured"
            },
            Error::UnknownResponse => "received a response that no channel was waiting for",
            Error::NoCommonVersion => "LSP does not support any of our specification versions",
            Error::InvalidScid => "received buy response with an invalid scid",
            Error::ListProtocolsRejected => "the peer answered lsps0.list_protocols with an error",
            Error::RequestRejected(_) => "a request of a client was rejected",
        }
    }
}

} // verus!
