//! The LSPS0 protocol: telling a peer which protocols this node supports.

use crate::error::Error;
use crate::jit_channel::channel_manager::{Outcome, OutcomeValue};
use crate::node::NodeId;
use crate::transport::msgs::{
    LSPS0Message, LSPS0Request, LSPS0Response, LSPSMessage, ListProtocolsResponse, MessageValue,
    RequestValue, ResponseValue,
};
use vstd::prelude::*;

verus! {

/// Answers `lsps0.list_protocols` with the protocols that are enabled.
#[derive(Debug)]
pub struct LSPS0MessageHandler {
    /// The numbers of the protocols that are enabled.
    pub protocols: Vec<u16>,
}

/// What a message of the LSPS0 protocol does: a request is answered with the
/// protocols that are enabled; an error response is reported; nothing else is
/// done.
pub open spec fn lsps0_step(protocols: Seq<u16>, message: MessageValue, peer: NodeId) -> OutcomeValue {
    match message {
        MessageValue::Request(id, RequestValue::ListProtocols) => OutcomeValue::send(
            peer,
            MessageValue::Response(id, ResponseValue::ListProtocols(protocols)),
        ),
        MessageValue::Response(_, ResponseValue::ListProtocolsError(_)) => OutcomeValue::failure(
            Error::ListProtocolsRejected,
        ),
        _ => OutcomeValue::nothing(),
    }
}

impl LSPS0MessageHandler {
    /// A handler that answers with `protocols`.
    pub fn new(protocols: Vec<u16>) -> (handler: LSPS0MessageHandler)
        ensures
            handler.protocols@ == protocols@,
    {
        LSPS0MessageHandler { protocols }
    }

    /// Takes a message of the LSPS0 protocol from `counterparty_node_id`.
    pub fn handle_message(&self, message: LSPS0Message, counterparty_node_id: &NodeId) -> (out:
        Outcome)
        ensures
            out@ == lsps0_step(self.protocols@, message@, *counterparty_node_id),
    {
        match message {
            LSPS0Message::Request(request_id, LSPS0Request::ListProtocols(_)) => {
                let mut protocols: Vec<u16> = Vec::new();
                let mut i: usize = 0;
                while i < self.protocols.len()
                    invariant
                        i <= self.protocols.len(),
                        protocols@ == self.protocols@.take(i as int),
                    decreases self.protocols.len() - i,
                {
                    protocols.push(self.protocols[i]);
                    i += 1;
                    assert(protocols@ =~= self.protocols@.take(i as int));
                }
                assert(self.protocols@.take(i as int) =~= self.protocols@);
                Outcome {
                    message: Some(
                        (
                            *counterparty_node_id,
                            LSPSMessage::LSPS0(
                                LSPS0Message::Response(
                                    request_id,
                                    LSPS0Response::ListProtocols(
                                        ListProtocolsResponse { protocols },
                                    ),
                                ),
                            ),
                        ),
                    ),
                    event: None,
                    action: None,
                    result: Ok(()),
                }
            },
            LSPS0Message::Response(_, LSPS0Response::ListProtocols(_)) => Outcome {
                message: None,
                event: None,
                action: None,
                result: Ok(()),
            },
            LSPS0Message::Response(_, LSPS0Response::ListProtocolsError(_)) => Outcome {
                message: None,
                event: None,
                action: None,
                result: Err(Error::ListProtocolsRejected),
            },
        }
    }
}

} // verus!
