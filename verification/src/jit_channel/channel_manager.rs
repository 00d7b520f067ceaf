//! The JIT channels that are asked for, sold and paid, and the executable
//! steps that take a channel from one state to the next. What each step does
//! is specified in [`crate::jit_channel::steps`].

use crate::error::{Error, HtlcRejection};
use crate::events::{Event, EventValue, FailureReason, LSPS2Event};
use crate::jit_channel::msgs::{
    menu_value, BuyRequest, BuyResponse, GetInfoRequest, GetInfoResponse, GetVersionsRequest,
    GetVersionsResponse, JitChannelScid, LSPS2Message, LSPS2Request, LSPS2Response,
    OpeningFeeOffer, OpeningFeeParams, RawOpeningFeeParams,
    LSPS2_BUY_REQUEST_INVALID_OPENING_FEE_PARAMS_ERROR_CODE,
    LSPS2_BUY_REQUEST_INVALID_VERSION_ERROR_CODE,
    LSPS2_BUY_REQUEST_PAYMENT_SIZE_TOO_LARGE_ERROR_CODE,
    LSPS2_BUY_REQUEST_PAYMENT_SIZE_TOO_SMALL_ERROR_CODE,
};
use crate::jit_channel::steps::{
    buy_rejection, buy_requested_step, buy_response_step, channel_failed, channel_ready_step,
    create_invoice_step, failures_of_peer, give_up, htlc_intercepted_step, htlc_rejection,
    inbound_by_request, inbound_by_user_id, inbound_values, info_received_step,
    info_requested_step, invoice_generated_step, lemma_buy_requested_keeps_well_formed,
    lemma_buy_response_keeps_well_formed, lemma_channel_ready_keeps_well_formed,
    lemma_create_invoice_keeps_well_formed, lemma_first_index_at, lemma_first_index_none,
    lemma_htlc_intercepted_keeps_well_formed, lemma_info_received_keeps_well_formed,
    lemma_info_requested_keeps_well_formed, lemma_invoice_generated_keeps_well_formed,
    lemma_message_keeps_well_formed, lemma_params_generated_keeps_well_formed,
    lemma_params_selected_keeps_well_formed, lemma_request_rejected_keeps_well_formed,
    lemma_versions_received_keeps_well_formed, lemma_without_peer_keeps_well_formed,
    message_step, outbound_by_scid, outbound_values, params_generated_step,
    params_selected_step, pending_by_id, pending_values, promised_menu, raw_menu_value,
    request_rejected_step, supported_versions, versions_received_step, versions_requested_step,
    with_pending, without_peer,
};
use crate::jit_channel::utils::{compute_opening_fee, is_valid_opening_fee_params_at, promise_text};
use crate::node::{ChannelId, HtlcAction, InterceptId, NodeId};
use crate::time::UnixTime;
use crate::transport::msgs::{LSPSMessage, MessageValue, RequestId, RequestValue, ResponseError};
use vstd::prelude::*;

verus! {

/// The one version of the protocol that this library speaks.
pub const SUPPORTED_SPEC_VERSION: u16 = 1;

/// Whether this library speaks a version of the protocol.
pub open spec fn is_supported_version(version: u16) -> bool {
    version == SUPPORTED_SPEC_VERSION
}

/// The highest version that is both in `theirs` and supported here.
pub open spec fn highest_common_version(theirs: Seq<u16>) -> Option<u16> {
    if exists|i: int| 0 <= i < theirs.len() && is_supported_version(theirs[i]) {
        Some(SUPPORTED_SPEC_VERSION)
    } else {
        None
    }
}

/// Picks the highest version that is both in `theirs` and supported here.
pub fn select_version(theirs: &Vec<u16>) -> (res: Option<u16>)
    ensures
        res == highest_common_version(theirs@),
        res matches Some(version) ==> {
            &&& is_supported_version(version)
            &&& theirs@.contains(version)
            &&& forall|i: int|
                0 <= i < theirs.len() && is_supported_version(theirs[i]) ==> theirs[i] <= version
        },
{
    let mut best: Option<u16> = None;
    let mut i: usize = 0;
    while i < theirs.len()
        invariant
            i <= theirs.len(),
            best is None ==> forall|j: int| 0 <= j < i ==> !is_supported_version(theirs[j]),
            best matches Some(version) ==> {
                &&& is_supported_version(version)
                &&& exists|j: int| 0 <= j < i && theirs[j] == version
                &&& forall|j: int|
                    0 <= j < i && is_supported_version(theirs[j]) ==> theirs[j] <= version
            },
        decreases theirs.len() - i,
    {
        let version: u16 = theirs[i];
        if version == SUPPORTED_SPEC_VERSION {
            let higher = match best {
                Some(found) => version > found,
                None => true,
            };
            if higher {
                best = Some(version);
            }
        }
        i += 1;
    }
    best
}

/// Where a channel that we asked for stands.
#[derive(Clone, Copy, Debug, PartialEq, Eq, Structural)]
pub enum InboundJITChannelState {
    /// We asked the LSP for its versions.
    AwaitingVersions,
    /// We asked the LSP for its fees and parameters.
    AwaitingInfo { version: u16 },
    /// The menu was handed to the user, who has to choose.
    MenuOffered { version: u16 },
    /// We asked the LSP to sell us the channel.
    AwaitingBuy { version: u16 },
    /// The channel was sold; it will be opened when the payment arrives.
    AwaitingPayment { scid: u64, cltv_expiry_delta: u32, client_trusts_lsp: bool },
}

/// A channel that we asked an LSP for.
#[derive(Debug, PartialEq, Eq)]
pub struct InboundJITChannel {
    /// The LSP.
    pub counterparty_node_id: NodeId,
    /// The id that the user gave the channel.
    pub user_channel_id: u128,
    /// The size of the payment, where the invoice is for a fixed amount.
    pub payment_size_msat: Option<u64>,
    /// The token that goes to the LSP with the `get_info` request.
    pub token: Option<String>,
    /// The offer that the user chose, once chosen.
    pub opening_fee_params: Option<OpeningFeeParams>,
    /// The request whose response the channel waits for, if any.
    pub pending_request: Option<RequestId>,
    /// Where the channel stands.
    pub state: InboundJITChannelState,
}

/// The mathematical value of an [`InboundJITChannel`], field by field.
pub struct InboundChannelValue {
    pub counterparty_node_id: NodeId,
    pub user_channel_id: u128,
    pub payment_size_msat: Option<u64>,
    pub token: Option<Seq<char>>,
    pub opening_fee_params: Option<OpeningFeeOffer>,
    pub pending_request: Option<Seq<char>>,
    pub state: InboundJITChannelState,
}

impl View for InboundJITChannel {
    type V = InboundChannelValue;

    open spec fn view(&self) -> InboundChannelValue {
        InboundChannelValue {
            counterparty_node_id: self.counterparty_node_id,
            user_channel_id: self.user_channel_id,
            payment_size_msat: self.payment_size_msat,
            token: match self.token {
                Some(token) => Some(token@),
                None => None,
            },
            opening_fee_params: match self.opening_fee_params {
                Some(offer) => Some(offer@),
                None => None,
            },
            pending_request: match self.pending_request {
                Some(id) => Some(id@),
                None => None,
            },
            state: self.state,
        }
    }
}

/// A request of a client that waits for the user's answer.
#[derive(Debug, PartialEq, Eq)]
pub struct PendingRequest {
    /// The client.
    pub counterparty_node_id: NodeId,
    /// The id of the request.
    pub request_id: RequestId,
    /// The request: `get_info` or `buy`.
    pub request: LSPS2Request,
}

/// The mathematical value of a [`PendingRequest`], field by field.
pub struct PendingRequestValue {
    pub counterparty_node_id: NodeId,
    pub request_id: Seq<char>,
    pub request: RequestValue,
}

impl View for PendingRequest {
    type V = PendingRequestValue;

    open spec fn view(&self) -> PendingRequestValue {
        PendingRequestValue {
            counterparty_node_id: self.counterparty_node_id,
            request_id: self.request_id@,
            request: self.request@,
        }
    }
}

/// Where a channel that we sold stands.
#[derive(Clone, Copy, Debug, PartialEq, Eq)]
pub enum OutboundJITChannelState {
    /// The channel was sold; the payment has not arrived.
    AwaitingPayment,
    /// The payment is held back until the channel is ready.
    AwaitingChannelReady {
        /// The handle of the HTLC that is held back.
        intercept_id: InterceptId,
        /// The amount that came in.
        inbound_amount_msat: u64,
        /// The amount to forward once the channel is ready.
        outbound_amount_msat: u64,
    },
}

/// A channel that we sold to a client.
#[derive(Debug, PartialEq, Eq)]
pub struct OutboundJITChannel {
    /// The short channel id that was given to the client.
    pub scid: u64,
    /// The client.
    pub counterparty_node_id: NodeId,
    /// The `cltv_expiry_delta` that was given to the client.
    pub cltv_expiry_delta: u32,
    /// Whether the client was asked to trust us with the funding transaction.
    pub client_trusts_lsp: bool,
    /// The size of the payment, where it was fixed when the channel was bought.
    pub payment_size_msat: Option<u64>,
    /// The offer under which the channel was sold.
    pub opening_fee_params: OpeningFeeParams,
    /// Where the channel stands.
    pub state: OutboundJITChannelState,
}

/// The mathematical value of an [`OutboundJITChannel`], field by field.
pub struct OutboundChannelValue {
    pub scid: u64,
    pub counterparty_node_id: NodeId,
    pub cltv_expiry_delta: u32,
    pub client_trusts_lsp: bool,
    pub payment_size_msat: Option<u64>,
    pub opening_fee_params: OpeningFeeOffer,
    pub state: OutboundJITChannelState,
}

impl View for OutboundJITChannel {
    type V = OutboundChannelValue;

    open spec fn view(&self) -> OutboundChannelValue {
        OutboundChannelValue {
            scid: self.scid,
            counterparty_node_id: self.counterparty_node_id,
            cltv_expiry_delta: self.cltv_expiry_delta,
            client_trusts_lsp: self.client_trusts_lsp,
            payment_size_msat: self.payment_size_msat,
            opening_fee_params: self.opening_fee_params@,
            state: self.state,
        }
    }
}

/// What a step of the protocol gives out: at most one message to send, one
/// event for the user and one order for the node, and whether the step went
/// well.
#[derive(Debug, PartialEq, Eq)]
pub struct Outcome {
    /// The message to send, and the peer to send it to.
    pub message: Option<(NodeId, LSPSMessage)>,
    /// The event for the user.
    pub event: Option<Event>,
    /// The order for the node.
    pub action: Option<HtlcAction>,
    /// Whether the step went well.
    pub result: Result<(), Error>,
}

/// The mathematical value of an [`Outcome`], field by field.
pub struct OutcomeValue {
    pub message: Option<(NodeId, MessageValue)>,
    pub event: Option<EventValue>,
    pub action: Option<HtlcAction>,
    pub result: Result<(), Error>,
}

impl View for Outcome {
    type V = OutcomeValue;

    open spec fn view(&self) -> OutcomeValue {
        OutcomeValue {
            message: match self.message {
                Some((peer, message)) => Some((peer, message@)),
                None => None,
            },
            event: match self.event {
                Some(event) => Some(event@),
                None => None,
            },
            action: self.action,
            result: self.result,
        }
    }
}

impl OutcomeValue {
    /// The outcome of a step that went well and gives nothing out.
    pub open spec fn nothing() -> OutcomeValue {
        OutcomeValue { message: None, event: None, action: None, result: Ok(()) }
    }

    /// The outcome of a step that failed and gives nothing out.
    pub open spec fn failure(error: Error) -> OutcomeValue {
        OutcomeValue { message: None, event: None, action: None, result: Err(error) }
    }

    /// The outcome of a step that went well and sends a message.
    pub open spec fn send(peer: NodeId, message: MessageValue) -> OutcomeValue {
        OutcomeValue { message: Some((peer, message)), event: None, action: None, result: Ok(()) }
    }

    /// The outcome of a step that went well and hands the user an event.
    pub open spec fn emit(event: EventValue) -> OutcomeValue {
        OutcomeValue { message: None, event: Some(event), action: None, result: Ok(()) }
    }
}

impl Outcome {
    /// The outcome of a step that went well and gives nothing out.
    fn nothing() -> (out: Outcome)
        ensures
            out@ == OutcomeValue::nothing(),
    {
        Outcome { message: None, event: None, action: None, result: Ok(()) }
    }

    /// The outcome of a step that failed and gives nothing out.
    fn failure(error: Error) -> (out: Outcome)
        ensures
            out@ == OutcomeValue::failure(error),
    {
        Outcome { message: None, event: None, action: None, result: Err(error) }
    }

    /// The outcome of giving a channel up after a message of its LSP.
    fn give_up(channel: &InboundJITChannel, reason: FailureReason, result: Result<(), Error>) -> (out:
        Outcome)
        ensures
            out@ == give_up(channel@, reason, result),
    {
        Outcome {
            message: None,
            event: Some(
                Event::LSPS2(
                    LSPS2Event::ChannelFailed {
                        counterparty_node_id: channel.counterparty_node_id,
                        user_channel_id: channel.user_channel_id,
                        reason,
                    },
                ),
            ),
            action: None,
            result,
        }
    }

    /// The outcome of a step that went well and sends a message.
    fn send(peer: NodeId, message: LSPS2Message) -> (out: Outcome)
        ensures
            out@ == OutcomeValue::send(peer, message@),
    {
        Outcome {
            message: Some((peer, LSPSMessage::LSPS2(message))),
            event: None,
            action: None,
            result: Ok(()),
        }
    }

    /// The outcome of a step that went well and hands the user an event.
    fn emit(event: LSPS2Event) -> (out: Outcome)
        ensures
            out@ == OutcomeValue::emit(event@),
    {
        Outcome { message: None, event: Some(Event::LSPS2(event)), action: None, result: Ok(()) }
    }
}

/// The JIT channels of this node: those it asked for as a client, and those it
/// sold as an LSP.
#[derive(Debug)]
pub struct JITChannelManager {
    /// The secret of the promises that this node makes.
    pub promise_secret: [u8; 32],
    /// The minimum payment size that this node accepts.
    pub min_payment_size_msat: u64,
    /// The maximum payment size that this node accepts.
    pub max_payment_size_msat: u64,
    /// The channels that this node asked for.
    pub inbound_channels: Vec<InboundJITChannel>,
    /// The requests of clients that wait for the user's answer.
    pub pending_requests: Vec<PendingRequest>,
    /// The channels that this node sold.
    pub outbound_channels: Vec<OutboundJITChannel>,
}

/// The mathematical value of a [`JITChannelManager`], field by field.
pub struct ManagerState {
    pub promise_secret: Seq<u8>,
    pub min_payment_size_msat: u64,
    pub max_payment_size_msat: u64,
    pub inbound_channels: Seq<InboundChannelValue>,
    pub pending_requests: Seq<PendingRequestValue>,
    pub outbound_channels: Seq<OutboundChannelValue>,
}

impl View for JITChannelManager {
    type V = ManagerState;

    open spec fn view(&self) -> ManagerState {
        ManagerState {
            promise_secret: self.promise_secret@,
            min_payment_size_msat: self.min_payment_size_msat,
            max_payment_size_msat: self.max_payment_size_msat,
            inbound_channels: inbound_values(self.inbound_channels@),
            pending_requests: pending_values(self.pending_requests@),
            outbound_channels: outbound_values(self.outbound_channels@),
        }
    }
}

/// The value of an optional text.
pub open spec fn text_value(text: Option<String>) -> Option<Seq<char>> {
    match text {
        Some(text) => Some(text@),
        None => None,
    }
}

/// A copy of an optional text.
fn duplicate_text(text: &Option<String>) -> (copy: Option<String>)
    ensures
        text_value(copy) == text_value(*text),
{
    match text {
        Some(text) => Some(text.clone()),
        None => None,
    }
}

/// Finds the channel that we asked `peer` for under `user_channel_id`.
fn find_inbound_by_user_id(
    channels: &Vec<InboundJITChannel>,
    peer: &NodeId,
    user_channel_id: u128,
) -> (res: Option<usize>)
    ensures
        match res {
            Some(at) => inbound_by_user_id(inbound_values(channels@), *peer, user_channel_id)
                == Some(at as int) && at < channels.len(),
            None => inbound_by_user_id(inbound_values(channels@), *peer, user_channel_id) is None,
        },
{
    let ghost values = inbound_values(channels@);
    let ghost wanted = |channel: InboundChannelValue|
        channel.counterparty_node_id == *peer && channel.user_channel_id == user_channel_id;
    let mut i: usize = 0;
    while i < channels.len()
        invariant
            i <= channels.len(),
            values == inbound_values(channels@),
            wanted == (|channel: InboundChannelValue|
                channel.counterparty_node_id == *peer && channel.user_channel_id
                    == user_channel_id),
            forall|j: int| 0 <= j < i ==> !wanted(#[trigger] values[j]),
        decreases channels.len() - i,
    {
        if channels[i].counterparty_node_id.same(peer) && channels[i].user_channel_id
            == user_channel_id {
            proof {
                assert(wanted(values[i as int]));
                lemma_first_index_at(values, wanted, i as int);
            }
            return Some(i);
        }
        assert(!wanted(values[i as int]));
        i += 1;
    }
    proof {
        lemma_first_index_none(values, wanted);
    }
    None
}

/// Finds the channel that waits for the response of `peer` to `request_id`.
fn find_inbound_by_request(
    channels: &Vec<InboundJITChannel>,
    peer: &NodeId,
    request_id: &RequestId,
) -> (res: Option<usize>)
    ensures
        match res {
            Some(at) => inbound_by_request(inbound_values(channels@), *peer, request_id@) == Some(
                at as int,
            ) && at < channels.len(),
            None => inbound_by_request(inbound_values(channels@), *peer, request_id@) is None,
        },
{
    let ghost values = inbound_values(channels@);
    let ghost wanted = |channel: InboundChannelValue|
        channel.counterparty_node_id == *peer && channel.pending_request == Some(request_id@);
    let mut i: usize = 0;
    while i < channels.len()
        invariant
            i <= channels.len(),
            values == inbound_values(channels@),
            wanted == (|channel: InboundChannelValue|
                channel.counterparty_node_id == *peer && channel.pending_request == Some(
                    request_id@,
                )),
            forall|j: int| 0 <= j < i ==> !wanted(#[trigger] values[j]),
        decreases channels.len() - i,
    {
        let waits = match &channels[i].pending_request {
            Some(id) => id.0 == request_id.0,
            None => false,
        };
        if channels[i].counterparty_node_id.same(peer) && waits {
            proof {
                assert(wanted(values[i as int]));
                lemma_first_index_at(values, wanted, i as int);
            }
            return Some(i);
        }
        assert(!wanted(values[i as int]));
        i += 1;
    }
    proof {
        lemma_first_index_none(values, wanted);
    }
    None
}

/// Finds the request `request_id` of `peer` that waits for the user's answer.
fn find_pending_by_id(requests: &Vec<PendingRequest>, peer: &NodeId, request_id: &RequestId) -> (res:
    Option<usize>)
    ensures
        match res {
            Some(at) => pending_by_id(pending_values(requests@), *peer, request_id@) == Some(
                at as int,
            ) && at < requests.len(),
            None => pending_by_id(pending_values(requests@), *peer, request_id@) is None,
        },
{
    let ghost values = pending_values(requests@);
    let ghost wanted = |request: PendingRequestValue|
        request.counterparty_node_id == *peer && request.request_id == request_id@;
    let mut i: usize = 0;
    while i < requests.len()
        invariant
            i <= requests.len(),
            values == pending_values(requests@),
            wanted == (|request: PendingRequestValue|
                request.counterparty_node_id == *peer && request.request_id == request_id@),
            forall|j: int| 0 <= j < i ==> !wanted(#[trigger] values[j]),
        decreases requests.len() - i,
    {
        if requests[i].counterparty_node_id.same(peer) && requests[i].request_id.0 == request_id.0 {
            proof {
                assert(wanted(values[i as int]));
                lemma_first_index_at(values, wanted, i as int);
            }
            return Some(i);
        }
        assert(!wanted(values[i as int]));
        i += 1;
    }
    proof {
        lemma_first_index_none(values, wanted);
    }
    None
}

/// Finds the channel that was sold under `scid`.
fn find_outbound_by_scid(channels: &Vec<OutboundJITChannel>, scid: u64) -> (res: Option<usize>)
    ensures
        match res {
            Some(at) => outbound_by_scid(outbound_values(channels@), scid) == Some(at as int) && at
                < channels.len(),
            None => outbound_by_scid(outbound_values(channels@), scid) is None,
        },
{
    let ghost values = outbound_values(channels@);
    let ghost wanted = |channel: OutboundChannelValue| channel.scid == scid;
    let mut i: usize = 0;
    while i < channels.len()
        invariant
            i <= channels.len(),
            values == outbound_values(channels@),
            wanted == (|channel: OutboundChannelValue| channel.scid == scid),
            forall|j: int| 0 <= j < i ==> !wanted(#[trigger] values[j]),
        decreases channels.len() - i,
    {
        if channels[i].scid == scid {
            proof {
                assert(wanted(values[i as int]));
                lemma_first_index_at(values, wanted, i as int);
            }
            return Some(i);
        }
        assert(!wanted(values[i as int]));
        i += 1;
    }
    proof {
        lemma_first_index_none(values, wanted);
    }
    None
}

impl JITChannelManager {
    /// A manager without channels.
    pub fn new(promise_secret: [u8; 32], min_payment_size_msat: u64, max_payment_size_msat: u64) -> (manager:
        JITChannelManager)
        ensures
            manager@ == (ManagerState {
                promise_secret: promise_secret@,
                min_payment_size_msat,
                max_payment_size_msat,
                inbound_channels: Seq::empty(),
                pending_requests: Seq::empty(),
                outbound_channels: Seq::empty(),
            }),
            manager@.well_formed(),
    {
        let manager = JITChannelManager {
            promise_secret,
            min_payment_size_msat,
            max_payment_size_msat,
            inbound_channels: Vec::new(),
            pending_requests: Vec::new(),
            outbound_channels: Vec::new(),
        };
        assert(manager@.inbound_channels =~= Seq::empty());
        assert(manager@.pending_requests =~= Seq::empty());
        assert(manager@.outbound_channels =~= Seq::empty());
        manager
    }

    /// Takes a channel that we asked for out of the list.
    fn remove_inbound(&mut self, at: usize) -> (channel: InboundJITChannel)
        requires
            at < old(self).inbound_channels.len(),
        ensures
            channel@ == old(self)@.inbound_channels[at as int],
            final(self).inbound_channels.len() == old(self).inbound_channels.len() - 1,
            final(self)@ == (ManagerState {
                inbound_channels: old(self)@.inbound_channels.remove(at as int),
                ..old(self)@
            }),
    {
        let channel = self.inbound_channels.remove(at);
        assert(self@.inbound_channels =~= old(self)@.inbound_channels.remove(at as int));
        channel
    }

    /// Puts a channel that we asked for into the list at `at`.
    fn insert_inbound(&mut self, at: usize, channel: InboundJITChannel)
        requires
            at <= old(self).inbound_channels.len(),
        ensures
            final(self)@ == (ManagerState {
                inbound_channels: old(self)@.inbound_channels.insert(at as int, channel@),
                ..old(self)@
            }),
    {
        self.inbound_channels.insert(at, channel);
        assert(self@.inbound_channels =~= old(self)@.inbound_channels.insert(at as int, channel@));
    }

    /// Starts a channel with `counterparty_node_id` under `user_channel_id` by
    /// asking the peer, in the request `request_id`, for its versions. A channel
    /// that was asked from this peer under this id before is forgotten.
    pub fn create_invoice(
        &mut self,
        counterparty_node_id: NodeId,
        payment_size_msat: Option<u64>,
        token: Option<String>,
        user_channel_id: u128,
        request_id: RequestId,
    ) -> (out: Outcome)
        ensures
            (final(self)@, out@) == create_invoice_step(
                old(self)@,
                counterparty_node_id,
                payment_size_msat,
                text_value(token),
                user_channel_id,
                request_id@,
            ),
            old(self)@.well_formed() ==> final(self)@.well_formed(),
    {
        proof {
            if old(self)@.well_formed() {
                lemma_create_invoice_keeps_well_formed(
                    old(self)@,
                    counterparty_node_id,
                    payment_size_msat,
                    text_value(token),
                    user_channel_id,
                    request_id@,
                );
            }
        }
        let channel = InboundJITChannel {
            counterparty_node_id,
            user_channel_id,
            payment_size_msat,
            token,
            opening_fee_params: None,
            pending_request: Some(request_id.duplicate()),
            state: InboundJITChannelState::AwaitingVersions,
        };
        match find_inbound_by_user_id(
            &self.inbound_channels,
            &counterparty_node_id,
            user_channel_id,
        ) {
            Some(at) => {
                self.inbound_channels.set(at, channel);
                assert(self@.inbound_channels =~= old(self)@.inbound_channels.update(
                    at as int,
                    channel@,
                ));
            },
            None => {
                self.inbound_channels.push(channel);
                assert(self@.inbound_channels =~= old(self)@.inbound_channels.push(channel@));
            },
        }
        Outcome::send(
            counterparty_node_id,
            LSPS2Message::Request(request_id, LSPS2Request::GetVersions(GetVersionsRequest {  })),
        )
    }

    /// Takes the versions that an LSP answered with.
    pub fn handle_get_versions_response(
        &mut self,
        request_id: RequestId,
        counterparty_node_id: &NodeId,
        result: GetVersionsResponse,
        next_request_id: RequestId,
    ) -> (out: Outcome)
        ensures
            (final(self)@, out@) == versions_received_step(
                old(self)@,
                *counterparty_node_id,
                request_id@,
                result.versions@,
                next_request_id@,
            ),
            old(self)@.well_formed() ==> final(self)@.well_formed(),
    {
        proof {
            if old(self)@.well_formed() {
                lemma_versions_received_keeps_well_formed(
                    old(self)@,
                    *counterparty_node_id,
                    request_id@,
                    result.versions@,
                    next_request_id@,
                );
            }
        }
        let at = match find_inbound_by_request(
            &self.inbound_channels,
            counterparty_node_id,
            &request_id,
        ) {
            Some(at) => at,
            None => {
                return Outcome::failure(Error::UnknownResponse);
            },
        };
        let channel = self.remove_inbound(at);
        let awaited = match channel.state {
            InboundJITChannelState::AwaitingVersions => true,
            _ => false,
        };
        if !awaited {
            return Outcome::give_up(
                &channel,
                FailureReason::UnexpectedResponse,
                Err(Error::UnknownResponse),
            );
        }
        let version = match select_version(&result.versions) {
            Some(version) => version,
            None => {
                return Outcome::give_up(
                    &channel,
                    FailureReason::NoCommonVersion,
                    Err(Error::NoCommonVersion),
                );
            },
        };
        let token = duplicate_text(&channel.token);
        let next = InboundJITChannel {
            counterparty_node_id: channel.counterparty_node_id,
            user_channel_id: channel.user_channel_id,
            payment_size_msat: channel.payment_size_msat,
            token: channel.token,
            opening_fee_params: channel.opening_fee_params,
            pending_request: Some(next_request_id.duplicate()),
            state: InboundJITChannelState::AwaitingInfo { version },
        };
        self.insert_inbound(at, next);
        assert(self@.inbound_channels =~= old(self)@.inbound_channels.update(at as int, next@));
        Outcome::send(
            *counterparty_node_id,
            LSPS2Message::Request(
                next_request_id,
                LSPS2Request::GetInfo(GetInfoRequest { version, token }),
            ),
        )
    }

    /// Takes the menu that an LSP answered with.
    pub fn handle_get_info_response(
        &mut self,
        request_id: RequestId,
        counterparty_node_id: &NodeId,
        result: GetInfoResponse,
    ) -> (out: Outcome)
        ensures
            (final(self)@, out@) == info_received_step(
                old(self)@,
                *counterparty_node_id,
                request_id@,
                menu_value(result.opening_fee_params_menu@),
                result.min_payment_size_msat,
                result.max_payment_size_msat,
            ),
            old(self)@.well_formed() ==> final(self)@.well_formed(),
    {
        proof {
            if old(self)@.well_formed() {
                lemma_info_received_keeps_well_formed(
                    old(self)@,
                    *counterparty_node_id,
                    request_id@,
                    menu_value(result.opening_fee_params_menu@),
                    result.min_payment_size_msat,
                    result.max_payment_size_msat,
                );
            }
        }
        let at = match find_inbound_by_request(
            &self.inbound_channels,
            counterparty_node_id,
            &request_id,
        ) {
            Some(at) => at,
            None => {
                return Outcome::failure(Error::UnknownResponse);
            },
        };
        let channel = self.remove_inbound(at);
        let version = match channel.state {
            InboundJITChannelState::AwaitingInfo { version } => version,
            _ => {
                return Outcome::give_up(
                    &channel,
                    FailureReason::UnexpectedResponse,
                    Err(Error::UnknownResponse),
                );
            },
        };
        let user_channel_id = channel.user_channel_id;
        let next = InboundJITChannel {
            counterparty_node_id: channel.counterparty_node_id,
            user_channel_id: channel.user_channel_id,
            payment_size_msat: channel.payment_size_msat,
            token: channel.token,
            opening_fee_params: channel.opening_fee_params,
            pending_request: None,
            state: InboundJITChannelState::MenuOffered { version },
        };
        self.insert_inbound(at, next);
        assert(self@.inbound_channels =~= old(self)@.inbound_channels.update(at as int, next@));
        Outcome::emit(
            LSPS2Event::GetInfoResponse {
                counterparty_node_id: *counterparty_node_id,
                opening_fee_params_menu: result.opening_fee_params_menu,
                min_payment_size_msat: result.min_payment_size_msat,
                max_payment_size_msat: result.max_payment_size_msat,
                user_channel_id,
            },
        )
    }

    /// Takes the error that an LSP answered a request with: the channel that
    /// made the request is given up for `reason`.
    pub fn handle_request_error(
        &mut self,
        request_id: RequestId,
        counterparty_node_id: &NodeId,
        reason: FailureReason,
    ) -> (out: Outcome)
        ensures
            (final(self)@, out@) == request_rejected_step(
                old(self)@,
                *counterparty_node_id,
                request_id@,
                reason,
            ),
            old(self)@.well_formed() ==> final(self)@.well_formed(),
    {
        proof {
            if old(self)@.well_formed() {
                lemma_request_rejected_keeps_well_formed(
                    old(self)@,
                    *counterparty_node_id,
                    request_id@,
                    reason,
                );
            }
        }
        let at = match find_inbound_by_request(
            &self.inbound_channels,
            counterparty_node_id,
            &request_id,
        ) {
            Some(at) => at,
            None => {
                return Outcome::failure(Error::UnknownResponse);
            },
        };
        let channel = self.remove_inbound(at);
        Outcome::give_up(&channel, reason, Ok(()))
    }

    /// Asks the LSP `counterparty_node_id`, in the request `request_id`, to
    /// sell the channel `user_channel_id` under the offer that the user chose.
    pub fn opening_fee_params_selected(
        &mut self,
        counterparty_node_id: NodeId,
        user_channel_id: u128,
        opening_fee_params: OpeningFeeParams,
        request_id: RequestId,
    ) -> (out: Outcome)
        ensures
            (final(self)@, out@) == params_selected_step(
                old(self)@,
                counterparty_node_id,
                user_channel_id,
                opening_fee_params@,
                request_id@,
            ),
            old(self)@.well_formed() ==> final(self)@.well_formed(),
    {
        proof {
            if old(self)@.well_formed() {
                lemma_params_selected_keeps_well_formed(
                    old(self)@,
                    counterparty_node_id,
                    user_channel_id,
                    opening_fee_params@,
                    request_id@,
                );
            }
        }
        let at = match find_inbound_by_user_id(
            &self.inbound_channels,
            &counterparty_node_id,
            user_channel_id,
        ) {
            Some(at) => at,
            None => {
                return Outcome::failure(Error::UnknownChannel);
            },
        };
        let version = match self.inbound_channels[at].state {
            InboundJITChannelState::MenuOffered { version } => version,
            _ => {
                return Outcome::failure(Error::UnexpectedState);
            },
        };
        let channel = self.remove_inbound(at);
        let payment_size_msat = channel.payment_size_msat;
        let next = InboundJITChannel {
            counterparty_node_id: channel.counterparty_node_id,
            user_channel_id: channel.user_channel_id,
            payment_size_msat: channel.payment_size_msat,
            token: channel.token,
            opening_fee_params: Some(opening_fee_params.duplicate()),
            pending_request: Some(request_id.duplicate()),
            state: InboundJITChannelState::AwaitingBuy { version },
        };
        self.insert_inbound(at, next);
        assert(self@.inbound_channels =~= old(self)@.inbound_channels.update(at as int, next@));
        Outcome::send(
            counterparty_node_id,
            LSPS2Message::Request(
                request_id,
                LSPS2Request::Buy(BuyRequest { version, opening_fee_params, payment_size_msat }),
            ),
        )
    }

    /// Takes the sale of a channel that an LSP answered with.
    pub fn handle_buy_response(
        &mut self,
        request_id: RequestId,
        counterparty_node_id: &NodeId,
        result: BuyResponse,
    ) -> (out: Outcome)
        ensures
            (final(self)@, out@) == buy_response_step(
                old(self)@,
                *counterparty_node_id,
                request_id@,
                result.jit_channel_scid@,
                result.lsp_cltv_expiry_delta,
                result.client_trusts_lsp,
            ),
            old(self)@.well_formed() ==> final(self)@.well_formed(),
    {
        proof {
            if old(self)@.well_formed() {
                lemma_buy_response_keeps_well_formed(
                    old(self)@,
                    *counterparty_node_id,
                    request_id@,
                    result.jit_channel_scid@,
                    result.lsp_cltv_expiry_delta,
                    result.client_trusts_lsp,
                );
            }
        }
        let at = match find_inbound_by_request(
            &self.inbound_channels,
            counterparty_node_id,
            &request_id,
        ) {
            Some(at) => at,
            None => {
                return Outcome::failure(Error::UnknownResponse);
            },
        };
        let channel = self.remove_inbound(at);
        let awaited = match channel.state {
            InboundJITChannelState::AwaitingBuy { .. } => true,
            _ => false,
        };
        if !awaited {
            return Outcome::give_up(
                &channel,
                FailureReason::UnexpectedResponse,
                Err(Error::UnknownResponse),
            );
        }
        let scid = match result.jit_channel_scid.to_scid() {
            Ok(scid) => scid,
            Err(_) => {
                return Outcome::give_up(
                    &channel,
                    FailureReason::InvalidScid,
                    Err(Error::InvalidScid),
                );
            },
        };
        let user_channel_id = channel.user_channel_id;
        let next = InboundJITChannel {
            counterparty_node_id: channel.counterparty_node_id,
            user_channel_id: channel.user_channel_id,
            payment_size_msat: channel.payment_size_msat,
            token: channel.token,
            opening_fee_params: channel.opening_fee_params,
            pending_request: None,
            state: InboundJITChannelState::AwaitingPayment {
                scid,
                cltv_expiry_delta: result.lsp_cltv_expiry_delta,
                client_trusts_lsp: result.client_trusts_lsp,
            },
        };
        self.insert_inbound(at, next);
        assert(self@.inbound_channels =~= old(self)@.inbound_channels.update(at as int, next@));
        Outcome::emit(
            LSPS2Event::InvoiceParametersReady {
                counterparty_node_id: *counterparty_node_id,
                scid,
                cltv_expiry_delta: result.lsp_cltv_expiry_delta,
                client_trusts_lsp: result.client_trusts_lsp,
                user_channel_id,
            },
        )
    }

    /// Gives up every channel that was asked from `counterparty_node_id`, which
    /// could not read a message of ours, and tells the user of each.
    pub fn handle_invalid_message(&mut self, counterparty_node_id: &NodeId) -> (events: Vec<Event>)
        ensures
            final(self)@ == (ManagerState {
                inbound_channels: without_peer(old(self)@.inbound_channels, *counterparty_node_id),
                ..old(self)@
            }),
            crate::events::events_value(events@) == failures_of_peer(
                old(self)@.inbound_channels,
                *counterparty_node_id,
                FailureReason::MessageNotUnderstood,
            ),
            old(self)@.well_formed() ==> final(self)@.well_formed(),
    {
        proof {
            if old(self)@.well_formed() {
                lemma_without_peer_keeps_well_formed(
                    old(self)@,
                    *counterparty_node_id,
                );
            }
        }
        let ghost before = self@.inbound_channels;
        let mut events: Vec<Event> = Vec::new();
        let mut i: usize = 0;
        let mut done: Ghost<int> = Ghost(0);
        assert(before.take(0) =~= Seq::empty());
        assert(before.skip(0) =~= before);
        assert(crate::events::events_value(events@) =~= Seq::empty());
        while i < self.inbound_channels.len()
            invariant
                0 <= done@ <= before.len(),
                i <= self.inbound_channels.len(),
                self.inbound_channels.len() - i == before.len() - done@,
                self@ == (ManagerState { inbound_channels: self@.inbound_channels, ..old(self)@ }),
                self@.inbound_channels.take(i as int) == without_peer(
                    before.take(done@),
                    *counterparty_node_id,
                ),
                self@.inbound_channels.skip(i as int) == before.skip(done@),
                crate::events::events_value(events@) == failures_of_peer(
                    before.take(done@),
                    *counterparty_node_id,
                    FailureReason::MessageNotUnderstood,
                ),
            decreases self.inbound_channels.len() - i,
        {
            let ghost current = self@.inbound_channels;
            let ghost seen = before.take(done@);
            let ghost next_seen = before.take(done@ + 1);
            proof {
                assert(current[i as int] == current.skip(i as int)[0]);
                assert(before[done@] == before.skip(done@)[0]);
                assert(next_seen.drop_last() =~= seen);
                assert(next_seen.last() == before[done@]);
            }
            if self.inbound_channels[i].counterparty_node_id.same(counterparty_node_id) {
                let channel = self.remove_inbound(i);
                let ghost events_before = crate::events::events_value(events@);
                events.push(
                    Event::LSPS2(
                        LSPS2Event::ChannelFailed {
                            counterparty_node_id: channel.counterparty_node_id,
                            user_channel_id: channel.user_channel_id,
                            reason: FailureReason::MessageNotUnderstood,
                        },
                    ),
                );
                proof {
                    assert(crate::events::events_value(events@) =~= events_before.push(
                        channel_failed(before[done@], FailureReason::MessageNotUnderstood),
                    ));
                    assert(self@.inbound_channels.take(i as int) =~= current.take(i as int));
                    assert(current.skip(i + 1) =~= current.skip(i as int).skip(1));
                    assert(before.skip(done@ + 1) =~= before.skip(done@).skip(1));
                    assert(self@.inbound_channels.skip(i as int) =~= current.skip(i + 1));
                    done@ = done@ + 1;
                }
            } else {
                proof {
                    assert(current.take(i + 1) =~= current.take(i as int).push(before[done@]));
                    assert(current.skip(i + 1) =~= current.skip(i as int).skip(1));
                    assert(before.skip(done@ + 1) =~= before.skip(done@).skip(1));
                    done@ = done@ + 1;
                }
                i += 1;
            }
        }
        proof {
            assert(before.take(done@) =~= before);
            assert(self@.inbound_channels.take(i as int) =~= self@.inbound_channels);
        }
        events
    }

    /// Takes a request that waits out of the list.
    fn remove_pending(&mut self, at: usize) -> (request: PendingRequest)
        requires
            at < old(self).pending_requests.len(),
        ensures
            request@ == old(self)@.pending_requests[at as int],
            final(self)@ == (ManagerState {
                pending_requests: old(self)@.pending_requests.remove(at as int),
                ..old(self)@
            }),
    {
        let request = self.pending_requests.remove(at);
        assert(self@.pending_requests =~= old(self)@.pending_requests.remove(at as int));
        request
    }

    /// Lets a request wait, in the place of an earlier one of the same peer and id
    /// if there is one.
    fn put_pending(&mut self, request: PendingRequest)
        ensures
            final(self)@ == (ManagerState {
                pending_requests: with_pending(old(self)@.pending_requests, request@),
                ..old(self)@
            }),
    {
        match find_pending_by_id(
            &self.pending_requests,
            &request.counterparty_node_id,
            &request.request_id,
        ) {
            Some(at) => {
                self.pending_requests.set(at, request);
                assert(self@.pending_requests =~= old(self)@.pending_requests.update(
                    at as int,
                    request@,
                ));
            },
            None => {
                self.pending_requests.push(request);
                assert(self@.pending_requests =~= old(self)@.pending_requests.push(request@));
            },
        }
    }

    /// Takes a channel that we sold out of the list.
    fn remove_outbound(&mut self, at: usize) -> (channel: OutboundJITChannel)
        requires
            at < old(self).outbound_channels.len(),
        ensures
            channel@ == old(self)@.outbound_channels[at as int],
            final(self).outbound_channels.len() == old(self).outbound_channels.len() - 1,
            final(self)@ == (ManagerState {
                outbound_channels: old(self)@.outbound_channels.remove(at as int),
                ..old(self)@
            }),
    {
        let channel = self.outbound_channels.remove(at);
        assert(self@.outbound_channels =~= old(self)@.outbound_channels.remove(at as int));
        channel
    }

    /// Puts a channel that we sold into the list at `at`.
    fn insert_outbound(&mut self, at: usize, channel: OutboundJITChannel)
        requires
            at <= old(self).outbound_channels.len(),
        ensures
            final(self)@ == (ManagerState {
                outbound_channels: old(self)@.outbound_channels.insert(at as int, channel@),
                ..old(self)@
            }),
    {
        self.outbound_channels.insert(at, channel);
        assert(self@.outbound_channels =~= old(self)@.outbound_channels.insert(
            at as int,
            channel@,
        ));
    }

    /// Answers a client that asks for our versions.
    pub fn handle_get_versions_request(
        &self,
        request_id: RequestId,
        counterparty_node_id: &NodeId,
    ) -> (out: Outcome)
        ensures
            (self@, out@) == versions_requested_step(self@, *counterparty_node_id, request_id@),
    {
        let mut versions: Vec<u16> = Vec::new();
        versions.push(SUPPORTED_SPEC_VERSION);
        assert(versions@ =~= supported_versions());
        Outcome::send(
            *counterparty_node_id,
            LSPS2Message::Response(
                request_id,
                LSPS2Response::GetVersions(GetVersionsResponse { versions }),
            ),
        )
    }

    /// Takes the request of a client for our fees and parameters.
    pub fn handle_get_info_request(
        &mut self,
        request_id: RequestId,
        counterparty_node_id: &NodeId,
        params: GetInfoRequest,
    ) -> (out: Outcome)
        ensures
            (final(self)@, out@) == info_requested_step(
                old(self)@,
                *counterparty_node_id,
                request_id@,
                params.version,
                text_value(params.token),
            ),
            old(self)@.well_formed() ==> final(self)@.well_formed(),
    {
        proof {
            if old(self)@.well_formed() {
                lemma_info_requested_keeps_well_formed(
                    old(self)@,
                    *counterparty_node_id,
                    request_id@,
                    params.version,
                    text_value(params.token),
                );
            }
        }
        let version = params.version;
        let token = duplicate_text(&params.token);
        self.put_pending(
            PendingRequest {
                counterparty_node_id: *counterparty_node_id,
                request_id: request_id.duplicate(),
                request: LSPS2Request::GetInfo(params),
            },
        );
        Outcome::emit(
            LSPS2Event::GetInfo {
                request_id,
                counterparty_node_id: *counterparty_node_id,
                version,
                token,
            },
        )
    }

    /// Answers the `get_info` request `request_id` of `counterparty_node_id`
    /// with a menu, after putting each offer under its promise.
    pub fn opening_fee_params_generated(
        &mut self,
        counterparty_node_id: NodeId,
        request_id: RequestId,
        opening_fee_params_menu: Vec<RawOpeningFeeParams>,
    ) -> (out: Outcome)
        ensures
            (final(self)@, out@) == params_generated_step(
                old(self)@,
                counterparty_node_id,
                request_id@,
                raw_menu_value(opening_fee_params_menu@),
            ),
            old(self)@.well_formed() ==> final(self)@.well_formed(),
    {
        proof {
            if old(self)@.well_formed() {
                lemma_params_generated_keeps_well_formed(
                    old(self)@,
                    counterparty_node_id,
                    request_id@,
                    raw_menu_value(opening_fee_params_menu@),
                );
            }
        }
        let at = match find_pending_by_id(
            &self.pending_requests,
            &counterparty_node_id,
            &request_id,
        ) {
            Some(at) => at,
            None => {
                return Outcome::failure(Error::UnknownRequest);
            },
        };
        let asked = match &self.pending_requests[at].request {
            LSPS2Request::GetInfo(_) => true,
            _ => false,
        };
        if !asked {
            return Outcome::failure(Error::UnknownRequest);
        }
        let _ = self.remove_pending(at);
        let mut menu: Vec<OpeningFeeParams> = Vec::new();
        let mut i: usize = 0;
        while i < opening_fee_params_menu.len()
            invariant
                i <= opening_fee_params_menu.len(),
                menu.len() == i,
                forall|j: int|
                    0 <= j < i ==> (#[trigger] menu@[j])@ == (OpeningFeeOffer {
                        terms: opening_fee_params_menu@[j]@,
                        promise: promise_text(
                            opening_fee_params_menu@[j]@,
                            self.promise_secret@,
                        ),
                    }),
            decreases opening_fee_params_menu.len() - i,
        {
            let raw = opening_fee_params_menu[i];
            menu.push(raw.into_opening_fee_params(&self.promise_secret));
            i += 1;
        }
        assert(menu_value(menu@) =~= promised_menu(
            raw_menu_value(opening_fee_params_menu@),
            self.promise_secret@,
        ));
        Outcome::send(
            counterparty_node_id,
            LSPS2Message::Response(
                request_id,
                LSPS2Response::GetInfo(
                    GetInfoResponse {
                        opening_fee_params_menu: menu,
                        min_payment_size_msat: self.min_payment_size_msat,
                        max_payment_size_msat: self.max_payment_size_msat,
                    },
                ),
            ),
        )
    }

    /// Tells whether a `buy` request is in order, and the code of the error to
    /// answer it with where it is not.
    pub fn check_buy_request(&self, params: &BuyRequest, now: &UnixTime) -> (code: Option<i32>)
        ensures
            code == buy_rejection(
                self@,
                params.version,
                params.opening_fee_params@,
                params.payment_size_msat,
                *now,
            ),
    {
        if params.version != SUPPORTED_SPEC_VERSION {
            return Some(LSPS2_BUY_REQUEST_INVALID_VERSION_ERROR_CODE);
        }
        if !is_valid_opening_fee_params_at(&params.opening_fee_params, &self.promise_secret, now) {
            return Some(LSPS2_BUY_REQUEST_INVALID_OPENING_FEE_PARAMS_ERROR_CODE);
        }
        match params.payment_size_msat {
            None => None,
            Some(size) => {
                if size < self.min_payment_size_msat {
                    Some(LSPS2_BUY_REQUEST_PAYMENT_SIZE_TOO_SMALL_ERROR_CODE)
                } else if size > self.max_payment_size_msat {
                    Some(LSPS2_BUY_REQUEST_PAYMENT_SIZE_TOO_LARGE_ERROR_CODE)
                } else {
                    match compute_opening_fee(
                        size,
                        params.opening_fee_params.min_fee_msat,
                        params.opening_fee_params.proportional as u64,
                    ) {
                        Some(fee) => if fee >= size {
                            Some(LSPS2_BUY_REQUEST_PAYMENT_SIZE_TOO_SMALL_ERROR_CODE)
                        } else {
                            None
                        },
                        None => Some(LSPS2_BUY_REQUEST_PAYMENT_SIZE_TOO_SMALL_ERROR_CODE),
                    }
                }
            },
        }
    }

    /// Takes the request of a client to buy a channel, at the instant `now`.
    pub fn handle_buy_request(
        &mut self,
        request_id: RequestId,
        counterparty_node_id: &NodeId,
        params: BuyRequest,
        now: &UnixTime,
    ) -> (out: Outcome)
        ensures
            (final(self)@, out@) == buy_requested_step(
                old(self)@,
                *counterparty_node_id,
                request_id@,
                params.version,
                params.opening_fee_params@,
                params.payment_size_msat,
                *now,
            ),
            old(self)@.well_formed() ==> final(self)@.well_formed(),
    {
        proof {
            if old(self)@.well_formed() {
                lemma_buy_requested_keeps_well_formed(
                    old(self)@,
                    *counterparty_node_id,
                    request_id@,
                    params.version,
                    params.opening_fee_params@,
                    params.payment_size_msat,
                    *now,
                );
            }
        }
        match self.check_buy_request(&params, now) {
            Some(code) => {
                let message = if code == LSPS2_BUY_REQUEST_INVALID_VERSION_ERROR_CODE {
                    "the version is not supported"
                } else if code == LSPS2_BUY_REQUEST_INVALID_OPENING_FEE_PARAMS_ERROR_CODE {
                    "valid_until is already past OR the promise did not match the provided parameters"
                } else if code == LSPS2_BUY_REQUEST_PAYMENT_SIZE_TOO_SMALL_ERROR_CODE {
                    "payment size is too small"
                } else {
                    "payment size is too large"
                };
                Outcome {
                    message: Some(
                        (
                            *counterparty_node_id,
                            LSPSMessage::LSPS2(
                                LSPS2Message::Response(
                                    request_id,
                                    LSPS2Response::BuyError(
                                        ResponseError {
                                            code,
                                            message: message.to_owned(),
                                            data: None,
                                        },
                                    ),
                                ),
                            ),
                        ),
                    ),
                    event: None,
                    action: None,
                    result: Err(Error::RequestRejected(code)),
                }
            },
            None => {
                let version = params.version;
                let payment_size_msat = params.payment_size_msat;
                let opening_fee_params = params.opening_fee_params.duplicate();
                self.put_pending(
                    PendingRequest {
                        counterparty_node_id: *counterparty_node_id,
                        request_id: request_id.duplicate(),
                        request: LSPS2Request::Buy(params),
                    },
                );
                Outcome::emit(
                    LSPS2Event::BuyRequest {
                        request_id,
                        counterparty_node_id: *counterparty_node_id,
                        version,
                        opening_fee_params,
                        payment_size_msat,
                    },
                )
            },
        }
    }

    /// Answers the `buy` request `request_id` of `counterparty_node_id` with
    /// the short channel id under which the channel is sold. A channel that was
    /// sold under this short channel id before is forgotten, and a payment that
    /// it held back is failed.
    pub fn invoice_parameters_generated(
        &mut self,
        counterparty_node_id: NodeId,
        request_id: RequestId,
        scid: u64,
        cltv_expiry_delta: u32,
        client_trusts_lsp: bool,
    ) -> (out: Outcome)
        ensures
            (final(self)@, out@) == invoice_generated_step(
                old(self)@,
                counterparty_node_id,
                request_id@,
                scid,
                cltv_expiry_delta,
                client_trusts_lsp,
            ),
            old(self)@.well_formed() ==> final(self)@.well_formed(),
    {
        proof {
            if old(self)@.well_formed() {
                lemma_invoice_generated_keeps_well_formed(
                    old(self)@,
                    counterparty_node_id,
                    request_id@,
                    scid,
                    cltv_expiry_delta,
                    client_trusts_lsp,
                );
            }
        }
        let at = match find_pending_by_id(
            &self.pending_requests,
            &counterparty_node_id,
            &request_id,
        ) {
            Some(at) => at,
            None => {
                return Outcome::failure(Error::UnknownRequest);
            },
        };
        let asked = match &self.pending_requests[at].request {
            LSPS2Request::Buy(_) => true,
            _ => false,
        };
        if !asked {
            return Outcome::failure(Error::UnknownRequest);
        }
        let pending = self.remove_pending(at);
        let buy = match pending.request {
            LSPS2Request::Buy(buy) => buy,
            _ => {
                return Outcome::failure(Error::UnknownRequest);
            },
        };
        let channel = OutboundJITChannel {
            scid,
            counterparty_node_id,
            cltv_expiry_delta,
            client_trusts_lsp,
            payment_size_msat: buy.payment_size_msat,
            opening_fee_params: buy.opening_fee_params,
            state: OutboundJITChannelState::AwaitingPayment,
        };
        let ghost before = self@.outbound_channels;
        let action = match find_outbound_by_scid(&self.outbound_channels, scid) {
            Some(sold) => {
                let action = match self.outbound_channels[sold].state {
                    OutboundJITChannelState::AwaitingChannelReady { intercept_id, .. } => Some(
                        HtlcAction::Fail { intercept_id },
                    ),
                    OutboundJITChannelState::AwaitingPayment => None,
                };
                self.outbound_channels.set(sold, channel);
                assert(self@.outbound_channels =~= before.update(sold as int, channel@));
                action
            },
            None => {
                self.outbound_channels.push(channel);
                assert(self@.outbound_channels =~= before.push(channel@));
                None
            },
        };
        Outcome {
            message: Some(
                (
                    counterparty_node_id,
                    LSPSMessage::LSPS2(
                        LSPS2Message::Response(
                            request_id,
                            LSPS2Response::Buy(
                                BuyResponse {
                                    jit_channel_scid: JitChannelScid::from(scid),
                                    lsp_cltv_expiry_delta: cltv_expiry_delta,
                                    client_trusts_lsp,
                                },
                            ),
                        ),
                    ),
                ),
            ),
            event: None,
            action,
            result: Ok(()),
        }
    }

    /// Tells whether an intercepted HTLC pays for a channel, and why not where
    /// it does not.
    pub fn check_htlc(
        channel: &OutboundJITChannel,
        inbound_amount_msat: u64,
        expected_outbound_amount_msat: u64,
        now: &UnixTime,
    ) -> (reason: Option<HtlcRejection>)
        ensures
            reason == htlc_rejection(
                channel@,
                inbound_amount_msat,
                expected_outbound_amount_msat,
                *now,
            ),
    {
        let valid_until = channel.opening_fee_params.valid_until.unix_time();
        if !now.is_at_or_before(&valid_until) {
            return Some(HtlcRejection::OfferExpired);
        }
        if expected_outbound_amount_msat > inbound_amount_msat {
            return Some(HtlcRejection::OutboundExceedsInbound);
        }
        let held_back: u64 = inbound_amount_msat - expected_outbound_amount_msat;
        let covered = match compute_opening_fee(
            inbound_amount_msat,
            channel.opening_fee_params.min_fee_msat,
            channel.opening_fee_params.proportional as u64,
        ) {
            Some(fee) => held_back >= fee,
            None => false,
        };
        if !covered {
            return Some(HtlcRejection::FeeTooLow);
        }
        match channel.payment_size_msat {
            Some(size) => if inbound_amount_msat != size {
                Some(HtlcRejection::WrongPaymentSize)
            } else {
                None
            },
            None => None,
        }
    }

    /// Takes an HTLC that the node intercepted, at the instant `now`.
    pub fn htlc_intercepted(
        &mut self,
        scid: u64,
        intercept_id: InterceptId,
        inbound_amount_msat: u64,
        expected_outbound_amount_msat: u64,
        now: &UnixTime,
    ) -> (out: Outcome)
        ensures
            (final(self)@, out@) == htlc_intercepted_step(
                old(self)@,
                scid,
                intercept_id,
                inbound_amount_msat,
                expected_outbound_amount_msat,
                *now,
            ),
            old(self)@.well_formed() ==> final(self)@.well_formed(),
    {
        proof {
            if old(self)@.well_formed() {
                lemma_htlc_intercepted_keeps_well_formed(
                    old(self)@,
                    scid,
                    intercept_id,
                    inbound_amount_msat,
                    expected_outbound_amount_msat,
                    *now,
                );
            }
        }
        let at = match find_outbound_by_scid(&self.outbound_channels, scid) {
            Some(at) => at,
            None => {
                return Outcome::nothing();
            },
        };
        let unpaid = match self.outbound_channels[at].state {
            OutboundJITChannelState::AwaitingPayment => true,
            _ => false,
        };
        if !unpaid {
            return Outcome {
                message: None,
                event: None,
                action: Some(HtlcAction::Fail { intercept_id }),
                result: Err(Error::HtlcRejected(HtlcRejection::AlreadyPaid)),
            };
        }
        let channel = self.remove_outbound(at);
        match JITChannelManager::check_htlc(
            &channel,
            inbound_amount_msat,
            expected_outbound_amount_msat,
            now,
        ) {
            Some(reason) => Outcome {
                message: None,
                event: None,
                action: Some(HtlcAction::Fail { intercept_id }),
                result: Err(Error::HtlcRejected(reason)),
            },
            None => {
                let their_network_key = channel.counterparty_node_id;
                let next = OutboundJITChannel {
                    scid: channel.scid,
                    counterparty_node_id: channel.counterparty_node_id,
                    cltv_expiry_delta: channel.cltv_expiry_delta,
                    client_trusts_lsp: channel.client_trusts_lsp,
                    payment_size_msat: channel.payment_size_msat,
                    opening_fee_params: channel.opening_fee_params,
                    state: OutboundJITChannelState::AwaitingChannelReady {
                        intercept_id,
                        inbound_amount_msat,
                        outbound_amount_msat: expected_outbound_amount_msat,
                    },
                };
                self.insert_outbound(at, next);
                assert(self@.outbound_channels =~= old(self)@.outbound_channels.update(
                    at as int,
                    next@,
                ));
                Outcome::emit(
                    LSPS2Event::OpenChannel {
                        their_network_key,
                        amt_to_forward_msat: expected_outbound_amount_msat,
                        opening_fee_msat: inbound_amount_msat - expected_outbound_amount_msat,
                        user_channel_id: scid as u128,
                    },
                )
            },
        }
    }

    /// Takes the news that the channel `user_channel_id` with
    /// `counterparty_node_id` is ready.
    pub fn channel_ready(
        &mut self,
        user_channel_id: u128,
        channel_id: &ChannelId,
        counterparty_node_id: &NodeId,
    ) -> (out: Outcome)
        ensures
            (final(self)@, out@) == channel_ready_step(
                old(self)@,
                user_channel_id,
                *channel_id,
                *counterparty_node_id,
            ),
            old(self)@.well_formed() ==> final(self)@.well_formed(),
    {
        proof {
            if old(self)@.well_formed() {
                lemma_channel_ready_keeps_well_formed(
                    old(self)@,
                    user_channel_id,
                    *channel_id,
                    *counterparty_node_id,
                );
            }
        }
        if user_channel_id > u64::MAX as u128 {
            return Outcome::nothing();
        }
        let scid: u64 = user_channel_id as u64;
        let at = match find_outbound_by_scid(&self.outbound_channels, scid) {
            Some(at) => at,
            None => {
                return Outcome::nothing();
            },
        };
        if !self.outbound_channels[at].counterparty_node_id.same(counterparty_node_id) {
            return Outcome::nothing();
        }
        match self.outbound_channels[at].state {
            OutboundJITChannelState::AwaitingPayment => Outcome::failure(Error::UnexpectedState),
            OutboundJITChannelState::AwaitingChannelReady {
                intercept_id,
                outbound_amount_msat,
                ..
            } => {
                let _ = self.remove_outbound(at);
                Outcome {
                    message: None,
                    event: None,
                    action: Some(
                        HtlcAction::Forward {
                            intercept_id,
                            next_hop_channel_id: *channel_id,
                            next_node_id: *counterparty_node_id,
                            amt_to_forward_msat: outbound_amount_msat,
                        },
                    ),
                    result: Ok(()),
                }
            },
        }
    }

    /// Takes a message of the JIT channel protocol from `counterparty_node_id`
    /// at the instant `now`. Where the message gives rise to a request of ours,
    /// the request is made under `next_request_id`.
    pub fn handle_message(
        &mut self,
        message: LSPS2Message,
        counterparty_node_id: &NodeId,
        now: &UnixTime,
        next_request_id: RequestId,
    ) -> (out: Outcome)
        ensures
            (final(self)@, out@) == message_step(
                old(self)@,
                message@,
                *counterparty_node_id,
                *now,
                next_request_id@,
            ),
            old(self)@.well_formed() ==> final(self)@.well_formed(),
    {
        proof {
            if old(self)@.well_formed() {
                lemma_message_keeps_well_formed(
                    old(self)@,
                    message@,
                    *counterparty_node_id,
                    *now,
                    next_request_id@,
                );
            }
        }
        match message {
            LSPS2Message::Request(request_id, request) => match request {
                LSPS2Request::GetVersions(_) => self.handle_get_versions_request(
                    request_id,
                    counterparty_node_id,
                ),
                LSPS2Request::GetInfo(params) => self.handle_get_info_request(
                    request_id,
                    counterparty_node_id,
                    params,
                ),
                LSPS2Request::Buy(params) => self.handle_buy_request(
                    request_id,
                    counterparty_node_id,
                    params,
                    now,
                ),
            },
            LSPS2Message::Response(request_id, response) => match response {
                LSPS2Response::GetVersions(result) => self.handle_get_versions_response(
                    request_id,
                    counterparty_node_id,
                    result,
                    next_request_id,
                ),
                LSPS2Response::GetInfo(result) => self.handle_get_info_response(
                    request_id,
                    counterparty_node_id,
                    result,
                ),
                LSPS2Response::GetInfoError(_) => self.handle_request_error(
                    request_id,
                    counterparty_node_id,
                    FailureReason::GetInfoRejected,
                ),
                LSPS2Response::Buy(result) => self.handle_buy_response(
                    request_id,
                    counterparty_node_id,
                    result,
                ),
                LSPS2Response::BuyError(_) => self.handle_request_error(
                    request_id,
                    counterparty_node_id,
                    FailureReason::BuyRejected,
                ),
            },
        }
    }
}

} // verus!
