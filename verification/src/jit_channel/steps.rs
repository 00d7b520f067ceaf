//! What each step of the JIT channel protocol does: a function from the state
//! before the step and what comes in to the state after it and what goes out.
//! The laws at the end hold of every state and every input.

use crate::error::{Error, HtlcRejection};
use crate::events::{EventValue, FailureReason};
use crate::jit_channel::channel_manager::{
    highest_common_version, is_supported_version, InboundChannelValue, InboundJITChannel,
    InboundJITChannelState, ManagerState, OutboundChannelValue, OutboundJITChannel,
    OutboundJITChannelState, OutcomeValue, PendingRequest, PendingRequestValue,
    SUPPORTED_SPEC_VERSION,
};
use crate::jit_channel::msgs::{
    OpeningFeeOffer, OpeningFeeTerms, RawOpeningFeeParams,
    LSPS2_BUY_REQUEST_INVALID_OPENING_FEE_PARAMS_ERROR_CODE,
    LSPS2_BUY_REQUEST_INVALID_VERSION_ERROR_CODE,
    LSPS2_BUY_REQUEST_PAYMENT_SIZE_TOO_LARGE_ERROR_CODE,
    LSPS2_BUY_REQUEST_PAYMENT_SIZE_TOO_SMALL_ERROR_CODE,
};
use crate::jit_channel::utils::{is_valid_at, opening_fee, promise_text};
use crate::node::{ChannelId, HtlcAction, InterceptId, NodeId};
use crate::time::UnixTime;
use crate::transport::msgs::{ErrorValue, MessageValue, RequestValue, ResponseValue};
use crate::utils::{scid_of_text, scid_text};
use vstd::prelude::*;

verus! {

/// The index of the first item of `items` that meets `wanted`.
pub open spec fn first_index<T>(items: Seq<T>, wanted: spec_fn(T) -> bool) -> Option<int>
    decreases items.len(),
{
    if items.len() == 0 {
        None
    } else if wanted(items[0]) {
        Some(0)
    } else {
        match first_index(items.drop_first(), wanted) {
            Some(at) => Some(at + 1),
            None => None,
        }
    }
}

/// An item that meets `wanted`, with none in front of it that does, is the
/// first such item.
pub proof fn lemma_first_index_at<T>(items: Seq<T>, wanted: spec_fn(T) -> bool, at: int)
    requires
        0 <= at < items.len(),
        wanted(items[at]),
        forall|j: int| 0 <= j < at ==> !wanted(#[trigger] items[j]),
    ensures
        first_index(items, wanted) == Some(at),
    decreases items.len(),
{
    if at > 0 {
        let rest = items.drop_first();
        assert(!wanted(items[0]));
        assert(rest[at - 1] == items[at]);
        assert forall|j: int| 0 <= j < at - 1 implies !wanted(#[trigger] rest[j]) by {
            assert(rest[j] == items[j + 1]);
        }
        lemma_first_index_at(rest, wanted, at - 1);
    }
}

/// Where no item meets `wanted`, there is no first such item.
pub proof fn lemma_first_index_none<T>(items: Seq<T>, wanted: spec_fn(T) -> bool)
    requires
        forall|j: int| 0 <= j < items.len() ==> !wanted(#[trigger] items[j]),
    ensures
        first_index(items, wanted) is None,
    decreases items.len(),
{
    if items.len() > 0 {
        let rest = items.drop_first();
        assert(!wanted(items[0]));
        assert forall|j: int| 0 <= j < rest.len() implies !wanted(#[trigger] rest[j]) by {
            assert(rest[j] == items[j + 1]);
        }
        lemma_first_index_none(rest, wanted);
    }
}

/// The first item that meets `wanted` does so, lies within the list, and has
/// none in front of it that does.
pub proof fn lemma_first_index_found<T>(items: Seq<T>, wanted: spec_fn(T) -> bool)
    ensures
        match first_index(items, wanted) {
            Some(at) => 0 <= at < items.len() && wanted(items[at]) && forall|j: int|
                0 <= j < at ==> !wanted(#[trigger] items[j]),
            None => forall|j: int| 0 <= j < items.len() ==> !wanted(#[trigger] items[j]),
        },
    decreases items.len(),
{
    if items.len() > 0 && !wanted(items[0]) {
        let rest = items.drop_first();
        lemma_first_index_found(rest, wanted);
        match first_index(rest, wanted) {
            Some(at) => {
                assert(rest[at] == items[at + 1]);
                assert forall|j: int| 0 <= j < at + 1 implies !wanted(#[trigger] items[j]) by {
                    if j > 0 {
                        assert(rest[j - 1] == items[j]);
                    }
                }
            },
            None => {
                assert forall|j: int| 0 <= j < items.len() implies !wanted(#[trigger] items[j]) by {
                    if j > 0 {
                        assert(rest[j - 1] == items[j]);
                    }
                }
            },
        }
    }
}

/// The mathematical values of a list of channels that we asked for.
pub open spec fn inbound_values(channels: Seq<InboundJITChannel>) -> Seq<InboundChannelValue> {
    Seq::new(channels.len(), |i: int| channels[i]@)
}

/// The mathematical values of a list of requests that wait.
pub open spec fn pending_values(requests: Seq<PendingRequest>) -> Seq<PendingRequestValue> {
    Seq::new(requests.len(), |i: int| requests[i]@)
}

/// The mathematical values of a list of channels that we sold.
pub open spec fn outbound_values(channels: Seq<OutboundJITChannel>) -> Seq<OutboundChannelValue> {
    Seq::new(channels.len(), |i: int| channels[i]@)
}

/// The channel that we asked `peer` for under `user_channel_id`.
pub open spec fn inbound_by_user_id(
    channels: Seq<InboundChannelValue>,
    peer: NodeId,
    user_channel_id: u128,
) -> Option<int> {
    first_index(
        channels,
        |channel: InboundChannelValue|
            channel.counterparty_node_id == peer && channel.user_channel_id == user_channel_id,
    )
}

/// The channel that waits for the response of `peer` to the request
/// `request_id`.
pub open spec fn inbound_by_request(
    channels: Seq<InboundChannelValue>,
    peer: NodeId,
    request_id: Seq<char>,
) -> Option<int> {
    first_index(
        channels,
        |channel: InboundChannelValue|
            channel.counterparty_node_id == peer && channel.pending_request == Some(request_id),
    )
}

/// The request `request_id` of `peer` that waits for the user's answer.
pub open spec fn pending_by_id(
    requests: Seq<PendingRequestValue>,
    peer: NodeId,
    request_id: Seq<char>,
) -> Option<int> {
    first_index(
        requests,
        |request: PendingRequestValue|
            request.counterparty_node_id == peer && request.request_id == request_id,
    )
}

/// The channel that was sold under `scid`.
pub open spec fn outbound_by_scid(channels: Seq<OutboundChannelValue>, scid: u64) -> Option<int> {
    first_index(channels, |channel: OutboundChannelValue| channel.scid == scid)
}

/// The event that tells the user that a channel was given up.
pub open spec fn channel_failed(channel: InboundChannelValue, reason: FailureReason) -> EventValue {
    EventValue::ChannelFailed {
        counterparty_node_id: channel.counterparty_node_id,
        user_channel_id: channel.user_channel_id,
        reason,
    }
}

/// The outcome of giving a channel up after a message of its LSP.
pub open spec fn give_up(
    channel: InboundChannelValue,
    reason: FailureReason,
    result: Result<(), Error>,
) -> OutcomeValue {
    OutcomeValue {
        message: None,
        event: Some(channel_failed(channel, reason)),
        action: None,
        result,
    }
}

/// The channels that we asked for once `channel` is asked for too: it takes the
/// place of the channel of the same LSP and id, if there is one, and goes
/// behind the others if there is none.
pub open spec fn with_inbound(
    channels: Seq<InboundChannelValue>,
    channel: InboundChannelValue,
) -> Seq<InboundChannelValue> {
    match inbound_by_user_id(channels, channel.counterparty_node_id, channel.user_channel_id) {
        Some(at) => channels.update(at, channel),
        None => channels.push(channel),
    }
}

/// What `create_invoice` does: the channel starts by asking the peer for its
/// versions. It always succeeds; a channel that was asked from the same peer
/// under the same id before is forgotten in favour of the new one.
pub open spec fn create_invoice_step(
    state: ManagerState,
    peer: NodeId,
    payment_size_msat: Option<u64>,
    token: Option<Seq<char>>,
    user_channel_id: u128,
    request_id: Seq<char>,
) -> (ManagerState, OutcomeValue) {
    (
        ManagerState {
            inbound_channels: with_inbound(
                state.inbound_channels,
                InboundChannelValue {
                    counterparty_node_id: peer,
                    user_channel_id,
                    payment_size_msat,
                    token,
                    opening_fee_params: None,
                    pending_request: Some(request_id),
                    state: InboundJITChannelState::AwaitingVersions,
                },
            ),
            ..state
        },
        OutcomeValue::send(peer, MessageValue::Request(request_id, RequestValue::GetVersions)),
    )
}

/// What the versions of an LSP do to the channel that asked for them: the
/// channel goes on to ask for the LSP's fees under the highest common version,
/// or is given up where there is none.
pub open spec fn versions_received_step(
    state: ManagerState,
    peer: NodeId,
    request_id: Seq<char>,
    versions: Seq<u16>,
    next_request_id: Seq<char>,
) -> (ManagerState, OutcomeValue) {
    match inbound_by_request(state.inbound_channels, peer, request_id) {
        None => (state, OutcomeValue::failure(Error::UnknownResponse)),
        Some(at) => {
            let channel = state.inbound_channels[at];
            if channel.state != InboundJITChannelState::AwaitingVersions {
                (
                    ManagerState { inbound_channels: state.inbound_channels.remove(at), ..state },
                    give_up(
                        channel,
                        FailureReason::UnexpectedResponse,
                        Err(Error::UnknownResponse),
                    ),
                )
            } else {
                match highest_common_version(versions) {
                    None => (
                        ManagerState {
                            inbound_channels: state.inbound_channels.remove(at),
                            ..state
                        },
                        give_up(
                            channel,
                            FailureReason::NoCommonVersion,
                            Err(Error::NoCommonVersion),
                        ),
                    ),
                    Some(version) => (
                        ManagerState {
                            inbound_channels: state.inbound_channels.update(
                                at,
                                InboundChannelValue {
                                    pending_request: Some(next_request_id),
                                    state: InboundJITChannelState::AwaitingInfo { version },
                                    ..channel
                                },
                            ),
                            ..state
                        },
                        OutcomeValue::send(
                            peer,
                            MessageValue::Request(
                                next_request_id,
                                RequestValue::GetInfo { version, token: channel.token },
                            ),
                        ),
                    ),
                }
            }
        },
    }
}

/// What the menu of an LSP does to the channel that asked for it: the menu is
/// handed to the user.
pub open spec fn info_received_step(
    state: ManagerState,
    peer: NodeId,
    request_id: Seq<char>,
    opening_fee_params_menu: Seq<OpeningFeeOffer>,
    min_payment_size_msat: u64,
    max_payment_size_msat: u64,
) -> (ManagerState, OutcomeValue) {
    match inbound_by_request(state.inbound_channels, peer, request_id) {
        None => (state, OutcomeValue::failure(Error::UnknownResponse)),
        Some(at) => {
            let channel = state.inbound_channels[at];
            match channel.state {
                InboundJITChannelState::AwaitingInfo { version } => (
                    ManagerState {
                        inbound_channels: state.inbound_channels.update(
                            at,
                            InboundChannelValue {
                                pending_request: None,
                                state: InboundJITChannelState::MenuOffered { version },
                                ..channel
                            },
                        ),
                        ..state
                    },
                    OutcomeValue::emit(
                        EventValue::GetInfoResponse {
                            counterparty_node_id: peer,
                            opening_fee_params_menu,
                            min_payment_size_msat,
                            max_payment_size_msat,
                            user_channel_id: channel.user_channel_id,
                        },
                    ),
                ),
                _ => (
                    ManagerState { inbound_channels: state.inbound_channels.remove(at), ..state },
                    give_up(
                        channel,
                        FailureReason::UnexpectedResponse,
                        Err(Error::UnknownResponse),
                    ),
                ),
            }
        },
    }
}

/// What an error response of an LSP does to the channel that waits for the
/// response: the channel is given up.
pub open spec fn request_rejected_step(
    state: ManagerState,
    peer: NodeId,
    request_id: Seq<char>,
    reason: FailureReason,
) -> (ManagerState, OutcomeValue) {
    match inbound_by_request(state.inbound_channels, peer, request_id) {
        None => (state, OutcomeValue::failure(Error::UnknownResponse)),
        Some(at) => (
            ManagerState { inbound_channels: state.inbound_channels.remove(at), ..state },
            give_up(state.inbound_channels[at], reason, Ok(())),
        ),
    }
}

/// What `opening_fee_params_selected` does: a channel whose menu was handed to
/// the user goes on to buy the channel under the offer that the user chose.
pub open spec fn params_selected_step(
    state: ManagerState,
    peer: NodeId,
    user_channel_id: u128,
    opening_fee_params: OpeningFeeOffer,
    request_id: Seq<char>,
) -> (ManagerState, OutcomeValue) {
    match inbound_by_user_id(state.inbound_channels, peer, user_channel_id) {
        None => (state, OutcomeValue::failure(Error::UnknownChannel)),
        Some(at) => {
            let channel = state.inbound_channels[at];
            match channel.state {
                InboundJITChannelState::MenuOffered { version } => (
                    ManagerState {
                        inbound_channels: state.inbound_channels.update(
                            at,
                            InboundChannelValue {
                                opening_fee_params: Some(opening_fee_params),
                                pending_request: Some(request_id),
                                state: InboundJITChannelState::AwaitingBuy { version },
                                ..channel
                            },
                        ),
                        ..state
                    },
                    OutcomeValue::send(
                        peer,
                        MessageValue::Request(
                            request_id,
                            RequestValue::Buy {
                                version,
                                opening_fee_params,
                                payment_size_msat: channel.payment_size_msat,
                            },
                        ),
                    ),
                ),
                _ => (state, OutcomeValue::failure(Error::UnexpectedState)),
            }
        },
    }
}

/// What the sale of a channel does to the channel that asked for it: the user
/// is told what to put into the invoice, or the channel is given up where the
/// short channel id cannot be read.
pub open spec fn buy_response_step(
    state: ManagerState,
    peer: NodeId,
    request_id: Seq<char>,
    jit_channel_scid: Seq<char>,
    lsp_cltv_expiry_delta: u32,
    client_trusts_lsp: bool,
) -> (ManagerState, OutcomeValue) {
    match inbound_by_request(state.inbound_channels, peer, request_id) {
        None => (state, OutcomeValue::failure(Error::UnknownResponse)),
        Some(at) => {
            let channel = state.inbound_channels[at];
            let without = ManagerState {
                inbound_channels: state.inbound_channels.remove(at),
                ..state
            };
            if !(channel.state is AwaitingBuy) {
                (
                    without,
                    give_up(
                        channel,
                        FailureReason::UnexpectedResponse,
                        Err(Error::UnknownResponse),
                    ),
                )
            } else {
                match scid_of_text(jit_channel_scid) {
                    None => (
                        without,
                        give_up(channel, FailureReason::InvalidScid, Err(Error::InvalidScid)),
                    ),
                    Some(scid) => (
                        ManagerState {
                            inbound_channels: state.inbound_channels.update(
                                at,
                                InboundChannelValue {
                                    pending_request: None,
                                    state: InboundJITChannelState::AwaitingPayment {
                                        scid,
                                        cltv_expiry_delta: lsp_cltv_expiry_delta,
                                        client_trusts_lsp,
                                    },
                                    ..channel
                                },
                            ),
                            ..state
                        },
                        OutcomeValue::emit(
                            EventValue::InvoiceParametersReady {
                                counterparty_node_id: peer,
                                scid,
                                cltv_expiry_delta: lsp_cltv_expiry_delta,
                                client_trusts_lsp,
                                user_channel_id: channel.user_channel_id,
                            },
                        ),
                    ),
                }
            }
        },
    }
}

/// The channels that are left once those of `peer` are taken out.
pub open spec fn without_peer(channels: Seq<InboundChannelValue>, peer: NodeId) -> Seq<
    InboundChannelValue,
>
    decreases channels.len(),
{
    if channels.len() == 0 {
        Seq::empty()
    } else if channels.last().counterparty_node_id == peer {
        without_peer(channels.drop_last(), peer)
    } else {
        without_peer(channels.drop_last(), peer).push(channels.last())
    }
}

/// The events that tell the user that the channels of `peer` were given up, in
/// the order of the channels.
pub open spec fn failures_of_peer(
    channels: Seq<InboundChannelValue>,
    peer: NodeId,
    reason: FailureReason,
) -> Seq<EventValue>
    decreases channels.len(),
{
    if channels.len() == 0 {
        Seq::empty()
    } else if channels.last().counterparty_node_id == peer {
        failures_of_peer(channels.drop_last(), peer, reason).push(
            channel_failed(channels.last(), reason),
        )
    } else {
        failures_of_peer(channels.drop_last(), peer, reason)
    }
}

/// The versions that this library answers a `get_versions` request with.
pub open spec fn supported_versions() -> Seq<u16> {
    seq![SUPPORTED_SPEC_VERSION]
}

/// What a `get_versions` request does: it is answered at once.
pub open spec fn versions_requested_step(state: ManagerState, peer: NodeId, request_id: Seq<char>) -> (
    ManagerState,
    OutcomeValue,
) {
    (
        state,
        OutcomeValue::send(
            peer,
            MessageValue::Response(request_id, ResponseValue::GetVersions(supported_versions())),
        ),
    )
}

/// The requests that wait once `request` waits too: it takes the place of the
/// request of the same peer and id, if there is one, and goes behind the others
/// if there is none.
pub open spec fn with_pending(
    requests: Seq<PendingRequestValue>,
    request: PendingRequestValue,
) -> Seq<PendingRequestValue> {
    match pending_by_id(requests, request.counterparty_node_id, request.request_id) {
        Some(at) => requests.update(at, request),
        None => requests.push(request),
    }
}

/// What a `get_info` request does: it waits for the user, who is told of it.
pub open spec fn info_requested_step(
    state: ManagerState,
    peer: NodeId,
    request_id: Seq<char>,
    version: u16,
    token: Option<Seq<char>>,
) -> (ManagerState, OutcomeValue) {
    (
        ManagerState {
            pending_requests: with_pending(
                state.pending_requests,
                PendingRequestValue {
                    counterparty_node_id: peer,
                    request_id,
                    request: RequestValue::GetInfo { version, token },
                },
            ),
            ..state
        },
        OutcomeValue::emit(
            EventValue::GetInfo { request_id, counterparty_node_id: peer, version, token },
        ),
    )
}

/// The mathematical values of a menu of offers without promises.
pub open spec fn raw_menu_value(menu: Seq<RawOpeningFeeParams>) -> Seq<OpeningFeeTerms> {
    Seq::new(menu.len(), |i: int| menu[i]@)
}

/// The menu in which each offer carries the promise that `secret` gives for
/// its terms.
pub open spec fn promised_menu(menu: Seq<OpeningFeeTerms>, secret: Seq<u8>) -> Seq<OpeningFeeOffer> {
    Seq::new(
        menu.len(),
        |i: int| OpeningFeeOffer { terms: menu[i], promise: promise_text(menu[i], secret) },
    )
}

/// What `opening_fee_params_generated` does: the `get_info` request that
/// waited is answered with the menu, each offer under its promise.
pub open spec fn params_generated_step(
    state: ManagerState,
    peer: NodeId,
    request_id: Seq<char>,
    menu: Seq<OpeningFeeTerms>,
) -> (ManagerState, OutcomeValue) {
    match pending_by_id(state.pending_requests, peer, request_id) {
        Some(at) => if state.pending_requests[at].request is GetInfo {
            (
                ManagerState { pending_requests: state.pending_requests.remove(at), ..state },
                OutcomeValue::send(
                    peer,
                    MessageValue::Response(
                        request_id,
                        ResponseValue::GetInfo {
                            opening_fee_params_menu: promised_menu(menu, state.promise_secret),
                            min_payment_size_msat: state.min_payment_size_msat,
                            max_payment_size_msat: state.max_payment_size_msat,
                        },
                    ),
                ),
            )
        } else {
            (state, OutcomeValue::failure(Error::UnknownRequest))
        },
        None => (state, OutcomeValue::failure(Error::UnknownRequest)),
    }
}

/// The code of the error that a `buy` request is answered with, or `None`
/// where the request is in order.
///
/// The version has to be supported; the offer has to carry our promise and must
/// not have expired; a fixed payment size has to lie within our limits and has
/// to exceed the opening fee.
pub open spec fn buy_rejection(
    state: ManagerState,
    version: u16,
    offer: OpeningFeeOffer,
    payment_size_msat: Option<u64>,
    now: UnixTime,
) -> Option<i32> {
    if !is_supported_version(version) {
        Some(LSPS2_BUY_REQUEST_INVALID_VERSION_ERROR_CODE)
    } else if !is_valid_at(offer, state.promise_secret, now) {
        Some(LSPS2_BUY_REQUEST_INVALID_OPENING_FEE_PARAMS_ERROR_CODE)
    } else {
        match payment_size_msat {
            None => None,
            Some(size) => if size < state.min_payment_size_msat {
                Some(LSPS2_BUY_REQUEST_PAYMENT_SIZE_TOO_SMALL_ERROR_CODE)
            } else if size > state.max_payment_size_msat {
                Some(LSPS2_BUY_REQUEST_PAYMENT_SIZE_TOO_LARGE_ERROR_CODE)
            } else if opening_fee(
                size as nat,
                offer.terms.min_fee_msat as nat,
                offer.terms.proportional as nat,
            ) >= size {
                Some(LSPS2_BUY_REQUEST_PAYMENT_SIZE_TOO_SMALL_ERROR_CODE)
            } else {
                None
            },
        }
    }
}

/// The words that go with the code of an error.
pub open spec fn rejection_message(code: i32) -> Seq<char> {
    if code == LSPS2_BUY_REQUEST_INVALID_VERSION_ERROR_CODE {
        "the version is not supported"@
    } else if code == LSPS2_BUY_REQUEST_INVALID_OPENING_FEE_PARAMS_ERROR_CODE {
        "valid_until is already past OR the promise did not match the provided parameters"@
    } else if code == LSPS2_BUY_REQUEST_PAYMENT_SIZE_TOO_SMALL_ERROR_CODE {
        "payment size is too small"@
    } else {
        "payment size is too large"@
    }
}

/// What a `buy` request does: one that is in order waits for the user, who is
/// told of it; another is answered with an error.
pub open spec fn buy_requested_step(
    state: ManagerState,
    peer: NodeId,
    request_id: Seq<char>,
    version: u16,
    offer: OpeningFeeOffer,
    payment_size_msat: Option<u64>,
    now: UnixTime,
) -> (ManagerState, OutcomeValue) {
    match buy_rejection(state, version, offer, payment_size_msat, now) {
        Some(code) => (
            state,
            OutcomeValue {
                message: Some(
                    (
                        peer,
                        MessageValue::Response(
                            request_id,
                            ResponseValue::BuyError(
                                ErrorValue { code, message: rejection_message(code), data: None },
                            ),
                        ),
                    ),
                ),
                event: None,
                action: None,
                result: Err(Error::RequestRejected(code)),
            },
        ),
        None => (
            ManagerState {
                pending_requests: with_pending(
                    state.pending_requests,
                    PendingRequestValue {
                        counterparty_node_id: peer,
                        request_id,
                        request: RequestValue::Buy {
                            version,
                            opening_fee_params: offer,
                            payment_size_msat,
                        },
                    },
                ),
                ..state
            },
            OutcomeValue::emit(
                EventValue::BuyRequest {
                    request_id,
                    counterparty_node_id: peer,
                    version,
                    opening_fee_params: offer,
                    payment_size_msat,
                },
            ),
        ),
    }
}

/// The channels that we sold once `channel` is sold too: it takes the place of
/// the channel that was sold under the same short channel id, if there is one,
/// and goes behind the others if there is none.
pub open spec fn with_outbound(
    channels: Seq<OutboundChannelValue>,
    channel: OutboundChannelValue,
) -> Seq<OutboundChannelValue> {
    match outbound_by_scid(channels, channel.scid) {
        Some(at) => channels.update(at, channel),
        None => channels.push(channel),
    }
}

/// The order to fail the payment that the channel sold under `scid` holds back,
/// if there is such a channel and it holds one.
pub open spec fn fail_held_payment(channels: Seq<OutboundChannelValue>, scid: u64) -> Option<
    HtlcAction,
> {
    match outbound_by_scid(channels, scid) {
        Some(at) => match channels[at].state {
            OutboundJITChannelState::AwaitingChannelReady { intercept_id, .. } => Some(
                HtlcAction::Fail { intercept_id },
            ),
            OutboundJITChannelState::AwaitingPayment => None,
        },
        None => None,
    }
}

/// What `invoice_parameters_generated` does: the `buy` request that waited is
/// answered with the short channel id, under which the channel is now sold.
///
/// It succeeds for every `buy` request that waits. A channel that was sold
/// under this short channel id before is forgotten in favour of the new one;
/// a payment that it held back is failed, so that none is left hanging.
pub open spec fn invoice_generated_step(
    state: ManagerState,
    peer: NodeId,
    request_id: Seq<char>,
    scid: u64,
    cltv_expiry_delta: u32,
    client_trusts_lsp: bool,
) -> (ManagerState, OutcomeValue) {
    match pending_by_id(state.pending_requests, peer, request_id) {
        Some(at) => match state.pending_requests[at].request {
            RequestValue::Buy { opening_fee_params, payment_size_msat, .. } => (
                ManagerState {
                    pending_requests: state.pending_requests.remove(at),
                    outbound_channels: with_outbound(
                        state.outbound_channels,
                        OutboundChannelValue {
                            scid,
                            counterparty_node_id: peer,
                            cltv_expiry_delta,
                            client_trusts_lsp,
                            payment_size_msat,
                            opening_fee_params,
                            state: OutboundJITChannelState::AwaitingPayment,
                        },
                    ),
                    ..state
                },
                OutcomeValue {
                    message: Some(
                        (
                            peer,
                            MessageValue::Response(
                                request_id,
                                ResponseValue::Buy {
                                    jit_channel_scid: scid_text(scid),
                                    lsp_cltv_expiry_delta: cltv_expiry_delta,
                                    client_trusts_lsp,
                                },
                            ),
                        ),
                    ),
                    event: None,
                    action: fail_held_payment(state.outbound_channels, scid),
                    result: Ok(()),
                },
            ),
            _ => (state, OutcomeValue::failure(Error::UnknownRequest)),
        },
        None => (state, OutcomeValue::failure(Error::UnknownRequest)),
    }
}

/// Why an intercepted HTLC is turned down, or `None` where it pays for the
/// channel.
///
/// The offer must not have expired. What is held back, the amount that came in
/// less the amount to forward, has to cover the opening fee for the amount that
/// came in. Where a payment size was fixed, the amount that came in has to be
/// that size.
pub open spec fn htlc_rejection(
    channel: OutboundChannelValue,
    inbound_amount_msat: u64,
    expected_outbound_amount_msat: u64,
    now: UnixTime,
) -> Option<HtlcRejection> {
    if !now.at_or_before(channel.opening_fee_params.terms.valid_until) {
        Some(HtlcRejection::OfferExpired)
    } else if expected_outbound_amount_msat > inbound_amount_msat {
        Some(HtlcRejection::OutboundExceedsInbound)
    } else if inbound_amount_msat - expected_outbound_amount_msat < opening_fee(
        inbound_amount_msat as nat,
        channel.opening_fee_params.terms.min_fee_msat as nat,
        channel.opening_fee_params.terms.proportional as nat,
    ) {
        Some(HtlcRejection::FeeTooLow)
    } else if channel.payment_size_msat matches Some(size) && inbound_amount_msat != size {
        Some(HtlcRejection::WrongPaymentSize)
    } else {
        None
    }
}

/// The outcome of turning an intercepted HTLC down: the node is to fail it.
pub open spec fn reject_htlc(intercept_id: InterceptId, reason: HtlcRejection) -> OutcomeValue {
    OutcomeValue {
        message: None,
        event: None,
        action: Some(HtlcAction::Fail { intercept_id }),
        result: Err(Error::HtlcRejected(reason)),
    }
}

/// What an intercepted HTLC does: one for a short channel id that was not given
/// out is passed over; one that pays for a channel is held back while the user
/// opens the channel; another is failed, and the channel it came for is dropped
/// unless it already holds a payment.
pub open spec fn htlc_intercepted_step(
    state: ManagerState,
    scid: u64,
    intercept_id: InterceptId,
    inbound_amount_msat: u64,
    expected_outbound_amount_msat: u64,
    now: UnixTime,
) -> (ManagerState, OutcomeValue) {
    match outbound_by_scid(state.outbound_channels, scid) {
        None => (state, OutcomeValue::nothing()),
        Some(at) => {
            let channel = state.outbound_channels[at];
            if channel.state != OutboundJITChannelState::AwaitingPayment {
                (state, reject_htlc(intercept_id, HtlcRejection::AlreadyPaid))
            } else {
                match htlc_rejection(
                    channel,
                    inbound_amount_msat,
                    expected_outbound_amount_msat,
                    now,
                ) {
                    Some(reason) => (
                        ManagerState {
                            outbound_channels: state.outbound_channels.remove(at),
                            ..state
                        },
                        reject_htlc(intercept_id, reason),
                    ),
                    None => (
                        ManagerState {
                            outbound_channels: state.outbound_channels.update(
                                at,
                                OutboundChannelValue {
                                    state: OutboundJITChannelState::AwaitingChannelReady {
                                        intercept_id,
                                        inbound_amount_msat,
                                        outbound_amount_msat: expected_outbound_amount_msat,
                                    },
                                    ..channel
                                },
                            ),
                            ..state
                        },
                        OutcomeValue::emit(
                            EventValue::OpenChannel {
                                their_network_key: channel.counterparty_node_id,
                                amt_to_forward_msat: expected_outbound_amount_msat,
                                opening_fee_msat: (inbound_amount_msat
                                    - expected_outbound_amount_msat) as u64,
                                user_channel_id: scid as u128,
                            },
                        ),
                    ),
                }
            }
        },
    }
}

/// What the news that a channel is ready does: where the channel was sold to
/// this peer and holds a payment, the payment is forwarded over it and the
/// record of the sale is dropped; news of other channels is passed over.
pub open spec fn channel_ready_step(
    state: ManagerState,
    user_channel_id: u128,
    channel_id: ChannelId,
    peer: NodeId,
) -> (ManagerState, OutcomeValue) {
    if user_channel_id > u64::MAX {
        (state, OutcomeValue::nothing())
    } else {
        match outbound_by_scid(state.outbound_channels, user_channel_id as u64) {
            None => (state, OutcomeValue::nothing()),
            Some(at) => {
                let channel = state.outbound_channels[at];
                if channel.counterparty_node_id != peer {
                    (state, OutcomeValue::nothing())
                } else {
                    match channel.state {
                        OutboundJITChannelState::AwaitingChannelReady {
                            intercept_id,
                            outbound_amount_msat,
                            ..
                        } => (
                            ManagerState {
                                outbound_channels: state.outbound_channels.remove(at),
                                ..state
                            },
                            OutcomeValue {
                                message: None,
                                event: None,
                                action: Some(
                                    HtlcAction::Forward {
                                        intercept_id,
                                        next_hop_channel_id: channel_id,
                                        next_node_id: peer,
                                        amt_to_forward_msat: outbound_amount_msat,
                                    },
                                ),
                                result: Ok(()),
                            },
                        ),
                        OutboundJITChannelState::AwaitingPayment => (
                            state,
                            OutcomeValue::failure(Error::UnexpectedState),
                        ),
                    }
                }
            },
        }
    }
}

/// Whether no two items of `items` have the same key.
pub open spec fn unique_by<T, K>(items: Seq<T>, key: spec_fn(T) -> K) -> bool {
    forall|i: int, j: int|
        0 <= i < j < items.len() ==> key(#[trigger] items[i]) != key(#[trigger] items[j])
}

/// Taking an item out leaves the keys of the others apart.
pub proof fn lemma_unique_remove<T, K>(items: Seq<T>, key: spec_fn(T) -> K, at: int)
    requires
        unique_by(items, key),
        0 <= at < items.len(),
    ensures
        unique_by(items.remove(at), key),
{
    let rest = items.remove(at);
    assert forall|i: int, j: int| 0 <= i < j < rest.len() implies key(#[trigger] rest[i]) != key(
        #[trigger] rest[j],
    ) by {
        let from_i = if i < at {
            i
        } else {
            i + 1
        };
        let from_j = if j < at {
            j
        } else {
            j + 1
        };
        assert(rest[i] == items[from_i]);
        assert(rest[j] == items[from_j]);
    }
}

/// Putting an item in the place of one with the same key leaves the keys apart.
pub proof fn lemma_unique_update<T, K>(items: Seq<T>, key: spec_fn(T) -> K, at: int, item: T)
    requires
        unique_by(items, key),
        0 <= at < items.len(),
        key(item) == key(items[at]),
    ensures
        unique_by(items.update(at, item), key),
{
    let next = items.update(at, item);
    assert forall|i: int, j: int| 0 <= i < j < next.len() implies key(#[trigger] next[i]) != key(
        #[trigger] next[j],
    ) by {
        assert(key(next[i]) == key(items[i]));
        assert(key(next[j]) == key(items[j]));
    }
}

/// Adding an item whose key none of the others has leaves the keys apart.
pub proof fn lemma_unique_push<T, K>(items: Seq<T>, key: spec_fn(T) -> K, item: T)
    requires
        unique_by(items, key),
        forall|i: int| 0 <= i < items.len() ==> key(#[trigger] items[i]) != key(item),
    ensures
        unique_by(items.push(item), key),
{
    let next = items.push(item);
    assert forall|i: int, j: int| 0 <= i < j < next.len() implies key(#[trigger] next[i]) != key(
        #[trigger] next[j],
    ) by {
        assert(next[i] == items[i]);
        if j < items.len() {
            assert(next[j] == items[j]);
        }
    }
}

/// The key of a channel that we asked for: the LSP and the id that the user
/// gave the channel.
pub open spec fn inbound_key(channel: InboundChannelValue) -> (NodeId, u128) {
    (channel.counterparty_node_id, channel.user_channel_id)
}

/// The key of a request that waits: the client and the id of the request.
pub open spec fn pending_key(request: PendingRequestValue) -> (NodeId, Seq<char>) {
    (request.counterparty_node_id, request.request_id)
}

/// The key of a channel that we sold: its short channel id.
pub open spec fn outbound_key(channel: OutboundChannelValue) -> u64 {
    channel.scid
}

impl ManagerState {
    /// Whether nothing is held twice: no two channels that we asked the same
    /// LSP for have the same id, no two requests of the same client that wait
    /// have the same id, and no two channels that we sold have the same short
    /// channel id.
    pub open spec fn well_formed(self) -> bool {
        &&& unique_by(self.inbound_channels, |channel: InboundChannelValue| inbound_key(channel))
        &&& unique_by(self.pending_requests, |request: PendingRequestValue| pending_key(request))
        &&& unique_by(self.outbound_channels, |channel: OutboundChannelValue| outbound_key(channel))
    }
}

/// Every channel that is left once those of `peer` are taken out was there
/// before, and the channels that are left keep their order.
pub proof fn lemma_without_peer_unique(channels: Seq<InboundChannelValue>, peer: NodeId)
    requires
        unique_by(channels, |channel: InboundChannelValue| inbound_key(channel)),
    ensures
        unique_by(
            without_peer(channels, peer),
            |channel: InboundChannelValue| inbound_key(channel),
        ),
        forall|k: int|
            0 <= k < without_peer(channels, peer).len() ==> exists|i: int|
                0 <= i < channels.len() && channels[i] == #[trigger] without_peer(channels, peer)[k],
    decreases channels.len(),
{
    let key = |channel: InboundChannelValue| inbound_key(channel);
    if channels.len() > 0 {
        let head = channels.drop_last();
        let last = channels.last();
        assert forall|i: int, j: int| 0 <= i < j < head.len() implies key(#[trigger] head[i])
            != key(#[trigger] head[j]) by {
            assert(head[i] == channels[i]);
            assert(head[j] == channels[j]);
        }
        lemma_without_peer_unique(head, peer);
        let kept = without_peer(head, peer);
        let all = without_peer(channels, peer);
        assert forall|k: int| 0 <= k < kept.len() implies (exists|i: int|
            0 <= i < head.len() && channels[i] == #[trigger] kept[k]) by {
            let i = choose|i: int| 0 <= i < head.len() && head[i] == kept[k];
            assert(channels[i] == head[i]);
        }
        if last.counterparty_node_id != peer {
            assert forall|k: int| 0 <= k < kept.len() implies key(#[trigger] kept[k]) != key(
                last,
            ) by {
                let i = choose|i: int| 0 <= i < head.len() && channels[i] == kept[k];
                assert(key(channels[i]) != key(channels[channels.len() - 1]));
            }
            lemma_unique_push(kept, key, last);
            assert forall|k: int| 0 <= k < all.len() implies (exists|i: int|
                0 <= i < channels.len() && channels[i] == #[trigger] all[k]) by {
                if k < kept.len() {
                    let i = choose|i: int| 0 <= i < head.len() && channels[i] == kept[k];
                    assert(all[k] == kept[k]);
                    assert(0 <= i < channels.len() && channels[i] == all[k]);
                } else {
                    assert(channels[channels.len() - 1] == all[k]);
                }
            }
        } else {
            assert forall|k: int| 0 <= k < all.len() implies (exists|i: int|
                0 <= i < channels.len() && channels[i] == #[trigger] all[k]) by {
                let i = choose|i: int| 0 <= i < head.len() && channels[i] == kept[k];
                assert(0 <= i < channels.len() && channels[i] == all[k]);
            }
        }
    }
}

/// What a message of the JIT channel protocol does, as a request of a client
/// or as the response of an LSP; `next_request_id` is the id of the request
/// that the response may give rise to.
pub open spec fn message_step(
    state: ManagerState,
    message: MessageValue,
    peer: NodeId,
    now: UnixTime,
    next_request_id: Seq<char>,
) -> (ManagerState, OutcomeValue) {
    match message {
        MessageValue::Request(id, RequestValue::GetVersions) => versions_requested_step(
            state,
            peer,
            id,
        ),
        MessageValue::Request(id, RequestValue::GetInfo { version, token }) => info_requested_step(
            state,
            peer,
            id,
            version,
            token,
        ),
        MessageValue::Request(
            id,
            RequestValue::Buy { version, opening_fee_params, payment_size_msat },
        ) => buy_requested_step(
            state,
            peer,
            id,
            version,
            opening_fee_params,
            payment_size_msat,
            now,
        ),
        MessageValue::Response(id, ResponseValue::GetVersions(versions)) => versions_received_step(
            state,
            peer,
            id,
            versions,
            next_request_id,
        ),
        MessageValue::Response(
            id,
            ResponseValue::GetInfo {
                opening_fee_params_menu,
                min_payment_size_msat,
                max_payment_size_msat,
            },
        ) => info_received_step(
            state,
            peer,
            id,
            opening_fee_params_menu,
            min_payment_size_msat,
            max_payment_size_msat,
        ),
        MessageValue::Response(id, ResponseValue::GetInfoError(_)) => request_rejected_step(
            state,
            peer,
            id,
            FailureReason::GetInfoRejected,
        ),
        MessageValue::Response(
            id,
            ResponseValue::Buy { jit_channel_scid, lsp_cltv_expiry_delta, client_trusts_lsp },
        ) => buy_response_step(
            state,
            peer,
            id,
            jit_channel_scid,
            lsp_cltv_expiry_delta,
            client_trusts_lsp,
        ),
        MessageValue::Response(id, ResponseValue::BuyError(_)) => request_rejected_step(
            state,
            peer,
            id,
            FailureReason::BuyRejected,
        ),
        _ => (state, OutcomeValue::nothing()),
    }
}

/// An HTLC for which a channel is opened arrived before the offer expired, and
/// what is kept of it is the opening fee at least: the amount to forward and
/// the fee make up the amount that came in, and the fee is not less than the
/// opening fee that the offer asks for that amount.
pub proof fn lemma_opened_channel_is_paid_for(
    state: ManagerState,
    scid: u64,
    intercept_id: InterceptId,
    inbound_amount_msat: u64,
    expected_outbound_amount_msat: u64,
    now: UnixTime,
)
    requires
        htlc_intercepted_step(
            state,
            scid,
            intercept_id,
            inbound_amount_msat,
            expected_outbound_amount_msat,
            now,
        ).1.event is Some,
    ensures
        ({
            let (next, out) = htlc_intercepted_step(
                state,
                scid,
                intercept_id,
                inbound_amount_msat,
                expected_outbound_amount_msat,
                now,
            );
            &&& outbound_by_scid(state.outbound_channels, scid) matches Some(at)
            &&& out.event matches Some(
                EventValue::OpenChannel {
                    their_network_key,
                    amt_to_forward_msat,
                    opening_fee_msat,
                    user_channel_id,
                },
            )
            &&& out.result is Ok
            &&& out.action is None
            &&& their_network_key == state.outbound_channels[at].counterparty_node_id
            &&& user_channel_id == scid
            &&& amt_to_forward_msat + opening_fee_msat == inbound_amount_msat
            &&& opening_fee_msat >= opening_fee(
                inbound_amount_msat as nat,
                state.outbound_channels[at].opening_fee_params.terms.min_fee_msat as nat,
                state.outbound_channels[at].opening_fee_params.terms.proportional as nat,
            )
            &&& now.at_or_before(state.outbound_channels[at].opening_fee_params.terms.valid_until)
            &&& state.outbound_channels[at].payment_size_msat matches Some(size) ==> size
                == inbound_amount_msat
        }),
{
    lemma_first_index_found(
        state.outbound_channels,
        |channel: OutboundChannelValue| channel.scid == scid,
    );
}

/// An HTLC is forwarded only over a channel that holds it, in the amount that
/// was announced when the channel was opened, and the record of the sale is
/// then dropped.
pub proof fn lemma_forwarded_htlc_was_held(
    state: ManagerState,
    user_channel_id: u128,
    channel_id: ChannelId,
    peer: NodeId,
)
    requires
        channel_ready_step(state, user_channel_id, channel_id, peer).1.action is Some,
    ensures
        ({
            let (next, out) = channel_ready_step(state, user_channel_id, channel_id, peer);
            &&& user_channel_id <= u64::MAX
            &&& outbound_by_scid(state.outbound_channels, user_channel_id as u64) matches Some(at)
            &&& state.outbound_channels[at].state matches OutboundJITChannelState::AwaitingChannelReady {
                intercept_id,
                outbound_amount_msat,
                ..
            }
            &&& out.action == Some(
                HtlcAction::Forward {
                    intercept_id,
                    next_hop_channel_id: channel_id,
                    next_node_id: peer,
                    amt_to_forward_msat: outbound_amount_msat,
                },
            )
            &&& state.outbound_channels[at].counterparty_node_id == peer
            &&& next.outbound_channels == state.outbound_channels.remove(at)
        }),
{
    if user_channel_id <= u64::MAX {
        lemma_first_index_found(
            state.outbound_channels,
            |channel: OutboundChannelValue| channel.scid == user_channel_id as u64,
        );
    }
}

/// A `buy` request that is taken to the user names a supported version and
/// carries an offer of ours that has not expired; a fixed payment size lies
/// within our limits and exceeds the opening fee.
pub proof fn lemma_accepted_buy_request_is_in_order(
    state: ManagerState,
    version: u16,
    offer: OpeningFeeOffer,
    payment_size_msat: Option<u64>,
    now: UnixTime,
)
    requires
        buy_rejection(state, version, offer, payment_size_msat, now) is None,
    ensures
        is_supported_version(version),
        offer.promise == promise_text(offer.terms, state.promise_secret),
        now.at_or_before(offer.terms.valid_until),
        payment_size_msat matches Some(size) ==> {
            &&& state.min_payment_size_msat <= size <= state.max_payment_size_msat
            &&& opening_fee(
                size as nat,
                offer.terms.min_fee_msat as nat,
                offer.terms.proportional as nat,
            ) < size
        },
{
}

/// What it means that a channel, a request or a sale was found, or was not.
pub proof fn lemma_found(state: ManagerState, peer: NodeId, user_channel_id: u128, request_id: Seq<
    char,
>, scid: u64)
    ensures
        match inbound_by_user_id(state.inbound_channels, peer, user_channel_id) {
            Some(at) => 0 <= at < state.inbound_channels.len() && inbound_key(
                state.inbound_channels[at],
            ) == (peer, user_channel_id),
            None => forall|i: int|
                0 <= i < state.inbound_channels.len() ==> inbound_key(
                    #[trigger] state.inbound_channels[i],
                ) != (peer, user_channel_id),
        },
        match inbound_by_request(state.inbound_channels, peer, request_id) {
            Some(at) => 0 <= at < state.inbound_channels.len()
                && state.inbound_channels[at].counterparty_node_id == peer
                && state.inbound_channels[at].pending_request == Some(request_id),
            None => true,
        },
        match pending_by_id(state.pending_requests, peer, request_id) {
            Some(at) => 0 <= at < state.pending_requests.len() && pending_key(
                state.pending_requests[at],
            ) == (peer, request_id),
            None => forall|i: int|
                0 <= i < state.pending_requests.len() ==> pending_key(
                    #[trigger] state.pending_requests[i],
                ) != (peer, request_id),
        },
        match outbound_by_scid(state.outbound_channels, scid) {
            Some(at) => 0 <= at < state.outbound_channels.len()
                && state.outbound_channels[at].scid == scid,
            None => forall|i: int|
                0 <= i < state.outbound_channels.len() ==> outbound_key(
                    #[trigger] state.outbound_channels[i],
                ) != scid,
        },
{
    lemma_first_index_found(
        state.inbound_channels,
        |channel: InboundChannelValue|
            channel.counterparty_node_id == peer && channel.user_channel_id == user_channel_id,
    );
    lemma_first_index_found(
        state.inbound_channels,
        |channel: InboundChannelValue|
            channel.counterparty_node_id == peer && channel.pending_request == Some(request_id),
    );
    lemma_first_index_found(
        state.pending_requests,
        |request: PendingRequestValue|
            request.counterparty_node_id == peer && request.request_id == request_id,
    );
    lemma_first_index_found(
        state.outbound_channels,
        |channel: OutboundChannelValue| channel.scid == scid,
    );
}

/// A request that comes to wait leaves the keys of the requests that wait
/// apart.
pub proof fn lemma_with_pending_unique(
    requests: Seq<PendingRequestValue>,
    request: PendingRequestValue,
)
    requires
        unique_by(requests, |request: PendingRequestValue| pending_key(request)),
    ensures
        unique_by(
            with_pending(requests, request),
            |request: PendingRequestValue| pending_key(request),
        ),
{
    let key = |request: PendingRequestValue| pending_key(request);
    lemma_first_index_found(
        requests,
        |other: PendingRequestValue|
            other.counterparty_node_id == request.counterparty_node_id && other.request_id
                == request.request_id,
    );
    match pending_by_id(requests, request.counterparty_node_id, request.request_id) {
        Some(at) => {
            lemma_unique_update(requests, key, at, request);
        },
        None => {
            lemma_unique_push(requests, key, request);
        },
    }
}

/// Asking for a channel always succeeds: one `get_versions` request goes to the
/// peer, the user is told nothing yet, and the channel that is then held for
/// the peer under the id is the new one, waiting for the peer's versions.
pub proof fn lemma_create_invoice_starts_the_handshake(
    state: ManagerState,
    peer: NodeId,
    payment_size_msat: Option<u64>,
    token: Option<Seq<char>>,
    user_channel_id: u128,
    request_id: Seq<char>,
)
    ensures
        ({
            let (next, out) = create_invoice_step(
                state,
                peer,
                payment_size_msat,
                token,
                user_channel_id,
                request_id,
            );
            &&& out == OutcomeValue::send(
                peer,
                MessageValue::Request(request_id, RequestValue::GetVersions),
            )
            &&& out.result is Ok
            &&& inbound_by_user_id(next.inbound_channels, peer, user_channel_id) matches Some(at)
            &&& next.inbound_channels[at] == (InboundChannelValue {
                counterparty_node_id: peer,
                user_channel_id,
                payment_size_msat,
                token,
                opening_fee_params: None,
                pending_request: Some(request_id),
                state: InboundJITChannelState::AwaitingVersions,
            })
            &&& next.pending_requests == state.pending_requests
            &&& next.outbound_channels == state.outbound_channels
        }),
{
    let wanted = |channel: InboundChannelValue|
        channel.counterparty_node_id == peer && channel.user_channel_id == user_channel_id;
    let next = create_invoice_step(
        state,
        peer,
        payment_size_msat,
        token,
        user_channel_id,
        request_id,
    ).0;
    lemma_first_index_found(state.inbound_channels, wanted);
    match inbound_by_user_id(state.inbound_channels, peer, user_channel_id) {
        Some(at) => {
            assert forall|j: int| 0 <= j < at implies !wanted(
                #[trigger] next.inbound_channels[j],
            ) by {
                assert(next.inbound_channels[j] == state.inbound_channels[j]);
            }
            lemma_first_index_at(next.inbound_channels, wanted, at);
        },
        None => {
            let at = state.inbound_channels.len() as int;
            assert forall|j: int| 0 <= j < at implies !wanted(
                #[trigger] next.inbound_channels[j],
            ) by {
                assert(next.inbound_channels[j] == state.inbound_channels[j]);
            }
            lemma_first_index_at(next.inbound_channels, wanted, at);
        },
    }
}

/// Asking for a channel leaves the state well formed.
pub proof fn lemma_create_invoice_keeps_well_formed(
    state: ManagerState,
    peer: NodeId,
    payment_size_msat: Option<u64>,
    token: Option<Seq<char>>,
    user_channel_id: u128,
    request_id: Seq<char>,
)
    requires
        state.well_formed(),
    ensures
        create_invoice_step(
            state,
            peer,
            payment_size_msat,
            token,
            user_channel_id,
            request_id,
        ).0.well_formed(),
{
    let next = create_invoice_step(
        state,
        peer,
        payment_size_msat,
        token,
        user_channel_id,
        request_id,
    ).0;
    let key = |channel: InboundChannelValue| inbound_key(channel);
    lemma_found(state, peer, user_channel_id, request_id, 0);
    match inbound_by_user_id(state.inbound_channels, peer, user_channel_id) {
        Some(at) => {
            lemma_unique_update(state.inbound_channels, key, at, next.inbound_channels[at]);
        },
        None => {
            lemma_unique_push(state.inbound_channels, key, next.inbound_channels.last());
        },
    }
}

/// Choosing an offer leaves the state well formed.
pub proof fn lemma_params_selected_keeps_well_formed(
    state: ManagerState,
    peer: NodeId,
    user_channel_id: u128,
    opening_fee_params: OpeningFeeOffer,
    request_id: Seq<char>,
)
    requires
        state.well_formed(),
    ensures
        params_selected_step(
            state,
            peer,
            user_channel_id,
            opening_fee_params,
            request_id,
        ).0.well_formed(),
{
    let next = params_selected_step(state, peer, user_channel_id, opening_fee_params, request_id).0;
    lemma_found(state, peer, user_channel_id, request_id, 0);
    match inbound_by_user_id(state.inbound_channels, peer, user_channel_id) {
        Some(at) => {
            if next != state {
                lemma_unique_update(
                    state.inbound_channels,
                    |channel: InboundChannelValue| inbound_key(channel),
                    at,
                    next.inbound_channels[at],
                );
            }
        },
        None => {},
    }
}

/// Answering a `get_info` request leaves the state well formed.
pub proof fn lemma_params_generated_keeps_well_formed(
    state: ManagerState,
    peer: NodeId,
    request_id: Seq<char>,
    menu: Seq<OpeningFeeTerms>,
)
    requires
        state.well_formed(),
    ensures
        params_generated_step(state, peer, request_id, menu).0.well_formed(),
{
    lemma_found(state, peer, 0, request_id, 0);
    match pending_by_id(state.pending_requests, peer, request_id) {
        Some(at) => {
            lemma_unique_remove(
                state.pending_requests,
                |request: PendingRequestValue| pending_key(request),
                at,
            );
        },
        None => {},
    }
}

/// Answering a `buy` request leaves the state well formed.
pub proof fn lemma_invoice_generated_keeps_well_formed(
    state: ManagerState,
    peer: NodeId,
    request_id: Seq<char>,
    scid: u64,
    cltv_expiry_delta: u32,
    client_trusts_lsp: bool,
)
    requires
        state.well_formed(),
    ensures
        invoice_generated_step(
            state,
            peer,
            request_id,
            scid,
            cltv_expiry_delta,
            client_trusts_lsp,
        ).0.well_formed(),
{
    let next = invoice_generated_step(
        state,
        peer,
        request_id,
        scid,
        cltv_expiry_delta,
        client_trusts_lsp,
    ).0;
    lemma_found(state, peer, 0, request_id, scid);
    match pending_by_id(state.pending_requests, peer, request_id) {
        Some(at) => {
            lemma_unique_remove(
                state.pending_requests,
                |request: PendingRequestValue| pending_key(request),
                at,
            );
            if next != state {
                let key = |channel: OutboundChannelValue| outbound_key(channel);
                match outbound_by_scid(state.outbound_channels, scid) {
                    Some(sold) => {
                        lemma_unique_update(
                            state.outbound_channels,
                            key,
                            sold,
                            next.outbound_channels[sold],
                        );
                    },
                    None => {
                        lemma_unique_push(
                            state.outbound_channels,
                            key,
                            next.outbound_channels.last(),
                        );
                    },
                }
            }
        },
        None => {},
    }
}

/// Answering a `buy` request that waits always succeeds: the response goes to
/// the client, and the channel that is then found under the short channel id is
/// the new one, waiting for its payment, so that a payment intercepted for this
/// short channel id is held against it.
pub proof fn lemma_invoice_generated_registers(
    state: ManagerState,
    peer: NodeId,
    request_id: Seq<char>,
    scid: u64,
    cltv_expiry_delta: u32,
    client_trusts_lsp: bool,
)
    requires
        pending_by_id(state.pending_requests, peer, request_id) matches Some(at)
            && state.pending_requests[at].request is Buy,
    ensures
        ({
            let (next, out) = invoice_generated_step(
                state,
                peer,
                request_id,
                scid,
                cltv_expiry_delta,
                client_trusts_lsp,
            );
            let waited = state.pending_requests[pending_by_id(
                state.pending_requests,
                peer,
                request_id,
            )->0].request;
            &&& out.result is Ok
            &&& out.event is None
            &&& out.message == Some(
                (
                    peer,
                    MessageValue::Response(
                        request_id,
                        ResponseValue::Buy {
                            jit_channel_scid: scid_text(scid),
                            lsp_cltv_expiry_delta: cltv_expiry_delta,
                            client_trusts_lsp,
                        },
                    ),
                ),
            )
            &&& outbound_by_scid(next.outbound_channels, scid) matches Some(sold)
            &&& next.outbound_channels[sold] == (OutboundChannelValue {
                scid,
                counterparty_node_id: peer,
                cltv_expiry_delta,
                client_trusts_lsp,
                payment_size_msat: waited->Buy_payment_size_msat,
                opening_fee_params: waited->Buy_opening_fee_params,
                state: OutboundJITChannelState::AwaitingPayment,
            })
        }),
{
    let wanted = |channel: OutboundChannelValue| channel.scid == scid;
    let next = invoice_generated_step(
        state,
        peer,
        request_id,
        scid,
        cltv_expiry_delta,
        client_trusts_lsp,
    ).0;
    lemma_first_index_found(state.outbound_channels, wanted);
    let sold = match outbound_by_scid(state.outbound_channels, scid) {
        Some(sold) => sold,
        None => state.outbound_channels.len() as int,
    };
    assert forall|j: int| 0 <= j < sold implies !wanted(#[trigger] next.outbound_channels[j]) by {
        assert(next.outbound_channels[j] == state.outbound_channels[j]);
    }
    lemma_first_index_at(next.outbound_channels, wanted, sold);
}

/// An intercepted HTLC leaves the state well formed.
pub proof fn lemma_htlc_intercepted_keeps_well_formed(
    state: ManagerState,
    scid: u64,
    intercept_id: InterceptId,
    inbound_amount_msat: u64,
    expected_outbound_amount_msat: u64,
    now: UnixTime,
)
    requires
        state.well_formed(),
    ensures
        htlc_intercepted_step(
            state,
            scid,
            intercept_id,
            inbound_amount_msat,
            expected_outbound_amount_msat,
            now,
        ).0.well_formed(),
{
    let next = htlc_intercepted_step(
        state,
        scid,
        intercept_id,
        inbound_amount_msat,
        expected_outbound_amount_msat,
        now,
    ).0;
    let key = |channel: OutboundChannelValue| outbound_key(channel);
    lemma_first_index_found(
        state.outbound_channels,
        |channel: OutboundChannelValue| channel.scid == scid,
    );
    match outbound_by_scid(state.outbound_channels, scid) {
        Some(at) => {
            lemma_unique_remove(state.outbound_channels, key, at);
            if next.outbound_channels.len() == state.outbound_channels.len() && next != state {
                lemma_unique_update(state.outbound_channels, key, at, next.outbound_channels[at]);
            }
        },
        None => {},
    }
}

/// The news that a channel is ready leaves the state well formed.
pub proof fn lemma_channel_ready_keeps_well_formed(
    state: ManagerState,
    user_channel_id: u128,
    channel_id: ChannelId,
    peer: NodeId,
)
    requires
        state.well_formed(),
    ensures
        channel_ready_step(state, user_channel_id, channel_id, peer).0.well_formed(),
{
    if user_channel_id <= u64::MAX {
        lemma_first_index_found(
            state.outbound_channels,
            |channel: OutboundChannelValue| channel.scid == user_channel_id as u64,
        );
        match outbound_by_scid(state.outbound_channels, user_channel_id as u64) {
            Some(at) => {
                lemma_unique_remove(
                    state.outbound_channels,
                    |channel: OutboundChannelValue| outbound_key(channel),
                    at,
                );
            },
            None => {},
        }
    }
}

/// Giving up the channels of a peer leaves the state well formed.
pub proof fn lemma_without_peer_keeps_well_formed(state: ManagerState, peer: NodeId)
    requires
        state.well_formed(),
    ensures
        (ManagerState {
            inbound_channels: without_peer(state.inbound_channels, peer),
            ..state
        }).well_formed(),
{
    lemma_without_peer_unique(state.inbound_channels, peer);
}

/// An error response leaves the state well formed.
pub proof fn lemma_request_rejected_keeps_well_formed(
    state: ManagerState,
    peer: NodeId,
    request_id: Seq<char>,
    reason: FailureReason,
)
    requires
        state.well_formed(),
    ensures
        request_rejected_step(state, peer, request_id, reason).0.well_formed(),
{
    lemma_found(state, peer, 0, request_id, 0);
    match inbound_by_request(state.inbound_channels, peer, request_id) {
        Some(at) => {
            lemma_unique_remove(
                state.inbound_channels,
                |channel: InboundChannelValue| inbound_key(channel),
                at,
            );
        },
        None => {},
    }
}

/// Taking a channel that we asked for out, or putting one with the same key in
/// its place, leaves the keys of the channels apart.
proof fn lemma_inbound_change_unique(
    before: Seq<InboundChannelValue>,
    after: Seq<InboundChannelValue>,
    at: int,
)
    requires
        unique_by(before, |channel: InboundChannelValue| inbound_key(channel)),
        0 <= at < before.len(),
        after == before || after == before.remove(at) || (after.len() == before.len() && after
            == before.update(at, after[at]) && inbound_key(after[at]) == inbound_key(before[at])),
    ensures
        unique_by(after, |channel: InboundChannelValue| inbound_key(channel)),
{
    let key = |channel: InboundChannelValue| inbound_key(channel);
    if after == before {
    } else if after == before.remove(at) {
        lemma_unique_remove(before, key, at);
    } else {
        lemma_unique_update(before, key, at, after[at]);
    }
}

/// The versions of an LSP leave the state well formed.
pub proof fn lemma_versions_received_keeps_well_formed(
    state: ManagerState,
    peer: NodeId,
    request_id: Seq<char>,
    versions: Seq<u16>,
    next_request_id: Seq<char>,
)
    requires
        state.well_formed(),
    ensures
        versions_received_step(
            state,
            peer,
            request_id,
            versions,
            next_request_id,
        ).0.well_formed(),
{
    let next = versions_received_step(state, peer, request_id, versions, next_request_id).0;
    lemma_found(state, peer, 0, request_id, 0);
    match inbound_by_request(state.inbound_channels, peer, request_id) {
        Some(at) => {
            lemma_inbound_change_unique(state.inbound_channels, next.inbound_channels, at);
        },
        None => {},
    }
}

/// The menu of an LSP leaves the state well formed.
pub proof fn lemma_info_received_keeps_well_formed(
    state: ManagerState,
    peer: NodeId,
    request_id: Seq<char>,
    opening_fee_params_menu: Seq<OpeningFeeOffer>,
    min_payment_size_msat: u64,
    max_payment_size_msat: u64,
)
    requires
        state.well_formed(),
    ensures
        info_received_step(
            state,
            peer,
            request_id,
            opening_fee_params_menu,
            min_payment_size_msat,
            max_payment_size_msat,
        ).0.well_formed(),
{
    let next = info_received_step(
        state,
        peer,
        request_id,
        opening_fee_params_menu,
        min_payment_size_msat,
        max_payment_size_msat,
    ).0;
    lemma_found(state, peer, 0, request_id, 0);
    match inbound_by_request(state.inbound_channels, peer, request_id) {
        Some(at) => {
            lemma_inbound_change_unique(state.inbound_channels, next.inbound_channels, at);
        },
        None => {},
    }
}

/// The sale of a channel leaves the state well formed.
pub proof fn lemma_buy_response_keeps_well_formed(
    state: ManagerState,
    peer: NodeId,
    request_id: Seq<char>,
    jit_channel_scid: Seq<char>,
    lsp_cltv_expiry_delta: u32,
    client_trusts_lsp: bool,
)
    requires
        state.well_formed(),
    ensures
        buy_response_step(
            state,
            peer,
            request_id,
            jit_channel_scid,
            lsp_cltv_expiry_delta,
            client_trusts_lsp,
        ).0.well_formed(),
{
    let next = buy_response_step(
        state,
        peer,
        request_id,
        jit_channel_scid,
        lsp_cltv_expiry_delta,
        client_trusts_lsp,
    ).0;
    lemma_found(state, peer, 0, request_id, 0);
    match inbound_by_request(state.inbound_channels, peer, request_id) {
        Some(at) => {
            lemma_inbound_change_unique(state.inbound_channels, next.inbound_channels, at);
        },
        None => {},
    }
}

/// A `get_info` request leaves the state well formed.
pub proof fn lemma_info_requested_keeps_well_formed(
    state: ManagerState,
    peer: NodeId,
    request_id: Seq<char>,
    version: u16,
    token: Option<Seq<char>>,
)
    requires
        state.well_formed(),
    ensures
        info_requested_step(state, peer, request_id, version, token).0.well_formed(),
{
    lemma_with_pending_unique(
        state.pending_requests,
        PendingRequestValue {
            counterparty_node_id: peer,
            request_id,
            request: RequestValue::GetInfo { version, token },
        },
    );
}

/// A `buy` request leaves the state well formed.
pub proof fn lemma_buy_requested_keeps_well_formed(
    state: ManagerState,
    peer: NodeId,
    request_id: Seq<char>,
    version: u16,
    offer: OpeningFeeOffer,
    payment_size_msat: Option<u64>,
    now: UnixTime,
)
    requires
        state.well_formed(),
    ensures
        buy_requested_step(
            state,
            peer,
            request_id,
            version,
            offer,
            payment_size_msat,
            now,
        ).0.well_formed(),
{
    lemma_with_pending_unique(
        state.pending_requests,
        PendingRequestValue {
            counterparty_node_id: peer,
            request_id,
            request: RequestValue::Buy { version, opening_fee_params: offer, payment_size_msat },
        },
    );
}

/// The messages of peers leave the state well formed.
pub proof fn lemma_message_keeps_well_formed(
    state: ManagerState,
    message: MessageValue,
    peer: NodeId,
    now: UnixTime,
    next_request_id: Seq<char>,
)
    requires
        state.well_formed(),
    ensures
        message_step(state, message, peer, now, next_request_id).0.well_formed(),
{
    match message {
        MessageValue::Request(id, RequestValue::GetInfo { version, token }) => {
            lemma_info_requested_keeps_well_formed(state, peer, id, version, token);
        },
        MessageValue::Request(
            id,
            RequestValue::Buy { version, opening_fee_params, payment_size_msat },
        ) => {
            lemma_buy_requested_keeps_well_formed(
                state,
                peer,
                id,
                version,
                opening_fee_params,
                payment_size_msat,
                now,
            );
        },
        MessageValue::Response(id, ResponseValue::GetVersions(versions)) => {
            lemma_versions_received_keeps_well_formed(state, peer, id, versions, next_request_id);
        },
        MessageValue::Response(
            id,
            ResponseValue::GetInfo {
                opening_fee_params_menu,
                min_payment_size_msat,
                max_payment_size_msat,
            },
        ) => {
            lemma_info_received_keeps_well_formed(
                state,
                peer,
                id,
                opening_fee_params_menu,
                min_payment_size_msat,
                max_payment_size_msat,
            );
        },
        MessageValue::Response(id, ResponseValue::GetInfoError(_)) => {
            lemma_request_rejected_keeps_well_formed(
                state,
                peer,
                id,
                FailureReason::GetInfoRejected,
            );
        },
        MessageValue::Response(
            id,
            ResponseValue::Buy { jit_channel_scid, lsp_cltv_expiry_delta, client_trusts_lsp },
        ) => {
            lemma_buy_response_keeps_well_formed(
                state,
                peer,
                id,
                jit_channel_scid,
                lsp_cltv_expiry_delta,
                client_trusts_lsp,
            );
        },
        MessageValue::Response(id, ResponseValue::BuyError(_)) => {
            lemma_request_rejected_keeps_well_formed(state, peer, id, FailureReason::BuyRejected);
        },
        _ => {},
    }
}

} // verus!
