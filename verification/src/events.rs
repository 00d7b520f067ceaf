//! The events that the library hands to its user.

use crate::jit_channel::msgs::{menu_value, OpeningFeeOffer, OpeningFeeParams};
use crate::node::NodeId;
use crate::transport::msgs::RequestId;
use vstd::prelude::*;

verus! {

/// Why a JIT channel was given up.
#[derive(Clone, Copy, Debug, PartialEq, Eq, Structural)]
pub enum FailureReason {
    /// The LSP supports none of our versions of the protocol.
    NoCommonVersion,
    /// A response arrived that the channel was not waiting for.
    UnexpectedResponse,
    /// The LSP answered a `get_info` request with an error.
    GetInfoRejected,
    /// The LSP answered a `buy` request with an error.
    BuyRejected,
    /// The LSP answered a `buy` request with a short channel id that cannot be read.
    InvalidScid,
    /// The peer could not read a message of ours.
    MessageNotUnderstood,
}

impl FailureReason {
    /// The reason in words.
    pub open spec fn description_text(self) -> Seq<char> {
        match self {
            FailureReason::NoCommonVersion => {
                "the LSP supports none of our versions of the protocol"@
            },
            FailureReason::UnexpectedResponse => {
                "a response arrived that the channel was not waiting for"@
            },
            FailureReason::GetInfoRejected => "the LSP rejected the get_info request"@,
            FailureReason::BuyRejected => "the LSP rejected the buy request"@,
            FailureReason::InvalidScid => {
                "the LSP answered with a short channel id that cannot be read"@
            },
            FailureReason::MessageNotUnderstood => "the peer could not read a message of ours"@,
        }
    }

    /// The reason in words.
    pub fn description(&self) -> (text: &'static str)
        ensures
            text@ == self.description_text(),
    {
        match self {
            FailureReason::NoCommonVersion => {
                "the LSP supports none of our versions of the protocol"
            },
            FailureReason::UnexpectedResponse => {
                "a response arrived that the channel was not waiting for"
            },
            FailureReason::GetInfoRejected => "the LSP rejected the get_info request",
            FailureReason::BuyRejected => "the LSP rejected the buy request",
            FailureReason::InvalidScid => {
                "the LSP answered with a short channel id that cannot be read"
            },
            FailureReason::MessageNotUnderstood => "the peer could not read a message of ours",
        }
    }
}

/// An event of the JIT channel protocol that the user has to handle.
#[derive(Debug, PartialEq, Eq)]
pub enum LSPS2Event {
    /// A client asked for our fees and parameters.
    ///
    /// Answer with `LiquidityManager::opening_fee_params_generated`.
    GetInfo {
        /// The id of the request, to be handed back with the answer.
        request_id: RequestId,
        /// The client that asked.
        counterparty_node_id: NodeId,
        /// The version of the protocol that the client wants to use.
        version: u16,
        /// The token that the client sent along, if any.
        token: Option<String>,
    },
    /// The LSP told us its fees and parameters.
    ///
    /// Pick an offer and answer with `LiquidityManager::opening_fee_params_selected`.
    GetInfoResponse {
        /// The LSP that answered.
        counterparty_node_id: NodeId,
        /// The offers to choose from.
        opening_fee_params_menu: Vec<OpeningFeeParams>,
        /// The minimum payment size that the LSP accepts.
        min_payment_size_msat: u64,
        /// The maximum payment size that the LSP accepts.
        max_payment_size_msat: u64,
        /// The id that was given when the invoice was asked for.
        user_channel_id: u128,
    },
    /// A client asked to buy a channel under an offer that is valid.
    ///
    /// Answer with `LiquidityManager::invoice_parameters_generated`.
    BuyRequest {
        /// The id of the request, to be handed back with the answer.
        request_id: RequestId,
        /// The client that asked.
        counterparty_node_id: NodeId,
        /// The version of the protocol that the client uses.
        version: u16,
        /// The offer that the client chose.
        opening_fee_params: OpeningFeeParams,
        /// The size of the payment that the client expects, if it is fixed.
        payment_size_msat: Option<u64>,
    },
    /// The LSP sold us a channel: an invoice can now be made.
    InvoiceParametersReady {
        /// The LSP that sold the channel.
        counterparty_node_id: NodeId,
        /// The short channel id to put into the invoice's route hint.
        scid: u64,
        /// The `cltv_expiry_delta` to put into the invoice's route hint.
        cltv_expiry_delta: u32,
        /// Whether the LSP asks us to trust it with the funding transaction.
        client_trusts_lsp: bool,
        /// The id that was given when the invoice was asked for.
        user_channel_id: u128,
    },
    /// A payment arrived for a channel that was sold: the channel is to be opened.
    ///
    /// Once the channel is ready, tell `LiquidityManager::channel_ready`.
    OpenChannel {
        /// The client to open the channel to.
        their_network_key: NodeId,
        /// The amount to forward once the channel is open.
        amt_to_forward_msat: u64,
        /// The fee that is kept for opening the channel.
        opening_fee_msat: u64,
        /// The id to open the channel under.
        user_channel_id: u128,
    },
    /// A JIT channel that we asked for was given up.
    ChannelFailed {
        /// The LSP that the channel was asked from.
        counterparty_node_id: NodeId,
        /// The id that was given when the invoice was asked for.
        user_channel_id: u128,
        /// Why the channel was given up.
        reason: FailureReason,
    },
}

/// An event that the user has to handle.
#[derive(Debug, PartialEq, Eq)]
pub enum Event {
    /// An event of the JIT channel protocol.
    LSPS2(LSPS2Event),
}

/// The mathematical value of an [`Event`], variant by variant.
pub enum EventValue {
    GetInfo { request_id: Seq<char>, counterparty_node_id: NodeId, version: u16, token: Option<Seq<char>> },
    GetInfoResponse {
        counterparty_node_id: NodeId,
        opening_fee_params_menu: Seq<OpeningFeeOffer>,
        min_payment_size_msat: u64,
        max_payment_size_msat: u64,
        user_channel_id: u128,
    },
    BuyRequest {
        request_id: Seq<char>,
        counterparty_node_id: NodeId,
        version: u16,
        opening_fee_params: OpeningFeeOffer,
        payment_size_msat: Option<u64>,
    },
    InvoiceParametersReady {
        counterparty_node_id: NodeId,
        scid: u64,
        cltv_expiry_delta: u32,
        client_trusts_lsp: bool,
        user_channel_id: u128,
    },
    OpenChannel {
        their_network_key: NodeId,
        amt_to_forward_msat: u64,
        opening_fee_msat: u64,
        user_channel_id: u128,
    },
    ChannelFailed { counterparty_node_id: NodeId, user_channel_id: u128, reason: FailureReason },
}

impl View for LSPS2Event {
    type V = EventValue;

    open spec fn view(&self) -> EventValue {
        match self {
            LSPS2Event::GetInfo {
                request_id,
                counterparty_node_id,
                version,
                token,
            } => EventValue::GetInfo {
                request_id: request_id@,
                counterparty_node_id: *counterparty_node_id,
                version: *version,
                token: match token {
                    Some(token) => Some(token@),
                    None => None,
                },
            },
            LSPS2Event::GetInfoResponse {
                counterparty_node_id,
                opening_fee_params_menu,
                min_payment_size_msat,
                max_payment_size_msat,
                user_channel_id,
            } => EventValue::GetInfoResponse {
                counterparty_node_id: *counterparty_node_id,
                opening_fee_params_menu: menu_value(opening_fee_params_menu@),
                min_payment_size_msat: *min_payment_size_msat,
                max_payment_size_msat: *max_payment_size_msat,
                user_channel_id: *user_channel_id,
            },
            LSPS2Event::BuyRequest {
                request_id,
                counterparty_node_id,
                version,
                opening_fee_params,
                payment_size_msat,
            } => EventValue::BuyRequest {
                request_id: request_id@,
                counterparty_node_id: *counterparty_node_id,
                version: *version,
                opening_fee_params: opening_fee_params@,
                payment_size_msat: *payment_size_msat,
            },
            LSPS2Event::InvoiceParametersReady {
                counterparty_node_id,
                scid,
                cltv_expiry_delta,
                client_trusts_lsp,
                user_channel_id,
            } => EventValue::InvoiceParametersReady {
                counterparty_node_id: *counterparty_node_id,
                scid: *scid,
                cltv_expiry_delta: *cltv_expiry_delta,
                client_trusts_lsp: *client_trusts_lsp,
                user_channel_id: *user_channel_id,
            },
            LSPS2Event::OpenChannel {
                their_network_key,
                amt_to_forward_msat,
                opening_fee_msat,
                user_channel_id,
            } => EventValue::OpenChannel {
                their_network_key: *their_network_key,
                amt_to_forward_msat: *amt_to_forward_msat,
                opening_fee_msat: *opening_fee_msat,
                user_channel_id: *user_channel_id,
            },
            LSPS2Event::ChannelFailed {
                counterparty_node_id,
                user_channel_id,
                reason,
            } => EventValue::ChannelFailed {
                counterparty_node_id: *counterparty_node_id,
                user_channel_id: *user_channel_id,
                reason: *reason,
            },
        }
    }
}

impl View for Event {
    type V = EventValue;

    open spec fn view(&self) -> EventValue {
        match self {
            Event::LSPS2(event) => event@,
        }
    }
}

/// The mathematical value of a list of events.
pub open spec fn events_value(events: Seq<Event>) -> Seq<EventValue> {
    Seq::new(events.len(), |i: int| events[i]@)
}

/// The events that wait for the user, oldest first.
pub struct EventQueue {
    queue: Vec<Event>,
}

impl View for EventQueue {
    type V = Seq<EventValue>;

    closed spec fn view(&self) -> Seq<EventValue> {
        events_value(self.queue@)
    }
}

impl EventQueue {
    /// An empty queue.
    pub fn new() -> (queue: EventQueue)
        ensures
            queue@ == Seq::<EventValue>::empty(),
    {
        let queue = EventQueue { queue: Vec::new() };
        assert(queue@ =~= Seq::<EventValue>::empty());
        queue
    }

    /// Puts an event behind the events that wait already.
    pub fn enqueue(&mut self, event: Event)
        ensures
            final(self)@ == old(self)@.push(event@),
    {
        self.queue.push(event);
        assert(self@ =~= old(self)@.push(event@));
    }

    /// Puts events behind the events that wait already, in their order.
    pub fn enqueue_all(&mut self, events: Vec<Event>)
        ensures
            final(self)@ == old(self)@ + events_value(events@),
    {
        let mut events = events;
        let ghost added = events@;
        self.queue.append(&mut events);
        assert(self@ =~= old(self)@ + events_value(added));
    }

    /// Takes the oldest event out of the queue, if there is one.
    pub fn next_event(&mut self) -> (event: Option<Event>)
        ensures
            match event {
                Some(first) => old(self)@.len() > 0 && first@ == old(self)@[0] && final(self)@
                    == old(self)@.drop_first(),
                None => old(self)@.len() == 0 && final(self)@ == old(self)@,
            },
    {
        if self.queue.len() == 0 {
            return None;
        }
        let first = self.queue.remove(0);
        assert(self@ =~= old(self)@.drop_first());
        Some(first)
    }

    /// Takes all events out of the queue, oldest first.
    pub fn get_and_clear_pending_events(&mut self) -> (events: Vec<Event>)
        ensures
            events_value(events@) == old(self)@,
            final(self)@ == Seq::<EventValue>::empty(),
    {
        let mut events: Vec<Event> = Vec::new();
        std::mem::swap(&mut events, &mut self.queue);
        assert(self@ =~= Seq::<EventValue>::empty());
        events
    }

    /// The number of events that wait.
    pub fn len(&self) -> (n: usize)
        ensures
            n == self@.len(),
    {
        self.queue.len()
    }
}

} // verus!
