//! The one entry to the library: it takes the messages of peers and the calls
//! of the user, hands them to the protocol they belong to, and collects what is
//! to be sent, what the user is to be told, and what the node is to do.

use crate::error::Error;
use crate::events::{events_value, Event, EventQueue, EventValue, FailureReason};
use crate::features::{
    init_feature_bits, init_features, node_feature_bits, node_features, provided_bits,
    InitFeatureFlags, NodeFeatureFlags,
};
use crate::jit_channel::channel_manager::{
    text_value, JITChannelManager, ManagerState, Outcome, OutcomeValue,
};
use crate::jit_channel::steps::{
    channel_ready_step, create_invoice_step, failures_of_peer, htlc_intercepted_step,
    invoice_generated_step, message_step, params_generated_step, params_selected_step,
    raw_menu_value, without_peer,
};
use crate::jit_channel::msgs::{OpeningFeeParams, RawOpeningFeeParams};
use crate::json::{json_of_text, same_members, text_of_json, JsonValue};
use crate::node::{
    genesis_hash, genesis_hash_of, BestBlock, ChainParameters, ChannelId, HtlcAction, InterceptId,
    NodeId,
};
use crate::time::UnixTime;
use crate::transport::format::{
    lemma_message_read_back, message_json, message_of_json, message_well_formed, methods_after,
};
use crate::transport::msgs::{
    LSPSMessage, MessageValue, RawLSPSMessage, RequestId, RequestIdMap, RequestValue,
    ResponseValue,
};
use crate::transport::protocol::{lsps0_step, LSPS0MessageHandler};
use crate::utils::{request_id_from_entropy, request_id_text};
use vstd::prelude::*;

verus! {

/// The number of the JIT channel protocol.
pub const LSPS2_PROTOCOL_NUMBER: u16 = 2;

/// A configuration for [`LiquidityManager`].
///
/// Allows end-user to configure options when using the [`LiquidityManager`]
/// to provide liquidity services to clients.
#[derive(Clone, Copy, Debug, PartialEq, Eq)]
pub struct LiquidityProviderConfig {
    /// Optional configuration for JIT channels
    /// should you want to support them.
    pub jit_channels: Option<JITChannelsConfig>,
}

/// Configuration options for JIT channels.
#[derive(Clone, Copy, Debug, PartialEq, Eq)]
pub struct JITChannelsConfig {
    /// Used to calculate the promise for channel parameters supplied to clients.
    ///
    /// Note: If this changes then old promises given out will be considered invalid.
    pub promise_secret: [u8; 32],
    /// The minimum payment size you are willing to accept.
    pub min_payment_size_msat: u64,
    /// The maximum payment size you are willing to accept.
    pub max_payment_size_msat: u64,
}

/// The main interface into LSP functionality.
///
/// The manager does no input or output of its own. Messages of peers are given
/// to [`LiquidityManager::handle_custom_message`]; what is to be sent is taken
/// with [`LiquidityManager::get_and_clear_pending_msg`], what the user is to be
/// told with [`LiquidityManager::get_and_clear_pending_events`], and what the
/// node is to do with intercepted HTLCs with
/// [`LiquidityManager::get_and_clear_pending_htlc_actions`].
pub struct LiquidityManager {
    pending_messages: Vec<(NodeId, LSPSMessage)>,
    pending_events: EventQueue,
    pending_actions: Vec<HtlcAction>,
    request_id_to_method_map: RequestIdMap,
    lsps0_message_handler: LSPS0MessageHandler,
    lsps2_message_handler: Option<JITChannelManager>,
    provider_config: Option<LiquidityProviderConfig>,
    genesis_hash: [u8; 32],
    best_block: BestBlock,
}

/// The mathematical value of a [`LiquidityManager`].
pub struct LiquidityState {
    /// The messages that wait to be sent, oldest first.
    pub messages: Seq<(NodeId, MessageValue)>,
    /// The events that wait for the user, oldest first.
    pub events: Seq<EventValue>,
    /// The orders that wait for the node, oldest first.
    pub actions: Seq<HtlcAction>,
    /// The methods of the requests that wait for a response, by request id.
    pub methods: Map<Seq<char>, Seq<char>>,
    /// The numbers of the protocols that are enabled.
    pub protocols: Seq<u16>,
    /// The JIT channels, where they are configured.
    pub jit_channels: Option<ManagerState>,
    /// Whether a provider configuration was given.
    pub provides_liquidity: bool,
    /// The hash of the first block of the chain.
    pub genesis_hash: Seq<u8>,
    /// The tip of the chain.
    pub best_block: BestBlock,
}

impl LiquidityState {
    /// Whether the JIT channels, where they are configured, hold nothing twice.
    pub open spec fn well_formed(self) -> bool {
        self.jit_channels matches Some(jit) ==> jit.well_formed()
    }
}

/// The mathematical values of a list of messages that wait to be sent.
pub open spec fn messages_value(messages: Seq<(NodeId, LSPSMessage)>) -> Seq<
    (NodeId, MessageValue),
> {
    Seq::new(messages.len(), |i: int| (messages[i].0, messages[i].1@))
}

/// The mathematical values of a list of messages as they travel.
pub open spec fn raw_messages_value(messages: Seq<(NodeId, RawLSPSMessage)>) -> Seq<
    (NodeId, Seq<char>),
> {
    Seq::new(messages.len(), |i: int| (messages[i].0, messages[i].1.payload@))
}

impl View for LiquidityManager {
    type V = LiquidityState;

    closed spec fn view(&self) -> LiquidityState {
        LiquidityState {
            messages: messages_value(self.pending_messages@),
            events: self.pending_events@,
            actions: self.pending_actions@,
            methods: self.request_id_to_method_map@,
            protocols: self.lsps0_message_handler.protocols@,
            jit_channels: match self.lsps2_message_handler {
                Some(handler) => Some(handler@),
                None => None,
            },
            provides_liquidity: self.provider_config is Some,
            genesis_hash: self.genesis_hash@,
            best_block: self.best_block,
        }
    }
}

/// The state of a manager that was just made.
pub open spec fn initial_state(
    provider_config: Option<LiquidityProviderConfig>,
    chain_params: ChainParameters,
) -> LiquidityState {
    let jit_channels = match provider_config {
        Some(config) => config.jit_channels,
        None => None,
    };
    LiquidityState {
        messages: Seq::empty(),
        events: Seq::empty(),
        actions: Seq::empty(),
        methods: Map::empty(),
        protocols: if jit_channels is Some {
            seq![LSPS2_PROTOCOL_NUMBER]
        } else {
            Seq::empty()
        },
        jit_channels: match jit_channels {
            Some(config) => Some(
                ManagerState {
                    promise_secret: config.promise_secret@,
                    min_payment_size_msat: config.min_payment_size_msat,
                    max_payment_size_msat: config.max_payment_size_msat,
                    inbound_channels: Seq::empty(),
                    pending_requests: Seq::empty(),
                    outbound_channels: Seq::empty(),
                },
            ),
            None => None,
        },
        provides_liquidity: provider_config is Some,
        genesis_hash: genesis_hash_of(chain_params.network),
        best_block: chain_params.best_block,
    }
}

/// The state once the outcome of a step is taken in: its message, event and
/// order each go behind those that wait already.
pub open spec fn with_outcome(state: LiquidityState, out: OutcomeValue) -> LiquidityState {
    LiquidityState {
        messages: match out.message {
            Some(message) => state.messages.push(message),
            None => state.messages,
        },
        events: match out.event {
            Some(event) => state.events.push(event),
            None => state.events,
        },
        actions: match out.action {
            Some(action) => state.actions.push(action),
            None => state.actions,
        },
        ..state
    }
}

/// What a step of the JIT channel protocol does to the manager: it is refused
/// where JIT channels are not configured, and its outcome is taken in where
/// they are.
pub open spec fn jit_step(
    state: LiquidityState,
    step: spec_fn(ManagerState) -> (ManagerState, OutcomeValue),
) -> (LiquidityState, Result<(), Error>) {
    match state.jit_channels {
        None => (state, Err(Error::NotConfigured)),
        Some(jit) => {
            let (next, out) = step(jit);
            (with_outcome(LiquidityState { jit_channels: Some(next), ..state }, out), out.result)
        },
    }
}

/// Whether a message belongs to the LSPS0 protocol.
pub open spec fn is_lsps0(message: MessageValue) -> bool {
    match message {
        MessageValue::Request(_, RequestValue::ListProtocols) => true,
        MessageValue::Response(_, ResponseValue::ListProtocols(_)) => true,
        MessageValue::Response(_, ResponseValue::ListProtocolsError(_)) => true,
        _ => false,
    }
}

/// What a message of `sender` does to the manager.
///
/// The notice that a message of ours could not be read gives up the channels
/// that were asked from the sender. A message of the LSPS0 protocol is answered
/// by that protocol. A message of the JIT channel protocol is taken by that
/// protocol where it is configured; where it is not, the sender is told that
/// the message could not be read.
pub open spec fn message_handled(
    state: LiquidityState,
    message: MessageValue,
    sender: NodeId,
    now: UnixTime,
    next_request_id: Seq<char>,
) -> (LiquidityState, Result<(), Error>) {
    if message is Invalid {
        match state.jit_channels {
            Some(jit) => (
                LiquidityState {
                    jit_channels: Some(
                        ManagerState {
                            inbound_channels: without_peer(jit.inbound_channels, sender),
                            ..jit
                        },
                    ),
                    events: state.events + failures_of_peer(
                        jit.inbound_channels,
                        sender,
                        FailureReason::MessageNotUnderstood,
                    ),
                    ..state
                },
                Err(Error::PeerRejectedMessage),
            ),
            None => (state, Err(Error::PeerRejectedMessage)),
        }
    } else if is_lsps0(message) {
        let out = lsps0_step(state.protocols, message, sender);
        (with_outcome(state, out), out.result)
    } else {
        match state.jit_channels {
            Some(_) => jit_step(
                state,
                |jit: ManagerState| message_step(jit, message, sender, now, next_request_id),
            ),
            None => (
                LiquidityState {
                    messages: state.messages.push((sender, MessageValue::Invalid)),
                    ..state
                },
                Err(Error::ProtocolNotConfigured),
            ),
        }
    }
}

/// What the text of a custom message of `sender` does to the manager: a text
/// that stands for a message is handled as that message; for any other the
/// sender is told that the message could not be read. A response takes its
/// request out of the map either way.
pub open spec fn custom_message_handled(
    state: LiquidityState,
    payload: Seq<char>,
    sender: NodeId,
    now: UnixTime,
    next_request_id: Seq<char>,
) -> (LiquidityState, Result<(), Error>) {
    match json_of_text(payload) {
        None => (
            LiquidityState {
                messages: state.messages.push((sender, MessageValue::Invalid)),
                ..state
            },
            Ok(()),
        ),
        Some(json) => {
            let after = LiquidityState { methods: methods_after(json, state.methods), ..state };
            match message_of_json(json, state.methods) {
                None => (
                    LiquidityState {
                        messages: after.messages.push((sender, MessageValue::Invalid)),
                        ..after
                    },
                    Ok(()),
                ),
                Some(message) => message_handled(after, message, sender, now, next_request_id),
            }
        },
    }
}

/// The map once the requests among `messages` are recorded in it, oldest
/// first. A request is recorded where its text is written: one that
/// `serde_json` does not write is not sent, and leaves no trace in the map.
pub open spec fn methods_recorded(
    methods: Map<Seq<char>, Seq<char>>,
    messages: Seq<(NodeId, MessageValue)>,
) -> Map<Seq<char>, Seq<char>>
    decreases messages.len(),
{
    if messages.len() == 0 {
        methods
    } else {
        let before = methods_recorded(methods, messages.drop_last());
        match messages.last().1 {
            MessageValue::Request(id, request) => if text_of_json(
                message_json(messages.last().1),
            ) is Some {
                before.insert(id, request.method())
            } else {
                before
            },
            _ => before,
        }
    }
}

/// The texts of `messages` as they travel, oldest first; a message that
/// `serde_json` does not write is left out.
pub open spec fn payloads(messages: Seq<(NodeId, MessageValue)>) -> Seq<(NodeId, Seq<char>)>
    decreases messages.len(),
{
    if messages.len() == 0 {
        Seq::empty()
    } else {
        let before = payloads(messages.drop_last());
        match text_of_json(message_json(messages.last().1)) {
            Some(text) => before.push((messages.last().0, text)),
            None => before,
        }
    }
}

/// Whether everything that waits in `earlier` still waits in `later`, in the
/// same order and in front of what was added.
pub open spec fn keeps_order(earlier: LiquidityState, later: LiquidityState) -> bool {
    &&& earlier.messages.is_prefix_of(later.messages)
    &&& earlier.events.is_prefix_of(later.events)
    &&& earlier.actions.is_prefix_of(later.actions)
}

/// Taking an outcome in puts its message, event and order behind those that
/// wait already.
pub proof fn lemma_outcome_keeps_order(state: LiquidityState, out: OutcomeValue)
    ensures
        keeps_order(state, with_outcome(state, out)),
{
    let next = with_outcome(state, out);
    assert(next.messages.take(state.messages.len() as int) =~= state.messages);
    assert(next.events.take(state.events.len() as int) =~= state.events);
    assert(next.actions.take(state.actions.len() as int) =~= state.actions);
}

/// Whatever a step of the JIT channel protocol does, the messages, events and
/// orders that it adds go behind those that wait already.
pub proof fn lemma_step_keeps_order(
    state: LiquidityState,
    step: spec_fn(ManagerState) -> (ManagerState, OutcomeValue),
)
    ensures
        keeps_order(state, jit_step(state, step).0),
{
    match state.jit_channels {
        Some(jit) => {
            let (next, out) = step(jit);
            lemma_outcome_keeps_order(LiquidityState { jit_channels: Some(next), ..state }, out);
        },
        None => {},
    }
    assert(state.messages.take(state.messages.len() as int) =~= state.messages);
    assert(state.events.take(state.events.len() as int) =~= state.events);
    assert(state.actions.take(state.actions.len() as int) =~= state.actions);
}

/// Whatever a custom message does, the messages, events and orders that it
/// adds go behind those that wait already: events are handed out in the order
/// in which they arose.
pub proof fn lemma_custom_message_keeps_order(
    state: LiquidityState,
    payload: Seq<char>,
    sender: NodeId,
    now: UnixTime,
    next_request_id: Seq<char>,
)
    ensures
        keeps_order(
            state,
            custom_message_handled(state, payload, sender, now, next_request_id).0,
        ),
{
    let next = custom_message_handled(state, payload, sender, now, next_request_id).0;
    match json_of_text(payload) {
        None => {},
        Some(json) => {
            let after = LiquidityState { methods: methods_after(json, state.methods), ..state };
            match message_of_json(json, state.methods) {
                None => {},
                Some(message) => {
                    if message is Invalid {
                    } else if is_lsps0(message) {
                        lemma_outcome_keeps_order(
                            after,
                            lsps0_step(after.protocols, message, sender),
                        );
                    } else {
                        lemma_step_keeps_order(
                            after,
                            |jit: ManagerState|
                                message_step(jit, message, sender, now, next_request_id),
                        );
                    }
                },
            }
        },
    }
    assert(next.messages.take(state.messages.len() as int) =~= state.messages);
    assert(next.events.take(state.events.len() as int) =~= state.events);
    assert(next.actions.take(state.actions.len() as int) =~= state.actions);
}

/// A custom message whose text reads as a document that holds the same as the
/// one written for a message, in whatever order its members stand, is handled
/// as that message, with the request of a response taken out of the map: no
/// notice that it could not be read is sent on its account.
///
/// The offers in the message have to be well formed, and for a response the map
/// has to hold the method of the request that it answers.
pub proof fn lemma_written_message_is_handled(
    state: LiquidityState,
    payload: Seq<char>,
    message: MessageValue,
    sender: NodeId,
    now: UnixTime,
    next_request_id: Seq<char>,
)
    requires
        json_of_text(payload) matches Some(json) && same_members(json, message_json(message)),
        message_well_formed(message),
        message matches MessageValue::Response(id, response) ==> state.methods.contains_key(id)
            && state.methods[id] == response.method(),
    ensures
        custom_message_handled(state, payload, sender, now, next_request_id) == message_handled(
            LiquidityState {
                methods: match message {
                    MessageValue::Response(id, _) => state.methods.remove(id),
                    _ => state.methods,
                },
                ..state
            },
            message,
            sender,
            now,
            next_request_id,
        ),
{
    lemma_message_read_back(json_of_text(payload)->0, message, state.methods);
}

/// A request that is handed out for sending is recorded, so that a document
/// that holds the same as the one written for a response to it reads as that
/// response under the map as the drain leaves it.
pub proof fn lemma_drained_request_can_be_answered(
    methods: Map<Seq<char>, Seq<char>>,
    messages: Seq<(NodeId, MessageValue)>,
    peer: NodeId,
    id: Seq<char>,
    request: RequestValue,
    response: ResponseValue,
    answer: JsonValue,
)
    requires
        text_of_json(message_json(MessageValue::Request(id, request))) is Some,
        response.method() == request.method(),
        message_well_formed(MessageValue::Response(id, response)),
        same_members(answer, message_json(MessageValue::Response(id, response))),
    ensures
        ({
            let after = methods_recorded(
                methods,
                messages.push((peer, MessageValue::Request(id, request))),
            );
            &&& after.contains_key(id)
            &&& after[id] == request.method()
            &&& message_of_json(answer, after) == Some(MessageValue::Response(id, response))
        }),
{
    let all = messages.push((peer, MessageValue::Request(id, request)));
    assert(all.drop_last() =~= messages);
    assert(all.last() == (peer, MessageValue::Request(id, request)));
    let after = methods_recorded(methods, all);
    assert(after == methods_recorded(methods, messages).insert(id, request.method()));
    lemma_message_read_back(answer, MessageValue::Response(id, response), after);
}

impl LiquidityManager {
    /// Constructor for the [`LiquidityManager`].
    ///
    /// Sets up the required protocol message handlers based on the given [`LiquidityProviderConfig`].
    pub fn new(provider_config: Option<LiquidityProviderConfig>, chain_params: ChainParameters) -> (manager:
        LiquidityManager)
        ensures
            manager@ == initial_state(provider_config, chain_params),
            manager@.well_formed(),
    {
        let jit_channels = match provider_config {
            Some(config) => config.jit_channels,
            None => None,
        };
        let mut protocols: Vec<u16> = Vec::new();
        let lsps2_message_handler = match jit_channels {
            Some(config) => {
                protocols.push(LSPS2_PROTOCOL_NUMBER);
                Some(
                    JITChannelManager::new(
                        config.promise_secret,
                        config.min_payment_size_msat,
                        config.max_payment_size_msat,
                    ),
                )
            },
            None => None,
        };
        let manager = LiquidityManager {
            pending_messages: Vec::new(),
            pending_events: EventQueue::new(),
            pending_actions: Vec::new(),
            request_id_to_method_map: RequestIdMap::new(),
            lsps0_message_handler: LSPS0MessageHandler::new(protocols),
            lsps2_message_handler,
            provider_config,
            genesis_hash: genesis_hash(chain_params.network),
            best_block: chain_params.best_block,
        };
        proof {
            let expected = initial_state(provider_config, chain_params);
            assert(manager@.messages =~= expected.messages);
            assert(manager@.actions =~= expected.actions);
            assert(manager@.protocols =~= expected.protocols);
        }
        manager
    }

    /// Takes the outcome of a step in: its message, event and order go behind
    /// those that wait already.
    fn apply(&mut self, out: Outcome) -> (res: Result<(), Error>)
        ensures
            final(self)@ == with_outcome(old(self)@, out@),
            res == out@.result,
    {
        let ghost before = self@;
        match out.message {
            Some(message) => {
                self.pending_messages.push(message);
                assert(self@.messages =~= before.messages.push((message.0, message.1@)));
            },
            None => {},
        }
        match out.event {
            Some(event) => {
                self.pending_events.enqueue(event);
            },
            None => {},
        }
        match out.action {
            Some(action) => {
                self.pending_actions.push(action);
            },
            None => {},
        }
        out.result
    }

    /// Takes the oldest event out of the queue, if there is one.
    pub fn next_event(&mut self) -> (event: Option<Event>)
        ensures
            match event {
                Some(first) => old(self)@.events.len() > 0 && first@ == old(self)@.events[0]
                    && final(self)@ == (LiquidityState {
                    events: old(self)@.events.drop_first(),
                    ..old(self)@
                }),
                None => old(self)@.events.len() == 0 && final(self)@ == old(self)@,
            },
    {
        self.pending_events.next_event()
    }

    /// Returns and clears all events without blocking, in the order in which
    /// they arose.
    pub fn get_and_clear_pending_events(&mut self) -> (events: Vec<Event>)
        ensures
            events_value(events@) == old(self)@.events,
            final(self)@ == (LiquidityState { events: Seq::empty(), ..old(self)@ }),
    {
        self.pending_events.get_and_clear_pending_events()
    }

    /// Returns and clears the orders for the node, in the order in which they
    /// arose.
    pub fn get_and_clear_pending_htlc_actions(&mut self) -> (actions: Vec<HtlcAction>)
        ensures
            actions@ == old(self)@.actions,
            final(self)@ == (LiquidityState { actions: Seq::empty(), ..old(self)@ }),
    {
        let mut actions: Vec<HtlcAction> = Vec::new();
        std::mem::swap(&mut actions, &mut self.pending_actions);
        actions
    }

    /// Initiate the creation of an invoice that when paid will open a channel
    /// with enough inbound liquidity to be able to receive the payment.
    ///
    /// `counterparty_node_id` is the node_id of the LSP you would like to use.
    ///
    /// If `payment_size_msat` is [`Option::Some`] then the invoice will be for a fixed amount
    /// and MPP can be used to pay it.
    ///
    /// If `payment_size_msat` is [`Option::None`] then the invoice can be for an arbitrary amount
    /// but MPP can no longer be used to pay it.
    ///
    /// `token` is an optional String that will be provided to the LSP.
    /// It can be used by the LSP as an API key, coupon code, or some other way to identify a user.
    ///
    /// `random_bytes` gives the id of the request that is made.
    ///
    /// The call fails only where JIT channels are not configured. A channel that
    /// was asked from this LSP under this `user_channel_id` before is forgotten
    /// in favour of the new one.
    pub fn jit_channel_create_invoice(
        &mut self,
        counterparty_node_id: NodeId,
        payment_size_msat: Option<u64>,
        token: Option<String>,
        user_channel_id: u128,
        random_bytes: &[u8; 32],
    ) -> (res: Result<(), Error>)
        ensures
            (final(self)@, res) == jit_step(
                old(self)@,
                |jit: ManagerState|
                    create_invoice_step(
                        jit,
                        counterparty_node_id,
                        payment_size_msat,
                        text_value(token),
                        user_channel_id,
                        request_id_text(random_bytes@),
                    ),
            ),
            res is Err <==> old(self)@.jit_channels is None,
            res matches Err(error) ==> error == Error::NotConfigured && final(self)@ == old(self)@,
            old(self)@.well_formed() ==> final(self)@.well_formed(),
    {
        let out = match &mut self.lsps2_message_handler {
            Some(handler) => handler.create_invoice(
                counterparty_node_id,
                payment_size_msat,
                token,
                user_channel_id,
                RequestId(request_id_from_entropy(random_bytes)),
            ),
            None => {
                return Err(Error::NotConfigured);
            },
        };
        self.apply(out)
    }

    /// Used by LSP to provide fee parameters to a client requesting a JIT Channel.
    ///
    /// Should be called in response to receiving a [`LSPS2Event::GetInfo`] event.
    ///
    /// [`LSPS2Event::GetInfo`]: crate::events::LSPS2Event::GetInfo
    pub fn opening_fee_params_generated(
        &mut self,
        counterparty_node_id: NodeId,
        request_id: RequestId,
        opening_fee_params_menu: Vec<RawOpeningFeeParams>,
    ) -> (res: Result<(), Error>)
        ensures
            (final(self)@, res) == jit_step(
                old(self)@,
                |jit: ManagerState|
                    params_generated_step(
                        jit,
                        counterparty_node_id,
                        request_id@,
                        raw_menu_value(opening_fee_params_menu@),
                    ),
            ),
            old(self)@.jit_channels is None ==> res == Err::<(), Error>(Error::NotConfigured)
                && final(self)@ == old(self)@,
            old(self)@.well_formed() ==> final(self)@.well_formed(),
    {
        let out = match &mut self.lsps2_message_handler {
            Some(handler) => handler.opening_fee_params_generated(
                counterparty_node_id,
                request_id,
                opening_fee_params_menu,
            ),
            None => {
                return Err(Error::NotConfigured);
            },
        };
        self.apply(out)
    }

    /// Used by client to confirm which channel parameters to use for the JIT Channel buy request.
    /// The client agrees to paying an opening fee equal to
    /// `max(min_fee_msat, proportional*(payment_size_msat/1_000_000))`.
    ///
    /// Should be called in response to receiving a [`LSPS2Event::GetInfoResponse`] event.
    ///
    /// `random_bytes` gives the id of the request that is made.
    ///
    /// [`LSPS2Event::GetInfoResponse`]: crate::events::LSPS2Event::GetInfoResponse
    pub fn opening_fee_params_selected(
        &mut self,
        counterparty_node_id: NodeId,
        channel_id: u128,
        opening_fee_params: OpeningFeeParams,
        random_bytes: &[u8; 32],
    ) -> (res: Result<(), Error>)
        ensures
            (final(self)@, res) == jit_step(
                old(self)@,
                |jit: ManagerState|
                    params_selected_step(
                        jit,
                        counterparty_node_id,
                        channel_id,
                        opening_fee_params@,
                        request_id_text(random_bytes@),
                    ),
            ),
            old(self)@.jit_channels is None ==> res == Err::<(), Error>(Error::NotConfigured)
                && final(self)@ == old(self)@,
            old(self)@.well_formed() ==> final(self)@.well_formed(),
    {
        let out = match &mut self.lsps2_message_handler {
            Some(handler) => handler.opening_fee_params_selected(
                counterparty_node_id,
                channel_id,
                opening_fee_params,
                RequestId(request_id_from_entropy(random_bytes)),
            ),
            None => {
                return Err(Error::NotConfigured);
            },
        };
        self.apply(out)
    }

    /// Used by LSP to provide client with the scid and cltv_expiry_delta to use in their invoice.
    ///
    /// Should be called in response to receiving a [`LSPS2Event::BuyRequest`] event.
    ///
    /// Succeeds for every `buy` request that waits. A channel that was sold under
    /// `scid` before is forgotten in favour of the new one, and a payment that it
    /// held back is failed.
    ///
    /// [`LSPS2Event::BuyRequest`]: crate::events::LSPS2Event::BuyRequest
    pub fn invoice_parameters_generated(
        &mut self,
        counterparty_node_id: NodeId,
        request_id: RequestId,
        scid: u64,
        cltv_expiry_delta: u32,
        client_trusts_lsp: bool,
    ) -> (res: Result<(), Error>)
        ensures
            (final(self)@, res) == jit_step(
                old(self)@,
                |jit: ManagerState|
                    invoice_generated_step(
                        jit,
                        counterparty_node_id,
                        request_id@,
                        scid,
                        cltv_expiry_delta,
                        client_trusts_lsp,
                    ),
            ),
            old(self)@.jit_channels is None ==> res == Err::<(), Error>(Error::NotConfigured)
                && final(self)@ == old(self)@,
            old(self)@.well_formed() ==> final(self)@.well_formed(),
    {
        let out = match &mut self.lsps2_message_handler {
            Some(handler) => handler.invoice_parameters_generated(
                counterparty_node_id,
                request_id,
                scid,
                cltv_expiry_delta,
                client_trusts_lsp,
            ),
            None => {
                return Err(Error::NotConfigured);
            },
        };
        self.apply(out)
    }

    /// Forward [`Event::HTLCIntercepted`] event parameters into this function,
    /// with the instant `now` at which the HTLC was intercepted.
    ///
    /// Will fail the intercepted HTLC if the scid matches a payment we are expecting
    /// but the payment amount is incorrect or the expiry has passed.
    ///
    /// Will generate a [`LSPS2Event::OpenChannel`] event if the scid matches a payment we are expected
    /// and the payment amount is correct and the offer has not expired.
    ///
    /// Will do nothing if the scid does not match any of the ones we gave out.
    ///
    /// Is declined, like every JIT operation, where JIT channels are not
    /// configured.
    ///
    /// [`Event::HTLCIntercepted`]: lightning::events::Event::HTLCIntercepted
    /// [`LSPS2Event::OpenChannel`]: crate::events::LSPS2Event::OpenChannel
    pub fn htlc_intercepted(
        &mut self,
        scid: u64,
        intercept_id: InterceptId,
        inbound_amount_msat: u64,
        expected_outbound_amount_msat: u64,
        now: &UnixTime,
    ) -> (res: Result<(), Error>)
        ensures
            (final(self)@, res) == jit_step(
                old(self)@,
                |jit: ManagerState|
                    htlc_intercepted_step(
                        jit,
                        scid,
                        intercept_id,
                        inbound_amount_msat,
                        expected_outbound_amount_msat,
                        *now,
                    ),
            ),
            old(self)@.jit_channels is None ==> res == Err::<(), Error>(Error::NotConfigured)
                && final(self)@ == old(self)@,
            old(self)@.well_formed() ==> final(self)@.well_formed(),
    {
        let out = match &mut self.lsps2_message_handler {
            Some(handler) => handler.htlc_intercepted(
                scid,
                intercept_id,
                inbound_amount_msat,
                expected_outbound_amount_msat,
                now,
            ),
            None => {
                return Err(Error::NotConfigured);
            },
        };
        self.apply(out)
    }

    /// Forward [`Event::ChannelReady`] event parameters into this function.
    ///
    /// Will forward the intercepted HTLC if it matches a channel
    /// we need to forward a payment over otherwise it will be ignored.
    ///
    /// Is declined, like every JIT operation, where JIT channels are not
    /// configured.
    ///
    /// [`Event::ChannelReady`]: lightning::events::Event::ChannelReady
    pub fn channel_ready(
        &mut self,
        user_channel_id: u128,
        channel_id: &ChannelId,
        counterparty_node_id: &NodeId,
    ) -> (res: Result<(), Error>)
        ensures
            (final(self)@, res) == jit_step(
                old(self)@,
                |jit: ManagerState|
                    channel_ready_step(jit, user_channel_id, *channel_id, *counterparty_node_id),
            ),
            old(self)@.jit_channels is None ==> res == Err::<(), Error>(Error::NotConfigured)
                && final(self)@ == old(self)@,
            old(self)@.well_formed() ==> final(self)@.well_formed(),
    {
        let out = match &mut self.lsps2_message_handler {
            Some(handler) => handler.channel_ready(
                user_channel_id,
                channel_id,
                counterparty_node_id,
            ),
            None => {
                return Err(Error::NotConfigured);
            },
        };
        self.apply(out)
    }

    /// Takes a message of `sender_node_id` at the instant `now`; where it gives
    /// rise to a request of ours, `random_bytes` gives the id of that request.
    pub fn handle_lsps_message(
        &mut self,
        msg: LSPSMessage,
        sender_node_id: &NodeId,
        now: &UnixTime,
        random_bytes: &[u8; 32],
    ) -> (res: Result<(), Error>)
        ensures
            (final(self)@, res) == message_handled(
                old(self)@,
                msg@,
                *sender_node_id,
                *now,
                request_id_text(random_bytes@),
            ),
            old(self)@.well_formed() ==> final(self)@.well_formed(),
    {
        match msg {
            LSPSMessage::Invalid => {
                match &mut self.lsps2_message_handler {
                    Some(handler) => {
                        let failures = handler.handle_invalid_message(sender_node_id);
                        self.pending_events.enqueue_all(failures);
                    },
                    None => {},
                }
                Err(Error::PeerRejectedMessage)
            },
            LSPSMessage::LSPS0(msg) => {
                let out = self.lsps0_message_handler.handle_message(msg, sender_node_id);
                self.apply(out)
            },
            LSPSMessage::LSPS2(msg) => {
                let out = match &mut self.lsps2_message_handler {
                    Some(handler) => handler.handle_message(
                        msg,
                        sender_node_id,
                        now,
                        RequestId(request_id_from_entropy(random_bytes)),
                    ),
                    None => {
                        self.enqueue_message(*sender_node_id, LSPSMessage::Invalid);
                        return Err(Error::ProtocolNotConfigured);
                    },
                };
                self.apply(out)
            },
        }
    }

    /// Puts a message behind the messages that wait to be sent.
    fn enqueue_message(&mut self, node_id: NodeId, msg: LSPSMessage)
        ensures
            final(self)@ == (LiquidityState {
                messages: old(self)@.messages.push((node_id, msg@)),
                ..old(self)@
            }),
    {
        self.pending_messages.push((node_id, msg));
        assert(self@.messages =~= old(self)@.messages.push((node_id, msg@)));
    }

    /// Whether custom messages of the type `message_type` carry the protocols
    /// and are to be read as a [`RawLSPSMessage`].
    pub fn reads_message_type(message_type: u16) -> (res: bool)
        ensures
            res == (message_type == 37913),
    {
        message_type == crate::transport::msgs::LSPS_MESSAGE_TYPE_ID
    }

    /// Takes a custom message of `sender_node_id` at the instant `now`; where it
    /// gives rise to a request of ours, `random_bytes` gives the id of that
    /// request.
    ///
    /// A message that cannot be read is no error of ours: the sender is told, and
    /// the call succeeds.
    pub fn handle_custom_message(
        &mut self,
        msg: RawLSPSMessage,
        sender_node_id: &NodeId,
        now: &UnixTime,
        random_bytes: &[u8; 32],
    ) -> (res: Result<(), Error>)
        ensures
            (final(self)@, res) == custom_message_handled(
                old(self)@,
                msg.payload@,
                *sender_node_id,
                *now,
                request_id_text(random_bytes@),
            ),
            old(self)@.well_formed() ==> final(self)@.well_formed(),
    {
        let message = LSPSMessage::from_str_with_id_map(
            msg.payload.as_str(),
            &mut self.request_id_to_method_map,
        );
        match message {
            Ok(msg) => self.handle_lsps_message(msg, sender_node_id, now, random_bytes),
            Err(_) => {
                self.enqueue_message(*sender_node_id, LSPSMessage::Invalid);
                Ok(())
            },
        }
    }

    /// Returns and clears the messages that wait to be sent, as they travel and
    /// in the order in which they arose. The method of each request that is
    /// handed out is recorded under the id of the request, so that its response
    /// can be read.
    pub fn get_and_clear_pending_msg(&mut self) -> (res: Vec<(NodeId, RawLSPSMessage)>)
        ensures
            raw_messages_value(res@) == payloads(old(self)@.messages),
            final(self)@ == (LiquidityState {
                messages: Seq::empty(),
                methods: methods_recorded(old(self)@.methods, old(self)@.messages),
                ..old(self)@
            }),
    {
        let ghost before = self@;
        let mut res: Vec<(NodeId, RawLSPSMessage)> = Vec::new();
        let mut i: usize = 0;
        assert(before.messages.take(0) =~= Seq::empty());
        assert(raw_messages_value(res@) =~= Seq::empty());
        while i < self.pending_messages.len()
            invariant
                i <= self.pending_messages.len(),
                self@ == (LiquidityState { methods: self@.methods, ..before }),
                self@.methods == methods_recorded(before.methods, before.messages.take(i as int)),
                raw_messages_value(res@) == payloads(before.messages.take(i as int)),
            decreases self.pending_messages.len() - i,
        {
            let ghost seen = before.messages.take(i as int);
            let ghost next_seen = before.messages.take(i + 1);
            let ghost sent = raw_messages_value(res@);
            proof {
                assert(next_seen.drop_last() =~= seen);
                assert(next_seen.last() == before.messages[i as int]);
            }
            let node_id = self.pending_messages[i].0;
            match self.pending_messages[i].1.to_json_string() {
                Some(payload) => {
                    match self.pending_messages[i].1.get_request_id_and_method() {
                        Some((request_id, method_name)) => {
                            self.request_id_to_method_map.insert(request_id, method_name);
                        },
                        None => {},
                    }
                    res.push((node_id, RawLSPSMessage { payload }));
                    assert(raw_messages_value(res@) =~= sent.push((node_id, payload@)));
                },
                None => {},
            }
            i += 1;
        }
        assert(before.messages.take(i as int) =~= before.messages);
        self.pending_messages.clear();
        assert(self@.messages =~= Seq::empty());
        res
    }

    /// The feature flags that the node announcement is to carry: the bit of the
    /// protocols exactly where a provider configuration was given.
    pub fn provided_node_features(&self) -> (features: NodeFeatureFlags)
        ensures
            node_feature_bits(features) == provided_bits(self@.provides_liquidity),
            node_feature_bits(features).contains(729) <==> self@.provides_liquidity,
    {
        node_features(self.provider_config.is_some())
    }

    /// The feature flags that the init message to `_their_node_id` is to carry:
    /// the bit of the protocols exactly where a provider configuration was
    /// given.
    pub fn provided_init_features(&self, _their_node_id: &NodeId) -> (features: InitFeatureFlags)
        ensures
            init_feature_bits(features) == provided_bits(self@.provides_liquidity),
            init_feature_bits(features).contains(729) <==> self@.provides_liquidity,
    {
        init_features(self.provider_config.is_some())
    }

    /// The tip of the chain, as far as the manager was told.
    pub fn best_block(&self) -> (tip: BestBlock)
        ensures
            tip == self@.best_block,
    {
        self.best_block
    }

    /// The hash of the first block of the chain.
    pub fn genesis_hash(&self) -> (hash: [u8; 32])
        ensures
            hash@ == self@.genesis_hash,
    {
        self.genesis_hash
    }

    /// Takes the news that the block `block_hash` was connected at `height` on
    /// top of `prev_blockhash`, which has to be the tip.
    pub fn filtered_block_connected(
        &mut self,
        block_hash: [u8; 32],
        prev_blockhash: [u8; 32],
        height: u32,
    )
        requires
            old(self)@.best_block.block_hash@ == prev_blockhash@,
            old(self)@.best_block.height + 1 == height,
        ensures
            final(self)@ == (LiquidityState {
                best_block: BestBlock { block_hash, height },
                ..old(self)@
            }),
    {
        self.best_block = BestBlock { block_hash, height };
    }

    /// Takes the news that the block `block_hash` at `height`, which has to be
    /// the tip, was disconnected, so that `prev_blockhash` is the tip again.
    pub fn block_disconnected(
        &mut self,
        block_hash: [u8; 32],
        prev_blockhash: [u8; 32],
        height: u32,
    )
        requires
            old(self)@.best_block.block_hash@ == block_hash@,
            old(self)@.best_block.height == height,
            height >= 1,
        ensures
            final(self)@ == (LiquidityState {
                best_block: BestBlock { block_hash: prev_blockhash, height: (height - 1) as u32 },
                ..old(self)@
            }),
    {
        self.best_block = BestBlock { block_hash: prev_blockhash, height: height - 1 };
    }
}

} // verus!
