use lsp_liquidity::error::{Error, HtlcRejection};
use lsp_liquidity::events::{Event, EventQueue, FailureReason, LSPS2Event};
use lsp_liquidity::jit_channel::channel_manager::{
    select_version, InboundJITChannelState, JITChannelManager, OutboundJITChannel,
    OutboundJITChannelState,
};
use lsp_liquidity::jit_channel::msgs::{
    BuyRequest, GetVersionsRequest, GetVersionsResponse, LSPS2Message, LSPS2Request,
    OpeningFeeParams, RawOpeningFeeParams,
};
use lsp_liquidity::node::{HtlcAction, InterceptId, NodeId};
use lsp_liquidity::time::{Timestamp, UnixTime};
use lsp_liquidity::transport::msgs::{
    LSPS0Message, LSPS0Request, LSPS0Response, LSPSMessage, ListProtocolsRequest,
    ListProtocolsResponse, RequestId,
};
use lsp_liquidity::transport::protocol::LSPS0MessageHandler;

fn peer(tag: u8) -> NodeId {
    NodeId { bytes: [tag; 33] }
}

fn params(min_fee_msat: u64, proportional: u32) -> OpeningFeeParams {
    RawOpeningFeeParams {
        min_fee_msat,
        proportional,
        valid_until: Timestamp::parse_from_rfc3339("2035-05-20T08:30:45Z").unwrap(),
        min_lifetime: 144,
        max_client_to_self_delay: 128,
    }
    .into_opening_fee_params(&[3u8; 32])
}

fn at(secs: i64) -> UnixTime {
    UnixTime { secs, nanos: 0 }
}

fn failed(user_channel_id: u128) -> Event {
    Event::LSPS2(LSPS2Event::ChannelFailed {
        counterparty_node_id: peer(1),
        user_channel_id,
        reason: FailureReason::BuyRejected,
    })
}

#[test]
fn version_is_selected_only_where_ours_is_offered() {
    assert_eq!(select_version(&vec![]), None);
    assert_eq!(select_version(&vec![0, 2, 3]), None);
    assert_eq!(select_version(&vec![1]), Some(1));
    assert_eq!(select_version(&vec![5, 4, 1, 0]), Some(1));
    assert_eq!(select_version(&vec![1, 1, 1]), Some(1));
}

#[test]
fn manager_starts_without_channels() {
    let manager = JITChannelManager::new([3u8; 32], 10, 20);
    assert_eq!(manager.promise_secret, [3u8; 32]);
    assert_eq!(manager.min_payment_size_msat, 10);
    assert_eq!(manager.max_payment_size_msat, 20);
    assert!(manager.inbound_channels.is_empty());
    assert!(manager.pending_requests.is_empty());
    assert!(manager.outbound_channels.is_empty());
}

#[test]
fn manager_records_a_channel_that_is_asked_for() {
    let mut manager = JITChannelManager::new([3u8; 32], 10, 20);
    let out = manager.create_invoice(
        peer(1),
        Some(15),
        Some("tok".to_string()),
        7,
        RequestId("r1".to_string()),
    );
    assert_eq!(out.result, Ok(()));
    assert_eq!(
        out.message,
        Some((
            peer(1),
            LSPSMessage::LSPS2(LSPS2Message::Request(
                RequestId("r1".to_string()),
                LSPS2Request::GetVersions(GetVersionsRequest {})
            ))
        ))
    );
    assert_eq!(out.event, None);
    assert_eq!(out.action, None);
    assert_eq!(manager.inbound_channels.len(), 1);
    let channel = &manager.inbound_channels[0];
    assert_eq!(channel.counterparty_node_id, peer(1));
    assert_eq!(channel.user_channel_id, 7);
    assert_eq!(channel.payment_size_msat, Some(15));
    assert_eq!(channel.token, Some("tok".to_string()));
    assert_eq!(channel.opening_fee_params, None);
    assert_eq!(channel.pending_request, Some(RequestId("r1".to_string())));
    assert_eq!(channel.state, InboundJITChannelState::AwaitingVersions);

    let out = manager.handle_get_versions_response(
        RequestId("r1".to_string()),
        &peer(1),
        GetVersionsResponse { versions: vec![1] },
        RequestId("r2".to_string()),
    );
    assert_eq!(out.result, Ok(()));
    let channel = &manager.inbound_channels[0];
    assert_eq!(channel.pending_request, Some(RequestId("r2".to_string())));
    assert_eq!(channel.state, InboundJITChannelState::AwaitingInfo { version: 1 });
    assert_eq!(channel.token, Some("tok".to_string()));
}

#[test]
fn manager_keeps_channels_in_the_order_in_which_they_were_asked_for() {
    let mut manager = JITChannelManager::new([3u8; 32], 10, 20);
    for (i, tag) in [1u8, 2, 1, 3, 1].into_iter().enumerate() {
        let out = manager.create_invoice(
            peer(tag),
            None,
            None,
            i as u128,
            RequestId(format!("r{}", i)),
        );
        assert_eq!(out.result, Ok(()));
    }
    let events = manager.handle_invalid_message(&peer(1));
    let failed: Vec<u128> = events
        .into_iter()
        .map(|event| match event {
            Event::LSPS2(LSPS2Event::ChannelFailed {
                counterparty_node_id,
                user_channel_id,
                reason,
            }) => {
                assert_eq!(counterparty_node_id, peer(1));
                assert_eq!(reason, FailureReason::MessageNotUnderstood);
                user_channel_id
            }
            other => panic!("unexpected event {:?}", other),
        })
        .collect();
    assert_eq!(failed, vec![0, 2, 4]);
    let left: Vec<u128> =
        manager.inbound_channels.iter().map(|channel| channel.user_channel_id).collect();
    assert_eq!(left, vec![1, 3]);
    assert_eq!(manager.handle_invalid_message(&peer(1)), vec![]);
    assert_eq!(manager.handle_invalid_message(&peer(9)), vec![]);
    assert_eq!(manager.inbound_channels.len(), 2);
}

#[test]
fn buy_request_is_checked_against_version_promise_and_size() {
    let manager = JITChannelManager::new([3u8; 32], 1_000, 2_000);
    let now = at(1_704_067_200);
    let buy = |version, offer, size| BuyRequest {
        version,
        opening_fee_params: offer,
        payment_size_msat: size,
    };
    assert_eq!(manager.check_buy_request(&buy(1, params(100, 0), None), &now), None);
    assert_eq!(manager.check_buy_request(&buy(1, params(100, 0), Some(1_500)), &now), None);
    assert_eq!(manager.check_buy_request(&buy(0, params(100, 0), None), &now), Some(1));
    assert_eq!(manager.check_buy_request(&buy(0, params(100, 0), Some(1)), &now), Some(1));
    let mut changed = params(100, 0);
    changed.max_client_to_self_delay += 1;
    assert_eq!(manager.check_buy_request(&buy(1, changed, Some(1)), &now), Some(2));
    assert_eq!(
        manager.check_buy_request(&buy(1, params(100, 0), None), &at(2_063_262_646)),
        Some(2)
    );
    assert_eq!(manager.check_buy_request(&buy(1, params(100, 0), Some(999)), &now), Some(3));
    assert_eq!(manager.check_buy_request(&buy(1, params(100, 0), Some(2_001)), &now), Some(4));
    assert_eq!(manager.check_buy_request(&buy(1, params(1_500, 0), Some(1_500)), &now), Some(3));
    assert_eq!(manager.check_buy_request(&buy(1, params(1_499, 0), Some(1_500)), &now), None);
    assert_eq!(
        manager.check_buy_request(&buy(1, params(0, u32::MAX), Some(1_500)), &now),
        Some(3)
    );
}

#[test]
fn htlc_is_checked_against_expiry_fee_and_size() {
    let channel = |size| OutboundJITChannel {
        scid: 1,
        counterparty_node_id: peer(2),
        cltv_expiry_delta: 72,
        client_trusts_lsp: false,
        payment_size_msat: size,
        opening_fee_params: params(100, 1_000),
        state: OutboundJITChannelState::AwaitingPayment,
    };
    let now = at(1_704_067_200);
    assert_eq!(JITChannelManager::check_htlc(&channel(None), 1_000_000, 999_000, &now), None);
    assert_eq!(
        JITChannelManager::check_htlc(&channel(None), 1_000_000, 999_001, &now),
        Some(HtlcRejection::FeeTooLow)
    );
    assert_eq!(JITChannelManager::check_htlc(&channel(None), 50_000, 49_900, &now), None);
    assert_eq!(
        JITChannelManager::check_htlc(&channel(None), 50_000, 49_901, &now),
        Some(HtlcRejection::FeeTooLow)
    );
    assert_eq!(
        JITChannelManager::check_htlc(&channel(None), 1, 2, &now),
        Some(HtlcRejection::OutboundExceedsInbound)
    );
    assert_eq!(
        JITChannelManager::check_htlc(&channel(Some(5)), 1_000_000, 999_000, &now),
        Some(HtlcRejection::WrongPaymentSize)
    );
    assert_eq!(
        JITChannelManager::check_htlc(&channel(Some(1_000_000)), 1_000_000, 999_000, &now),
        None
    );
    assert_eq!(
        JITChannelManager::check_htlc(&channel(Some(5)), 1, 2, &at(2_063_262_646)),
        Some(HtlcRejection::OfferExpired)
    );
}

#[test]
fn manager_steps_give_out_what_the_node_is_to_do() {
    let mut manager = JITChannelManager::new([3u8; 32], 1_000, 2_000_000);
    let now = at(1_704_067_200);
    let out = manager.handle_buy_request(
        RequestId("b".to_string()),
        &peer(2),
        BuyRequest { version: 1, opening_fee_params: params(100, 0), payment_size_msat: None },
        &now,
    );
    assert_eq!(out.result, Ok(()));
    assert_eq!(manager.pending_requests.len(), 1);
    let out =
        manager.invoice_parameters_generated(peer(2), RequestId("b".to_string()), 77, 72, true);
    assert_eq!(out.result, Ok(()));
    assert_eq!(manager.pending_requests.len(), 0);
    assert_eq!(manager.outbound_channels.len(), 1);
    assert_eq!(manager.outbound_channels[0].scid, 77);
    assert_eq!(manager.outbound_channels[0].state, OutboundJITChannelState::AwaitingPayment);

    let out = manager.htlc_intercepted(77, InterceptId([1u8; 32]), 500, 450, &now);
    assert_eq!(out.result, Err(Error::HtlcRejected(HtlcRejection::FeeTooLow)));
    assert_eq!(out.action, Some(HtlcAction::Fail { intercept_id: InterceptId([1u8; 32]) }));
    assert_eq!(out.event, None);
    assert_eq!(out.message, None);
    assert_eq!(manager.outbound_channels.len(), 0);
}

#[test]
fn lsps0_handler_answers_with_its_protocols() {
    let handler = LSPS0MessageHandler::new(vec![2, 1]);
    let out = handler.handle_message(
        LSPS0Message::Request(
            RequestId("p".to_string()),
            LSPS0Request::ListProtocols(ListProtocolsRequest {}),
        ),
        &peer(1),
    );
    assert_eq!(out.result, Ok(()));
    assert_eq!(
        out.message,
        Some((
            peer(1),
            LSPSMessage::LSPS0(LSPS0Message::Response(
                RequestId("p".to_string()),
                LSPS0Response::ListProtocols(ListProtocolsResponse { protocols: vec![2, 1] })
            ))
        ))
    );
    assert_eq!(out.event, None);
    assert_eq!(out.action, None);
}

#[test]
fn event_queue_is_first_in_first_out() {
    let mut queue = EventQueue::new();
    assert_eq!(queue.len(), 0);
    assert_eq!(queue.next_event(), None);
    queue.enqueue(failed(1));
    queue.enqueue(failed(2));
    queue.enqueue_all(vec![failed(3), failed(4)]);
    queue.enqueue(failed(5));
    assert_eq!(queue.len(), 5);
    assert_eq!(queue.next_event(), Some(failed(1)));
    assert_eq!(queue.next_event(), Some(failed(2)));
    assert_eq!(queue.get_and_clear_pending_events(), vec![failed(3), failed(4), failed(5)]);
    assert_eq!(queue.len(), 0);
    assert_eq!(queue.get_and_clear_pending_events(), vec![]);
    queue.enqueue_all(vec![]);
    assert_eq!(queue.next_event(), None);
}

#[test]
fn node_ids_are_the_same_where_all_their_bytes_are() {
    let a = peer(1);
    let mut b = peer(1);
    assert!(a.same(&b));
    b.bytes[32] = 2;
    assert!(!a.same(&b));
    b.bytes[32] = 1;
    b.bytes[0] = 2;
    assert!(!a.same(&b));
}

#[test]
fn later_request_takes_the_place_of_an_earlier_one_with_the_same_id() {
    let mut manager = JITChannelManager::new([3u8; 32], 1_000, 2_000_000);
    let now = at(1_704_067_200);
    for size in [None, Some(5_000u64)] {
        let out = manager.handle_buy_request(
            RequestId("b".to_string()),
            &peer(2),
            BuyRequest { version: 1, opening_fee_params: params(100, 0), payment_size_msat: size },
            &now,
        );
        assert_eq!(out.result, Ok(()));
    }
    let out = manager.handle_buy_request(
        RequestId("b".to_string()),
        &peer(3),
        BuyRequest { version: 1, opening_fee_params: params(100, 0), payment_size_msat: None },
        &now,
    );
    assert_eq!(out.result, Ok(()));
    assert_eq!(manager.pending_requests.len(), 2);
    assert_eq!(manager.pending_requests[0].counterparty_node_id, peer(2));
    assert_eq!(
        manager.pending_requests[0].request,
        LSPS2Request::Buy(BuyRequest {
            version: 1,
            opening_fee_params: params(100, 0),
            payment_size_msat: Some(5_000)
        })
    );
    assert_eq!(manager.pending_requests[1].counterparty_node_id, peer(3));
    let out =
        manager.invoice_parameters_generated(peer(2), RequestId("b".to_string()), 77, 72, true);
    assert_eq!(out.result, Ok(()));
    assert_eq!(manager.outbound_channels[0].payment_size_msat, Some(5_000));
    let out =
        manager.invoice_parameters_generated(peer(2), RequestId("b".to_string()), 78, 72, true);
    assert_eq!(out.result, Err(Error::UnknownRequest));
    assert_eq!(manager.pending_requests.len(), 1);
}

#[test]
fn later_channel_takes_the_place_of_an_earlier_one_with_the_same_id() {
    let mut manager = JITChannelManager::new([3u8; 32], 10, 20);
    for (tag, id, size) in [(1u8, 7u128, 1u64), (2, 7, 2), (1, 8, 3), (1, 7, 4)] {
        let out = manager.create_invoice(
            peer(tag),
            Some(size),
            None,
            id,
            RequestId(format!("r{}", size)),
        );
        assert_eq!(out.result, Ok(()));
        assert_eq!(
            out.message,
            Some((
                peer(tag),
                LSPSMessage::LSPS2(LSPS2Message::Request(
                    RequestId(format!("r{}", size)),
                    LSPS2Request::GetVersions(GetVersionsRequest {})
                ))
            ))
        );
    }
    let held: Vec<(NodeId, u128, Option<u64>, Option<RequestId>)> = manager
        .inbound_channels
        .iter()
        .map(|channel| {
            (
                channel.counterparty_node_id,
                channel.user_channel_id,
                channel.payment_size_msat,
                channel.pending_request.as_ref().map(|id| RequestId(id.0.clone())),
            )
        })
        .collect();
    assert_eq!(
        held,
        vec![
            (peer(1), 7, Some(4), Some(RequestId("r4".to_string()))),
            (peer(2), 7, Some(2), Some(RequestId("r2".to_string()))),
            (peer(1), 8, Some(3), Some(RequestId("r3".to_string()))),
        ]
    );
    assert_eq!(manager.inbound_channels[0].state, InboundJITChannelState::AwaitingVersions);
}
