use lsp_liquidity::error::{Error, HtlcRejection};
use lsp_liquidity::events::{Event, FailureReason, LSPS2Event};
use lsp_liquidity::jit_channel::msgs::{
    BuyRequest, BuyResponse, GetInfoRequest, GetInfoResponse, GetVersionsRequest,
    GetVersionsResponse, JitChannelScid, LSPS2Message, LSPS2Request, LSPS2Response,
    OpeningFeeParams, RawOpeningFeeParams,
};
use lsp_liquidity::node::{
    BestBlock, ChainParameters, ChannelId, HtlcAction, InterceptId, Network, NodeId,
};
use lsp_liquidity::time::{Timestamp, UnixTime};
use lsp_liquidity::transport::message_handler::{
    JITChannelsConfig, LiquidityManager, LiquidityProviderConfig,
};
use lsp_liquidity::transport::msgs::{
    LSPS0Message, LSPS0Request, LSPS0Response, LSPSMessage, ListProtocolsRequest,
    ListProtocolsResponse, RawLSPSMessage, RequestId, ResponseError,
};

const SECRET: [u8; 32] = [1u8; 32];
const SCID: u64 = (840_000u64 << 40) | (1u64 << 16);

fn node(tag: u8) -> NodeId {
    let mut bytes = [tag; 33];
    bytes[0] = 2;
    NodeId { bytes }
}

fn chain() -> ChainParameters {
    ChainParameters {
        network: Network::Bitcoin,
        best_block: BestBlock { block_hash: [7u8; 32], height: 840_000 },
    }
}

fn configured() -> LiquidityManager {
    LiquidityManager::new(
        Some(LiquidityProviderConfig {
            jit_channels: Some(JITChannelsConfig {
                promise_secret: SECRET,
                min_payment_size_msat: 1_000,
                max_payment_size_msat: 100_000_000,
            }),
        }),
        chain(),
    )
}

fn now() -> UnixTime {
    Timestamp::parse_from_rfc3339("2024-01-01T00:00:00Z").unwrap().unix_time()
}

fn random(tag: u8) -> [u8; 32] {
    [tag; 32]
}

fn id_of(tag: u8) -> String {
    let mut text = String::new();
    for _ in 0..16 {
        text.push_str(&format!("{:02x}", tag));
    }
    text
}

fn raw_offer(min_fee_msat: u64, proportional: u32, valid_until: &str) -> RawOpeningFeeParams {
    RawOpeningFeeParams {
        min_fee_msat,
        proportional,
        valid_until: Timestamp::parse_from_rfc3339(valid_until).unwrap(),
        min_lifetime: 144,
        max_client_to_self_delay: 128,
    }
}

fn offer(min_fee_msat: u64, proportional: u32) -> OpeningFeeParams {
    raw_offer(min_fee_msat, proportional, "2035-05-20T08:30:45Z").into_opening_fee_params(&SECRET)
}

fn raw(message: LSPSMessage) -> RawLSPSMessage {
    RawLSPSMessage { payload: message.to_json_string().unwrap() }
}

fn request(id: &str, request: LSPS2Request) -> LSPSMessage {
    LSPSMessage::LSPS2(LSPS2Message::Request(RequestId(id.to_string()), request))
}

fn response(id: &str, response: LSPS2Response) -> LSPSMessage {
    LSPSMessage::LSPS2(LSPS2Message::Response(RequestId(id.to_string()), response))
}

fn deliver(to: &mut LiquidityManager, from: NodeId, message: LSPSMessage, entropy: u8) -> Result<(), Error> {
    to.handle_custom_message(raw(message), &from, &now(), &random(entropy))
}

fn sent(manager: &mut LiquidityManager) -> Vec<(NodeId, String)> {
    manager
        .get_and_clear_pending_msg()
        .into_iter()
        .map(|(peer, message)| (peer, message.payload))
        .collect()
}

fn sell_channel(lsp: &mut LiquidityManager, client: NodeId, offer: OpeningFeeParams, size: Option<u64>) {
    let buy = BuyRequest { version: 1, opening_fee_params: offer, payment_size_msat: size };
    assert_eq!(deliver(lsp, client, request("buy-1", LSPS2Request::Buy(buy)), 9), Ok(()));
    assert_eq!(
        lsp.invoice_parameters_generated(client, RequestId("buy-1".to_string()), SCID, 144, true),
        Ok(())
    );
    lsp.get_and_clear_pending_events();
    lsp.get_and_clear_pending_msg();
}

#[test]
fn client_goes_from_invoice_request_to_invoice_parameters() {
    let lsp = node(1);
    let mut client = configured();

    assert_eq!(
        client.jit_channel_create_invoice(lsp, Some(1_000_000), None, 7, &random(0xa1)),
        Ok(())
    );
    assert_eq!(
        sent(&mut client),
        vec![(
            lsp,
            format!(
                r#"{{"id":"{}","jsonrpc":"2.0","method":"lsps2.get_versions","params":{{}}}}"#,
                id_of(0xa1)
            )
        )]
    );

    let versions = response(
        &id_of(0xa1),
        LSPS2Response::GetVersions(GetVersionsResponse { versions: vec![1] }),
    );
    assert_eq!(deliver(&mut client, lsp, versions, 0xa2), Ok(()));
    assert_eq!(
        sent(&mut client),
        vec![(
            lsp,
            format!(
                r#"{{"id":"{}","jsonrpc":"2.0","method":"lsps2.get_info","params":{{"version":1}}}}"#,
                id_of(0xa2)
            )
        )]
    );
    assert_eq!(client.get_and_clear_pending_events(), vec![]);

    let menu = response(
        &id_of(0xa2),
        LSPS2Response::GetInfo(GetInfoResponse {
            opening_fee_params_menu: vec![offer(100, 21)],
            min_payment_size_msat: 1_000,
            max_payment_size_msat: 100_000_000,
        }),
    );
    assert_eq!(deliver(&mut client, lsp, menu, 0xa3), Ok(()));
    assert_eq!(
        client.get_and_clear_pending_events(),
        vec![Event::LSPS2(LSPS2Event::GetInfoResponse {
            counterparty_node_id: lsp,
            opening_fee_params_menu: vec![offer(100, 21)],
            min_payment_size_msat: 1_000,
            max_payment_size_msat: 100_000_000,
            user_channel_id: 7,
        })]
    );
    assert_eq!(sent(&mut client), vec![]);

    assert_eq!(client.opening_fee_params_selected(lsp, 7, offer(100, 21), &random(0xa4)), Ok(()));
    let buy = request(
        &id_of(0xa4),
        LSPS2Request::Buy(BuyRequest {
            version: 1,
            opening_fee_params: offer(100, 21),
            payment_size_msat: Some(1_000_000),
        }),
    );
    assert_eq!(sent(&mut client), vec![(lsp, buy.to_json_string().unwrap())]);

    let sold = format!(
        r#"{{"jsonrpc":"2.0","id":"{}","result":{{"jit_channel_scid":"840000x1x0","lsp_cltv_expiry_delta":144,"client_trusts_lsp":true}}}}"#,
        id_of(0xa4)
    );
    assert_eq!(
        client.handle_custom_message(RawLSPSMessage { payload: sold }, &lsp, &now(), &random(0xa5)),
        Ok(())
    );
    assert_eq!(
        client.get_and_clear_pending_events(),
        vec![Event::LSPS2(LSPS2Event::InvoiceParametersReady {
            counterparty_node_id: lsp,
            scid: SCID,
            cltv_expiry_delta: 144,
            client_trusts_lsp: true,
            user_channel_id: 7,
        })]
    );
    assert_eq!(sent(&mut client), vec![]);
    assert_eq!(client.get_and_clear_pending_htlc_actions(), vec![]);
}

#[test]
fn lsp_opens_the_channel_on_payment_and_forwards_when_ready() {
    let client = node(2);
    let mut lsp = configured();
    sell_channel(&mut lsp, client, offer(100, 0), Some(1_000_000));

    let intercept_id = InterceptId([5u8; 32]);
    assert_eq!(lsp.htlc_intercepted(SCID, intercept_id, 1_000_000, 999_900, &now()), Ok(()));
    assert_eq!(
        lsp.get_and_clear_pending_events(),
        vec![Event::LSPS2(LSPS2Event::OpenChannel {
            their_network_key: client,
            amt_to_forward_msat: 999_900,
            opening_fee_msat: 100,
            user_channel_id: SCID as u128,
        })]
    );
    assert_eq!(lsp.get_and_clear_pending_htlc_actions(), vec![]);

    let channel_id = ChannelId([6u8; 32]);
    assert_eq!(lsp.channel_ready(SCID as u128, &channel_id, &client), Ok(()));
    assert_eq!(
        lsp.get_and_clear_pending_htlc_actions(),
        vec![HtlcAction::Forward {
            intercept_id,
            next_hop_channel_id: channel_id,
            next_node_id: client,
            amt_to_forward_msat: 999_900,
        }]
    );
    assert_eq!(lsp.get_and_clear_pending_events(), vec![]);

    assert_eq!(lsp.channel_ready(SCID as u128, &channel_id, &client), Ok(()));
    assert_eq!(lsp.get_and_clear_pending_htlc_actions(), vec![]);
    assert_eq!(lsp.htlc_intercepted(SCID, intercept_id, 1_000_000, 999_900, &now()), Ok(()));
    assert_eq!(lsp.get_and_clear_pending_events(), vec![]);
}

#[test]
fn client_and_lsp_talk_to_each_other() {
    let client_id = node(2);
    let lsp_id = node(1);
    let mut client = configured();
    let mut lsp = configured();

    client.jit_channel_create_invoice(lsp_id, Some(50_000_000), Some("t".to_string()), 9, &random(1)).unwrap();
    for (peer, payload) in sent(&mut client) {
        assert_eq!(peer, lsp_id);
        lsp.handle_custom_message(RawLSPSMessage { payload }, &client_id, &now(), &random(50)).unwrap();
    }
    for (peer, payload) in sent(&mut lsp) {
        assert_eq!(peer, client_id);
        client.handle_custom_message(RawLSPSMessage { payload }, &lsp_id, &now(), &random(2)).unwrap();
    }
    for (_, payload) in sent(&mut client) {
        lsp.handle_custom_message(RawLSPSMessage { payload }, &client_id, &now(), &random(51)).unwrap();
    }
    let events = lsp.get_and_clear_pending_events();
    assert_eq!(
        events,
        vec![Event::LSPS2(LSPS2Event::GetInfo {
            request_id: RequestId(id_of(2)),
            counterparty_node_id: client_id,
            version: 1,
            token: Some("t".to_string()),
        })]
    );
    lsp.opening_fee_params_generated(
        client_id,
        RequestId(id_of(2)),
        vec![
            raw_offer(100, 21, "2035-05-20T08:30:45Z"),
            raw_offer(5_000, 0, "2035-05-20T08:30:45Z"),
        ],
    )
    .unwrap();
    for (_, payload) in sent(&mut lsp) {
        client.handle_custom_message(RawLSPSMessage { payload }, &lsp_id, &now(), &random(3)).unwrap();
    }
    let chosen = match client.get_and_clear_pending_events().pop() {
        Some(Event::LSPS2(LSPS2Event::GetInfoResponse {
            mut opening_fee_params_menu,
            min_payment_size_msat,
            max_payment_size_msat,
            user_channel_id,
            counterparty_node_id,
        })) => {
            assert_eq!(min_payment_size_msat, 1_000);
            assert_eq!(max_payment_size_msat, 100_000_000);
            assert_eq!(user_channel_id, 9);
            assert_eq!(counterparty_node_id, lsp_id);
            assert_eq!(opening_fee_params_menu, vec![offer(100, 21), offer(5_000, 0)]);
            opening_fee_params_menu.remove(0)
        }
        other => panic!("unexpected event {:?}", other),
    };
    client.opening_fee_params_selected(lsp_id, 9, chosen, &random(4)).unwrap();
    for (_, payload) in sent(&mut client) {
        lsp.handle_custom_message(RawLSPSMessage { payload }, &client_id, &now(), &random(52)).unwrap();
    }
    assert_eq!(
        lsp.get_and_clear_pending_events(),
        vec![Event::LSPS2(LSPS2Event::BuyRequest {
            request_id: RequestId(id_of(4)),
            counterparty_node_id: client_id,
            version: 1,
            opening_fee_params: offer(100, 21),
            payment_size_msat: Some(50_000_000),
        })]
    );
    lsp.invoice_parameters_generated(client_id, RequestId(id_of(4)), SCID, 72, false).unwrap();
    for (_, payload) in sent(&mut lsp) {
        client.handle_custom_message(RawLSPSMessage { payload }, &lsp_id, &now(), &random(5)).unwrap();
    }
    assert_eq!(
        client.get_and_clear_pending_events(),
        vec![Event::LSPS2(LSPS2Event::InvoiceParametersReady {
            counterparty_node_id: lsp_id,
            scid: SCID,
            cltv_expiry_delta: 72,
            client_trusts_lsp: false,
            user_channel_id: 9,
        })]
    );
    let intercept_id = InterceptId([8u8; 32]);
    lsp.htlc_intercepted(SCID, intercept_id, 50_000_000, 49_998_950, &now()).unwrap();
    assert_eq!(
        lsp.get_and_clear_pending_events(),
        vec![Event::LSPS2(LSPS2Event::OpenChannel {
            their_network_key: client_id,
            amt_to_forward_msat: 49_998_950,
            opening_fee_msat: 1_050,
            user_channel_id: SCID as u128,
        })]
    );
}

#[test]
fn jit_operations_are_declined_without_configuration() {
    for config in [None, Some(LiquidityProviderConfig { jit_channels: None })] {
        let mut manager = LiquidityManager::new(config, chain());
        let peer = node(1);
        assert_eq!(
            manager.jit_channel_create_invoice(peer, None, None, 1, &random(1)),
            Err(Error::NotConfigured)
        );
        assert_eq!(
            manager.opening_fee_params_generated(peer, RequestId("r".to_string()), vec![]),
            Err(Error::NotConfigured)
        );
        assert_eq!(
            manager.opening_fee_params_selected(peer, 1, offer(1, 1), &random(1)),
            Err(Error::NotConfigured)
        );
        assert_eq!(
            manager.invoice_parameters_generated(peer, RequestId("r".to_string()), 1, 2, true),
            Err(Error::NotConfigured)
        );
        assert_eq!(
            manager.htlc_intercepted(1, InterceptId([0; 32]), 2, 1, &now()),
            Err(Error::NotConfigured)
        );
        assert_eq!(
            manager.channel_ready(1, &ChannelId([0; 32]), &peer),
            Err(Error::NotConfigured)
        );
        assert_eq!(sent(&mut manager), vec![]);
        assert_eq!(manager.get_and_clear_pending_events(), vec![]);
        assert_eq!(manager.get_and_clear_pending_htlc_actions(), vec![]);
    }
}

#[test]
fn jit_message_without_configuration_is_answered_as_unreadable() {
    let mut manager = LiquidityManager::new(None, chain());
    let peer = node(1);
    let message = request("r1", LSPS2Request::GetVersions(GetVersionsRequest {}));
    assert_eq!(deliver(&mut manager, peer, message, 1), Err(Error::ProtocolNotConfigured));
    assert_eq!(
        sent(&mut manager),
        vec![(peer, LSPSMessage::Invalid.to_json_string().unwrap())]
    );
}

#[test]
fn unreadable_message_is_answered_and_is_no_error() {
    let mut manager = configured();
    let peer = node(1);
    for payload in [
        "",
        "not json",
        "{}",
        r#"{"jsonrpc":"2.0","id":"nobody","result":{}}"#,
        r#"{"id":"nobody","result":{}}"#,
    ] {
        assert_eq!(
            manager.handle_custom_message(
                RawLSPSMessage { payload: payload.to_string() },
                &peer,
                &now(),
                &random(1)
            ),
            Ok(())
        );
        assert_eq!(
            sent(&mut manager),
            vec![(peer, LSPSMessage::Invalid.to_json_string().unwrap())]
        );
        assert_eq!(manager.get_and_clear_pending_events(), vec![]);
    }
}

#[test]
fn list_protocols_is_answered_with_the_enabled_protocols() {
    let peer = node(1);
    let ask = LSPSMessage::LSPS0(LSPS0Message::Request(
        RequestId("p1".to_string()),
        LSPS0Request::ListProtocols(ListProtocolsRequest {}),
    ));
    let mut manager = configured();
    assert_eq!(
        manager.handle_custom_message(raw(ask), &peer, &now(), &random(1)),
        Ok(())
    );
    assert_eq!(
        sent(&mut manager),
        vec![(peer, r#"{"id":"p1","jsonrpc":"2.0","result":{"protocols":[2]}}"#.to_string())]
    );
    let ask = LSPSMessage::LSPS0(LSPS0Message::Request(
        RequestId("p1".to_string()),
        LSPS0Request::ListProtocols(ListProtocolsRequest {}),
    ));
    let mut manager = LiquidityManager::new(None, chain());
    assert_eq!(
        manager.handle_custom_message(raw(ask), &peer, &now(), &random(1)),
        Ok(())
    );
    assert_eq!(
        sent(&mut manager),
        vec![(peer, r#"{"id":"p1","jsonrpc":"2.0","result":{"protocols":[]}}"#.to_string())]
    );
}

#[test]
fn list_protocols_responses_are_taken_without_more_ado() {
    let peer = node(1);
    let mut manager = configured();
    let answer = LSPSMessage::LSPS0(LSPS0Message::Response(
        RequestId("p1".to_string()),
        LSPS0Response::ListProtocols(ListProtocolsResponse { protocols: vec![2] }),
    ));
    assert_eq!(manager.handle_lsps_message(answer, &peer, &now(), &random(1)), Ok(()));
    let failure = LSPSMessage::LSPS0(LSPS0Message::Response(
        RequestId("p2".to_string()),
        LSPS0Response::ListProtocolsError(ResponseError {
            code: 1,
            message: "m".to_string(),
            data: None,
        }),
    ));
    assert_eq!(
        manager.handle_lsps_message(failure, &peer, &now(), &random(1)),
        Err(Error::ListProtocolsRejected)
    );
    assert_eq!(sent(&mut manager), vec![]);
    assert_eq!(manager.get_and_clear_pending_events(), vec![]);
}

#[test]
fn get_versions_is_answered_with_our_version() {
    let mut lsp = configured();
    let client = node(2);
    let ask = request("v1", LSPS2Request::GetVersions(GetVersionsRequest {}));
    assert_eq!(deliver(&mut lsp, client, ask, 1), Ok(()));
    assert_eq!(
        sent(&mut lsp),
        vec![(client, r#"{"id":"v1","jsonrpc":"2.0","result":{"versions":[1]}}"#.to_string())]
    );
}

#[test]
fn outgoing_requests_are_recorded_so_that_responses_can_be_read() {
    let lsp = node(1);
    let mut client = configured();
    client.jit_channel_create_invoice(lsp, None, None, 7, &random(0xb1)).unwrap();
    let answer =
        format!(r#"{{"jsonrpc":"2.0","id":"{}","result":{{"versions":[1]}}}}"#, id_of(0xb1));

    let mut early = configured();
    early.jit_channel_create_invoice(lsp, None, None, 7, &random(0xb1)).unwrap();
    early
        .handle_custom_message(RawLSPSMessage { payload: answer.clone() }, &lsp, &now(), &random(2))
        .unwrap();
    assert_eq!(early.get_and_clear_pending_msg().len(), 2);

    sent(&mut client);
    client
        .handle_custom_message(RawLSPSMessage { payload: answer.clone() }, &lsp, &now(), &random(2))
        .unwrap();
    let out = sent(&mut client);
    assert_eq!(out.len(), 1);
    assert!(out[0].1.contains("lsps2.get_info"));
    client
        .handle_custom_message(RawLSPSMessage { payload: answer }, &lsp, &now(), &random(3))
        .unwrap();
    assert_eq!(
        sent(&mut client),
        vec![(lsp, LSPSMessage::Invalid.to_json_string().unwrap())]
    );
}

#[test]
fn client_gives_up_without_a_common_version() {
    let lsp = node(1);
    let mut client = configured();
    client.jit_channel_create_invoice(lsp, None, None, 7, &random(1)).unwrap();
    sent(&mut client);
    let versions = response(
        &id_of(1),
        LSPS2Response::GetVersions(GetVersionsResponse { versions: vec![0, 2, 3] }),
    );
    assert_eq!(deliver(&mut client, lsp, versions, 2), Err(Error::NoCommonVersion));
    assert_eq!(
        client.get_and_clear_pending_events(),
        vec![Event::LSPS2(LSPS2Event::ChannelFailed {
            counterparty_node_id: lsp,
            user_channel_id: 7,
            reason: FailureReason::NoCommonVersion,
        })]
    );
    assert_eq!(sent(&mut client), vec![]);
    assert_eq!(
        client.opening_fee_params_selected(lsp, 7, offer(1, 1), &random(3)),
        Err(Error::UnknownChannel)
    );
}

#[test]
fn client_picks_our_version_among_theirs() {
    let lsp = node(1);
    let mut client = configured();
    client.jit_channel_create_invoice(lsp, None, Some("tok".to_string()), 7, &random(1)).unwrap();
    sent(&mut client);
    let versions = response(
        &id_of(1),
        LSPS2Response::GetVersions(GetVersionsResponse { versions: vec![3, 1, 2, 1] }),
    );
    assert_eq!(deliver(&mut client, lsp, versions, 2), Ok(()));
    let expected = request(
        &id_of(2),
        LSPS2Request::GetInfo(GetInfoRequest { version: 1, token: Some("tok".to_string()) }),
    );
    assert_eq!(sent(&mut client), vec![(lsp, expected.to_json_string().unwrap())]);
}

#[test]
fn client_gives_up_on_an_error_response() {
    let lsp = node(1);
    let mut client = configured();
    client.jit_channel_create_invoice(lsp, None, None, 7, &random(1)).unwrap();
    let versions =
        response(&id_of(1), LSPS2Response::GetVersions(GetVersionsResponse { versions: vec![1] }));
    sent(&mut client);
    deliver(&mut client, lsp, versions, 2).unwrap();
    sent(&mut client);
    let rejected = response(
        &id_of(2),
        LSPS2Response::GetInfoError(ResponseError {
            code: 1,
            message: "no".to_string(),
            data: None,
        }),
    );
    assert_eq!(deliver(&mut client, lsp, rejected, 3), Ok(()));
    assert_eq!(
        client.get_and_clear_pending_events(),
        vec![Event::LSPS2(LSPS2Event::ChannelFailed {
            counterparty_node_id: lsp,
            user_channel_id: 7,
            reason: FailureReason::GetInfoRejected,
        })]
    );

    client.jit_channel_create_invoice(lsp, None, None, 7, &random(4)).unwrap();
    sent(&mut client);
    let versions =
        response(&id_of(4), LSPS2Response::GetVersions(GetVersionsResponse { versions: vec![1] }));
    deliver(&mut client, lsp, versions, 5).unwrap();
    sent(&mut client);
    let menu = response(
        &id_of(5),
        LSPS2Response::GetInfo(GetInfoResponse {
            opening_fee_params_menu: vec![offer(100, 21)],
            min_payment_size_msat: 1,
            max_payment_size_msat: 2,
        }),
    );
    deliver(&mut client, lsp, menu, 6).unwrap();
    client.get_and_clear_pending_events();
    client.opening_fee_params_selected(lsp, 7, offer(100, 21), &random(7)).unwrap();
    sent(&mut client);
    let rejected = response(
        &id_of(7),
        LSPS2Response::BuyError(ResponseError { code: 2, message: "no".to_string(), data: None }),
    );
    assert_eq!(deliver(&mut client, lsp, rejected, 8), Ok(()));
    assert_eq!(
        client.get_and_clear_pending_events(),
        vec![Event::LSPS2(LSPS2Event::ChannelFailed {
            counterparty_node_id: lsp,
            user_channel_id: 7,
            reason: FailureReason::BuyRejected,
        })]
    );
}

fn client_awaiting_buy(lsp: NodeId) -> LiquidityManager {
    let mut client = configured();
    client.jit_channel_create_invoice(lsp, None, None, 7, &random(1)).unwrap();
    sent(&mut client);
    let versions =
        response(&id_of(1), LSPS2Response::GetVersions(GetVersionsResponse { versions: vec![1] }));
    deliver(&mut client, lsp, versions, 2).unwrap();
    sent(&mut client);
    let menu = response(
        &id_of(2),
        LSPS2Response::GetInfo(GetInfoResponse {
            opening_fee_params_menu: vec![offer(100, 21)],
            min_payment_size_msat: 1,
            max_payment_size_msat: 2,
        }),
    );
    deliver(&mut client, lsp, menu, 3).unwrap();
    client.get_and_clear_pending_events();
    client.opening_fee_params_selected(lsp, 7, offer(100, 21), &random(4)).unwrap();
    sent(&mut client);
    client
}

#[test]
fn client_gives_up_on_a_short_channel_id_that_cannot_be_read() {
    let lsp = node(1);
    let mut client = client_awaiting_buy(lsp);
    let sold = response(
        &id_of(4),
        LSPS2Response::Buy(BuyResponse {
            jit_channel_scid: JitChannelScid("840000x1".to_string()),
            lsp_cltv_expiry_delta: 144,
            client_trusts_lsp: true,
        }),
    );
    assert_eq!(deliver(&mut client, lsp, sold, 5), Err(Error::InvalidScid));
    assert_eq!(
        client.get_and_clear_pending_events(),
        vec![Event::LSPS2(LSPS2Event::ChannelFailed {
            counterparty_node_id: lsp,
            user_channel_id: 7,
            reason: FailureReason::InvalidScid,
        })]
    );
}

#[test]
fn client_gives_up_all_channels_of_a_peer_that_could_not_read_us() {
    let lsp = node(1);
    let other = node(3);
    let mut client = configured();
    client.jit_channel_create_invoice(lsp, None, None, 7, &random(1)).unwrap();
    client.jit_channel_create_invoice(other, None, None, 8, &random(2)).unwrap();
    client.jit_channel_create_invoice(lsp, None, None, 9, &random(3)).unwrap();
    sent(&mut client);
    assert_eq!(
        client.handle_lsps_message(LSPSMessage::Invalid, &lsp, &now(), &random(4)),
        Err(Error::PeerRejectedMessage)
    );
    assert_eq!(
        client.get_and_clear_pending_events(),
        vec![
            Event::LSPS2(LSPS2Event::ChannelFailed {
                counterparty_node_id: lsp,
                user_channel_id: 7,
                reason: FailureReason::MessageNotUnderstood,
            }),
            Event::LSPS2(LSPS2Event::ChannelFailed {
                counterparty_node_id: lsp,
                user_channel_id: 9,
                reason: FailureReason::MessageNotUnderstood,
            }),
        ]
    );
    assert_eq!(sent(&mut client), vec![]);
    assert_eq!(client.jit_channel_create_invoice(lsp, None, None, 7, &random(6)), Ok(()));
    sent(&mut client);
    assert_eq!(
        client.handle_lsps_message(LSPSMessage::Invalid, &other, &now(), &random(7)),
        Err(Error::PeerRejectedMessage)
    );
    assert_eq!(
        client.get_and_clear_pending_events(),
        vec![Event::LSPS2(LSPS2Event::ChannelFailed {
            counterparty_node_id: other,
            user_channel_id: 8,
            reason: FailureReason::MessageNotUnderstood,
        })]
    );
}

#[test]
fn second_invoice_under_an_id_takes_the_place_of_the_first() {
    let lsp = node(1);
    let mut client = configured();
    assert_eq!(
        client.jit_channel_create_invoice(lsp, Some(5), Some("old".to_string()), 7, &random(1)),
        Ok(())
    );
    assert_eq!(
        client.jit_channel_create_invoice(lsp, Some(6), Some("new".to_string()), 7, &random(2)),
        Ok(())
    );
    let out = sent(&mut client);
    assert_eq!(out.len(), 2);
    assert!(out[0].1.contains(&id_of(1)));
    assert!(out[1].1.contains(&id_of(2)));
    assert_eq!(client.get_and_clear_pending_events(), vec![]);

    let to_the_first =
        response(&id_of(1), LSPS2Response::GetVersions(GetVersionsResponse { versions: vec![1] }));
    assert_eq!(deliver(&mut client, lsp, to_the_first, 3), Err(Error::UnknownResponse));
    assert_eq!(sent(&mut client), vec![]);
    assert_eq!(client.get_and_clear_pending_events(), vec![]);

    let to_the_second =
        response(&id_of(2), LSPS2Response::GetVersions(GetVersionsResponse { versions: vec![1] }));
    assert_eq!(deliver(&mut client, lsp, to_the_second, 4), Ok(()));
    let expected = request(
        &id_of(4),
        LSPS2Request::GetInfo(GetInfoRequest { version: 1, token: Some("new".to_string()) }),
    );
    assert_eq!(sent(&mut client), vec![(lsp, expected.to_json_string().unwrap())]);

    assert_eq!(
        client.handle_lsps_message(LSPSMessage::Invalid, &lsp, &now(), &random(5)),
        Err(Error::PeerRejectedMessage)
    );
    assert_eq!(
        client.get_and_clear_pending_events(),
        vec![Event::LSPS2(LSPS2Event::ChannelFailed {
            counterparty_node_id: lsp,
            user_channel_id: 7,
            reason: FailureReason::MessageNotUnderstood,
        })]
    );
}

#[test]
fn creating_an_invoice_fails_only_without_configuration() {
    let lsp = node(1);
    let mut client = configured();
    for round in 0..3u8 {
        for id in [0u128, 7, u128::MAX] {
            assert_eq!(
                client.jit_channel_create_invoice(lsp, None, None, id, &random(round)),
                Ok(())
            );
        }
    }
    assert_eq!(sent(&mut client).len(), 9);
    let mut plain = LiquidityManager::new(None, chain());
    assert_eq!(
        plain.jit_channel_create_invoice(lsp, None, None, 7, &random(1)),
        Err(Error::NotConfigured)
    );
    assert_eq!(sent(&mut plain), vec![]);
    assert_eq!(plain.get_and_clear_pending_events(), vec![]);
}

#[test]
fn response_that_no_channel_waits_for_is_reported() {
    let lsp = node(1);
    let mut client = configured();
    let stray = response("nobody", LSPS2Response::GetVersions(GetVersionsResponse { versions: vec![1] }));
    assert_eq!(
        client.handle_lsps_message(stray, &lsp, &now(), &random(1)),
        Err(Error::UnknownResponse)
    );
    client.jit_channel_create_invoice(lsp, None, None, 7, &random(2)).unwrap();
    let from_another = response(
        &id_of(2),
        LSPS2Response::GetVersions(GetVersionsResponse { versions: vec![1] }),
    );
    assert_eq!(
        client.handle_lsps_message(from_another, &node(9), &now(), &random(3)),
        Err(Error::UnknownResponse)
    );
    let unexpected = response(
        &id_of(2),
        LSPS2Response::Buy(BuyResponse {
            jit_channel_scid: JitChannelScid("1x2x3".to_string()),
            lsp_cltv_expiry_delta: 1,
            client_trusts_lsp: false,
        }),
    );
    assert_eq!(
        client.handle_lsps_message(unexpected, &lsp, &now(), &random(3)),
        Err(Error::UnknownResponse)
    );
    assert_eq!(
        client.get_and_clear_pending_events(),
        vec![Event::LSPS2(LSPS2Event::ChannelFailed {
            counterparty_node_id: lsp,
            user_channel_id: 7,
            reason: FailureReason::UnexpectedResponse,
        })]
    );
}

#[test]
fn user_calls_out_of_turn_are_refused_and_change_nothing() {
    let lsp = node(1);
    let mut client = configured();
    assert_eq!(
        client.opening_fee_params_selected(lsp, 7, offer(1, 1), &random(1)),
        Err(Error::UnknownChannel)
    );
    client.jit_channel_create_invoice(lsp, None, None, 7, &random(2)).unwrap();
    assert_eq!(
        client.opening_fee_params_selected(lsp, 7, offer(1, 1), &random(4)),
        Err(Error::UnexpectedState)
    );
    assert_eq!(sent(&mut client).len(), 1);
    assert_eq!(client.get_and_clear_pending_events(), vec![]);

    let client_id = node(2);
    let mut lsp = configured();
    assert_eq!(
        lsp.opening_fee_params_generated(client_id, RequestId("r".to_string()), vec![]),
        Err(Error::UnknownRequest)
    );
    assert_eq!(
        lsp.invoice_parameters_generated(client_id, RequestId("r".to_string()), 1, 2, true),
        Err(Error::UnknownRequest)
    );
    let ask = request("r", LSPS2Request::GetInfo(GetInfoRequest { version: 1, token: None }));
    deliver(&mut lsp, client_id, ask, 1).unwrap();
    assert_eq!(
        lsp.invoice_parameters_generated(client_id, RequestId("r".to_string()), 1, 2, true),
        Err(Error::UnknownRequest)
    );
    assert_eq!(
        lsp.opening_fee_params_generated(node(9), RequestId("r".to_string()), vec![]),
        Err(Error::UnknownRequest)
    );
    assert_eq!(
        lsp.opening_fee_params_generated(client_id, RequestId("r".to_string()), vec![]),
        Ok(())
    );
    assert_eq!(
        lsp.opening_fee_params_generated(client_id, RequestId("r".to_string()), vec![]),
        Err(Error::UnknownRequest)
    );
    let buy = BuyRequest { version: 1, opening_fee_params: offer(100, 0), payment_size_msat: None };
    deliver(&mut lsp, client_id, request("b", LSPS2Request::Buy(buy)), 2).unwrap();
    assert_eq!(
        lsp.opening_fee_params_generated(client_id, RequestId("b".to_string()), vec![]),
        Err(Error::UnknownRequest)
    );
    assert_eq!(
        lsp.invoice_parameters_generated(client_id, RequestId("b".to_string()), SCID, 2, true),
        Ok(())
    );
    let buy = BuyRequest { version: 1, opening_fee_params: offer(100, 0), payment_size_msat: None };
    deliver(&mut lsp, client_id, request("c", LSPS2Request::Buy(buy)), 3).unwrap();
    assert_eq!(
        lsp.invoice_parameters_generated(client_id, RequestId("c".to_string()), SCID + 1, 2, true),
        Ok(())
    );
    assert_eq!(
        lsp.invoice_parameters_generated(client_id, RequestId("c".to_string()), SCID + 1, 2, true),
        Err(Error::UnknownRequest)
    );
    assert_eq!(
        lsp.channel_ready(SCID as u128, &ChannelId([0; 32]), &client_id),
        Err(Error::UnexpectedState)
    );
}

#[test]
fn short_channel_id_sold_again_goes_to_the_new_sale() {
    let first = node(2);
    let second = node(3);
    let mut lsp = configured();
    sell_channel(&mut lsp, first, offer(100, 0), Some(1_000_000));
    let held = InterceptId([5u8; 32]);
    assert_eq!(lsp.htlc_intercepted(SCID, held, 1_000_000, 999_900, &now()), Ok(()));
    lsp.get_and_clear_pending_events();

    let buy = BuyRequest {
        version: 1,
        opening_fee_params: offer(200, 0),
        payment_size_msat: Some(2_000_000),
    };
    assert_eq!(deliver(&mut lsp, second, request("buy-2", LSPS2Request::Buy(buy)), 9), Ok(()));
    lsp.get_and_clear_pending_events();
    assert_eq!(
        lsp.invoice_parameters_generated(second, RequestId("buy-2".to_string()), SCID, 72, false),
        Ok(())
    );
    assert_eq!(
        sent(&mut lsp),
        vec![(
            second,
            response(
                "buy-2",
                LSPS2Response::Buy(BuyResponse {
                    jit_channel_scid: JitChannelScid("840000x1x0".to_string()),
                    lsp_cltv_expiry_delta: 72,
                    client_trusts_lsp: false,
                })
            )
            .to_json_string()
            .unwrap()
        )]
    );
    assert_eq!(
        lsp.get_and_clear_pending_htlc_actions(),
        vec![HtlcAction::Fail { intercept_id: held }]
    );
    assert_eq!(lsp.get_and_clear_pending_events(), vec![]);

    assert_eq!(lsp.channel_ready(SCID as u128, &ChannelId([1u8; 32]), &first), Ok(()));
    assert_eq!(lsp.get_and_clear_pending_htlc_actions(), vec![]);

    let paid = InterceptId([6u8; 32]);
    assert_eq!(lsp.htlc_intercepted(SCID, paid, 2_000_000, 1_999_800, &now()), Ok(()));
    assert_eq!(
        lsp.get_and_clear_pending_events(),
        vec![Event::LSPS2(LSPS2Event::OpenChannel {
            their_network_key: second,
            amt_to_forward_msat: 1_999_800,
            opening_fee_msat: 200,
            user_channel_id: SCID as u128,
        })]
    );
    let channel_id = ChannelId([1u8; 32]);
    assert_eq!(lsp.channel_ready(SCID as u128, &channel_id, &second), Ok(()));
    assert_eq!(
        lsp.get_and_clear_pending_htlc_actions(),
        vec![HtlcAction::Forward {
            intercept_id: paid,
            next_hop_channel_id: channel_id,
            next_node_id: second,
            amt_to_forward_msat: 1_999_800,
        }]
    );
}

#[test]
fn short_channel_id_sold_again_before_payment_fails_nothing() {
    let client = node(2);
    let mut lsp = configured();
    sell_channel(&mut lsp, client, offer(100, 0), None);
    let buy = BuyRequest { version: 1, opening_fee_params: offer(300, 0), payment_size_msat: None };
    assert_eq!(deliver(&mut lsp, client, request("buy-2", LSPS2Request::Buy(buy)), 9), Ok(()));
    assert_eq!(
        lsp.invoice_parameters_generated(client, RequestId("buy-2".to_string()), SCID, 72, false),
        Ok(())
    );
    assert_eq!(lsp.get_and_clear_pending_htlc_actions(), vec![]);
    assert_eq!(
        lsp.htlc_intercepted(SCID, InterceptId([1u8; 32]), 1_000, 800, &now()),
        Err(Error::HtlcRejected(HtlcRejection::FeeTooLow))
    );
}

fn buy_error(lsp: &mut LiquidityManager, buy: BuyRequest, at: &UnixTime) -> (Result<(), Error>, Vec<(NodeId, String)>) {
    let client = node(2);
    let message = raw(request("b", LSPS2Request::Buy(buy)));
    let result = lsp.handle_custom_message(message, &client, at, &random(1));
    assert_eq!(lsp.get_and_clear_pending_events(), vec![]);
    (result, sent(lsp))
}

fn error_text(code: i32, message: &str) -> String {
    response(
        "b",
        LSPS2Response::BuyError(ResponseError { code, message: message.to_string(), data: None }),
    )
    .to_json_string()
    .unwrap()
}

#[test]
fn buy_requests_that_are_not_in_order_are_answered_with_their_error() {
    let client = node(2);
    let mut lsp = configured();

    let buy = BuyRequest { version: 2, opening_fee_params: offer(100, 0), payment_size_msat: None };
    assert_eq!(
        buy_error(&mut lsp, buy, &now()),
        (
            Err(Error::RequestRejected(1)),
            vec![(client, error_text(1, "the version is not supported"))]
        )
    );

    let mut tampered = offer(100, 0);
    tampered.min_fee_msat = 99;
    let buy = BuyRequest { version: 1, opening_fee_params: tampered, payment_size_msat: None };
    let invalid = "valid_until is already past OR the promise did not match the provided parameters";
    assert_eq!(
        buy_error(&mut lsp, buy, &now()),
        (Err(Error::RequestRejected(2)), vec![(client, error_text(2, invalid))])
    );

    let buy = BuyRequest { version: 1, opening_fee_params: offer(100, 0), payment_size_msat: None };
    let late = UnixTime { secs: 2063262646, nanos: 0 };
    assert_eq!(
        buy_error(&mut lsp, buy, &late),
        (Err(Error::RequestRejected(2)), vec![(client, error_text(2, invalid))])
    );

    let foreign = raw_offer(100, 0, "2035-05-20T08:30:45Z").into_opening_fee_params(&[2u8; 32]);
    let buy = BuyRequest { version: 1, opening_fee_params: foreign, payment_size_msat: None };
    assert_eq!(
        buy_error(&mut lsp, buy, &now()),
        (Err(Error::RequestRejected(2)), vec![(client, error_text(2, invalid))])
    );

    let buy =
        BuyRequest { version: 1, opening_fee_params: offer(100, 0), payment_size_msat: Some(999) };
    assert_eq!(
        buy_error(&mut lsp, buy, &now()),
        (Err(Error::RequestRejected(3)), vec![(client, error_text(3, "payment size is too small"))])
    );

    let buy = BuyRequest {
        version: 1,
        opening_fee_params: offer(100, 0),
        payment_size_msat: Some(100_000_001),
    };
    assert_eq!(
        buy_error(&mut lsp, buy, &now()),
        (Err(Error::RequestRejected(4)), vec![(client, error_text(4, "payment size is too large"))])
    );

    let buy = BuyRequest {
        version: 1,
        opening_fee_params: offer(5_000, 0),
        payment_size_msat: Some(5_000),
    };
    assert_eq!(
        buy_error(&mut lsp, buy, &now()),
        (Err(Error::RequestRejected(3)), vec![(client, error_text(3, "payment size is too small"))])
    );

    let buy = BuyRequest {
        version: 1,
        opening_fee_params: offer(0, 1_000_000),
        payment_size_msat: Some(5_000),
    };
    assert_eq!(
        buy_error(&mut lsp, buy, &now()),
        (Err(Error::RequestRejected(3)), vec![(client, error_text(3, "payment size is too small"))])
    );

    assert_eq!(
        lsp.invoice_parameters_generated(client, RequestId("b".to_string()), SCID, 2, true),
        Err(Error::UnknownRequest)
    );
}

#[test]
fn buy_requests_at_the_limits_are_in_order() {
    let client = node(2);
    for (size, min_fee) in [(1_000u64, 999u64), (100_000_000, 100), (5_001, 5_000)] {
        let mut lsp = configured();
        let buy = BuyRequest {
            version: 1,
            opening_fee_params: offer(min_fee, 0),
            payment_size_msat: Some(size),
        };
        let expiry = UnixTime { secs: 2063262645, nanos: 0 };
        let message = raw(request("b", LSPS2Request::Buy(buy)));
        assert_eq!(lsp.handle_custom_message(message, &client, &expiry, &random(1)), Ok(()));
        assert_eq!(
            lsp.get_and_clear_pending_events(),
            vec![Event::LSPS2(LSPS2Event::BuyRequest {
                request_id: RequestId("b".to_string()),
                counterparty_node_id: client,
                version: 1,
                opening_fee_params: offer(min_fee, 0),
                payment_size_msat: Some(size),
            })]
        );
        assert_eq!(sent(&mut lsp), vec![]);
    }
}

fn rejected(offer_sold: OpeningFeeParams, size: Option<u64>, inbound: u64, outbound: u64, at: UnixTime) -> Option<HtlcRejection> {
    let client = node(2);
    let mut lsp = configured();
    sell_channel(&mut lsp, client, offer_sold, size);
    let intercept_id = InterceptId([5u8; 32]);
    let result = lsp.htlc_intercepted(SCID, intercept_id, inbound, outbound, &at);
    let actions = lsp.get_and_clear_pending_htlc_actions();
    let events = lsp.get_and_clear_pending_events();
    match result {
        Ok(()) => {
            assert_eq!(actions, vec![]);
            assert_eq!(events.len(), 1);
            None
        }
        Err(Error::HtlcRejected(reason)) => {
            assert_eq!(actions, vec![HtlcAction::Fail { intercept_id }]);
            assert_eq!(events, vec![]);
            assert_eq!(lsp.htlc_intercepted(SCID, intercept_id, inbound, outbound, &at), Ok(()));
            assert_eq!(lsp.get_and_clear_pending_htlc_actions(), vec![]);
            Some(reason)
        }
        Err(other) => panic!("unexpected error {:?}", other),
    }
}

#[test]
fn htlcs_that_do_not_pay_for_the_channel_are_failed() {
    let expiry = UnixTime { secs: 2063262645, nanos: 0 };
    let late = UnixTime { secs: 2063262645, nanos: 1 };
    assert_eq!(rejected(offer(100, 0), Some(1_000_000), 1_000_000, 999_900, now()), None);
    assert_eq!(rejected(offer(100, 0), Some(1_000_000), 1_000_000, 999_900, expiry), None);
    assert_eq!(
        rejected(offer(100, 0), Some(1_000_000), 1_000_000, 999_900, late),
        Some(HtlcRejection::OfferExpired)
    );
    assert_eq!(
        rejected(offer(100, 0), Some(1_000_000), 1_000_000, 1_000_001, now()),
        Some(HtlcRejection::OutboundExceedsInbound)
    );
    assert_eq!(
        rejected(offer(100, 0), Some(1_000_000), 1_000_000, 999_901, now()),
        Some(HtlcRejection::FeeTooLow)
    );
    assert_eq!(
        rejected(offer(100, 0), Some(1_000_000), 1_000_000, 1_000_000, now()),
        Some(HtlcRejection::FeeTooLow)
    );
    assert_eq!(rejected(offer(100, 0), Some(1_000_000), 1_000_000, 0, now()), None);
    assert_eq!(
        rejected(offer(100, 0), Some(1_000_000), 999_999, 999_899, now()),
        Some(HtlcRejection::WrongPaymentSize)
    );
    assert_eq!(
        rejected(offer(100, 0), Some(1_000_000), 1_000_001, 999_901, now()),
        Some(HtlcRejection::WrongPaymentSize)
    );
    assert_eq!(rejected(offer(100, 0), None, 999_999, 999_899, now()), None);
    assert_eq!(rejected(offer(100, 21), None, 100_000_000, 99_997_900, now()), None);
    assert_eq!(
        rejected(offer(100, 21), None, 100_000_000, 99_997_901, now()),
        Some(HtlcRejection::FeeTooLow)
    );
    assert_eq!(rejected(offer(0, 21), None, 47_620, 47_618, now()), None);
    assert_eq!(
        rejected(offer(0, 21), None, 47_620, 47_619, now()),
        Some(HtlcRejection::FeeTooLow)
    );
    assert_eq!(
        rejected(offer(0, u32::MAX), None, u64::MAX, 0, now()),
        Some(HtlcRejection::FeeTooLow)
    );
}

#[test]
fn second_htlc_for_a_paid_channel_is_failed_and_the_first_is_kept() {
    let client = node(2);
    let mut lsp = configured();
    sell_channel(&mut lsp, client, offer(100, 0), None);
    let first = InterceptId([5u8; 32]);
    let second = InterceptId([6u8; 32]);
    assert_eq!(lsp.htlc_intercepted(SCID, first, 1_000_000, 999_900, &now()), Ok(()));
    assert_eq!(
        lsp.htlc_intercepted(SCID, second, 1_000_000, 999_900, &now()),
        Err(Error::HtlcRejected(HtlcRejection::AlreadyPaid))
    );
    assert_eq!(
        lsp.get_and_clear_pending_htlc_actions(),
        vec![HtlcAction::Fail { intercept_id: second }]
    );
    let channel_id = ChannelId([1u8; 32]);
    assert_eq!(lsp.channel_ready(SCID as u128, &channel_id, &client), Ok(()));
    assert_eq!(
        lsp.get_and_clear_pending_htlc_actions(),
        vec![HtlcAction::Forward {
            intercept_id: first,
            next_hop_channel_id: channel_id,
            next_node_id: client,
            amt_to_forward_msat: 999_900,
        }]
    );
}

#[test]
fn news_of_other_channels_is_passed_over() {
    let client = node(2);
    let mut lsp = configured();
    sell_channel(&mut lsp, client, offer(100, 0), None);
    let intercept_id = InterceptId([5u8; 32]);
    assert_eq!(lsp.htlc_intercepted(SCID + 1, intercept_id, 1_000_000, 999_900, &now()), Ok(()));
    assert_eq!(lsp.get_and_clear_pending_events(), vec![]);
    assert_eq!(lsp.htlc_intercepted(SCID, intercept_id, 1_000_000, 999_900, &now()), Ok(()));
    let channel_id = ChannelId([1u8; 32]);
    assert_eq!(lsp.channel_ready(SCID as u128 + 1, &channel_id, &client), Ok(()));
    assert_eq!(lsp.channel_ready(u128::MAX, &channel_id, &client), Ok(()));
    assert_eq!(lsp.channel_ready(SCID as u128 + (1u128 << 64), &channel_id, &client), Ok(()));
    assert_eq!(lsp.channel_ready(SCID as u128, &channel_id, &node(9)), Ok(()));
    assert_eq!(lsp.get_and_clear_pending_htlc_actions(), vec![]);
    assert_eq!(lsp.channel_ready(SCID as u128, &channel_id, &client), Ok(()));
    assert_eq!(lsp.get_and_clear_pending_htlc_actions().len(), 1);
}

#[test]
fn events_are_drained_in_the_order_in_which_they_arose() {
    let mut lsp = configured();
    for tag in 1..=5u8 {
        let ask = request(
            &format!("r{}", tag),
            LSPS2Request::GetInfo(GetInfoRequest { version: tag as u16, token: None }),
        );
        deliver(&mut lsp, node(tag), ask, tag).unwrap();
    }
    let first = lsp.next_event();
    assert_eq!(
        first,
        Some(Event::LSPS2(LSPS2Event::GetInfo {
            request_id: RequestId("r1".to_string()),
            counterparty_node_id: node(1),
            version: 1,
            token: None,
        }))
    );
    let rest = lsp.get_and_clear_pending_events();
    assert_eq!(rest.len(), 4);
    for (i, event) in rest.into_iter().enumerate() {
        let tag = i as u8 + 2;
        assert_eq!(
            event,
            Event::LSPS2(LSPS2Event::GetInfo {
                request_id: RequestId(format!("r{}", tag)),
                counterparty_node_id: node(tag),
                version: tag as u16,
                token: None,
            })
        );
    }
    assert_eq!(lsp.next_event(), None);
    assert_eq!(lsp.get_and_clear_pending_events(), vec![]);
}

#[test]
fn messages_are_drained_in_the_order_in_which_they_arose() {
    let mut lsp = configured();
    for tag in 1..=4u8 {
        let ask = request(&format!("v{}", tag), LSPS2Request::GetVersions(GetVersionsRequest {}));
        deliver(&mut lsp, node(tag), ask, tag).unwrap();
    }
    let out = sent(&mut lsp);
    assert_eq!(out.len(), 4);
    for (i, (peer, payload)) in out.into_iter().enumerate() {
        let tag = i as u8 + 1;
        assert_eq!(peer, node(tag));
        assert!(payload.contains(&format!("\"v{}\"", tag)));
    }
    assert_eq!(sent(&mut lsp), vec![]);
}

#[test]
fn chain_tip_follows_connected_and_disconnected_blocks() {
    let mut manager = configured();
    assert_eq!(manager.best_block(), BestBlock { block_hash: [7u8; 32], height: 840_000 });
    manager.filtered_block_connected([8u8; 32], [7u8; 32], 840_001);
    assert_eq!(manager.best_block(), BestBlock { block_hash: [8u8; 32], height: 840_001 });
    manager.filtered_block_connected([9u8; 32], [8u8; 32], 840_002);
    assert_eq!(manager.best_block(), BestBlock { block_hash: [9u8; 32], height: 840_002 });
    manager.block_disconnected([9u8; 32], [8u8; 32], 840_002);
    assert_eq!(manager.best_block(), BestBlock { block_hash: [8u8; 32], height: 840_001 });
}

#[test]
fn genesis_hash_is_that_of_the_chain() {
    let manager = configured();
    let mut expected = [0u8; 32];
    let text = "6fe28c0ab6f1b372c1a6a246ae63f74f931e8365e15a089c68d6190000000000";
    for i in 0..32 {
        expected[i] = u8::from_str_radix(&text[2 * i..2 * i + 2], 16).unwrap();
    }
    assert_eq!(manager.genesis_hash(), expected);
    let regtest = LiquidityManager::new(
        None,
        ChainParameters {
            network: Network::Regtest,
            best_block: BestBlock { block_hash: [0u8; 32], height: 0 },
        },
    );
    assert_ne!(regtest.genesis_hash(), expected);
}

#[test]
fn custom_message_type_of_the_protocols_is_read() {
    assert!(LiquidityManager::reads_message_type(37913));
    assert!(!LiquidityManager::reads_message_type(37912));
    assert!(!LiquidityManager::reads_message_type(0));
}

#[test]
fn errors_are_told_apart_and_described() {
    assert!(Error::NotConfigured.is_misuse());
    assert!(Error::HtlcRejected(HtlcRejection::FeeTooLow).is_misuse());
    assert!(!Error::PeerRejectedMessage.is_misuse());
    assert!(!Error::RequestRejected(3).is_misuse());
    assert_eq!(
        Error::NotConfigured.description(),
        "JIT Channels were not configured when LSPManager was instantiated"
    );
    assert_eq!(
        FailureReason::NoCommonVersion.description(),
        "the LSP supports none of our versions of the protocol"
    );
}
