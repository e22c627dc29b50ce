use stark_core::errors::CoreError;
use stark_core::rate_limiter::CheckOutcome;
use stark_core::starknet_client::{
    detect_rpc_urls, AsteroidHolding, RpcEvent, StarknetClient,
};

fn sources(values: &[Option<&str>]) -> Vec<Option<String>> {
    values.iter().map(|v| v.map(|s| s.to_string())).collect()
}

#[test]
fn discovery_with_no_usable_source_fails() {
    let r = detect_rpc_urls(&sources(&[None, Some(""), None]));
    assert_eq!(r.err(), Some(CoreError::ConfigurationError));
}

#[test]
fn discovery_keeps_priority_order_and_duplicates() {
    let r = detect_rpc_urls(&sources(&[
        Some("https://a.example"),
        None,
        Some("https://b.example"),
        Some("https://a.example"),
    ]))
    .unwrap();
    assert_eq!(
        r,
        vec![
            "https://a.example".to_string(),
            "https://b.example".to_string(),
            "https://a.example".to_string(),
        ]
    );
}

#[test]
fn override_bypasses_all_sources() {
    let mut client = StarknetClient::new(
        Some("https://solo.example"),
        &sources(&[Some("https://other.example")]),
    )
    .unwrap();
    assert_eq!(client.next_provider(), "https://solo.example".to_string());
    assert_eq!(client.next_provider(), "https://solo.example".to_string());
}

#[test]
fn construction_without_endpoints_fails() {
    let r = StarknetClient::new(None, &sources(&[]));
    assert_eq!(r.err(), Some(CoreError::ConfigurationError));
}

#[test]
fn construction_rejects_an_invalid_url() {
    let r = StarknetClient::new(Some("not a url"), &sources(&[]));
    assert_eq!(r.err(), Some(CoreError::ConfigurationError));
}

#[test]
fn round_robin_serves_each_endpoint_once_then_repeats() {
    let mut client = StarknetClient::new(
        None,
        &sources(&[
            Some("https://a.example"),
            Some("https://b.example"),
            Some("https://c.example"),
        ]),
    )
    .unwrap();
    assert_eq!(client.next_provider(), "https://a.example".to_string());
    assert_eq!(client.next_provider(), "https://b.example".to_string());
    assert_eq!(client.next_provider(), "https://c.example".to_string());
    assert_eq!(client.next_provider(), "https://a.example".to_string());
}

fn test_client() -> StarknetClient {
    StarknetClient::new(Some("https://rpc.example"), &sources(&[])).unwrap()
}

#[test]
fn block_number_decodes_per_taxonomy() {
    let client = test_client();
    assert_eq!(client.get_block_number(&RpcEvent::Number(481_023)), Ok(481_023));
    assert_eq!(
        client.get_block_number(&RpcEvent::Failed),
        Err(CoreError::TransportError)
    );
    assert_eq!(
        client.get_block_number(&RpcEvent::Status(503)),
        Err(CoreError::ProtocolError { status: 503 })
    );
    assert_eq!(
        client.get_block_number(&RpcEvent::Felt("0x1".to_string())),
        Err(CoreError::DecodeError)
    );
}

#[test]
fn balance_parses_hex_felts_exactly() {
    let client = test_client();
    assert_eq!(client.get_eth_balance(&RpcEvent::Felt("0x0".into())), Ok(0));
    assert_eq!(client.get_eth_balance(&RpcEvent::Felt("0x1a".into())), Ok(26));
    assert_eq!(client.get_eth_balance(&RpcEvent::Felt("0x00ff".into())), Ok(255));
    assert_eq!(client.get_eth_balance(&RpcEvent::Felt("0xDeadBeef".into())), Ok(0xdead_beef));
    let max = format!("0x{}", "f".repeat(32));
    assert_eq!(client.get_eth_balance(&RpcEvent::Felt(max)), Ok(u128::MAX));
}

#[test]
fn balance_rejects_malformed_or_oversized_felts() {
    let client = test_client();
    for bad in ["", "0x", "1a", "0xzz", "0x 1", "x1a"] {
        assert_eq!(
            client.get_eth_balance(&RpcEvent::Felt(bad.to_string())),
            Err(CoreError::DecodeError),
            "accepted {:?}",
            bad
        );
    }
    let too_big = format!("0x1{}", "0".repeat(32));
    assert_eq!(
        client.get_eth_balance(&RpcEvent::Felt(too_big)),
        Err(CoreError::DecodeError)
    );
}

#[test]
fn nonce_fits_sixty_four_bits_or_fails() {
    let client = test_client();
    assert_eq!(client.get_nonce(&RpcEvent::Felt("0x10".into())), Ok(16));
    assert_eq!(
        client.get_nonce(&RpcEvent::Felt("0xffffffffffffffff".into())),
        Ok(u64::MAX)
    );
    assert_eq!(
        client.get_nonce(&RpcEvent::Felt("0x10000000000000000".into())),
        Err(CoreError::DecodeError)
    );
}

#[test]
fn crew_status_reads_busy_flag_and_class() {
    let client = test_client();
    assert_eq!(
        client.get_crew_status(&RpcEvent::FeltPair("0x0".into(), "0x1".into())),
        Ok((false, 1))
    );
    assert_eq!(
        client.get_crew_status(&RpcEvent::FeltPair("0x5".into(), "0x2".into())),
        Ok((true, 2))
    );
    assert_eq!(
        client.get_crew_status(&RpcEvent::FeltPair("0x1".into(), "0x100".into())),
        Err(CoreError::DecodeError)
    );
    assert_eq!(
        client.get_crew_status(&RpcEvent::Felt("0x1".into())),
        Err(CoreError::DecodeError)
    );
}

#[test]
fn batch_query_preserves_caller_id_order() {
    let client = test_client();
    let asteroids = vec![30u64, 10, 20];
    let events = vec![
        RpcEvent::Felt("0x1".to_string()),
        RpcEvent::Felt("0x2".to_string()),
        RpcEvent::Felt("0x3".to_string()),
    ];
    let r = client
        .batch_query("0xabc", &asteroids, &RpcEvent::Felt("0x64".to_string()), &events)
        .unwrap();
    assert_eq!(r.balance, 100);
    assert_eq!(
        r.entries,
        vec![
            AsteroidHolding { asteroid_id: 30, state: 1 },
            AsteroidHolding { asteroid_id: 10, state: 2 },
            AsteroidHolding { asteroid_id: 20, state: 3 },
        ]
    );
}

#[test]
fn batch_query_fails_whole_on_any_sub_failure() {
    let client = test_client();
    let asteroids = vec![30u64, 10, 20];
    let events = vec![
        RpcEvent::Felt("0x1".to_string()),
        RpcEvent::Status(500),
        RpcEvent::Felt("0x3".to_string()),
    ];
    assert_eq!(
        client.batch_query("0xabc", &asteroids, &RpcEvent::Felt("0x64".to_string()), &events),
        Err(CoreError::ProtocolError { status: 500 })
    );
    assert_eq!(
        client.batch_query("0xabc", &asteroids, &RpcEvent::Failed, &events),
        Err(CoreError::TransportError)
    );
}

#[test]
fn batch_query_requires_one_answer_per_id() {
    let client = test_client();
    let asteroids = vec![30u64, 10];
    let events = vec![RpcEvent::Felt("0x1".to_string())];
    assert_eq!(
        client.batch_query("0xabc", &asteroids, &RpcEvent::Felt("0x64".to_string()), &events),
        Err(CoreError::DecodeError)
    );
}

#[test]
fn client_shares_one_admission_gate_across_operations() {
    let mut client = test_client();
    // The default quota admits five requests per window, then refuses.
    for _ in 0..5 {
        assert_eq!(client.check(0), CheckOutcome::Admitted);
    }
    assert_eq!(client.check(500), CheckOutcome::RetryAtMs(1000));
    assert_eq!(client.check(1000), CheckOutcome::Admitted);
}
