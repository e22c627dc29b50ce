use stark_core::errors::CoreError;
use stark_core::rate_limiter::CheckOutcome;
use stark_core::influence_api::{
    Asteroid, CrewLookup, CrewMetadata, FetchOutcome, InfluenceClient,
};

#[test]
fn default_base_url_builds_asteroid_path() {
    let client = InfluenceClient::new(None).unwrap();
    assert_eq!(
        client.asteroid_url(1),
        "https://api.influenceth.io/v1/asteroids/1".to_string()
    );
}

#[test]
fn custom_base_url_and_large_ids_render_in_decimal() {
    let client = InfluenceClient::new(Some("http://host.example".to_string())).unwrap();
    assert_eq!(
        client.asteroid_url(250_000),
        "http://host.example/v1/asteroids/250000".to_string()
    );
    assert_eq!(
        client.asteroid_url(u64::MAX),
        "http://host.example/v1/asteroids/18446744073709551615".to_string()
    );
    assert_eq!(
        client.market_prices_url(),
        "http://host.example/v4/encyclopedia/market_stats".to_string()
    );
}

#[test]
fn asteroid_decodes_from_a_live_body() {
    let client = InfluenceClient::new(None).unwrap();
    let outcome = FetchOutcome::Response {
        status: 200,
        body: "{\"id\": 1, \"name\": \"Adalia Prime\", \"area\": 1768484}".to_string(),
    };
    assert_eq!(
        client.get_asteroid(&outcome),
        Ok(Asteroid { id: 1, name: "Adalia Prime".to_string(), area: 1768484 })
    );
}

#[test]
fn asteroid_surfaces_protocol_error_with_status() {
    let client = InfluenceClient::new(None).unwrap();
    let outcome = FetchOutcome::Response { status: 500, body: "oops".to_string() };
    let err = client.get_asteroid(&outcome).unwrap_err();
    match err {
        CoreError::ProtocolError { status } => assert_eq!(status, 500),
        other => panic!("expected a protocol error, got {:?}", other),
    }
}

#[test]
fn asteroid_surfaces_transport_and_decode_errors() {
    let client = InfluenceClient::new(None).unwrap();
    assert_eq!(
        client.get_asteroid(&FetchOutcome::Failed),
        Err(CoreError::TransportError)
    );
    let garbled = FetchOutcome::Response { status: 200, body: "not json".to_string() };
    assert_eq!(client.get_asteroid(&garbled), Err(CoreError::DecodeError));
    let missing = FetchOutcome::Response { status: 200, body: "{\"id\": 3}".to_string() };
    assert_eq!(client.get_asteroid(&missing), Err(CoreError::DecodeError));
}

#[test]
fn market_prices_fall_back_when_upstream_is_unreachable() {
    let client = InfluenceClient::new(None).unwrap();
    let snapshot = client.fetch_unauthenticated_market_prices(&FetchOutcome::Failed);
    let pairs: Vec<(String, f64)> = snapshot
        .entries
        .iter()
        .map(|e| (e.commodity.clone(), e.price_cents as f64 / 100.0))
        .collect();
    assert_eq!(
        pairs,
        vec![
            ("Iron Ore".to_string(), 1.15),
            ("Steel".to_string(), 18.20),
            ("Propellant".to_string(), 45.00),
        ]
    );
}

#[test]
fn market_prices_absorb_every_outcome() {
    let client = InfluenceClient::new(None).unwrap();
    let from_error = client.fetch_unauthenticated_market_prices(&FetchOutcome::Response {
        status: 500,
        body: "".to_string(),
    });
    let from_unknown_schema = client.fetch_unauthenticated_market_prices(
        &FetchOutcome::Response { status: 200, body: "{}".to_string() },
    );
    assert_eq!(from_error, from_unknown_schema);
    assert_eq!(from_error.entries.len(), 3);
}

#[test]
fn crew_metadata_is_tagged_as_placeholder() {
    let client = InfluenceClient::new(None).unwrap();
    let CrewLookup::NotYetIntegrated(meta) = client.get_crew_metadata(9001);
    assert_eq!(
        meta,
        CrewMetadata {
            is_busy: false,
            busy_until_ts: 0,
            food_kg: 750,
            location_lot: 42,
            class_id: 1,
        }
    );
}

#[test]
fn client_admits_two_requests_per_window() {
    let mut client = InfluenceClient::new(None).unwrap();
    assert_eq!(client.check(0), CheckOutcome::Admitted);
    assert_eq!(client.check(0), CheckOutcome::Admitted);
    assert_eq!(client.check(0), CheckOutcome::RetryAtMs(1000));
}
