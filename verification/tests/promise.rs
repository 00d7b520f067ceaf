use lsp_liquidity::jit_channel::msgs::{OpeningFeeParams, RawOpeningFeeParams};
use lsp_liquidity::jit_channel::utils::{
    compute_opening_fee, compute_promise, is_valid_opening_fee_params_at,
};
use lsp_liquidity::time::{Timestamp, UnixTime};

fn is_valid_opening_fee_params(fee_params: &OpeningFeeParams, promise_secret: &[u8; 32]) -> bool {
    let now = chrono::Utc::now();
    let now = UnixTime { secs: now.timestamp(), nanos: now.timestamp_subsec_nanos() };
    is_valid_opening_fee_params_at(fee_params, promise_secret, &now)
}

fn raw_params(valid_until: &str) -> RawOpeningFeeParams {
    RawOpeningFeeParams {
        min_fee_msat: 100,
        proportional: 21,
        valid_until: Timestamp::parse_from_rfc3339(valid_until).unwrap(),
        min_lifetime: 144,
        max_client_to_self_delay: 128,
    }
}

fn instant(text: &str) -> UnixTime {
    Timestamp::parse_from_rfc3339(text).unwrap().unix_time()
}

#[test]
fn into_opening_fee_params_produces_valid_promise() {
    let min_fee_msat = 100;
    let proportional = 21;
    let valid_until = Timestamp::parse_from_rfc3339("2035-05-20T08:30:45Z").unwrap();
    let min_lifetime = 144;
    let max_client_to_self_delay = 128;

    let raw = RawOpeningFeeParams {
        min_fee_msat,
        proportional,
        valid_until: valid_until.clone(),
        min_lifetime,
        max_client_to_self_delay,
    };

    let promise_secret = [1u8; 32];

    let opening_fee_params = raw.into_opening_fee_params(&promise_secret);

    assert_eq!(opening_fee_params.min_fee_msat, min_fee_msat);
    assert_eq!(opening_fee_params.proportional, proportional);
    assert_eq!(opening_fee_params.valid_until, valid_until);
    assert_eq!(opening_fee_params.min_lifetime, min_lifetime);
    assert_eq!(opening_fee_params.max_client_to_self_delay, max_client_to_self_delay);

    assert!(is_valid_opening_fee_params(&opening_fee_params, &promise_secret));
}

#[test]
fn changing_single_field_produced_invalid_params() {
    let min_fee_msat = 100;
    let proportional = 21;
    let valid_until = Timestamp::parse_from_rfc3339("2035-05-20T08:30:45Z").unwrap();
    let min_lifetime = 144;
    let max_client_to_self_delay = 128;

    let raw = RawOpeningFeeParams {
        min_fee_msat,
        proportional,
        valid_until,
        min_lifetime,
        max_client_to_self_delay,
    };

    let promise_secret = [1u8; 32];

    let mut opening_fee_params = raw.into_opening_fee_params(&promise_secret);
    opening_fee_params.min_fee_msat = min_fee_msat + 1;
    assert!(!is_valid_opening_fee_params(&opening_fee_params, &promise_secret));
}

#[test]
fn wrong_secret_produced_invalid_params() {
    let min_fee_msat = 100;
    let proportional = 21;
    let valid_until = Timestamp::parse_from_rfc3339("2035-05-20T08:30:45Z").unwrap();
    let min_lifetime = 144;
    let max_client_to_self_delay = 128;

    let raw = RawOpeningFeeParams {
        min_fee_msat,
        proportional,
        valid_until,
        min_lifetime,
        max_client_to_self_delay,
    };

    let promise_secret = [1u8; 32];
    let other_secret = [2u8; 32];

    let opening_fee_params = raw.into_opening_fee_params(&promise_secret);
    assert!(!is_valid_opening_fee_params(&opening_fee_params, &other_secret));
}

#[test]
fn expired_params_produces_invalid_params() {
    let min_fee_msat = 100;
    let proportional = 21;
    let valid_until = Timestamp::parse_from_rfc3339("2023-05-20T08:30:45Z").unwrap();
    let min_lifetime = 144;
    let max_client_to_self_delay = 128;

    let raw = RawOpeningFeeParams {
        min_fee_msat,
        proportional,
        valid_until,
        min_lifetime,
        max_client_to_self_delay,
    };

    let promise_secret = [1u8; 32];

    let opening_fee_params = raw.into_opening_fee_params(&promise_secret);
    assert!(!is_valid_opening_fee_params(&opening_fee_params, &promise_secret));
}

#[test]
fn promise_is_the_hex_of_the_hmac_of_the_fields() {
    let params = raw_params("2035-05-20T08:30:45Z").into_opening_fee_params(&[1u8; 32]);
    assert_eq!(
        params.promise,
        "7cb7c4b2eb646ddace6990821f8ea5731ff7d911b120d537e5acf689eea1b906"
    );
    let other = raw_params("2035-05-20T08:30:45Z").into_opening_fee_params(&[2u8; 32]);
    assert_eq!(
        other.promise,
        "acd883d8fc6a6ada450c40102d932af0ad5504ba3cf5bf31fb220e2ba62c5b3b"
    );
}

#[test]
fn promise_is_sixty_four_lowercase_hex_digits() {
    for secret in [[0u8; 32], [1u8; 32], [0xffu8; 32]] {
        for min_fee_msat in [0u64, 100, u64::MAX] {
            let params = RawOpeningFeeParams {
                min_fee_msat,
                proportional: u32::MAX,
                valid_until: Timestamp::parse_from_rfc3339("2035-05-20T08:30:45.5Z").unwrap(),
                min_lifetime: 0,
                max_client_to_self_delay: 1,
            }
            .into_opening_fee_params(&secret);
            assert_eq!(params.promise.len(), 64);
            assert!(params.promise.chars().all(|c| matches!(c, '0'..='9' | 'a'..='f')));
        }
    }
}

#[test]
fn promise_covers_the_fraction_of_the_expiry() {
    let params = raw_params("2035-05-20T08:30:45.500Z").into_opening_fee_params(&[1u8; 32]);
    assert_eq!(
        params.promise,
        "8a8906c96d25952ca944d0c26f4517150e57837ae7f9577ae6c88aed83396315"
    );
}

#[test]
fn promise_goes_by_the_instant_not_by_the_offset_it_was_written_in() {
    let utc = raw_params("2035-05-20T08:30:45Z").into_opening_fee_params(&[1u8; 32]);
    let offset = raw_params("2035-05-20T10:30:45+02:00").into_opening_fee_params(&[1u8; 32]);
    assert_eq!(utc, offset);
}

#[test]
fn compute_promise_takes_the_text_as_given() {
    let promise = compute_promise(100, 21, "2035-05-20T08:30:45Z", 144, 128, &[1u8; 32]);
    assert_eq!(promise, "7cb7c4b2eb646ddace6990821f8ea5731ff7d911b120d537e5acf689eea1b906");
    let other = compute_promise(100, 21, "2035-05-20T08:30:45+00:00", 144, 128, &[1u8; 32]);
    assert_ne!(promise, other);
}

#[test]
fn promise_is_valid_at_an_instant_before_expiry() {
    let secret = [1u8; 32];
    let params = raw_params("2035-05-20T08:30:45Z").into_opening_fee_params(&secret);
    let now = instant("2024-01-01T00:00:00Z");
    assert!(is_valid_opening_fee_params_at(&params, &secret, &now));
}

#[test]
fn promise_is_valid_at_the_instant_of_expiry_and_not_after() {
    let secret = [1u8; 32];
    let params = raw_params("2035-05-20T08:30:45Z").into_opening_fee_params(&secret);
    let at_expiry = instant("2035-05-20T08:30:45Z");
    assert_eq!(at_expiry, UnixTime { secs: 2063262645, nanos: 0 });
    assert!(is_valid_opening_fee_params_at(&params, &secret, &at_expiry));
    let just_after = UnixTime { secs: 2063262645, nanos: 1 };
    assert!(!is_valid_opening_fee_params_at(&params, &secret, &just_after));
    let a_second_after = UnixTime { secs: 2063262646, nanos: 0 };
    assert!(!is_valid_opening_fee_params_at(&params, &secret, &a_second_after));
}

#[test]
fn tampered_min_fee_is_detected() {
    let secret = [1u8; 32];
    let mut params = raw_params("2035-05-20T08:30:45Z").into_opening_fee_params(&secret);
    params.min_fee_msat = 101;
    let now = instant("2024-01-01T00:00:00Z");
    assert!(!is_valid_opening_fee_params_at(&params, &secret, &now));
}

#[test]
fn every_tampered_field_is_detected() {
    let secret = [1u8; 32];
    let now = instant("2024-01-01T00:00:00Z");
    let fresh = || raw_params("2035-05-20T08:30:45Z").into_opening_fee_params(&secret);

    let mut params = fresh();
    params.proportional = 22;
    assert!(!is_valid_opening_fee_params_at(&params, &secret, &now));

    let mut params = fresh();
    params.valid_until = Timestamp::parse_from_rfc3339("2035-05-20T08:30:46Z").unwrap();
    assert!(!is_valid_opening_fee_params_at(&params, &secret, &now));

    let mut params = fresh();
    params.min_lifetime = 145;
    assert!(!is_valid_opening_fee_params_at(&params, &secret, &now));

    let mut params = fresh();
    params.max_client_to_self_delay = 129;
    assert!(!is_valid_opening_fee_params_at(&params, &secret, &now));

    let mut params = fresh();
    params.promise = params.promise.to_uppercase();
    assert!(!is_valid_opening_fee_params_at(&params, &secret, &now));

    let mut params = fresh();
    params.promise.pop();
    assert!(!is_valid_opening_fee_params_at(&params, &secret, &now));

    assert!(is_valid_opening_fee_params_at(&fresh(), &secret, &now));
}

#[test]
fn wrong_secret_is_detected() {
    let params = raw_params("2035-05-20T08:30:45Z").into_opening_fee_params(&[1u8; 32]);
    let now = instant("2024-01-01T00:00:00Z");
    assert!(!is_valid_opening_fee_params_at(&params, &[2u8; 32], &now));
}

#[test]
fn expired_promise_is_invalid_whatever_the_hmac() {
    let secret = [1u8; 32];
    let params = raw_params("2023-05-20T08:30:45Z").into_opening_fee_params(&secret);
    let now = instant("2024-01-01T00:00:00Z");
    assert!(!is_valid_opening_fee_params_at(&params, &secret, &now));
    let before = instant("2023-01-01T00:00:00Z");
    assert!(is_valid_opening_fee_params_at(&params, &secret, &before));
}

#[test]
fn duplicate_of_an_offer_is_equal_to_it() {
    let params: OpeningFeeParams =
        raw_params("2035-05-20T08:30:45Z").into_opening_fee_params(&[1u8; 32]);
    assert_eq!(params.duplicate(), params);
}

#[test]
fn opening_fee_is_the_larger_of_minimum_and_proportional_fee() {
    assert_eq!(compute_opening_fee(1_000_000, 100, 0), Some(100));
    assert_eq!(compute_opening_fee(1_000_000, 100, 21), Some(100));
    assert_eq!(compute_opening_fee(1_000_000, 10, 21), Some(21));
    assert_eq!(compute_opening_fee(100_000_000, 100, 21), Some(2_100));
    assert_eq!(compute_opening_fee(0, 0, 21), Some(0));
    assert_eq!(compute_opening_fee(0, 7, 21), Some(7));
}

#[test]
fn opening_fee_rounds_the_proportional_fee_up() {
    assert_eq!(compute_opening_fee(1, 0, 1), Some(1));
    assert_eq!(compute_opening_fee(1_000_000, 0, 1), Some(1));
    assert_eq!(compute_opening_fee(1_000_001, 0, 1), Some(2));
    assert_eq!(compute_opening_fee(999_999, 0, 1), Some(1));
    assert_eq!(compute_opening_fee(47_619, 0, 21), Some(1));
    assert_eq!(compute_opening_fee(47_620, 0, 21), Some(2));
}

#[test]
fn opening_fee_is_none_only_where_it_does_not_fit() {
    assert_eq!(compute_opening_fee(u64::MAX, 0, 1_000_000), Some(u64::MAX));
    assert_eq!(compute_opening_fee(u64::MAX, 0, 1_000_001), None);
    assert_eq!(compute_opening_fee(u64::MAX, u64::MAX, 1), Some(u64::MAX));
    assert_eq!(compute_opening_fee(u64::MAX, 0, u64::MAX), None);
    assert_eq!(compute_opening_fee(u64::MAX, 5, 1), Some(18_446_744_073_710));
}
