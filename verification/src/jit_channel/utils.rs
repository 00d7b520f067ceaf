//! Promises over opening fee parameters, and the opening fee itself.

use crate::jit_channel::msgs::{OpeningFeeOffer, OpeningFeeParams, OpeningFeeTerms};
use crate::time::{canonical_rfc3339, has_rfc3339_form, UnixTime};
use crate::utils::{
    hex_str, hex_text, is_lower_hex, lemma_hex_text_injective, lemma_hex_text_shape,
};
use vstd::prelude::*;
use vstd::string::*;
use vstd::utf8::{encode_utf8, encode_utf8_decode_utf8};

verus! {

/// The HMAC-SHA256 of `message` under `key`, as the `bitcoin` crate computes it.
pub uninterp spec fn hmac_sha256(key: Seq<u8>, message: Seq<u8>) -> Seq<u8>;

/// Computes an HMAC-SHA256.
///
/// Feeds `message` to a `bitcoin::hashes::hmac::HmacEngine` over SHA-256 keyed
/// with `key` and takes the bytes of the `Hmac` it ends in. The contract only
/// names the outcome: the same key and message always give the same bytes.
#[verifier::external_body]
fn compute_hmac_sha256(key: &[u8; 32], message: &[u8]) -> (mac: [u8; 32])
    ensures
        mac@ == hmac_sha256(key@, message@),
{
    let mut engine = bitcoin::hashes::hmac::HmacEngine::<bitcoin::hashes::sha256::Hash>::new(key);
    bitcoin::hashes::HashEngine::input(&mut engine, message);
    let mac: bitcoin::hashes::hmac::Hmac<bitcoin::hashes::sha256::Hash> =
        bitcoin::hashes::Hash::from_engine(engine);
    bitcoin::hashes::Hash::into_inner(mac)
}

/// The big-endian encoding of `value` in `width` bytes.
pub open spec fn be_bytes(value: nat, width: nat) -> Seq<u8>
    decreases width,
{
    if width == 0 {
        Seq::empty()
    } else {
        be_bytes(value / 256, (width - 1) as nat).push((value % 256) as u8)
    }
}

/// Appends the big-endian encoding of `value` in `width` bytes to `out`.
fn push_be_bytes(out: &mut Vec<u8>, value: u64, width: usize)
    requires
        width <= 8,
    ensures
        final(out)@ == old(out)@ + be_bytes(value as nat, width as nat),
{
    let mut reversed: Vec<u8> = Vec::new();
    let mut rest: u64 = value;
    while reversed.len() < width
        invariant
            reversed.len() <= width,
            be_bytes(value as nat, width as nat) == be_bytes(
                rest as nat,
                (width - reversed.len()) as nat,
            ) + Seq::new(reversed.len() as nat, |i: int| reversed[reversed.len() - 1 - i]),
        decreases width - reversed.len(),
    {
        let ghost before = reversed@;
        let ghost tail = Seq::new(before.len(), |i: int| before[before.len() - 1 - i]);
        reversed.push((rest % 256) as u8);
        assert(Seq::new(reversed.len() as nat, |i: int| reversed[reversed.len() - 1 - i])
            =~= seq![(rest % 256) as u8] + tail);
        assert(be_bytes(rest as nat, (width - before.len()) as nat) =~= be_bytes(
            (rest / 256) as nat,
            (width - before.len() - 1) as nat,
        ) + seq![(rest % 256) as u8]);
        rest = rest / 256;
    }
    let ghost start = out@;
    let mut k: usize = width;
    while k > 0
        invariant
            k <= width,
            reversed.len() == width,
            out@ == start + Seq::new(
                (width - k) as nat,
                |i: int| reversed[reversed.len() - 1 - i],
            ),
        decreases k,
    {
        k -= 1;
        out.push(reversed[k]);
        assert(out@ =~= start + Seq::new(
            (width - k) as nat,
            |i: int| reversed[reversed.len() - 1 - i],
        ));
    }
    assert(be_bytes(value as nat, width as nat) =~= Seq::new(
        width as nat,
        |i: int| reversed[reversed.len() - 1 - i],
    ));
}

/// The bytes that a promise authenticates: the minimum fee in 8 bytes and the
/// proportional fee in 4, both big-endian; the UTF-8 bytes of the expiry's
/// canonical RFC 3339 text; the minimum lifetime and the maximum
/// `to_self_delay` in 4 big-endian bytes each.
pub open spec fn promise_message(terms: OpeningFeeTerms) -> Seq<u8> {
    be_bytes(terms.min_fee_msat as nat, 8) + be_bytes(terms.proportional as nat, 4) + encode_utf8(
        canonical_rfc3339(terms.valid_until),
    ) + be_bytes(terms.min_lifetime as nat, 4) + be_bytes(
        terms.max_client_to_self_delay as nat,
        4,
    )
}

/// The promise for `terms` under `secret`: the HMAC-SHA256 of the promise
/// message, in lowercase hex.
pub open spec fn promise_text(terms: OpeningFeeTerms, secret: Seq<u8>) -> Seq<char> {
    hex_text(hmac_sha256(secret, promise_message(terms)))
}

/// Computes the promise for `terms` under `promise_secret`, given the canonical
/// RFC 3339 text of the expiry: 64 lowercase hex digits.
pub fn compute_promise(
    min_fee_msat: u64,
    proportional: u32,
    valid_until_text: &str,
    min_lifetime: u32,
    max_client_to_self_delay: u32,
    promise_secret: &[u8; 32],
) -> (promise: String)
    ensures
        promise@ == hex_text(
            hmac_sha256(
                promise_secret@,
                be_bytes(min_fee_msat as nat, 8) + be_bytes(proportional as nat, 4) + encode_utf8(
                    valid_until_text@,
                ) + be_bytes(min_lifetime as nat, 4) + be_bytes(max_client_to_self_delay as nat, 4),
            ),
        ),
        promise@.len() == 64,
        is_lower_hex(promise@),
{
    let mut message: Vec<u8> = Vec::new();
    push_be_bytes(&mut message, min_fee_msat, 8);
    push_be_bytes(&mut message, proportional as u64, 4);
    let text_bytes = valid_until_text.as_bytes();
    let mut i: usize = 0;
    let ghost head = message@;
    while i < text_bytes.len()
        invariant
            i <= text_bytes.len(),
            message@ == head + text_bytes@.take(i as int),
        decreases text_bytes.len() - i,
    {
        message.push(text_bytes[i]);
        i += 1;
        assert(message@ =~= head + text_bytes@.take(i as int));
    }
    assert(text_bytes@.take(i as int) =~= text_bytes@);
    push_be_bytes(&mut message, min_lifetime as u64, 4);
    push_be_bytes(&mut message, max_client_to_self_delay as u64, 4);
    assert(message@ =~= be_bytes(min_fee_msat as nat, 8) + be_bytes(proportional as nat, 4)
        + encode_utf8(valid_until_text@) + be_bytes(min_lifetime as nat, 4) + be_bytes(
        max_client_to_self_delay as nat,
        4,
    ));
    let mac = compute_hmac_sha256(promise_secret, message.as_slice());
    proof {
        lemma_hex_text_shape(mac@);
    }
    hex_str(mac.as_slice())
}

/// Compares two byte strings without stopping at the first difference.
fn constant_time_eq(a: &[u8], b: &[u8]) -> (res: bool)
    ensures
        res == (a@ == b@),
{
    if a.len() != b.len() {
        return false;
    }
    let mut difference: u8 = 0;
    let mut i: usize = 0;
    assert(a@.take(0) =~= b@.take(0));
    while i < a.len()
        invariant
            i <= a.len(),
            a.len() == b.len(),
            difference == 0 <==> a@.take(i as int) == b@.take(i as int),
        decreases a.len() - i,
    {
        let x: u8 = a[i];
        let y: u8 = b[i];
        let ghost before = difference;
        difference = difference | (x ^ y);
        assert(difference == 0 <==> (before == 0 && x == y)) by (bit_vector)
            requires
                difference == before | (x ^ y),
        ;
        proof {
            let next = i + 1;
            if a@.take(next) == b@.take(next) {
                assert(a@.take(i as int) =~= a@.take(next).take(i as int));
                assert(b@.take(i as int) =~= b@.take(next).take(i as int));
                assert(a@.take(next)[i as int] == b@.take(next)[i as int]);
            }
            if a@.take(i as int) == b@.take(i as int) && x == y {
                assert(a@.take(next) =~= a@.take(i as int).push(x));
                assert(b@.take(next) =~= b@.take(i as int).push(y));
            }
        }
        i += 1;
    }
    assert(a@.take(i as int) =~= a@);
    assert(b@.take(i as int) =~= b@);
    difference == 0
}

/// Whether an offer carries the promise that `secret` gives for its terms and
/// has not expired at `now`.
pub open spec fn is_valid_at(offer: OpeningFeeOffer, secret: Seq<u8>, now: UnixTime) -> bool {
    &&& now.at_or_before(offer.terms.valid_until)
    &&& offer.promise == promise_text(offer.terms, secret)
}

/// An offer that carries the promise of its own terms is valid under the secret
/// of that promise at every instant up to its expiry.
pub proof fn lemma_promised_offer_is_valid(terms: OpeningFeeTerms, secret: Seq<u8>, now: UnixTime)
    requires
        now.at_or_before(terms.valid_until),
    ensures
        is_valid_at(OpeningFeeOffer { terms, promise: promise_text(terms, secret) }, secret, now),
{
}

/// What is left of `value` beyond its `width` lowest bytes.
pub open spec fn beyond_bytes(value: nat, width: nat) -> nat
    decreases width,
{
    if width == 0 {
        value
    } else {
        beyond_bytes(value / 256, (width - 1) as nat)
    }
}

/// The big-endian encoding in `width` bytes has `width` bytes.
pub proof fn lemma_be_bytes_len(value: nat, width: nat)
    ensures
        be_bytes(value, width).len() == width,
    decreases width,
{
    if width > 0 {
        lemma_be_bytes_len(value / 256, (width - 1) as nat);
    }
}

/// Two numbers with the same big-endian encoding in `width` bytes, and nothing
/// different beyond those bytes, are equal.
pub proof fn lemma_be_bytes_injective(a: nat, b: nat, width: nat)
    requires
        be_bytes(a, width) == be_bytes(b, width),
        beyond_bytes(a, width) == beyond_bytes(b, width),
    ensures
        a == b,
    decreases width,
{
    if width > 0 {
        let head_a = be_bytes(a / 256, (width - 1) as nat);
        let head_b = be_bytes(b / 256, (width - 1) as nat);
        let low_a = (a % 256) as u8;
        let low_b = (b % 256) as u8;
        assert(head_a =~= head_a.push(low_a).drop_last());
        assert(head_b =~= head_b.push(low_b).drop_last());
        assert(head_a.push(low_a).last() == low_a);
        assert(head_b.push(low_b).last() == low_b);
        lemma_be_bytes_injective(a / 256, b / 256, (width - 1) as nat);
        assert(a == (a / 256) * 256 + a % 256);
        assert(b == (b / 256) * 256 + b % 256);
    }
}

/// A 64-bit number has nothing beyond 8 bytes, and a 32-bit number nothing
/// beyond 4.
pub proof fn lemma_nothing_beyond(wide: u64, narrow: u32)
    ensures
        beyond_bytes(wide as nat, 8) == 0,
        beyond_bytes(narrow as nat, 4) == 0,
{
    reveal_with_fuel(beyond_bytes, 9);
    let w = wide as nat;
    assert(w / 256 / 256 / 256 / 256 / 256 / 256 / 256 / 256 == 0);
    let n = narrow as nat;
    assert(n / 256 / 256 / 256 / 256 == 0);
}

/// Terms whose expiry has an RFC 3339 form hand the HMAC different bytes
/// wherever they differ in a field: the bytes tell the terms.
pub proof fn lemma_promise_message_injective(a: OpeningFeeTerms, b: OpeningFeeTerms)
    requires
        has_rfc3339_form(a.valid_until),
        has_rfc3339_form(b.valid_until),
        promise_message(a) == promise_message(b),
    ensures
        a == b,
{
    let message = promise_message(a);
    let text_a = encode_utf8(canonical_rfc3339(a.valid_until));
    let text_b = encode_utf8(canonical_rfc3339(b.valid_until));
    lemma_be_bytes_len(a.min_fee_msat as nat, 8);
    lemma_be_bytes_len(b.min_fee_msat as nat, 8);
    lemma_be_bytes_len(a.proportional as nat, 4);
    lemma_be_bytes_len(b.proportional as nat, 4);
    lemma_be_bytes_len(a.min_lifetime as nat, 4);
    lemma_be_bytes_len(b.min_lifetime as nat, 4);
    lemma_be_bytes_len(a.max_client_to_self_delay as nat, 4);
    lemma_be_bytes_len(b.max_client_to_self_delay as nat, 4);
    let len = message.len() as int;
    assert(len == 20 + text_a.len());
    assert(len == 20 + text_b.len());
    assert(be_bytes(a.min_fee_msat as nat, 8) =~= message.subrange(0, 8));
    assert(be_bytes(b.min_fee_msat as nat, 8) =~= message.subrange(0, 8));
    assert(be_bytes(a.proportional as nat, 4) =~= message.subrange(8, 12));
    assert(be_bytes(b.proportional as nat, 4) =~= message.subrange(8, 12));
    assert(text_a =~= message.subrange(12, len - 8));
    assert(text_b =~= message.subrange(12, len - 8));
    assert(be_bytes(a.min_lifetime as nat, 4) =~= message.subrange(len - 8, len - 4));
    assert(be_bytes(b.min_lifetime as nat, 4) =~= message.subrange(len - 8, len - 4));
    assert(be_bytes(a.max_client_to_self_delay as nat, 4) =~= message.subrange(len - 4, len));
    assert(be_bytes(b.max_client_to_self_delay as nat, 4) =~= message.subrange(len - 4, len));
    lemma_nothing_beyond(a.min_fee_msat, a.proportional);
    lemma_nothing_beyond(b.min_fee_msat, b.proportional);
    lemma_nothing_beyond(0, a.min_lifetime);
    lemma_nothing_beyond(0, b.min_lifetime);
    lemma_nothing_beyond(0, a.max_client_to_self_delay);
    lemma_nothing_beyond(0, b.max_client_to_self_delay);
    lemma_be_bytes_injective(a.min_fee_msat as nat, b.min_fee_msat as nat, 8);
    lemma_be_bytes_injective(a.proportional as nat, b.proportional as nat, 4);
    lemma_be_bytes_injective(a.min_lifetime as nat, b.min_lifetime as nat, 4);
    lemma_be_bytes_injective(
        a.max_client_to_self_delay as nat,
        b.max_client_to_self_delay as nat,
        4,
    );
    encode_utf8_decode_utf8(canonical_rfc3339(a.valid_until));
    encode_utf8_decode_utf8(canonical_rfc3339(b.valid_until));
    assert(canonical_rfc3339(a.valid_until) == canonical_rfc3339(b.valid_until));
    assert(a.valid_until.secs == b.valid_until.secs);
    assert(a.valid_until.nanos == b.valid_until.nanos);
}

/// An offer of which a field was changed after the promise was made is valid
/// only where HMAC-SHA256 gives two different messages the same value under
/// one key.
pub proof fn lemma_changed_offer_needs_collision(
    promised: OpeningFeeTerms,
    changed: OpeningFeeTerms,
    secret: Seq<u8>,
    now: UnixTime,
)
    requires
        has_rfc3339_form(promised.valid_until),
        has_rfc3339_form(changed.valid_until),
        changed != promised,
        is_valid_at(
            OpeningFeeOffer { terms: changed, promise: promise_text(promised, secret) },
            secret,
            now,
        ),
    ensures
        promise_message(changed) != promise_message(promised),
        hmac_sha256(secret, promise_message(changed)) == hmac_sha256(
            secret,
            promise_message(promised),
        ),
{
    lemma_changed_offer_needs_same_hmac(promised, changed, secret, now);
    if promise_message(changed) == promise_message(promised) {
        lemma_promise_message_injective(changed, promised);
    }
}

/// An offer whose terms were changed after the promise was made is valid only
/// where the changed terms have the same HMAC as the terms that were promised.
pub proof fn lemma_changed_offer_needs_same_hmac(
    promised: OpeningFeeTerms,
    changed: OpeningFeeTerms,
    secret: Seq<u8>,
    now: UnixTime,
)
    requires
        is_valid_at(
            OpeningFeeOffer { terms: changed, promise: promise_text(promised, secret) },
            secret,
            now,
        ),
    ensures
        hmac_sha256(secret, promise_message(changed)) == hmac_sha256(
            secret,
            promise_message(promised),
        ),
{
    lemma_hex_text_injective(
        hmac_sha256(secret, promise_message(changed)),
        hmac_sha256(secret, promise_message(promised)),
    );
}

/// An offer is valid under another secret than the one of its promise only
/// where both secrets give its terms the same HMAC.
pub proof fn lemma_other_secret_needs_same_hmac(
    terms: OpeningFeeTerms,
    secret: Seq<u8>,
    other: Seq<u8>,
    now: UnixTime,
)
    requires
        is_valid_at(OpeningFeeOffer { terms, promise: promise_text(terms, secret) }, other, now),
    ensures
        hmac_sha256(other, promise_message(terms)) == hmac_sha256(secret, promise_message(terms)),
{
    lemma_hex_text_injective(
        hmac_sha256(other, promise_message(terms)),
        hmac_sha256(secret, promise_message(terms)),
    );
}

/// An offer is not valid after its expiry, whatever its promise.
pub proof fn lemma_expired_offer_is_invalid(offer: OpeningFeeOffer, secret: Seq<u8>, now: UnixTime)
    requires
        !now.at_or_before(offer.terms.valid_until),
    ensures
        !is_valid_at(offer, secret, now),
{
}

/// Determines whether `fee_params` is valid at the instant `now`: the promise
/// is the one that `promise_secret` gives for the other fields, and `now` is not
/// later than `valid_until`.
pub fn is_valid_opening_fee_params_at(
    fee_params: &OpeningFeeParams,
    promise_secret: &[u8; 32],
    now: &UnixTime,
) -> (valid: bool)
    ensures
        valid == is_valid_at(fee_params@, promise_secret@, *now),
{
    let valid_until = fee_params.valid_until.unix_time();
    let expected = compute_promise(
        fee_params.min_fee_msat,
        fee_params.proportional,
        fee_params.valid_until.to_rfc3339().as_str(),
        fee_params.min_lifetime,
        fee_params.max_client_to_self_delay,
        promise_secret,
    );
    let same = constant_time_eq(expected.as_str().as_bytes(), fee_params.promise.as_str().as_bytes());
    proof {
        encode_utf8_decode_utf8(expected@);
        encode_utf8_decode_utf8(fee_params.promise@);
    }
    let in_time = now.is_at_or_before(&valid_until);
    same && in_time
}

/// The opening fee for a payment: the proportional fee in parts per million of
/// the payment size, rounded up, but at least the minimum fee.
pub open spec fn opening_fee(payment_size_msat: nat, min_fee_msat: nat, proportional: nat) -> nat {
    let proportional_fee = (payment_size_msat * proportional + 999_999) / 1_000_000;
    if proportional_fee > min_fee_msat {
        proportional_fee
    } else {
        min_fee_msat
    }
}

/// Computes the opening fee given a payment size and the fee parameters.
///
/// Returns `None` when the fee does not fit 64 bits.
pub fn compute_opening_fee(
    payment_size_msat: u64,
    opening_fee_min_fee_msat: u64,
    opening_fee_proportional: u64,
) -> (fee: Option<u64>)
    ensures
        fee is Some <==> opening_fee(
            payment_size_msat as nat,
            opening_fee_min_fee_msat as nat,
            opening_fee_proportional as nat,
        ) <= u64::MAX,
        fee matches Some(f) ==> f == opening_fee(
            payment_size_msat as nat,
            opening_fee_min_fee_msat as nat,
            opening_fee_proportional as nat,
        ),
{
    assert(payment_size_msat * opening_fee_proportional <= 0xffff_ffff_ffff_ffff
        * 0xffff_ffff_ffff_ffff) by (nonlinear_arith)
        requires
            payment_size_msat <= 0xffff_ffff_ffff_ffff,
            opening_fee_proportional <= 0xffff_ffff_ffff_ffff,
    ;
    let product: u128 = (payment_size_msat as u128) * (opening_fee_proportional as u128);
    let proportional_fee: u128 = (product + 999_999) / 1_000_000;
    if proportional_fee > u64::MAX as u128 {
        None
    } else if proportional_fee > opening_fee_min_fee_msat as u128 {
        Some(proportional_fee as u64)
    } else {
        Some(opening_fee_min_fee_msat)
    }
}

} // verus!
