//! The JSON form of the messages: the document that is written for each
//! message, and the message that a document stands for. The laws at the end
//! say that what was written reads back as it was.

use crate::jit_channel::msgs::{OpeningFeeOffer, OpeningFeeTerms};
use crate::json::{
    as_number, lemma_number_round_trip, lemma_same_members_member, lookup, member, number_value,
    same_members, JsonValue,
};
use crate::time::{
    canonical_rfc3339, has_rfc3339_form, lemma_timestamp_round_trip, timestamp_of_text,
};
use crate::transport::msgs::{ErrorValue, MessageValue, RequestValue, ResponseValue};
use crate::utils::{decimal_text, lemma_decimal_text_canonical, lemma_decimal_text_injective};
use vstd::prelude::*;

verus! {

/// The text that a document holds, where it is a string.
pub open spec fn as_text(json: JsonValue) -> Option<Seq<char>> {
    match json {
        JsonValue::String(text) => Some(text),
        _ => None,
    }
}

/// The truth value that a document holds, where it is one.
pub open spec fn as_bool(json: JsonValue) -> Option<bool> {
    match json {
        JsonValue::Bool(b) => Some(b),
        _ => None,
    }
}

/// A field that may be left out: absent and `null` both count as left out.
pub open spec fn optional(field: Option<JsonValue>) -> Option<JsonValue> {
    match field {
        Some(JsonValue::Null) => None,
        other => other,
    }
}

/// The decimal text of an integer, with `-` in front of a negative one.
pub open spec fn int_text(n: int) -> Seq<char> {
    if n < 0 {
        seq!['-'] + decimal_text((-n) as nat)
    } else {
        decimal_text(n as nat)
    }
}

/// The 32-bit integer that a document stands for.
pub open spec fn as_i32(json: JsonValue) -> Option<i32> {
    match json {
        JsonValue::Number(text) => if exists|n: i32| int_text(n as int) == text {
            Some(choose|n: i32| int_text(n as int) == text)
        } else {
            None
        },
        _ => None,
    }
}

/// Two integers with the same decimal text are equal.
pub proof fn lemma_int_text_injective(a: int, b: int)
    requires
        int_text(a) == int_text(b),
    ensures
        a == b,
{
    if a < 0 {
        lemma_decimal_text_canonical((-a) as nat);
    } else {
        lemma_decimal_text_canonical(a as nat);
    }
    if b < 0 {
        lemma_decimal_text_canonical((-b) as nat);
    } else {
        lemma_decimal_text_canonical(b as nat);
    }
    assert(int_text(a)[0] == int_text(b)[0]);
    if a < 0 {
        assert(int_text(a)[0] == '-');
        assert(b < 0);
        assert(decimal_text((-a) as nat) =~= int_text(a).subrange(1, int_text(a).len() as int));
        assert(decimal_text((-b) as nat) =~= int_text(b).subrange(1, int_text(b).len() as int));
        lemma_decimal_text_injective((-a) as nat, (-b) as nat);
    } else {
        assert(int_text(b)[0] != '-');
        lemma_decimal_text_injective(a as nat, b as nat);
    }
}

/// A written 32-bit integer reads back as itself.
pub proof fn lemma_i32_round_trip(n: i32)
    ensures
        as_i32(JsonValue::Number(int_text(n as int))) == Some(n),
{
    let m = choose|m: i32| int_text(m as int) == int_text(n as int);
    lemma_int_text_injective(m as int, n as int);
}

/// The decimal text of an integer starts with `-` exactly when the integer is
/// negative, and holds ASCII only.
pub proof fn lemma_int_text_ascii(n: int)
    ensures
        int_text(n).len() > 0,
        n < 0 <==> int_text(n)[0] == '-',
        forall|i: int| 0 <= i < int_text(n).len() ==> '\0' <= #[trigger] int_text(n)[i] <= '\u{7f}',
{
    if n < 0 {
        lemma_decimal_text_canonical((-n) as nat);
        let digits = decimal_text((-n) as nat);
        assert forall|i: int| 0 <= i < int_text(n).len() implies '\0' <= #[trigger] int_text(
            n,
        )[i] <= '\u{7f}' by {
            if i > 0 {
                assert(int_text(n)[i] == digits[i - 1]);
            }
        }
    } else {
        lemma_decimal_text_canonical(n as nat);
    }
}

/// The document that stands for an error.
pub open spec fn error_json(error: ErrorValue) -> JsonValue {
    JsonValue::Object(
        seq![
            ("code"@, JsonValue::Number(int_text(error.code as int))),
            ("message"@, JsonValue::String(error.message)),
        ] + (match error.data {
            Some(data) => seq![("data"@, JsonValue::String(data))],
            None => Seq::empty(),
        }),
    )
}

/// The error that a document stands for.
pub open spec fn error_of_json(json: JsonValue) -> Option<ErrorValue> {
    match (member(json, "code"@), member(json, "message"@), optional(member(json, "data"@))) {
        (Some(code), Some(message), data) => match (as_i32(code), as_text(message)) {
            (Some(code), Some(message)) => match data {
                None => Some(ErrorValue { code, message, data: None }),
                Some(data) => match as_text(data) {
                    Some(data) => Some(ErrorValue { code, message, data: Some(data) }),
                    None => None,
                },
            },
            _ => None,
        },
        _ => None,
    }
}

/// The natural number up to `max` in the field `key` of an object.
pub open spec fn member_number(json: JsonValue, key: Seq<char>, max: nat) -> Option<nat> {
    match member(json, key) {
        Some(value) => as_number(value, max),
        None => None,
    }
}

/// The text in the field `key` of an object.
pub open spec fn member_text(json: JsonValue, key: Seq<char>) -> Option<Seq<char>> {
    match member(json, key) {
        Some(value) => as_text(value),
        None => None,
    }
}

/// The document that stands for a list of 16-bit numbers.
pub open spec fn numbers_json(list: Seq<u16>) -> JsonValue {
    JsonValue::Array(Seq::new(list.len(), |i: int| number_value(list[i] as nat)))
}

/// The list of 16-bit numbers that a document stands for.
pub open spec fn numbers_of_json(json: JsonValue) -> Option<Seq<u16>> {
    match json {
        JsonValue::Array(items) => if forall|i: int|
            0 <= i < items.len() ==> as_number(#[trigger] items[i], 0xffff) is Some {
            Some(Seq::new(items.len(), |i: int| as_number(items[i], 0xffff)->0 as u16))
        } else {
            None
        },
        _ => None,
    }
}

/// A written list of 16-bit numbers reads back as itself.
pub proof fn lemma_numbers_round_trip(list: Seq<u16>)
    ensures
        numbers_of_json(numbers_json(list)) == Some(list),
{
    let items = numbers_json(list)->Array_0;
    assert forall|i: int| 0 <= i < items.len() implies as_number(#[trigger] items[i], 0xffff)
        == Some(list[i] as nat) by {
        lemma_number_round_trip(list[i] as nat, 0xffff);
    }
    assert(numbers_of_json(numbers_json(list))->0 =~= list);
}

/// The document that stands for an offer.
pub open spec fn offer_json(offer: OpeningFeeOffer) -> JsonValue {
    JsonValue::Object(
        seq![
            ("min_fee_msat"@, number_value(offer.terms.min_fee_msat as nat)),
            ("proportional"@, number_value(offer.terms.proportional as nat)),
            ("valid_until"@, JsonValue::String(canonical_rfc3339(offer.terms.valid_until))),
            ("min_lifetime"@, number_value(offer.terms.min_lifetime as nat)),
            (
                "max_client_to_self_delay"@,
                number_value(offer.terms.max_client_to_self_delay as nat),
            ),
            ("promise"@, JsonValue::String(offer.promise)),
        ],
    )
}

/// The offer that a document stands for.
pub open spec fn offer_of_json(json: JsonValue) -> Option<OpeningFeeOffer> {
    match (
        member_number(json, "min_fee_msat"@, 0xffff_ffff_ffff_ffff),
        member_number(json, "proportional"@, 0xffff_ffff),
        member_text(json, "valid_until"@),
        member_number(json, "min_lifetime"@, 0xffff_ffff),
        member_number(json, "max_client_to_self_delay"@, 0xffff_ffff),
        member_text(json, "promise"@),
    ) {
        (
            Some(min_fee_msat),
            Some(proportional),
            Some(valid_until),
            Some(min_lifetime),
            Some(max_client_to_self_delay),
            Some(promise),
        ) => match timestamp_of_text(valid_until) {
            Some(valid_until) => Some(
                OpeningFeeOffer {
                    terms: OpeningFeeTerms {
                        min_fee_msat: min_fee_msat as u64,
                        proportional: proportional as u32,
                        valid_until,
                        min_lifetime: min_lifetime as u32,
                        max_client_to_self_delay: max_client_to_self_delay as u32,
                    },
                    promise,
                },
            ),
            None => None,
        },
        _ => None,
    }
}

/// The document that stands for a menu of offers.
pub open spec fn menu_json(menu: Seq<OpeningFeeOffer>) -> JsonValue {
    JsonValue::Array(Seq::new(menu.len(), |i: int| offer_json(menu[i])))
}

/// The menu of offers that a document stands for.
pub open spec fn menu_of_json(json: JsonValue) -> Option<Seq<OpeningFeeOffer>> {
    match json {
        JsonValue::Array(items) => if forall|i: int|
            0 <= i < items.len() ==> offer_of_json(#[trigger] items[i]) is Some {
            Some(Seq::new(items.len(), |i: int| offer_of_json(items[i])->0))
        } else {
            None
        },
        _ => None,
    }
}

/// The document that stands for the parameters of a request.
pub open spec fn request_params_json(request: RequestValue) -> JsonValue {
    match request {
        RequestValue::ListProtocols => JsonValue::Object(Seq::empty()),
        RequestValue::GetVersions => JsonValue::Object(Seq::empty()),
        RequestValue::GetInfo { version, token } => JsonValue::Object(
            seq![("version"@, number_value(version as nat))] + (match token {
                Some(token) => seq![("token"@, JsonValue::String(token))],
                None => Seq::empty(),
            }),
        ),
        RequestValue::Buy { version, opening_fee_params, payment_size_msat } => JsonValue::Object(
            seq![
                ("version"@, number_value(version as nat)),
                ("opening_fee_params"@, offer_json(opening_fee_params)),
            ] + (match payment_size_msat {
                Some(size) => seq![("payment_size_msat"@, number_value(size as nat))],
                None => Seq::empty(),
            }),
        ),
    }
}

/// Whether the parameters of a request without parameters are in order: left
/// out, or an object.
pub open spec fn no_params(params: Option<JsonValue>) -> bool {
    match params {
        None => true,
        Some(value) => value is Object,
    }
}

/// The `get_info` request that a document of parameters stands for.
pub open spec fn get_info_of_json(params: JsonValue) -> Option<RequestValue> {
    match (member_number(params, "version"@, 0xffff), optional(member(params, "token"@))) {
        (Some(version), None) => Some(RequestValue::GetInfo { version: version as u16, token: None }),
        (Some(version), Some(token)) => match as_text(token) {
            Some(token) => Some(
                RequestValue::GetInfo { version: version as u16, token: Some(token) },
            ),
            None => None,
        },
        _ => None,
    }
}

/// The `buy` request that a document of parameters stands for.
pub open spec fn buy_of_json(params: JsonValue) -> Option<RequestValue> {
    match (
        member_number(params, "version"@, 0xffff),
        member(params, "opening_fee_params"@),
        optional(member(params, "payment_size_msat"@)),
    ) {
        (Some(version), Some(offer), size) => match offer_of_json(offer) {
            Some(opening_fee_params) => match size {
                None => Some(
                    RequestValue::Buy {
                        version: version as u16,
                        opening_fee_params,
                        payment_size_msat: None,
                    },
                ),
                Some(size) => match as_number(size, 0xffff_ffff_ffff_ffff) {
                    Some(size) => Some(
                        RequestValue::Buy {
                            version: version as u16,
                            opening_fee_params,
                            payment_size_msat: Some(size as u64),
                        },
                    ),
                    None => None,
                },
            },
            None => None,
        },
        _ => None,
    }
}

/// The request that a method name and a document of parameters stand for.
pub open spec fn request_of_json(method: Seq<char>, params: Option<JsonValue>) -> Option<
    RequestValue,
> {
    if method == "lsps0.list_protocols"@ {
        if no_params(params) {
            Some(RequestValue::ListProtocols)
        } else {
            None
        }
    } else if method == "lsps2.get_versions"@ {
        if no_params(params) {
            Some(RequestValue::GetVersions)
        } else {
            None
        }
    } else if method == "lsps2.get_info"@ {
        match params {
            Some(params) => get_info_of_json(params),
            None => None,
        }
    } else if method == "lsps2.buy"@ {
        match params {
            Some(params) => buy_of_json(params),
            None => None,
        }
    } else {
        None
    }
}

/// The document that stands for the result of a successful response.
pub open spec fn result_json(response: ResponseValue) -> JsonValue {
    match response {
        ResponseValue::ListProtocols(protocols) => JsonValue::Object(
            seq![("protocols"@, numbers_json(protocols))],
        ),
        ResponseValue::GetVersions(versions) => JsonValue::Object(
            seq![("versions"@, numbers_json(versions))],
        ),
        ResponseValue::GetInfo {
            opening_fee_params_menu,
            min_payment_size_msat,
            max_payment_size_msat,
        } => JsonValue::Object(
            seq![
                ("opening_fee_params_menu"@, menu_json(opening_fee_params_menu)),
                ("min_payment_size_msat"@, number_value(min_payment_size_msat as nat)),
                ("max_payment_size_msat"@, number_value(max_payment_size_msat as nat)),
            ],
        ),
        ResponseValue::Buy {
            jit_channel_scid,
            lsp_cltv_expiry_delta,
            client_trusts_lsp,
        } => JsonValue::Object(
            seq![
                ("jit_channel_scid"@, JsonValue::String(jit_channel_scid)),
                ("lsp_cltv_expiry_delta"@, number_value(lsp_cltv_expiry_delta as nat)),
                ("client_trusts_lsp"@, JsonValue::Bool(client_trusts_lsp)),
            ],
        ),
        ResponseValue::ListProtocolsError(error) => error_json(error),
        ResponseValue::GetInfoError(error) => error_json(error),
        ResponseValue::BuyError(error) => error_json(error),
    }
}

/// Whether a response reports an error.
pub open spec fn is_error_response(response: ResponseValue) -> bool {
    response is ListProtocolsError || response is GetInfoError || response is BuyError
}

/// The successful response to a request of `method` that a result stands for.
pub open spec fn success_of_json(method: Seq<char>, result: JsonValue) -> Option<ResponseValue> {
    if method == "lsps0.list_protocols"@ {
        match member(result, "protocols"@) {
            Some(list) => match numbers_of_json(list) {
                Some(protocols) => Some(ResponseValue::ListProtocols(protocols)),
                None => None,
            },
            None => None,
        }
    } else if method == "lsps2.get_versions"@ {
        match member(result, "versions"@) {
            Some(list) => match numbers_of_json(list) {
                Some(versions) => Some(ResponseValue::GetVersions(versions)),
                None => None,
            },
            None => None,
        }
    } else if method == "lsps2.get_info"@ {
        match (
            member(result, "opening_fee_params_menu"@),
            member_number(result, "min_payment_size_msat"@, 0xffff_ffff_ffff_ffff),
            member_number(result, "max_payment_size_msat"@, 0xffff_ffff_ffff_ffff),
        ) {
            (Some(menu), Some(min), Some(max)) => match menu_of_json(menu) {
                Some(opening_fee_params_menu) => Some(
                    ResponseValue::GetInfo {
                        opening_fee_params_menu,
                        min_payment_size_msat: min as u64,
                        max_payment_size_msat: max as u64,
                    },
                ),
                None => None,
            },
            _ => None,
        }
    } else if method == "lsps2.buy"@ {
        match (
            member_text(result, "jit_channel_scid"@),
            member_number(result, "lsp_cltv_expiry_delta"@, 0xffff_ffff),
            optional(member(result, "client_trusts_lsp"@)),
        ) {
            (Some(jit_channel_scid), Some(delta), None) => Some(
                ResponseValue::Buy {
                    jit_channel_scid,
                    lsp_cltv_expiry_delta: delta as u32,
                    client_trusts_lsp: false,
                },
            ),
            (Some(jit_channel_scid), Some(delta), Some(flag)) => match as_bool(flag) {
                Some(client_trusts_lsp) => Some(
                    ResponseValue::Buy {
                        jit_channel_scid,
                        lsp_cltv_expiry_delta: delta as u32,
                        client_trusts_lsp,
                    },
                ),
                None => None,
            },
            _ => None,
        }
    } else {
        None
    }
}

/// The error response to a request of `method` that an error stands for.
pub open spec fn failure_of_json(method: Seq<char>, error: JsonValue) -> Option<ResponseValue> {
    match error_of_json(error) {
        Some(error) => if method == "lsps0.list_protocols"@ {
            Some(ResponseValue::ListProtocolsError(error))
        } else if method == "lsps2.get_info"@ {
            Some(ResponseValue::GetInfoError(error))
        } else if method == "lsps2.buy"@ {
            Some(ResponseValue::BuyError(error))
        } else {
            None
        },
        None => None,
    }
}

/// The response to a request of `method` that a result or an error stands for:
/// exactly one of the two has to be there.
pub open spec fn response_of_json(
    method: Seq<char>,
    result: Option<JsonValue>,
    error: Option<JsonValue>,
) -> Option<ResponseValue> {
    match (result, error) {
        (Some(result), None) => success_of_json(method, result),
        (None, Some(error)) => failure_of_json(method, error),
        _ => None,
    }
}

/// The error that tells a peer its message could not be read.
pub open spec fn invalid_message_error() -> ErrorValue {
    ErrorValue { code: -32700i32, message: "parse error"@, data: None }
}

/// The JSON-RPC object that stands for a message.
pub open spec fn message_json(message: MessageValue) -> JsonValue {
    match message {
        MessageValue::Invalid => JsonValue::Object(
            seq![
                ("jsonrpc"@, JsonValue::String("2.0"@)),
                ("id"@, JsonValue::Null),
                ("error"@, error_json(invalid_message_error())),
            ],
        ),
        MessageValue::Request(id, request) => JsonValue::Object(
            seq![
                ("jsonrpc"@, JsonValue::String("2.0"@)),
                ("method"@, JsonValue::String(request.method())),
                ("id"@, JsonValue::String(id)),
                ("params"@, request_params_json(request)),
            ],
        ),
        MessageValue::Response(id, response) => JsonValue::Object(
            seq![
                ("jsonrpc"@, JsonValue::String("2.0"@)),
                ("id"@, JsonValue::String(id)),
                (
                    if is_error_response(response) {
                        "error"@
                    } else {
                        "result"@
                    },
                    result_json(response),
                ),
            ],
        ),
    }
}

/// Whether a document is a JSON-RPC 2.0 object: its member `jsonrpc` is the
/// text `2.0`.
pub open spec fn is_json_rpc(json: JsonValue) -> bool {
    member_text(json, "jsonrpc"@) == Some("2.0"@)
}

/// The message that a JSON-RPC object stands for, given the methods of the
/// requests that wait for a response; `None` where it stands for none.
///
/// A document that is no JSON-RPC 2.0 object stands for none. Of the others, an
/// object with an id and a method is a request. One with an id only is the
/// response to the request of that id, which has to be waiting. One with
/// neither is the notice that a message could not be read, where its error says
/// so.
pub open spec fn message_of_json(json: JsonValue, methods: Map<Seq<char>, Seq<char>>) -> Option<
    MessageValue,
> {
    if !is_json_rpc(json) {
        None
    } else {
        envelope_message(json, methods)
    }
}

/// The message that an object stands for once it is known to be a JSON-RPC 2.0
/// object.
pub open spec fn envelope_message(json: JsonValue, methods: Map<Seq<char>, Seq<char>>) -> Option<
    MessageValue,
> {
    match (optional(member(json, "id"@)), optional(member(json, "method"@))) {
        (Some(id), Some(method)) => match (as_text(id), as_text(method)) {
            (Some(id), Some(method)) => match request_of_json(
                method,
                optional(member(json, "params"@)),
            ) {
                Some(request) => Some(MessageValue::Request(id, request)),
                None => None,
            },
            _ => None,
        },
        (Some(id), None) => match as_text(id) {
            Some(id) => if methods.contains_key(id) {
                match response_of_json(
                    methods[id],
                    optional(member(json, "result"@)),
                    optional(member(json, "error"@)),
                ) {
                    Some(response) => Some(MessageValue::Response(id, response)),
                    None => None,
                }
            } else {
                None
            },
            None => None,
        },
        (None, Some(_)) => None,
        (None, None) => match optional(member(json, "error"@)) {
            Some(error) => match error_of_json(error) {
                Some(error) => if error.code == -32700 {
                    Some(MessageValue::Invalid)
                } else {
                    None
                },
                None => None,
            },
            None => None,
        },
    }
}

/// The methods of the requests that still wait for a response once a document
/// has been read: a response takes its request out, whether or not the response
/// could be read; a document that is no JSON-RPC 2.0 object is no response.
pub open spec fn methods_after(json: JsonValue, methods: Map<Seq<char>, Seq<char>>) -> Map<
    Seq<char>,
    Seq<char>,
> {
    if !is_json_rpc(json) {
        methods
    } else {
        match (optional(member(json, "id"@)), optional(member(json, "method"@))) {
            (Some(id), None) => match as_text(id) {
                Some(id) => methods.remove(id),
                None => methods,
            },
            _ => methods,
        }
    }
}

/// A written error reads back as itself.
pub proof fn lemma_error_round_trip(error: ErrorValue)
    ensures
        error_of_json(error_json(error)) == Some(error),
{
    reveal_strlit("code");
    assert("code"@.len() == 4);
    reveal_strlit("message");
    assert("message"@.len() == 7);
    reveal_strlit("data");
    assert("data"@.len() == 4);
    reveal_with_fuel(lookup, 4);
    lemma_i32_round_trip(error.code);
    assert("code"@[0] != "data"@[0]);
    let json = error_json(error);
    assert(member(json, "code"@) == Some(JsonValue::Number(int_text(error.code as int))));
    assert(member(json, "message"@) == Some(JsonValue::String(error.message)));
    match error.data {
        Some(data) => {
            assert(member(json, "data"@) == Some(JsonValue::String(data)));
        },
        None => {
            assert(member(json, "data"@) is None);
        },
    }
}

/// Whether an offer can be written and read back: its expiry has an RFC 3339
/// form, as the expiry of every [`OpeningFeeParams`] has.
pub open spec fn offer_well_formed(offer: OpeningFeeOffer) -> bool {
    has_rfc3339_form(offer.terms.valid_until)
}

/// Whether the offers in a message can be written and read back.
pub open spec fn message_well_formed(message: MessageValue) -> bool {
    match message {
        MessageValue::Request(_, RequestValue::Buy { opening_fee_params, .. }) => offer_well_formed(
            opening_fee_params,
        ),
        MessageValue::Response(_, ResponseValue::GetInfo { opening_fee_params_menu, .. }) => forall|
            i: int,
        |
            0 <= i < opening_fee_params_menu.len() ==> offer_well_formed(
                #[trigger] opening_fee_params_menu[i],
            ),
        _ => true,
    }
}

/// A written offer reads back as itself.
pub proof fn lemma_offer_round_trip(offer: OpeningFeeOffer)
    requires
        offer_well_formed(offer),
    ensures
        offer_of_json(offer_json(offer)) == Some(offer),
{
    reveal_strlit("min_fee_msat");
    assert("min_fee_msat"@.len() == 12);
    reveal_strlit("proportional");
    assert("proportional"@.len() == 12);
    reveal_strlit("valid_until");
    assert("valid_until"@.len() == 11);
    reveal_strlit("min_lifetime");
    assert("min_lifetime"@.len() == 12);
    reveal_strlit("max_client_to_self_delay");
    assert("max_client_to_self_delay"@.len() == 24);
    reveal_strlit("promise");
    assert("promise"@.len() == 7);
    reveal_with_fuel(lookup, 7);
    assert("min_fee_msat"@[0] != "proportional"@[0]);
    assert("min_fee_msat"@[4] != "min_lifetime"@[4]);
    assert("proportional"@[0] != "min_lifetime"@[0]);
    lemma_number_round_trip(offer.terms.min_fee_msat as nat, 0xffff_ffff_ffff_ffff);
    lemma_number_round_trip(offer.terms.proportional as nat, 0xffff_ffff);
    lemma_number_round_trip(offer.terms.min_lifetime as nat, 0xffff_ffff);
    lemma_number_round_trip(offer.terms.max_client_to_self_delay as nat, 0xffff_ffff);
    lemma_timestamp_round_trip(offer.terms.valid_until);
    let json = offer_json(offer);
    assert(member(json, "min_fee_msat"@) == Some(number_value(offer.terms.min_fee_msat as nat)));
    assert(member(json, "proportional"@) == Some(number_value(offer.terms.proportional as nat)));
    assert(member(json, "valid_until"@) == Some(
        JsonValue::String(canonical_rfc3339(offer.terms.valid_until)),
    ));
    assert(member(json, "min_lifetime"@) == Some(number_value(offer.terms.min_lifetime as nat)));
    assert(member(json, "max_client_to_self_delay"@) == Some(
        number_value(offer.terms.max_client_to_self_delay as nat),
    ));
    assert(member(json, "promise"@) == Some(JsonValue::String(offer.promise)));
}

/// A written menu of offers reads back as itself.
pub proof fn lemma_menu_round_trip(menu: Seq<OpeningFeeOffer>)
    requires
        forall|i: int| 0 <= i < menu.len() ==> offer_well_formed(#[trigger] menu[i]),
    ensures
        menu_of_json(menu_json(menu)) == Some(menu),
{
    let items = menu_json(menu)->Array_0;
    assert forall|i: int| 0 <= i < items.len() implies offer_of_json(#[trigger] items[i]) == Some(
        menu[i],
    ) by {
        lemma_offer_round_trip(menu[i]);
    }
    assert(menu_of_json(menu_json(menu))->0 =~= menu);
}

/// The four method names differ from one another.
pub proof fn lemma_method_names_differ()
    ensures
        "lsps0.list_protocols"@ != "lsps2.get_versions"@,
        "lsps0.list_protocols"@ != "lsps2.get_info"@,
        "lsps0.list_protocols"@ != "lsps2.buy"@,
        "lsps2.get_versions"@ != "lsps2.get_info"@,
        "lsps2.get_versions"@ != "lsps2.buy"@,
        "lsps2.get_info"@ != "lsps2.buy"@,
{
    reveal_strlit("lsps0.list_protocols");
    assert("lsps0.list_protocols"@.len() == 20);
    reveal_strlit("lsps2.get_versions");
    assert("lsps2.get_versions"@.len() == 18);
    reveal_strlit("lsps2.get_info");
    assert("lsps2.get_info"@.len() == 14);
    reveal_strlit("lsps2.buy");
    assert("lsps2.buy"@.len() == 9);
}

/// The written parameters of a request read back as the request.
pub proof fn lemma_request_round_trip(request: RequestValue)
    requires
        request matches RequestValue::Buy { opening_fee_params, .. } ==> offer_well_formed(
            opening_fee_params,
        ),
    ensures
        request_of_json(request.method(), Some(request_params_json(request))) == Some(request),
{
    lemma_method_names_differ();
    reveal_strlit("version");
    assert("version"@.len() == 7);
    reveal_strlit("token");
    assert("token"@.len() == 5);
    reveal_strlit("opening_fee_params");
    assert("opening_fee_params"@.len() == 18);
    reveal_strlit("payment_size_msat");
    assert("payment_size_msat"@.len() == 17);
    reveal_with_fuel(lookup, 4);
    let json = request_params_json(request);
    match request {
        RequestValue::GetInfo { version, token } => {
            lemma_number_round_trip(version as nat, 0xffff);
            assert(member(json, "version"@) == Some(number_value(version as nat)));
            match token {
                Some(token) => {
                    assert(member(json, "token"@) == Some(JsonValue::String(token)));
                },
                None => {
                    assert(member(json, "token"@) is None);
                },
            }
        },
        RequestValue::Buy { version, opening_fee_params, payment_size_msat } => {
            lemma_number_round_trip(version as nat, 0xffff);
            lemma_offer_round_trip(opening_fee_params);
            assert(member(json, "version"@) == Some(number_value(version as nat)));
            assert(member(json, "opening_fee_params"@) == Some(offer_json(opening_fee_params)));
            match payment_size_msat {
                Some(size) => {
                    lemma_number_round_trip(size as nat, 0xffff_ffff_ffff_ffff);
                    assert(member(json, "payment_size_msat"@) == Some(number_value(size as nat)));
                },
                None => {
                    assert(member(json, "payment_size_msat"@) is None);
                },
            }
        },
        _ => {},
    }
}

/// The written result or error of a response reads back as the response.
pub proof fn lemma_response_round_trip(response: ResponseValue)
    requires
        response matches ResponseValue::GetInfo { opening_fee_params_menu, .. } ==> forall|i: int|
            0 <= i < opening_fee_params_menu.len() ==> offer_well_formed(
                #[trigger] opening_fee_params_menu[i],
            ),
    ensures
        is_error_response(response) ==> response_of_json(
            response.method(),
            None,
            Some(result_json(response)),
        ) == Some(response),
        !is_error_response(response) ==> response_of_json(
            response.method(),
            Some(result_json(response)),
            None,
        ) == Some(response),
{
    lemma_method_names_differ();
    reveal_strlit("protocols");
    assert("protocols"@.len() == 9);
    reveal_strlit("versions");
    assert("versions"@.len() == 8);
    reveal_strlit("opening_fee_params_menu");
    assert("opening_fee_params_menu"@.len() == 23);
    reveal_strlit("min_payment_size_msat");
    assert("min_payment_size_msat"@.len() == 21);
    reveal_strlit("max_payment_size_msat");
    assert("max_payment_size_msat"@.len() == 21);
    reveal_strlit("jit_channel_scid");
    assert("jit_channel_scid"@.len() == 16);
    reveal_strlit("lsp_cltv_expiry_delta");
    assert("lsp_cltv_expiry_delta"@.len() == 21);
    reveal_strlit("client_trusts_lsp");
    assert("client_trusts_lsp"@.len() == 17);
    reveal_with_fuel(lookup, 4);
    assert("min_payment_size_msat"@[1] != "max_payment_size_msat"@[1]);
    let json = result_json(response);
    match response {
        ResponseValue::ListProtocols(protocols) => {
            lemma_numbers_round_trip(protocols);
            assert(member(json, "protocols"@) == Some(numbers_json(protocols)));
        },
        ResponseValue::GetVersions(versions) => {
            lemma_numbers_round_trip(versions);
            assert(member(json, "versions"@) == Some(numbers_json(versions)));
        },
        ResponseValue::GetInfo {
            opening_fee_params_menu,
            min_payment_size_msat,
            max_payment_size_msat,
        } => {
            lemma_menu_round_trip(opening_fee_params_menu);
            lemma_number_round_trip(min_payment_size_msat as nat, 0xffff_ffff_ffff_ffff);
            lemma_number_round_trip(max_payment_size_msat as nat, 0xffff_ffff_ffff_ffff);
            assert(member(json, "opening_fee_params_menu"@) == Some(
                menu_json(opening_fee_params_menu),
            ));
            assert(member(json, "min_payment_size_msat"@) == Some(
                number_value(min_payment_size_msat as nat),
            ));
            assert(member(json, "max_payment_size_msat"@) == Some(
                number_value(max_payment_size_msat as nat),
            ));
        },
        ResponseValue::Buy { jit_channel_scid, lsp_cltv_expiry_delta, client_trusts_lsp } => {
            lemma_number_round_trip(lsp_cltv_expiry_delta as nat, 0xffff_ffff);
            assert(member(json, "jit_channel_scid"@) == Some(JsonValue::String(jit_channel_scid)));
            assert(member(json, "lsp_cltv_expiry_delta"@) == Some(
                number_value(lsp_cltv_expiry_delta as nat),
            ));
            assert(member(json, "client_trusts_lsp"@) == Some(JsonValue::Bool(client_trusts_lsp)));
        },
        ResponseValue::ListProtocolsError(error) => {
            lemma_error_round_trip(error);
        },
        ResponseValue::GetInfoError(error) => {
            lemma_error_round_trip(error);
        },
        ResponseValue::BuyError(error) => {
            lemma_error_round_trip(error);
        },
    }
}

/// Reading what was written for a message gives the message back.
///
/// This holds of every message whose offers are well formed. For a response,
/// the map has to hold the method of the request that it answers.
pub proof fn lemma_message_round_trip(message: MessageValue, methods: Map<Seq<char>, Seq<char>>)
    requires
        message_well_formed(message),
        message matches MessageValue::Response(id, response) ==> methods.contains_key(id)
            && methods[id] == response.method(),
    ensures
        message_of_json(message_json(message), methods) == Some(message),
{
    reveal_strlit("jsonrpc");
    assert("jsonrpc"@.len() == 7);
    reveal_strlit("method");
    assert("method"@.len() == 6);
    reveal_strlit("id");
    assert("id"@.len() == 2);
    reveal_strlit("params");
    assert("params"@.len() == 6);
    reveal_strlit("result");
    assert("result"@.len() == 6);
    reveal_strlit("error");
    assert("error"@.len() == 5);
    reveal_with_fuel(lookup, 5);
    assert("method"@[0] != "params"@[0]);
    assert("method"@[0] != "result"@[0]);
    assert("params"@[0] != "result"@[0]);
    let json = message_json(message);
    assert(member(json, "jsonrpc"@) == Some(JsonValue::String("2.0"@)));
    match message {
        MessageValue::Invalid => {
            lemma_error_round_trip(invalid_message_error());
            assert(member(json, "id"@) == Some(JsonValue::Null));
            assert(member(json, "method"@) is None);
            assert(member(json, "error"@) == Some(error_json(invalid_message_error())));
        },
        MessageValue::Request(id, request) => {
            lemma_request_round_trip(request);
            assert(member(json, "id"@) == Some(JsonValue::String(id)));
            assert(member(json, "method"@) == Some(JsonValue::String(request.method())));
            assert(member(json, "params"@) == Some(request_params_json(request)));
            assert(optional(member(json, "params"@)) == Some(request_params_json(request)));
        },
        MessageValue::Response(id, response) => {
            lemma_response_round_trip(response);
            assert(member(json, "id"@) == Some(JsonValue::String(id)));
            assert(member(json, "method"@) is None);
            if is_error_response(response) {
                assert(member(json, "error"@) == Some(result_json(response)));
                assert(member(json, "result"@) is None);
            } else {
                assert(member(json, "result"@) == Some(result_json(response)));
                assert(member(json, "error"@) is None);
            }
        },
    }
}

/// What reading the document of a message does to the map: the document of a
/// response takes the id of its request out, any other leaves the map as it
/// was.
pub proof fn lemma_methods_after_written(message: MessageValue, methods: Map<Seq<char>, Seq<char>>)
    ensures
        methods_after(message_json(message), methods) == (match message {
            MessageValue::Response(id, _) => methods.remove(id),
            _ => methods,
        }),
{
    reveal_strlit("jsonrpc");
    assert("jsonrpc"@.len() == 7);
    reveal_strlit("method");
    assert("method"@.len() == 6);
    reveal_strlit("id");
    assert("id"@.len() == 2);
    reveal_strlit("params");
    assert("params"@.len() == 6);
    reveal_strlit("result");
    assert("result"@.len() == 6);
    reveal_strlit("error");
    assert("error"@.len() == 5);
    reveal_with_fuel(lookup, 5);
    assert("method"@[0] != "params"@[0]);
    assert("method"@[0] != "result"@[0]);
    let json = message_json(message);
    assert(member(json, "jsonrpc"@) == Some(JsonValue::String("2.0"@)));
    match message {
        MessageValue::Invalid => {
            assert(member(json, "id"@) == Some(JsonValue::Null));
        },
        MessageValue::Request(id, request) => {
            assert(member(json, "id"@) == Some(JsonValue::String(id)));
            assert(member(json, "method"@) == Some(JsonValue::String(request.method())));
        },
        MessageValue::Response(id, response) => {
            assert(member(json, "id"@) == Some(JsonValue::String(id)));
            assert(member(json, "method"@) is None);
        },
    }
}

/// Once a response has been read, its id is no longer in the map.
pub proof fn lemma_response_leaves_map(
    json: JsonValue,
    methods: Map<Seq<char>, Seq<char>>,
    id: Seq<char>,
    response: ResponseValue,
)
    requires
        message_of_json(json, methods) == Some(MessageValue::Response(id, response)),
    ensures
        !methods_after(json, methods).contains_key(id),
{
}

/// Reading a request leaves the map as it was.
pub proof fn lemma_request_keeps_map(
    json: JsonValue,
    methods: Map<Seq<char>, Seq<char>>,
    id: Seq<char>,
    request: RequestValue,
)
    requires
        message_of_json(json, methods) == Some(MessageValue::Request(id, request)),
    ensures
        methods_after(json, methods) == methods,
{
}

/// Documents that hold the same are read alike where a scalar is asked for.
pub proof fn lemma_same_members_scalars(a: JsonValue, b: JsonValue)
    requires
        same_members(a, b),
    ensures
        as_text(a) == as_text(b),
        as_bool(a) == as_bool(b),
        as_i32(a) == as_i32(b),
        forall|max: nat| #[trigger] as_number(a, max) == as_number(b, max),
        a is Null <==> b is Null,
        a is Object <==> b is Object,
{
}

/// Documents that hold the same give, for every name, members that are read
/// alike where a scalar is asked for, or none.
pub proof fn lemma_same_members_reads(a: JsonValue, b: JsonValue)
    requires
        same_members(a, b),
    ensures
        forall|key: Seq<char>|
            (match #[trigger] member(a, key) {
                Some(value) => member(b, key) matches Some(other) && same_members(value, other),
                None => member(b, key) is None,
            }),
        forall|key: Seq<char>|
            (match #[trigger] optional(member(a, key)) {
                Some(value) => optional(member(b, key)) matches Some(other) && same_members(
                    value,
                    other,
                ),
                None => optional(member(b, key)) is None,
            }),
        forall|key: Seq<char>| #[trigger] member_text(a, key) == member_text(b, key),
        forall|key: Seq<char>, max: nat|
            #[trigger] member_number(a, key, max) == member_number(b, key, max),
{
    assert forall|key: Seq<char>|
        (match #[trigger] member(a, key) {
            Some(value) => member(b, key) matches Some(other) && same_members(value, other),
            None => member(b, key) is None,
        }) by {
        lemma_same_members_member(a, b, key);
    }
    assert forall|key: Seq<char>|
        (match #[trigger] optional(member(a, key)) {
            Some(value) => optional(member(b, key)) matches Some(other) && same_members(
                value,
                other,
            ),
            None => optional(member(b, key)) is None,
        }) by {
        lemma_same_members_member(a, b, key);
        if member(a, key) is Some {
            lemma_same_members_scalars(member(a, key)->0, member(b, key)->0);
        }
    }
    assert forall|key: Seq<char>| #[trigger] member_text(a, key) == member_text(b, key) by {
        lemma_same_members_member(a, b, key);
        if member(a, key) is Some {
            lemma_same_members_scalars(member(a, key)->0, member(b, key)->0);
        }
    }
    assert forall|key: Seq<char>, max: nat|
        #[trigger] member_number(a, key, max) == member_number(b, key, max) by {
        lemma_same_members_member(a, b, key);
        if member(a, key) is Some {
            lemma_same_members_scalars(member(a, key)->0, member(b, key)->0);
        }
    }
}

/// Documents that hold the same stand for the same list of 16-bit numbers.
pub proof fn lemma_same_members_numbers(a: JsonValue, b: JsonValue)
    requires
        same_members(a, b),
    ensures
        numbers_of_json(a) == numbers_of_json(b),
{
    match a {
        JsonValue::Array(items) => {
            let others = b->Array_0;
            assert forall|i: int| 0 <= i < items.len() implies as_number(
                #[trigger] items[i],
                0xffff,
            ) == as_number(others[i], 0xffff) by {
                lemma_same_members_scalars(items[i], others[i]);
            }
            if numbers_of_json(a) is Some {
                assert forall|i: int| 0 <= i < others.len() implies as_number(
                    #[trigger] others[i],
                    0xffff,
                ) is Some by {
                    assert(as_number(items[i], 0xffff) is Some);
                }
                assert(numbers_of_json(a)->0 =~= numbers_of_json(b)->0);
            } else {
                let i = choose|i: int| 0 <= i < items.len() && !(as_number(
                    #[trigger] items[i],
                    0xffff,
                ) is Some);
                assert(!(as_number(others[i], 0xffff) is Some));
            }
        },
        _ => {},
    }
}

/// Documents that hold the same stand for the same error.
pub proof fn lemma_same_members_error(a: JsonValue, b: JsonValue)
    requires
        same_members(a, b),
    ensures
        error_of_json(a) == error_of_json(b),
{
    lemma_same_members_reads(a, b);
    if member(a, "code"@) is Some {
        lemma_same_members_scalars(member(a, "code"@)->0, member(b, "code"@)->0);
    }
    if member(a, "message"@) is Some {
        lemma_same_members_scalars(member(a, "message"@)->0, member(b, "message"@)->0);
    }
    if optional(member(a, "data"@)) is Some {
        lemma_same_members_scalars(
            optional(member(a, "data"@))->0,
            optional(member(b, "data"@))->0,
        );
    }
}

/// Documents that hold the same stand for the same offer.
pub proof fn lemma_same_members_offer(a: JsonValue, b: JsonValue)
    requires
        same_members(a, b),
    ensures
        offer_of_json(a) == offer_of_json(b),
{
    lemma_same_members_reads(a, b);
}

/// Documents that hold the same stand for the same menu of offers.
pub proof fn lemma_same_members_menu(a: JsonValue, b: JsonValue)
    requires
        same_members(a, b),
    ensures
        menu_of_json(a) == menu_of_json(b),
{
    match a {
        JsonValue::Array(items) => {
            let others = b->Array_0;
            assert forall|i: int| 0 <= i < items.len() implies offer_of_json(#[trigger] items[i])
                == offer_of_json(others[i]) by {
                lemma_same_members_offer(items[i], others[i]);
            }
            if menu_of_json(a) is Some {
                assert forall|i: int| 0 <= i < others.len() implies offer_of_json(
                    #[trigger] others[i],
                ) is Some by {
                    assert(offer_of_json(items[i]) is Some);
                }
                assert(menu_of_json(a)->0 =~= menu_of_json(b)->0);
            } else {
                let i = choose|i: int| 0 <= i < items.len() && !(offer_of_json(
                    #[trigger] items[i],
                ) is Some);
                assert(!(offer_of_json(others[i]) is Some));
            }
        },
        _ => {},
    }
}

/// Parameters that hold the same stand for the same request.
pub proof fn lemma_same_members_request(
    method: Seq<char>,
    a: Option<JsonValue>,
    b: Option<JsonValue>,
)
    requires
        a is Some <==> b is Some,
        a matches Some(params) ==> same_members(params, b->0),
    ensures
        request_of_json(method, a) == request_of_json(method, b),
{
    if let Some(params) = a {
        let others = b->0;
        lemma_same_members_scalars(params, others);
        lemma_same_members_reads(params, others);
        if optional(member(params, "token"@)) is Some {
            lemma_same_members_scalars(
                optional(member(params, "token"@))->0,
                optional(member(others, "token"@))->0,
            );
        }
        if optional(member(params, "payment_size_msat"@)) is Some {
            lemma_same_members_scalars(
                optional(member(params, "payment_size_msat"@))->0,
                optional(member(others, "payment_size_msat"@))->0,
            );
        }
        if member(params, "opening_fee_params"@) is Some {
            lemma_same_members_offer(
                member(params, "opening_fee_params"@)->0,
                member(others, "opening_fee_params"@)->0,
            );
        }
    }
}

/// A result or an error that hold the same stand for the same response.
pub proof fn lemma_same_members_response(
    method: Seq<char>,
    result_a: Option<JsonValue>,
    result_b: Option<JsonValue>,
    error_a: Option<JsonValue>,
    error_b: Option<JsonValue>,
)
    requires
        result_a is Some <==> result_b is Some,
        result_a matches Some(result) ==> same_members(result, result_b->0),
        error_a is Some <==> error_b is Some,
        error_a matches Some(error) ==> same_members(error, error_b->0),
    ensures
        response_of_json(method, result_a, error_a) == response_of_json(
            method,
            result_b,
            error_b,
        ),
{
    if let Some(error) = error_a {
        lemma_same_members_error(error, error_b->0);
    }
    if let Some(result) = result_a {
        let other = result_b->0;
        lemma_same_members_reads(result, other);
        if member(result, "protocols"@) is Some {
            lemma_same_members_numbers(
                member(result, "protocols"@)->0,
                member(other, "protocols"@)->0,
            );
        }
        if member(result, "versions"@) is Some {
            lemma_same_members_numbers(
                member(result, "versions"@)->0,
                member(other, "versions"@)->0,
            );
        }
        if member(result, "opening_fee_params_menu"@) is Some {
            lemma_same_members_menu(
                member(result, "opening_fee_params_menu"@)->0,
                member(other, "opening_fee_params_menu"@)->0,
            );
        }
        if optional(member(result, "client_trusts_lsp"@)) is Some {
            lemma_same_members_scalars(
                optional(member(result, "client_trusts_lsp"@))->0,
                optional(member(other, "client_trusts_lsp"@))->0,
            );
        }
    }
}

/// Documents are read by the names of their members alone: two that hold the
/// same stand for the same message and leave the same requests waiting,
/// whatever the order of their members.
pub proof fn lemma_read_by_name(a: JsonValue, b: JsonValue, methods: Map<Seq<char>, Seq<char>>)
    requires
        same_members(a, b),
    ensures
        message_of_json(a, methods) == message_of_json(b, methods),
        methods_after(a, methods) == methods_after(b, methods),
{
    lemma_same_members_reads(a, b);
    let id_a = optional(member(a, "id"@));
    let id_b = optional(member(b, "id"@));
    let method_a = optional(member(a, "method"@));
    let method_b = optional(member(b, "method"@));
    if id_a is Some {
        lemma_same_members_scalars(id_a->0, id_b->0);
    }
    if method_a is Some {
        lemma_same_members_scalars(method_a->0, method_b->0);
        if as_text(method_a->0) is Some {
            lemma_same_members_request(
                as_text(method_a->0)->0,
                optional(member(a, "params"@)),
                optional(member(b, "params"@)),
            );
        }
    }
    if id_a is Some && as_text(id_a->0) is Some && methods.contains_key(as_text(id_a->0)->0) {
        lemma_same_members_response(
            methods[as_text(id_a->0)->0],
            optional(member(a, "result"@)),
            optional(member(b, "result"@)),
            optional(member(a, "error"@)),
            optional(member(b, "error"@)),
        );
    }
    if optional(member(a, "error"@)) is Some {
        lemma_same_members_error(
            optional(member(a, "error"@))->0,
            optional(member(b, "error"@))->0,
        );
    }
}

/// Reading any document that holds the same as the one written for a message
/// gives the message back, whatever the order of its members.
///
/// This holds of every message whose offers are well formed. For a response,
/// the map has to hold the method of the request that it answers.
pub proof fn lemma_message_read_back(
    json: JsonValue,
    message: MessageValue,
    methods: Map<Seq<char>, Seq<char>>,
)
    requires
        same_members(json, message_json(message)),
        message_well_formed(message),
        message matches MessageValue::Response(id, response) ==> methods.contains_key(id)
            && methods[id] == response.method(),
    ensures
        message_of_json(json, methods) == Some(message),
        methods_after(json, methods) == (match message {
            MessageValue::Response(id, _) => methods.remove(id),
            _ => methods,
        }),
{
    lemma_read_by_name(json, message_json(message), methods);
    lemma_message_round_trip(message, methods);
    lemma_methods_after_written(message, methods);
}

} // verus!
