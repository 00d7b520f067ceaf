//! Reading and writing the JSON form of the messages. What is written and what
//! is read is specified in [`crate::transport::format`].

use crate::jit_channel::msgs::{
    menu_value, BuyRequest, BuyResponse, GetInfoRequest, GetInfoResponse, GetVersionsRequest,
    GetVersionsResponse, JitChannelScid, LSPS2Message, LSPS2Request, LSPS2Response,
    OpeningFeeParams,
};
use crate::json::{
    as_number, json_of_text, json_value, member, number_value, text_of_json, Json, JsonValue,
};
use crate::time::Timestamp;
use crate::transport::format::{
    as_bool, as_i32, as_text, error_json, error_of_json, failure_of_json, int_text,
    lemma_int_text_ascii, lemma_int_text_injective, member_number, member_text, menu_json,
    menu_of_json, message_json, message_of_json, message_well_formed, methods_after,
    numbers_json, numbers_of_json, offer_json, offer_of_json, offer_well_formed, optional,
    request_of_json, request_params_json, result_json, success_of_json,
};
use crate::transport::msgs::{
    LSPS0Message, LSPS0Request, LSPS0Response, LSPSMessage, ListProtocolsRequest,
    ListProtocolsResponse, MessageValue, RequestId, RequestIdMap, RequestValue, ResponseError,
    ResponseValue,
};
use crate::utils::{
    decimal_text, format_decimal, lemma_decimal_text_injective, parse_decimal_in, same_text,
};
use vstd::prelude::*;
use vstd::string::*;

verus! {

/// The document that stands for a 32-bit integer.
fn i32_to_json(n: i32) -> (json: Json)
    ensures
        json@ == JsonValue::Number(int_text(n as int)),
{
    if n < 0 {
        proof {
            reveal_strlit("-");
        }
        let magnitude: u64 = (-(n as i64)) as u64;
        let mut text = String::from_str("-");
        text.append(format_decimal(magnitude).as_str());
        assert(text@ =~= int_text(n as int));
        Json::Number(text)
    } else {
        Json::Number(format_decimal(n as u64))
    }
}

/// The 32-bit integer that a document stands for.
fn i32_from_json(json: &Json) -> (res: Option<i32>)
    ensures
        res == as_i32(json@),
{
    broadcast use is_ascii_spec_bytes;

    let text = match json {
        Json::Number(text) => text.as_str(),
        _ => {
            return None;
        },
    };
    if !text.is_ascii() {
        assert forall|n: i32| int_text(n as int) != text@ by {
            lemma_int_text_ascii(n as int);
        }
        return None;
    }
    let bytes = text.as_bytes();
    let len = bytes.len();
    if len > 0 && bytes[0] == 45 {
        assert(text@[0] == '-');
        let ghost rest = text@.subrange(1, len as int);
        match parse_decimal_in(text, 1, len, 0x8000_0000) {
            Some(magnitude) => {
                if magnitude == 0 {
                    assert forall|n: i32| int_text(n as int) != text@ by {
                        if int_text(n as int) == text@ {
                            lemma_int_text_ascii(n as int);
                            assert(n < 0);
                            assert(decimal_text((-n) as nat) =~= rest);
                            lemma_decimal_text_injective((-n) as nat, 0);
                        }
                    }
                    return None;
                }
                let n: i32 = (-(magnitude as i64)) as i32;
                assert(int_text(n as int) =~= text@);
                proof {
                    let m = choose|m: i32| int_text(m as int) == text@;
                    lemma_int_text_injective(m as int, n as int);
                }
                Some(n)
            },
            None => {
                assert forall|n: i32| int_text(n as int) != text@ by {
                    if int_text(n as int) == text@ {
                        lemma_int_text_ascii(n as int);
                        assert(n < 0);
                        assert(decimal_text((-n) as nat) =~= rest);
                    }
                }
                None
            },
        }
    } else {
        assert(text@.subrange(0, len as int) =~= text@);
        match parse_decimal_in(text, 0, len, 0x7fff_ffff) {
            Some(value) => {
                let n: i32 = value as i32;
                assert(int_text(n as int) =~= text@);
                proof {
                    let m = choose|m: i32| int_text(m as int) == text@;
                    lemma_int_text_injective(m as int, n as int);
                }
                Some(n)
            },
            None => {
                assert forall|n: i32| int_text(n as int) != text@ by {
                    if int_text(n as int) == text@ {
                        lemma_int_text_ascii(n as int);
                        if n < 0 {
                            assert(text@[0] == '-');
                            assert(bytes@[0] == text@[0] as u8);
                        }
                    }
                }
                None
            },
        }
    }
}

/// The text that a document holds, where it is a string.
fn text_from_json(json: &Json) -> (res: Option<String>)
    ensures
        match res {
            Some(text) => as_text(json@) == Some(text@),
            None => as_text(json@) is None,
        },
{
    match json {
        Json::String(text) => Some(text.clone()),
        _ => None,
    }
}

/// The truth value that a document holds, where it is one.
fn bool_from_json(json: &Json) -> (res: Option<bool>)
    ensures
        res == as_bool(json@),
{
    match json {
        Json::Bool(b) => Some(*b),
        _ => None,
    }
}

/// The value of a field that may be left out.
fn get_optional<'a>(json: &'a Json, key: &str) -> (res: Option<&'a Json>)
    ensures
        match res {
            Some(found) => optional(member(json@, key@)) == Some(found@),
            None => optional(member(json@, key@)) is None,
        },
{
    match json.get(key) {
        Some(Json::Null) => None,
        other => other,
    }
}

impl ResponseError {
    /// The document that stands for this error.
    pub fn to_json(&self) -> (json: Json)
        ensures
            json@ == error_json(self@),
    {
        let mut fields: Vec<(String, Json)> = Vec::new();
        fields.push(("code".to_owned(), i32_to_json(self.code)));
        fields.push(("message".to_owned(), Json::String(self.message.clone())));
        match &self.data {
            Some(data) => {
                fields.push(("data".to_owned(), Json::String(data.clone())));
            },
            None => {},
        }
        let json = Json::Object(fields);
        proof {
            reveal_with_fuel(json_value, 2);
            assert(json@->Object_0 =~= error_json(self@)->Object_0);
        }
        json
    }

    /// The error that a document stands for.
    pub fn from_json(json: &Json) -> (res: Option<ResponseError>)
        ensures
            match res {
                Some(error) => error_of_json(json@) == Some(error@),
                None => error_of_json(json@) is None,
            },
    {
        let code = match json.get("code") {
            Some(code) => match i32_from_json(code) {
                Some(code) => code,
                None => {
                    return None;
                },
            },
            None => {
                return None;
            },
        };
        let message = match json.get("message") {
            Some(message) => match text_from_json(message) {
                Some(message) => message,
                None => {
                    return None;
                },
            },
            None => {
                return None;
            },
        };
        let data = match get_optional(json, "data") {
            Some(data) => match text_from_json(data) {
                Some(data) => Some(data),
                None => {
                    return None;
                },
            },
            None => None,
        };
        Some(ResponseError { code, message, data })
    }
}

/// The natural number up to `max` in the field `key` of an object.
fn get_number(json: &Json, key: &str, max: u64) -> (res: Option<u64>)
    ensures
        match res {
            Some(n) => member_number(json@, key@, max as nat) == Some(n as nat),
            None => member_number(json@, key@, max as nat) is None,
        },
{
    match json.get(key) {
        Some(value) => value.as_u64(max),
        None => None,
    }
}

/// The text in the field `key` of an object.
fn get_text(json: &Json, key: &str) -> (res: Option<String>)
    ensures
        match res {
            Some(text) => member_text(json@, key@) == Some(text@),
            None => member_text(json@, key@) is None,
        },
{
    match json.get(key) {
        Some(value) => text_from_json(value),
        None => None,
    }
}

/// The document that stands for a list of 16-bit numbers.
fn numbers_to_json(list: &Vec<u16>) -> (json: Json)
    ensures
        json@ == numbers_json(list@),
{
    let mut items: Vec<Json> = Vec::new();
    let mut i: usize = 0;
    while i < list.len()
        invariant
            i <= list.len(),
            items.len() == i,
            forall|j: int| 0 <= j < i ==> items@[j]@ == number_value(list@[j] as nat),
        decreases list.len() - i,
    {
        items.push(Json::from_u64(list[i] as u64));
        i += 1;
    }
    let json = Json::Array(items);
    assert(json@->Array_0 =~= numbers_json(list@)->Array_0);
    json
}

/// The list of 16-bit numbers that a document stands for.
fn numbers_from_json(json: &Json) -> (res: Option<Vec<u16>>)
    ensures
        match res {
            Some(list) => numbers_of_json(json@) == Some(list@),
            None => numbers_of_json(json@) is None,
        },
{
    let items = match json {
        Json::Array(items) => items,
        _ => {
            return None;
        },
    };
    let ghost values = json@->Array_0;
    assert(values.len() == items@.len());
    assert(forall|j: int| 0 <= j < items@.len() ==> #[trigger] values[j] == items@[j]@);
    let mut list: Vec<u16> = Vec::new();
    let mut i: usize = 0;
    while i < items.len()
        invariant
            i <= items.len(),
            list.len() == i,
            json@ == JsonValue::Array(values),
            values.len() == items@.len(),
            forall|j: int| 0 <= j < items@.len() ==> #[trigger] values[j] == items@[j]@,
            forall|j: int| 0 <= j < i ==> as_number(#[trigger] values[j], 0xffff) == Some(list@[j] as nat),
        decreases items.len() - i,
    {
        match items[i].as_u64(0xffff) {
            Some(n) => {
                list.push(n as u16);
            },
            None => {
                assert(as_number(values[i as int], 0xffff) is None);
                return None;
            },
        }
        i += 1;
    }
    assert(numbers_of_json(json@)->0 =~= list@);
    Some(list)
}

impl OpeningFeeParams {
    /// The document that stands for this offer.
    pub fn to_json(&self) -> (json: Json)
        ensures
            json@ == offer_json(self@),
            offer_well_formed(self@),
    {
        let mut fields: Vec<(String, Json)> = Vec::new();
        fields.push(("min_fee_msat".to_owned(), Json::from_u64(self.min_fee_msat)));
        fields.push(("proportional".to_owned(), Json::from_u64(self.proportional as u64)));
        fields.push(("valid_until".to_owned(), Json::String(self.valid_until.to_rfc3339())));
        fields.push(("min_lifetime".to_owned(), Json::from_u64(self.min_lifetime as u64)));
        fields.push(
            (
                "max_client_to_self_delay".to_owned(),
                Json::from_u64(self.max_client_to_self_delay as u64),
            ),
        );
        fields.push(("promise".to_owned(), Json::String(self.promise.clone())));
        let json = Json::Object(fields);
        proof {
            reveal_with_fuel(json_value, 2);
            assert(json@->Object_0 =~= offer_json(self@)->Object_0);
        }
        json
    }

    /// The offer that a document stands for.
    pub fn from_json(json: &Json) -> (res: Option<OpeningFeeParams>)
        ensures
            match res {
                Some(offer) => offer_of_json(json@) == Some(offer@),
                None => offer_of_json(json@) is None,
            },
    {
        let min_fee_msat = get_number(json, "min_fee_msat", u64::MAX)?;
        let proportional = get_number(json, "proportional", 0xffff_ffff)?;
        let valid_until_text = get_text(json, "valid_until")?;
        let min_lifetime = get_number(json, "min_lifetime", 0xffff_ffff)?;
        let max_client_to_self_delay = get_number(json, "max_client_to_self_delay", 0xffff_ffff)?;
        let promise = get_text(json, "promise")?;
        let valid_until = Timestamp::parse_from_rfc3339(valid_until_text.as_str())?;
        Some(
            OpeningFeeParams {
                min_fee_msat,
                proportional: proportional as u32,
                valid_until,
                min_lifetime: min_lifetime as u32,
                max_client_to_self_delay: max_client_to_self_delay as u32,
                promise,
            },
        )
    }
}

/// The document that stands for a menu of offers.
pub fn menu_to_json(menu: &Vec<OpeningFeeParams>) -> (json: Json)
    ensures
        json@ == menu_json(menu_value(menu@)),
        forall|i: int|
            0 <= i < menu_value(menu@).len() ==> offer_well_formed(#[trigger] menu_value(menu@)[i]),
{
    let mut items: Vec<Json> = Vec::new();
    let mut i: usize = 0;
    while i < menu.len()
        invariant
            i <= menu.len(),
            items.len() == i,
            forall|j: int| 0 <= j < i ==> items@[j]@ == offer_json(menu@[j]@),
            forall|j: int| 0 <= j < i ==> offer_well_formed(#[trigger] menu@[j]@),
        decreases menu.len() - i,
    {
        items.push(menu[i].to_json());
        i += 1;
    }
    let json = Json::Array(items);
    assert(json@->Array_0 =~= menu_json(menu_value(menu@))->Array_0);
    json
}

/// The menu of offers that a document stands for.
pub fn menu_from_json(json: &Json) -> (res: Option<Vec<OpeningFeeParams>>)
    ensures
        match res {
            Some(menu) => menu_of_json(json@) == Some(menu_value(menu@)),
            None => menu_of_json(json@) is None,
        },
{
    let items = match json {
        Json::Array(items) => items,
        _ => {
            return None;
        },
    };
    let ghost values = json@->Array_0;
    assert(values.len() == items@.len());
    assert(forall|j: int| 0 <= j < items@.len() ==> #[trigger] values[j] == items@[j]@);
    let mut menu: Vec<OpeningFeeParams> = Vec::new();
    let mut i: usize = 0;
    while i < items.len()
        invariant
            i <= items.len(),
            menu.len() == i,
            json@ == JsonValue::Array(values),
            values.len() == items@.len(),
            forall|j: int| 0 <= j < items@.len() ==> #[trigger] values[j] == items@[j]@,
            forall|j: int| 0 <= j < i ==> offer_of_json(#[trigger] values[j]) == Some(menu@[j]@),
        decreases items.len() - i,
    {
        match OpeningFeeParams::from_json(&items[i]) {
            Some(offer) => {
                menu.push(offer);
            },
            None => {
                assert(offer_of_json(values[i as int]) is None);
                return None;
            },
        }
        i += 1;
    }
    assert(menu_of_json(json@)->0 =~= menu_value(menu@));
    Some(menu)
}

/// The JSON-RPC object of a request.
fn request_to_json(request_id: &RequestId, method: &str, params: Json) -> (json: Json)
    ensures
        json@ == JsonValue::Object(
            seq![
                ("jsonrpc"@, JsonValue::String("2.0"@)),
                ("method"@, JsonValue::String(method@)),
                ("id"@, JsonValue::String(request_id@)),
                ("params"@, params@),
            ],
        ),
{
    let mut fields: Vec<(String, Json)> = Vec::new();
    fields.push(("jsonrpc".to_owned(), Json::from_str("2.0")));
    fields.push(("method".to_owned(), Json::from_str(method)));
    fields.push(("id".to_owned(), Json::from_str(request_id.0.as_str())));
    fields.push(("params".to_owned(), params));
    let json = Json::Object(fields);
    assert(json@->Object_0 =~= seq![
        ("jsonrpc"@, JsonValue::String("2.0"@)),
        ("method"@, JsonValue::String(method@)),
        ("id"@, JsonValue::String(request_id@)),
        ("params"@, params@),
    ]);
    json
}

/// The JSON-RPC object of a response, whose result or error goes under `key`.
fn response_to_json(request_id: &RequestId, key: &str, payload: Json) -> (json: Json)
    ensures
        json@ == JsonValue::Object(
            seq![
                ("jsonrpc"@, JsonValue::String("2.0"@)),
                ("id"@, JsonValue::String(request_id@)),
                (key@, payload@),
            ],
        ),
{
    let mut fields: Vec<(String, Json)> = Vec::new();
    fields.push(("jsonrpc".to_owned(), Json::from_str("2.0")));
    fields.push(("id".to_owned(), Json::from_str(request_id.0.as_str())));
    fields.push((key.to_owned(), payload));
    let json = Json::Object(fields);
    assert(json@->Object_0 =~= seq![
        ("jsonrpc"@, JsonValue::String("2.0"@)),
        ("id"@, JsonValue::String(request_id@)),
        (key@, payload@),
    ]);
    json
}

/// The object without fields.
fn empty_object() -> (json: Json)
    ensures
        json@ == JsonValue::Object(Seq::empty()),
{
    let json = Json::Object(Vec::new());
    assert(json@->Object_0 =~= Seq::empty());
    json
}

/// The object whose one field `key` holds a list of 16-bit numbers.
fn list_to_json(key: &str, list: &Vec<u16>) -> (json: Json)
    ensures
        json@ == JsonValue::Object(seq![(key@, numbers_json(list@))]),
{
    let mut fields: Vec<(String, Json)> = Vec::new();
    fields.push((key.to_owned(), numbers_to_json(list)));
    let json = Json::Object(fields);
    assert(json@->Object_0 =~= seq![(key@, numbers_json(list@))]);
    json
}

impl LSPS2Request {
    /// The document that stands for the parameters of this request.
    pub fn params_to_json(&self) -> (json: Json)
        ensures
            json@ == request_params_json(self@),
            self@ matches RequestValue::Buy { opening_fee_params, .. } ==> offer_well_formed(
                opening_fee_params,
            ),
    {
        match self {
            LSPS2Request::GetVersions(_) => empty_object(),
            LSPS2Request::GetInfo(request) => {
                let mut fields: Vec<(String, Json)> = Vec::new();
                fields.push(("version".to_owned(), Json::from_u64(request.version as u64)));
                match &request.token {
                    Some(token) => {
                        fields.push(("token".to_owned(), Json::from_str(token.as_str())));
                    },
                    None => {},
                }
                let json = Json::Object(fields);
                assert(json@->Object_0 =~= request_params_json(self@)->Object_0);
                json
            },
            LSPS2Request::Buy(request) => {
                let mut fields: Vec<(String, Json)> = Vec::new();
                fields.push(("version".to_owned(), Json::from_u64(request.version as u64)));
                fields.push(("opening_fee_params".to_owned(), request.opening_fee_params.to_json()));
                match request.payment_size_msat {
                    Some(size) => {
                        fields.push(("payment_size_msat".to_owned(), Json::from_u64(size)));
                    },
                    None => {},
                }
                let json = Json::Object(fields);
                assert(json@->Object_0 =~= request_params_json(self@)->Object_0);
                json
            },
        }
    }

    /// The request of `method` that a document of parameters stands for.
    pub(crate) fn from_json(method: &str, params: Option<&Json>) -> (res: Option<LSPS2Request>)
        requires
            method@ != "lsps0.list_protocols"@,
        ensures
            match res {
                Some(request) => request_of_json(
                    method@,
                    match params {
                        Some(params) => Some(params@),
                        None => None,
                    },
                ) == Some(request@),
                None => request_of_json(
                    method@,
                    match params {
                        Some(params) => Some(params@),
                        None => None,
                    },
                ) is None,
            },
    {
        if same_text(method, "lsps2.get_versions") {
            match params {
                None => Some(LSPS2Request::GetVersions(GetVersionsRequest {  })),
                Some(Json::Object(_)) => Some(LSPS2Request::GetVersions(GetVersionsRequest {  })),
                Some(_) => None,
            }
        } else if same_text(method, "lsps2.get_info") {
            let params = params?;
            let version = get_number(params, "version", 0xffff)?;
            let token = match get_optional(params, "token") {
                Some(token) => Some(text_from_json(token)?),
                None => None,
            };
            Some(LSPS2Request::GetInfo(GetInfoRequest { version: version as u16, token }))
        } else if same_text(method, "lsps2.buy") {
            let params = params?;
            let version = get_number(params, "version", 0xffff)?;
            let opening_fee_params = OpeningFeeParams::from_json(params.get("opening_fee_params")?)?;
            let payment_size_msat = match get_optional(params, "payment_size_msat") {
                Some(size) => Some(size.as_u64(u64::MAX)?),
                None => None,
            };
            Some(
                LSPS2Request::Buy(
                    BuyRequest { version: version as u16, opening_fee_params, payment_size_msat },
                ),
            )
        } else {
            None
        }
    }
}

impl LSPS2Response {
    /// The document that stands for the result or the error of this response.
    pub fn payload_to_json(&self) -> (json: Json)
        ensures
            json@ == result_json(self@),
            self@ matches ResponseValue::GetInfo { opening_fee_params_menu, .. } ==> forall|i: int|
                0 <= i < opening_fee_params_menu.len() ==> offer_well_formed(
                    #[trigger] opening_fee_params_menu[i],
                ),
    {
        match self {
            LSPS2Response::GetVersions(response) => list_to_json("versions", &response.versions),
            LSPS2Response::GetInfo(response) => {
                let mut fields: Vec<(String, Json)> = Vec::new();
                fields.push(
                    (
                        "opening_fee_params_menu".to_owned(),
                        menu_to_json(&response.opening_fee_params_menu),
                    ),
                );
                fields.push(
                    ("min_payment_size_msat".to_owned(), Json::from_u64(response.min_payment_size_msat)),
                );
                fields.push(
                    ("max_payment_size_msat".to_owned(), Json::from_u64(response.max_payment_size_msat)),
                );
                let json = Json::Object(fields);
                assert(json@->Object_0 =~= result_json(self@)->Object_0);
                json
            },
            LSPS2Response::Buy(response) => {
                let mut fields: Vec<(String, Json)> = Vec::new();
                fields.push(
                    (
                        "jit_channel_scid".to_owned(),
                        Json::from_str(response.jit_channel_scid.0.as_str()),
                    ),
                );
                fields.push(
                    (
                        "lsp_cltv_expiry_delta".to_owned(),
                        Json::from_u64(response.lsp_cltv_expiry_delta as u64),
                    ),
                );
                fields.push(("client_trusts_lsp".to_owned(), Json::Bool(response.client_trusts_lsp)));
                let json = Json::Object(fields);
                proof {
                    reveal_with_fuel(json_value, 2);
                    assert(json@->Object_0 =~= result_json(self@)->Object_0);
                }
                json
            },
            LSPS2Response::GetInfoError(error) => error.to_json(),
            LSPS2Response::BuyError(error) => error.to_json(),
        }
    }

    /// The successful response to a request of `method` that a result stands
    /// for.
    pub(crate) fn success_from_json(method: &str, result: &Json) -> (res: Option<LSPS2Response>)
        requires
            method@ != "lsps0.list_protocols"@,
        ensures
            match res {
                Some(response) => success_of_json(method@, result@) == Some(response@),
                None => success_of_json(method@, result@) is None,
            },
    {
        if same_text(method, "lsps2.get_versions") {
            let versions = numbers_from_json(result.get("versions")?)?;
            Some(LSPS2Response::GetVersions(GetVersionsResponse { versions }))
        } else if same_text(method, "lsps2.get_info") {
            let menu = result.get("opening_fee_params_menu")?;
            let min_payment_size_msat = get_number(result, "min_payment_size_msat", u64::MAX)?;
            let max_payment_size_msat = get_number(result, "max_payment_size_msat", u64::MAX)?;
            let opening_fee_params_menu = menu_from_json(menu)?;
            Some(
                LSPS2Response::GetInfo(
                    GetInfoResponse {
                        opening_fee_params_menu,
                        min_payment_size_msat,
                        max_payment_size_msat,
                    },
                ),
            )
        } else if same_text(method, "lsps2.buy") {
            let scid = get_text(result, "jit_channel_scid")?;
            let delta = get_number(result, "lsp_cltv_expiry_delta", 0xffff_ffff)?;
            let client_trusts_lsp = match get_optional(result, "client_trusts_lsp") {
                Some(flag) => bool_from_json(flag)?,
                None => false,
            };
            Some(
                LSPS2Response::Buy(
                    BuyResponse {
                        jit_channel_scid: JitChannelScid(scid),
                        lsp_cltv_expiry_delta: delta as u32,
                        client_trusts_lsp,
                    },
                ),
            )
        } else {
            None
        }
    }

    /// The error response to a request of `method` that an error stands for.
    pub(crate) fn failure_from_json(method: &str, error: &Json) -> (res: Option<LSPS2Response>)
        requires
            method@ != "lsps0.list_protocols"@,
        ensures
            match res {
                Some(response) => failure_of_json(method@, error@) == Some(response@),
                None => failure_of_json(method@, error@) is None,
            },
    {
        let error = ResponseError::from_json(error)?;
        if same_text(method, "lsps2.get_info") {
            Some(LSPS2Response::GetInfoError(error))
        } else if same_text(method, "lsps2.buy") {
            Some(LSPS2Response::BuyError(error))
        } else {
            None
        }
    }
}

impl LSPSMessage {
    /// The JSON-RPC object that stands for this message.
    pub fn to_json(&self) -> (json: Json)
        ensures
            json@ == message_json(self@),
            message_well_formed(self@),
    {
        match self {
            LSPSMessage::Invalid => {
                proof {
                    reveal_strlit("parse error");
                }
                let error = ResponseError {
                    code: -32700,
                    message: "parse error".to_owned(),
                    data: None,
                };
                let mut fields: Vec<(String, Json)> = Vec::new();
                fields.push(("jsonrpc".to_owned(), Json::from_str("2.0")));
                fields.push(("id".to_owned(), Json::Null));
                fields.push(("error".to_owned(), error.to_json()));
                let json = Json::Object(fields);
                proof {
                    reveal_with_fuel(json_value, 2);
                    assert(json@->Object_0 =~= message_json(self@)->Object_0);
                }
                json
            },
            LSPSMessage::LSPS0(LSPS0Message::Request(id, request)) => request_to_json(
                id,
                request.method(),
                empty_object(),
            ),
            LSPSMessage::LSPS0(LSPS0Message::Response(id, response)) => match response {
                LSPS0Response::ListProtocols(response) => response_to_json(
                    id,
                    "result",
                    list_to_json("protocols", &response.protocols),
                ),
                LSPS0Response::ListProtocolsError(error) => response_to_json(
                    id,
                    "error",
                    error.to_json(),
                ),
            },
            LSPSMessage::LSPS2(LSPS2Message::Request(id, request)) => request_to_json(
                id,
                request.method(),
                request.params_to_json(),
            ),
            LSPSMessage::LSPS2(LSPS2Message::Response(id, response)) => match response {
                LSPS2Response::GetInfoError(_) => response_to_json(
                    id,
                    "error",
                    response.payload_to_json(),
                ),
                LSPS2Response::BuyError(_) => response_to_json(
                    id,
                    "error",
                    response.payload_to_json(),
                ),
                _ => response_to_json(id, "result", response.payload_to_json()),
            },
        }
    }

    /// The text of the JSON-RPC object that stands for this message, as
    /// `serde_json` writes it.
    pub fn to_json_string(&self) -> (res: Option<String>)
        ensures
            match res {
                Some(text) => text_of_json(message_json(self@)) == Some(text@),
                None => text_of_json(message_json(self@)) is None,
            },
            message_well_formed(self@),
    {
        self.to_json().to_text()
    }

    /// The id and the method of the request that this message makes, if it makes
    /// one.
    pub fn get_request_id_and_method(&self) -> (res: Option<(String, String)>)
        ensures
            match res {
                Some((id, method)) => self@ matches MessageValue::Request(request_id, request)
                    && id@ == request_id && method@ == request.method(),
                None => !(self@ is Request),
            },
    {
        match self {
            LSPSMessage::LSPS0(LSPS0Message::Request(id, request)) => Some(
                (id.0.clone(), request.method().to_owned()),
            ),
            LSPSMessage::LSPS2(LSPS2Message::Request(id, request)) => Some(
                (id.0.clone(), request.method().to_owned()),
            ),
            _ => None,
        }
    }

    /// Reads the message that a JSON-RPC object stands for. A document whose
    /// member `jsonrpc` is not the text `2.0` stands for none.
    ///
    /// A response is told by the method that `request_id_to_method` holds for its
    /// id; reading a response takes that id out of the map, whether or not the
    /// response could be read.
    pub fn from_json_with_id_map(json: &Json, request_id_to_method: &mut RequestIdMap) -> (res:
        Result<LSPSMessage, ()>)
        ensures
            match res {
                Ok(message) => message_of_json(json@, old(request_id_to_method)@) == Some(message@),
                Err(_) => message_of_json(json@, old(request_id_to_method)@) is None,
            },
            final(request_id_to_method)@ == methods_after(json@, old(request_id_to_method)@),
    {
        let versioned = match get_text(json, "jsonrpc") {
            Some(version) => same_text(version.as_str(), "2.0"),
            None => false,
        };
        if !versioned {
            return Err(());
        }
        let id = get_optional(json, "id");
        let method = get_optional(json, "method");
        match (id, method) {
            (Some(id), Some(method)) => {
                let id = match text_from_json(id) {
                    Some(id) => id,
                    None => {
                        return Err(());
                    },
                };
                let method = match text_from_json(method) {
                    Some(method) => method,
                    None => {
                        return Err(());
                    },
                };
                let params = get_optional(json, "params");
                if same_text(method.as_str(), "lsps0.list_protocols") {
                    match params {
                        None => Ok(
                            LSPSMessage::LSPS0(
                                LSPS0Message::Request(
                                    RequestId(id),
                                    LSPS0Request::ListProtocols(ListProtocolsRequest {  }),
                                ),
                            ),
                        ),
                        Some(Json::Object(_)) => Ok(
                            LSPSMessage::LSPS0(
                                LSPS0Message::Request(
                                    RequestId(id),
                                    LSPS0Request::ListProtocols(ListProtocolsRequest {  }),
                                ),
                            ),
                        ),
                        Some(_) => Err(()),
                    }
                } else {
                    match LSPS2Request::from_json(method.as_str(), params) {
                        Some(request) => Ok(
                            LSPSMessage::LSPS2(LSPS2Message::Request(RequestId(id), request)),
                        ),
                        None => Err(()),
                    }
                }
            },
            (Some(id), None) => {
                let id = match text_from_json(id) {
                    Some(id) => id,
                    None => {
                        return Err(());
                    },
                };
                let method = match request_id_to_method.remove(id.as_str()) {
                    Some(method) => method,
                    None => {
                        return Err(());
                    },
                };
                let result = get_optional(json, "result");
                let error = get_optional(json, "error");
                if same_text(method.as_str(), "lsps0.list_protocols") {
                    let response = match (result, error) {
                        (Some(result), None) => {
                            let list = match result.get("protocols") {
                                Some(list) => list,
                                None => {
                                    return Err(());
                                },
                            };
                            match numbers_from_json(list) {
                                Some(protocols) => LSPS0Response::ListProtocols(
                                    ListProtocolsResponse { protocols },
                                ),
                                None => {
                                    return Err(());
                                },
                            }
                        },
                        (None, Some(error)) => match ResponseError::from_json(error) {
                            Some(error) => LSPS0Response::ListProtocolsError(error),
                            None => {
                                return Err(());
                            },
                        },
                        _ => {
                            return Err(());
                        },
                    };
                    Ok(LSPSMessage::LSPS0(LSPS0Message::Response(RequestId(id), response)))
                } else {
                    let response = match (result, error) {
                        (Some(result), None) => LSPS2Response::success_from_json(
                            method.as_str(),
                            result,
                        ),
                        (None, Some(error)) => LSPS2Response::failure_from_json(
                            method.as_str(),
                            error,
                        ),
                        _ => None,
                    };
                    match response {
                        Some(response) => Ok(
                            LSPSMessage::LSPS2(LSPS2Message::Response(RequestId(id), response)),
                        ),
                        None => Err(()),
                    }
                }
            },
            (None, Some(_)) => Err(()),
            (None, None) => {
                let error = match get_optional(json, "error") {
                    Some(error) => error,
                    None => {
                        return Err(());
                    },
                };
                match ResponseError::from_json(error) {
                    Some(error) => {
                        if error.code == -32700 {
                            Ok(LSPSMessage::Invalid)
                        } else {
                            Err(())
                        }
                    },
                    None => Err(()),
                }
            },
        }
    }

    /// Reads a message from the text of a JSON-RPC object.
    ///
    /// The text is read by `serde_json`; what it stands for is then told as
    /// [`LSPSMessage::from_json_with_id_map`] tells it. A text that is no JSON
    /// leaves the map as it was.
    pub fn from_str_with_id_map(json_str: &str, request_id_to_method: &mut RequestIdMap) -> (res:
        Result<LSPSMessage, ()>)
        ensures
            match json_of_text(json_str@) {
                Some(json) => {
                    &&& match res {
                        Ok(message) => message_of_json(json, old(request_id_to_method)@) == Some(
                            message@,
                        ),
                        Err(_) => message_of_json(json, old(request_id_to_method)@) is None,
                    }
                    &&& final(request_id_to_method)@ == methods_after(
                        json,
                        old(request_id_to_method)@,
                    )
                },
                None => res is Err && final(request_id_to_method)@ == old(request_id_to_method)@,
            },
    {
        match Json::from_text(json_str) {
            Some(json) => LSPSMessage::from_json_with_id_map(&json, request_id_to_method),
            None => Err(()),
        }
    }
}

} // verus!
