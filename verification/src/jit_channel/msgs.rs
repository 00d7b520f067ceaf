//! The messages of the JIT channel protocol.

use crate::jit_channel::utils::{compute_promise, promise_text};
use crate::time::{Timestamp, UnixTime};
use crate::transport::msgs::{
    LSPSMessage, MessageValue, RequestId, RequestValue, ResponseError, ResponseValue,
};
use crate::utils::{
    is_lower_hex, scid_from_human_readable_string, scid_of_text, scid_text,
    scid_to_human_readable_string,
};
use vstd::prelude::*;
use vstd::std_specs::convert::FromSpecImpl;

verus! {

/// The terms of an offer to open a channel: what a promise authenticates.
///
/// This is the mathematical value of a [`RawOpeningFeeParams`], field by field.
pub struct OpeningFeeTerms {
    pub min_fee_msat: u64,
    pub proportional: u32,
    pub valid_until: UnixTime,
    pub min_lifetime: u32,
    pub max_client_to_self_delay: u32,
}

/// Fees and parameters for a JIT Channel without the promise.
///
/// The promise will be calculated automatically for the LSP and this type converted
/// into an [`OpeningFeeParams`] for transit over the wire.
#[derive(Clone, Copy, Debug, PartialEq, Eq)]
pub struct RawOpeningFeeParams {
    /// The minimum fee required for the channel open.
    pub min_fee_msat: u64,
    /// A fee proportional to the size of the initial payment.
    pub proportional: u32,
    /// The last instant at which these params are valid.
    pub valid_until: Timestamp,
    /// The number of blocks after confirmation that the LSP promises it will keep the channel alive without closing.
    pub min_lifetime: u32,
    /// The maximum number of blocks that the client is allowed to set its `to_self_delay` parameter.
    pub max_client_to_self_delay: u32,
}

impl View for RawOpeningFeeParams {
    type V = OpeningFeeTerms;

    open spec fn view(&self) -> OpeningFeeTerms {
        OpeningFeeTerms {
            min_fee_msat: self.min_fee_msat,
            proportional: self.proportional,
            valid_until: self.valid_until@,
            min_lifetime: self.min_lifetime,
            max_client_to_self_delay: self.max_client_to_self_delay,
        }
    }
}

impl RawOpeningFeeParams {
    /// Adds the promise that `promise_secret` gives for these terms: the
    /// HMAC-SHA256 of the terms in 64 lowercase hex digits.
    pub fn into_opening_fee_params(self, promise_secret: &[u8; 32]) -> (params: OpeningFeeParams)
        ensures
            params@.terms == self@,
            params@.promise == promise_text(self@, promise_secret@),
            params@.promise.len() == 64,
            is_lower_hex(params@.promise),
    {
        let promise = compute_promise(
            self.min_fee_msat,
            self.proportional,
            self.valid_until.to_rfc3339().as_str(),
            self.min_lifetime,
            self.max_client_to_self_delay,
            promise_secret,
        );
        OpeningFeeParams {
            min_fee_msat: self.min_fee_msat,
            proportional: self.proportional,
            valid_until: self.valid_until,
            min_lifetime: self.min_lifetime,
            max_client_to_self_delay: self.max_client_to_self_delay,
            promise,
        }
    }
}

/// Fees and parameters for a JIT Channel including the promise.
///
/// The promise is an HMAC calculated using a secret known to the LSP and the rest of the fields as input.
/// It exists so the LSP can verify the authenticity of a client provided OpeningFeeParams by recalculating
/// the promise using the secret. Once verified they can be confident it was not modified by the client.
#[derive(Debug, PartialEq, Eq)]
pub struct OpeningFeeParams {
    /// The minimum fee required for the channel open.
    pub min_fee_msat: u64,
    /// A fee proportional to the size of the initial payment.
    pub proportional: u32,
    /// The last instant at which these params are valid.
    pub valid_until: Timestamp,
    /// The number of blocks after confirmation that the LSP promises it will keep the channel alive without closing.
    pub min_lifetime: u32,
    /// The maximum number of blocks that the client is allowed to set its `to_self_delay` parameter.
    pub max_client_to_self_delay: u32,
    /// The HMAC used to verify the authenticity of these parameters.
    pub promise: String,
}

/// The mathematical value of an [`OpeningFeeParams`]: the terms and the promise
/// that goes with them.
pub struct OpeningFeeOffer {
    pub terms: OpeningFeeTerms,
    pub promise: Seq<char>,
}

impl View for OpeningFeeParams {
    type V = OpeningFeeOffer;

    open spec fn view(&self) -> OpeningFeeOffer {
        OpeningFeeOffer {
            terms: OpeningFeeTerms {
                min_fee_msat: self.min_fee_msat,
                proportional: self.proportional,
                valid_until: self.valid_until@,
                min_lifetime: self.min_lifetime,
                max_client_to_self_delay: self.max_client_to_self_delay,
            },
            promise: self.promise@,
        }
    }
}

impl OpeningFeeParams {
    /// A copy of these parameters.
    pub fn duplicate(&self) -> (copy: OpeningFeeParams)
        ensures
            copy@ == self@,
    {
        OpeningFeeParams {
            min_fee_msat: self.min_fee_msat,
            proportional: self.proportional,
            valid_until: self.valid_until,
            min_lifetime: self.min_lifetime,
            max_client_to_self_delay: self.max_client_to_self_delay,
            promise: self.promise.clone(),
        }
    }
}

/// The mathematical value of a menu of offers.
pub open spec fn menu_value(menu: Seq<OpeningFeeParams>) -> Seq<OpeningFeeOffer> {
    Seq::new(menu.len(), |i: int| menu[i]@)
}

/// The JSON-RPC method that asks which versions of the protocol an LSP supports.
pub const LSPS2_GET_VERSIONS_METHOD_NAME: &'static str = "lsps2.get_versions";

/// The JSON-RPC method that asks for an LSP's fees and parameters.
pub const LSPS2_GET_INFO_METHOD_NAME: &'static str = "lsps2.get_info";

/// The JSON-RPC method that buys a JIT channel.
pub const LSPS2_BUY_METHOD_NAME: &'static str = "lsps2.buy";

/// The error code of a buy request that names an unsupported version.
pub const LSPS2_BUY_REQUEST_INVALID_VERSION_ERROR_CODE: i32 = 1;

/// The error code of a buy request whose opening fee params are invalid or expired.
pub const LSPS2_BUY_REQUEST_INVALID_OPENING_FEE_PARAMS_ERROR_CODE: i32 = 2;

/// The error code of a buy request whose payment size is too small.
pub const LSPS2_BUY_REQUEST_PAYMENT_SIZE_TOO_SMALL_ERROR_CODE: i32 = 3;

/// The error code of a buy request whose payment size is too large.
pub const LSPS2_BUY_REQUEST_PAYMENT_SIZE_TOO_LARGE_ERROR_CODE: i32 = 4;

/// A request made to an LSP to learn what versions of the protocol they support.
#[derive(Clone, Copy, Debug, PartialEq, Eq, Default)]
pub struct GetVersionsRequest {}

/// A response to a [`GetVersionsRequest`].
#[derive(Debug, PartialEq, Eq)]
pub struct GetVersionsResponse {
    /// The list of versions an LSP supports.
    pub versions: Vec<u16>,
}

/// A request made to an LSP to learn their current channel fees and parameters.
#[derive(Debug, PartialEq, Eq)]
pub struct GetInfoRequest {
    /// What version of the protocol we want to use.
    pub version: u16,
    /// An optional token to provide to the LSP.
    pub token: Option<String>,
}

/// A response to a [`GetInfoRequest`]
#[derive(Debug, PartialEq, Eq)]
pub struct GetInfoResponse {
    /// A set of opening fee parameters.
    pub opening_fee_params_menu: Vec<OpeningFeeParams>,
    /// The minimum payment size required to open a channel.
    pub min_payment_size_msat: u64,
    /// The maximum payment size the lsp will tolerate.
    pub max_payment_size_msat: u64,
}

/// A request to buy a JIT channel.
#[derive(Debug, PartialEq, Eq)]
pub struct BuyRequest {
    /// The version of the protocol to use.
    pub version: u16,
    /// The fee parameters you would like to use.
    pub opening_fee_params: OpeningFeeParams,
    /// The size of the initial payment you expect to receive.
    pub payment_size_msat: Option<u64>,
}

/// A newtype that holds a `short_channel_id` in human readable format of BBBxTTTx000.
#[derive(Debug, PartialEq, Eq)]
pub struct JitChannelScid(pub String);

impl View for JitChannelScid {
    type V = Seq<char>;

    open spec fn view(&self) -> Seq<char> {
        self.0@
    }
}

impl From<u64> for JitChannelScid {
    /// The human readable form of a short channel id.
    fn from(scid: u64) -> (res: Self)
        ensures
            res@ == scid_text(scid),
    {
        JitChannelScid(scid_to_human_readable_string(scid))
    }
}

impl FromSpecImpl<u64> for JitChannelScid {
    /// The text of a [`JitChannelScid`] is told by the contract of `from`; the
    /// value itself, which holds a `String`, has no specification of its own.
    open spec fn obeys_from_spec() -> bool {
        false
    }

    open spec fn from_spec(scid: u64) -> Self {
        arbitrary()
    }
}

impl JitChannelScid {
    /// Try to convert a [`JitChannelScid`] into a u64 used by LDK.
    ///
    /// Succeeds exactly on the human readable form of a short channel id, and
    /// gives that id.
    pub fn to_scid(&self) -> (res: Result<u64, ()>)
        ensures
            match res {
                Ok(scid) => scid_of_text(self@) == Some(scid),
                Err(_) => scid_of_text(self@) is None,
            },
    {
        scid_from_human_readable_string(self.0.as_str())
    }
}

/// A response to a [`BuyRequest`].
///
/// Includes information needed to construct an invoice.
#[derive(Debug, PartialEq, Eq)]
pub struct BuyResponse {
    /// The short channel id used by LSP to identify need to open channel.
    pub jit_channel_scid: JitChannelScid,
    /// The locktime expiry delta the lsp requires.
    pub lsp_cltv_expiry_delta: u32,
    /// A flag that indicates who is trusting who.
    pub client_trusts_lsp: bool,
}

/// An enum that captures all the valid JSON-RPC requests in the LSPS2 protocol.
#[derive(Debug, PartialEq, Eq)]
pub enum LSPS2Request {
    /// A request to learn what versions an LSP supports.
    GetVersions(GetVersionsRequest),
    /// A request to learn an LSP's channel fees and parameters.
    GetInfo(GetInfoRequest),
    /// A request to buy a JIT channel from an LSP.
    Buy(BuyRequest),
}

impl View for LSPS2Request {
    type V = RequestValue;

    open spec fn view(&self) -> RequestValue {
        match self {
            LSPS2Request::GetVersions(_) => RequestValue::GetVersions,
            LSPS2Request::GetInfo(request) => RequestValue::GetInfo {
                version: request.version,
                token: match request.token {
                    Some(token) => Some(token@),
                    None => None,
                },
            },
            LSPS2Request::Buy(request) => RequestValue::Buy {
                version: request.version,
                opening_fee_params: request.opening_fee_params@,
                payment_size_msat: request.payment_size_msat,
            },
        }
    }
}

impl LSPS2Request {
    /// Get the JSON-RPC method name for the underlying request.
    pub fn method(&self) -> (name: &'static str)
        ensures
            name@ == self@.method(),
    {
        match self {
            LSPS2Request::GetVersions(_) => LSPS2_GET_VERSIONS_METHOD_NAME,
            LSPS2Request::GetInfo(_) => LSPS2_GET_INFO_METHOD_NAME,
            LSPS2Request::Buy(_) => LSPS2_BUY_METHOD_NAME,
        }
    }
}

/// An enum that captures all the valid JSON-RPC responses in the LSPS2 protocol.
#[derive(Debug, PartialEq, Eq)]
pub enum LSPS2Response {
    /// A successful response to a [`LSPS2Request::GetVersions`] request.
    GetVersions(GetVersionsResponse),
    /// A successful response to a [`LSPS2Request::GetInfo`] request.
    GetInfo(GetInfoResponse),
    /// An error response to a [`LSPS2Request::GetInfo`] request.
    GetInfoError(ResponseError),
    /// A successful response to a [`LSPS2Request::Buy`] request.
    Buy(BuyResponse),
    /// An error response to a [`LSPS2Request::Buy`] request.
    BuyError(ResponseError),
}

impl View for LSPS2Response {
    type V = ResponseValue;

    open spec fn view(&self) -> ResponseValue {
        match self {
            LSPS2Response::GetVersions(response) => ResponseValue::GetVersions(response.versions@),
            LSPS2Response::GetInfo(response) => ResponseValue::GetInfo {
                opening_fee_params_menu: menu_value(response.opening_fee_params_menu@),
                min_payment_size_msat: response.min_payment_size_msat,
                max_payment_size_msat: response.max_payment_size_msat,
            },
            LSPS2Response::GetInfoError(error) => ResponseValue::GetInfoError(error@),
            LSPS2Response::Buy(response) => ResponseValue::Buy {
                jit_channel_scid: response.jit_channel_scid@,
                lsp_cltv_expiry_delta: response.lsp_cltv_expiry_delta,
                client_trusts_lsp: response.client_trusts_lsp,
            },
            LSPS2Response::BuyError(error) => ResponseValue::BuyError(error@),
        }
    }
}

/// An enum that captures all valid JSON-RPC messages in the LSPS2 protocol.
#[derive(Debug, PartialEq, Eq)]
pub enum LSPS2Message {
    /// An LSPS2 JSON-RPC request.
    Request(RequestId, LSPS2Request),
    /// An LSPS2 JSON-RPC response.
    Response(RequestId, LSPS2Response),
}

impl View for LSPS2Message {
    type V = MessageValue;

    open spec fn view(&self) -> MessageValue {
        match self {
            LSPS2Message::Request(id, request) => MessageValue::Request(id@, request@),
            LSPS2Message::Response(id, response) => MessageValue::Response(id@, response@),
        }
    }
}

impl LSPS2Message {
    /// The LSPS2 message inside a message of any protocol, if it holds one.
    pub fn try_from(message: LSPSMessage) -> (res: Result<LSPS2Message, ()>)
        ensures
            match res {
                Ok(inner) => message == LSPSMessage::LSPS2(inner),
                Err(_) => !(message is LSPS2),
            },
    {
        if let LSPSMessage::LSPS2(message) = message {
            return Ok(message);
        }
        Err(())
    }

}

impl From<LSPS2Message> for LSPSMessage {
    /// A message of the JIT channel protocol as a message of any protocol.
    fn from(message: LSPS2Message) -> (res: Self) {
        LSPSMessage::LSPS2(message)
    }
}

impl FromSpecImpl<LSPS2Message> for LSPSMessage {
    open spec fn obeys_from_spec() -> bool {
        true
    }

    open spec fn from_spec(message: LSPS2Message) -> Self {
        LSPSMessage::LSPS2(message)
    }
}

} // verus!
