//! The JSON-RPC messages that are carried between peers.

use crate::jit_channel::msgs::{LSPS2Message, OpeningFeeOffer};
use vstd::hash_map::StringHashMap;
use vstd::prelude::*;
use vstd::std_specs::convert::FromSpecImpl;

verus! {

/// The type of the custom message that carries the protocols.
pub const LSPS_MESSAGE_TYPE_ID: u16 = 37913;

/// The JSON-RPC error code that tells a peer its message could not be read.
pub const JSONRPC_INVALID_MESSAGE_ERROR_CODE: i32 = -32700;

/// The JSON-RPC method that asks which protocols an LSP supports.
pub const LSPS0_LISTPROTOCOLS_METHOD_NAME: &'static str = "lsps0.list_protocols";

/// A custom message as it travels: one JSON-RPC object as text.
#[derive(Debug, PartialEq, Eq)]
pub struct RawLSPSMessage {
    /// The text of the JSON-RPC object.
    pub payload: String,
}

/// The identifier of a request, by which its response is told.
#[derive(Debug, PartialEq, Eq)]
pub struct RequestId(pub String);

impl View for RequestId {
    type V = Seq<char>;

    open spec fn view(&self) -> Seq<char> {
        self.0@
    }
}

impl RequestId {
    /// A copy of this identifier.
    pub fn duplicate(&self) -> (copy: RequestId)
        ensures
            copy@ == self@,
    {
        RequestId(self.0.clone())
    }
}

/// The error of a JSON-RPC response.
#[derive(Debug, PartialEq, Eq)]
pub struct ResponseError {
    /// The number that tells the kind of error.
    pub code: i32,
    /// The error in words.
    pub message: String,
    /// More about the error, if there is more.
    pub data: Option<String>,
}

/// The mathematical value of a [`ResponseError`], field by field.
pub struct ErrorValue {
    pub code: i32,
    pub message: Seq<char>,
    pub data: Option<Seq<char>>,
}

impl View for ResponseError {
    type V = ErrorValue;

    open spec fn view(&self) -> ErrorValue {
        ErrorValue {
            code: self.code,
            message: self.message@,
            data: match self.data {
                Some(data) => Some(data@),
                None => None,
            },
        }
    }
}

/// The mathematical value of a request of any protocol.
pub enum RequestValue {
    /// `lsps0.list_protocols`.
    ListProtocols,
    /// `lsps2.get_versions`.
    GetVersions,
    /// `lsps2.get_info`, with its parameters.
    GetInfo { version: u16, token: Option<Seq<char>> },
    /// `lsps2.buy`, with its parameters.
    Buy { version: u16, opening_fee_params: OpeningFeeOffer, payment_size_msat: Option<u64> },
}

impl RequestValue {
    /// The JSON-RPC method name of a request.
    pub open spec fn method(self) -> Seq<char> {
        match self {
            RequestValue::ListProtocols => "lsps0.list_protocols"@,
            RequestValue::GetVersions => "lsps2.get_versions"@,
            RequestValue::GetInfo { .. } => "lsps2.get_info"@,
            RequestValue::Buy { .. } => "lsps2.buy"@,
        }
    }
}

/// The mathematical value of a response of any protocol.
pub enum ResponseValue {
    /// The protocols that an LSP supports.
    ListProtocols(Seq<u16>),
    /// The error that `lsps0.list_protocols` was answered with.
    ListProtocolsError(ErrorValue),
    /// The versions that an LSP supports.
    GetVersions(Seq<u16>),
    /// The fees and parameters of an LSP.
    GetInfo {
        opening_fee_params_menu: Seq<OpeningFeeOffer>,
        min_payment_size_msat: u64,
        max_payment_size_msat: u64,
    },
    /// The error that `lsps2.get_info` was answered with.
    GetInfoError(ErrorValue),
    /// The sale of a channel.
    Buy { jit_channel_scid: Seq<char>, lsp_cltv_expiry_delta: u32, client_trusts_lsp: bool },
    /// The error that `lsps2.buy` was answered with.
    BuyError(ErrorValue),
}

impl ResponseValue {
    /// The JSON-RPC method name of the request that a response answers.
    pub open spec fn method(self) -> Seq<char> {
        match self {
            ResponseValue::ListProtocols(_) => "lsps0.list_protocols"@,
            ResponseValue::ListProtocolsError(_) => "lsps0.list_protocols"@,
            ResponseValue::GetVersions(_) => "lsps2.get_versions"@,
            ResponseValue::GetInfo { .. } => "lsps2.get_info"@,
            ResponseValue::GetInfoError(_) => "lsps2.get_info"@,
            ResponseValue::Buy { .. } => "lsps2.buy"@,
            ResponseValue::BuyError(_) => "lsps2.buy"@,
        }
    }
}

/// The mathematical value of a message of any protocol.
pub enum MessageValue {
    /// The notice that a message could not be read.
    Invalid,
    /// A request and its id.
    Request(Seq<char>, RequestValue),
    /// A response and the id of the request that it answers.
    Response(Seq<char>, ResponseValue),
}

/// A request to learn which protocols an LSP supports.
#[derive(Clone, Copy, Debug, PartialEq, Eq, Default)]
pub struct ListProtocolsRequest {}

/// A response to a [`ListProtocolsRequest`].
#[derive(Debug, PartialEq, Eq)]
pub struct ListProtocolsResponse {
    /// The numbers of the protocols that the LSP supports.
    pub protocols: Vec<u16>,
}

/// The requests of the LSPS0 protocol.
#[derive(Debug, PartialEq, Eq)]
pub enum LSPS0Request {
    /// A request to learn which protocols an LSP supports.
    ListProtocols(ListProtocolsRequest),
}

impl View for LSPS0Request {
    type V = RequestValue;

    open spec fn view(&self) -> RequestValue {
        RequestValue::ListProtocols
    }
}

impl LSPS0Request {
    /// Get the JSON-RPC method name for the underlying request.
    pub fn method(&self) -> (name: &'static str)
        ensures
            name@ == self@.method(),
    {
        LSPS0_LISTPROTOCOLS_METHOD_NAME
    }
}

/// The responses of the LSPS0 protocol.
#[derive(Debug, PartialEq, Eq)]
pub enum LSPS0Response {
    /// A successful response to a [`LSPS0Request::ListProtocols`] request.
    ListProtocols(ListProtocolsResponse),
    /// An error response to a [`LSPS0Request::ListProtocols`] request.
    ListProtocolsError(ResponseError),
}

impl View for LSPS0Response {
    type V = ResponseValue;

    open spec fn view(&self) -> ResponseValue {
        match self {
            LSPS0Response::ListProtocols(response) => ResponseValue::ListProtocols(
                response.protocols@,
            ),
            LSPS0Response::ListProtocolsError(error) => ResponseValue::ListProtocolsError(error@),
        }
    }
}

/// The messages of the LSPS0 protocol.
#[derive(Debug, PartialEq, Eq)]
pub enum LSPS0Message {
    /// An LSPS0 JSON-RPC request.
    Request(RequestId, LSPS0Request),
    /// An LSPS0 JSON-RPC response.
    Response(RequestId, LSPS0Response),
}

impl View for LSPS0Message {
    type V = MessageValue;

    open spec fn view(&self) -> MessageValue {
        match self {
            LSPS0Message::Request(id, request) => MessageValue::Request(id@, request@),
            LSPS0Message::Response(id, response) => MessageValue::Response(id@, response@),
        }
    }
}

impl LSPS0Message {
    /// The LSPS0 message inside a message of any protocol, if it holds one.
    pub fn try_from(message: LSPSMessage) -> (res: Result<LSPS0Message, ()>)
        ensures
            match res {
                Ok(inner) => message == LSPSMessage::LSPS0(inner),
                Err(_) => !(message is LSPS0),
            },
    {
        if let LSPSMessage::LSPS0(message) = message {
            return Ok(message);
        }
        Err(())
    }

}

impl From<LSPS0Message> for LSPSMessage {
    /// A message of the LSPS0 protocol as a message of any protocol.
    fn from(message: LSPS0Message) -> (res: Self) {
        LSPSMessage::LSPS0(message)
    }
}

impl FromSpecImpl<LSPS0Message> for LSPSMessage {
    open spec fn obeys_from_spec() -> bool {
        true
    }

    open spec fn from_spec(message: LSPS0Message) -> Self {
        LSPSMessage::LSPS0(message)
    }
}

/// A message of any of the protocols.
#[derive(Debug, PartialEq, Eq)]
pub enum LSPSMessage {
    /// Tells a peer that a message of theirs could not be read.
    Invalid,
    /// A message of the LSPS0 protocol.
    LSPS0(LSPS0Message),
    /// A message of the JIT channel protocol.
    LSPS2(LSPS2Message),
}

impl View for LSPSMessage {
    type V = MessageValue;

    open spec fn view(&self) -> MessageValue {
        match self {
            LSPSMessage::Invalid => MessageValue::Invalid,
            LSPSMessage::LSPS0(message) => message@,
            LSPSMessage::LSPS2(message) => message@,
        }
    }
}

/// The methods of the requests that wait for a response, by request id.
pub struct RequestIdMap {
    methods: StringHashMap<String>,
}

impl View for RequestIdMap {
    type V = Map<Seq<char>, Seq<char>>;

    closed spec fn view(&self) -> Map<Seq<char>, Seq<char>> {
        self.methods@.map_values(|method: String| method@)
    }
}

impl RequestIdMap {
    /// A map without requests.
    pub fn new() -> (map: RequestIdMap)
        ensures
            map@ == Map::<Seq<char>, Seq<char>>::empty(),
    {
        let map = RequestIdMap { methods: StringHashMap::new() };
        assert(map@ =~= Map::<Seq<char>, Seq<char>>::empty());
        map
    }

    /// Records the method of the request `id`.
    pub fn insert(&mut self, id: String, method: String)
        ensures
            final(self)@ == old(self)@.insert(id@, method@),
    {
        self.methods.insert(id, method);
        assert(self@ =~= old(self)@.insert(id@, method@));
    }

    /// Forgets the request `id` and gives its method, if it was recorded.
    pub fn remove(&mut self, id: &str) -> (method: Option<String>)
        ensures
            final(self)@ == old(self)@.remove(id@),
            match method {
                Some(name) => old(self)@.contains_key(id@) && old(self)@[id@] == name@,
                None => !old(self)@.contains_key(id@),
            },
    {
        let method = match self.methods.get(id) {
            Some(name) => Some(name.clone()),
            None => None,
        };
        self.methods.remove(id);
        assert(self@ =~= old(self)@.remove(id@));
        method
    }

    /// The method of the request `id`, if it is recorded.
    pub fn get(&self, id: &str) -> (method: Option<String>)
        ensures
            match method {
                Some(name) => self@.contains_key(id@) && self@[id@] == name@,
                None => !self@.contains_key(id@),
            },
    {
        match self.methods.get(id) {
            Some(name) => Some(name.clone()),
            None => None,
        }
    }

    /// Whether the request `id` is recorded.
    pub fn contains_key(&self, id: &str) -> (res: bool)
        ensures
            res == self@.contains_key(id@),
    {
        self.methods.contains_key(id)
    }

    /// The number of requests that are recorded.
    pub fn len(&self) -> (n: usize)
        ensures
            n == self@.len(),
    {
        broadcast use vstd::hash_map::axiom_string_hash_map_spec_len;

        assert(self@.dom() =~= self.methods@.dom());
        self.methods.len()
    }
}

} // verus!
