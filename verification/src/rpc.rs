//! JSON-RPC requests and the answers to them.
//!
//! A request is described by plain values and printed as the JSON text to
//! post; sending it is the caller's part. An answer is the body of the HTTP
//! response, as bytes. Two shapes of answer
//! are read: one whose `result` is a string, which is returned as it stands,
//! and one whose `result` is an object, from which the `baseFeePerGas` member
//! is returned as JSON text.

use vstd::prelude::*;
use crate::json::{
    array_document,
    bool_document,
    empty_object,
    insert_member,
    is_object,
    json_model,
    json_parse,
    json_text,
    member_of,
    parse_document,
    print_document,
    printed_verbatim,
    quoted,
    string_document,
    text_of,
    unsigned_document,
    JsonNumber,
    JsonValue,
};
use crate::method::EthRpcMethod;

verus! {

/// The `id` of every request: no two requests are in flight at once.
pub const REQUEST_ID: u64 = 1;

/// The protocol version that every request states.
pub open spec fn jsonrpc_version() -> Seq<char> {
    "2.0"@
}

/// The name of the member that holds an answer's result.
pub open spec fn result_key() -> Seq<char> {
    "result"@
}

/// The name of the member that holds a block's base fee.
pub open spec fn base_fee_key() -> Seq<char> {
    "baseFeePerGas"@
}

/// One positional parameter of a request.
#[derive(Clone, Debug, PartialEq, Eq)]
pub enum RpcParam {
    /// A JSON string.
    Text(String),
    /// A JSON boolean.
    Flag(bool),
}

/// What an [`RpcParam`] holds, as mathematical values.
pub enum RpcParamView {
    Text(Seq<char>),
    Flag(bool),
}

impl View for RpcParam {
    type V = RpcParamView;

    open spec fn view(&self) -> RpcParamView {
        match self {
            RpcParam::Text(text) => RpcParamView::Text(text@),
            RpcParam::Flag(flag) => RpcParamView::Flag(*flag),
        }
    }
}

/// A JSON-RPC 2.0 request.
#[derive(Clone, Debug, PartialEq, Eq)]
pub struct RpcRequest {
    /// The method to call.
    pub method: EthRpcMethod,
    /// The positional parameters.
    pub params: Vec<RpcParam>,
    /// The request's id.
    pub id: u64,
}

/// What an [`RpcRequest`] holds, as mathematical values.
pub struct RpcRequestView {
    pub method: EthRpcMethod,
    pub params: Seq<RpcParamView>,
    pub id: u64,
}

impl View for RpcRequest {
    type V = RpcRequestView;

    open spec fn view(&self) -> RpcRequestView {
        RpcRequestView {
            method: self.method,
            params: self.params@.map_values(|p: RpcParam| p@),
            id: self.id,
        }
    }
}

/// The parameters that a method takes: none for the gas price and for the
/// block number; the block's number and `true`, for full transactions, for a
/// block.
pub open spec fn params_of(method: EthRpcMethod, block_number: Seq<char>) -> Seq<RpcParamView> {
    match method {
        EthRpcMethod::EthGasPrice => Seq::empty(),
        EthRpcMethod::EthBlockNumber => Seq::empty(),
        EthRpcMethod::EthGetBlockByNumber => seq![
            RpcParamView::Text(block_number),
            RpcParamView::Flag(true),
        ],
    }
}

/// The request for a method. `block_number` matters to
/// `eth_getBlockByNumber` only.
pub open spec fn request_for(method: EthRpcMethod, block_number: Seq<char>) -> RpcRequestView {
    RpcRequestView { method, params: params_of(method, block_number), id: REQUEST_ID }
}

impl RpcParamView {
    /// The parameter as a JSON document.
    pub open spec fn document(self) -> JsonValue {
        match self {
            RpcParamView::Text(text) => JsonValue::String(text),
            RpcParamView::Flag(flag) => JsonValue::Bool(flag),
        }
    }
}

impl RpcRequestView {
    /// The request as a JSON document: the JSON-RPC 2.0 envelope, with the
    /// members `jsonrpc`, `method`, `params` and `id`.
    pub open spec fn envelope(self) -> JsonValue {
        JsonValue::Object(
            map![
                "jsonrpc"@ => JsonValue::String(jsonrpc_version()),
                "method"@ => JsonValue::String(self.method.name()),
                "params"@ => JsonValue::Array(self.params.map_values(|p: RpcParamView| p.document())),
                "id"@ => JsonValue::Number(JsonNumber::PosInt(self.id)),
            ],
        )
    }
}

impl RpcParam {
    /// Builds the parameter as a JSON document.
    pub fn to_document(&self) -> (document: serde_json::Value)
        ensures
            json_model(document) == self@.document(),
    {
        match self {
            RpcParam::Text(text) => string_document(text.as_str()),
            RpcParam::Flag(flag) => bool_document(*flag),
        }
    }
}

impl RpcRequest {
    /// The request for the current gas price.
    pub fn gas_price() -> (request: RpcRequest)
        ensures
            request@ == request_for(EthRpcMethod::EthGasPrice, Seq::empty()),
    {
        let request = RpcRequest {
            method: EthRpcMethod::EthGasPrice,
            params: Vec::new(),
            id: REQUEST_ID,
        };
        assert(request@.params =~= Seq::empty());
        request
    }

    /// The request for the number of the latest block.
    pub fn block_number() -> (request: RpcRequest)
        ensures
            request@ == request_for(EthRpcMethod::EthBlockNumber, Seq::empty()),
    {
        let request = RpcRequest {
            method: EthRpcMethod::EthBlockNumber,
            params: Vec::new(),
            id: REQUEST_ID,
        };
        assert(request@.params =~= Seq::empty());
        request
    }

    /// The request for the block with the given number, transactions in
    /// full. The number is passed on as it stands.
    pub fn block_by_number(number: &str) -> (request: RpcRequest)
        ensures
            request@ == request_for(EthRpcMethod::EthGetBlockByNumber, number@),
    {
        let mut params: Vec<RpcParam> = Vec::new();
        params.push(RpcParam::Text(number.to_owned()));
        params.push(RpcParam::Flag(true));
        let request = RpcRequest { method: EthRpcMethod::EthGetBlockByNumber, params, id: REQUEST_ID };
        assert(request@.params =~= params_of(EthRpcMethod::EthGetBlockByNumber, number@));
        request
    }

    /// Builds the request as a JSON document.
    pub fn to_document(&self) -> (document: serde_json::Value)
        ensures
            json_model(document) == self@.envelope(),
    {
        let mut params: Vec<serde_json::Value> = Vec::new();
        let mut i: usize = 0;
        while i < self.params.len()
            invariant
                i <= self.params.len(),
                params.len() == i,
                forall|j: int|
                    0 <= j < i ==> json_model(#[trigger] params@[j]) == self.params@[j]@.document(),
            decreases self.params.len() - i,
        {
            let item = self.params[i].to_document();
            params.push(item);
            i = i + 1;
        }
        assert(params@.map_values(|item: serde_json::Value| json_model(item))
            =~= self@.params.map_values(|p: RpcParamView| p.document()));
        let mut document = empty_object();
        insert_member(&mut document, "jsonrpc", string_document("2.0"));
        insert_member(&mut document, "method", string_document(self.method.as_str()));
        insert_member(&mut document, "params", array_document(params));
        insert_member(&mut document, "id", unsigned_document(self.id));
        assert(json_model(document)->Object_0 =~= self@.envelope()->Object_0);
        document
    }

    /// Prints the request as the JSON text to post.
    pub fn body(&self) -> (text: String)
        ensures
            text@ == json_text(self@.envelope()),
    {
        let document = self.to_document();
        print_document(&document)
    }
}

/// A member that an answer must have.
#[derive(Clone, Copy, Debug, PartialEq, Eq, Structural)]
pub enum Field {
    /// `result`, at the top of the answer.
    Result,
    /// `baseFeePerGas`, in the block that is the result.
    BaseFeePerGas,
}

/// Why an answer could not be read.
#[derive(Clone, Copy, Debug, PartialEq, Eq, Structural)]
pub enum RpcError {
    /// The body is no JSON document, or the document, its `result` or both
    /// are of another type than the method's answer has.
    Deserialization,
    /// The document is an object of the right type, but lacks the member.
    MissingField(Field),
}

/// What was read from an answer.
#[derive(Clone, Debug, PartialEq, Eq)]
pub enum RpcResult {
    /// The `result`, which is a string, as it stands.
    ScalarResult(String),
    /// The `baseFeePerGas` member of the `result`, which is an object, as
    /// JSON text: a string comes with its quote characters.
    ObjectField(String),
}

/// What an [`RpcResult`] holds, as mathematical values.
pub enum RpcResultView {
    ScalarResult(Seq<char>),
    ObjectField(Seq<char>),
}

impl View for RpcResult {
    type V = RpcResultView;

    open spec fn view(&self) -> RpcResultView {
        match self {
            RpcResult::ScalarResult(text) => RpcResultView::ScalarResult(text@),
            RpcResult::ObjectField(text) => RpcResultView::ObjectField(text@),
        }
    }
}

impl RpcResultView {
    /// The text that was read, whichever the shape.
    pub open spec fn text(self) -> Seq<char> {
        match self {
            RpcResultView::ScalarResult(text) => text,
            RpcResultView::ObjectField(text) => text,
        }
    }
}

impl RpcResult {
    /// Hands out the text that was read, whichever the shape.
    pub fn into_text(self) -> (text: String)
        ensures
            text@ == self@.text(),
    {
        match self {
            RpcResult::ScalarResult(text) => text,
            RpcResult::ObjectField(text) => text,
        }
    }
}

/// A result with what was read taken by its view.
pub open spec fn outcome(r: Result<RpcResult, RpcError>) -> Result<RpcResultView, RpcError> {
    match r {
        Ok(result) => Ok(result@),
        Err(e) => Err(e),
    }
}

/// What an answer in the first shape gives: the `result` of a document that
/// is an object whose `result` is a string.
pub open spec fn scalar_result_of(document: JsonValue) -> Result<RpcResultView, RpcError> {
    if !(document is Object) {
        Err(RpcError::Deserialization)
    } else {
        match document.member(result_key()) {
            None => Err(RpcError::MissingField(Field::Result)),
            Some(JsonValue::String(text)) => Ok(RpcResultView::ScalarResult(text)),
            Some(_) => Err(RpcError::Deserialization),
        }
    }
}

/// What an answer in the second shape gives: the `baseFeePerGas` member, as
/// JSON text, of a document that is an object whose `result` is an object.
pub open spec fn object_field_of(document: JsonValue) -> Result<RpcResultView, RpcError> {
    if !(document is Object) {
        Err(RpcError::Deserialization)
    } else {
        match document.member(result_key()) {
            None => Err(RpcError::MissingField(Field::Result)),
            Some(block) => if !(block is Object) {
                Err(RpcError::Deserialization)
            } else {
                match block.member(base_fee_key()) {
                    None => Err(RpcError::MissingField(Field::BaseFeePerGas)),
                    Some(fee) => Ok(RpcResultView::ObjectField(json_text(fee))),
                }
            },
        }
    }
}

/// The base fee in an answer in the second shape, where it is a JSON string
/// with no character to escape, as a hex quantity is.
pub open spec fn plain_base_fee_of(document: JsonValue) -> Option<Seq<char>> {
    match document.member(result_key()) {
        None => None,
        Some(block) => match block.member(base_fee_key()) {
            Some(JsonValue::String(fee)) => if printed_verbatim(fee) {
                Some(fee)
            } else {
                None
            },
            _ => None,
        },
    }
}

/// The base fee in the body of an answer in the second shape, where it is a
/// JSON string with no character to escape.
pub open spec fn plain_base_fee(body: Seq<u8>) -> Option<Seq<char>> {
    match json_parse(body) {
        None => None,
        Some(document) => plain_base_fee_of(document),
    }
}

/// What a method's answer gives, once it is parsed.
pub open spec fn result_of(method: EthRpcMethod, document: JsonValue) -> Result<
    RpcResultView,
    RpcError,
> {
    match method {
        EthRpcMethod::EthGasPrice => scalar_result_of(document),
        EthRpcMethod::EthBlockNumber => scalar_result_of(document),
        EthRpcMethod::EthGetBlockByNumber => object_field_of(document),
    }
}

/// What the body of a method's answer gives.
pub open spec fn response_of(method: EthRpcMethod, body: Seq<u8>) -> Result<
    RpcResultView,
    RpcError,
> {
    match json_parse(body) {
        None => Err(RpcError::Deserialization),
        Some(document) => result_of(method, document),
    }
}

/// Reads an answer in the first shape from a parsed document.
pub fn scalar_result(document: &serde_json::Value) -> (read: Result<RpcResult, RpcError>)
    ensures
        outcome(read) == scalar_result_of(json_model(*document)),
{
    if !is_object(document) {
        return Err(RpcError::Deserialization);
    }
    match member_of(document, "result") {
        None => Err(RpcError::MissingField(Field::Result)),
        Some(result) => match text_of(result) {
            None => Err(RpcError::Deserialization),
            Some(text) => Ok(RpcResult::ScalarResult(text.to_owned())),
        },
    }
}

/// Reads an answer in the second shape from a parsed document.
///
/// Where `baseFeePerGas` is a JSON string with no character to escape, as a
/// hex quantity is, what is read is that string between two quote
/// characters.
pub fn object_field(document: &serde_json::Value) -> (read: Result<RpcResult, RpcError>)
    ensures
        outcome(read) == object_field_of(json_model(*document)),
        plain_base_fee_of(json_model(*document)) matches Some(fee) ==> outcome(read) == Ok::<
            RpcResultView,
            RpcError,
        >(RpcResultView::ObjectField(quoted(fee))),
{
    if !is_object(document) {
        return Err(RpcError::Deserialization);
    }
    match member_of(document, "result") {
        None => Err(RpcError::MissingField(Field::Result)),
        Some(block) => {
            if !is_object(block) {
                return Err(RpcError::Deserialization);
            }
            match member_of(block, "baseFeePerGas") {
                None => Err(RpcError::MissingField(Field::BaseFeePerGas)),
                Some(fee) => Ok(RpcResult::ObjectField(print_document(fee))),
            }
        },
    }
}

/// Reads a method's answer from a parsed document: the first shape for the
/// gas price and the block number, the second for a block.
pub fn read_result(method: EthRpcMethod, document: &serde_json::Value) -> (read: Result<
    RpcResult,
    RpcError,
>)
    ensures
        outcome(read) == result_of(method, json_model(*document)),
        method is EthGetBlockByNumber ==> (plain_base_fee_of(json_model(*document)) matches Some(
            fee,
        ) ==> outcome(read) == Ok::<RpcResultView, RpcError>(
            RpcResultView::ObjectField(quoted(fee)),
        )),
{
    match method {
        EthRpcMethod::EthGasPrice => scalar_result(document),
        EthRpcMethod::EthBlockNumber => scalar_result(document),
        EthRpcMethod::EthGetBlockByNumber => object_field(document),
    }
}

/// Reads a method's answer from the body of the response.
///
/// What is read of a block whose base fee is a JSON string with no character
/// to escape is that string between two quote characters.
pub fn parse_response(method: EthRpcMethod, body: &[u8]) -> (read: Result<RpcResult, RpcError>)
    ensures
        outcome(read) == response_of(method, body@),
        method is EthGetBlockByNumber ==> (plain_base_fee(body@) matches Some(fee) ==> outcome(read)
            == Ok::<RpcResultView, RpcError>(RpcResultView::ObjectField(quoted(fee)))),
{
    match parse_document(body) {
        Err(_) => Err(RpcError::Deserialization),
        Ok(document) => read_result(method, &document),
    }
}

/// An answer whose block lacks `baseFeePerGas` is reported as lacking that
/// member, and as nothing else.
pub proof fn lemma_missing_base_fee(document: JsonValue)
    requires
        document is Object,
        document.member(result_key()) matches Some(block) && block is Object && block.member(
            base_fee_key(),
        ) is None,
    ensures
        object_field_of(document) == Err::<RpcResultView, RpcError>(
            RpcError::MissingField(Field::BaseFeePerGas),
        ),
{
}

} // verus!
