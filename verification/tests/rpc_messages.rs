use eth_gas_fees::method::EthRpcMethod;
use eth_gas_fees::rpc::{
    object_field, parse_response, read_result, scalar_result, Field, RpcError, RpcParam,
    RpcRequest, RpcResult, REQUEST_ID,
};

fn document(text: &str) -> serde_json::Value {
    serde_json::from_str(text).unwrap()
}

fn scalar(text: &str) -> Result<RpcResult, RpcError> {
    Ok(RpcResult::ScalarResult(text.to_string()))
}

fn field(text: &str) -> Result<RpcResult, RpcError> {
    Ok(RpcResult::ObjectField(text.to_string()))
}

#[test]
fn method_names() {
    assert_eq!(EthRpcMethod::EthGasPrice.as_str(), "eth_gasPrice");
    assert_eq!(EthRpcMethod::EthBlockNumber.as_str(), "eth_blockNumber");
    assert_eq!(EthRpcMethod::EthGetBlockByNumber.as_str(), "eth_getBlockByNumber");
}

#[test]
fn request_for_the_gas_price() {
    let request = RpcRequest::gas_price();
    assert_eq!(request.method, EthRpcMethod::EthGasPrice);
    assert_eq!(request.params, Vec::<RpcParam>::new());
    assert_eq!(request.id, 1);
    assert_eq!(
        request.body(),
        r#"{"id":1,"jsonrpc":"2.0","method":"eth_gasPrice","params":[]}"#
    );
}

#[test]
fn request_for_the_block_number() {
    let request = RpcRequest::block_number();
    assert_eq!(request.method, EthRpcMethod::EthBlockNumber);
    assert!(request.params.is_empty());
    assert_eq!(request.id, REQUEST_ID);
    assert_eq!(
        request.body(),
        r#"{"id":1,"jsonrpc":"2.0","method":"eth_blockNumber","params":[]}"#
    );
}

#[test]
fn request_for_a_block() {
    let request = RpcRequest::block_by_number("0x12a05f1");
    assert_eq!(request.method, EthRpcMethod::EthGetBlockByNumber);
    assert_eq!(
        request.params,
        vec![RpcParam::Text("0x12a05f1".to_string()), RpcParam::Flag(true)]
    );
    assert_eq!(request.id, 1);
    assert_eq!(
        request.body(),
        r#"{"id":1,"jsonrpc":"2.0","method":"eth_getBlockByNumber","params":["0x12a05f1",true]}"#
    );
}

#[test]
fn request_document_is_the_envelope() {
    let sent = RpcRequest::block_by_number("0x10").to_document();
    let envelope = sent.as_object().unwrap();
    assert_eq!(envelope.len(), 4);
    assert_eq!(envelope["jsonrpc"], serde_json::Value::from("2.0"));
    assert_eq!(envelope["method"], serde_json::Value::from("eth_getBlockByNumber"));
    assert_eq!(
        envelope["params"],
        serde_json::Value::from(vec![serde_json::Value::from("0x10"), serde_json::Value::from(true)])
    );
    assert_eq!(envelope["id"], serde_json::Value::from(1u64));
    let sent = RpcRequest::gas_price().to_document();
    assert_eq!(sent["method"], serde_json::Value::from("eth_gasPrice"));
    assert_eq!(sent["params"], serde_json::Value::from(Vec::<serde_json::Value>::new()));
}

#[test]
fn request_document_holds_any_parameters() {
    let request = RpcRequest {
        method: EthRpcMethod::EthBlockNumber,
        params: vec![
            RpcParam::Flag(false),
            RpcParam::Text("a \"b\"".to_string()),
            RpcParam::Flag(true),
        ],
        id: 7,
    };
    assert_eq!(
        request.body(),
        r#"{"id":7,"jsonrpc":"2.0","method":"eth_blockNumber","params":[false,"a \"b\"",true]}"#
    );
    assert_eq!(RpcParam::Flag(true).to_document(), serde_json::Value::from(true));
    assert_eq!(RpcParam::Text("x".to_string()).to_document(), serde_json::Value::from("x"));
}

#[test]
fn request_body_reads_back_as_the_request() {
    let request = RpcRequest::block_by_number("0x\u{e9}\n\"");
    let read: serde_json::Value = serde_json::from_str(&request.body()).unwrap();
    assert_eq!(read, request.to_document());
    assert_eq!(read["params"][0].as_str(), Some("0x\u{e9}\n\""));
}

#[test]
fn request_passes_the_block_number_on_unchanged() {
    let request = RpcRequest::block_by_number("latest");
    assert_eq!(request.params[0], RpcParam::Text("latest".to_string()));
    let request = RpcRequest::block_by_number("");
    assert_eq!(request.params[0], RpcParam::Text(String::new()));
}

#[test]
fn reads_a_scalar_result() {
    let body = br#"{"jsonrpc":"2.0","id":1,"result":"0x3b9aca00"}"#;
    assert_eq!(parse_response(EthRpcMethod::EthGasPrice, body), scalar("0x3b9aca00"));
    assert_eq!(parse_response(EthRpcMethod::EthBlockNumber, body), scalar("0x3b9aca00"));
}

#[test]
fn scalar_result_is_returned_verbatim() {
    let body = r#"{"result":" not hex \u00e9 é\n"}"#.as_bytes();
    assert_eq!(
        parse_response(EthRpcMethod::EthGasPrice, body),
        scalar(" not hex \u{e9} \u{e9}\n")
    );
    let body = br#"{"result":""}"#;
    assert_eq!(parse_response(EthRpcMethod::EthGasPrice, body), scalar(""));
}

#[test]
fn scalar_result_needs_no_other_member() {
    let body = br#"  { "result" : "0x1" }  "#;
    assert_eq!(parse_response(EthRpcMethod::EthBlockNumber, body), scalar("0x1"));
}

#[test]
fn reads_the_base_fee_of_a_block() {
    let body = br#"{"jsonrpc":"2.0","id":1,"result":{"number":"0x10","baseFeePerGas":"0x1dcd6500","transactions":[]}}"#;
    assert_eq!(
        parse_response(EthRpcMethod::EthGetBlockByNumber, body),
        field("\"0x1dcd6500\"")
    );
}

#[test]
fn base_fee_is_returned_as_json_text() {
    let body = br#"{"result":{"baseFeePerGas":7}}"#;
    assert_eq!(parse_response(EthRpcMethod::EthGetBlockByNumber, body), field("7"));
    let body = br#"{"result":{"baseFeePerGas":null}}"#;
    assert_eq!(parse_response(EthRpcMethod::EthGetBlockByNumber, body), field("null"));
    let body = br#"{"result":{"baseFeePerGas":{"b":[1, true],"a":"x"}}}"#;
    assert_eq!(
        parse_response(EthRpcMethod::EthGetBlockByNumber, body),
        field("{\"a\":\"x\",\"b\":[1,true]}")
    );
}

#[test]
fn malformed_json_is_a_deserialization_error() {
    for body in [
        &b""[..],
        b"not json",
        b"{\"result\":\"0x1\"",
        b"{\"result\":\"0x1\"} trailing",
        b"{\"result\":\"\xff\"}",
    ] {
        for method in [
            EthRpcMethod::EthGasPrice,
            EthRpcMethod::EthBlockNumber,
            EthRpcMethod::EthGetBlockByNumber,
        ] {
            assert_eq!(parse_response(method, body), Err(RpcError::Deserialization));
        }
    }
}

#[test]
fn a_document_that_is_no_object_is_a_deserialization_error() {
    for body in [&b"[]"[..], b"\"0x1\"", b"null", b"1", b"[\"2.0\",\"0x1\"]"] {
        assert_eq!(
            parse_response(EthRpcMethod::EthGasPrice, body),
            Err(RpcError::Deserialization)
        );
        assert_eq!(
            parse_response(EthRpcMethod::EthGetBlockByNumber, body),
            Err(RpcError::Deserialization)
        );
    }
}

#[test]
fn missing_result_is_a_missing_field() {
    let body = br#"{"jsonrpc":"2.0","id":1,"error":{"code":-32601,"message":"no such method"}}"#;
    assert_eq!(
        parse_response(EthRpcMethod::EthGasPrice, body),
        Err(RpcError::MissingField(Field::Result))
    );
    assert_eq!(
        parse_response(EthRpcMethod::EthGetBlockByNumber, body),
        Err(RpcError::MissingField(Field::Result))
    );
    assert_eq!(
        parse_response(EthRpcMethod::EthBlockNumber, b"{}"),
        Err(RpcError::MissingField(Field::Result))
    );
}

#[test]
fn a_result_of_the_wrong_type_is_a_deserialization_error() {
    for body in [
        &br#"{"result":16}"#[..],
        br#"{"result":null}"#,
        br#"{"result":["0x10"]}"#,
        br#"{"result":{"baseFeePerGas":"0x1"}}"#,
    ] {
        assert_eq!(
            parse_response(EthRpcMethod::EthGasPrice, body),
            Err(RpcError::Deserialization)
        );
    }
    for body in [
        &br#"{"result":16}"#[..],
        br#"{"result":null}"#,
        br#"{"result":"0x10"}"#,
        br#"{"result":[{"baseFeePerGas":"0x1"}]}"#,
    ] {
        assert_eq!(
            parse_response(EthRpcMethod::EthGetBlockByNumber, body),
            Err(RpcError::Deserialization)
        );
    }
}

#[test]
fn missing_base_fee_is_a_missing_field() {
    let body = br#"{"jsonrpc":"2.0","id":1,"result":{"number":"0x10","gasUsed":"0x5208"}}"#;
    assert_eq!(
        parse_response(EthRpcMethod::EthGetBlockByNumber, body),
        Err(RpcError::MissingField(Field::BaseFeePerGas))
    );
    assert_eq!(
        parse_response(EthRpcMethod::EthGetBlockByNumber, br#"{"result":{}}"#),
        Err(RpcError::MissingField(Field::BaseFeePerGas))
    );
    // The member is looked for in the block, nowhere else.
    assert_eq!(
        parse_response(
            EthRpcMethod::EthGetBlockByNumber,
            br#"{"baseFeePerGas":"0x1","result":{"header":{"baseFeePerGas":"0x1"}}}"#
        ),
        Err(RpcError::MissingField(Field::BaseFeePerGas))
    );
}

#[test]
fn member_names_are_matched_exactly() {
    assert_eq!(
        parse_response(EthRpcMethod::EthGasPrice, br#"{"Result":"0x1"}"#),
        Err(RpcError::MissingField(Field::Result))
    );
    assert_eq!(
        parse_response(EthRpcMethod::EthGetBlockByNumber, br#"{"result":{"basefeepergas":"0x1"}}"#),
        Err(RpcError::MissingField(Field::BaseFeePerGas))
    );
}

#[test]
fn reads_from_a_parsed_document() {
    let flat = document(r#"{"jsonrpc":"2.0","result":"0x10"}"#);
    let block = document(r#"{"jsonrpc":"2.0","result":{"baseFeePerGas":"0x7"}}"#);
    assert_eq!(scalar_result(&flat), scalar("0x10"));
    assert_eq!(scalar_result(&block), Err(RpcError::Deserialization));
    assert_eq!(object_field(&block), field("\"0x7\""));
    assert_eq!(object_field(&flat), Err(RpcError::Deserialization));
    assert_eq!(read_result(EthRpcMethod::EthGasPrice, &flat), scalar("0x10"));
    assert_eq!(read_result(EthRpcMethod::EthBlockNumber, &flat), scalar("0x10"));
    assert_eq!(read_result(EthRpcMethod::EthGetBlockByNumber, &block), field("\"0x7\""));
    assert_eq!(
        read_result(EthRpcMethod::EthGetBlockByNumber, &document("{}")),
        Err(RpcError::MissingField(Field::Result))
    );
}

#[test]
fn hands_out_the_text_of_either_shape() {
    assert_eq!(RpcResult::ScalarResult("0x1".to_string()).into_text(), "0x1");
    assert_eq!(RpcResult::ObjectField("\"0x2\"".to_string()).into_text(), "\"0x2\"");
}
