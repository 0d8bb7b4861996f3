use pandora_toolchain::frame::{parse_v1, serialize_v1, Data, ProtocolError, Schema, TypeC};
use pandora_toolchain::protocol::{Protocol, ToolInfo};

fn leaf(s: &str) -> TypeC {
    TypeC::Single(Data { value: s.to_string() })
}

#[test]
fn negotiate_refuses_what_is_no_handshake() {
    let mut proto = Protocol::new(vec![1]);
    assert_eq!(proto.negotiate("hello"), Err(ProtocolError::NotNegotiationLine));
    assert_eq!(proto.negotiate(""), Err(ProtocolError::NotNegotiationLine));
    assert_eq!(proto.negotiate("KEY:1:DONE"), Err(ProtocolError::NotNegotiationLine));
    assert_eq!(proto.negotiate("xPNprotocol:a@1@1:b@1@1:K"), Err(ProtocolError::NotNegotiationLine));
}

#[test]
fn negotiate_refuses_a_malformed_handshake() {
    let mut proto = Protocol::new(vec![1]);
    assert_eq!(proto.negotiate("PNprotocol"), Err(ProtocolError::InvalidNegotiation));
    assert_eq!(proto.negotiate("PNprotocol:a@1@1"), Err(ProtocolError::InvalidNegotiation));
    assert_eq!(proto.negotiate("PNprotocol:a@1@1:b@1:K"), Err(ProtocolError::InvalidNegotiation));
    assert_eq!(proto.negotiate("PNprotocol:a@1@1:b@1@1@1:K"), Err(ProtocolError::InvalidNegotiation));
    assert_eq!(proto.negotiate("PNprotocol:a@1@1:b@1@x:K"), Err(ProtocolError::InvalidNegotiation));
    assert_eq!(proto.negotiate("PNprotocol:a@1@1:b@1@256:K"), Err(ProtocolError::InvalidNegotiation));
    assert_eq!(proto.negotiate("PNprotocol:a@1@1:b@1@:K"), Err(ProtocolError::InvalidNegotiation));
    // A version that this side does not speak.
    assert_eq!(proto.negotiate("PNprotocol:a@1@1:b@1@2:K"), Err(ProtocolError::InvalidNegotiation));
    // Nothing was recorded.
    assert_eq!(proto.extract_data("K:1:DONE").err(), Some(ProtocolError::UnknownNegKey));
}

#[test]
fn negotiate_records_the_third_part_under_the_last() {
    let mut proto = Protocol::new(vec![1, 3]);
    assert_eq!(proto.negotiate("PNprotocol:PNprotocol@0.57@3:PNmpeg@0.11@3:x:ABC"), Ok(()));
    let entry = proto.negotiated.get("ABC").unwrap();
    assert_eq!(entry.tool, "PNmpeg");
    assert_eq!(entry.build, "0.11");
    assert_eq!(entry.grammar_version, 3);
    assert!(proto.negotiated.get("x").is_none());
    // With three parts the key is the third part itself.
    assert_eq!(proto.negotiate("PNprotocolX:a@b@1:c@d@+1"), Ok(()));
    assert_eq!(proto.negotiated.get("c@d@+1").unwrap().grammar_version, 1);
}

#[test]
fn extract_data_tells_its_errors_apart() {
    let mut proto = Protocol::new(vec![1]);
    proto.negotiate("PNprotocol:a@1@1:b@1@1:K").unwrap();
    assert_eq!(proto.extract_data("no colon").err(), Some(ProtocolError::ParseError));
    assert_eq!(proto.extract_data("").err(), Some(ProtocolError::ParseError));
    assert_eq!(proto.extract_data("other:1:DONE").err(), Some(ProtocolError::UnknownNegKey));
    match proto.extract_data("K:").unwrap() {
        TypeC::Single(d) => assert_eq!(d.value, ""),
        TypeC::Multi(_) => panic!("expected a leaf"),
    }
}

#[test]
fn build_info_string_tells_its_errors_apart() {
    let mut proto = Protocol::new(vec![1]);
    proto.negotiate("PNprotocol:a@1@1:b@1@1:K").unwrap();
    let schema = Schema::Multi(vec![Schema::Leaf, Schema::Leaf]);
    let fitting = TypeC::Multi(vec![leaf("1"), leaf("DONE")]);
    assert_eq!(
        proto.build_info_string("nokey", &schema, &fitting).err(),
        Some(ProtocolError::UnknownNegKey)
    );
    let short = TypeC::Multi(vec![leaf("1")]);
    assert_eq!(
        proto.build_info_string("K", &schema, &short).err(),
        Some(ProtocolError::NegotiationMalformed)
    );
    assert_eq!(
        proto.build_info_string("K", &schema, &leaf("x")).err(),
        Some(ProtocolError::NegotiationMalformed)
    );
    assert_eq!(
        proto.build_info_string("K", &Schema::Leaf, &fitting).err(),
        Some(ProtocolError::NegotiationMalformed)
    );
    let nested_wrong = TypeC::Multi(vec![leaf("1"), TypeC::Multi(vec![leaf("a")])]);
    assert_eq!(
        proto.build_info_string("K", &schema, &nested_wrong).err(),
        Some(ProtocolError::NegotiationMalformed)
    );
    assert_eq!(proto.build_info_string("K", &schema, &fitting), Ok("K:1:DONE".to_string()));
}

#[test]
fn request_negotiates_its_own_handshake() {
    let mut proto = Protocol::new(vec![1]);
    let sender = ToolInfo { tool: "PNdloadworker", build: "1", proto: 1 };
    let target = ToolInfo { tool: "PNcurl", build: "0.1.1", proto: 1 };
    let line = proto.request(sender, target, "PNcurlT7").unwrap();
    assert_eq!(line, "PNprotocol:PNdloadworker@1@1:PNcurl@0.1.1@1:PNcurlT7");
    let entry = proto.negotiated.get("PNcurlT7").unwrap();
    assert_eq!(entry.tool, "PNcurl");
    assert_eq!(entry.build, "0.1.1");
    assert_eq!(entry.grammar_version, 1);
    // A target that speaks a version that this side does not.
    let other = ToolInfo { tool: "PNcurl", build: "0.1.1", proto: 2 };
    assert_eq!(proto.request(sender, other, "K2").err(), Some(ProtocolError::InvalidNegotiation));
    assert!(proto.negotiated.get("K2").is_none());
}

#[test]
fn payloads_use_one_delimiter_for_each_depth() {
    let schema = Schema::Multi(vec![
        Schema::Multi(vec![Schema::Multi(vec![Schema::Leaf, Schema::Leaf]), Schema::Leaf]),
        Schema::Leaf,
    ]);
    let data = TypeC::Multi(vec![
        TypeC::Multi(vec![TypeC::Multi(vec![leaf("a"), leaf("b")]), leaf("c")]),
        leaf("d"),
    ]);
    assert_eq!(serialize_v1(&schema, &data), Ok("a%b/c:d".to_string()));
    match parse_v1("a%b/c:d").unwrap() {
        TypeC::Multi(top) => {
            assert_eq!(top.len(), 2);
            match &top[0] {
                TypeC::Multi(mid) => match &mid[0] {
                    TypeC::Multi(low) => assert_eq!(low.len(), 2),
                    TypeC::Single(_) => panic!("expected a node"),
                },
                TypeC::Single(_) => panic!("expected a node"),
            }
        }
        TypeC::Single(_) => panic!("expected a node"),
    }
    assert_eq!(serialize_v1(&Schema::Multi(vec![]), &TypeC::Multi(vec![])), Ok(String::new()));
}
