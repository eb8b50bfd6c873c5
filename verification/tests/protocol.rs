use signal_relay::json::{member, same_text, Json};
use signal_relay::protocol::{decimal, Envelope};

fn offer() -> Envelope {
    Envelope::Offer { sdp_type: "offer".to_string(), sdp: "v=0\r\no=- 1 2 IN IP4 127.0.0.1".to_string() }
}

fn candidate(creator: Option<bool>) -> Envelope {
    Envelope::Candidate {
        candidate: "candidate:1 1 UDP 2122252543 192.168.1.2 50000 typ host".to_string(),
        sdp_m_line_index: 0,
        sdp_mid: "0".to_string(),
        username_fragment: "abcd".to_string(),
        creator,
    }
}

#[test]
fn decode_empty_string_is_unknown() {
    assert_eq!(Envelope::decode(""), Envelope::Unknown);
}

#[test]
fn decode_non_json_is_unknown() {
    assert_eq!(Envelope::decode("hello there"), Envelope::Unknown);
    assert_eq!(Envelope::decode("{\"Offer\":"), Envelope::Unknown);
    assert_eq!(Envelope::decode("{'Ready'}"), Envelope::Unknown);
}

#[test]
fn decode_unknown_discriminator_is_unknown() {
    assert_eq!(Envelope::decode("{\"Bogus\":{\"sdp\":\"x\"}}"), Envelope::Unknown);
    assert_eq!(Envelope::decode("{\"offer\":{\"type\":\"offer\",\"sdp\":\"x\"}}"), Envelope::Unknown);
    assert_eq!(Envelope::decode("\"Steady\""), Envelope::Unknown);
    assert_eq!(Envelope::decode("\"ready\""), Envelope::Unknown);
}

#[test]
fn decode_other_json_is_unknown() {
    assert_eq!(Envelope::decode("null"), Envelope::Unknown);
    assert_eq!(Envelope::decode("true"), Envelope::Unknown);
    assert_eq!(Envelope::decode("17"), Envelope::Unknown);
    assert_eq!(Envelope::decode("[\"Ready\"]"), Envelope::Unknown);
    assert_eq!(Envelope::decode("{}"), Envelope::Unknown);
    assert_eq!(Envelope::decode("{\"Text\":\"a\",\"Alert\":\"b\"}"), Envelope::Unknown);
}

#[test]
fn decode_ready() {
    assert_eq!(Envelope::decode("\"Ready\""), Envelope::Ready);
    assert_eq!(Envelope::decode("  \"Ready\"\n"), Envelope::Ready);
}

#[test]
fn decode_unknown_tag_itself() {
    assert_eq!(Envelope::decode("\"Unknown\""), Envelope::Unknown);
}

#[test]
fn decode_offer_and_answer() {
    assert_eq!(
        Envelope::decode("{\"Offer\":{\"type\":\"offer\",\"sdp\":\"v=0\"}}"),
        Envelope::Offer { sdp_type: "offer".to_string(), sdp: "v=0".to_string() }
    );
    assert_eq!(
        Envelope::decode("{\"Answer\":{\"sdp\":\"v=0\",\"type\":\"answer\"}}"),
        Envelope::Answer { sdp_type: "answer".to_string(), sdp: "v=0".to_string() }
    );
}

#[test]
fn decode_description_ignores_other_members() {
    assert_eq!(
        Envelope::decode("{\"Offer\":{\"type\":\"offer\",\"sdp\":\"v=0\",\"extra\":[1,2]}}"),
        Envelope::Offer { sdp_type: "offer".to_string(), sdp: "v=0".to_string() }
    );
}

#[test]
fn decode_description_needs_both_strings() {
    assert_eq!(Envelope::decode("{\"Offer\":{\"type\":\"offer\"}}"), Envelope::Unknown);
    assert_eq!(Envelope::decode("{\"Offer\":{\"type\":\"offer\",\"sdp\":7}}"), Envelope::Unknown);
    assert_eq!(Envelope::decode("{\"Offer\":{\"Type\":\"offer\",\"sdp\":\"v=0\"}}"), Envelope::Unknown);
    assert_eq!(Envelope::decode("{\"Answer\":\"v=0\"}"), Envelope::Unknown);
    assert_eq!(Envelope::decode("{\"Answer\":null}"), Envelope::Unknown);
}

#[test]
fn decode_alert_and_text() {
    assert_eq!(Envelope::decode("{\"Alert\":\"full\"}"), Envelope::Alert { detail: "full".to_string() });
    assert_eq!(Envelope::decode("{\"Text\":\"hi\"}"), Envelope::Text { body: "hi".to_string() });
    assert_eq!(Envelope::decode("{\"Text\":\"\"}"), Envelope::Text { body: String::new() });
    assert_eq!(Envelope::decode("{\"Text\":5}"), Envelope::Unknown);
    assert_eq!(Envelope::decode("{\"Alert\":{\"detail\":\"x\"}}"), Envelope::Unknown);
}

#[test]
fn decode_text_unescapes() {
    assert_eq!(
        Envelope::decode("{\"Text\":\"a\\\"b\\\\c\\nd\\u00e9\"}"),
        Envelope::Text { body: "a\"b\\c\nd\u{e9}".to_string() }
    );
}

#[test]
fn decode_candidate() {
    let text = "{\"Candidate\":{\"candidate\":\"candidate:1 1 UDP 2122252543 192.168.1.2 50000 typ host\",\"sdpMLineIndex\":0,\"sdpMid\":\"0\",\"usernameFragment\":\"abcd\",\"creator\":true}}";
    assert_eq!(Envelope::decode(text), candidate(Some(true)));
}

#[test]
fn decode_candidate_without_creator() {
    let missing = "{\"Candidate\":{\"candidate\":\"candidate:1 1 UDP 2122252543 192.168.1.2 50000 typ host\",\"sdpMLineIndex\":0,\"sdpMid\":\"0\",\"usernameFragment\":\"abcd\"}}";
    assert_eq!(Envelope::decode(missing), candidate(None));
    let null = "{\"Candidate\":{\"candidate\":\"candidate:1 1 UDP 2122252543 192.168.1.2 50000 typ host\",\"sdpMLineIndex\":0,\"sdpMid\":\"0\",\"usernameFragment\":\"abcd\",\"creator\":null}}";
    assert_eq!(Envelope::decode(null), candidate(None));
}

#[test]
fn decode_candidate_rejects_bad_members() {
    let bad_creator = "{\"Candidate\":{\"candidate\":\"c\",\"sdpMLineIndex\":0,\"sdpMid\":\"0\",\"usernameFragment\":\"u\",\"creator\":\"yes\"}}";
    assert_eq!(Envelope::decode(bad_creator), Envelope::Unknown);
    let no_mid = "{\"Candidate\":{\"candidate\":\"c\",\"sdpMLineIndex\":0,\"usernameFragment\":\"u\"}}";
    assert_eq!(Envelope::decode(no_mid), Envelope::Unknown);
    let null_mid = "{\"Candidate\":{\"candidate\":\"c\",\"sdpMLineIndex\":0,\"sdpMid\":null,\"usernameFragment\":\"u\"}}";
    assert_eq!(Envelope::decode(null_mid), Envelope::Unknown);
    let wrong_case = "{\"Candidate\":{\"candidate\":\"c\",\"sdpmlineindex\":0,\"sdpMid\":\"0\",\"usernameFragment\":\"u\"}}";
    assert_eq!(Envelope::decode(wrong_case), Envelope::Unknown);
}

#[test]
fn decode_candidate_index_must_fit_32_bits() {
    let with_index = |index: &str| {
        format!(
            "{{\"Candidate\":{{\"candidate\":\"c\",\"sdpMLineIndex\":{},\"sdpMid\":\"0\",\"usernameFragment\":\"u\"}}}}",
            index
        )
    };
    let expect = |index: i32| Envelope::Candidate {
        candidate: "c".to_string(),
        sdp_m_line_index: index,
        sdp_mid: "0".to_string(),
        username_fragment: "u".to_string(),
        creator: None,
    };
    assert_eq!(Envelope::decode(&with_index("2147483647")), expect(i32::MAX));
    assert_eq!(Envelope::decode(&with_index("-2147483648")), expect(i32::MIN));
    assert_eq!(Envelope::decode(&with_index("-1")), expect(-1));
    assert_eq!(Envelope::decode(&with_index("2147483648")), Envelope::Unknown);
    assert_eq!(Envelope::decode(&with_index("-2147483649")), Envelope::Unknown);
    assert_eq!(Envelope::decode(&with_index("18446744073709551615")), Envelope::Unknown);
    assert_eq!(Envelope::decode(&with_index("1.5")), Envelope::Unknown);
    assert_eq!(Envelope::decode(&with_index("\"1\"")), Envelope::Unknown);
}

#[test]
fn encode_variants_without_payload() {
    assert_eq!(Envelope::Ready.encode(), "\"Ready\"");
    assert_eq!(Envelope::Unknown.encode(), "\"Unknown\"");
}

#[test]
fn encode_alert_and_text() {
    assert_eq!(Envelope::Alert { detail: "full".to_string() }.encode(), "{\"Alert\":\"full\"}");
    assert_eq!(Envelope::Text { body: "hi".to_string() }.encode(), "{\"Text\":\"hi\"}");
    assert_eq!(Envelope::Text { body: String::new() }.encode(), "{\"Text\":\"\"}");
}

#[test]
fn encode_quotes_strings_as_json() {
    assert_eq!(
        Envelope::Text { body: "a\"b\\c\nd".to_string() }.encode(),
        "{\"Text\":\"a\\\"b\\\\c\\nd\"}"
    );
}

#[test]
fn encode_offer_and_answer() {
    assert_eq!(
        Envelope::Offer { sdp_type: "offer".to_string(), sdp: "v=0\r\n".to_string() }.encode(),
        "{\"Offer\":{\"type\":\"offer\",\"sdp\":\"v=0\\r\\n\"}}"
    );
    assert_eq!(
        Envelope::Answer { sdp_type: "answer".to_string(), sdp: "v=0".to_string() }.encode(),
        "{\"Answer\":{\"type\":\"answer\",\"sdp\":\"v=0\"}}"
    );
}

#[test]
fn encode_candidate() {
    assert_eq!(
        candidate(None).encode(),
        "{\"Candidate\":{\"candidate\":\"candidate:1 1 UDP 2122252543 192.168.1.2 50000 typ host\",\"sdpMLineIndex\":0,\"sdpMid\":\"0\",\"usernameFragment\":\"abcd\",\"creator\":null}}"
    );
    let flagged = Envelope::Candidate {
        candidate: "c".to_string(),
        sdp_m_line_index: -12,
        sdp_mid: "1".to_string(),
        username_fragment: "u".to_string(),
        creator: Some(false),
    };
    assert_eq!(
        flagged.encode(),
        "{\"Candidate\":{\"candidate\":\"c\",\"sdpMLineIndex\":-12,\"sdpMid\":\"1\",\"usernameFragment\":\"u\",\"creator\":false}}"
    );
}

#[test]
fn decimal_exact_values() {
    assert_eq!(decimal(0), "0");
    assert_eq!(decimal(7), "7");
    assert_eq!(decimal(10), "10");
    assert_eq!(decimal(-1), "-1");
    assert_eq!(decimal(1203), "1203");
    assert_eq!(decimal(i32::MAX), "2147483647");
    assert_eq!(decimal(i32::MIN), "-2147483648");
}

#[test]
fn encode_then_decode_gives_the_envelope_back() {
    let envelopes = vec![
        candidate(None),
        candidate(Some(true)),
        candidate(Some(false)),
        offer(),
        Envelope::Answer { sdp_type: "answer".to_string(), sdp: "a \"quoted\" \\ line\n".to_string() },
        Envelope::Alert { detail: "{\"ip\":\"1.2.3.4:5\"}".to_string() },
        Envelope::Text { body: "caf\u{e9} \u{1f600}".to_string() },
        Envelope::Ready,
        Envelope::Unknown,
    ];
    for envelope in envelopes {
        assert_eq!(Envelope::decode(&envelope.encode()), envelope);
    }
}

#[test]
fn from_json_reads_a_document() {
    let doc = Json::Object(vec![(
        "Offer".to_string(),
        Json::Object(vec![
            ("sdp".to_string(), Json::Text("v=0".to_string())),
            ("type".to_string(), Json::Text("offer".to_string())),
        ]),
    )]);
    assert_eq!(
        Envelope::from_json(&doc),
        Envelope::Offer { sdp_type: "offer".to_string(), sdp: "v=0".to_string() }
    );
    assert_eq!(Envelope::from_json(&Json::Text("Ready".to_string())), Envelope::Ready);
    assert_eq!(Envelope::from_json(&Json::Null), Envelope::Unknown);
    assert_eq!(Envelope::from_json(&Json::Array(vec![Json::Text("Ready".to_string())])), Envelope::Unknown);
    assert_eq!(Envelope::from_json(&Json::Object(vec![])), Envelope::Unknown);
    assert_eq!(
        Envelope::from_json(&Json::Object(vec![("Bogus".to_string(), Json::Null)])),
        Envelope::Unknown
    );
}

#[test]
fn from_json_takes_the_first_member_of_a_name() {
    let doc = Json::Object(vec![(
        "Answer".to_string(),
        Json::Object(vec![
            ("type".to_string(), Json::Text("answer".to_string())),
            ("sdp".to_string(), Json::Text("first".to_string())),
            ("sdp".to_string(), Json::Text("second".to_string())),
        ]),
    )]);
    assert_eq!(
        Envelope::from_json(&doc),
        Envelope::Answer { sdp_type: "answer".to_string(), sdp: "first".to_string() }
    );
}

#[test]
fn from_json_number_without_value_is_no_index() {
    let doc = Json::Object(vec![(
        "Candidate".to_string(),
        Json::Object(vec![
            ("candidate".to_string(), Json::Text("c".to_string())),
            ("sdpMLineIndex".to_string(), Json::Number(None)),
            ("sdpMid".to_string(), Json::Text("0".to_string())),
            ("usernameFragment".to_string(), Json::Text("u".to_string())),
        ]),
    )]);
    assert_eq!(Envelope::from_json(&doc), Envelope::Unknown);
}

#[test]
fn member_finds_by_name() {
    let members = vec![
        ("a".to_string(), Json::Bool(true)),
        ("b".to_string(), Json::Number(Some(3))),
    ];
    assert!(matches!(member(&members, "a"), Some(Json::Bool(true))));
    assert!(matches!(member(&members, "b"), Some(Json::Number(Some(3)))));
    assert!(member(&members, "c").is_none());
    assert!(member(&members, "A").is_none());
}

#[test]
fn same_text_compares_characters() {
    assert!(same_text("room", "room"));
    assert!(same_text("", ""));
    assert!(!same_text("room", "Room"));
    assert!(!same_text("room", "room "));
}
