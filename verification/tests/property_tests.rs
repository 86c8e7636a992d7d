use sdp_attributes::attribute_type::parse_attribute;
use sdp_attributes::attribute_type::parse_attribute_kind;
use sdp_attributes::attribute_type::SdpAttribute;
use sdp_attributes::attribute_type::SdpAttributeCandidateTcpType;
use sdp_attributes::attribute_type::SdpAttributeType;
use sdp_attributes::attribute_type::SdpAttributeValue;

fn all_kinds() -> Vec<SdpAttributeType> {
    vec![
        SdpAttributeType::BundleOnly,
        SdpAttributeType::Candidate,
        SdpAttributeType::EndOfCandidates,
        SdpAttributeType::Extmap,
        SdpAttributeType::Fingerprint,
        SdpAttributeType::Fmtp,
        SdpAttributeType::Group,
        SdpAttributeType::IceLite,
        SdpAttributeType::IceOptions,
        SdpAttributeType::IcePwd,
        SdpAttributeType::IceUfrag,
        SdpAttributeType::Inactive,
        SdpAttributeType::Mid,
        SdpAttributeType::Msid,
        SdpAttributeType::MsidSemantic,
        SdpAttributeType::Rid,
        SdpAttributeType::Recvonly,
        SdpAttributeType::Rtcp,
        SdpAttributeType::RtcpFb,
        SdpAttributeType::RtcpMux,
        SdpAttributeType::RtcpRsize,
        SdpAttributeType::Rtpmap,
        SdpAttributeType::Sctpmap,
        SdpAttributeType::SctpPort,
        SdpAttributeType::Sendonly,
        SdpAttributeType::Sendrecv,
        SdpAttributeType::Setup,
        SdpAttributeType::Simulcast,
        SdpAttributeType::Ssrc,
        SdpAttributeType::SsrcGroup,
    ]
}

#[test]
fn test_flag_kinds_accept_only_empty_payload() {
    let flags = vec![
        SdpAttributeType::BundleOnly,
        SdpAttributeType::EndOfCandidates,
        SdpAttributeType::IceLite,
        SdpAttributeType::Inactive,
        SdpAttributeType::Recvonly,
        SdpAttributeType::RtcpMux,
        SdpAttributeType::RtcpRsize,
        SdpAttributeType::Sendonly,
        SdpAttributeType::Sendrecv,
    ];
    for kind in flags {
        let mut ok = SdpAttribute::new(kind);
        assert!(ok.parse_value("").is_ok());
        let mut bad = SdpAttribute::new(kind);
        let err = bad.parse_value("x").unwrap_err();
        assert!(err.is_malformed());
    }
}

#[test]
fn test_classify_display_round_trip() {
    for kind in all_kinds() {
        let spelled = kind.display_string();
        let classified = parse_attribute_kind(spelled.as_str()).unwrap();
        assert_eq!(classified, kind);
    }
}

#[test]
fn test_candidate_port_bounds_and_extensions() {
    assert!(parse_attribute("candidate:0 1 UDP 2122252543 172.16.156.106 65535 typ host").is_ok());
    let err = parse_attribute("candidate:0 1 UDP 2122252543 172.16.156.106 65536 typ host")
        .unwrap_err();
    assert!(err.is_malformed());

    let attr = parse_attribute("candidate:0 1 TCP 2122252543 172.16.156.106 49760 typ host tcptype active")
        .unwrap();
    match attr.value {
        Some(SdpAttributeValue::Candidate { value }) => {
            assert!(matches!(value.tcp_type, Some(SdpAttributeCandidateTcpType::Active)));
        }
        _ => panic!("candidate attribute must carry a candidate value"),
    }

    let err = parse_attribute("candidate:0 1 UDP 2122252543 172.16.156.106 49760 typ host foo bar")
        .unwrap_err();
    assert!(err.is_unsupported());
}

#[test]
fn test_group_tags() {
    let attr = parse_attribute("group:LS").unwrap();
    match attr.value {
        Some(SdpAttributeValue::Group { value }) => {
            assert_eq!(value.tags.len(), 0);
        }
        _ => panic!("group attribute must carry a group value"),
    }

    let attr = parse_attribute("group:BUNDLE a b c").unwrap();
    match attr.value {
        Some(SdpAttributeValue::Group { value }) => {
            assert_eq!(value.tags.len(), 3);
            assert_eq!(value.tags[0], "a");
            assert_eq!(value.tags[1], "b");
            assert_eq!(value.tags[2], "c");
        }
        _ => panic!("group attribute must carry a group value"),
    }

    assert!(parse_attribute("group:XYZ").unwrap_err().is_malformed());
    assert!(parse_attribute("group:").unwrap_err().is_malformed());
}

#[test]
fn test_rtpmap_fields() {
    let attr = parse_attribute("rtpmap:109 opus/48000/2").unwrap();
    match attr.value {
        Some(SdpAttributeValue::Rtpmap { value }) => {
            assert_eq!(value.payload_type, 109);
            assert_eq!(value.codec_name, "opus");
            assert_eq!(value.frequency, Some(48000));
            assert_eq!(value.channels, Some(2));
        }
        _ => panic!("rtpmap attribute must carry a payload map value"),
    }

    let attr = parse_attribute("rtpmap:109 opus/48000").unwrap();
    match attr.value {
        Some(SdpAttributeValue::Rtpmap { value }) => {
            assert_eq!(value.frequency, Some(48000));
            assert_eq!(value.channels, None);
        }
        _ => panic!("rtpmap attribute must carry a payload map value"),
    }

    assert!(parse_attribute("rtpmap:109 a/b/c/d").unwrap_err().is_malformed());
}

#[test]
fn test_ssrc_fields() {
    let attr = parse_attribute("ssrc:2655508255 cname:{735484ea}").unwrap();
    match attr.value {
        Some(SdpAttributeValue::Ssrc { value }) => {
            assert_eq!(value.id, 2655508255);
            assert_eq!(value.attribute.as_deref(), Some("cname"));
            assert_eq!(value.value.as_deref(), Some("{735484ea}"));
        }
        _ => panic!("ssrc attribute must carry a synchronization-source value"),
    }

    let attr = parse_attribute("ssrc:2655508255 foo").unwrap();
    match attr.value {
        Some(SdpAttributeValue::Ssrc { value }) => {
            assert_eq!(value.attribute.as_deref(), Some("foo"));
            assert_eq!(value.value, None);
        }
        _ => panic!("ssrc attribute must carry a synchronization-source value"),
    }

    assert!(parse_attribute("ssrc:foo").unwrap_err().is_malformed());
}

#[test]
fn test_simulcast_second_direction_overwrites() {
    let attr = parse_attribute("simulcast:send 1;4,5 send 6;7").unwrap();
    match attr.value {
        Some(SdpAttributeValue::Simulcast { value }) => {
            assert_eq!(value.send.len(), 2);
            assert_eq!(value.send[0].ids.len(), 1);
            assert_eq!(value.send[0].ids[0].id, "6");
            assert_eq!(value.send[1].ids.len(), 1);
            assert_eq!(value.send[1].ids[0].id, "7");
            assert_eq!(value.receive.len(), 0);
        }
        _ => panic!("simulcast attribute must carry a simulcast value"),
    }

    assert!(parse_attribute("simulcast:send").unwrap_err().is_malformed());
    assert!(parse_attribute("simulcast:foobar 1").unwrap_err().is_malformed());
}

#[test]
fn test_simulcast_paused_ids() {
    let attr = parse_attribute("simulcast:recv ~test").unwrap();
    match attr.value {
        Some(SdpAttributeValue::Simulcast { value }) => {
            assert_eq!(value.receive.len(), 1);
            assert_eq!(value.receive[0].ids.len(), 1);
            assert_eq!(value.receive[0].ids[0].id, "test");
            assert!(value.receive[0].ids[0].paused);
        }
        _ => panic!("simulcast attribute must carry a simulcast value"),
    }
}

#[test]
fn test_parse_attribute_line_end_to_end() {
    let attr = parse_attribute("rtcp-fb:101 ccm fir").unwrap();
    assert_eq!(attr.name, SdpAttributeType::RtcpFb);
    match attr.value {
        Some(SdpAttributeValue::Rtcpfb { value }) => {
            assert_eq!(value.payload_type, 101);
            assert_eq!(value.feedback_type, "ccm fir");
        }
        _ => panic!("rtcp-fb attribute must carry a feedback value"),
    }
}

#[test]
fn test_unknown_keyword_is_unsupported() {
    let err = parse_attribute("unknownattribute:foo").unwrap_err();
    assert!(err.is_unsupported());
    assert_eq!(err.offending_text(), "unknownattribute");
}

#[test]
fn test_sctp_port_bounds() {
    let attr = parse_attribute("sctp-port:65535").unwrap();
    match attr.value {
        Some(SdpAttributeValue::Int { value }) => assert_eq!(value, 65535),
        _ => panic!("sctp-port attribute must carry an integer value"),
    }
    assert!(parse_attribute("sctp-port:65536").unwrap_err().is_malformed());
    assert!(parse_attribute("sctp-port:foo").unwrap_err().is_malformed());
}

#[test]
fn test_extmap_fields() {
    let attr = parse_attribute("extmap:2/sendonly some-url").unwrap();
    match attr.value {
        Some(SdpAttributeValue::Extmap { value }) => {
            assert_eq!(value.id, 2);
            assert!(value.direction.is_some());
            assert_eq!(value.url, "some-url");
        }
        _ => panic!("extmap attribute must carry an extension-map value"),
    }
    assert!(parse_attribute("extmap:2/sideways some-url").unwrap_err().is_malformed());
    assert!(parse_attribute("extmap:x some-url").unwrap_err().is_malformed());
}

#[test]
fn test_setup_roles() {
    for role in vec!["active", "actpass", "holdconn", "passive", "ACTPASS"] {
        let line = format!("setup:{}", role);
        assert!(parse_attribute(line.as_str()).is_ok());
    }
    assert!(parse_attribute("setup:sideways").unwrap_err().is_malformed());
}

#[test]
fn test_ice_options_token_list() {
    let attr = parse_attribute("ice-options:trickle renomination").unwrap();
    match attr.value {
        Some(SdpAttributeValue::Vector { value }) => {
            assert_eq!(value.len(), 2);
            assert_eq!(value[0], "trickle");
            assert_eq!(value[1], "renomination");
        }
        _ => panic!("ice-options attribute must carry a token list"),
    }
}

#[test]
fn test_fmtp_segments() {
    let attr = parse_attribute("fmtp:109 maxplaybackrate=48000;stereo=1").unwrap();
    match attr.value {
        Some(SdpAttributeValue::Fmtp { value }) => {
            assert_eq!(value.payload_type, 109);
            assert_eq!(value.tokens.len(), 2);
            assert_eq!(value.tokens[0], "109 maxplaybackrate=48000");
            assert_eq!(value.tokens[1], "stereo=1");
        }
        _ => panic!("fmtp attribute must carry a format-parameters value"),
    }
}

#[test]
fn test_rtcp_rejects_family_mismatch() {
    assert!(parse_attribute("rtcp:9 IN IP4 0.0.0.0").is_ok());
    assert!(parse_attribute("rtcp:9 IN IP6 ::1").is_ok());
    assert!(parse_attribute("rtcp:9 IN IP4 ::1").unwrap_err().is_malformed());
    assert!(parse_attribute("rtcp:9 IN IP6 0.0.0.0").unwrap_err().is_malformed());
    assert!(parse_attribute("rtcp:70000 IN IP4 0.0.0.0").unwrap_err().is_malformed());
    assert!(parse_attribute("rtcp:9 FOO IP4 0.0.0.0").unwrap_err().is_malformed());
}

#[test]
fn test_keyword_classification_is_case_insensitive() {
    assert!(parse_attribute("RTCP-MUX").is_ok());
    assert!(parse_attribute("Ice-Options:trickle").is_ok());
    assert_eq!(parse_attribute("SeTuP:active").unwrap().name, SdpAttributeType::Setup);
}

#[test]
fn test_rtcp_fb_needs_two_parts() {
    assert!(parse_attribute("rtcp-fb:101").unwrap_err().is_malformed());
    assert!(parse_attribute("rtcp-fb:foo ccm fir").unwrap_err().is_malformed());
}

#[test]
fn test_candidate_trailing_lone_token_is_ignored() {
    assert!(parse_attribute("candidate:0 1 UDP 2122252543 172.16.156.106 49760 typ host tcptype")
        .is_ok());
}

#[test]
fn test_ip_literal_edges() {
    assert!(parse_attribute("rtcp:9 IN IP6 1:2:3:4:5:6:7:8").is_ok());
    assert!(parse_attribute("rtcp:9 IN IP6 ::ffff:1.2.3.4").is_ok());
    assert!(parse_attribute("rtcp:9 IN IP6 ::").is_ok());
    assert!(parse_attribute("rtcp:9 IN IP6 1:2:3:4:5:6:7::").is_ok());
    assert!(parse_attribute("rtcp:9 IN IP6 :::").unwrap_err().is_malformed());
    assert!(parse_attribute("rtcp:9 IN IP6 1:2:3:4:5:6:7:8:9").unwrap_err().is_malformed());
    assert!(parse_attribute("rtcp:9 IN IP6 12345::").unwrap_err().is_malformed());
    assert!(parse_attribute("rtcp:9 IN IP4 256.0.0.1").unwrap_err().is_malformed());
    assert!(parse_attribute("rtcp:9 IN IP4 01.0.0.1").unwrap_err().is_malformed());
    assert!(parse_attribute("rtcp:9 IN IP4 1.2.3").unwrap_err().is_malformed());
}
