use sdp_attributes::network::parse_addrtype;
use sdp_attributes::network::parse_nettype;
use sdp_attributes::network::parse_unicast_addr_unknown_type;
use sdp_attributes::network::SdpAddrType;
use sdp_attributes::network::SdpNetType;

#[test]
fn test_parse_nettype() {
    let internet = parse_nettype("iN");
    assert!(internet.is_ok());
    assert_eq!(internet.unwrap(), SdpNetType::Internet);

    assert!(parse_nettype("").is_err());
    assert!(parse_nettype("FOO").is_err());
}

#[test]
fn test_parse_addrtype() {
    let ip4 = parse_addrtype("iP4");
    assert!(ip4.is_ok());
    assert_eq!(ip4.unwrap(), SdpAddrType::IP4);
    let ip6 = parse_addrtype("Ip6");
    assert!(ip6.is_ok());
    assert_eq!(ip6.unwrap(), SdpAddrType::IP6);

    assert!(parse_addrtype("").is_err());
    assert!(parse_addrtype("IP5").is_err());
}

#[test]
fn test_parse_unicast_addr_unknown_type() {
    let ip4 = parse_unicast_addr_unknown_type("127.0.0.1");
    assert!(ip4.is_ok());
    let ip6 = parse_unicast_addr_unknown_type("::1");
    assert!(ip6.is_ok());
}
