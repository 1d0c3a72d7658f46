use sync_client::msg::Ipv4;
use sync_client::net::{get_local_ipv4, ipv4_text, Interface};

#[test]
fn picks_first_non_loopback_ipv4() {
    let ifaces = vec![
        Interface { loopback: true, ipv4: Some(Ipv4 { a: 127, b: 0, c: 0, d: 1 }) },
        Interface { loopback: false, ipv4: None },
        Interface { loopback: false, ipv4: Some(Ipv4 { a: 192, b: 168, c: 1, d: 5 }) },
        Interface { loopback: false, ipv4: Some(Ipv4 { a: 10, b: 0, c: 0, d: 2 }) },
    ];
    assert_eq!(get_local_ipv4(&ifaces), Ipv4 { a: 192, b: 168, c: 1, d: 5 });
}

#[test]
fn defaults_to_unspecified_address() {
    let only_loopback = vec![Interface {
        loopback: true,
        ipv4: Some(Ipv4 { a: 127, b: 0, c: 0, d: 1 }),
    }];
    assert_eq!(get_local_ipv4(&only_loopback), Ipv4 { a: 0, b: 0, c: 0, d: 0 });
    assert_eq!(get_local_ipv4(&Vec::new()), Ipv4 { a: 0, b: 0, c: 0, d: 0 });
}

#[test]
fn dotted_text_of_address() {
    let text = ipv4_text(&Ipv4 { a: 192, b: 168, c: 0, d: 17 });
    assert_eq!(String::from_utf8(text).unwrap(), "192.168.0.17");
    let zero = ipv4_text(&Ipv4 { a: 0, b: 0, c: 0, d: 0 });
    assert_eq!(String::from_utf8(zero).unwrap(), "0.0.0.0");
    let max = ipv4_text(&Ipv4 { a: 255, b: 255, c: 255, d: 255 });
    assert_eq!(String::from_utf8(max).unwrap(), "255.255.255.255");
}
