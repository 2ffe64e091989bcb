use http_dragonfly::config::listener::ListenOn;

const IP_0000: (u8, u8, u8, u8) = (0, 0, 0, 0);
const IP_1234: (u8, u8, u8, u8) = (1, 2, 3, 4);

fn make(ip: (u8, u8, u8, u8), port: u16) -> ListenOn {
    ListenOn { ip0: ip.0, ip1: ip.1, ip2: ip.2, ip3: ip.3, port }
}

#[test]
fn listen_on() {
    assert_eq!(ListenOn::default(), make(IP_0000, 8080));

    assert_eq!(ListenOn::from_str("8888").unwrap(), make(IP_0000, 8888));
    assert_eq!(ListenOn::from_str("1.2.3.4:8888").unwrap(), make(IP_1234, 8888));
    assert_eq!(ListenOn::from_str("0.0.0.0:8888").unwrap(), make(IP_0000, 8888));
    assert_eq!(ListenOn::from_str(":8888").unwrap(), make(IP_0000, 8888));
    assert_eq!(ListenOn::from_str("*:8888").unwrap(), make(IP_0000, 8888));
}

#[test]
fn wrong_listen_on() {
    let wrong_str = [
        "",
        ":",
        "1.2.3.4",
        "1.2.3.4:",
        "111.222.333.444:8080",
        "*:0",
        "*:65536",
        "*:123456",
        "*:str",
        "google.com:8080",
    ];

    for wrong_item in wrong_str {
        assert!(
            ListenOn::from_str(wrong_item).is_err(),
            "unexpectedly deserialized `{}`",
            wrong_item
        );
    }
}

#[test]
fn listen_on_text_form() {
    assert_eq!(make(IP_1234, 8888).as_text(), "1.2.3.4:8888".to_string());
    assert_eq!(ListenOn::default().as_text(), "0.0.0.0:8080".to_string());
}
