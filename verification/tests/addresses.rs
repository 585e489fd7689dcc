use ledger_client::error::ConnectionError;
use ledger_client::handle::{check_address, ConnectionHandle, Endpoint};

#[test]
fn address_names_its_port() {
    assert_eq!(check_address("node:50211"), Ok(50211));
    assert_eq!(check_address("127.0.0.1:50211"), Ok(50211));
    assert_eq!(check_address("testnet.ledger.example.com:443"), Ok(443));
    assert_eq!(check_address("my-node_2:1"), Ok(1));
    assert_eq!(check_address("A:65535"), Ok(65535));
}

#[test]
fn port_may_carry_leading_zeros() {
    assert_eq!(check_address("node:00080"), Ok(80));
    assert_eq!(check_address("node:0000000000000000000000065535"), Ok(65535));
}

#[test]
fn address_of_another_form_is_malformed() {
    for text in [
        "",
        "node",
        ":50211",
        "node:",
        ":",
        "node:12a",
        "node:1:2",
        "node: 80",
        "no de:80",
        "node:+80",
        "node:-80",
        "[::1]:50211",
        "http://node:80",
        "node:80/",
        "node:80 ",
        "n\u{f6}de:80",
        "node:\u{ff18}0",
    ] {
        assert_eq!(check_address(text), Err(ConnectionError::Malformed), "{:?}", text);
    }
}

#[test]
fn address_with_no_possible_port_is_unreachable() {
    for text in ["node:0", "node:000", "node:65536", "node:99999", "node:18446744073709551616"] {
        assert_eq!(check_address(text), Err(ConnectionError::Unreachable), "{:?}", text);
    }
}

#[test]
fn endpoint_keeps_the_address_as_given() {
    let endpoint = Endpoint::parse("node:050211".to_string()).unwrap();
    assert_eq!(endpoint.address(), "node:050211");
    assert_eq!(endpoint.port(), 50211);
}

#[test]
fn endpoint_is_not_made_for_a_bad_address() {
    assert_eq!(Endpoint::parse(String::new()), Err(ConnectionError::Malformed));
    assert_eq!(Endpoint::parse("node".to_string()), Err(ConnectionError::Malformed));
    assert_eq!(Endpoint::parse("node:0".to_string()), Err(ConnectionError::Unreachable));
    assert_eq!(Endpoint::parse("node:65536".to_string()), Err(ConnectionError::Unreachable));
}

#[test]
fn endpoint_agrees_with_the_check_of_its_address() {
    for text in ["node:50211", "node:1", "a.b-c_d:65535", "", "node:0", "node", "x:y"] {
        match (Endpoint::parse(text.to_string()), check_address(text)) {
            (Ok(endpoint), Ok(port)) => {
                assert_eq!(endpoint.port(), port);
                assert_eq!(endpoint.address(), text);
            }
            (Err(made), Err(checked)) => assert_eq!(made, checked),
            (made, checked) => panic!("{:?} against {:?}", made, checked),
        }
    }
}

#[test]
fn handle_holds_endpoint_and_transport() {
    let endpoint = Endpoint::parse("node:50211".to_string()).unwrap();
    let handle = ConnectionHandle::new(endpoint, 7u32);
    assert_eq!(handle.endpoint().address(), "node:50211");
    assert_eq!(handle.endpoint().port(), 50211);
    assert_eq!(*handle.transport(), 7);
}

#[test]
fn connection_errors_say_what_was_wrong() {
    assert_eq!(ConnectionError::Malformed.message(), "connection error: expected <host>:<port>");
    assert_eq!(
        ConnectionError::Unreachable.message(),
        "connection error: port must be 1 to 65535"
    );
    assert_eq!(
        ConnectionError::Backend("no route to host".to_string()).message(),
        "connection error: no route to host"
    );
    assert_eq!(ConnectionError::Backend(String::new()).message(), "connection error: ");
}
