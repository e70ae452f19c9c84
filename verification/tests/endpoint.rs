use sudo_ops::endpoint::{is_addressable, relay_label, resolve, ConfigurationError, RelayChain};

#[test]
fn local_address_uses_identifier_as_port() {
    assert_eq!(resolve(RelayChain::Local, 9944), Ok(String::from("ws://127.0.0.1:9944")));
    assert_eq!(resolve(RelayChain::Local, 0), Ok(String::from("ws://127.0.0.1:0")));
    assert_eq!(resolve(RelayChain::Local, 65535), Ok(String::from("ws://127.0.0.1:65535")));
}

#[test]
fn remote_address_holds_identifier_in_host() {
    assert_eq!(
        resolve(RelayChain::Versi, 10),
        Ok(String::from("wss://versi-glutton-collator-10-node-1.parity-versi.parity.io:443"))
    );
    assert_eq!(
        resolve(RelayChain::Kusama, 1300),
        Ok(String::from("wss://versi-glutton-collator-1300-node-1.parity-versi.parity.io:443"))
    );
    assert_eq!(
        resolve(RelayChain::Versi, u32::MAX),
        Ok(String::from(
            "wss://versi-glutton-collator-4294967295-node-1.parity-versi.parity.io:443"
        ))
    );
}

#[test]
fn local_identifier_beyond_ports_is_refused() {
    assert_eq!(
        resolve(RelayChain::Local, 65536),
        Err(ConfigurationError::PortOutOfRange { id: 65536 })
    );
    assert_eq!(
        resolve(RelayChain::Local, u32::MAX),
        Err(ConfigurationError::PortOutOfRange { id: u32::MAX })
    );
    assert!(!is_addressable(RelayChain::Local, 70000));
    assert!(is_addressable(RelayChain::Versi, 70000));
    assert!(is_addressable(RelayChain::Kusama, u32::MAX));
}

#[test]
fn identifier_can_be_read_back_from_address() {
    let ids = [0u32, 1, 9, 10, 99, 100, 2000, 65535, 65536, 1_000_000, u32::MAX];
    for relay in [RelayChain::Local, RelayChain::Kusama, RelayChain::Versi] {
        for id in ids {
            match resolve(relay, id) {
                Ok(address) => {
                    let digits = match relay {
                        RelayChain::Local => address.strip_prefix("ws://127.0.0.1:").unwrap(),
                        _ => address
                            .strip_prefix("wss://versi-glutton-collator-")
                            .unwrap()
                            .strip_suffix("-node-1.parity-versi.parity.io:443")
                            .unwrap(),
                    };
                    assert_eq!(digits.parse::<u32>(), Ok(id));
                    assert_eq!(digits, id.to_string());
                }
                Err(error) => {
                    assert_eq!(relay, RelayChain::Local);
                    assert!(id > 65535);
                    assert_eq!(error, ConfigurationError::PortOutOfRange { id });
                }
            }
        }
    }
}

#[test]
fn relay_labels() {
    assert_eq!(relay_label(RelayChain::Local), "Local");
    assert_eq!(relay_label(RelayChain::Kusama), "Kusama");
    assert_eq!(relay_label(RelayChain::Versi), "Versi");
}
