//! From a relay chain context and a parachain identifier to the address of
//! the collator node that serves it.

use crate::text::{decimal, decimal_string, is_digit, lemma_decimal_is_digits, lemma_parse_decimal_inverts, parse_decimal};
use vstd::prelude::*;

verus! {

/// The relay chain context whose Glutton collators are addressed.
#[derive(Clone, Copy, Debug, PartialEq, Eq, Structural)]
pub enum RelayChain {
    Local,
    Kusama,
    Versi,
}

/// An input that is refused before any node is contacted.
#[derive(Clone, Copy, Debug, PartialEq, Eq, Structural)]
pub enum ConfigurationError {
    /// The identifier range holds no identifier: `from` is above `to`.
    EmptyRange { from: u32, to: u32 },
    /// A local node listens on the port with the identifier's number, and
    /// this identifier is no port number.
    PortOutOfRange { id: u32 },
    /// The secret seed stands for no key pair.
    InvalidSeed,
}

/// The largest identifier that can serve as a port number.
pub const MAX_PORT: u32 = 65535;

/// Whether a node with this identifier has an address in this context.
pub open spec fn addressable(relay: RelayChain, id: u32) -> bool {
    relay == RelayChain::Local ==> id <= MAX_PORT
}

/// What precedes the identifier in an address.
pub open spec fn address_prefix(relay: RelayChain) -> Seq<char> {
    match relay {
        RelayChain::Local => "ws://127.0.0.1:"@,
        RelayChain::Kusama | RelayChain::Versi => "wss://versi-glutton-collator-"@,
    }
}

/// What follows the identifier in an address.
pub open spec fn address_suffix(relay: RelayChain) -> Seq<char> {
    match relay {
        RelayChain::Local => ""@,
        RelayChain::Kusama | RelayChain::Versi => "-node-1.parity-versi.parity.io:443"@,
    }
}

/// The address of the node with identifier `id`: on the local machine the
/// identifier is the port, elsewhere it is part of the host name.
pub open spec fn address(relay: RelayChain, id: u32) -> Seq<char> {
    address_prefix(relay) + decimal(id as nat) + address_suffix(relay)
}

/// The identifier that an address of this context holds between the fixed
/// parts, if the text has that shape.
pub open spec fn embedded_identifier(relay: RelayChain, text: Seq<char>) -> Option<nat> {
    let prefix = address_prefix(relay);
    let suffix = address_suffix(relay);
    if text.len() >= prefix.len() + suffix.len() && text.subrange(0, prefix.len() as int) == prefix
        && text.subrange(text.len() - suffix.len(), text.len() as int) == suffix {
        parse_decimal(text.subrange(prefix.len() as int, text.len() - suffix.len()))
    } else {
        None
    }
}

/// A character that may stand in a host name.
pub open spec fn is_host_char(c: char) -> bool {
    ('a' <= c && c <= 'z') || is_digit(c) || c == '-' || c == '.'
}

/// A host name: not empty, and made of host characters.
pub open spec fn is_host(s: Seq<char>) -> bool {
    s.len() > 0 && forall|i: int| 0 <= i < s.len() ==> is_host_char(#[trigger] s[i])
}

/// The websocket address of `host` at `port`, plain or secure.
pub open spec fn websocket_address(secure: bool, host: Seq<char>, port: nat) -> Seq<char> {
    (if secure {
        "wss://"@
    } else {
        "ws://"@
    }) + host + seq![':'] + decimal(port)
}

/// Whether `text` is a websocket address: a scheme, a host name, a colon and
/// a port number in decimal notation.
pub open spec fn is_websocket_address(text: Seq<char>) -> bool {
    exists|secure: bool, host: Seq<char>, port: nat|
        text == #[trigger] websocket_address(secure, host, port) && is_host(host) && port
            <= MAX_PORT
}

/// The host part of an address.
pub open spec fn address_host(relay: RelayChain, id: u32) -> Seq<char> {
    match relay {
        RelayChain::Local => "127.0.0.1"@,
        RelayChain::Kusama | RelayChain::Versi => "versi-glutton-collator-"@ + decimal(id as nat)
            + "-node-1.parity-versi.parity.io"@,
    }
}

/// The port part of an address.
pub open spec fn address_port(relay: RelayChain, id: u32) -> nat {
    match relay {
        RelayChain::Local => id as nat,
        RelayChain::Kusama | RelayChain::Versi => 443,
    }
}

proof fn lemma_decimal_443()
    ensures
        decimal(443) == "443"@,
{
    reveal_strlit("443");
    reveal_with_fuel(decimal, 3);
    assert(decimal(443) =~= "443"@);
}

proof fn lemma_address_parts(relay: RelayChain, id: u32)
    ensures
        address(relay, id) == websocket_address(
            relay != RelayChain::Local,
            address_host(relay, id),
            address_port(relay, id),
        ),
        is_host(address_host(relay, id)),
{
    reveal_strlit("ws://127.0.0.1:");
    reveal_strlit("");
    reveal_strlit("ws://");
    reveal_strlit("wss://");
    reveal_strlit("127.0.0.1");
    reveal_strlit("wss://versi-glutton-collator-");
    reveal_strlit("versi-glutton-collator-");
    reveal_strlit("-node-1.parity-versi.parity.io:443");
    reveal_strlit("-node-1.parity-versi.parity.io");
    lemma_decimal_443();
    reveal_strlit("443");
    lemma_decimal_is_digits(id as nat);
    let digits = decimal(id as nat);
    let host = address_host(relay, id);
    match relay {
        RelayChain::Local => {
            assert(address(relay, id) =~= websocket_address(false, host, id as nat));
        },
        _ => {
            let head = "versi-glutton-collator-"@;
            let tail = "-node-1.parity-versi.parity.io"@;
            assert(address(relay, id) =~= websocket_address(true, host, 443));
            assert forall|i: int| 0 <= i < host.len() implies is_host_char(#[trigger] host[i]) by {
                if i < head.len() {
                    assert(host[i] == head[i]);
                } else if i < head.len() + digits.len() {
                    assert(host[i] == digits[i - head.len()]);
                } else {
                    assert(host[i] == tail[i - head.len() - digits.len()]);
                }
            }
        },
    }
}

/// Every addressable node has a well-formed websocket address, and the
/// identifier read back from that address is the node's own.
pub proof fn lemma_address_holds_identifier(relay: RelayChain, id: u32)
    requires
        addressable(relay, id),
    ensures
        is_websocket_address(address(relay, id)),
        embedded_identifier(relay, address(relay, id)) == Some(id as nat),
{
    lemma_address_parts(relay, id);
    let host = address_host(relay, id);
    let port = address_port(relay, id);
    assert(address(relay, id) == websocket_address(relay != RelayChain::Local, host, port));
    let text = address(relay, id);
    let prefix = address_prefix(relay);
    let suffix = address_suffix(relay);
    lemma_parse_decimal_inverts(id as nat);
    assert(text.subrange(0, prefix.len() as int) =~= prefix);
    assert(text.subrange(text.len() - suffix.len(), text.len() as int) =~= suffix);
    assert(text.subrange(prefix.len() as int, text.len() - suffix.len()) =~= decimal(id as nat));
}

/// Addresses of different nodes of one context differ.
pub proof fn lemma_address_injective(relay: RelayChain, a: u32, b: u32)
    requires
        address(relay, a) == address(relay, b),
    ensures
        a == b,
{
    let prefix = address_prefix(relay);
    let suffix = address_suffix(relay);
    let text = address(relay, a);
    lemma_parse_decimal_inverts(a as nat);
    lemma_parse_decimal_inverts(b as nat);
    assert(text.subrange(prefix.len() as int, text.len() - suffix.len()) =~= decimal(a as nat));
    assert(text.subrange(prefix.len() as int, text.len() - suffix.len()) =~= decimal(b as nat));
}

/// The name under which a context is announced.
pub open spec fn relay_name(relay: RelayChain) -> Seq<char> {
    match relay {
        RelayChain::Local => "Local"@,
        RelayChain::Kusama => "Kusama"@,
        RelayChain::Versi => "Versi"@,
    }
}

/// The name under which a context is announced.
pub fn relay_label(relay: RelayChain) -> (name: &'static str)
    ensures
        name@ == relay_name(relay),
{
    match relay {
        RelayChain::Local => "Local",
        RelayChain::Kusama => "Kusama",
        RelayChain::Versi => "Versi",
    }
}

/// Tells whether a node with this identifier has an address in this context.
pub fn is_addressable(relay: RelayChain, id: u32) -> (ok: bool)
    ensures
        ok == addressable(relay, id),
{
    match relay {
        RelayChain::Local => id <= MAX_PORT,
        _ => true,
    }
}

/// Writes the address of an addressable node.
pub(crate) fn address_text(relay: RelayChain, id: u32) -> (text: String)
    requires
        addressable(relay, id),
    ensures
        text@ == address(relay, id),
{
    let digits = decimal_string(id as u64);
    match relay {
        RelayChain::Local => {
            let mut text = String::from_str("ws://127.0.0.1:");
            text.append(digits.as_str());
            proof {
                reveal_strlit("");
                assert(text@ =~= address(relay, id));
            }
            text
        },
        _ => {
            let mut text = String::from_str("wss://versi-glutton-collator-");
            text.append(digits.as_str());
            text.append("-node-1.parity-versi.parity.io:443");
            text
        },
    }
}

/// The address at which the node with identifier `id` is reached, or the
/// reason why it has none.
pub fn resolve(relay: RelayChain, id: u32) -> (found: Result<String, ConfigurationError>)
    ensures
        match found {
            Ok(text) => addressable(relay, id) && text@ == address(relay, id),
            Err(error) => !addressable(relay, id) && error == (ConfigurationError::PortOutOfRange {
                id,
            }),
        },
{
    if is_addressable(relay, id) {
        Ok(address_text(relay, id))
    } else {
        Err(ConfigurationError::PortOutOfRange { id })
    }
}

} // verus!
