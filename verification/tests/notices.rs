use sudo_ops::account::BlockId;
use sudo_ops::call::{build_set_compute, build_set_storage};
use sudo_ops::endpoint::RelayChain;
use sudo_ops::notice::{ErrorKind, Notice, RunError};
use sudo_ops::text::{decimal_string, hex_string};

#[test]
fn decimal_notation() {
    assert_eq!(decimal_string(0), "0");
    assert_eq!(decimal_string(7), "7");
    assert_eq!(decimal_string(10), "10");
    assert_eq!(decimal_string(1_400_000_000), "1400000000");
    assert_eq!(decimal_string(u64::MAX), "18446744073709551615");
    for n in [1u64, 9, 11, 99, 100, 101, 65535, 65536, 123_456_789_012] {
        assert_eq!(decimal_string(n), n.to_string());
    }
}

#[test]
fn hexadecimal_notation() {
    assert_eq!(hex_string(&[]), "");
    assert_eq!(hex_string(&[0x00]), "00");
    assert_eq!(hex_string(&[0x0f, 0xf0, 0xab, 0x19]), "0ff0ab19");
    assert_eq!(hex_string(&[0xde, 0xad, 0xbe, 0xef, 0x01, 0x23, 0x45, 0x67, 0x89]), "deadbeef0123456789");
}

#[test]
fn notice_of_a_parachain() {
    assert_eq!(
        Notice::Updating { relay: RelayChain::Versi, id: 10 }.render(),
        "\nUpdating Versi Glutton 10"
    );
    assert_eq!(
        Notice::Updating { relay: RelayChain::Local, id: 9944 }.render(),
        "\nUpdating Local Glutton 9944"
    );
    assert_eq!(
        Notice::Updating { relay: RelayChain::Kusama, id: 0 }.render(),
        "\nUpdating Kusama Glutton 0"
    );
}

#[test]
fn notice_of_a_connection() {
    assert_eq!(Notice::Connecting.render(), "- Connecting to client...");
}

#[test]
fn notice_of_a_submission() {
    assert_eq!(
        Notice::Submitting(build_set_storage(1_400_000_000)).render(),
        "- Submitting 'set_storage { storage: 1400000000 }'..."
    );
    assert_eq!(
        Notice::Submitting(build_set_compute(500_000_000)).render(),
        "- Submitting 'set_compute { compute: 500000000 }'..."
    );
}

#[test]
fn notice_of_a_finalized_block() {
    let mut hash = [0u8; 32];
    hash[0] = 0x12;
    hash[1] = 0xab;
    hash[31] = 0xff;
    assert_eq!(
        Notice::Included(BlockId { hash }).render(),
        "- Tx included in block 0x12ab0000000000000000000000000000000000000000000000000000000000ff"
    );
}

#[test]
fn notice_of_a_failure() {
    let failure = |kind, detail: &str| Notice::Failed(RunError { kind, detail: detail.to_string() });
    assert_eq!(
        failure(ErrorKind::Connection, "refused").render(),
        "- Connection failed: refused"
    );
    assert_eq!(failure(ErrorKind::Rpc, "timeout").render(), "- Sequence lookup failed: timeout");
    assert_eq!(
        failure(ErrorKind::Submission, "Dropped").render(),
        "- Tx did not succeed: Dropped"
    );
    assert_eq!(failure(ErrorKind::Submission, "").render(), "- Tx did not succeed: ");
}

#[test]
fn duplicate_of_a_failure_is_equal() {
    let error = RunError { kind: ErrorKind::Rpc, detail: String::from("no answer") };
    assert_eq!(error.duplicate(), error);
}
