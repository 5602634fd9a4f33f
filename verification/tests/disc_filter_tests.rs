use base_core::disc_filter::{BaseDiscoveryFilter, EnrEntries, ForkId};

const AZUL_MAINNET: ForkId = ForkId { hash: [0x86, 0x72, 0x8b, 0x4e], next: 0 };
const WRONG_FORK: ForkId = ForkId { hash: [0xde, 0xad, 0xbe, 0xef], next: 0 };

fn with_base_key() -> EnrEntries {
    EnrEntries { has_base_key: true, opel: None }
}

fn with_opel(fork_id: ForkId) -> EnrEntries {
    EnrEntries { has_base_key: false, opel: Some(Some(fork_id)) }
}

#[test]
fn accepts_base_key_with_any_value() {
    let enr = with_base_key();
    assert!(BaseDiscoveryFilter::matches_enr(&enr, Some(AZUL_MAINNET)));
}

#[test]
fn accepts_matching_opel_when_azul_is_scheduled() {
    let enr = with_opel(AZUL_MAINNET);
    assert!(BaseDiscoveryFilter::matches_enr(&enr, Some(AZUL_MAINNET)));
}

#[test]
fn rejects_wrong_opel_when_azul_is_scheduled() {
    let enr = with_opel(WRONG_FORK);
    assert!(!BaseDiscoveryFilter::matches_enr(&enr, Some(AZUL_MAINNET)));
}

#[test]
fn accepts_any_opel_before_azul_is_scheduled() {
    let enr = with_opel(WRONG_FORK);
    assert!(BaseDiscoveryFilter::matches_enr(&enr, None));
}

#[test]
fn rejects_enr_without_base_or_opel() {
    let enr = EnrEntries { has_base_key: false, opel: None };
    assert!(!BaseDiscoveryFilter::matches_enr(&enr, Some(AZUL_MAINNET)));
    assert!(!BaseDiscoveryFilter::matches_enr(&enr, None));
}

#[test]
fn undecodable_opel_counts_only_before_azul() {
    let enr = EnrEntries { has_base_key: false, opel: Some(None) };
    assert!(BaseDiscoveryFilter::matches_enr(&enr, None));
    assert!(!BaseDiscoveryFilter::matches_enr(&enr, Some(AZUL_MAINNET)));
}

#[test]
fn next_fork_must_match_too() {
    let enr = with_opel(ForkId { hash: AZUL_MAINNET.hash, next: 7 });
    assert!(!BaseDiscoveryFilter::matches_enr(&enr, Some(AZUL_MAINNET)));
}

#[test]
fn enr_key_spells_base() {
    assert_eq!(&BaseDiscoveryFilter::ENR_KEY, b"base");
}

#[test]
fn version_enr_value_is_the_rlp_string_of_the_version() {
    assert_eq!(
        BaseDiscoveryFilter::version_enr_value("0.8.0"),
        vec![0x85, b'0', b'.', b'8', b'.', b'0']
    );
    assert_eq!(BaseDiscoveryFilter::version_enr_value("7"), vec![b'7']);
    assert_eq!(BaseDiscoveryFilter::version_enr_value(""), vec![0x80]);
    let long = "v".repeat(56);
    let mut expected = vec![0xb8, 56];
    expected.extend_from_slice(long.as_bytes());
    assert_eq!(BaseDiscoveryFilter::version_enr_value(&long), expected);
    let longer = "w".repeat(300);
    let encoded = BaseDiscoveryFilter::version_enr_value(&longer);
    assert_eq!(&encoded[..3], &[0xb9, 0x01, 0x2c]);
    assert_eq!(&encoded[3..], longer.as_bytes());
}
