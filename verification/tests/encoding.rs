use ring::rand::{SecureRandom, SystemRandom};
use svalin_pki::certificate_type::CertificateType::{Agent, Root, Server, Temporary, User, UserDevice};
use svalin_pki::certificate_type::{CertificateType, CertificateTypeError};
use svalin_pki::hex::{decode, encode_lower, encode_upper, encode_upper_bytes, hex_value_of};
use svalin_pki::human_bytes::human_i_bytes;
use svalin_pki::mls::group_id::{ParseGroupIdError, SvalinGroupId};
use svalin_pki::spki_hash::SpkiHash;

const ALL_TYPES: [CertificateType; 6] = [
    CertificateType::Root,
    CertificateType::Temporary,
    CertificateType::User,
    CertificateType::UserDevice,
    CertificateType::Agent,
    CertificateType::Server,
];

#[test]
fn hex_encodings() {
    assert_eq!(encode_upper(&[0x00, 0xab, 0x7f, 0xff]), "00AB7FFF");
    assert_eq!(encode_lower(&[0x00, 0xab, 0x7f, 0xff]), "00ab7fff");
    assert_eq!(encode_upper_bytes(&[0x1c]), b"1C".to_vec());
    assert_eq!(encode_upper(&[]), "");
}

#[test]
fn hex_decoding() {
    assert_eq!(decode(b"00AB7fff"), Some(vec![0x00, 0xab, 0x7f, 0xff]));
    assert_eq!(decode(b""), Some(vec![]));
    assert_eq!(decode(b"ABC"), None);
    assert_eq!(decode(b"zz"), None);
    assert_eq!(hex_value_of(b'f'), Some(15));
    assert_eq!(hex_value_of(b'F'), Some(15));
    assert_eq!(hex_value_of(b'9'), Some(9));
    assert_eq!(hex_value_of(b'g'), None);
    let bytes: Vec<u8> = (0..=255u8).collect();
    assert_eq!(decode(encode_upper(&bytes).as_bytes()), Some(bytes.clone()));
    assert_eq!(decode(encode_lower(&bytes).as_bytes()), Some(bytes));
}

#[test]
fn spki_hash_hex_round_trip() {
    let hash = SpkiHash::compute(b"some public key info");
    let hex = hash.to_hex();
    assert_eq!(hex.len(), 64);
    assert_eq!(hex, hex.to_uppercase());
    assert_eq!(hash.to_hex_bytes(), hex.as_bytes().to_vec());
    assert_eq!(SpkiHash::from_hex(hex.as_bytes()), Some(hash));
    assert_eq!(SpkiHash::from_hex(hex.to_lowercase().as_bytes()), Some(hash));
    assert_eq!(SpkiHash::from_hex(&hex.as_bytes()[..62]), None);
    assert_eq!(SpkiHash::from_slice(hash.as_slice()), Some(hash));
    assert_eq!(SpkiHash::from_slice(&[1, 2, 3]), None);
}

#[test]
fn spki_hash_is_sha512_256() {
    let expected = ring::digest::digest(&ring::digest::SHA512_256, b"abc");
    assert_eq!(SpkiHash::compute(b"abc").as_slice(), expected.as_ref());
    assert_eq!(
        SpkiHash::compute(b"abc").to_hex(),
        "53048E2681941EF99B2E29B76B4C7DABE4C2D0C634FC6D46E0E2F13107E7AF23"
    );
}

#[test]
fn certificate_type_names_round_trip() {
    let names = ["root", "temporary", "user", "user_device", "agent", "server"];
    for (t, name) in ALL_TYPES.iter().zip(names.iter()) {
        assert_eq!(t.to_string(), *name);
        assert_eq!(CertificateType::from_str(name), Ok(*t));
        assert_eq!(CertificateType::from_name_bytes(name.as_bytes()), Ok(*t));
    }
    assert_eq!(CertificateType::from_str("Root"), Err(CertificateTypeError::InvalidType));
    assert_eq!(CertificateType::from_str(""), Err(CertificateTypeError::InvalidType));
}

#[test]
fn certificate_type_rules() {
    assert!(Root.should_be_ca());
    assert!(User.should_be_ca());
    for t in [Temporary, UserDevice, Agent, Server] {
        assert!(!t.should_be_ca());
    }
    assert_eq!(Root.validity_duration_secs(), 3650 * 86400);
    assert_eq!(User.validity_duration_secs(), 365 * 86400);
    assert_eq!(UserDevice.validity_duration_secs(), 30 * 86400);
    assert_eq!(Agent.validity_duration_secs(), 365 * 86400);
    assert_eq!(Server.validity_duration_secs(), 3650 * 86400);
    assert_eq!(Temporary.validity_duration_secs(), 60);
    for child in ALL_TYPES {
        assert_eq!(
            Root.may_be_parent_of(child),
            matches!(child, Server | User | Agent | UserDevice)
        );
        assert_eq!(User.may_be_parent_of(child), matches!(child, User | Agent | UserDevice));
        for parent in [Temporary, UserDevice, Agent, Server] {
            assert!(!parent.may_be_parent_of(child));
        }
    }
}

#[test]
fn test_group_id() {
    let mut raw = [0u8; 32];
    let rand = SystemRandom::new();
    rand.fill(&mut raw).unwrap();

    let group_id = SvalinGroupId::DeviceGroup(SpkiHash::from_slice(&raw).unwrap());
    let encoded = group_id.to_group_id();
    let decoded = SvalinGroupId::from_group_id(&encoded).unwrap();
    assert_eq!(group_id, decoded);
}

#[test]
fn group_id_encodings() {
    let hash = SpkiHash([0xab; 32]);
    let hex = "AB".repeat(32);
    assert_eq!(SvalinGroupId::GlobalGroup.to_group_id(), b"global".to_vec());
    assert_eq!(
        SvalinGroupId::DeviceGroup(hash).to_group_id(),
        format!("device/{}", hex).into_bytes()
    );
    assert_eq!(
        SvalinGroupId::DeviceMetaGroup(hash).to_group_id(),
        format!("meta/{}", hex).into_bytes()
    );
    assert_eq!(
        SvalinGroupId::from_group_id(format!("meta/{}", hex).as_bytes()).unwrap(),
        SvalinGroupId::DeviceMetaGroup(hash)
    );
    assert_eq!(
        SvalinGroupId::from_group_id(format!("device/{}/rest", hex).as_bytes()).unwrap(),
        SvalinGroupId::DeviceGroup(hash)
    );
    assert_eq!(SvalinGroupId::from_group_id(b"global").unwrap(), SvalinGroupId::GlobalGroup);
    assert_eq!(SvalinGroupId::from_group_id(b"global/extra").unwrap(), SvalinGroupId::GlobalGroup);
}

#[test]
fn group_id_errors() {
    assert_eq!(
        SvalinGroupId::from_group_id(b"other/AB").unwrap_err(),
        ParseGroupIdError::UnknownGroupType
    );
    assert_eq!(
        SvalinGroupId::from_group_id(b"").unwrap_err(),
        ParseGroupIdError::UnknownGroupType
    );
    assert_eq!(
        SvalinGroupId::from_group_id(b"device").unwrap_err(),
        ParseGroupIdError::MissingData
    );
    assert_eq!(
        SvalinGroupId::from_group_id(b"meta/ABCD").unwrap_err(),
        ParseGroupIdError::WrongSliceLength
    );
}

fn float_formatted(bytes: u64) -> String {
    let units = ["B", "KiB", "MiB", "GiB", "TiB"];
    let mut value = bytes as f64;
    let mut unit = 0;
    while value >= 1024.0 && unit < units.len() - 1 {
        value /= 1024.0;
        unit += 1;
    }
    format!("{:.1} {}", value, units[unit])
}

#[test]
fn human_bytes_examples() {
    assert_eq!(human_i_bytes(0), "0.0 B");
    assert_eq!(human_i_bytes(1023), "1023.0 B");
    assert_eq!(human_i_bytes(1024), "1.0 KiB");
    assert_eq!(human_i_bytes(1536), "1.5 KiB");
    assert_eq!(human_i_bytes(1024 * 1024 * 5), "5.0 MiB");
    assert_eq!(human_i_bytes(u64::MAX), "16777216.0 TiB");
}

#[test]
fn human_bytes_matches_float_formatting() {
    let mut samples: Vec<u64> = vec![0, 1, 1023, 1024, 1025, 1280, 1331, 1332, 1433, 1434, 2560, 3584];
    for shift in 0..64 {
        let p = 1u64 << shift;
        samples.extend_from_slice(&[p, p - 1, p + 1, p.wrapping_mul(3) / 2, p / 10 * 13]);
    }
    let mut x: u64 = 0x9e37_79b9_7f4a_7c15;
    for _ in 0..20000 {
        x ^= x << 13;
        x ^= x >> 7;
        x ^= x << 17;
        samples.push(x >> (x % 64));
        samples.push(x % (1 << 24));
    }
    for v in [u64::MAX, u64::MAX - 1, (1 << 53) + 1, (1 << 54) + 3, 9_007_199_254_740_993] {
        samples.push(v);
    }
    for v in samples {
        assert_eq!(human_i_bytes(v), float_formatted(v), "for {}", v);
    }
}
