use lmdb_fixtures::descriptor::LmdbFixtureState;
use lmdb_fixtures::error::{DescriptorFault, FixtureError};
use lmdb_fixtures::hash::StateHash;
use lmdb_fixtures::layout::{is_valid_fixture_name, path_to_lmdb_fixtures, FixturesRoot};
use lmdb_fixtures::lifecycle::{
    check_opened_root, compaction_settings, load_descriptor, plan_generation, plan_load,
    shrink_outcome, GenerationPlan, ShrinkOutcome,
};
use lmdb_fixtures::version::ProtocolVersion;

fn hash_of(byte: u8) -> StateHash {
    StateHash::from_bytes(vec![byte; 32]).unwrap()
}

fn strings(parts: &[&str]) -> Vec<String> {
    parts.iter().map(|p| p.to_string()).collect()
}

fn pretty(version: &str, hash: &str) -> String {
    format!(
        "{{\n  \"genesis_request\": {{\n    \"protocol_version\": \"{}\"\n  }},\n  \"post_state_hash\": \"{}\"\n}}",
        version, hash
    )
}

#[test]
fn hex_of_known_bytes() {
    let mut bytes = vec![0u8; 32];
    bytes[0] = 0x01;
    bytes[1] = 0xab;
    bytes[31] = 0xf0;
    let h = StateHash::from_bytes(bytes.clone()).unwrap();
    let text = h.to_hex();
    assert_eq!(text.len(), 64);
    assert!(text.starts_with("01ab00"));
    assert!(text.ends_with("f0"));
    assert_eq!(StateHash::from_hex(&text).unwrap().bytes, bytes);
}

#[test]
fn hex_refuses_bad_text() {
    assert!(StateHash::from_hex("ab").is_none());
    assert_eq!(StateHash::from_hex(&"AB".repeat(32)).unwrap().bytes, vec![0xab; 32]);
    assert!(StateHash::from_hex(&"zz".repeat(32)).is_none());
    assert!(StateHash::from_hex(&"ab".repeat(33)).is_none());
    assert_eq!(StateHash::from_hex(&"ab".repeat(32)).unwrap().bytes, vec![0xab; 32]);
    assert!(StateHash::from_hex(&"ab".repeat(31)).is_none());
}

#[test]
fn digest_needs_32_bytes() {
    assert!(StateHash::from_bytes(vec![1; 31]).is_none());
    assert!(StateHash::from_bytes(vec![1; 33]).is_none());
    assert!(hash_of(7).same_as(&hash_of(7)));
    assert!(!hash_of(7).same_as(&hash_of(8)));
}

#[test]
fn version_text_and_parse() {
    assert_eq!(ProtocolVersion::new(1, 0, 0).to_text(), "1.0.0");
    assert_eq!(ProtocolVersion::new(10, 203, 4294967295).to_text(), "10.203.4294967295");
    assert_eq!(ProtocolVersion::parse("1.4.3"), Some(ProtocolVersion::new(1, 4, 3)));
    assert_eq!(ProtocolVersion::parse("+1.007.0"), Some(ProtocolVersion::new(1, 7, 0)));
    assert_eq!(ProtocolVersion::parse("1.2"), None);
    assert_eq!(ProtocolVersion::parse("1.2.3.4"), None);
    assert_eq!(ProtocolVersion::parse("1..3"), None);
    assert_eq!(ProtocolVersion::parse("1.-2.3"), None);
    assert_eq!(ProtocolVersion::parse("4294967296.0.0"), None);
    assert_eq!(ProtocolVersion::parse(""), None);
}

#[test]
fn descriptor_text_is_pretty_json() {
    let state = LmdbFixtureState::new(ProtocolVersion::new(1, 0, 0), hash_of(0xab));
    assert_eq!(state.to_json(), pretty("1.0.0", &"ab".repeat(32)));
}

#[test]
fn descriptor_round_trip() {
    let state = LmdbFixtureState::new(ProtocolVersion::new(2, 5, 17), hash_of(0x3c));
    let back = LmdbFixtureState::from_json(&state.to_json()).unwrap();
    assert_eq!(back.genesis_protocol_version(), ProtocolVersion::new(2, 5, 17));
    assert_eq!(back.post_state_hash.bytes, vec![0x3c; 32]);
}

#[test]
fn descriptor_ignores_other_fields() {
    let doc = format!(
        "{{\"post_state_hash\":\"{}\",\"genesis_request\":{{\"accounts\":[1,2],\"protocol_version\":\"1.3.0\",\"wasm_config\":{{}}}}}}",
        "0f".repeat(32)
    );
    let state = LmdbFixtureState::from_json(&doc).unwrap();
    assert_eq!(state.genesis_protocol_version(), ProtocolVersion::new(1, 3, 0));
    assert_eq!(state.post_state_hash.bytes, vec![0x0f; 32]);
}

#[test]
fn descriptor_faults() {
    let hash = "ab".repeat(32);
    assert_eq!(
        LmdbFixtureState::from_json("not json").unwrap_err(),
        DescriptorFault::MissingProtocolVersion
    );
    assert_eq!(
        LmdbFixtureState::from_json(&pretty("one", &hash)).unwrap_err(),
        DescriptorFault::InvalidProtocolVersion
    );
    assert_eq!(
        LmdbFixtureState::from_json("{\"genesis_request\":{\"protocol_version\":\"1.0.0\"}}")
            .unwrap_err(),
        DescriptorFault::MissingStateHash
    );
    assert_eq!(
        LmdbFixtureState::from_json(&pretty("1.0.0", "abcd")).unwrap_err(),
        DescriptorFault::InvalidStateHash
    );
}

#[test]
fn descriptor_from_fields() {
    let hash = "01".repeat(32);
    let s = LmdbFixtureState::from_fields(Some("3.1.4"), Some(&hash)).unwrap();
    assert_eq!(s.genesis_protocol_version(), ProtocolVersion::new(3, 1, 4));
    assert_eq!(
        LmdbFixtureState::from_fields(None, Some(&hash)).unwrap_err(),
        DescriptorFault::MissingProtocolVersion
    );
    assert_eq!(
        LmdbFixtureState::from_fields(Some("3.1.4"), None).unwrap_err(),
        DescriptorFault::MissingStateHash
    );
}

#[test]
fn default_root_and_paths() {
    let root = path_to_lmdb_fixtures();
    assert_eq!(root.components, strings(&[".", "fixtures"]));
    let paths = root.fixture_paths("v1").unwrap();
    assert_eq!(paths.dir, strings(&[".", "fixtures", "v1"]));
    assert_eq!(paths.state_file, strings(&[".", "fixtures", "v1", "state.json"]));
    assert_eq!(
        paths.data_file,
        strings(&[".", "fixtures", "v1", "global_state", "data.lmdb"])
    );
}

#[test]
fn fixture_names() {
    assert!(is_valid_fixture_name("release_1_3_0"));
    assert!(is_valid_fixture_name("..v1"));
    assert!(!is_valid_fixture_name(""));
    assert!(!is_valid_fixture_name("."));
    assert!(!is_valid_fixture_name(".."));
    assert!(!is_valid_fixture_name("a/b"));
    assert!(!is_valid_fixture_name("a\\b"));
    let root = FixturesRoot::new(strings(&["/tmp", "fx"]));
    match root.fixture_paths("../up") {
        Err(FixtureError::InvalidName { name }) => assert_eq!(name, "../up"),
        _ => panic!("expected an invalid name"),
    }
}

#[test]
fn generation_creates_absent_fixture() {
    let root = FixturesRoot::new(strings(&["fixtures"]));
    match plan_generation(&root, "v1", false).unwrap() {
        GenerationPlan::Create { paths } => {
            assert_eq!(paths.state_file, strings(&["fixtures", "v1", "state.json"]))
        }
        _ => panic!("expected a creation"),
    }
}

#[test]
fn generation_skips_existing_fixture() {
    let root = FixturesRoot::new(strings(&["fixtures"]));
    match plan_generation(&root, "v1", true).unwrap() {
        GenerationPlan::AlreadyExists { data_file } => assert_eq!(
            data_file,
            strings(&["fixtures", "v1", "global_state", "data.lmdb"])
        ),
        _ => panic!("expected the soft already-exists case"),
    }
    assert!(plan_generation(&root, "", true).is_err());
}

#[test]
fn generate_then_load_scenario() {
    let root = path_to_lmdb_fixtures();
    let paths = match plan_generation(&root, "v1", false).unwrap() {
        GenerationPlan::Create { paths } => paths,
        _ => panic!("expected a creation"),
    };
    assert_eq!(paths.state_file, strings(&[".", "fixtures", "v1", "state.json"]));
    let written = LmdbFixtureState::new(ProtocolVersion::new(1, 0, 0), hash_of(0x42)).to_json();
    assert!(written.contains("\"protocol_version\": \"1.0.0\""));

    let plan = plan_load(&root, "v1").unwrap();
    assert_eq!(plan.source_dir, strings(&[".", "fixtures", "v1"]));
    assert_eq!(plan.copied_dir, strings(&["v1"]));
    assert_eq!(plan.copied_state_file, strings(&["v1", "state.json"]));
    let loaded = load_descriptor("v1", &written).unwrap();
    assert_eq!(loaded.genesis_protocol_version().to_text(), "1.0.0");
    assert!(check_opened_root("v1", &loaded, Some(hash_of(0x42))).is_ok());
}

#[test]
fn load_descriptor_names_fixture() {
    match load_descriptor("v9", "{}") {
        Err(FixtureError::Serialization { name, fault }) => {
            assert_eq!(name, "v9");
            assert_eq!(fault, DescriptorFault::MissingProtocolVersion);
        }
        _ => panic!("expected a serialization error"),
    }
}

#[test]
fn tampered_digest_fails_to_open() {
    let state = LmdbFixtureState::new(ProtocolVersion::new(1, 0, 0), hash_of(1));
    match check_opened_root("v1", &state, Some(hash_of(2))) {
        Err(FixtureError::StoreOpen { name, expected, observed }) => {
            assert_eq!(name, "v1");
            assert_eq!(expected.bytes, vec![1; 32]);
            assert_eq!(observed.unwrap().bytes, vec![2; 32]);
        }
        _ => panic!("expected a store open error"),
    }
    match check_opened_root("v1", &state, None) {
        Err(FixtureError::StoreOpen { observed, .. }) => assert!(observed.is_none()),
        _ => panic!("expected a store open error"),
    }
}

#[test]
fn shrink_reports() {
    assert_eq!(
        shrink_outcome(4096, 1024),
        ShrinkOutcome::Reduced { before: 4096, after: 1024, saved: 3072 }
    );
    assert_eq!(shrink_outcome(1024, 1024), ShrinkOutcome::NotReduced { before: 1024, after: 1024 });
    assert_eq!(shrink_outcome(0, 8), ShrinkOutcome::NotReduced { before: 0, after: 8 });
    let s = compaction_settings();
    assert!(s.write_map && s.no_sub_dir);
    assert_eq!((s.max_dbs, s.map_size), (100, 1));
}
