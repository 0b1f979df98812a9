use zenoh_plugin_dds::dds_mgt::{
    create_forwarding_dds_reader, create_forwarding_dds_writer, delete_dds_entity, get_guid,
    serialize_atomic_entity_guid, serialize_entity_guid, still_reading,
};
use zenoh_plugin_dds::gid::{gid_from_ros, gid_text, gid_to_ros, gids_from_ros, gids_to_ros, HexError};

#[test]
fn ids_are_hexadecimal() {
    assert_eq!(gid_text(&[]), "");
    assert_eq!(gid_text(&[0x01, 0xab, 0xff]), "01abff");
}

#[test]
fn ids_are_filled_up_for_ros() {
    let bytes = gid_to_ros("01aBff").unwrap();
    assert_eq!(bytes.len(), 24);
    assert_eq!(&bytes[..4], &[0x01, 0xab, 0xff, 0]);
    assert!(bytes[4..].iter().all(|b| *b == 0));
    assert_eq!(gid_to_ros(&"11".repeat(30)).unwrap(), vec![0x11; 24]);
}

#[test]
fn texts_that_are_no_ids_are_refused() {
    assert_eq!(gid_to_ros("012"), Err(HexError::OddLength));
    assert_eq!(gid_to_ros("01zz"), Err(HexError::InvalidHexCharacter { c: 'z', index: 2 }));
    assert_eq!(
        gids_to_ros(&vec!["01".to_string(), "0g".to_string(), "0".to_string()]),
        Err((1, HexError::InvalidHexCharacter { c: 'g', index: 1 }))
    );
}

#[test]
fn ids_survive_ros() {
    let gid = "000102030405060708090a0b0c0d0e0f".to_string();
    let list = gids_to_ros(&vec![gid.clone()]).unwrap();
    let mut bytes = [0u8; 24];
    bytes.copy_from_slice(&list[0]);
    assert_eq!(gid_from_ros(&bytes), gid);
    bytes[20] = 9;
    assert_eq!(gids_from_ros(&vec![bytes]), vec![gid]);
}

#[test]
fn return_codes_are_told() {
    assert_eq!(delete_dds_entity(0), Ok(()));
    assert_eq!(delete_dds_entity(-9), Ok(()));
    assert_eq!(delete_dds_entity(-3), Err("Error deleting DDS entity - retcode=-3".to_string()));
    let guid = [0xa0u8; 16];
    assert_eq!(get_guid(0, &guid), Ok("a0".repeat(16)));
    assert_eq!(get_guid(-1, &guid), Err("Error getting GUID of DDS entity - retcode=-1".to_string()));
    assert_eq!(serialize_entity_guid(-1, &guid), "UNKOWN_GUID");
    assert_eq!(serialize_entity_guid(0, &guid), "a0".repeat(16));
    assert_eq!(serialize_atomic_entity_guid(0, 0, &guid), "");
    assert_eq!(serialize_atomic_entity_guid(5, 0, &guid), "a0".repeat(16));
    assert_eq!(create_forwarding_dds_reader(5, false, ""), Ok(5));
    assert_eq!(
        create_forwarding_dds_reader(-1, false, "no memory"),
        Err("Error creating DDS Reader: no memory".to_string())
    );
    assert_eq!(create_forwarding_dds_reader(-1, true, ""), Ok(-1));
    assert_eq!(create_forwarding_dds_writer(6, ""), Ok(6));
    assert_eq!(
        create_forwarding_dds_writer(-2, "bad"),
        Err("Error creating DDS Writer: bad".to_string())
    );
    assert!(still_reading(0, 4, 4) && !still_reading(0, 4, 5) && !still_reading(-1, 4, 4));
}
