//! What calls into DDS return.
use vstd::prelude::*;

use crate::gid::{gid_text, hex_text};
use crate::number::{signed_text, write_i32};
use crate::routes::DDS_ENTITY_NULL;
use crate::text::concat;

verus! {

/// The return code of a call that did what it should.
pub const DDS_RETCODE_OK: i32 = 0;

/// The return code for an entity that is deleted already.
pub const DDS_RETCODE_ALREADY_DELETED: i32 = -9;

/// Whether an entity is deleted, where deleting it returned `retcode`.
pub fn delete_dds_entity(retcode: i32) -> (deleted: Result<(), String>)
    ensures
        match deleted {
            Ok(_) => retcode == DDS_RETCODE_OK || retcode == DDS_RETCODE_ALREADY_DELETED,
            Err(message) => retcode != DDS_RETCODE_OK && retcode != DDS_RETCODE_ALREADY_DELETED && message@
                == "Error deleting DDS entity - retcode="@ + signed_text(retcode as int),
        },
{
    if retcode == DDS_RETCODE_OK || retcode == DDS_RETCODE_ALREADY_DELETED {
        Ok(())
    } else {
        let code: String = write_i32(retcode);
        Err(concat("Error deleting DDS entity - retcode=", code.as_str()))
    }
}

/// The id of an entity, where asking for it returned `retcode` and `guid`.
pub fn get_guid(retcode: i32, guid: &[u8; 16]) -> (text: Result<String, String>)
    ensures
        match text {
            Ok(t) => retcode == DDS_RETCODE_OK && t@ == hex_text(guid@),
            Err(message) => retcode != DDS_RETCODE_OK && message@ == "Error getting GUID of DDS entity - retcode="@
                + signed_text(retcode as int),
        },
{
    if retcode == DDS_RETCODE_OK {
        Ok(gid_text(guid.as_slice()))
    } else {
        let code: String = write_i32(retcode);
        Err(concat("Error getting GUID of DDS entity - retcode=", code.as_str()))
    }
}

/// How the id of an entity is shown, where asking for it returned `retcode` and `guid`.
pub fn serialize_entity_guid(retcode: i32, guid: &[u8; 16]) -> (text: String)
    ensures
        text@ == (if retcode == DDS_RETCODE_OK {
            hex_text(guid@)
        } else {
            "UNKOWN_GUID"@
        }),
{
    match get_guid(retcode, guid) {
        Ok(text) => text,
        Err(_) => String::from_str("UNKOWN_GUID"),
    }
}

/// How the id of an entity that may be missing is shown, where asking for it returned `retcode` and `guid`.
pub fn serialize_atomic_entity_guid(entity: i32, retcode: i32, guid: &[u8; 16]) -> (text: String)
    ensures
        text@ == (if entity == DDS_ENTITY_NULL {
            ""@
        } else if retcode == DDS_RETCODE_OK {
            hex_text(guid@)
        } else {
            "UNKOWN_GUID"@
        }),
{
    if entity == DDS_ENTITY_NULL {
        String::from_str("")
    } else {
        serialize_entity_guid(retcode, guid)
    }
}

/// The reader that forwards to zenoh, where creating it returned `reader`, and `reason` says what that means.
/// One that is read now and then is not looked at.
pub fn create_forwarding_dds_reader(reader: i32, periodic: bool, reason: &str) -> (created: Result<i32, String>)
    ensures
        match created {
            Ok(r) => r == reader && (reader >= 0 || periodic),
            Err(message) => reader < 0 && !periodic && message@ == "Error creating DDS Reader: "@ + reason@,
        },
{
    if reader >= 0 || periodic {
        Ok(reader)
    } else {
        Err(concat("Error creating DDS Reader: ", reason))
    }
}

/// The writer that forwards from zenoh, where creating it returned `writer`, and `reason` says what that means.
pub fn create_forwarding_dds_writer(writer: i32, reason: &str) -> (created: Result<i32, String>)
    ensures
        match created {
            Ok(w) => w == writer && writer >= 0,
            Err(message) => writer < 0 && message@ == "Error creating DDS Writer: "@ + reason@,
        },
{
    if writer >= 0 {
        Ok(writer)
    } else {
        Err(concat("Error creating DDS Writer: ", reason))
    }
}

/// Whether a reader that is read now and then is still the one it was: its instance handle can be had
/// and has not changed.
pub fn still_reading(retcode: i32, handle: u64, original_handle: u64) -> (b: bool)
    ensures
        b == (retcode == DDS_RETCODE_OK && handle == original_handle),
{
    retcode == DDS_RETCODE_OK && handle == original_handle
}

} // verus!
