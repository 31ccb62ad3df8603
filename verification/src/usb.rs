//! USB identities of the supported UCNet mixers.

use vstd::prelude::*;

verus! {

/// USB vendor id of PreSonus.
pub const PRESONUS_VENDOR_ID: u16 = 0x194F;

/// USB product id of the StudioLive 32S.
pub const STUDIOLIVE_32S: u16 = 0x0101;

/// USB product id of the StudioLive 32SC.
pub const STUDIOLIVE_32SC: u16 = 0x0102;

/// USB product id of the StudioLive 64S.
pub const STUDIOLIVE_64S: u16 = 0x0103;

/// USB product id of the StudioLive 32SX.
pub const STUDIOLIVE_32SX: u16 = 0x0104;

/// USB product id of the StudioLive 24R.
pub const STUDIOLIVE_24R: u16 = 0x0105;

/// USB product id of the StudioLive 32R.
pub const STUDIOLIVE_32R: u16 = 0x0106;

/// USB interface number of the UCNet control endpoint pair.
pub const UCNET_INTERFACE: u8 = 3;

/// USB endpoint for sending (OUT).
pub const ENDPOINT_OUT: u8 = 0x03;

/// USB endpoint for receiving (IN).
pub const ENDPOINT_IN: u8 = 0x83;

/// USB transfer timeout, in milliseconds.
pub const TRANSFER_TIMEOUT_MS: u64 = 1000;

/// Largest USB packet size used.
pub const MAX_PACKET_SIZE: usize = 512;

/// Whether a product id is one of the supported Series III mixers.
pub open spec fn spec_supported_product(product_id: u16) -> bool {
    product_id == 0x0101 || product_id == 0x0102 || product_id == 0x0103 || product_id == 0x0104
        || product_id == 0x0105 || product_id == 0x0106
}

/// Whether a USB device is a supported PreSonus mixer: the PreSonus vendor
/// id with one of the known Series III product ids.
pub fn is_supported_mixer(vendor_id: u16, product_id: u16) -> (r: bool)
    ensures
        r == (vendor_id == 0x194F && spec_supported_product(product_id)),
{
    if vendor_id != PRESONUS_VENDOR_ID {
        return false;
    }
    product_id == STUDIOLIVE_32S || product_id == STUDIOLIVE_32SC || product_id == STUDIOLIVE_64S
        || product_id == STUDIOLIVE_32SX || product_id == STUDIOLIVE_24R || product_id
        == STUDIOLIVE_32R
}

/// The model name of a supported product id, or `None` for any other id.
pub fn get_model_name(product_id: u16) -> (r: Option<&'static str>)
    ensures
        r is Some <==> spec_supported_product(product_id),
        match r {
            Some(name) => {
                &&& product_id == 0x0101 ==> name@ == "StudioLive 32S"@
                &&& product_id == 0x0102 ==> name@ == "StudioLive 32SC"@
                &&& product_id == 0x0103 ==> name@ == "StudioLive 64S"@
                &&& product_id == 0x0104 ==> name@ == "StudioLive 32SX"@
                &&& product_id == 0x0105 ==> name@ == "StudioLive 24R"@
                &&& product_id == 0x0106 ==> name@ == "StudioLive 32R"@
            },
            None => true,
        },
{
    if product_id == STUDIOLIVE_32S {
        Some("StudioLive 32S")
    } else if product_id == STUDIOLIVE_32SC {
        Some("StudioLive 32SC")
    } else if product_id == STUDIOLIVE_64S {
        Some("StudioLive 64S")
    } else if product_id == STUDIOLIVE_32SX {
        Some("StudioLive 32SX")
    } else if product_id == STUDIOLIVE_24R {
        Some("StudioLive 24R")
    } else if product_id == STUDIOLIVE_32R {
        Some("StudioLive 32R")
    } else {
        None
    }
}

} // verus!
