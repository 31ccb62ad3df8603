//! Parsing of discovery advertisements into device records, and the optional
//! discovery query packet.

use vstd::prelude::*;
use vstd::string::StringExecFns;
use crate::errors::UcNetError;
use crate::ucnet_types::NetworkDeviceInfo;
use crate::protocol::{
    spec_discovery_runs, spec_magic, spec_packet, spec_type_of_bytes, DiscoveryInfo, PacketHeader,
    PayloadType, DISCOVERY_PORT,
};
use crate::strutil::ascii_chars;

verus! {

/// Builds a discovery query packet, which may be broadcast to prompt
/// consoles to advertise at once; consoles also advertise unprompted.
pub fn create_discovery_packet() -> (r: Vec<u8>)
    ensures
        r@ == spec_packet(
            PayloadType::DiscoveryQuery,
            seq![0x00u8, 0x00u8, 0x65u8, 0x00u8],
        ),
{
    let payload: [u8; 4] = [0x00, 0x00, 0x65, 0x00];
    proof {
        assert(payload@ =~= seq![0x00u8, 0x00u8, 0x65u8, 0x00u8]);
    }
    crate::protocol::build_packet(PayloadType::DiscoveryQuery, payload.as_slice())
}

/// Parses a discovery advertisement datagram into a device record. Fails
/// when the datagram is shorter than 12 bytes, is not a valid packet, is not
/// a discovery advertisement, or its payload holds too few strings. A
/// missing serial number is replaced by the sender's address.
pub fn parse_discovery_response(data: &[u8], ip_addr: &str) -> (r: Result<
    NetworkDeviceInfo,
    UcNetError,
>)
    ensures
        ({
            let runs = spec_discovery_runs(data@.skip(8));
            match r {
                Ok(info) => {
                    &&& data@.len() >= 12
                    &&& data@.take(4) == spec_magic()
                    &&& spec_type_of_bytes(data@[6], data@[7])
                        == PayloadType::DiscoveryAdvertisement
                    &&& runs.len() >= 2
                    &&& info.ip_addr@ == ip_addr@
                    &&& info.port == 47809u16
                    &&& info.model@ == ascii_chars(runs[0])
                    &&& info.firmware_version@ == "Unknown"@
                    &&& info.device_id@ == (if runs.len() > 2 && ascii_chars(runs[2]).len() > 0 {
                        ascii_chars(runs[2])
                    } else {
                        ip_addr@
                    })
                },
                Err(_) => data@.len() < 12 || data@.take(4) != spec_magic() || spec_type_of_bytes(
                    data@[6],
                    data@[7],
                ) != PayloadType::DiscoveryAdvertisement || runs.len() < 2 || data@.skip(
                    8,
                ).len() < 20,
            }
        }),
{
    if data.len() < 12 {
        return Err(
            UcNetError::InvalidResponse(String::from_str("Response too short for UCNet packet")),
        );
    }
    let header = match PacketHeader::from_bytes(data) {
        Ok(h) => h,
        Err(e) => {
            return Err(e);
        },
    };
    let is_da = match header.payload_type {
        PayloadType::DiscoveryAdvertisement => true,
        _ => false,
    };
    if !is_da {
        return Err(
            UcNetError::InvalidResponse(String::from_str("Not a discovery advertisement packet")),
        );
    }
    // Copy out the payload after the header.
    let n = data.len();
    let mut payload: Vec<u8> = Vec::new();
    let mut i: usize = 8;
    while i < n
        invariant
            8 <= i <= n,
            n == data@.len(),
            payload@ == data@.skip(8).take(i - 8),
        decreases n - i,
    {
        payload.push(data[i]);
        proof {
            assert(data@.skip(8)[i - 8] == data@[i as int]);
            assert(payload@ =~= data@.skip(8).take(i - 8 + 1));
        }
        i = i + 1;
    }
    proof {
        assert(payload@ =~= data@.skip(8));
    }
    let info = match DiscoveryInfo::from_payload(payload.as_slice()) {
        Ok(info) => info,
        Err(e) => {
            return Err(e);
        },
    };
    let device_id = if info.serial.as_str().is_empty() {
        ip_addr.to_owned()
    } else {
        info.serial
    };
    Ok(
        NetworkDeviceInfo {
            ip_addr: ip_addr.to_owned(),
            port: DISCOVERY_PORT,
            model: info.model,
            firmware_version: String::from_str("Unknown"),
            device_id,
        },
    )
}

} // verus!
