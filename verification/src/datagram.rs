//! The IP datagram unwrapper: locating the embedded ICMP payload from the
//! Internet Header Length field, and reading the Time-To-Live byte.

use vstd::prelude::*;

verus! {

use vstd::slice::slice_subrange;

/// The declared header size in bytes: the low 4 bits of byte 0 (the IHL,
/// a count of 32-bit words) times 4.
pub open spec fn spec_header_size(d: Seq<u8>) -> int
    recommends
        d.len() > 0,
{
    (d[0] % 16) * 4
}

/// The ICMP payload of a raw IP datagram: the bytes from the declared
/// header size onward, or nothing when the datagram is empty or shorter
/// than its declared header.
pub open spec fn spec_extract_icmp(d: Seq<u8>) -> Option<Seq<u8>> {
    if d.len() > 0 && d.len() >= spec_header_size(d) {
        Some(d.skip(spec_header_size(d)))
    } else {
        None
    }
}

/// Returns the ICMP payload embedded in a raw IP datagram: everything past
/// the declared IP header. Fails cleanly when the datagram is empty or
/// shorter than its declared header length.
pub fn extract_icmp_message(bytes: &[u8]) -> (r: Option<&[u8]>)
    ensures
        match r {
            Some(p) => {
                &&& spec_extract_icmp(bytes@) == Some(p@)
                &&& p@.len() == bytes@.len() - spec_header_size(bytes@)
            },
            None => spec_extract_icmp(bytes@) is None,
        },
{
    if bytes.len() == 0 {
        return None;
    }
    let header_size: usize = (bytes[0] % 16) as usize * 4;
    if bytes.len() < header_size {
        return None;
    }
    Some(slice_subrange(bytes, header_size, bytes.len()))
}

/// Returns the IP Time-To-Live field: byte offset 8 of the full datagram,
/// a fixed position independent of the header length.
pub fn extract_ttl(bytes: &[u8]) -> (r: u8)
    requires
        bytes@.len() > 8,
    ensures
        r == bytes@[8],
{
    bytes[8]
}

} // verus!
