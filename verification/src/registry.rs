//! The worker registry as the client reads it: enclave records from
//! ledger storage, and the worker's URL extracted from the registry's
//! raw bytes by the address grammar — up to three digits, thrice dotted,
//! then a colon and a four-digit port.

use vstd::prelude::*;
use vstd::string::StringSliceAdditionalSpecFns;
use crate::Error;
use crate::codec::{le_bytes_to_u64, le_value, parse_compact, read_compact};
use crate::hexcodec::{hex_bytes, hex_valid, hexstr_to_vec, strip_0x};
use crate::model::push_bytes;

verus! {

/// Whether `c` is an ASCII decimal digit.
pub open spec fn is_digit(c: u8) -> bool {
    0x30 <= c <= 0x39
}

/// The length of the digit run starting at `i`.
pub open spec fn digit_run(s: Seq<u8>, i: int) -> nat
    decreases s.len() - i,
{
    if 0 <= i < s.len() && is_digit(s[i]) {
        1 + digit_run(s, i + 1)
    } else {
        0
    }
}

/// Where an address match starting at `i` would end: four digit runs of
/// one to three digits separated by dots, a colon, then at least four
/// digits, of which the match takes exactly four.
pub open spec fn ip_port_end(s: Seq<u8>, i: int) -> Option<int> {
    let a = digit_run(s, i);
    if a < 1 || a > 3 || i + a >= s.len() || s[i + a] != 0x2e {
        None
    } else {
        let p1 = i + a + 1;
        let b = digit_run(s, p1);
        if b < 1 || b > 3 || p1 + b >= s.len() || s[p1 + b] != 0x2e {
            None
        } else {
            let p2 = p1 + b + 1;
            let c = digit_run(s, p2);
            if c < 1 || c > 3 || p2 + c >= s.len() || s[p2 + c] != 0x2e {
                None
            } else {
                let p3 = p2 + c + 1;
                let d = digit_run(s, p3);
                if d < 1 || d > 3 || p3 + d >= s.len() || s[p3 + d] != 0x3a {
                    None
                } else {
                    let p4 = p3 + d + 1;
                    if digit_run(s, p4) >= 4 {
                        Some(p4 + 4)
                    } else {
                        None
                    }
                }
            }
        }
    }
}

/// The leftmost address match in `s` at or after `i`, with its end.
pub open spec fn first_ip_port_from(s: Seq<u8>, i: int) -> Option<(int, int)>
    decreases s.len() - i,
{
    if i < 0 || i >= s.len() {
        None
    } else {
        match ip_port_end(s, i) {
            Some(end) => Some((i, end)),
            None => first_ip_port_from(s, i + 1),
        }
    }
}

/// The length of the digit run starting at `i`, as the scanner reads it.
fn digit_run_from(s: &[u8], i: usize) -> (r: usize)
    requires
        i <= s@.len(),
    ensures
        r == digit_run(s@, i as int),
        i + r <= s@.len(),
{
    let mut j: usize = i;
    while j < s.len() && 0x30 <= s[j] && s[j] <= 0x39
        invariant
            i <= j <= s@.len(),
            digit_run(s@, i as int) == (j - i) + digit_run(s@, j as int),
        decreases s@.len() - j,
    {
        j = j + 1;
    }
    j - i
}

/// Where an address match starting at `i` would end, as the scanner
/// reads it.
fn ip_port_end_at(s: &[u8], i: usize) -> (r: Option<usize>)
    requires
        i <= s@.len(),
    ensures
        match r {
            Some(end) => ip_port_end(s@, i as int) == Some(end as int) && end <= s@.len(),
            None => ip_port_end(s@, i as int) is None,
        },
{
    let len = s.len();
    let a = digit_run_from(s, i);
    if a < 1 || a > 3 || i + a >= len || s[i + a] != 0x2e {
        return None;
    }
    let p1 = i + a + 1;
    let b = digit_run_from(s, p1);
    if b < 1 || b > 3 || p1 + b >= len || s[p1 + b] != 0x2e {
        return None;
    }
    let p2 = p1 + b + 1;
    let c = digit_run_from(s, p2);
    if c < 1 || c > 3 || p2 + c >= len || s[p2 + c] != 0x2e {
        return None;
    }
    let p3 = p2 + c + 1;
    let d = digit_run_from(s, p3);
    if d < 1 || d > 3 || p3 + d >= len || s[p3 + d] != 0x3a {
        return None;
    }
    let p4 = p3 + d + 1;
    if digit_run_from(s, p4) >= 4 {
        Some(p4 + 4)
    } else {
        None
    }
}

/// The leftmost address match in `s`: the match the registry's URL is
/// cut out by.
pub fn find_ip_port(s: &[u8]) -> (r: Option<(usize, usize)>)
    ensures
        match r {
            Some((start, end)) => first_ip_port_from(s@, 0) == Some((start as int, end as int))
                && start <= end <= s@.len(),
            None => first_ip_port_from(s@, 0) is None,
        },
{
    let mut i: usize = 0;
    while i < s.len()
        invariant
            0 <= i <= s@.len(),
            first_ip_port_from(s@, 0) == first_ip_port_from(s@, i as int),
        decreases s@.len() - i,
    {
        match ip_port_end_at(s, i) {
            Some(end) => {
                return Some((i, end));
            },
            None => {},
        }
        i = i + 1;
    }
    None
}

/// A registered worker as the node registry publishes it to peers: its
/// signing key and the URL it serves.
#[derive(Debug)]
pub struct Enclave {
    pub pubkey: Vec<u8>,
    pub url: Vec<u8>,
}

/// What registry storage bytes hold of a worker: 32 key bytes, then a
/// URL zone whose first byte is a length marker the reader steps over,
/// with the worker's address somewhere inside.
pub open spec fn spec_url_zone(v: Seq<u8>) -> Seq<u8> {
    v.skip(33)
}

/// Reads a worker record from the registry's hex storage text: the
/// signing key is the first 32 bytes, and the URL is the leftmost
/// address match in the zone after them.  Malformed hex, a short value,
/// or a zone without an address are rejected, never aborted on.
pub fn enclave_from_storage_hex(hexstr: &str) -> (r: Result<Enclave, Error>)
    ensures
        match r {
            Ok(enc) => {
                &&& hex_valid(strip_0x(hexstr.spec_bytes()))
                &&& {
                    let v = hex_bytes(strip_0x(hexstr.spec_bytes()));
                    &&& v.len() > 33
                    &&& enc.pubkey@ == v.take(32)
                    &&& first_ip_port_from(spec_url_zone(v), 0) matches Some((start, end))
                        && enc.url@ == spec_url_zone(v).subrange(start, end)
                }
            },
            Err(e) => {
                &&& e == Error::EncodingError
                &&& {
                    ||| !hex_valid(strip_0x(hexstr.spec_bytes()))
                    ||| hex_bytes(strip_0x(hexstr.spec_bytes())).len() <= 33
                    ||| first_ip_port_from(
                        spec_url_zone(hex_bytes(strip_0x(hexstr.spec_bytes()))),
                        0,
                    ) is None
                }
            },
        },
{
    let v = hexstr_to_vec(hexstr)?;
    if v.len() <= 33 {
        return Err(Error::EncodingError);
    }
    let (key_part, rest) = v.as_slice().split_at(32);
    let (_, zone) = rest.split_at(1);
    proof {
        assert(zone@ =~= spec_url_zone(v@));
    }
    let (start, end) = match find_ip_port(zone) {
        Some(p) => p,
        None => {
            return Err(Error::EncodingError);
        },
    };
    let mut pubkey: Vec<u8> = Vec::new();
    push_bytes(&mut pubkey, key_part);
    let mut url: Vec<u8> = Vec::new();
    let (_, tail) = zone.split_at(start);
    let (middle, _) = tail.split_at(end - start);
    push_bytes(&mut url, middle);
    proof {
        assert(pubkey@ =~= v@.take(32));
        assert(url@ =~= spec_url_zone(v@).subrange(start as int, end as int));
    }
    Ok(Enclave { pubkey, url })
}

/// A worker's full registry entry as the ledger stores it: signing key,
/// identity measurement, attestation timestamp, and URL bytes.
#[derive(Debug)]
pub struct EnclaveRegistryEntry {
    pub pubkey: Vec<u8>,
    pub mr_enclave: Vec<u8>,
    pub timestamp: u64,
    pub url: Vec<u8>,
}

/// What registry entry bytes decode to: two 32-byte identities, an
/// eight-byte little-endian timestamp, then a length-prefixed URL
/// consuming the rest exactly.
pub open spec fn spec_decode_enclave_entry(b: Seq<u8>) -> Option<(Seq<u8>, Seq<u8>, nat, Seq<
    u8,
>)> {
    if b.len() < 72 {
        None
    } else {
        match parse_compact(b.skip(72)) {
            Some((n, k)) => if b.skip(72).len() == k + n {
                Some(
                    (
                        b.take(32),
                        b.subrange(32, 64),
                        le_value(b.subrange(64, 72)),
                        b.skip(72).skip(k as int),
                    ),
                )
            } else {
                None
            },
            None => None,
        }
    }
}

/// Decodes a worker's registry entry; bytes that are not a whole
/// well-formed entry are rejected.
pub fn decode_enclave_entry(b: &[u8]) -> (r: Result<EnclaveRegistryEntry, Error>)
    ensures
        match r {
            Ok(e) => spec_decode_enclave_entry(b@) == Some(
                (e.pubkey@, e.mr_enclave@, e.timestamp as nat, e.url@),
            ),
            Err(err) => spec_decode_enclave_entry(b@) is None && err == Error::EncodingError,
        },
{
    if b.len() < 72 {
        return Err(Error::EncodingError);
    }
    let (n, after_len) = match read_compact(b, 72) {
        Some(p) => p,
        None => {
            return Err(Error::EncodingError);
        },
    };
    proof {
        assert(b@.skip(72).len() == b@.len() - 72);
    }
    if b.len() - after_len != n {
        proof {
            assert(b@.skip(72).len() != (after_len - 72) + n);
        }
        return Err(Error::EncodingError);
    }
    let (head, rest_url) = b.split_at(after_len);
    let (keys, ts_part) = head.split_at(64);
    let (key_part, mre_part) = keys.split_at(32);
    let ghost k = (after_len - 72) as nat;
    let mut pubkey: Vec<u8> = Vec::new();
    push_bytes(&mut pubkey, key_part);
    let mut mr_enclave: Vec<u8> = Vec::new();
    push_bytes(&mut mr_enclave, mre_part);
    let mut url: Vec<u8> = Vec::new();
    push_bytes(&mut url, rest_url);
    let (ts_bytes, _) = ts_part.split_at(8);
    proof {
        assert(ts_bytes@ =~= b@.subrange(64, 72));
        assert(pubkey@ =~= b@.take(32));
        assert(mr_enclave@ =~= b@.subrange(32, 64));
        assert(url@ =~= b@.skip(72).skip(k as int));
    }
    let timestamp = le_bytes_to_u64(ts_bytes);
    Ok(EnclaveRegistryEntry { pubkey, mr_enclave, timestamp, url })
}

} // verus!
