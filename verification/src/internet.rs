//! IPv4 addresses as 32-bit numbers, and the blocks that are never probed.

use vstd::prelude::*;
use crate::wire::be_u32;

verus! {

/// `first <= ip <= last`: the address lies in the block that runs from `first` to `last`.
pub open spec fn within(ip: u32, first: u32, last: u32) -> bool {
    first <= ip <= last
}

/// The address lies in a block that is reserved, private, link-local, set
/// aside for documentation or benchmarks, multicast, or of class E.
pub open spec fn is_reserved(ip: u32) -> bool {
    ||| within(ip, 0x00_00_00_00, 0x00_FF_FF_FF)  // 0.0.0.0/8
    ||| within(ip, 0x0A_00_00_00, 0x0A_FF_FF_FF)  // 10.0.0.0/8
    ||| within(ip, 0x64_40_00_00, 0x64_7F_FF_FF)  // 100.64.0.0/10
    ||| within(ip, 0x7F_00_00_00, 0x7F_FF_FF_FF)  // 127.0.0.0/8
    ||| within(ip, 0xA9_FE_00_00, 0xA9_FE_FF_FF)  // 169.254.0.0/16
    ||| within(ip, 0xAC_10_00_00, 0xAC_1F_FF_FF)  // 172.16.0.0/12
    ||| within(ip, 0xC0_00_00_00, 0xC0_00_00_FF)  // 192.0.0.0/24
    ||| within(ip, 0xC0_00_02_00, 0xC0_00_02_FF)  // 192.0.2.0/24
    ||| within(ip, 0xC0_1F_C4_00, 0xC0_1F_C4_FF)  // 192.31.196.0/24
    ||| within(ip, 0xC0_34_C1_00, 0xC0_34_C1_FF)  // 192.52.193.0/24
    ||| within(ip, 0xC0_58_63_00, 0xC0_58_63_FF)  // 192.88.99.0/24
    ||| within(ip, 0xC0_A8_00_00, 0xC0_A8_FF_FF)  // 192.168.0.0/16
    ||| within(ip, 0xC0_AF_30_00, 0xC0_AF_30_FF)  // 192.175.48.0/24
    ||| within(ip, 0xC6_12_00_00, 0xC6_13_FF_FF)  // 198.18.0.0/15
    ||| within(ip, 0xC6_33_64_00, 0xC6_33_64_FF)  // 198.51.100.0/24
    ||| within(ip, 0xCB_00_71_00, 0xCB_00_71_FF)  // 203.0.113.0/24
    ||| within(ip, 0xE0_00_00_00, 0xEF_FF_FF_FF)  // 224.0.0.0/4
    ||| within(ip, 0xF0_00_00_00, 0xFF_FF_FF_FF)  // 240.0.0.0/4
}

/// An address is worth probing exactly when it lies in no reserved block.
pub open spec fn is_valid_target(ip: u32) -> bool {
    !is_reserved(ip)
}

/// A test of the leading bits of an address is a test of the block it lies in.
proof fn lemma_prefix_is_block(ip: u32)
    by (bit_vector)
    ensures
        (ip & 0xFF_00_00_00 == 0x00_00_00_00) == (0x00_00_00_00 <= ip && ip <= 0x00_FF_FF_FF),
        (ip & 0xFF_00_00_00 == 0x0A_00_00_00) == (0x0A_00_00_00 <= ip && ip <= 0x0A_FF_FF_FF),
        (ip & 0xFF_C0_00_00 == 0x64_40_00_00) == (0x64_40_00_00 <= ip && ip <= 0x64_7F_FF_FF),
        (ip & 0xFF_00_00_00 == 0x7F_00_00_00) == (0x7F_00_00_00 <= ip && ip <= 0x7F_FF_FF_FF),
        (ip & 0xFF_FF_00_00 == 0xA9_FE_00_00) == (0xA9_FE_00_00 <= ip && ip <= 0xA9_FE_FF_FF),
        (ip & 0xFF_F0_00_00 == 0xAC_10_00_00) == (0xAC_10_00_00 <= ip && ip <= 0xAC_1F_FF_FF),
        (ip & 0xFF_FF_FF_00 == 0xC0_00_00_00) == (0xC0_00_00_00 <= ip && ip <= 0xC0_00_00_FF),
        (ip & 0xFF_FF_FF_00 == 0xC0_00_02_00) == (0xC0_00_02_00 <= ip && ip <= 0xC0_00_02_FF),
        (ip & 0xFF_FF_FF_00 == 0xC0_1F_C4_00) == (0xC0_1F_C4_00 <= ip && ip <= 0xC0_1F_C4_FF),
        (ip & 0xFF_FF_FF_00 == 0xC0_34_C1_00) == (0xC0_34_C1_00 <= ip && ip <= 0xC0_34_C1_FF),
        (ip & 0xFF_FF_FF_00 == 0xC0_58_63_00) == (0xC0_58_63_00 <= ip && ip <= 0xC0_58_63_FF),
        (ip & 0xFF_FF_00_00 == 0xC0_A8_00_00) == (0xC0_A8_00_00 <= ip && ip <= 0xC0_A8_FF_FF),
        (ip & 0xFF_FF_FF_00 == 0xC0_AF_30_00) == (0xC0_AF_30_00 <= ip && ip <= 0xC0_AF_30_FF),
        (ip & 0xFF_FE_00_00 == 0xC6_12_00_00) == (0xC6_12_00_00 <= ip && ip <= 0xC6_13_FF_FF),
        (ip & 0xFF_FF_FF_00 == 0xC6_33_64_00) == (0xC6_33_64_00 <= ip && ip <= 0xC6_33_64_FF),
        (ip & 0xFF_FF_FF_00 == 0xCB_00_71_00) == (0xCB_00_71_00 <= ip && ip <= 0xCB_00_71_FF),
        (ip & 0xF0_00_00_00 == 0xE0_00_00_00) == (0xE0_00_00_00 <= ip && ip <= 0xEF_FF_FF_FF),
        (ip & 0xF0_00_00_00 == 0xF0_00_00_00) == (0xF0_00_00_00 <= ip && ip <= 0xFF_FF_FF_FF),
{
}

/// Whether `ip` may be probed: `false` for every address of a reserved block.
pub fn ip_is_valid(ip: &u32) -> (valid: bool)
    ensures
        valid == is_valid_target(*ip),
{
    let ip: u32 = *ip;
    proof {
        lemma_prefix_is_block(ip);
    }
    // 0.0.0.0/8
    if ip & 0xFF_00_00_00 == 0x00_00_00_00 {
        return false;
    }
    // 10.0.0.0/8
    if ip & 0xFF_00_00_00 == 0x0A_00_00_00 {
        return false;
    }
    // 100.64.0.0/10
    if ip & 0xFF_C0_00_00 == 0x64_40_00_00 {
        return false;
    }
    // 127.0.0.0/8
    if ip & 0xFF_00_00_00 == 0x7F_00_00_00 {
        return false;
    }
    // 169.254.0.0/16
    if ip & 0xFF_FF_00_00 == 0xA9_FE_00_00 {
        return false;
    }
    // 172.16.0.0/12
    if ip & 0xFF_F0_00_00 == 0xAC_10_00_00 {
        return false;
    }
    // 192.0.0.0/24
    if ip & 0xFF_FF_FF_00 == 0xC0_00_00_00 {
        return false;
    }
    // 192.0.2.0/24
    if ip & 0xFF_FF_FF_00 == 0xC0_00_02_00 {
        return false;
    }
    // 192.31.196.0/24
    if ip & 0xFF_FF_FF_00 == 0xC0_1F_C4_00 {
        return false;
    }
    // 192.52.193.0/24
    if ip & 0xFF_FF_FF_00 == 0xC0_34_C1_00 {
        return false;
    }
    // 192.88.99.0/24
    if ip & 0xFF_FF_FF_00 == 0xC0_58_63_00 {
        return false;
    }
    // 192.168.0.0/16
    if ip & 0xFF_FF_00_00 == 0xC0_A8_00_00 {
        return false;
    }
    // 192.175.48.0/24
    if ip & 0xFF_FF_FF_00 == 0xC0_AF_30_00 {
        return false;
    }
    // 198.18.0.0/15
    if ip & 0xFF_FE_00_00 == 0xC6_12_00_00 {
        return false;
    }
    // 198.51.100.0/24
    if ip & 0xFF_FF_FF_00 == 0xC6_33_64_00 {
        return false;
    }
    // 203.0.113.0/24
    if ip & 0xFF_FF_FF_00 == 0xCB_00_71_00 {
        return false;
    }
    // 240.0.0.0/4
    if ip & 0xF0_00_00_00 == 0xF0_00_00_00 {
        return false;
    }
    // 224.0.0.0/4, multicast
    if ip & 0xF0_00_00_00 == 0xE0_00_00_00 {
        return false;
    }
    true
}

/// The four octets of an address, first octet first.
pub fn u32_to_ip(n: u32) -> (octets: [u8; 4])
    ensures
        be_u32(octets[0], octets[1], octets[2], octets[3]) == n,
        octets[0] == n / 16777216,
        octets[1] == n / 65536 % 256,
        octets[2] == n / 256 % 256,
        octets[3] == n % 256,
{
    [(n / 16777216) as u8, (n / 65536 % 256) as u8, (n / 256 % 256) as u8, (n % 256) as u8]
}

/// The address whose octets are `octets`, first octet first.
pub fn ip_to_u32(octets: [u8; 4]) -> (n: u32)
    ensures
        n == be_u32(octets[0], octets[1], octets[2], octets[3]),
{
    16777216 * (octets[0] as u32) + 65536 * (octets[1] as u32) + 256 * (octets[2] as u32)
        + octets[3] as u32
}

} // verus!
