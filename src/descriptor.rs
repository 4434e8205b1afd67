//! Reading a HID report descriptor far enough to count the input bits it declares.
use vstd::prelude::*;

verus! {

/// Prefix of a long item, which this reader does not accept.
pub const LONG_ITEM_PREFIX: u8 = 0xfe;

/// Tag and type bits of a Report Size global item.
pub const REPORT_SIZE_ITEM: u8 = 0x74;

/// Tag and type bits of a Report Count global item.
pub const REPORT_COUNT_ITEM: u8 = 0x94;

/// Tag and type bits of an Input main item.
pub const INPUT_ITEM: u8 = 0x80;

/// Number of data bytes that follow a short item's prefix: 0, 1, 2 or 4.
pub open spec fn item_data_len(prefix: u8) -> int {
    let s = prefix & 3;
    if s == 3 {
        4
    } else {
        s as int
    }
}

/// The unsigned little-endian value of `n` bytes of `d` from `pos`.
pub open spec fn item_value(d: Seq<u8>, pos: int, n: int) -> int
    decreases n,
{
    if n <= 0 {
        0
    } else {
        item_value(d, pos, n - 1) + d[pos + n - 1] * pow256(n - 1)
    }
}

/// `256^k`.
pub open spec fn pow256(k: int) -> int
    decreases k,
{
    if k <= 0 {
        1
    } else {
        256 * pow256(k - 1)
    }
}

/// Input bits declared from item position `pos` on, given the current Report
/// Size and Report Count and the bits counted so far; `None` for a long item, an
/// item cut short by the end of the table, or a total past `u64::MAX`.
pub open spec fn input_bits_from(d: Seq<u8>, pos: int, size: int, count: int, acc: int) -> Option<int>
    decreases d.len() - pos,
{
    if pos < 0 || pos >= d.len() {
        Some(acc)
    } else {
        let prefix = d[pos];
        let n = item_data_len(prefix);
        if prefix == LONG_ITEM_PREFIX || pos + 1 + n > d.len() {
            None
        } else {
            let v = item_value(d, pos + 1, n);
            let next = pos + 1 + n;
            let kind = prefix & 0xfc;
            if kind == REPORT_SIZE_ITEM {
                input_bits_from(d, next, v, count, acc)
            } else if kind == REPORT_COUNT_ITEM {
                input_bits_from(d, next, size, v, acc)
            } else if kind == INPUT_ITEM {
                if acc + size * count > u64::MAX {
                    None
                } else {
                    input_bits_from(d, next, size, count, acc + size * count)
                }
            } else {
                input_bits_from(d, next, size, count, acc)
            }
        }
    }
}

/// Total input bits that a descriptor declares: for each Input item, the
/// Report Size times the Report Count in force at that point.
pub open spec fn declared_input_bits(d: Seq<u8>) -> Option<int> {
    input_bits_from(d, 0, 0, 0, 0)
}

/// Size and kind bits of the short-item prefixes that the shipped descriptors use.
pub proof fn lemma_known_prefixes()
    by (bit_vector)
    ensures
        0x05u8 & 3 == 1 && 0x05u8 & 0xfc == 0x4,
        0x09u8 & 3 == 1 && 0x09u8 & 0xfc == 0x8,
        0xa1u8 & 3 == 1 && 0xa1u8 & 0xfc == 0xa0,
        0x15u8 & 3 == 1 && 0x15u8 & 0xfc == 0x14,
        0x25u8 & 3 == 1 && 0x25u8 & 0xfc == 0x24,
        0x75u8 & 3 == 1 && 0x75u8 & 0xfc == 0x74,
        0x95u8 & 3 == 1 && 0x95u8 & 0xfc == 0x94,
        0x81u8 & 3 == 1 && 0x81u8 & 0xfc == 0x80,
        0x19u8 & 3 == 1 && 0x19u8 & 0xfc == 0x18,
        0x29u8 & 3 == 1 && 0x29u8 & 0xfc == 0x28,
        0xc0u8 & 3 == 0 && 0xc0u8 & 0xfc == 0xc0,
{
}

proof fn lemma_pow256_values()
    ensures
        pow256(0) == 1,
        pow256(1) == 256,
        pow256(2) == 0x1_0000,
        pow256(3) == 0x100_0000,
{
    reveal_with_fuel(pow256, 4);
}

/// Reads the unsigned little-endian data of a short item.
fn read_item_value(d: &[u8], pos: usize, n: usize) -> (r: u64)
    requires
        n == 0 || n == 1 || n == 2 || n == 4,
        pos + n <= d@.len(),
    ensures
        r == item_value(d@, pos as int, n as int),
        r < 0x1_0000_0000,
{
    proof {
        lemma_pow256_values();
        reveal_with_fuel(item_value, 5);
    }
    if n == 0 {
        0
    } else if n == 1 {
        d[pos] as u64
    } else if n == 2 {
        d[pos] as u64 + d[pos + 1] as u64 * 256
    } else {
        d[pos] as u64 + d[pos + 1] as u64 * 0x100 + d[pos + 2] as u64 * 0x1_0000 + d[pos + 3] as u64
            * 0x100_0000
    }
}

/// Total input bits that the descriptor `d` declares, or `None` where it holds
/// a long item, an item cut short, or a total past `u64::MAX`.
pub fn input_report_bits(d: &[u8]) -> (r: Option<u64>)
    ensures
        r matches Some(b) ==> declared_input_bits(d@) == Some(b as int),
        r is None ==> declared_input_bits(d@) is None,
{
    let mut pos: usize = 0;
    let mut size: u64 = 0;
    let mut count: u64 = 0;
    let mut acc: u64 = 0;
    while pos < d.len()
        invariant
            pos <= d@.len(),
            size < 0x1_0000_0000,
            count < 0x1_0000_0000,
            declared_input_bits(d@) == input_bits_from(d@, pos as int, size as int, count as int, acc as int),
        decreases d@.len() - pos,
    {
        let prefix = d[pos];
        let low: u8 = prefix & 3;
        assert(prefix & 3 < 4) by (bit_vector);
        let n: usize = if low == 3 {
            4
        } else {
            low as usize
        };
        if prefix == LONG_ITEM_PREFIX || n > d.len() - pos - 1 {
            return None;
        }
        let v = read_item_value(d, pos + 1, n);
        let kind: u8 = prefix & 0xfc;
        if kind == REPORT_SIZE_ITEM {
            size = v;
        } else if kind == REPORT_COUNT_ITEM {
            count = v;
        } else if kind == INPUT_ITEM {
            assert(size * count < 0x1_0000_0000 * 0x1_0000_0000) by (nonlinear_arith)
                requires
                    size < 0x1_0000_0000,
                    count < 0x1_0000_0000,
            ;
            let bits: u128 = size as u128 * count as u128;
            if acc as u128 + bits > u64::MAX as u128 {
                return None;
            }
            acc = acc + bits as u64;
        }
        pos = pos + 1 + n;
    }
    Some(acc)
}

/// The descriptor declares, in whole bytes, exactly `report_len` bytes of input.
pub open spec fn matches_report_len(d: Seq<u8>, report_len: int) -> bool {
    declared_input_bits(d) matches Some(b) && (b + 7) / 8 == report_len
}

/// Whether the descriptor `d` declares exactly `report_len` bytes of input,
/// counting bits and rounding up to whole bytes.
pub fn is_consistent(d: &[u8], report_len: usize) -> (r: bool)
    ensures
        r == matches_report_len(d@, report_len as int),
{
    match input_report_bits(d) {
        Some(b) => (b / 8 + if b % 8 == 0 {
            0
        } else {
            1
        }) == report_len as u64,
        None => false,
    }
}

} // verus!
