use vstd::prelude::*;

verus! {

/// The generator polynomial of CRC-32, lowest bit first.
pub const POLYNOMIAL: u32 = 0xedb88320u32;

/// One turn of the shift register: the lowest bit leaves, and the generator
/// polynomial is folded in where that bit was set.
pub open spec fn shift_once(crc: u32) -> u32 {
    if crc & 1 == 1 {
        (crc >> 1) ^ POLYNOMIAL
    } else {
        crc >> 1
    }
}

/// `rounds` turns of the shift register.
pub open spec fn shift_rounds(crc: u32, rounds: nat) -> u32
    decreases rounds,
{
    if rounds == 0 {
        crc
    } else {
        shift_once(shift_rounds(crc, (rounds - 1) as nat))
    }
}

/// The register after one more byte: the byte is folded into the lowest
/// eight bits, and the register turns eight times.
pub open spec fn update_byte(crc: u32, byte: u8) -> u32 {
    shift_rounds(crc ^ (byte as u32), 8)
}

/// The register after all bytes of `data`, first byte first.
pub open spec fn update(crc: u32, data: Seq<u8>) -> u32
    decreases data.len(),
{
    if data.len() == 0 {
        crc
    } else {
        update_byte(update(crc, data.drop_last()), data.last())
    }
}

/// The CRC-32 checksum of `data`: the register starts with all bits set, and
/// all bits are flipped at the end.
pub open spec fn checksum(data: Seq<u8>) -> u32 {
    update(0xffffffffu32, data) ^ 0xffffffffu32
}

spec fn shift_eight(crc: u32) -> u32 {
    shift_once(
        shift_once(
            shift_once(shift_once(shift_once(shift_once(shift_once(shift_once(crc)))))),
        ),
    )
}

proof fn lemma_shift_eight(crc: u32)
    ensures
        shift_rounds(crc, 8) == shift_eight(crc),
{
    reveal_with_fuel(shift_rounds, 9);
}

proof fn lemma_shift_eight_splits(crc: u32)
    ensures
        shift_eight(crc) == shift_eight(crc & 0xff) ^ (crc >> 8),
        crc & 0xff < 256,
{
    assert(shift_eight(crc) == shift_eight(crc & 0xff) ^ (crc >> 8)) by (bit_vector);
    assert(crc & 0xff < 256) by (bit_vector);
}

/// Eight turns of the register depend on the high bits only by a shift: this
/// is what lets a table of 256 entries stand for the eight turns.
pub proof fn lemma_table_step(crc: u32, byte: u8)
    ensures
        ((crc ^ (byte as u32)) & 0xff) < 256,
        update_byte(crc, byte) == shift_rounds((crc ^ (byte as u32)) & 0xff, 8) ^ (crc >> 8),
{
    let folded = crc ^ (byte as u32);
    lemma_shift_eight(folded);
    lemma_shift_eight(folded & 0xff);
    lemma_shift_eight_splits(folded);
    assert((crc ^ (byte as u32)) >> 8 == crc >> 8) by (bit_vector);
}

/// The four bytes that spell a checksum, lowest byte first.
pub open spec fn le_bytes(value: u32) -> Seq<u8> {
    seq![
        (value & 0xff) as u8,
        ((value >> 8) & 0xff) as u8,
        ((value >> 16) & 0xff) as u8,
        ((value >> 24) & 0xff) as u8,
    ]
}

/// The checksum of any data with their own checksum behind them.
pub const RESIDUE: u32 = 0x2144df1cu32;

/// The register after two pieces of data is the register after the second
/// piece, begun with the register after the first.
pub proof fn lemma_update_joined(crc: u32, first: Seq<u8>, second: Seq<u8>)
    ensures
        update(crc, first + second) == update(update(crc, first), second),
    decreases second.len(),
{
    if second.len() == 0 {
        assert(first + second =~= first);
    } else {
        lemma_update_joined(crc, first, second.drop_last());
        assert((first + second).drop_last() =~= first + second.drop_last());
    }
}

proof fn lemma_update_four(crc: u32, b0: u8, b1: u8, b2: u8, b3: u8)
    ensures
        update(crc, seq![b0, b1, b2, b3]) == update_byte(
            update_byte(update_byte(update_byte(crc, b0), b1), b2),
            b3,
        ),
{
    let four = seq![b0, b1, b2, b3];
    let three = seq![b0, b1, b2];
    let two = seq![b0, b1];
    let one = seq![b0];
    assert(four.drop_last() =~= three);
    assert(three.drop_last() =~= two);
    assert(two.drop_last() =~= one);
    assert(one.drop_last() =~= Seq::<u8>::empty());
    assert(update(crc, Seq::<u8>::empty()) == crc);
    assert(update(crc, one) == update_byte(update(crc, one.drop_last()), b0));
    assert(update(crc, two) == update_byte(update(crc, one), b1));
    assert(update(crc, three) == update_byte(update(crc, two), b2));
}

/// One byte of the flipped register folded into a register that holds
/// `known` with bits of the register beneath it: the eight bits that the
/// byte meets cancel, and what is left is eight turns of a value made of
/// `known` alone, with the other bits moved down.
proof fn lemma_fold_own_byte(known: u32, low: u8, lower: u32, flipped: u32)
    requires
        low as u32 == flipped & 0xff,
        (lower ^ flipped) & 0xff == 0xff,
    ensures
        update_byte(known ^ lower, low) == (shift_rounds((known ^ 0xff) & 0xff, 8) ^ (known
            >> 8)) ^ (lower >> 8),
{
    let folded = (known ^ lower) ^ (low as u32);
    lemma_shift_eight(folded);
    lemma_shift_eight_splits(folded);
    lemma_shift_eight((known ^ 0xff) & 0xff);
    let own = flipped & 0xff;
    assert(((known ^ lower) ^ own) & 0xff == (known ^ 0xff) & 0xff) by (bit_vector)
        requires
            (lower ^ flipped) & 0xff == 0xff,
            own == flipped & 0xff,
    ;
    assert(((known ^ lower) ^ own) >> 8 == (known >> 8) ^ (lower >> 8)) by (bit_vector)
        requires
            own == flipped & 0xff,
    ;
    let turned = shift_eight((known ^ 0xff) & 0xff);
    assert(turned ^ ((known >> 8) ^ (lower >> 8)) == (turned ^ (known >> 8)) ^ (lower >> 8))
        by (bit_vector);
}

/// Data with their own checksum behind them, lowest byte first, have the
/// same checksum whatever the data are. (A PNG stream spells the checksum
/// of a chunk highest byte first, so this is a law of the checksum and not
/// of the chunks of a stream.)
pub proof fn law_residue(data: Seq<u8>)
    ensures
        checksum(data + le_bytes(checksum(data))) == RESIDUE,
{
    let crc = update(0xffffffffu32, data);
    let sum = crc ^ 0xffffffffu32;
    let own = le_bytes(sum);
    lemma_update_joined(0xffffffffu32, data, own);
    lemma_update_four(crc, own[0], own[1], own[2], own[3]);
    assert(own =~= seq![own[0], own[1], own[2], own[3]]);

    assert(sum & 0xff < 256 && (sum >> 8) & 0xff < 256 && (sum >> 16) & 0xff < 256 && (sum
        >> 24) & 0xff < 256) by (bit_vector);
    assert((crc ^ sum) & 0xff == 0xff && ((crc >> 8) ^ (sum >> 8)) & 0xff == 0xff && ((crc
        >> 16) ^ (sum >> 16)) & 0xff == 0xff && ((crc >> 24) ^ (sum >> 24)) & 0xff == 0xff)
        by (bit_vector)
        requires
            sum == crc ^ 0xffffffffu32,
    ;
    assert(0u32 ^ crc == crc && (crc >> 8) >> 8 == crc >> 16 && (crc >> 16) >> 8 == crc >> 24
        && (crc >> 24) >> 8 == 0) by (bit_vector);
    assert(shift_eight(0xff) == 0x2d02ef8d && shift_eight(0x72) == 0xbe0b1010 && shift_eight(0)
        == 0 && shift_eight(0xed) == 0xdebb9ec5) by (bit_vector);
    lemma_shift_eight(0xff);
    lemma_shift_eight(0x72);
    lemma_shift_eight(0);
    lemma_shift_eight(0xed);
    assert((0u32 ^ 0xff) & 0xff == 0xff && 0u32 >> 8 == 0 && 0x2d02ef8du32 ^ 0 == 0x2d02ef8d)
        by (bit_vector);
    assert((0x2d02ef8du32 ^ 0xff) & 0xff == 0x72 && 0xbe0b1010u32 ^ (0x2d02ef8du32 >> 8)
        == 0xbe2612ff) by (bit_vector);
    assert((0xbe2612ffu32 ^ 0xff) & 0xff == 0 && 0u32 ^ (0xbe2612ffu32 >> 8) == 0xbe2612)
        by (bit_vector);
    assert((0xbe2612u32 ^ 0xff) & 0xff == 0xed && 0xdebb9ec5u32 ^ (0xbe2612u32 >> 8)
        == 0xdebb20e3) by (bit_vector);
    assert(0xdebb20e3u32 ^ 0xffffffffu32 == 0x2144df1c) by (bit_vector);

    lemma_fold_own_byte(0, own[0], crc, sum);
    let r0 = update_byte(crc, own[0]);
    assert(r0 == 0x2d02ef8du32 ^ (crc >> 8));
    lemma_fold_own_byte(0x2d02ef8d, own[1], crc >> 8, sum >> 8);
    let r1 = update_byte(r0, own[1]);
    assert(r1 == 0xbe2612ffu32 ^ (crc >> 16));
    lemma_fold_own_byte(0xbe2612ff, own[2], crc >> 16, sum >> 16);
    let r2 = update_byte(r1, own[2]);
    assert(r2 == 0xbe2612u32 ^ (crc >> 24));
    lemma_fold_own_byte(0xbe2612, own[3], crc >> 24, sum >> 24);
    let r3 = update_byte(r2, own[3]);
    assert(r3 == 0xdebb20e3u32 ^ 0);
    assert(0xdebb20e3u32 ^ 0 == 0xdebb20e3) by (bit_vector);
}

fn shift_step(crc: u32) -> (next: u32)
    ensures
        next == shift_once(crc),
{
    assert((crc & 1) == 0 || (crc & 1) == 1) by (bit_vector);
    assert((crc >> 1) ^ 0 == crc >> 1) by (bit_vector);
    (crc >> 1) ^ ((crc & 1) * 0xedb88320u32)
}

/// The table of the register after eight turns, for each value of the lowest
/// eight bits.
pub fn make_table() -> (table: [u32; 256])
    ensures
        forall|i: int| 0 <= i < 256 ==> table[i] == shift_rounds(i as u32, 8),
{
    let mut table = [0u32; 256];

    let mut i: usize = 0;
    while i < 256
        invariant
            i <= 256,
            forall|j: int| 0 <= j < i ==> table[j] == shift_rounds(j as u32, 8),
        decreases 256 - i,
    {
        let mut crc = i as u32;
        let mut k: u8 = 0;
        while k < 8
            invariant
                k <= 8,
                crc == shift_rounds(i as u32, k as nat),
            decreases 8 - k,
        {
            crc = shift_step(crc);
            k += 1;
        }

        table[i] = crc;
        i += 1;
    }

    table
}

/// Computes the CRC32 checksum for the given data slice.
///
/// # Arguments
/// * `data` - A byte slice to compute the checksum for.
///
/// # Returns
/// * `u32` - The CRC32 checksum.
pub fn compute(data: &[u8]) -> (crc: u32)
    ensures
        crc == checksum(data@),
{
    let table = make_table();
    let mut crc = 0xffffffffu32;

    let mut i: usize = 0;
    while i < data.len()
        invariant
            i <= data@.len(),
            crc == update(0xffffffffu32, data@.take(i as int)),
            forall|j: int| 0 <= j < 256 ==> table[j] == shift_rounds(j as u32, 8),
        decreases data@.len() - i,
    {
        let byte = data[i];
        proof {
            lemma_table_step(crc, byte);
            assert(data@.take(i + 1).drop_last() =~= data@.take(i as int));
        }
        let index = ((crc ^ (byte as u32)) & 0xffu32) as usize;
        crc = table[index] ^ (crc >> 8u32);
        i += 1;
    }
    assert(data@.take(i as int) =~= data@);

    crc ^ 0xffffffffu32
}

} // verus!
