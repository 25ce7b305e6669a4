use spektra::rds::{
    checkword, decode, differential_decode, encode, find_sync, information, validates, Decode,
    Offset, BLOCK_BITS, CHECK_MASK, GROUP_BLOCKS, SYNC_GROUPS,
};

struct Random(u64);

impl Random {
    fn next(&mut self) -> u64 {
        self.0 ^= self.0 << 13;
        self.0 ^= self.0 >> 7;
        self.0 ^= self.0 << 17;

        self.0
    }

    fn next_u16(&mut self) -> u16 {
        u16::try_from(self.next() & 0xFFFF).unwrap_or(0)
    }
}

fn push_block(bits: &mut Vec<bool>, block: u32) {
    for position in (0..BLOCK_BITS).rev() {
        let shift = u32::try_from(position).unwrap_or(0);
        bits.push(block & 1_u32.wrapping_shl(shift) != 0);
    }
}

fn stream(groups: usize, lead: usize) -> Vec<bool> {
    let mut random = Random(0x2545_F491_4F6C_DD1D);
    let mut bits: Vec<bool> = (0..lead).map(|_| random.next() & 1 == 1).collect();

    for _ in 0..groups {
        for position in 0..GROUP_BLOCKS {
            let offset = Offset::at_position(position)
                .first()
                .copied()
                .unwrap_or(Offset::A);

            push_block(&mut bits, encode(random.next_u16(), offset));
        }
    }

    bits
}

fn error_rate(decode: &Decode) -> Option<f64> {
    decode
        .error_fraction()
        .map(|(bad, total)| bad as f64 / total as f64)
}

#[test]
fn a_checkword_is_ten_bits() {
    let mut random = Random(7);

    for _ in 0..1000 {
        assert!(checkword(random.next_u16()) <= CHECK_MASK);
    }
}

#[test]
fn the_crc_is_linear_over_the_generator() {
    assert_eq!(checkword(0), 0);
}

#[test]
fn an_encoded_block_validates_against_its_own_offset() {
    let mut random = Random(11);

    for _ in 0..1_000 {
        let info = random.next_u16();
        for offset in Offset::all() {
            assert!(validates(encode(info, offset), offset));
            assert_eq!(information(encode(info, offset)), info);
        }
    }
}

#[test]
fn a_block_does_not_validate_against_a_foreign_offset() {
    let block = encode(0xBEEF, Offset::A);

    assert!(validates(block, Offset::A));
    assert!(!validates(block, Offset::B));
    assert!(!validates(block, Offset::D));
}

#[test]
fn a_single_bit_error_fails_the_checkword() {
    let mut random = Random(13);

    for _ in 0..200 {
        let block = encode(random.next_u16(), Offset::B);

        for bit in 0..BLOCK_BITS {
            let shift = u32::try_from(bit).unwrap_or(0);
            let corrupted = block ^ 1_u32.wrapping_shl(shift);

            assert!(
                !validates(corrupted, Offset::B),
                "a flip at bit {bit} went undetected"
            );
        }
    }
}

#[test]
fn differential_decoding_is_immune_to_inversion() {
    let mut random = Random(17);
    let data: Vec<bool> = (0..256).map(|_| random.next() & 1 == 1).collect();

    let mut previous = false;
    let transmitted: Vec<bool> = data
        .iter()
        .map(|&bit| {
            previous = bit != previous;

            previous
        })
        .collect();
    let inverted: Vec<bool> = transmitted.iter().map(|bit| !bit).collect();

    assert_eq!(differential_decode(&transmitted), data);
    assert_eq!(
        differential_decode(&inverted).get(1..),
        data.get(1..),
        "an inverted subcarrier must decode to the same data after the first bit"
    );
}

#[test]
fn a_clean_stream_synchronises_wherever_it_starts() {
    let leads: [usize; 6] = [0, 1, 7, 25, 26, 63];
    for lead in leads {
        let bits = stream(8, lead);

        assert_eq!(
            find_sync(&bits),
            Some(lead),
            "a stream led by {lead} junk bits did not synchronise there"
        );
    }
}

#[test]
fn a_clean_stream_decodes_without_errors() {
    let decode = decode(&stream(16, 5)).expect("the stream synchronises");

    assert_eq!(decode.bad, 0);
    assert_eq!(decode.good, 64);
    assert_eq!(error_rate(&decode), Some(0.0));
}

#[test]
fn corrupted_blocks_show_up_in_the_error_rate() {
    let mut bits = stream(16, 0);

    let corrupted = 16 - SYNC_GROUPS;
    for group in SYNC_GROUPS..16 {
        let position = group * GROUP_BLOCKS * BLOCK_BITS + 3 * BLOCK_BITS + 4;
        if let Some(bit) = bits.get_mut(position) {
            *bit = !*bit;
        }
    }

    let decode = decode(&bits).expect("the stream synchronises on the clean groups");

    assert_eq!(decode.total(), 64);
    assert_eq!(decode.bad, u64::try_from(corrupted).unwrap_or(0));
    let expected = corrupted as f64 / 64.0;
    assert!((error_rate(&decode).unwrap_or_default() - expected).abs() < 1e-9);
}

#[test]
fn noise_never_synchronises() {
    let mut random = Random(0x1234_5678_9ABC_DEF0);
    let noise: Vec<bool> = (0..4096).map(|_| random.next() & 1 == 1).collect();

    assert_eq!(find_sync(&noise), None);
    assert_eq!(decode(&noise), None);
}

#[test]
fn an_empty_decode_has_no_error_rate() {
    assert_eq!(error_rate(&Decode::default()), None);
    assert_eq!(decode(&[]), None);
}

#[test]
fn every_offset_is_identified_from_its_own_block() {
    for offset in Offset::all() {
        assert_eq!(spektra::rds::identify(encode(0x1234, offset)), Some(offset));
    }
}

#[test]
fn a_block_is_read_most_significant_bit_first() {
    let mut bits = Vec::new();
    push_block(&mut bits, 0x2AA_AAAA);
    assert_eq!(spektra::rds::read_block(&bits, 0), Some(0x2AA_AAAA));
    assert_eq!(spektra::rds::read_block(&bits, 1), None);
}

#[test]
fn each_position_has_its_offsets_in_scan_order() {
    assert_eq!(Offset::at_position(0), vec![Offset::A]);
    assert_eq!(Offset::at_position(1), vec![Offset::B]);
    assert_eq!(Offset::at_position(2), vec![Offset::C, Offset::CPrime]);
    assert_eq!(Offset::at_position(3), vec![Offset::D]);
    assert_eq!(Offset::at_position(6), Offset::at_position(2));
    assert_eq!(Offset::at_position(usize::MAX), vec![Offset::D]);
}
