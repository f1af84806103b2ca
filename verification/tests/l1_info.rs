use facet_protocol::l1_info::{DecodeError, L1BlockInfoFacet};

#[test]
fn test_decode_calldata_facet_invalid_length() {
    let r = vec![0u8; 1];
    assert_eq!(
        L1BlockInfoFacet::decode_calldata(&r),
        Err(DecodeError::InvalidEcotoneLength(L1BlockInfoFacet::L1_INFO_TX_LEN, r.len(),))
    );
}

#[test]
fn test_l1_block_info_facet_roundtrip_calldata_encoding() {
    let info = L1BlockInfoFacet {
        number: 1,
        time: 2,
        base_fee: 3,
        block_hash: [4u8; 32],
        sequence_number: 5,
        batcher_address: [6u8; 20],
        blob_base_fee: 7,
        blob_base_fee_scalar: 8,
        base_fee_scalar: 9,
        empty_scalars: false,
        l1_fee_overhead: [0u64; 4],
        fct_mint_rate: 1000,
        fct_total_minted: 2000,
        fct_period_start_block: 100,
        fct_period_minted: 500,
        fct_max_supply: 622_222_222,
        fct_initial_target_per_period: 29_595,
    };

    let calldata = info.encode_calldata();
    assert_eq!(calldata.len(), L1BlockInfoFacet::L1_INFO_TX_LEN);

    let decoded_info = L1BlockInfoFacet::decode_calldata(&calldata).unwrap();
    assert_eq!(info, decoded_info);
}

#[test]
fn test_encoding_offsets() {
    // Test to verify the exact offsets of encoded fields
    let mut expected = vec![0u8; 292];

    // Selector
    expected[0..4].copy_from_slice(&L1BlockInfoFacet::L1_INFO_TX_SELECTOR);

    // Put a unique value for fct_mint_rate at the correct offset
    let test_rate = 0x1234567890abcdef_u128;
    expected[180..196].copy_from_slice(&test_rate.to_be_bytes());

    // Now decode and check
    let decoded = L1BlockInfoFacet::decode_calldata(&expected).unwrap();
    assert_eq!(decoded.fct_mint_rate, test_rate);
}

/// A calldata in which every byte of every field differs from its neighbours.
fn distinct_calldata() -> Vec<u8> {
    let mut r: Vec<u8> = (0u32..292).map(|i| (i * 7 % 251 + 1) as u8).collect();
    r[0..4].copy_from_slice(&[0x44, 0x0a, 0x5e, 0x20]);
    for gap in [36..60, 68..84, 132..144, 164..180, 260..276] {
        for byte in &mut r[gap] {
            *byte = 0;
        }
    }
    r
}

#[test]
fn every_field_sits_at_its_offset() {
    let r = distinct_calldata();
    let info = L1BlockInfoFacet::decode_calldata(&r).unwrap();
    let word = |at: usize| {
        let mut bytes = [0u8; 16];
        bytes.copy_from_slice(&r[at..at + 16]);
        u128::from_be_bytes(bytes)
    };
    let half = |at: usize| {
        let mut bytes = [0u8; 8];
        bytes.copy_from_slice(&r[at..at + 8]);
        u64::from_be_bytes(bytes)
    };
    let quarter = |at: usize| {
        let mut bytes = [0u8; 4];
        bytes.copy_from_slice(&r[at..at + 4]);
        u32::from_be_bytes(bytes)
    };
    assert_eq!(info.base_fee_scalar, quarter(4));
    assert_eq!(info.blob_base_fee_scalar, quarter(8));
    assert_eq!(info.sequence_number, half(12));
    assert_eq!(info.time, half(20));
    assert_eq!(info.number, half(28));
    assert_eq!(info.base_fee, half(60));
    assert_eq!(info.blob_base_fee, word(84));
    assert_eq!(info.block_hash[..], r[100..132]);
    assert_eq!(info.batcher_address[..], r[144..164]);
    assert_eq!(info.fct_mint_rate, word(180));
    assert_eq!(info.fct_period_start_block, word(196));
    assert_eq!(info.fct_total_minted, word(212));
    assert_eq!(info.fct_max_supply, word(228));
    assert_eq!(info.fct_period_minted, word(244));
    assert_eq!(info.fct_initial_target_per_period, word(276));
}

#[test]
fn canonical_calldata_is_encoded_again() {
    let r = distinct_calldata();
    let info = L1BlockInfoFacet::decode_calldata(&r).unwrap();
    assert_eq!(info.encode_calldata(), r);
}

#[test]
fn padding_and_selector_are_not_read() {
    let mut r = distinct_calldata();
    let info = L1BlockInfoFacet::decode_calldata(&r).unwrap();
    r[0] = 0;
    r[40] = 1;
    r[70] = 1;
    r[133] = 1;
    r[170] = 1;
    r[265] = 1;
    assert_eq!(L1BlockInfoFacet::decode_calldata(&r).unwrap(), info);
    assert_eq!(info.encode_calldata(), distinct_calldata());
}

#[test]
fn fields_outside_the_calldata_are_reset() {
    let info = L1BlockInfoFacet {
        empty_scalars: true,
        l1_fee_overhead: [1, 2, 3, 4],
        fct_max_supply: u128::MAX,
        ..Default::default()
    };
    let read = L1BlockInfoFacet::decode_calldata(&info.encode_calldata()).unwrap();
    assert_eq!(
        read,
        L1BlockInfoFacet { empty_scalars: false, l1_fee_overhead: [0; 4], ..info }
    );
}

#[test]
fn calldata_may_not_be_longer_either() {
    assert_eq!(
        L1BlockInfoFacet::decode_calldata(&vec![0u8; 293]),
        Err(DecodeError::InvalidEcotoneLength(292, 293))
    );
}

#[test]
fn the_largest_fields_survive() {
    let info = L1BlockInfoFacet {
        number: u64::MAX,
        time: u64::MAX,
        base_fee: u64::MAX,
        block_hash: [0xff; 32],
        sequence_number: u64::MAX,
        batcher_address: [0xff; 20],
        blob_base_fee: u128::MAX,
        blob_base_fee_scalar: u32::MAX,
        base_fee_scalar: u32::MAX,
        empty_scalars: false,
        l1_fee_overhead: [0; 4],
        fct_mint_rate: u128::MAX,
        fct_total_minted: u128::MAX,
        fct_period_start_block: u128::MAX,
        fct_period_minted: u128::MAX,
        fct_max_supply: u128::MAX,
        fct_initial_target_per_period: u128::MAX,
    };
    assert_eq!(L1BlockInfoFacet::decode_calldata(&info.encode_calldata()).unwrap(), info);
}
