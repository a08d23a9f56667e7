use vaa_governance::{
    decode_named, decode_sequential, encode_named, encode_sequential, Action, Address, Amount,
    Chain, DecodeError, FieldName, GovernancePacket, GuardianAddress, GuardianSetInfo,
    NamedDecoder, NamedField, PayloadField, MODULE,
};

fn amount(n: u64) -> Amount {
    let mut b = [0u8; 32];
    b[24..].copy_from_slice(&n.to_be_bytes());
    Amount(b)
}

fn address(fill: u8) -> Address {
    Address([fill; 32])
}

fn guardian_set(n: usize) -> GuardianSetInfo {
    GuardianSetInfo {
        addresses: (0..n).map(|i| GuardianAddress([i as u8; 20])).collect(),
    }
}

fn sample_packets() -> Vec<GovernancePacket> {
    vec![
        GovernancePacket {
            chain: Chain::Ethereum,
            action: Action::ContractUpgrade { new_contract: address(7) },
        },
        GovernancePacket {
            chain: Chain::Unset,
            action: Action::GuardianSetUpgrade {
                new_guardian_set_index: 0xdead_beef,
                new_guardian_set: guardian_set(3),
            },
        },
        GovernancePacket {
            chain: Chain::Wormchain,
            action: Action::GuardianSetUpgrade {
                new_guardian_set_index: 0,
                new_guardian_set: guardian_set(0),
            },
        },
        GovernancePacket { chain: Chain::Solana, action: Action::SetFee { amount: amount(1000) } },
        GovernancePacket {
            chain: Chain::Unknown(27),
            action: Action::TransferFee { amount: amount(u64::MAX), recipient: address(0xab) },
        },
    ]
}

fn set_fee_record(n: u64) -> Vec<PayloadField> {
    vec![PayloadField::Amount(amount(n))]
}

#[test]
fn sequential_round_trip_each_action() {
    for p in sample_packets() {
        let bytes = encode_sequential(&p).unwrap();
        assert_eq!(&bytes[..32], &MODULE[..]);
        assert_eq!(decode_sequential(&bytes), Ok((p.clone(), bytes.len())));
    }
}

#[test]
fn sequential_layout_of_transfer_fee() {
    let p = GovernancePacket {
        chain: Chain::Near,
        action: Action::TransferFee { amount: amount(5), recipient: address(9) },
    };
    let bytes = encode_sequential(&p).unwrap();
    assert_eq!(bytes.len(), 32 + 1 + 2 + 64);
    assert_eq!(bytes[32], 4);
    assert_eq!(&bytes[33..35], &[0x00, 0x0f]);
    assert_eq!(bytes[35 + 31], 5);
    assert!(bytes[35 + 32..].iter().all(|b| *b == 9));
}

#[test]
fn sequential_decode_leaves_trailing_bytes() {
    let p = &sample_packets()[3];
    let mut bytes = encode_sequential(p).unwrap();
    let used = bytes.len();
    bytes.extend_from_slice(&[1, 2, 3]);
    assert_eq!(decode_sequential(&bytes), Ok((p.clone(), used)));
}

#[test]
fn guardian_set_of_255_fits_and_256_does_not() {
    let fits = GovernancePacket {
        chain: Chain::Solana,
        action: Action::GuardianSetUpgrade {
            new_guardian_set_index: 2,
            new_guardian_set: guardian_set(255),
        },
    };
    let bytes = encode_sequential(&fits).unwrap();
    assert_eq!(bytes[39], 255);
    assert_eq!(bytes.len(), 40 + 20 * 255);
    assert_eq!(decode_sequential(&bytes), Ok((fits, bytes.len())));

    let too_many = GovernancePacket {
        chain: Chain::Solana,
        action: Action::GuardianSetUpgrade {
            new_guardian_set_index: 2,
            new_guardian_set: guardian_set(256),
        },
    };
    assert_eq!(encode_sequential(&too_many), None);
}

#[test]
fn foreign_module_is_refused() {
    let mut bytes = encode_sequential(&sample_packets()[0]).unwrap();
    bytes[28] = b'T';
    assert_eq!(decode_sequential(&bytes), Err(DecodeError::ModuleMismatch));
    let mut short = bytes[..32].to_vec();
    short[0] = 1;
    assert_eq!(decode_sequential(&short), Err(DecodeError::ModuleMismatch));
}

#[test]
fn discriminant_five_is_refused() {
    let mut bytes = encode_sequential(&sample_packets()[4]).unwrap();
    bytes[32] = 5;
    assert_eq!(decode_sequential(&bytes), Err(DecodeError::UnknownActionTag(5)));
    bytes[32] = 0;
    assert_eq!(decode_sequential(&bytes), Err(DecodeError::UnknownActionTag(0)));
}

#[test]
fn truncation_names_the_missing_element() {
    let bytes = encode_sequential(&sample_packets()[1]).unwrap();
    assert_eq!(decode_sequential(&bytes[..0]), Err(DecodeError::Truncated(0)));
    assert_eq!(decode_sequential(&bytes[..31]), Err(DecodeError::Truncated(0)));
    assert_eq!(decode_sequential(&bytes[..32]), Err(DecodeError::Truncated(1)));
    assert_eq!(decode_sequential(&bytes[..34]), Err(DecodeError::Truncated(2)));
    assert_eq!(decode_sequential(&bytes[..35]), Err(DecodeError::Truncated(3)));
    assert_eq!(decode_sequential(&bytes[..bytes.len() - 1]), Err(DecodeError::Truncated(3)));
}

#[test]
fn named_round_trip_each_action() {
    for p in sample_packets() {
        let fields = encode_named(&p);
        assert_eq!(fields[0], NamedField::Module(MODULE));
        assert_eq!(fields[1], NamedField::Action(p.action.tag()));
        assert_eq!(fields[2], NamedField::Chain(p.chain));
        assert_eq!(decode_named(&fields), Ok(p));
    }
}

#[test]
fn named_chain_before_action_decodes_the_same() {
    let chain_first = vec![
        NamedField::Chain(Chain::Solana),
        NamedField::Action(3),
        NamedField::Payload(set_fee_record(42)),
    ];
    let action_first = vec![
        NamedField::Action(3),
        NamedField::Chain(Chain::Solana),
        NamedField::Payload(set_fee_record(42)),
    ];
    let expected =
        GovernancePacket { chain: Chain::Solana, action: Action::SetFee { amount: amount(42) } };
    assert_eq!(decode_named(&chain_first), Ok(expected.clone()));
    assert_eq!(decode_named(&action_first), Ok(expected));
}

#[test]
fn named_payload_before_action_is_refused() {
    let fields = vec![
        NamedField::Chain(Chain::Solana),
        NamedField::Payload(set_fee_record(1)),
        NamedField::Action(3),
    ];
    assert_eq!(decode_named(&fields), Err(DecodeError::OutOfOrderPayload));
}

#[test]
fn named_duplicates_are_refused() {
    let twice_action = vec![
        NamedField::Action(3),
        NamedField::Chain(Chain::Solana),
        NamedField::Action(3),
        NamedField::Payload(set_fee_record(1)),
    ];
    assert_eq!(
        decode_named(&twice_action),
        Err(DecodeError::DuplicateField(FieldName::Action))
    );
    let twice_chain = vec![NamedField::Chain(Chain::Solana), NamedField::Chain(Chain::Sui)];
    assert_eq!(decode_named(&twice_chain), Err(DecodeError::DuplicateField(FieldName::Chain)));
    let twice_module = vec![NamedField::Module(MODULE), NamedField::Module(MODULE)];
    assert_eq!(
        decode_named(&twice_module),
        Err(DecodeError::DuplicateField(FieldName::Module))
    );
    let twice_payload = vec![
        NamedField::Action(3),
        NamedField::Payload(set_fee_record(1)),
        NamedField::Payload(set_fee_record(1)),
    ];
    assert_eq!(
        decode_named(&twice_payload),
        Err(DecodeError::DuplicateField(FieldName::Payload))
    );
}

#[test]
fn named_without_module_succeeds() {
    let fields = vec![
        NamedField::Chain(Chain::Solana),
        NamedField::Action(3),
        NamedField::Payload(set_fee_record(1000)),
    ];
    assert_eq!(
        decode_named(&fields),
        Ok(GovernancePacket { chain: Chain::Solana, action: Action::SetFee { amount: amount(1000) } })
    );
}

#[test]
fn named_foreign_module_is_refused() {
    let mut other = MODULE;
    other[28] = b'T';
    let fields = vec![NamedField::Module(other), NamedField::Chain(Chain::Solana)];
    assert_eq!(decode_named(&fields), Err(DecodeError::ModuleMismatch));
}

#[test]
fn named_missing_fields() {
    let no_chain = vec![NamedField::Action(3), NamedField::Payload(set_fee_record(1))];
    assert_eq!(decode_named(&no_chain), Err(DecodeError::MissingField(FieldName::Chain)));
    let no_payload = vec![NamedField::Action(3), NamedField::Chain(Chain::Solana)];
    assert_eq!(decode_named(&no_payload), Err(DecodeError::MissingField(FieldName::Payload)));
    assert_eq!(decode_named(&vec![]), Err(DecodeError::MissingField(FieldName::Chain)));
}

#[test]
fn named_unknown_action_in_payload() {
    let fields = vec![
        NamedField::Action(9),
        NamedField::Chain(Chain::Solana),
        NamedField::Payload(set_fee_record(1)),
    ];
    assert_eq!(decode_named(&fields), Err(DecodeError::UnknownActionTag(9)));
}

#[test]
fn payload_record_shape() {
    let with_extra = vec![
        NamedField::Action(3),
        NamedField::Chain(Chain::Solana),
        NamedField::Payload(vec![
            PayloadField::Recipient(address(1)),
            PayloadField::Amount(amount(8)),
            PayloadField::Recipient(address(2)),
        ]),
    ];
    assert_eq!(
        decode_named(&with_extra),
        Ok(GovernancePacket { chain: Chain::Solana, action: Action::SetFee { amount: amount(8) } })
    );
    let missing_recipient = vec![
        NamedField::Action(4),
        NamedField::Chain(Chain::Solana),
        NamedField::Payload(vec![PayloadField::Amount(amount(8))]),
    ];
    assert_eq!(
        decode_named(&missing_recipient),
        Err(DecodeError::MissingField(FieldName::Recipient))
    );
    let twice_index = vec![
        NamedField::Action(2),
        NamedField::Payload(vec![
            PayloadField::NewGuardianSetIndex(1),
            PayloadField::NewGuardianSetIndex(2),
        ]),
    ];
    assert_eq!(
        decode_named(&twice_index),
        Err(DecodeError::DuplicateField(FieldName::NewGuardianSetIndex))
    );
    let reversed = vec![
        NamedField::Chain(Chain::Btc),
        NamedField::Action(2),
        NamedField::Payload(vec![
            PayloadField::NewGuardianSet(guardian_set(2)),
            PayloadField::NewGuardianSetIndex(6),
        ]),
    ];
    assert_eq!(
        decode_named(&reversed),
        Ok(GovernancePacket {
            chain: Chain::Btc,
            action: Action::GuardianSetUpgrade {
                new_guardian_set_index: 6,
                new_guardian_set: guardian_set(2),
            },
        })
    );
}

#[test]
fn decoder_fed_field_by_field() {
    let d = NamedDecoder::new();
    let d = d.step(&NamedField::Action(1)).unwrap();
    let d = d.step(&NamedField::Payload(vec![PayloadField::NewContract(address(3))])).unwrap();
    let d = d.step(&NamedField::Chain(Chain::Sei)).unwrap();
    assert_eq!(
        d.finish(),
        Ok(GovernancePacket {
            chain: Chain::Sei,
            action: Action::ContractUpgrade { new_contract: address(3) },
        })
    );
    let early = NamedDecoder::new();
    assert!(matches!(
        early.step(&NamedField::Payload(vec![])),
        Err(DecodeError::OutOfOrderPayload)
    ));
}

#[test]
fn chain_codes() {
    assert_eq!(Chain::from_code(10), Chain::Fantom);
    assert_eq!(Chain::from_code(22), Chain::Aptos);
    assert_eq!(Chain::from_code(3104), Chain::Wormchain);
    assert_eq!(Chain::from_code(27), Chain::Unknown(27));
    assert_eq!(Chain::Solana.to_code(), 1);
    assert_eq!(Chain::Unknown(27).to_code(), 27);
    for n in [0u16, 1, 26, 27, 32, 3104, 65535] {
        assert_eq!(Chain::from_code(n).to_code(), n);
    }
}

#[test]
fn error_messages() {
    assert_eq!(DecodeError::ModuleMismatch.message(), "invalid governance module, expected \"Core\"");
    assert_eq!(
        DecodeError::OutOfOrderPayload.message(),
        "`action` must be known before deserializing `payload`"
    );
    assert_eq!(FieldName::Payload.as_str(), "payload");
}

#[test]
fn actions_order_by_discriminant_first() {
    let upgrade = Action::ContractUpgrade { new_contract: address(0xff) };
    let fee = Action::SetFee { amount: amount(0) };
    let transfer = Action::TransferFee { amount: amount(0), recipient: address(0) };
    assert!(upgrade < fee);
    assert!(fee < transfer);
    assert!(Action::SetFee { amount: amount(1) } < Action::SetFee { amount: amount(2) });
}

#[test]
fn module_tag_is_core_right_justified() {
    assert!(MODULE[..28].iter().all(|b| *b == 0));
    assert_eq!(&MODULE[28..], b"Core");
}
