use etf_vault::strategy::{InitializeArgs, StakeArgs, StrategyKind, StrategyState, UnstakeArgs};
use etf_vault::vault::Pubkey;

#[test]
fn lib_test_strategy_state_size() {
    assert_eq!(StrategyState::SIZE, 32 + 1 + 32 + 32 + 8 + 8 + 8 + 1 + 1);
}

#[test]
fn lib_test_strategy_kind_values() {
    assert_eq!(StrategyKind::Marinade.code(), 0);
    assert_eq!(StrategyKind::Lido.code(), 1);
    assert_eq!(StrategyKind::Mock.code(), 255);
}

#[test]
fn tests_test_strategy_state_size() {
    assert_eq!(StrategyState::SIZE, 32 + 1 + 32 + 32 + 8 + 8 + 8 + 1 + 1);
}

#[test]
fn tests_test_strategy_kind_values() {
    assert_eq!(StrategyKind::Marinade.code(), 0);
    assert_eq!(StrategyKind::Lido.code(), 1);
    assert_eq!(StrategyKind::Mock.code(), 255);
}

#[test]
fn test_strategy_kind_serialization() {
    let marinade = StrategyKind::Marinade;
    let lido = StrategyKind::Lido;
    let mock = StrategyKind::Mock;

    assert_eq!(marinade.code(), 0);
    assert_eq!(lido.code(), 1);
    assert_eq!(mock.code(), 255);
}

#[test]
fn strategy_kind_from_code_round_trip() {
    assert_eq!(StrategyKind::from_code(0), Some(StrategyKind::Marinade));
    assert_eq!(StrategyKind::from_code(1), Some(StrategyKind::Lido));
    assert_eq!(StrategyKind::from_code(255), Some(StrategyKind::Mock));
    assert_eq!(StrategyKind::from_code(2), None);
}

#[test]
fn test_initialize_args_serialization() {
    let args = InitializeArgs {
        kind: 255,
        protocol_program: Pubkey::default(),
        position_mint: Pubkey::default(),
    };

    let serialized = args.try_to_vec();
    let deserialized = InitializeArgs::try_from_slice(&serialized).unwrap();

    assert_eq!(args.kind, deserialized.kind);
    assert_eq!(args.protocol_program, deserialized.protocol_program);
    assert_eq!(args.position_mint, deserialized.position_mint);
}

#[test]
fn test_stake_args_serialization() {
    let args = StakeArgs { amount: 1000000 };
    let serialized = args.try_to_vec();
    let deserialized = StakeArgs::try_from_slice(&serialized).unwrap();

    assert_eq!(args.amount, deserialized.amount);
}

#[test]
fn test_unstake_args_serialization() {
    let args = UnstakeArgs { amount: 500000 };
    let serialized = args.try_to_vec();
    let deserialized = UnstakeArgs::try_from_slice(&serialized).unwrap();

    assert_eq!(args.amount, deserialized.amount);
}

#[test]
fn args_wire_layout() {
    assert_eq!(StakeArgs { amount: 0x0102 }.try_to_vec(), vec![2, 1, 0, 0, 0, 0, 0, 0]);
    assert!(StakeArgs::try_from_slice(&[1, 2, 3]).is_none());
    let args = InitializeArgs {
        kind: 7,
        protocol_program: Pubkey::new([1u8; 32]),
        position_mint: Pubkey::new([2u8; 32]),
    };
    let bytes = args.try_to_vec();
    assert_eq!(bytes.len(), 65);
    assert_eq!(bytes[0], 7);
    assert_eq!(bytes[1], 1);
    assert_eq!(bytes[64], 2);
    let back = InitializeArgs::try_from_slice(&bytes).unwrap();
    assert_eq!(back.position_mint, Pubkey::new([2u8; 32]));
    assert!(InitializeArgs::try_from_slice(&bytes[1..]).is_none());
}
