use base_core::abi::{decode_error, error_decoder_registry, into_precompile_result, PrecompileOutcome};
use base_core::error::{B20Error, B403RegistryError, BasePrecompileError, BaseDexError, PanicKind};
use base_core::primitives::Address;
use base_core::word::U256;

fn revert_data(e: BasePrecompileError) -> Vec<u8> {
    match into_precompile_result(e, 0, 0) {
        PrecompileOutcome::Revert(_, bytes) => bytes,
        other => panic!("expected a revert, got {other:?}"),
    }
}

#[test]
fn decodes_b20_and_b403_errors_from_their_revert_data() {
    for e in [
        BasePrecompileError::B20(B20Error::ContractPaused),
        BasePrecompileError::B20(B20Error::NoOptedInSupply),
        BasePrecompileError::B403RegistryError(B403RegistryError::PolicyNotFound),
    ] {
        let data = revert_data(e.clone());
        let decoded = decode_error(&data).expect("registered error");
        assert_eq!(decoded.error, e);
        assert_eq!(decoded.revert_bytes, &data[..]);
    }
}

#[test]
fn shared_unauthorized_selector_decodes_as_the_last_registered_error() {
    let data = revert_data(BasePrecompileError::B20(B20Error::Unauthorized));
    assert_eq!(
        decode_error(&data).unwrap().error,
        BasePrecompileError::B403RegistryError(B403RegistryError::Unauthorized)
    );
}

#[test]
fn decodes_insufficient_balance_with_its_arguments() {
    let e = BasePrecompileError::B20(B20Error::InsufficientBalance {
        available: U256::from_u64(5),
        required: U256::from_u64(9),
        token: Address::with_last_byte(7),
    });
    let data = revert_data(e.clone());
    assert_eq!(data.len(), 100);
    assert_eq!(decode_error(&data).unwrap().error, e);
    assert!(decode_error(&data[..99]).is_none());
}

#[test]
fn rejects_short_and_unregistered_revert_data() {
    assert!(decode_error(&[]).is_none());
    assert!(decode_error(&[0x4e, 0x48, 0x7b]).is_none());
    assert!(decode_error(&revert_data(BasePrecompileError::Panic(PanicKind::UnderOverflow))).is_none());
    let dex = revert_data(BasePrecompileError::BaseDex(BaseDexError::InsufficientLiquidity));
    assert!(decode_error(&dex).is_none());
}

#[test]
fn registry_lists_every_registered_error_once_per_interface() {
    let registry = error_decoder_registry();
    assert_eq!(registry.len(), 27);
    assert_eq!(registry[0].selector, base_core::abi::selector("InsufficientBalance(uint256,uint256,address)"));
}

#[test]
fn a_reverting_error_reports_the_gas_it_is_given() {
    let r = into_precompile_result(BasePrecompileError::B20(B20Error::ContractPaused), 2_100, 7);
    assert!(matches!(r, PrecompileOutcome::Revert(2_100, ref bytes) if bytes.len() == 4));
    assert_eq!(into_precompile_result(BasePrecompileError::OutOfGas, 2_100, 0), PrecompileOutcome::OutOfGas);
    assert_eq!(
        into_precompile_result(BasePrecompileError::Fatal("boom".to_string()), 2_100, 0),
        PrecompileOutcome::Fatal("boom".to_string())
    );
}
