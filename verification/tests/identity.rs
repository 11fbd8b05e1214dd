use ecc_circuit::identity::{
    Call, ConstantDivisionGadget, ExecStep, IdentityGadget, RestoreContextGadget,
};

fn identity_address() -> [u8; 20] {
    let mut address = [0u8; 20];
    address[19] = 4;
    address
}

fn call(call_data_offset: u64, call_data_length: u64, ret_offset: u64, ret_size: u64) -> Call {
    Call {
        is_success: true,
        code_address: Some(identity_address()),
        caller_id: 1,
        call_data_offset,
        call_data_length,
        return_data_offset: ret_offset,
        return_data_length: ret_size,
    }
}

fn gas(length: u64) -> u64 {
    15 + ((length + 31) / 32) * 3
}

#[test]
fn precompile_identity_test() {
    // single-byte success; multi-bytes success (less than 32 bytes);
    // multi-bytes success (more than 32 bytes)
    let test_vector = [
        call(0x1f, 0x01, 0x3f, 0x01),
        call(0x00, 0x10, 0x20, 0x10),
        call(0x00, 0x3f, 0x48, 0x23),
    ];
    // CALL, STATICCALL, DELEGATECALL, CALLCODE
    let caller_ids = [1u64, 2, 3, 4];
    for call in test_vector.iter() {
        for caller_id in caller_ids.iter() {
            let call = Call {
                caller_id: *caller_id,
                ..*call
            };
            let step = ExecStep {
                gas_cost: gas(call.call_data_length),
            };
            let mut gadget = IdentityGadget::configure();
            gadget.assign_exec_step(&call, &step);
            assert!(gadget.constraints_hold());
        }
    }
}

#[test]
fn identity_gas_is_fifteen_plus_three_per_word() {
    for (length, cost, words) in [
        (0u64, 15u64, 0u64),
        (1, 18, 1),
        (0x10, 18, 1),
        (32, 18, 1),
        (33, 21, 2),
        (0x3f, 21, 2),
        (64, 21, 2),
        (65, 24, 3),
    ] {
        let call = call(0, length, 0, 0);
        let mut gadget = IdentityGadget::configure();
        gadget.assign_exec_step(&call, &ExecStep { gas_cost: cost });
        assert_eq!(gadget.gas_cost, cost);
        assert_eq!(gadget.input_word_size.quotient, words);
        assert_eq!(gadget.input_word_size.numerator, length + 31);
        assert_eq!(gadget.input_word_size.remainder, (length + 31) % 32);
        assert!(gadget.constraints_hold());
    }
}

#[test]
fn identity_cells_take_the_fields_of_the_call() {
    let c = Call {
        is_success: false,
        code_address: Some(identity_address()),
        caller_id: 7,
        call_data_offset: 0x1f,
        call_data_length: 0x01,
        return_data_offset: 0x3f,
        return_data_length: 0x02,
    };
    let mut gadget = IdentityGadget::configure();
    gadget.assign_exec_step(&c, &ExecStep { gas_cost: 18 });
    assert_eq!(
        gadget,
        IdentityGadget {
            gas_cost: 18,
            input_word_size: ConstantDivisionGadget {
                numerator: 32,
                quotient: 1,
                remainder: 0
            },
            is_success: false,
            callee_address: identity_address(),
            caller_id: 7,
            call_data_offset: 0x1f,
            call_data_length: 0x01,
            return_data_offset: 0x3f,
            return_data_length: 0x02,
            restore_context: RestoreContextGadget {
                is_success: false,
                gas_cost: 18,
                return_data_offset: 0,
                return_data_length: 1,
                rw_offset: 7,
            },
        }
    );
    assert!(gadget.constraints_hold());
}

#[test]
fn identity_constraints_fail_on_a_wrong_gas_charge() {
    let mut gadget = IdentityGadget::configure();
    gadget.assign_exec_step(&call(0, 33, 0, 0), &ExecStep { gas_cost: 18 });
    assert_eq!(gadget.gas_cost, 21);
    assert!(!gadget.constraints_hold());
}

#[test]
fn identity_constraints_fail_on_a_word_count_over_four_bytes() {
    let length = 32 * 0x1_0000_0000u64;
    let mut gadget = IdentityGadget::configure();
    gadget.assign_exec_step(
        &call(0, length, 0, 0),
        &ExecStep {
            gas_cost: gas(length),
        },
    );
    assert_eq!(gadget.input_word_size.quotient, 0x1_0000_0000);
    assert!(!gadget.constraints_hold());
    let length = length - 32;
    gadget.assign_exec_step(
        &call(0, length, 0, 0),
        &ExecStep {
            gas_cost: gas(length),
        },
    );
    assert!(gadget.constraints_hold());
}

#[test]
fn a_fresh_identity_gadget_is_all_zero_and_unsatisfied() {
    let gadget = IdentityGadget::configure();
    assert_eq!(gadget.gas_cost, 0);
    assert_eq!(gadget.callee_address, [0u8; 20]);
    assert_eq!(gadget.restore_context.rw_offset, 7);
    assert!(!gadget.constraints_hold());
    let mut tampered = gadget;
    tampered.assign_exec_step(&call(0, 1, 0, 0), &ExecStep { gas_cost: 18 });
    assert!(tampered.constraints_hold());
    tampered.restore_context.return_data_offset = 1;
    assert!(!tampered.constraints_hold());
    tampered.restore_context.return_data_offset = 0;
    tampered.input_word_size.remainder = 32;
    assert!(!tampered.constraints_hold());
}
