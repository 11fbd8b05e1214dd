//! The execution gadget of the identity precompile, which hands its input
//! back as its output and charges gas by the 32-byte word.
//!
//! The gadget is held as the values of its cells. `configure` lays the cells
//! out, `assign_exec_step` fills them from a call, and `constraints_hold`
//! is the conjunction of the gates that tie them together.

use vstd::prelude::*;

verus! {

/// Number of bytes in one word of the virtual machine.
pub const N_BYTES_WORD: u64 = 32;

/// Number of bytes that bound a memory size counted in words.
pub const N_BYTES_MEMORY_WORD_SIZE: u64 = 4;

/// Gas charged for any call of the identity precompile.
pub const PRECOMPILE_IDENTITY_BASE: u64 = 15;

/// Gas charged for each word of input, begun words included.
pub const PRECOMPILE_IDENTITY_PER_WORD: u64 = 3;

/// Number of call-context fields that the gadget looks up.
pub const N_CALL_CONTEXT_LOOKUPS: u64 = 7;

/// The number of words that `length` bytes take up.
pub open spec fn word_size(length: nat) -> nat {
    (length + 31) / 32
}

/// The gas that a call with `length` bytes of input costs.
pub open spec fn identity_gas_cost(length: nat) -> nat {
    15 + word_size(length) * 3
}

/// What the gadget reads of a call.
#[derive(Clone, Copy, Debug, PartialEq, Eq)]
pub struct Call {
    /// Whether the call succeeded.
    pub is_success: bool,
    /// The address whose code runs, if the call has one.
    pub code_address: Option<[u8; 20]>,
    /// The identifier of the calling frame.
    pub caller_id: u64,
    /// Where the input starts in the caller's memory.
    pub call_data_offset: u64,
    /// Number of input bytes.
    pub call_data_length: u64,
    /// Where the output goes in the caller's memory.
    pub return_data_offset: u64,
    /// Number of output bytes that the caller takes.
    pub return_data_length: u64,
}

/// What the gadget reads of an execution step.
#[derive(Clone, Copy, Debug, PartialEq, Eq)]
pub struct ExecStep {
    /// The gas that the step was charged.
    pub gas_cost: u64,
}

/// Cells of a division by a constant: `numerator == quotient * DENOMINATOR +
/// remainder`.
#[derive(Clone, Copy, Debug, PartialEq, Eq)]
pub struct ConstantDivisionGadget {
    /// The dividend.
    pub numerator: u64,
    /// The quotient.
    pub quotient: u64,
    /// The remainder.
    pub remainder: u64,
}

/// Cells handed to the gadget that restores the caller's context.
#[derive(Clone, Copy, Debug, PartialEq, Eq)]
pub struct RestoreContextGadget {
    /// Whether the call succeeded.
    pub is_success: bool,
    /// The gas that the call used.
    pub gas_cost: u64,
    /// Where the returned data starts in the callee's memory.
    pub return_data_offset: u64,
    /// Number of bytes returned.
    pub return_data_length: u64,
    /// Number of lookups that precede the restoring ones.
    pub rw_offset: u64,
}

/// The cells of the identity precompile's gadget.
#[derive(Clone, Copy, Debug, PartialEq, Eq)]
pub struct IdentityGadget {
    /// The gas charged.
    pub gas_cost: u64,
    /// The input's size in words, as a division of `length + 31` by 32.
    pub input_word_size: ConstantDivisionGadget,
    /// Whether the call succeeded.
    pub is_success: bool,
    /// The precompile's address.
    pub callee_address: [u8; 20],
    /// The identifier of the calling frame.
    pub caller_id: u64,
    /// Where the input starts in the caller's memory.
    pub call_data_offset: u64,
    /// Number of input bytes.
    pub call_data_length: u64,
    /// Where the output goes in the caller's memory.
    pub return_data_offset: u64,
    /// Number of output bytes that the caller takes.
    pub return_data_length: u64,
    /// The cells of the context restoration.
    pub restore_context: RestoreContextGadget,
}

impl IdentityGadget {
    /// The gates of the gadget, as a predicate on its cells:
    /// the division gadget splits `call_data_length + 31` by 32 with a
    /// quotient of at most `N_BYTES_MEMORY_WORD_SIZE` bytes, the gas is the
    /// base cost plus the per-word cost times that quotient, and the context
    /// is restored with the gadget's own success flag and gas, returning the
    /// whole input from offset zero.
    pub open spec fn constraints(self) -> bool {
        &&& self.input_word_size.numerator == self.call_data_length + 31
        &&& self.input_word_size.numerator == self.input_word_size.quotient * 32
            + self.input_word_size.remainder
        &&& self.input_word_size.remainder < 32
        &&& self.input_word_size.quotient < 0x1_0000_0000
        &&& self.gas_cost == 15 + self.input_word_size.quotient * 3
        &&& self.restore_context.is_success == self.is_success
        &&& self.restore_context.gas_cost == self.gas_cost
        &&& self.restore_context.return_data_offset == 0
        &&& self.restore_context.return_data_length == self.call_data_length
    }

    /// Lays out the gadget with every cell at zero.
    pub fn configure() -> (g: IdentityGadget)
        ensures
            g.gas_cost == 0,
            g.input_word_size == (ConstantDivisionGadget { numerator: 0, quotient: 0, remainder: 0 }),
            !g.is_success,
            g.callee_address@ == Seq::new(20, |i: int| 0u8),
            g.caller_id == 0,
            g.call_data_offset == 0,
            g.call_data_length == 0,
            g.return_data_offset == 0,
            g.return_data_length == 0,
            g.restore_context == (RestoreContextGadget {
                is_success: false,
                gas_cost: 0,
                return_data_offset: 0,
                return_data_length: 0,
                rw_offset: N_CALL_CONTEXT_LOOKUPS,
            }),
            !g.constraints(),
    {
        let g = IdentityGadget {
            gas_cost: 0,
            input_word_size: ConstantDivisionGadget { numerator: 0, quotient: 0, remainder: 0 },
            is_success: false,
            callee_address: [0u8; 20],
            caller_id: 0,
            call_data_offset: 0,
            call_data_length: 0,
            return_data_offset: 0,
            return_data_length: 0,
            restore_context: RestoreContextGadget {
                is_success: false,
                gas_cost: 0,
                return_data_offset: 0,
                return_data_length: 0,
                rw_offset: N_CALL_CONTEXT_LOOKUPS,
            },
        };
        assert(g.callee_address@ =~= Seq::new(20, |i: int| 0u8));
        g
    }

    /// Fills the cells from a call and the step that ran it.
    ///
    /// The call must have a code address, and its input length plus 31 must
    /// fit in 64 bits. The gas cell takes the cost that the input's length
    /// fixes; the restoring gadget takes the gas that the step was charged, so
    /// the gates hold exactly when the two agree and the word count fits in
    /// four bytes.
    pub fn assign_exec_step(&mut self, call: &Call, step: &ExecStep)
        requires
            call.code_address is Some,
            call.call_data_length <= u64::MAX - 31,
        ensures
            final(self).gas_cost == identity_gas_cost(call.call_data_length as nat),
            final(self).input_word_size.numerator == call.call_data_length + 31,
            final(self).input_word_size.quotient == word_size(call.call_data_length as nat),
            final(self).input_word_size.remainder == (call.call_data_length + 31) % 32,
            final(self).is_success == call.is_success,
            final(self).callee_address == call.code_address->Some_0,
            final(self).caller_id == call.caller_id,
            final(self).call_data_offset == call.call_data_offset,
            final(self).call_data_length == call.call_data_length,
            final(self).return_data_offset == call.return_data_offset,
            final(self).return_data_length == call.return_data_length,
            final(self).restore_context == (RestoreContextGadget {
                is_success: call.is_success,
                gas_cost: step.gas_cost,
                return_data_offset: 0,
                return_data_length: call.call_data_length,
                rw_offset: N_CALL_CONTEXT_LOOKUPS,
            }),
            final(self).constraints() <==> (step.gas_cost == identity_gas_cost(
                call.call_data_length as nat,
            ) && word_size(call.call_data_length as nat) < 0x1_0000_0000),
    {
        let numerator: u64 = call.call_data_length + (N_BYTES_WORD - 1);
        let quotient: u64 = numerator / N_BYTES_WORD;
        let remainder: u64 = numerator % N_BYTES_WORD;
        let gas_cost: u64 = PRECOMPILE_IDENTITY_BASE + quotient * PRECOMPILE_IDENTITY_PER_WORD;
        self.gas_cost = gas_cost;
        self.input_word_size = ConstantDivisionGadget { numerator, quotient, remainder };
        self.is_success = call.is_success;
        self.callee_address =
        match call.code_address {
            Some(address) => address,
            None => [0u8; 20],
        };
        self.caller_id = call.caller_id;
        self.call_data_offset = call.call_data_offset;
        self.call_data_length = call.call_data_length;
        self.return_data_offset = call.return_data_offset;
        self.return_data_length = call.return_data_length;
        self.restore_context = RestoreContextGadget {
            is_success: call.is_success,
            gas_cost: step.gas_cost,
            return_data_offset: 0,
            return_data_length: call.call_data_length,
            rw_offset: N_CALL_CONTEXT_LOOKUPS,
        };
    }

    /// Whether the gates hold of the cells.
    pub fn constraints_hold(&self) -> (ok: bool)
        ensures
            ok == self.constraints(),
    {
        let d = &self.input_word_size;
        self.call_data_length <= u64::MAX - 31 && d.numerator == self.call_data_length + 31
            && d.remainder < 32 && d.quotient < 0x1_0000_0000 && d.numerator == d.quotient * 32
            + d.remainder && self.gas_cost == 15 + d.quotient * 3 && self.restore_context.is_success
            == self.is_success && self.restore_context.gas_cost == self.gas_cost
            && self.restore_context.return_data_offset == 0
            && self.restore_context.return_data_length == self.call_data_length
    }
}

} // verus!
