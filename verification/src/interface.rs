//! The events that the selectors classify, as plain values.

use crate::keys::Pubkey;
use vstd::prelude::*;

verus! {

/// An account update: the account's own identifier, the identifier of its
/// owner and its data.
pub struct ReplicaAccountInfo<'a> {
    pub pubkey: &'a [u8],
    pub owner: &'a [u8],
    pub data: &'a [u8],
}

/// One instruction of a transaction. The program it calls is named by an
/// index into the transaction's table of account keys.
pub struct CompiledInstruction {
    pub program_id_index: u8,
    pub data: Vec<u8>,
}

/// The instructions that one top-level instruction invoked while it ran.
pub struct InnerInstructions {
    pub instructions: Vec<CompiledInstruction>,
}

/// A transaction: its table of account keys, its top-level instructions and,
/// where execution recorded them, its inner instructions.
pub struct TransactionInfo {
    pub account_keys: Vec<Pubkey>,
    pub instructions: Vec<CompiledInstruction>,
    pub inner_instructions: Option<Vec<InnerInstructions>>,
}

/// The program indices of a list of instructions, in order.
pub open spec fn program_indices(instructions: Seq<CompiledInstruction>) -> Seq<usize> {
    instructions.map_values(|ins: CompiledInstruction| ins.program_id_index as usize)
}

/// The program indices of all inner instructions, group after group.
pub open spec fn inner_program_indices(groups: Seq<InnerInstructions>) -> Seq<usize> {
    groups.map_values(|group: InnerInstructions| program_indices(group.instructions@)).flatten()
}

/// Every program index that a transaction refers to: those of its top-level
/// instructions, then those of its inner instructions.
pub open spec fn referenced_programs(tx: TransactionInfo) -> Seq<usize> {
    program_indices(tx.instructions@) + match tx.inner_instructions {
        Some(groups) => inner_program_indices(groups@),
        None => Seq::empty(),
    }
}

/// One more group adds its indices behind those of the groups before it.
pub proof fn lemma_inner_indices_step(groups: Seq<InnerInstructions>, n: int)
    requires
        0 <= n < groups.len(),
    ensures
        inner_program_indices(groups.take(n + 1)) == inner_program_indices(groups.take(n))
            + program_indices(groups[n].instructions@),
{
    let per_group = |group: InnerInstructions| program_indices(group.instructions@);
    let before = groups.take(n).map_values(per_group);
    assert(groups.take(n + 1).map_values(per_group) =~= before.push(per_group(groups[n])));
    before.lemma_flatten_push(per_group(groups[n]));
}

impl TransactionInfo {
    /// Collects every program index that the transaction refers to.
    pub fn program_references(&self) -> (indices: Vec<usize>)
        ensures
            indices@ == referenced_programs(*self),
    {
        let mut indices: Vec<usize> = Vec::new();
        let mut i: usize = 0;
        while i < self.instructions.len()
            invariant
                i <= self.instructions@.len(),
                indices@ == program_indices(self.instructions@.take(i as int)),
            decreases self.instructions@.len() - i,
        {
            indices.push(self.instructions[i].program_id_index as usize);
            i += 1;
            assert(indices@ =~= program_indices(self.instructions@.take(i as int)));
        }
        assert(self.instructions@.take(i as int) =~= self.instructions@);
        if let Some(groups) = &self.inner_instructions {
            let ghost top = indices@;
            let mut g: usize = 0;
            assert(inner_program_indices(groups@.take(0)) =~= Seq::<usize>::empty());
            while g < groups.len()
                invariant
                    g <= groups@.len(),
                    indices@ == top + inner_program_indices(groups@.take(g as int)),
                decreases groups@.len() - g,
            {
                let group = &groups[g].instructions;
                let ghost done = indices@;
                let mut k: usize = 0;
                while k < group.len()
                    invariant
                        k <= group@.len(),
                        indices@ == done + program_indices(group@.take(k as int)),
                    decreases group@.len() - k,
                {
                    indices.push(group[k].program_id_index as usize);
                    k += 1;
                    assert(indices@ =~= done + program_indices(group@.take(k as int)));
                }
                assert(group@.take(k as int) =~= group@);
                proof {
                    lemma_inner_indices_step(groups@, g as int);
                }
                g += 1;
                assert(indices@ =~= top + inner_program_indices(groups@.take(g as int)));
            }
            assert(groups@.take(g as int) =~= groups@);
        } else {
            assert(indices@ =~= referenced_programs(*self));
        }
        indices
    }
}

} // verus!
