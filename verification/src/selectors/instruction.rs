//! Selection of single instructions: by the program they call, and, for the
//! token program, by what they do.

use crate::config::{ConfigError, Instructions};
use crate::interface::CompiledInstruction;
use crate::keys::{all_denote, bytes_equal, denoted, KeySet, Pubkey};
use crate::token::{burn_amount, decode_burn, lemma_unit_burn, unit_burn_payload, TOKEN_KEY};
use vstd::prelude::*;

verus! {

/// Filter over single instructions.
#[derive(Debug)]
pub struct InstructionSelector {
    programs: KeySet,
    screen_tokens: bool,
}

impl InstructionSelector {
    /// The programs whose instructions are wanted.
    pub closed spec fn programs(&self) -> Set<Seq<u8>> {
        self.programs@
    }

    /// Whether calls of the token program are narrowed down to burns of one
    /// unit.
    pub closed spec fn screens_tokens(&self) -> bool {
        self.screen_tokens
    }

    /// Whether an instruction is selected: its program is allow-listed, and,
    /// where token calls are narrowed down and the program is the token
    /// program, its payload is a burn of exactly one unit.
    pub open spec fn selects(&self, program: Seq<u8>, payload: Seq<u8>) -> bool {
        &&& self.programs().contains(program)
        &&& (self.screens_tokens() && program == TOKEN_KEY@ ==> burn_amount(payload) == Some(
            1int,
        ))
    }

    /// The selector over the given allow-set. Token calls are narrowed down
    /// unless all of them are wanted.
    pub fn new(programs: KeySet, all_token_calls: bool) -> (selector: Self)
        ensures
            selector.programs() == programs@,
            selector.screens_tokens() == !all_token_calls,
    {
        InstructionSelector { programs, screen_tokens: !all_token_calls }
    }

    /// Builds the selector that a configuration describes. Fails when a
    /// text of the list denotes no identifier.
    pub fn from_config(config: Instructions) -> (made: Result<Self, ConfigError>)
        ensures
            made is Ok <==> all_denote(config.programs@),
            made matches Ok(selector) ==> {
                &&& selector.programs() == denoted(config.programs@)
                &&& selector.screens_tokens() == !config.all_token_calls
            },
            made matches Err(e) ==> e == ConfigError::InstructionPrograms,
    {
        match KeySet::parse_all(&config.programs) {
            Some(programs) => Ok(InstructionSelector::new(programs, config.all_token_calls)),
            None => Err(ConfigError::InstructionPrograms),
        }
    }

    /// Whether no program is allow-listed. Such a selector selects no
    /// instruction.
    pub fn is_empty(&self) -> (empty: bool)
        ensures
            empty == (self.programs() == Set::<Seq<u8>>::empty()),
            empty <==> forall|program: Seq<u8>, payload: Seq<u8>|
                !#[trigger] self.selects(program, payload),
    {
        proof {
            if self.programs() != Set::<Seq<u8>>::empty() {
                assert(!(self.programs() =~= Set::<Seq<u8>>::empty()));
                let program = choose|program: Seq<u8>| self.programs().contains(program);
                lemma_unit_burn(unit_burn_payload());
                assert(self.selects(program, unit_burn_payload()));
            }
        }
        self.programs.is_empty()
    }

    /// Classifies an instruction of the program `pgm`.
    ///
    /// Where token calls are narrowed down, an instruction of the token
    /// program is rejected unless its payload is the nine bytes
    /// `8, 1, 0, 0, 0, 0, 0, 0, 0`; with the token program allow-listed,
    /// that payload is accepted.
    pub fn is_selected(&self, pgm: &Pubkey, ins: &CompiledInstruction) -> (selected: bool)
        ensures
            selected == self.selects(pgm@, ins.data@),
            self.screens_tokens() && pgm@ == TOKEN_KEY@ && ins.data@ != unit_burn_payload()
                ==> !selected,
            self.programs().contains(pgm@) && ins.data@ == unit_burn_payload() ==> selected,
    {
        proof {
            lemma_unit_burn(ins.data@);
        }
        if !self.programs.contains(pgm.as_slice()) {
            return false;
        }
        let token_key = TOKEN_KEY;
        if self.screen_tokens && bytes_equal(pgm.as_slice(), token_key.as_slice()) {
            match decode_burn(ins.data.as_slice()) {
                Some(amount) => {
                    if amount != 1 {
                        return false;
                    }
                },
                None => {
                    return false;
                },
            }
        }
        true
    }
}

} // verus!
