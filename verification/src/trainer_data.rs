//! Trainer records: a trainer's properties and its party.
use vstd::prelude::*;

verus! {

/// What a trainer's party entries carry beyond the species and level.
#[derive(Debug, Clone, Copy, PartialEq, Eq, Structural)]
pub struct TrainerFlags {
    /// Every entry lists its moves.
    pub has_moves: bool,
    /// Every entry has a held-item slot.
    pub has_items: bool,
}

/// The battle AI behaviours a trainer uses, each by its decomp name
/// (`AI_FLAG_BASIC`, ...).
#[derive(Debug, Clone, Copy, PartialEq, Eq, Structural)]
pub struct AiFlags {
    pub basic: bool,
    pub eval_attack: bool,
    pub expert: bool,
    pub setup_first_turn: bool,
    pub risky: bool,
    pub damage_priority: bool,
    pub baton_pass: bool,
    pub tag_strategy: bool,
    pub check_hp: bool,
    pub weather: bool,
    pub harrassment: bool,
    pub roaming_pokemon: bool,
    pub safari: bool,
    pub catch_tutorial: bool,
}

/// A trainer's fixed properties.
#[derive(Debug, Clone, Copy)]
pub struct TrainerProperties {
    pub flags: TrainerFlags,
    pub trainer_class: u8,
    pub unknown: u8,
    pub party_count: u8,
    pub items: [u16; 4],
    pub ai_flags: AiFlags,
    pub double_battle: u32,
}

/// One Pokémon of a trainer's party.
#[derive(Debug, Clone, Copy)]
pub struct PartyPokemon {
    pub difficulty: u16,
    /// The gender override in the low four bits, the ability override in
    /// the high four.
    pub gender_ability_override: u8,
    pub level: u16,
    pub species: u16,
    pub form: u8,
    pub held_item: Option<u16>,
    pub moves: Option<[u16; 4]>,
    pub ball_seal: Option<u16>,
}

/// A trainer: its properties and its party.
#[derive(Debug, Clone)]
pub struct TrainerData {
    pub properties: TrainerProperties,
    pub party: Vec<PartyPokemon>,
}

} // verus!
