//! The state machines that decide which rules run.

use vstd::prelude::*;

verus! {

/// Where the application is.
#[derive(Debug, Clone, Copy, PartialEq, Eq, Structural, Hash)]
pub enum GameState {
    Loading,
    MainMenu,
    GameInit,
    InGame,
}

impl Default for GameState {
    fn default() -> (s: Self)
        ensures
            s == GameState::Loading,
    {
        GameState::Loading
    }
}

/// What the player is doing.
#[derive(Debug, Clone, Copy, PartialEq, Eq, Structural, Hash)]
pub enum PlayerState {
    Idle,
    Moving,
    Throwing,
}

impl Default for PlayerState {
    fn default() -> (s: Self)
        ensures
            s == PlayerState::Idle,
    {
        PlayerState::Idle
    }
}

/// Phase of the hand block: held, thrown, or flying back.
#[derive(Debug, Clone, Copy, PartialEq, Eq, Structural, Hash)]
pub enum HandBlockState {
    Idle,
    Moving,
    Backing,
}

impl Default for HandBlockState {
    fn default() -> (s: Self)
        ensures
            s == HandBlockState::Idle,
    {
        HandBlockState::Idle
    }
}

impl HandBlockState {
    /// Whether `to` is the phase that follows this one: a held block is thrown, a thrown
    /// block turns back, a block on its way back arrives.
    pub open spec fn leads_to(self, to: HandBlockState) -> bool {
        match (self, to) {
            (HandBlockState::Idle, HandBlockState::Moving) => true,
            (HandBlockState::Moving, HandBlockState::Backing) => true,
            (HandBlockState::Backing, HandBlockState::Idle) => true,
            _ => false,
        }
    }

    /// The phase after a request for `next`: the requested one where it follows this one,
    /// this one otherwise.
    pub fn advance(self, next: Option<HandBlockState>) -> (state: HandBlockState)
        ensures
            state == match next {
                Some(to) => if self.leads_to(to) {
                    to
                } else {
                    self
                },
                None => self,
            },
    {
        match (self, next) {
            (HandBlockState::Idle, Some(HandBlockState::Moving)) => HandBlockState::Moving,
            (HandBlockState::Moving, Some(HandBlockState::Backing)) => HandBlockState::Backing,
            (HandBlockState::Backing, Some(HandBlockState::Idle)) => HandBlockState::Idle,
            _ => self,
        }
    }
}

/// Whether the blocks of the grid rest or fall.
#[derive(Debug, Clone, Copy, PartialEq, Eq, Structural, Hash)]
pub enum BlockGroupState {
    Static,
    FallDown,
}

impl Default for BlockGroupState {
    fn default() -> (s: Self)
        ensures
            s == BlockGroupState::Static,
    {
        BlockGroupState::Static
    }
}

/// Phase of the end-of-stage settlement.
#[derive(Debug, Clone, Copy, PartialEq, Eq, Structural, Hash)]
pub enum SettlementState {
    Not,
    Start,
    DespawnBlock,
    TimeToScore,
    End,
}

impl Default for SettlementState {
    fn default() -> (s: Self)
        ensures
            s == SettlementState::Not,
    {
        SettlementState::Not
    }
}

impl SettlementState {
    /// Whether `to` is the phase that follows this one in a settlement.
    pub open spec fn leads_to(self, to: SettlementState) -> bool {
        match (self, to) {
            (SettlementState::Not, SettlementState::Start) => true,
            (SettlementState::Start, SettlementState::DespawnBlock) => true,
            (SettlementState::DespawnBlock, SettlementState::TimeToScore) => true,
            (SettlementState::TimeToScore, SettlementState::End) => true,
            (SettlementState::End, SettlementState::Not) => true,
            _ => false,
        }
    }

    /// The phase after a request for `next`: the requested one where it follows this one,
    /// this one otherwise.
    pub fn advance(self, next: Option<SettlementState>) -> (state: SettlementState)
        ensures
            state == match next {
                Some(to) => if self.leads_to(to) {
                    to
                } else {
                    self
                },
                None => self,
            },
    {
        match (self, next) {
            (SettlementState::Not, Some(SettlementState::Start)) => SettlementState::Start,
            (SettlementState::Start, Some(SettlementState::DespawnBlock)) => {
                SettlementState::DespawnBlock
            },
            (SettlementState::DespawnBlock, Some(SettlementState::TimeToScore)) => {
                SettlementState::TimeToScore
            },
            (SettlementState::TimeToScore, Some(SettlementState::End)) => SettlementState::End,
            (SettlementState::End, Some(SettlementState::Not)) => SettlementState::Not,
            _ => self,
        }
    }
}

} // verus!
