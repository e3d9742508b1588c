//! The per-match archive: one record per Battlegrounds round, with its
//! recruit and combat sub-phases.

use vstd::prelude::*;

use crate::harness::state::snapshot::{
    CardSnapshot, CombatSideSnapshot, LobbyPlayerSnapshot, RecruitSnapshot,
};
use crate::text::{chars_of, string_of};

verus! {

#[derive(Debug, Clone, Copy, PartialEq, Eq, Structural)]
pub enum ChoiceKind {
    Hero,
    Trinket,
    DarkGift,
    Discover,
    Other,
}

#[derive(Debug, Clone)]
pub struct ChoiceArchive {
    pub id: u32,
    pub choice_type: String,
    pub kind: ChoiceKind,
    pub started_at: Option<String>,
    pub resolved_at: Option<String>,
    pub source_name: Option<String>,
    pub source_card_id: Option<String>,
    pub options: Vec<CardSnapshot>,
    pub selected: Vec<CardSnapshot>,
}

#[derive(Debug, Clone, Copy, PartialEq, Eq, Structural)]
pub enum RecruitActionKind {
    Refresh,
    BuyMinion,
    BuySpell,
    SellMinion,
    PlayMinion,
    CastSpell,
    TavernUpgrade,
    FreezeToggle,
    UseHeroPower,
    Reorder,
    Activate,
    RecruitAttack,
    SpecialAction,
    PlayCard,
}

#[derive(Debug, Clone)]
pub struct RecruitActionRecord {
    pub timestamp: Option<String>,
    pub kind: RecruitActionKind,
    pub source: Option<CardSnapshot>,
    pub target: Option<CardSnapshot>,
    /// State after the action has fully settled, captured at the next
    /// GameState.SendOption or Recruit phase boundary.
    pub state_after: RecruitSnapshot,
}

#[derive(Debug, Clone, Copy, PartialEq, Eq, Structural)]
pub enum ShopRevisionCause {
    PhaseStart,
    Refresh,
    Buy,
    Sell,
    SpellOrEffect,
    OtherAction,
    StateChange,
}

#[derive(Debug, Clone)]
pub struct ShopRevision {
    /// 1-based within one Recruit phase.
    pub revision: u32,
    pub timestamp: Option<String>,
    pub cause: ShopRevisionCause,
    pub cards: Vec<CardSnapshot>,
}

#[derive(Debug, Clone)]
pub struct RecruitArchive {
    pub round_number: u32,
    pub raw_game_turn: u32,
    pub started_at: Option<String>,
    pub ended_at: Option<String>,
    pub start: RecruitSnapshot,
    pub actions: Vec<RecruitActionRecord>,
    pub shop_revisions: Vec<ShopRevision>,
    pub choices: Vec<ChoiceArchive>,
    pub end: RecruitSnapshot,
}

#[derive(Debug, Clone, Copy, PartialEq, Eq, Structural)]
pub enum CombatResult {
    Win,
    Loss,
    Tie,
    Unknown,
}

#[derive(Debug, Clone)]
pub struct CombatArchive {
    pub round_number: u32,
    pub raw_game_turn: u32,
    pub started_at: Option<String>,
    pub ended_at: Option<String>,
    pub opponent_player_id: Option<i32>,
    pub lobby: Vec<LobbyPlayerSnapshot>,
    pub player: CombatSideSnapshot,
    pub opponent: CombatSideSnapshot,
    pub result: CombatResult,
    pub damage_taken: Option<i32>,
    pub damage_dealt: Option<i32>,
    pub choices: Vec<ChoiceArchive>,
}

#[derive(Debug, Clone)]
pub struct RoundArchive {
    pub round_number: u32,
    pub recruit: Option<RecruitArchive>,
    pub combat: Option<CombatArchive>,
}

#[derive(Debug, Clone)]
pub struct GameArchive {
    pub schema_version: String,
    pub source_log: Option<String>,
    /// Audit field: where CardId -> static metadata came from.
    pub card_catalog_source: Option<String>,
    pub started_at: Option<String>,
    pub ended_at: Option<String>,
    pub local_player_id: Option<i32>,
    pub local_player_name: Option<String>,
    pub final_place: Option<u8>,
    /// Optional client-visible tribe pool. A live client can enrich this
    /// from a tribe provider; pure Power.log replay stays independent.
    pub available_tribes: Option<Vec<String>>,
    pub available_tribes_source: Option<String>,
    /// Defensive parser/runtime recoveries from an unbalanced block stack.
    /// Zero is ideal; non-zero means recovery occurred but did not poison the
    /// rest of the match.
    pub stale_block_stack_recoveries: u32,
    pub lobby_players: Vec<LobbyPlayerSnapshot>,
    pub pregame_choices: Vec<ChoiceArchive>,
    /// Exactly one object per Battlegrounds round. Each object contains up to
    /// two sub-phases: Recruit and Combat.
    pub rounds: Vec<RoundArchive>,
}

/// The archive format's version.
pub open spec fn schema_version_v() -> Seq<char> {
    "0.4.2"@
}

/// An archive with nothing recorded yet.
pub open spec fn is_empty_archive(a: GameArchive) -> bool {
    &&& a.schema_version@ == schema_version_v()
    &&& a.source_log is None
    &&& a.card_catalog_source is None
    &&& a.started_at is None
    &&& a.ended_at is None
    &&& a.local_player_id is None
    &&& a.local_player_name is None
    &&& a.final_place is None
    &&& a.available_tribes is None
    &&& a.available_tribes_source is None
    &&& a.stale_block_stack_recoveries == 0
    &&& a.lobby_players@.len() == 0
    &&& a.pregame_choices@.len() == 0
    &&& a.rounds@.len() == 0
}

impl Default for GameArchive {
    fn default() -> (r: GameArchive)
        ensures
            is_empty_archive(r),
    {
        GameArchive {
            schema_version: string_of(&chars_of("0.4.2")),
            source_log: None,
            card_catalog_source: None,
            started_at: None,
            ended_at: None,
            local_player_id: None,
            local_player_name: None,
            final_place: None,
            available_tribes: None,
            available_tribes_source: None,
            stale_block_stack_recoveries: 0,
            lobby_players: Vec::new(),
            pregame_choices: Vec::new(),
            rounds: Vec::new(),
        }
    }
}

/// The first round numbered `n`, if any.
pub open spec fn first_round(rounds: Seq<RoundArchive>, n: u32) -> Option<int> {
    if exists|i: int| 0 <= i < rounds.len() && rounds[i].round_number == n {
        Some(
            choose|i: int|
                0 <= i < rounds.len() && rounds[i].round_number == n && forall|j: int|
                    0 <= j < i ==> rounds[j].round_number != n,
        )
    } else {
        None
    }
}

pub open spec fn round_choices(r: RoundArchive) -> Seq<ChoiceArchive> {
    (match r.recruit {
        Some(rec) => rec.choices@,
        None => Seq::empty(),
    }) + (match r.combat {
        Some(c) => c.choices@,
        None => Seq::empty(),
    })
}

/// Every choice of rounds `0..k`, in order.
pub open spec fn choices_upto(rounds: Seq<RoundArchive>, k: int) -> Seq<ChoiceArchive>
    decreases k,
{
    if k <= 0 {
        Seq::empty()
    } else {
        choices_upto(rounds, k - 1) + round_choices(rounds[k - 1])
    }
}

/// The combats of rounds `0..k` against player `pid`, in order.
pub open spec fn combats_upto(rounds: Seq<RoundArchive>, k: int, pid: i32) -> Seq<CombatArchive>
    decreases k,
{
    if k <= 0 {
        Seq::empty()
    } else {
        let prev = combats_upto(rounds, k - 1, pid);
        match rounds[k - 1].combat {
            Some(c) => if c.opponent_player_id == Some(pid) {
                prev.push(c)
            } else {
                prev
            },
            None => prev,
        }
    }
}

pub open spec fn deref_all<T>(s: Seq<&T>) -> Seq<T> {
    s.map_values(|x: &T| *x)
}

/// Appends a reference to each item of `v`.
fn push_all<'b, T>(r: &mut Vec<&'b T>, v: &'b Vec<T>)
    ensures
        deref_all(final(r)@) == deref_all(old(r)@) + v@,
{
    let ghost base = deref_all(r@);
    let mut j: usize = 0;
    while j < v.len()
        invariant
            j <= v@.len(),
            deref_all(r@) == base + v@.take(j as int),
        decreases v@.len() - j,
    {
        let ghost old_r = r@;
        let x: &'b T = &v[j];
        r.push(x);
        assert(deref_all(r@) =~= deref_all(old_r).push(v@[j as int]));
        assert(v@.take(j + 1) =~= v@.take(j as int).push(v@[j as int]));
        assert(deref_all(r@) =~= base + v@.take(j + 1));
        j += 1;
    }
    assert(v@.take(j as int) =~= v@);
}

impl GameArchive {
    pub open spec fn round_v(&self, n: u32) -> Option<RoundArchive> {
        match first_round(self.rounds@, n) {
            Some(i) => Some(self.rounds@[i]),
            None => None,
        }
    }

    /// The first round numbered `round_number`.
    pub fn round(&self, round_number: u32) -> (r: Option<&RoundArchive>)
        ensures
            match r {
                Some(x) => self.round_v(round_number) == Some(*x),
                None => self.round_v(round_number) is None,
            },
    {
        let mut i: usize = 0;
        while i < self.rounds.len()
            invariant
                i <= self.rounds@.len(),
                forall|j: int| 0 <= j < i ==> self.rounds@[j].round_number != round_number,
            decreases self.rounds@.len() - i,
        {
            if self.rounds[i].round_number == round_number {
                proof {
                    let w = choose|w: int|
                        0 <= w < self.rounds@.len() && self.rounds@[w].round_number == round_number && forall|
                            j: int,
                        | 0 <= j < w ==> self.rounds@[j].round_number != round_number;
                    assert(w == i) by {
                        if w < i {
                        } else if w > i {
                            assert(self.rounds@[i as int].round_number == round_number);
                        }
                    }
                }
                return Some(&self.rounds[i]);
            }
            i += 1;
        }
        None
    }

    pub fn latest_round(&self) -> (r: Option<&RoundArchive>)
        ensures
            match r {
                Some(x) => self.rounds@.len() > 0 && *x == self.rounds@.last(),
                None => self.rounds@.len() == 0,
            },
    {
        if self.rounds.len() == 0 {
            None
        } else {
            Some(&self.rounds[self.rounds.len() - 1])
        }
    }

    /// The first lobby player marked local.
    pub fn local_player(&self) -> (r: Option<&LobbyPlayerSnapshot>)
        ensures
            match r {
                Some(x) => exists|i: int|
                    0 <= i < self.lobby_players@.len() && self.lobby_players@[i] == *x && x.is_local && forall|
                        j: int,
                    | 0 <= j < i ==> !self.lobby_players@[j].is_local,
                None => forall|i: int| 0 <= i < self.lobby_players@.len() ==> !self.lobby_players@[i].is_local,
            },
    {
        let mut i: usize = 0;
        while i < self.lobby_players.len()
            invariant
                i <= self.lobby_players@.len(),
                forall|j: int| 0 <= j < i ==> !self.lobby_players@[j].is_local,
            decreases self.lobby_players@.len() - i,
        {
            if self.lobby_players[i].is_local {
                return Some(&self.lobby_players[i]);
            }
            i += 1;
        }
        None
    }

    /// The first lobby player with id `player_id`.
    pub fn opponent(&self, player_id: i32) -> (r: Option<&LobbyPlayerSnapshot>)
        ensures
            match r {
                Some(x) => exists|i: int|
                    0 <= i < self.lobby_players@.len() && self.lobby_players@[i] == *x && x.player_id
                        == player_id && forall|j: int|
                        0 <= j < i ==> self.lobby_players@[j].player_id != player_id,
                None => forall|i: int|
                    0 <= i < self.lobby_players@.len() ==> self.lobby_players@[i].player_id != player_id,
            },
    {
        let mut i: usize = 0;
        while i < self.lobby_players.len()
            invariant
                i <= self.lobby_players@.len(),
                forall|j: int| 0 <= j < i ==> self.lobby_players@[j].player_id != player_id,
            decreases self.lobby_players@.len() - i,
        {
            if self.lobby_players[i].player_id == player_id {
                return Some(&self.lobby_players[i]);
            }
            i += 1;
        }
        None
    }

    pub open spec fn choices_v(&self) -> Seq<ChoiceArchive> {
        self.pregame_choices@ + choices_upto(self.rounds@, self.rounds@.len() as int)
    }

    /// Every choice of the match: pregame choices, then each round's recruit
    /// choices followed by its combat choices.
    pub fn choices(&self) -> (r: Vec<&ChoiceArchive>)
        ensures
            deref_all(r@) == self.choices_v(),
    {
        let mut r: Vec<&ChoiceArchive> = Vec::new();
        assert(deref_all(r@) =~= Seq::<ChoiceArchive>::empty());
        push_all(&mut r, &self.pregame_choices);
        assert(self.pregame_choices@ + choices_upto(self.rounds@, 0) =~= self.pregame_choices@);
        assert(Seq::<ChoiceArchive>::empty() + self.pregame_choices@ =~= self.pregame_choices@);
        let mut k: usize = 0;
        while k < self.rounds.len()
            invariant
                k <= self.rounds@.len(),
                deref_all(r@) == self.pregame_choices@ + choices_upto(self.rounds@, k as int),
            decreases self.rounds@.len() - k,
        {
            let round = &self.rounds[k];
            let ghost base = deref_all(r@);
            match &round.recruit {
                Some(rec) => push_all(&mut r, &rec.choices),
                None => {},
            }
            let ghost mid = deref_all(r@);
            match &round.combat {
                Some(c) => push_all(&mut r, &c.choices),
                None => {},
            }
            assert(deref_all(r@) =~= base + round_choices(self.rounds@[k as int]));
            assert(deref_all(r@) =~= self.pregame_choices@ + choices_upto(self.rounds@, k + 1));
            k += 1;
        }
        r
    }

    pub open spec fn shop_revisions_v(&self, n: u32) -> Seq<ShopRevision> {
        match self.round_v(n) {
            Some(r) => match r.recruit {
                Some(rec) => rec.shop_revisions@,
                None => Seq::empty(),
            },
            None => Seq::empty(),
        }
    }

    /// The shop revisions of round `round_number`'s recruit phase.
    pub fn shop_revisions(&self, round_number: u32) -> (r: &[ShopRevision])
        ensures
            r@ == self.shop_revisions_v(round_number),
    {
        match self.round(round_number) {
            Some(round) => match &round.recruit {
                Some(rec) => rec.shop_revisions.as_slice(),
                None => &[],
            },
            None => &[],
        }
    }

    pub open spec fn lobby_at_round_v(&self, n: u32) -> Option<Seq<LobbyPlayerSnapshot>> {
        match self.round_v(n) {
            Some(r) => match r.recruit {
                Some(rec) => Some(rec.start.lobby@),
                None => match r.combat {
                    Some(c) => Some(c.lobby@),
                    None => None,
                },
            },
            None => None,
        }
    }

    /// The lobby as the round's recruit phase began, else as its combat saw it.
    pub fn lobby_at_round(&self, round_number: u32) -> (r: Option<&[LobbyPlayerSnapshot]>)
        ensures
            match r {
                Some(x) => self.lobby_at_round_v(round_number) == Some(x@),
                None => self.lobby_at_round_v(round_number) is None,
            },
    {
        match self.round(round_number) {
            Some(round) => match &round.recruit {
                Some(rec) => Some(rec.start.lobby.as_slice()),
                None => match &round.combat {
                    Some(c) => Some(c.lobby.as_slice()),
                    None => None,
                },
            },
            None => None,
        }
    }

    /// The cards of the round's last shop revision.
    pub fn latest_stable_shop(&self, round_number: u32) -> (r: Option<&[CardSnapshot]>)
        ensures
            match r {
                Some(x) => self.shop_revisions_v(round_number).len() > 0 && x@
                    == self.shop_revisions_v(round_number).last().cards@,
                None => self.shop_revisions_v(round_number).len() == 0,
            },
    {
        let revisions = self.shop_revisions(round_number);
        if revisions.len() == 0 {
            None
        } else {
            Some(revisions[revisions.len() - 1].cards.as_slice())
        }
    }

    pub open spec fn combats_against_v(&self, pid: i32) -> Seq<CombatArchive> {
        combats_upto(self.rounds@, self.rounds@.len() as int, pid)
    }

    /// All archived combats against one lobby player, in chronological order.
    pub fn combats_against(&self, player_id: i32) -> (r: Vec<&CombatArchive>)
        ensures
            deref_all(r@) == self.combats_against_v(player_id),
    {
        let mut r: Vec<&CombatArchive> = Vec::new();
        assert(deref_all(r@) =~= combats_upto(self.rounds@, 0, player_id));
        let mut k: usize = 0;
        while k < self.rounds.len()
            invariant
                k <= self.rounds@.len(),
                deref_all(r@) == combats_upto(self.rounds@, k as int, player_id),
            decreases self.rounds@.len() - k,
        {
            let ghost before = deref_all(r@);
            match &self.rounds[k].combat {
                Some(c) => {
                    if c.opponent_player_id == Some(player_id) {
                        r.push(c);
                        assert(deref_all(r@) =~= before.push(*c));
                    }
                },
                None => {},
            }
            k += 1;
        }
        r
    }
}

} // verus!
