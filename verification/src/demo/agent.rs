//! The agent's compact view of the match and the rules that tell when the
//! slow strategic plan must be redone.

use vstd::prelude::*;

use crate::debug_fmt::{debug_opt_string, debug_text};
use crate::demo::model::{EconomyPolicy, ReplanEvent, ReplanEventV, ReplanLevel, TierPolicy, UpgradePosture};
use crate::harness::card_catalog::CardCatalog;
use crate::harness::power::event::opt_view;
use crate::harness::runtime::rules::text_or_empty;
use crate::harness::runtime::{HarnessRuntime, PhaseKind};
use crate::harness::state::snapshot::{
    lemma_strictly_sorted_unique, clone_strings, first_of, CardSnapshot, CardSnapshotV, RecruitSnapshot,
};
use crate::text::{
    lemma_lex_asym, chars_eq, chars_of, i64_text, int_text, lex_lt, nat_text, set_insert, strictly_sorted, string_of,
    strs_view, push_str, strs_contain, u64_text,
};

verus! {

#[derive(Debug, Clone)]
pub struct AgentCard {
    pub entity_id: u32,
    pub card_id: String,
    pub name: String,
    pub attack: Option<i32>,
    pub health: Option<i32>,
    pub tavern_tier: Option<u8>,
    pub is_golden: bool,
    pub tribes: Vec<String>,
    pub text: String,
    pub mechanics: Vec<String>,
}

pub struct AgentCardV {
    pub entity_id: u32,
    pub card_id: Seq<char>,
    pub name: Seq<char>,
    pub attack: Option<i32>,
    pub health: Option<i32>,
    pub tavern_tier: Option<u8>,
    pub is_golden: bool,
    pub tribes: Seq<Seq<char>>,
    pub text: Seq<char>,
    pub mechanics: Seq<Seq<char>>,
}

impl View for AgentCard {
    type V = AgentCardV;

    open spec fn view(&self) -> AgentCardV {
        AgentCardV {
            entity_id: self.entity_id,
            card_id: self.card_id@,
            name: self.name@,
            attack: self.attack,
            health: self.health,
            tavern_tier: self.tavern_tier,
            is_golden: self.is_golden,
            tribes: strs_view(self.tribes@),
            text: self.text@,
            mechanics: strs_view(self.mechanics@),
        }
    }
}

/// The agent's card: the name falls back to the CardId, then `unknown`;
/// health is what remains, else the printed health.
pub open spec fn agent_card_v(c: CardSnapshotV) -> AgentCardV {
    AgentCardV {
        entity_id: c.entity_id,
        card_id: text_or_empty(c.card_id),
        name: match c.name {
            Some(n) => n,
            None => match c.card_id {
                Some(i) => i,
                None => "unknown"@,
            },
        },
        attack: c.attack,
        health: first_of(c.remaining_health, c.health),
        tavern_tier: c.tavern_tier,
        is_golden: c.is_golden,
        tribes: c.tribes,
        text: text_or_empty(c.text),
        mechanics: c.mechanics,
    }
}

pub open spec fn agent_cards_view(v: Seq<AgentCard>) -> Seq<AgentCardV> {
    v.map_values(|c: AgentCard| c@)
}

fn text_or_empty_of(o: &Option<String>) -> (r: String)
    ensures
        r@ == text_or_empty(opt_view(*o)),
{
    match o {
        Some(s) => s.clone(),
        None => String::new(),
    }
}

impl AgentCard {
    pub fn from_snapshot(card: &CardSnapshot) -> (r: AgentCard)
        ensures
            r@ == agent_card_v(card@),
    {
        AgentCard {
            entity_id: card.entity_id,
            card_id: text_or_empty_of(&card.card_id),
            name: match &card.name {
                Some(n) => n.clone(),
                None => match &card.card_id {
                    Some(i) => i.clone(),
                    None => string_of(&chars_of("unknown")),
                },
            },
            attack: card.attack,
            health: match card.remaining_health {
                Some(h) => Some(h),
                None => card.health,
            },
            tavern_tier: card.tavern_tier,
            is_golden: card.is_golden,
            tribes: clone_strings(&card.tribes),
            text: text_or_empty_of(&card.text),
            mechanics: clone_strings(&card.mechanics),
        }
    }
}

fn agent_cards(cards: &Vec<CardSnapshot>) -> (r: Vec<AgentCard>)
    ensures
        agent_cards_view(r@) == crate::harness::state::snapshot::cards_view(cards@).map_values(
            |c: CardSnapshotV| agent_card_v(c),
        ),
{
    let ghost target = crate::harness::state::snapshot::cards_view(cards@).map_values(
        |c: CardSnapshotV| agent_card_v(c),
    );
    let mut r: Vec<AgentCard> = Vec::new();
    let mut i: usize = 0;
    while i < cards.len()
        invariant
            i <= cards@.len(),
            target == crate::harness::state::snapshot::cards_view(cards@).map_values(
                |c: CardSnapshotV| agent_card_v(c),
            ),
            agent_cards_view(r@) == target.take(i as int),
        decreases cards@.len() - i,
    {
        let ghost before = agent_cards_view(r@);
        let c = AgentCard::from_snapshot(&cards[i]);
        r.push(c);
        assert(agent_cards_view(r@) =~= before.push(target[i as int]));
        assert(target.take(i + 1) =~= target.take(i as int).push(target[i as int]));
        i += 1;
    }
    assert(target.take(i as int) =~= target);
    r
}

/// Compact, stable context passed to the strategic planner. It contains only
/// projected harness facts; the agent never reads the entity store or the
/// Power.log directly.
#[derive(Debug, Clone)]
pub struct AgentSnapshot {
    pub round_number: u32,
    pub phase: String,
    pub hero_effective_health: Option<i32>,
    pub gold: Option<i32>,
    pub tavern_tier: Option<u8>,
    pub refresh_cost: Option<i32>,
    pub upgrade_cost: Option<i32>,
    pub next_opponent_player_id: Option<i32>,
    pub available_tribes: Vec<String>,
    pub board: Vec<AgentCard>,
    pub hand: Vec<AgentCard>,
    pub shop: Vec<AgentCard>,
    pub trinkets: Vec<AgentCard>,
    pub opponent_board: Vec<AgentCard>,
}

/// Number of times `t` occurs in `names`.
pub open spec fn occurrences(names: Seq<Seq<char>>, t: Seq<char>) -> int
    decreases names.len(),
{
    if names.len() == 0 {
        0
    } else {
        occurrences(names.drop_last(), t) + if names.last() == t {
            1int
        } else {
            0int
        }
    }
}

/// Number of times `t` is named among the tribes of `cards`.
pub open spec fn tribe_count(cards: Seq<AgentCardV>, t: Seq<char>) -> int
    decreases cards.len(),
{
    if cards.len() == 0 {
        0
    } else {
        tribe_count(cards.drop_last(), t) + occurrences(cards.last().tribes, t)
    }
}

/// Whether `t` is the board's dominant tribe: named most often, ties going
/// to the tribe that sorts last.
pub open spec fn is_dominant(cards: Seq<AgentCardV>, t: Seq<char>) -> bool {
    &&& tribe_count(cards, t) > 0
    &&& forall|u: Seq<char>|
        tribe_count(cards, u) > 0 && u != t ==> tribe_count(cards, u) < tribe_count(cards, t) || (
        tribe_count(cards, u) == tribe_count(cards, t) && lex_lt(u, t))
}

pub open spec fn any_tribe(cards: Seq<AgentCardV>) -> bool {
    exists|t: Seq<char>| tribe_count(cards, t) > 0
}

/// The CardIds of `cards` that are not empty.
pub open spec fn owned_ids_v(cards: Seq<AgentCardV>) -> Set<Seq<char>> {
    Set::new(|id: Seq<char>| id.len() > 0 && exists|i: int| 0 <= i < cards.len() && cards[i].card_id == id)
}

/// Number of tribe names on the cards, repeats included.
pub open spec fn tribe_mentions(cards: Seq<AgentCardV>) -> int
    decreases cards.len(),
{
    if cards.len() == 0 {
        0
    } else {
        tribe_mentions(cards.drop_last()) + cards.last().tribes.len()
    }
}

proof fn lemma_mentions_prefix(cards: Seq<AgentCardV>, i: int)
    requires
        0 <= i <= cards.len(),
    ensures
        tribe_mentions(cards.take(i)) <= tribe_mentions(cards),
    decreases cards.len(),
{
    if i == cards.len() {
        assert(cards.take(i) =~= cards);
    } else {
        lemma_mentions_prefix(cards.drop_last(), i);
        assert(cards.drop_last().take(i) =~= cards.take(i));
    }
}

proof fn lemma_count_le_mentions(cards: Seq<AgentCardV>, t: Seq<char>)
    ensures
        tribe_count(cards, t) <= tribe_mentions(cards),
    decreases cards.len(),
{
    if cards.len() > 0 {
        lemma_count_le_mentions(cards.drop_last(), t);
        lemma_count_in_seq(cards.last().tribes, t);
    }
}

proof fn lemma_count_nonneg(cards: Seq<AgentCardV>, t: Seq<char>)
    ensures
        tribe_count(cards, t) >= 0,
    decreases cards.len(),
{
    if cards.len() > 0 {
        lemma_count_nonneg(cards.drop_last(), t);
        lemma_count_in_seq(cards.last().tribes, t);
    }
}

proof fn lemma_count_in_seq(tribes: Seq<Seq<char>>, t: Seq<char>)
    ensures
        occurrences(tribes, t) > 0 <==> tribes.contains(t),
        0 <= occurrences(tribes, t) <= tribes.len(),
    decreases tribes.len(),
{
    if tribes.len() > 0 {
        lemma_count_in_seq(tribes.drop_last(), t);
        if tribes.drop_last().contains(t) {
            let k = choose|k: int| 0 <= k < tribes.drop_last().len() && tribes.drop_last()[k] == t;
            assert(tribes[k] == t);
        }
        if tribes.contains(t) && tribes.last() != t {
            let k = choose|k: int| 0 <= k < tribes.len() && tribes[k] == t;
            assert(tribes.drop_last()[k] == t);
        }
    }
}

fn count_in(tribes: &Vec<String>, t: &Vec<char>) -> (r: usize)
    ensures
        r == occurrences(strs_view(tribes@), t@),
{
    let ghost s = strs_view(tribes@);
    let mut n: usize = 0;
    let mut i: usize = 0;
    while i < tribes.len()
        invariant
            i <= tribes@.len(),
            s == strs_view(tribes@),
            n == occurrences(s.take(i as int), t@),
            n <= i,
        decreases tribes@.len() - i,
    {
        proof {
            assert(s.take(i + 1).drop_last() =~= s.take(i as int));
            lemma_count_in_seq(s.take(i as int), t@);
        }
        if chars_eq(&chars_of(tribes[i].as_str()), t) {
            n += 1;
        }
        i += 1;
    }
    assert(s.take(i as int) =~= s);
    n
}

/// Adds card `k` of `all` to the owned set `r`.
fn add_owned(r: &mut Vec<String>, card: &AgentCard, Ghost(all): Ghost<Seq<AgentCardV>>, Ghost(k): Ghost<int>)
    requires
        0 <= k < all.len(),
        all[k] == card@,
        strictly_sorted(strs_view(old(r)@)),
        forall|id: Seq<char>| strs_view(old(r)@).to_set().contains(id) <==> (id.len() > 0 && exists|m: int|
            0 <= m < k && all[m].card_id == id),
    ensures
        strictly_sorted(strs_view(final(r)@)),
        forall|id: Seq<char>| strs_view(final(r)@).to_set().contains(id) <==> (id.len() > 0 && exists|m: int|
            0 <= m < k + 1 && all[m].card_id == id),
{
    let ghost before = strs_view(r@).to_set();
    if chars_of(card.card_id.as_str()).len() > 0 {
        set_insert(r, card.card_id.clone());
    }
    proof {
        assert forall|id: Seq<char>| strs_view(r@).to_set().contains(id) <==> (id.len() > 0 && exists|m: int|
            0 <= m < k + 1 && all[m].card_id == id) by {
            if id.len() > 0 && exists|m: int| 0 <= m < k + 1 && all[m].card_id == id {
                let m = choose|m: int| 0 <= m < k + 1 && all[m].card_id == id;
                if m < k {
                    assert(before.contains(id));
                }
            }
        }
    }
}

impl AgentSnapshot {
    pub open spec fn board_v(&self) -> Seq<AgentCardV> {
        agent_cards_view(self.board@)
    }

    /// The tribe named most often on the board; ties go to the tribe that
    /// sorts last. `None` when no board card names a tribe.
    pub fn dominant_tribe(&self) -> (r: Option<String>)
        requires
            tribe_mentions(self.board_v()) <= usize::MAX,
        ensures
            match r {
                Some(t) => is_dominant(self.board_v(), t@),
                None => !any_tribe(self.board_v()),
            },
    {
        let ghost cards = self.board_v();
        // Every tribe named on the board, sorted and distinct.
        let mut names: Vec<String> = Vec::new();
        assert(strs_view(names@).to_set() =~= Set::<Seq<char>>::empty());
        let mut i: usize = 0;
        while i < self.board.len()
            invariant
                i <= self.board@.len(),
                cards == self.board_v(),
                strictly_sorted(strs_view(names@)),
                forall|t: Seq<char>| strs_view(names@).to_set().contains(t) <==> tribe_count(cards.take(i as int), t) > 0,
            decreases self.board@.len() - i,
        {
            let card = &self.board[i];
            let ghost before = strs_view(names@).to_set();
            let mut j: usize = 0;
            while j < card.tribes.len()
                invariant
                    j <= card.tribes@.len(),
                    strictly_sorted(strs_view(names@)),
                    forall|t: Seq<char>| strs_view(names@).to_set().contains(t) <==> before.contains(t)
                        || strs_view(card.tribes@).take(j as int).contains(t),
                decreases card.tribes@.len() - j,
            {
                let ghost b2 = strs_view(names@).to_set();
                set_insert(&mut names, card.tribes[j].clone());
                proof {
                    let x = card.tribes@[j as int]@;
                    let tk = strs_view(card.tribes@).take(j as int);
                    let tj = strs_view(card.tribes@).take(j + 1);
                    assert(tj =~= tk.push(x));
                    assert forall|t: Seq<char>| tj.contains(t) == (tk.contains(t) || t == x) by {
                        if tj.contains(t) {
                            let k = choose|k: int| 0 <= k < tj.len() && tj[k] == t;
                            if k < j {
                                assert(tk[k] == t);
                            }
                        }
                        if tk.contains(t) {
                            let k = choose|k: int| 0 <= k < tk.len() && tk[k] == t;
                            assert(tj[k] == t);
                        }
                        if t == x {
                            assert(tj[j as int] == t);
                        }
                    }
                    assert forall|t: Seq<char>| strs_view(names@).to_set().contains(t) <==> before.contains(t)
                        || tj.contains(t) by {
                        assert(strs_view(names@).to_set().contains(t) == (b2.contains(t) || t == x));
                    }
                }
                j += 1;
            }
            proof {
                assert(strs_view(card.tribes@).take(j as int) =~= strs_view(card.tribes@));
                let t1 = cards.take(i + 1);
                assert(t1.drop_last() =~= cards.take(i as int));
                assert(t1.last() == card@);
                assert forall|t: Seq<char>| strs_view(names@).to_set().contains(t) <==> tribe_count(t1, t) > 0 by {
                    lemma_count_in_seq(strs_view(card.tribes@), t);
                    lemma_count_nonneg(cards.take(i as int), t);
                    assert(tribe_count(t1, t) == tribe_count(cards.take(i as int), t) + occurrences(strs_view(card.tribes@), t));
                    assert(before.contains(t) <==> tribe_count(cards.take(i as int), t) > 0);
                }
            }
            i += 1;
        }
        assert(cards.take(i as int) =~= cards);
        if names.len() == 0 {
            proof {
                assert forall|t: Seq<char>| !(tribe_count(cards, t) > 0) by {
                    assert(!strs_view(names@).to_set().contains(t));
                }
            }
            return None;
        }
        // The last name with the largest count wins.
        let mut best: usize = 0;
        let mut best_count: usize = self.total_count(names[0].as_str());
        let mut k: usize = 1;
        while k < names.len()
            invariant
                1 <= k <= names@.len(),
                best < k,
                cards == self.board_v(),
                best_count == tribe_count(cards, names@[best as int]@),
                tribe_mentions(self.board_v()) <= usize::MAX,
                forall|m: int| 0 <= m < k ==> tribe_count(cards, #[trigger] names@[m]@) <= best_count,
                forall|m: int| best < m < k ==> tribe_count(cards, #[trigger] names@[m]@) < best_count,
            decreases names@.len() - k,
        {
            let c = self.total_count(names[k].as_str());
            if c >= best_count {
                best = k;
                best_count = c;
            }
            k += 1;
        }
        proof {
            let t = names@[best as int]@;
            assert(strs_view(names@)[best as int] == t);
            assert(strs_view(names@).to_set().contains(t));
            assert forall|u: Seq<char>|
                tribe_count(cards, u) > 0 && u != t implies tribe_count(cards, u) < tribe_count(cards, t) || (
                tribe_count(cards, u) == tribe_count(cards, t) && lex_lt(u, t)) by {
                assert(strs_view(names@).to_set().contains(u));
                let m = choose|m: int| 0 <= m < strs_view(names@).len() && strs_view(names@)[m] == u;
                assert(names@[m]@ == u);
                if m > best as int {
                } else if m < best as int {
                    assert(lex_lt(strs_view(names@)[m], strs_view(names@)[best as int]));
                }
            }
        }
        Some(names[best].clone())
    }

    fn total_count(&self, t: &str) -> (r: usize)
        requires
            tribe_mentions(self.board_v()) <= usize::MAX,
        ensures
            r == tribe_count(self.board_v(), t@),
    {
        let tc = chars_of(t);
        let ghost cards = self.board_v();
        let mut n: usize = 0;
        let mut i: usize = 0;
        while i < self.board.len()
            invariant
                i <= self.board@.len(),
                cards == self.board_v(),
                tc@ == t@,
                n == tribe_count(cards.take(i as int), t@),
                tribe_mentions(cards) <= usize::MAX,
            decreases self.board@.len() - i,
        {
            let c = count_in(&self.board[i].tribes, &tc);
            proof {
                let t1 = cards.take(i + 1);
                assert(t1.drop_last() =~= cards.take(i as int));
                lemma_count_in_seq(cards[i as int].tribes, t@);
                lemma_count_le_mentions(t1, t@);
                lemma_mentions_prefix(cards, i + 1);
            }
            n = n + c;
            i += 1;
        }
        assert(cards.take(i as int) =~= cards);
        n
    }

    pub open spec fn owned_v(&self) -> Set<Seq<char>> {
        owned_ids_v(agent_cards_view(self.board@) + agent_cards_view(self.hand@))
    }

    /// The distinct non-empty CardIds on the board and in hand, sorted.
    pub fn owned_card_ids(&self) -> (r: Vec<String>)
        ensures
            strictly_sorted(strs_view(r@)),
            strs_view(r@).to_set() == self.owned_v(),
    {
        let ghost all = agent_cards_view(self.board@) + agent_cards_view(self.hand@);
        let mut r: Vec<String> = Vec::new();
        assert(strs_view(r@).to_set() =~= Set::<Seq<char>>::empty());
        let mut i: usize = 0;
        while i < self.board.len()
            invariant
                i <= self.board@.len(),
                all == agent_cards_view(self.board@) + agent_cards_view(self.hand@),
                strictly_sorted(strs_view(r@)),
                forall|id: Seq<char>| strs_view(r@).to_set().contains(id) <==> (id.len() > 0 && exists|k: int|
                    0 <= k < i && all[k].card_id == id),
            decreases self.board@.len() - i,
        {
            add_owned(&mut r, &self.board[i], Ghost(all), Ghost(i as int));
            i += 1;
        }
        let mut j: usize = 0;
        while j < self.hand.len()
            invariant
                j <= self.hand@.len(),
                i == self.board@.len(),
                all == agent_cards_view(self.board@) + agent_cards_view(self.hand@),
                strictly_sorted(strs_view(r@)),
                forall|id: Seq<char>| strs_view(r@).to_set().contains(id) <==> (id.len() > 0 && exists|k: int|
                    0 <= k < i + j && all[k].card_id == id),
            decreases self.hand@.len() - j,
        {
            assert(all[i + j] == self.hand@[j as int]@);
            add_owned(&mut r, &self.hand[j], Ghost(all), Ghost(i + j));
            j += 1;
        }
        assert(strs_view(r@).to_set() =~= self.owned_v());
        r
    }
}

/// The name of a phase, as the agent reports it.
pub open spec fn phase_name(p: PhaseKind) -> Seq<char> {
    match p {
        PhaseKind::Pregame => "Pregame"@,
        PhaseKind::Recruit => "Recruit"@,
        PhaseKind::Combat => "Combat"@,
        PhaseKind::Complete => "Complete"@,
        PhaseKind::Unknown => "Unknown"@,
    }
}

fn phase_name_exec(p: PhaseKind) -> (r: String)
    ensures
        r@ == phase_name(p),
{
    let s = match p {
        PhaseKind::Pregame => "Pregame",
        PhaseKind::Recruit => "Recruit",
        PhaseKind::Combat => "Combat",
        PhaseKind::Complete => "Complete",
        PhaseKind::Unknown => "Unknown",
    };
    string_of(&chars_of(s))
}

pub open spec fn agent_list_v(cards: Seq<CardSnapshotV>) -> Seq<AgentCardV> {
    cards.map_values(|c: CardSnapshotV| agent_card_v(c))
}

/// The effective health of a hero, if known.
pub open spec fn hero_health_v(h: Option<crate::harness::state::snapshot::HeroSnapshotV>) -> Option<i32> {
    match h {
        Some(x) => x.effective_health,
        None => None,
    }
}

impl AgentSnapshot {
    /// The agent's view of a recruit snapshot.
    fn from_recruit(snapshot: RecruitSnapshot, available_tribes: &Vec<String>) -> (r: AgentSnapshot)
        ensures
            r.round_number == snapshot.round_number,
            r.phase@ == "Recruit"@,
            r.hero_effective_health == (match snapshot.hero {
                Some(h) => h.effective_health,
                None => None,
            }),
            r.gold == snapshot.gold,
            r.tavern_tier == snapshot.tavern_tier,
            r.refresh_cost == snapshot.refresh_cost,
            r.upgrade_cost == snapshot.upgrade_cost,
            r.next_opponent_player_id == snapshot.next_opponent_player_id,
            strs_view(r.available_tribes@) == strs_view(available_tribes@),
            agent_cards_view(r.board@) == agent_list_v(crate::harness::state::snapshot::cards_view(snapshot.board@)),
            agent_cards_view(r.hand@) == agent_list_v(crate::harness::state::snapshot::cards_view(snapshot.hand@)),
            agent_cards_view(r.shop@) == agent_list_v(crate::harness::state::snapshot::cards_view(snapshot.shop@)),
            agent_cards_view(r.trinkets@) == agent_list_v(crate::harness::state::snapshot::cards_view(snapshot.trinkets@)),
            r.opponent_board@.len() == 0,
    {
        AgentSnapshot {
            round_number: snapshot.round_number,
            phase: string_of(&chars_of("Recruit")),
            hero_effective_health: match &snapshot.hero {
                Some(h) => h.effective_health,
                None => None,
            },
            gold: snapshot.gold,
            tavern_tier: snapshot.tavern_tier,
            refresh_cost: snapshot.refresh_cost,
            upgrade_cost: snapshot.upgrade_cost,
            next_opponent_player_id: snapshot.next_opponent_player_id,
            available_tribes: clone_strings(available_tribes),
            board: agent_cards(&snapshot.board),
            hand: agent_cards(&snapshot.hand),
            shop: agent_cards(&snapshot.shop),
            trinkets: agent_cards(&snapshot.trinkets),
            opponent_board: Vec::new(),
        }
    }

    /// The agent's view assembled from the runtime's live getters.
    fn fallback(runtime: &HarnessRuntime, available_tribes: &Vec<String>, phase: String) -> (r: AgentSnapshot)
        ensures
            r.round_number == (match runtime.raw_turn_v() {
                Some(t) => crate::harness::runtime::rules::round_of(t),
                None => 0,
            }),
            r.phase@ == phase@,
            r.hero_effective_health == hero_health_v(runtime.proj_v().local_hero_v()),
            r.gold == runtime.proj_v().gold_v(),
            r.tavern_tier == runtime.proj_v().tavern_tier_v(),
            r.upgrade_cost == runtime.proj_v().upgrade_cost_v(),
            r.next_opponent_player_id == runtime.proj_v().next_opponent_v(),
            strs_view(r.available_tribes@) == strs_view(available_tribes@),
            agent_cards_view(r.shop@) == agent_list_v(runtime.stable_shop_v()),
            r.opponent_board@.len() == 0,
    {
        let shop = runtime.stable_shop();
        AgentSnapshot {
            round_number: match runtime.current_round_number() {
                Some(r) => r,
                None => 0,
            },
            phase,
            hero_effective_health: match runtime.current_hero() {
                Some(h) => h.effective_health,
                None => None,
            },
            gold: runtime.current_gold(),
            tavern_tier: runtime.current_tavern_tier(),
            refresh_cost: runtime.current_refresh_cost(),
            upgrade_cost: runtime.current_upgrade_cost(),
            next_opponent_player_id: runtime.next_opponent_player_id(),
            available_tribes: clone_strings(available_tribes),
            board: agent_cards(&runtime.current_board()),
            hand: agent_cards(&runtime.current_hand()),
            shop: agent_cards(&shop),
            trinkets: agent_cards(&runtime.current_trinkets()),
            opponent_board: Vec::new(),
        }
    }

    /// The agent's view of the current phase: a recruit phase's snapshot,
    /// a combat's recruit end with both live boards, else the live getters.
    pub fn capture(runtime: &HarnessRuntime, available_tribes: &Vec<String>) -> (r: AgentSnapshot)
        ensures
            r.phase@ == phase_name(
                crate::harness::runtime::phase_v(runtime.complete_v(), runtime.raw_turn_v(), runtime.active_v()),
            ),
            r.round_number == (match runtime.raw_turn_v() {
                Some(t) => crate::harness::runtime::rules::round_of(t),
                None => 0,
            }),
            strs_view(r.available_tribes@) == strs_view(available_tribes@),
            r.hero_effective_health == hero_health_v(runtime.proj_v().local_hero_v()),
            r.next_opponent_player_id == runtime.proj_v().next_opponent_v(),
            crate::harness::runtime::phase_v(runtime.complete_v(), runtime.raw_turn_v(), runtime.active_v())
                != PhaseKind::Combat ==> r.gold == runtime.proj_v().gold_v() && r.tavern_tier
                == runtime.proj_v().tavern_tier_v() && r.upgrade_cost == runtime.proj_v().upgrade_cost_v()
                && r.opponent_board@.len() == 0,
    {
        let phase = runtime.current_phase_kind();
        match phase {
            PhaseKind::Recruit => match runtime.current_recruit_state() {
                Some(snapshot) => AgentSnapshot::from_recruit(snapshot, available_tribes),
                None => AgentSnapshot::fallback(runtime, available_tribes, string_of(&chars_of("Recruit"))),
            },
            PhaseKind::Combat => {
                let combat = runtime.current_combat_state();
                let round = match runtime.current_round_number() {
                    Some(r) => r,
                    None => 0,
                };
                let recruit_end: Option<RecruitSnapshot> = match runtime.round_archive(round) {
                    Some(archived) => match &archived.recruit {
                        Some(recruit) => Some(recruit.end.clone()),
                        None => None,
                    },
                    None => None,
                };
                let mut out = match recruit_end {
                    Some(snapshot) => AgentSnapshot::from_recruit(snapshot, available_tribes),
                    None => AgentSnapshot::fallback(runtime, available_tribes, string_of(&chars_of("Combat"))),
                };
                out.phase = string_of(&chars_of("Combat"));
                out.round_number = round;
                if let Some(combat) = combat {
                    out.hero_effective_health = match &combat.player.hero {
                        Some(h) => h.effective_health,
                        None => None,
                    };
                    out.board = agent_cards(&combat.player.board);
                    out.opponent_board = agent_cards(&combat.opponent.board);
                    out.next_opponent_player_id = combat.opponent_player_id;
                }
                out
            },
            _ => AgentSnapshot::fallback(runtime, available_tribes, phase_name_exec(phase)),
        }
    }
}

/// A board has at most one dominant tribe.
pub proof fn lemma_dominant_tribe_unique(cards: Seq<AgentCardV>, t: Seq<char>, u: Seq<char>)
    requires
        is_dominant(cards, t),
        is_dominant(cards, u),
    ensures
        t == u,
{
    if t != u {
        assert(tribe_count(cards, u) > 0);
        assert(tribe_count(cards, t) > 0);
        if tribe_count(cards, u) == tribe_count(cards, t) {
            assert(lex_lt(u, t));
            lemma_lex_asym(u, t);
        }
    }
}

/// A fingerprint taken of a snapshot holds the snapshot's own dominant tribe
/// and owned CardIds: whatever `from_snapshot`, `dominant_tribe` and
/// `owned_card_ids` return under their contracts for the same snapshot
/// agree.
pub proof fn lemma_fingerprint_matches_snapshot(
    s: AgentSnapshot,
    f: DecisionFingerprint,
    dominant: Option<String>,
    owned: Vec<String>,
)
    requires
        match f.dominant_tribe {
            Some(t) => is_dominant(s.board_v(), t@),
            None => !any_tribe(s.board_v()),
        },
        strictly_sorted(strs_view(f.owned_card_ids@)),
        f@.owned == s.owned_v(),
        match dominant {
            Some(t) => is_dominant(s.board_v(), t@),
            None => !any_tribe(s.board_v()),
        },
        strictly_sorted(strs_view(owned@)),
        strs_view(owned@).to_set() == s.owned_v(),
    ensures
        opt_view(f.dominant_tribe) == opt_view(dominant),
        strs_view(f.owned_card_ids@) == strs_view(owned@),
{
    lemma_strictly_sorted_unique(strs_view(f.owned_card_ids@), strs_view(owned@));
    match (f.dominant_tribe, dominant) {
        (Some(a), Some(b)) => {
            lemma_dominant_tribe_unique(s.board_v(), a@, b@);
        },
        (Some(a), None) => {
            assert(tribe_count(s.board_v(), a@) > 0);
        },
        (None, Some(b)) => {
            assert(tribe_count(s.board_v(), b@) > 0);
        },
        (None, None) => {},
    }
}

/// Stable facts used to detect whether the slow strategic plan has been
/// invalidated. This is intentionally tiny and deterministic.
#[derive(Debug, Clone)]
pub struct DecisionFingerprint {
    pub effective_health: Option<i32>,
    pub tavern_tier: Option<u8>,
    pub trinket_count: usize,
    pub golden_count: usize,
    pub dominant_tribe: Option<String>,
    /// Sorted, distinct.
    pub owned_card_ids: Vec<String>,
}

pub struct FingerprintV {
    pub effective_health: Option<i32>,
    pub tavern_tier: Option<u8>,
    pub trinket_count: usize,
    pub golden_count: usize,
    pub dominant_tribe: Option<Seq<char>>,
    pub owned: Set<Seq<char>>,
}

impl View for DecisionFingerprint {
    type V = FingerprintV;

    open spec fn view(&self) -> FingerprintV {
        FingerprintV {
            effective_health: self.effective_health,
            tavern_tier: self.tavern_tier,
            trinket_count: self.trinket_count,
            golden_count: self.golden_count,
            dominant_tribe: opt_view(self.dominant_tribe),
            owned: strs_view(self.owned_card_ids@).to_set(),
        }
    }
}

/// Number of golden cards.
pub open spec fn golden_count_v(cards: Seq<AgentCardV>) -> int
    decreases cards.len(),
{
    if cards.len() == 0 {
        0
    } else {
        golden_count_v(cards.drop_last()) + if cards.last().is_golden {
            1int
        } else {
            0int
        }
    }
}

impl DecisionFingerprint {
    pub fn from_snapshot(snapshot: &AgentSnapshot) -> (r: DecisionFingerprint)
        requires
            tribe_mentions(snapshot.board_v()) <= usize::MAX,
            snapshot.board@.len() + snapshot.hand@.len() <= usize::MAX,
        ensures
            r.effective_health == snapshot.hero_effective_health,
            r.tavern_tier == snapshot.tavern_tier,
            r.trinket_count == snapshot.trinkets@.len(),
            r.golden_count == golden_count_v(agent_cards_view(snapshot.board@) + agent_cards_view(snapshot.hand@)),
            match r.dominant_tribe {
                Some(t) => is_dominant(snapshot.board_v(), t@),
                None => !any_tribe(snapshot.board_v()),
            },
            strictly_sorted(strs_view(r.owned_card_ids@)),
            r@.owned == snapshot.owned_v(),
    {
        let ghost all = agent_cards_view(snapshot.board@) + agent_cards_view(snapshot.hand@);
        let mut golden: usize = 0;
        let mut i: usize = 0;
        assert(all.take(0) =~= Seq::<AgentCardV>::empty());
        while i < snapshot.board.len()
            invariant
                i <= snapshot.board@.len(),
                all == agent_cards_view(snapshot.board@) + agent_cards_view(snapshot.hand@),
                golden == golden_count_v(all.take(i as int)),
                golden <= i,
            decreases snapshot.board@.len() - i,
        {
            assert(snapshot.board@[i as int]@ == all[i as int]);
            assert(all.take(i + 1).drop_last() =~= all.take(i as int));
            if snapshot.board[i].is_golden {
                golden += 1;
            }
            i += 1;
        }
        let mut j: usize = 0;
        while j < snapshot.hand.len()
            invariant
                j <= snapshot.hand@.len(),
                i == snapshot.board@.len(),
                snapshot.board@.len() + snapshot.hand@.len() <= usize::MAX,
                all == agent_cards_view(snapshot.board@) + agent_cards_view(snapshot.hand@),
                golden == golden_count_v(all.take(i + j)),
                golden <= i + j,
            decreases snapshot.hand@.len() - j,
        {
            assert(snapshot.hand@[j as int]@ == all[i + j]);
            assert(all.take(i + j + 1).drop_last() =~= all.take(i + j));
            if snapshot.hand[j].is_golden {
                golden += 1;
            }
            j += 1;
        }
        assert(all.take(i + j) =~= all);
        DecisionFingerprint {
            effective_health: snapshot.hero_effective_health,
            tavern_tier: snapshot.tavern_tier,
            trinket_count: snapshot.trinkets.len(),
            golden_count: golden,
            dominant_tribe: snapshot.dominant_tribe(),
            owned_card_ids: snapshot.owned_card_ids(),
        }
    }
}

/// The tavern tier the round's curve expects.
pub open spec fn expected_tier_v(round: u32) -> u8 {
    if round <= 1 {
        1
    } else if round <= 3 {
        2
    } else if round <= 5 {
        3
    } else if round <= 7 {
        4
    } else if round <= 9 {
        5
    } else {
        6
    }
}

/// Conservative tavern curve used only as a local valuation prior. It does
/// not hard-code one meta line; it makes old low-tier cards lose relative
/// value as the lobby reaches later turns.
pub fn expected_tavern_tier(round: u32) -> (r: u8)
    ensures
        r == expected_tier_v(round),
{
    if round <= 1 {
        1
    } else if round <= 3 {
        2
    } else if round <= 5 {
        3
    } else if round <= 7 {
        4
    } else if round <= 9 {
        5
    } else {
        6
    }
}

/// `format!("{:?}", o)` of an optional tier.
pub open spec fn debug_tier(o: Option<u8>) -> Seq<char> {
    match o {
        Some(v) => "Some("@ + nat_text(v as nat) + ")"@,
        None => "None"@,
    }
}


pub fn debug_tier_exec(o: Option<u8>) -> (r: Vec<char>)
    ensures
        r@ == debug_tier(o),
{
    let mut r: Vec<char> = Vec::new();
    match o {
        Some(v) => {
            push_str(&mut r, "Some(");
            let d = u64_text(v as u64);
            push_str(&mut r, string_of(&d).as_str());
            push_str(&mut r, ")");
        },
        None => {
            push_str(&mut r, "None");
        },
    }
    proof {
        if o is None {
            assert(r@ =~= "None"@);
        }
    }
    r
}

pub open spec fn event_v(level: ReplanLevel, code: Seq<char>, detail: Seq<char>) -> ReplanEventV {
    ReplanEventV { level, code, detail }
}

pub open spec fn when(c: bool, e: ReplanEventV) -> Seq<ReplanEventV> {
    if c {
        seq![e]
    } else {
        Seq::empty()
    }
}

/// Events for the core cards that were not owned before and are now.
pub open spec fn core_events(before: Set<Seq<char>>, now: Set<Seq<char>>, core: Seq<Seq<char>>) -> Seq<ReplanEventV>
    decreases core.len(),
{
    if core.len() == 0 {
        Seq::empty()
    } else {
        let c = core.last();
        core_events(before, now, core.drop_last()) + when(
            !before.contains(c) && now.contains(c),
            event_v(ReplanLevel::Strategic, "core_card_acquired"@, "获得阵容核心 "@ + c),
        )
    }
}


proof fn lemma_core_events_same(owned: Set<Seq<char>>, core: Seq<Seq<char>>)
    ensures
        core_events(owned, owned, core) == Seq::<ReplanEventV>::empty(),
    decreases core.len(),
{
    if core.len() > 0 {
        lemma_core_events_same(owned, core.drop_last());
        assert(core_events(owned, owned, core) =~= Seq::<ReplanEventV>::empty());
    }
}

/// Nothing invalidates a plan while the fingerprint stays the same.
pub proof fn lemma_unchanged_fingerprint_no_replan(f: FingerprintV, core: Seq<Seq<char>>, critical: i32, emergency: i32)
    ensures
        replan_v(f, f, core, critical, emergency) == Seq::<ReplanEventV>::empty(),
{
    lemma_core_events_same(f.owned, core);
    assert(replan_v(f, f, core, critical, emergency) =~= Seq::<ReplanEventV>::empty());
}

proof fn lemma_core_codes(before: Set<Seq<char>>, now: Set<Seq<char>>, core: Seq<Seq<char>>)
    ensures
        forall|i: int|
            0 <= i < core_events(before, now, core).len() ==> #[trigger] core_events(before, now, core)[i].code
                == "core_card_acquired"@,
    decreases core.len(),
{
    if core.len() > 0 {
        lemma_core_codes(before, now, core.drop_last());
    }
}

/// A tier change is reported only from a known tier: with no tier before,
/// no event of `replan_v` is a `tavern_tier_changed`.
pub proof fn lemma_no_tier_event_from_unknown_tier(
    b: FingerprintV,
    n: FingerprintV,
    core: Seq<Seq<char>>,
    critical: i32,
    emergency: i32,
)
    requires
        b.tavern_tier is None,
    ensures
        forall|i: int|
            0 <= i < replan_v(b, n, core, critical, emergency).len() ==> #[trigger] replan_v(
                b,
                n,
                core,
                critical,
                emergency,
            )[i].code != "tavern_tier_changed"@,
{
    reveal_strlit("tavern_tier_changed");
    reveal_strlit("trinket_acquired");
    reveal_strlit("triple_completed");
    reveal_strlit("board_direction_shift");
    reveal_strlit("critical_health");
    reveal_strlit("emergency_health");
    reveal_strlit("core_card_acquired");
    lemma_core_codes(b.owned, n.owned, core);
    let t: Seq<char> = "tavern_tier_changed"@;
    assert(t.len() == 19);
    assert("trinket_acquired"@ != t) by {
        assert("trinket_acquired"@.len() != t.len());
    }
    assert("triple_completed"@ != t) by {
        assert("triple_completed"@.len() != t.len());
    }
    assert("board_direction_shift"@ != t) by {
        assert("board_direction_shift"@.len() != t.len());
    }
    assert("critical_health"@ != t) by {
        assert("critical_health"@.len() != t.len());
    }
    assert("emergency_health"@ != t) by {
        assert("emergency_health"@.len() != t.len());
    }
    assert("core_card_acquired"@ != t) by {
        assert("core_card_acquired"@.len() != t.len());
    }
}

/// What invalidates the strategic plan between two fingerprints, in order:
/// a tier change, a new trinket, a new golden card, a shift of the dominant
/// tribe, crossing the critical and the emergency health, and newly owned
/// core cards.
pub open spec fn replan_v(
    b: FingerprintV,
    n: FingerprintV,
    core: Seq<Seq<char>>,
    critical: i32,
    emergency: i32,
) -> Seq<ReplanEventV> {
    let healths = b.effective_health is Some && n.effective_health is Some;
    let old_h = b.effective_health->0;
    let new_h = n.effective_health->0;
    when(
        b.tavern_tier != n.tavern_tier && b.tavern_tier is Some,
        event_v(
            ReplanLevel::Strategic,
            "tavern_tier_changed"@,
            "酒馆等级 "@ + debug_tier(b.tavern_tier) + " → "@ + debug_tier(n.tavern_tier),
        ),
    ) + when(
        n.trinket_count > b.trinket_count,
        event_v(
            ReplanLevel::Strategic,
            "trinket_acquired"@,
            "饰品数量 "@ + nat_text(b.trinket_count as nat) + " → "@ + nat_text(n.trinket_count as nat),
        ),
    ) + when(
        n.golden_count > b.golden_count,
        event_v(
            ReplanLevel::Tactical,
            "triple_completed"@,
            "金色随从数量 "@ + nat_text(b.golden_count as nat) + " → "@ + nat_text(n.golden_count as nat)
                + "，重算本回合行动路线"@,
        ),
    ) + when(
        b.dominant_tribe != n.dominant_tribe && b.dominant_tribe is Some && n.dominant_tribe is Some,
        event_v(
            ReplanLevel::Strategic,
            "board_direction_shift"@,
            "阵容主种族 "@ + debug_text(b.dominant_tribe) + " → "@ + debug_text(n.dominant_tribe),
        ),
    ) + when(
        healths && old_h > critical && new_h <= critical,
        event_v(ReplanLevel::Strategic, "critical_health"@, "有效生命降至 "@ + int_text(new_h as int) + "，进入保命阈值"@),
    ) + when(
        healths && old_h > emergency && new_h <= emergency,
        event_v(
            ReplanLevel::LongTerm,
            "emergency_health"@,
            "有效生命降至 "@ + int_text(new_h as int) + "，长期贪成长策略应停止"@,
        ),
    ) + core_events(b.owned, n.owned, core)
}

pub open spec fn replans_view(v: Seq<ReplanEvent>) -> Seq<ReplanEventV> {
    v.map_values(|e: ReplanEvent| e@)
}


fn push_event(events: &mut Vec<ReplanEvent>, level: ReplanLevel, code: &str, detail: Vec<char>)
    ensures
        replans_view(final(events)@) == replans_view(old(events)@) + seq![event_v(level, code@, detail@)],
{
    let ghost before = replans_view(events@);
    events.push(ReplanEvent::new(level, string_of(&chars_of(code)), string_of(&detail)));
    assert(replans_view(events@) =~= before + seq![event_v(level, code@, detail@)]);
}

/// The replan events between two fingerprints, in the order the rules are
/// checked.
pub fn detect_replan(
    before: &DecisionFingerprint,
    now: &DecisionFingerprint,
    selected_core_cards: &Vec<String>,
    critical_health: i32,
    emergency_health: i32,
) -> (r: Vec<ReplanEvent>)
    ensures
        replans_view(r@) == replan_v(before@, now@, strs_view(selected_core_cards@), critical_health, emergency_health),
{
    let mut events: Vec<ReplanEvent> = Vec::new();
    let ghost e0 = replans_view(events@);
    assert(e0 =~= Seq::<ReplanEventV>::empty());
    if before.tavern_tier != now.tavern_tier && before.tavern_tier.is_some() {
        let mut d: Vec<char> = Vec::new();
        push_str(&mut d, "酒馆等级 ");
        d.append(&mut debug_tier_exec(before.tavern_tier));
        push_str(&mut d, " → ");
        d.append(&mut debug_tier_exec(now.tavern_tier));
        push_event(&mut events, ReplanLevel::Strategic, "tavern_tier_changed", d);
    }
    let ghost e1 = replans_view(events@);
    if now.trinket_count > before.trinket_count {
        let mut d: Vec<char> = Vec::new();
        push_str(&mut d, "饰品数量 ");
        d.append(&mut u64_text(before.trinket_count as u64));
        push_str(&mut d, " → ");
        d.append(&mut u64_text(now.trinket_count as u64));
        push_event(&mut events, ReplanLevel::Strategic, "trinket_acquired", d);
    }
    let ghost e2 = replans_view(events@);
    if now.golden_count > before.golden_count {
        let mut d: Vec<char> = Vec::new();
        push_str(&mut d, "金色随从数量 ");
        d.append(&mut u64_text(before.golden_count as u64));
        push_str(&mut d, " → ");
        d.append(&mut u64_text(now.golden_count as u64));
        push_str(&mut d, "，重算本回合行动路线");
        push_event(&mut events, ReplanLevel::Tactical, "triple_completed", d);
    }
    let ghost e3 = replans_view(events@);
    let same_tribe = match (&before.dominant_tribe, &now.dominant_tribe) {
        (Some(a), Some(b)) => chars_eq(&chars_of(a.as_str()), &chars_of(b.as_str())),
        (None, None) => true,
        _ => false,
    };
    if !same_tribe && before.dominant_tribe.is_some() && now.dominant_tribe.is_some() {
        let mut d: Vec<char> = Vec::new();
        push_str(&mut d, "阵容主种族 ");
        push_str(&mut d, debug_opt_string(&before.dominant_tribe).as_str());
        push_str(&mut d, " → ");
        push_str(&mut d, debug_opt_string(&now.dominant_tribe).as_str());
        push_event(&mut events, ReplanLevel::Strategic, "board_direction_shift", d);
    }
    let ghost e4 = replans_view(events@);
    if let (Some(old_h), Some(new_h)) = (before.effective_health, now.effective_health) {
        if old_h > critical_health && new_h <= critical_health {
            let mut d: Vec<char> = Vec::new();
            push_str(&mut d, "有效生命降至 ");
            push_str(&mut d, i64_text(new_h as i64).as_str());
            push_str(&mut d, "，进入保命阈值");
            push_event(&mut events, ReplanLevel::Strategic, "critical_health", d);
        }
    }
    let ghost e5 = replans_view(events@);
    if let (Some(old_h), Some(new_h)) = (before.effective_health, now.effective_health) {
        if old_h > emergency_health && new_h <= emergency_health {
            let mut d: Vec<char> = Vec::new();
            push_str(&mut d, "有效生命降至 ");
            push_str(&mut d, i64_text(new_h as i64).as_str());
            push_str(&mut d, "，长期贪成长策略应停止");
            push_event(&mut events, ReplanLevel::LongTerm, "emergency_health", d);
        }
    }
    let ghost e6 = replans_view(events@);
    let ghost core = strs_view(selected_core_cards@);
    let mut i: usize = 0;
    assert(core.take(0) =~= Seq::<Seq<char>>::empty());
    assert(e6 + core_events(before@.owned, now@.owned, core.take(0)) =~= e6);
    while i < selected_core_cards.len()
        invariant
            i <= selected_core_cards@.len(),
            core == strs_view(selected_core_cards@),
            replans_view(events@) == e6 + core_events(before@.owned, now@.owned, core.take(i as int)),
        decreases selected_core_cards@.len() - i,
    {
        let card_id = &selected_core_cards[i];
        assert(core.take(i + 1).drop_last() =~= core.take(i as int));
        assert(core.take(i + 1).last() == card_id@);
        if !strs_contain(&before.owned_card_ids, card_id) && strs_contain(&now.owned_card_ids, card_id) {
            let mut d: Vec<char> = Vec::new();
            push_str(&mut d, "获得阵容核心 ");
            push_str(&mut d, card_id.as_str());
            push_event(&mut events, ReplanLevel::Strategic, "core_card_acquired", d);
        }
        i += 1;
    }
    assert(core.take(i as int) =~= core);
    proof {
        assert(opt_view(before.dominant_tribe) != opt_view(now.dominant_tribe) <==> !same_tribe);
    }
    events
}

/// What a shop card costs to buy: a Battlegrounds spell costs its static
/// cost (at least zero, one when unknown), anything else three gold.
pub open spec fn purchase_cost_v(catalog: &CardCatalog, card_id: Seq<char>) -> int {
    let r = catalog.spec_resolve(card_id);
    let t = match r {
        Some(x) => x.card_type(),
        None => None,
    };
    if t == Some("BATTLEGROUND_SPELL"@) {
        let c = match r {
            Some(x) => x.cost(),
            None => None,
        };
        match c {
            Some(v) => if v > 0 {
                v as int
            } else {
                0
            },
            None => 1,
        }
    } else {
        3
    }
}

pub fn purchase_cost(card: &AgentCard, catalog: &CardCatalog) -> (r: i32)
    ensures
        r == purchase_cost_v(catalog, card.card_id@),
{
    let resolved = catalog.resolve(card.card_id.as_str());
    let is_spell = match resolved {
        Some(meta) => match meta.card_type() {
            Some(t) => chars_eq(&chars_of(t), &chars_of("BATTLEGROUND_SPELL")),
            None => false,
        },
        None => false,
    };
    if is_spell {
        let cost = match resolved {
            Some(meta) => meta.cost(),
            None => None,
        };
        match cost {
            Some(v) => if v > 0 {
                v
            } else {
                0
            },
            None => 1,
        }
    } else {
        3
    }
}


/// How hard the hero's health presses the local safety plan.
#[derive(Debug, Clone, Copy, PartialEq, Eq, Structural)]
pub enum HealthPressure {
    /// Effective health 8 or less.
    Emergency,
    /// Effective health 9 to 15.
    Critical,
    /// Healthier, or health unknown (taken as 30).
    Stable,
}

pub open spec fn pressure_v(effective_health: Option<i32>) -> HealthPressure {
    let hp = match effective_health {
        Some(h) => h as int,
        None => 30,
    };
    if hp <= 8 {
        HealthPressure::Emergency
    } else if hp <= 15 {
        HealthPressure::Critical
    } else {
        HealthPressure::Stable
    }
}

pub open spec fn fallback_goal_v(p: HealthPressure) -> Seq<char> {
    match p {
        HealthPressure::Emergency => "优先补即时战力，停止贪成长"@,
        HealthPressure::Critical => "稳住场面，同时只拿高确定性的体系组件"@,
        HealthPressure::Stable => "提高体系协同并为中长期成长留资源"@,
    }
}

pub open spec fn fallback_rerolls_v(p: HealthPressure) -> u8 {
    match p {
        HealthPressure::Emergency => 5,
        HealthPressure::Critical => 4,
        HealthPressure::Stable => 3,
    }
}

/// Pressure delays upgrades; a stable hero below the tier curve of the target
/// round prefers them.
pub open spec fn fallback_posture_v(p: HealthPressure, tavern_tier: Option<u8>, target_round: u32) -> UpgradePosture {
    let tier = match tavern_tier {
        Some(t) => t,
        None => 1u8,
    };
    match p {
        HealthPressure::Stable => if tier < expected_tier_v(target_round) {
            UpgradePosture::Prefer
        } else {
            UpgradePosture::Neutral
        },
        _ => UpgradePosture::Delay,
    }
}

pub open spec fn posture_reason_v(p: UpgradePosture) -> Seq<char> {
    match p {
        UpgradePosture::Prefer => "低于回合等级曲线，优先考虑升本"@,
        UpgradePosture::Neutral => "跟随本地升本曲线与商店机会成本"@,
        UpgradePosture::Delay => "当前生命压力下延后升本"@,
    }
}

/// The parts of the deterministic safety plan that do not depend on decision
/// weights; the weights and the trinket priorities follow from `pressure`.
pub struct FallbackOutline {
    pub target_round: u32,
    pub pressure: HealthPressure,
    pub primary_goal: String,
    pub secondary_goals: Vec<String>,
    /// The board's dominant tribe, if any.
    pub direction: Vec<String>,
    pub economy: EconomyPolicy,
    pub tier_policy: TierPolicy,
    pub replan_conditions: Vec<String>,
    pub explanation: String,
}

fn owned(s: &str) -> (r: String)
    ensures
        r@ == s@,
{
    string_of(&chars_of(s))
}

/// The safety plan used when the planner is unavailable, so that the live
/// executor never stops for want of a plan.
pub fn fallback_plan_outline(snapshot: &AgentSnapshot, target_round: u32) -> (r: FallbackOutline)
    requires
        tribe_mentions(snapshot.board_v()) <= usize::MAX,
    ensures
        r.target_round == target_round,
        r.pressure == pressure_v(snapshot.hero_effective_health),
        r.primary_goal@ == fallback_goal_v(r.pressure),
        strs_view(r.secondary_goals@) == seq!["优先完成确定收益动作，再考虑刷新"@],
        r.direction@.len() <= 1,
        r.direction@.len() == 1 <==> any_tribe(snapshot.board_v()),
        r.direction@.len() == 1 ==> is_dominant(snapshot.board_v(), r.direction@[0]@),
        r.economy.max_rerolls == fallback_rerolls_v(r.pressure),
        r.economy.gold_reserve == 0,
        r.economy.reason@ == "本地安全计划按生命压力设置刷新预算"@,
        r.tier_policy.posture == fallback_posture_v(r.pressure, snapshot.tavern_tier, target_round),
        r.tier_policy.target_tier == Some(expected_tier_v(target_round)),
        r.tier_policy.reason@ == posture_reason_v(r.tier_policy.posture),
        strs_view(r.replan_conditions@) == seq![
            "获得体系核心"@,
            "酒馆等级变化"@,
            "饰品选择完成"@,
            "生命进入危险阈值"@,
        ],
        r.explanation@ == "DeepSeek 不可用时的确定性兜底计划"@,
{
    let hp: i32 = match snapshot.hero_effective_health {
        Some(h) => h,
        None => 30,
    };
    let pressure = if hp <= 8 {
        HealthPressure::Emergency
    } else if hp <= 15 {
        HealthPressure::Critical
    } else {
        HealthPressure::Stable
    };
    let expected = expected_tavern_tier(target_round);
    let (goal, rerolls, posture) = match pressure {
        HealthPressure::Emergency => (owned("优先补即时战力，停止贪成长"), 5u8, UpgradePosture::Delay),
        HealthPressure::Critical => (owned("稳住场面，同时只拿高确定性的体系组件"), 4u8, UpgradePosture::Delay),
        HealthPressure::Stable => {
            let tier: u8 = match snapshot.tavern_tier {
                Some(t) => t,
                None => 1,
            };
            let posture = if tier < expected {
                UpgradePosture::Prefer
            } else {
                UpgradePosture::Neutral
            };
            (owned("提高体系协同并为中长期成长留资源"), 3u8, posture)
        },
    };
    let mut direction: Vec<String> = Vec::new();
    match snapshot.dominant_tribe() {
        Some(t) => direction.push(t),
        None => {},
    }
    let mut secondary: Vec<String> = Vec::new();
    secondary.push(owned("优先完成确定收益动作，再考虑刷新"));
    let reason = match posture {
        UpgradePosture::Prefer => owned("低于回合等级曲线，优先考虑升本"),
        UpgradePosture::Neutral => owned("跟随本地升本曲线与商店机会成本"),
        UpgradePosture::Delay => owned("当前生命压力下延后升本"),
    };
    let mut conditions: Vec<String> = Vec::new();
    conditions.push(owned("获得体系核心"));
    conditions.push(owned("酒馆等级变化"));
    conditions.push(owned("饰品选择完成"));
    conditions.push(owned("生命进入危险阈值"));
    assert(strs_view(secondary@) =~= seq!["优先完成确定收益动作，再考虑刷新"@]);
    assert(strs_view(conditions@) =~= seq!["获得体系核心"@, "酒馆等级变化"@, "饰品选择完成"@, "生命进入危险阈值"@]);
    FallbackOutline {
        target_round,
        pressure,
        primary_goal: goal,
        secondary_goals: secondary,
        direction,
        economy: EconomyPolicy {
            max_rerolls: rerolls,
            gold_reserve: 0,
            reason: owned("本地安全计划按生命压力设置刷新预算"),
        },
        tier_policy: TierPolicy { posture, target_tier: Some(expected), reason },
        replan_conditions: conditions,
        explanation: owned("DeepSeek 不可用时的确定性兜底计划"),
    }
}

} // verus!
