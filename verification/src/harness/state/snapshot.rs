//! Read-only projections of the entity store into card, hero and lobby
//! snapshots.

use vstd::prelude::*;

use crate::harness::card_catalog::{
    normalize_tribe_chars, opt_str_view, spec_normalize_tribe, CardCatalog, ResolvedCardMeta,
    ResolvedV,
};
use crate::harness::power::event::{clone_opt_string, opt_view, TagValue, TagValueV};
use crate::harness::state::entity_store::{opt_str, tag_int, tag_sym, to_i32, Entity, EntityV};
use crate::text::{
    chars_eq, chars_of, i64_text, int_text, ends_with, ends_with_exec, eq_ignore_ascii_case, eq_ignore_case,
    set_insert, starts_with, starts_with_exec, strictly_sorted, string_of, strip_prefix_chars,
    strs_view, trim, trim_chars, upper, upper_chars, upper_seq,
};

verus! {

/// A tag's integer value, when it fits an `i32`.
pub open spec fn i32_tag_v(e: EntityV, tag: Seq<char>) -> Option<i32> {
    to_i32(tag_int(e.tags, tag))
}

/// A tag that holds a nonzero integer.
pub open spec fn truthy_v(e: EntityV, tag: Seq<char>) -> bool {
    match tag_int(e.tags, tag) {
        Some(v) => v != 0,
        None => false,
    }
}

pub fn i32_tag(entity: &Entity, tag: &str) -> (r: Option<i32>)
    ensures
        r == i32_tag_v(entity@, tag@),
{
    match entity.tag_i64(tag) {
        Some(v) => if i32::MIN as i64 <= v && v <= i32::MAX as i64 {
            Some(v as i32)
        } else {
            None
        },
        None => None,
    }
}

pub fn truthy(entity: &Entity, tag: &str) -> (r: bool)
    ensures
        r == truthy_v(entity@, tag@),
{
    match entity.tag_i64(tag) {
        Some(v) => v != 0,
        None => false,
    }
}

/// What the catalog knows of an entity's CardId, if there is a catalog.
pub open spec fn resolved_v(card_id: Option<Seq<char>>, catalog: Option<&CardCatalog>) -> Option<ResolvedV> {
    match card_id {
        Some(id) => match catalog {
            Some(c) => c.spec_resolve(id),
            None => None,
        },
        None => None,
    }
}

pub open spec fn opt_res(r: Option<ResolvedCardMeta>) -> Option<ResolvedV> {
    match r {
        Some(m) => Some(m@),
        None => None,
    }
}

pub fn resolve_opt<'a>(card_id: &Option<String>, catalog: Option<&'a CardCatalog>) -> (r: Option<ResolvedCardMeta<'a>>)
    ensures
        opt_res(r) == resolved_v(opt_view(*card_id), catalog),
{
    match card_id {
        Some(id) => match catalog {
            Some(c) => c.resolve(id.as_str()),
            None => None,
        },
        None => None,
    }
}

pub open spec fn r_name(r: Option<ResolvedV>) -> Option<Seq<char>> {
    match r {
        Some(x) => x.name(),
        None => None,
    }
}

pub open spec fn r_text(r: Option<ResolvedV>) -> Option<Seq<char>> {
    match r {
        Some(x) => x.text(),
        None => None,
    }
}

pub open spec fn r_card_type(r: Option<ResolvedV>) -> Option<Seq<char>> {
    match r {
        Some(x) => x.card_type(),
        None => None,
    }
}

pub open spec fn r_attack(r: Option<ResolvedV>) -> Option<i32> {
    match r {
        Some(x) => x.attack(),
        None => None,
    }
}

pub open spec fn r_health(r: Option<ResolvedV>) -> Option<i32> {
    match r {
        Some(x) => x.health(),
        None => None,
    }
}

pub open spec fn r_cost(r: Option<ResolvedV>) -> Option<i32> {
    match r {
        Some(x) => x.cost(),
        None => None,
    }
}

pub open spec fn r_tier(r: Option<ResolvedV>) -> Option<u8> {
    match r {
        Some(x) => x.tavern_tier(),
        None => None,
    }
}

pub open spec fn r_premium(r: Option<ResolvedV>) -> bool {
    match r {
        Some(x) => x.premium(),
        None => false,
    }
}

pub open spec fn r_activate(r: Option<ResolvedV>) -> bool {
    match r {
        Some(x) => x.activate_keyword(),
        None => false,
    }
}

pub open spec fn r_mechanics(r: Option<ResolvedV>) -> Set<Seq<char>> {
    match r {
        Some(x) => x.mechanic_set(),
        None => Set::empty(),
    }
}

pub open spec fn r_tribes(r: Option<ResolvedV>) -> Set<Seq<char>> {
    match r {
        Some(x) => x.tribe_set(),
        None => Set::empty(),
    }
}

pub open spec fn first_of<T>(a: Option<T>, b: Option<T>) -> Option<T> {
    if a is Some {
        a
    } else {
        b
    }
}

/// An entity name worth showing: trimmed, and not a placeholder such as
/// `unknown` or `UNKNOWN ENTITY [...]`.
pub open spec fn trustworthy_name_v(name: Option<Seq<char>>) -> Option<Seq<char>> {
    match name {
        Some(n) => {
            let t = trim(n);
            if t.len() == 0 || eq_ignore_case(t, "unknown"@) || starts_with(upper_seq(t), "UNKNOWN ENTITY"@) {
                None
            } else {
                Some(t)
            }
        },
        None => None,
    }
}

pub fn trustworthy_entity_name(name: &Option<String>) -> (r: Option<String>)
    ensures
        opt_view(r) == trustworthy_name_v(opt_view(*name)),
{
    match name {
        Some(n) => {
            let t = trim_chars(&chars_of(n.as_str()));
            if t.len() == 0 || eq_ignore_ascii_case(&t, &chars_of("unknown")) || starts_with_exec(
                &upper_chars(&t),
                &chars_of("UNKNOWN ENTITY"),
            ) {
                None
            } else {
                Some(string_of(&t))
            }
        },
        None => None,
    }
}

pub open spec fn is_alnum(c: char) -> bool {
    ('0' <= c <= '9') || ('a' <= c <= 'z') || ('A' <= c <= 'Z')
}

/// A mechanic's name reduced to its ASCII letters and digits, upper-cased.
pub open spec fn mechanic_key(s: Seq<char>) -> Seq<char>
    decreases s.len(),
{
    if s.len() == 0 {
        Seq::empty()
    } else {
        let p = mechanic_key(s.drop_last());
        if is_alnum(s.last()) {
            p.push(upper(s.last()))
        } else {
            p
        }
    }
}

pub fn mechanic_key_exec(s: &str) -> (r: Vec<char>)
    ensures
        r@ == mechanic_key(s@),
{
    let v = chars_of(s);
    let mut r: Vec<char> = Vec::new();
    let mut i: usize = 0;
    while i < v.len()
        invariant
            i <= v.len(),
            v@ == s@,
            r@ == mechanic_key(v@.take(i as int)),
        decreases v.len() - i,
    {
        let c = v[i];
        assert(v@.take(i + 1).drop_last() == v@.take(i as int));
        if ('0' <= c && c <= '9') || ('a' <= c && c <= 'z') || ('A' <= c && c <= 'Z') {
            r.push(crate::text::to_upper(c));
        }
        i += 1;
    }
    assert(v@.take(v.len() as int) == v@);
    r
}

/// Whether a set of mechanics names `wanted`, ignoring case, spaces and
/// punctuation.
pub open spec fn has_mechanic_v(mechanics: Set<Seq<char>>, wanted: Seq<char>) -> bool {
    exists|m: Seq<char>| mechanics.contains(m) && mechanic_key(m) == mechanic_key(wanted)
}

pub fn has_mechanic(mechanics: &Vec<String>, wanted: &str) -> (r: bool)
    ensures
        r == has_mechanic_v(strs_view(mechanics@).to_set(), wanted@),
{
    let w = mechanic_key_exec(wanted);
    let mut i: usize = 0;
    while i < mechanics.len()
        invariant
            i <= mechanics.len(),
            w@ == mechanic_key(wanted@),
            forall|j: int| 0 <= j < i ==> mechanic_key(#[trigger] mechanics@[j]@) != w@,
        decreases mechanics.len() - i,
    {
        let k = mechanic_key_exec(mechanics[i].as_str());
        if chars_eq(&k, &w) {
            proof {
                let m = mechanics@[i as int]@;
                assert(strs_view(mechanics@)[i as int] == m);
                assert(strs_view(mechanics@).to_set().contains(m));
            }
            return true;
        }
        i += 1;
    }
    proof {
        assert forall|m: Seq<char>| #[trigger] strs_view(mechanics@).to_set().contains(m) implies mechanic_key(m)
            != mechanic_key(wanted@) by {
            let j = choose|j: int| 0 <= j < strs_view(mechanics@).len() && strs_view(mechanics@)[j] == m;
            assert(mechanics@[j]@ == m);
        }
    }
    false
}

/// Live keyword flags of a card, from its tags and static mechanics.
#[derive(Debug, Clone, Copy, PartialEq, Eq, Structural)]
pub struct CardKeywords {
    pub taunt: bool,
    pub divine_shield: bool,
    pub reborn: bool,
    pub poisonous: bool,
    pub venomous: bool,
    pub windfury: bool,
    pub mega_windfury: bool,
    pub stealth: bool,
    pub battlecry: bool,
    pub deathrattle: bool,
    pub avenge: bool,
    pub rally: bool,
    pub end_of_turn: bool,
    pub start_of_combat: bool,
    pub choose_one: bool,
    pub modular: bool,
    pub magnetic: bool,
    /// Static CardDefs keyword: the card has an Activate mechanic.
    pub activate_keyword: bool,
    /// Live entity state: the Activate action is currently usable.
    pub activate_available_now: bool,
}

pub open spec fn no_keywords() -> CardKeywords {
    CardKeywords {
        taunt: false,
        divine_shield: false,
        reborn: false,
        poisonous: false,
        venomous: false,
        windfury: false,
        mega_windfury: false,
        stealth: false,
        battlecry: false,
        deathrattle: false,
        avenge: false,
        rally: false,
        end_of_turn: false,
        start_of_combat: false,
        choose_one: false,
        modular: false,
        magnetic: false,
        activate_keyword: false,
        activate_available_now: false,
    }
}

impl Default for CardKeywords {
    fn default() -> (r: CardKeywords)
        ensures
            r == no_keywords(),
    {
        CardKeywords {
            taunt: false,
            divine_shield: false,
            reborn: false,
            poisonous: false,
            venomous: false,
            windfury: false,
            mega_windfury: false,
            stealth: false,
            battlecry: false,
            deathrattle: false,
            avenge: false,
            rally: false,
            end_of_turn: false,
            start_of_combat: false,
            choose_one: false,
            modular: false,
            magnetic: false,
            activate_keyword: false,
            activate_available_now: false,
        }
    }
}

/// Keyword flags of an entity: a nonzero tag, or the named static mechanic.
pub open spec fn keywords_v(e: EntityV, r: Option<ResolvedV>) -> CardKeywords {
    let m = r_mechanics(r);
    CardKeywords {
        taunt: truthy_v(e, "TAUNT"@) || has_mechanic_v(m, "Taunt"@),
        divine_shield: truthy_v(e, "DIVINE_SHIELD"@) || has_mechanic_v(m, "Divine Shield"@),
        reborn: truthy_v(e, "REBORN"@) || has_mechanic_v(m, "Reborn"@),
        poisonous: truthy_v(e, "POISONOUS"@) || has_mechanic_v(m, "Poisonous"@),
        venomous: truthy_v(e, "VENOMOUS"@) || has_mechanic_v(m, "Venomous"@),
        windfury: truthy_v(e, "WINDFURY"@) || has_mechanic_v(m, "Windfury"@),
        mega_windfury: truthy_v(e, "MEGA_WINDFURY"@) || has_mechanic_v(m, "Mega-Windfury"@),
        stealth: truthy_v(e, "STEALTH"@) || has_mechanic_v(m, "Stealth"@),
        battlecry: truthy_v(e, "BATTLECRY"@) || has_mechanic_v(m, "Battlecry"@),
        deathrattle: truthy_v(e, "DEATHRATTLE"@) || has_mechanic_v(m, "Deathrattle"@),
        avenge: truthy_v(e, "AVENGE"@) || has_mechanic_v(m, "Avenge"@),
        rally: truthy_v(e, "BACON_RALLY"@) || has_mechanic_v(m, "Rally"@),
        end_of_turn: truthy_v(e, "END_OF_TURN_TRIGGER"@),
        start_of_combat: truthy_v(e, "START_OF_COMBAT"@),
        choose_one: truthy_v(e, "CHOOSE_ONE"@) || has_mechanic_v(m, "Choose One"@),
        modular: truthy_v(e, "MODULAR"@) || has_mechanic_v(m, "Magnetic"@),
        magnetic: truthy_v(e, "MODULAR"@) || has_mechanic_v(m, "Magnetic"@),
        activate_keyword: r_activate(r),
        activate_available_now: r_activate(r) && truthy_v(e, "INTERACTABLE_OBJECT"@) && !truthy_v(
            e,
            "CANT_PLAY"@,
        ) && !truthy_v(e, "EXHAUSTED"@),
    }
}

fn keywords_of(entity: &Entity, mechanics: &Vec<String>, activate: bool, Ghost(r): Ghost<Option<ResolvedV>>) -> (k: CardKeywords)
    requires
        r_mechanics(r) == strs_view(mechanics@).to_set(),
        r_activate(r) == activate,
    ensures
        k == keywords_v(entity@, r),
{
    let magnetic = truthy(entity, "MODULAR") || has_mechanic(mechanics, "Magnetic");
    CardKeywords {
        taunt: truthy(entity, "TAUNT") || has_mechanic(mechanics, "Taunt"),
        divine_shield: truthy(entity, "DIVINE_SHIELD") || has_mechanic(mechanics, "Divine Shield"),
        reborn: truthy(entity, "REBORN") || has_mechanic(mechanics, "Reborn"),
        poisonous: truthy(entity, "POISONOUS") || has_mechanic(mechanics, "Poisonous"),
        venomous: truthy(entity, "VENOMOUS") || has_mechanic(mechanics, "Venomous"),
        windfury: truthy(entity, "WINDFURY") || has_mechanic(mechanics, "Windfury"),
        mega_windfury: truthy(entity, "MEGA_WINDFURY") || has_mechanic(mechanics, "Mega-Windfury"),
        stealth: truthy(entity, "STEALTH") || has_mechanic(mechanics, "Stealth"),
        battlecry: truthy(entity, "BATTLECRY") || has_mechanic(mechanics, "Battlecry"),
        deathrattle: truthy(entity, "DEATHRATTLE") || has_mechanic(mechanics, "Deathrattle"),
        avenge: truthy(entity, "AVENGE") || has_mechanic(mechanics, "Avenge"),
        rally: truthy(entity, "BACON_RALLY") || has_mechanic(mechanics, "Rally"),
        end_of_turn: truthy(entity, "END_OF_TURN_TRIGGER"),
        start_of_combat: truthy(entity, "START_OF_COMBAT"),
        choose_one: truthy(entity, "CHOOSE_ONE") || has_mechanic(mechanics, "Choose One"),
        modular: magnetic,
        magnetic,
        activate_keyword: activate,
        activate_available_now: activate && truthy(entity, "INTERACTABLE_OBJECT") && !truthy(
            entity,
            "CANT_PLAY",
        ) && !truthy(entity, "EXHAUSTED"),
    }
}


/// The unique strictly increasing sequence holding exactly the set `s`.
pub open spec fn sorted_of(s: Set<Seq<char>>) -> Seq<Seq<char>> {
    choose|q: Seq<Seq<char>>| strictly_sorted(q) && q.to_set() == s
}

pub proof fn lemma_strictly_sorted_unique(a: Seq<Seq<char>>, b: Seq<Seq<char>>)
    requires
        strictly_sorted(a),
        strictly_sorted(b),
        a.to_set() == b.to_set(),
    ensures
        a == b,
    decreases a.len(),
{
    if a.len() == 0 {
        if b.len() > 0 {
            assert(b.to_set().contains(b[0]));
        }
        assert(a =~= b);
    } else {
        if b.len() == 0 {
            assert(a.to_set().contains(a[0]));
        } else {
            assert(b.to_set().contains(a[0]));
            assert(a.to_set().contains(b[0]));
            let j = choose|j: int| 0 <= j < b.len() && b[j] == a[0];
            let i = choose|i: int| 0 <= i < a.len() && a[i] == b[0];
            if j > 0 {
                assert(crate::text::lex_lt(b[0], b[j]));
                if i == 0 {
                    crate::text::lemma_lex_irreflexive(a[0]);
                } else {
                    assert(crate::text::lex_lt(a[0], a[i]));
                    crate::text::lemma_lex_asym(a[0], a[i]);
                }
            }
            assert(a[0] == b[0]);
            let a1 = a.drop_first();
            let b1 = b.drop_first();
            assert forall|x: Seq<char>| a1.to_set().contains(x) <==> b1.to_set().contains(x) by {
                if a1.to_set().contains(x) {
                    let k = choose|k: int| 0 <= k < a1.len() && a1[k] == x;
                    assert(a[k + 1] == x);
                    assert(crate::text::lex_lt(a[0], x));
                    crate::text::lemma_lex_asym(a[0], x);
                    assert(b.to_set().contains(x));
                    let m = choose|m: int| 0 <= m < b.len() && b[m] == x;
                    assert(m != 0);
                    assert(b1[m - 1] == x);
                }
                if b1.to_set().contains(x) {
                    let k = choose|k: int| 0 <= k < b1.len() && b1[k] == x;
                    assert(b[k + 1] == x);
                    assert(crate::text::lex_lt(b[0], x));
                    crate::text::lemma_lex_asym(b[0], x);
                    assert(a.to_set().contains(x));
                    let m = choose|m: int| 0 <= m < a.len() && a[m] == x;
                    assert(m != 0);
                    assert(a1[m - 1] == x);
                }
            }
            assert(a1.to_set() =~= b1.to_set());
            assert(strictly_sorted(a1));
            assert(strictly_sorted(b1));
            lemma_strictly_sorted_unique(a1, b1);
            assert(a =~= b) by {
                assert forall|k: int| 0 <= k < a.len() implies a[k] == b[k] by {
                    if k > 0 {
                        assert(a[k] == a1[k - 1]);
                        assert(b[k] == b1[k - 1]);
                    }
                }
            }
        }
    }
}

pub proof fn lemma_sorted_of(q: Seq<Seq<char>>)
    requires
        strictly_sorted(q),
    ensures
        sorted_of(q.to_set()) == q,
{
    let c = sorted_of(q.to_set());
    assert(strictly_sorted(c) && c.to_set() == q.to_set());
    lemma_strictly_sorted_unique(c, q);
}

/// The normalized tribe that a `BACON_SUBSET_<tribe>` tag with a nonzero
/// integer value names.
pub open spec fn subset_tribe(k: Seq<char>, v: TagValueV) -> Option<Seq<char>> {
    if starts_with(k, "BACON_SUBSET_"@) && (match v {
        TagValueV::Int(x) => x != 0,
        TagValueV::Symbol(_) => false,
    }) {
        spec_normalize_tribe(k.skip("BACON_SUBSET_"@.len() as int))
    } else {
        None
    }
}

pub open spec fn tag_tribes(tags: Map<Seq<char>, TagValueV>) -> Set<Seq<char>> {
    Set::new(|t: Seq<char>| exists|k: Seq<char>| tags.contains_key(k) && subset_tribe(k, tags[k]) == Some(t))
}

pub open spec fn entry_tribe(es: Seq<(Seq<char>, TagValueV)>, j: int) -> Option<Seq<char>> {
    subset_tribe(es[j].0, es[j].1)
}

/// Sorted, distinct tribes named by the entity's nonzero `BACON_SUBSET_*` tags.
fn tribes_from_tags(entity: &Entity) -> (r: Vec<String>)
    ensures
        strictly_sorted(strs_view(r@)),
        strs_view(r@).to_set() == tag_tribes(entity@.tags),
{
    entity.tags.lemma_entries();
    let ghost es = entity.tags.entries();
    let prefix = chars_of("BACON_SUBSET_");
    let mut r: Vec<String> = Vec::new();
    assert(strs_view(r@).to_set() =~= Set::<Seq<char>>::empty());
    let mut i: usize = 0;
    while i < entity.tags.len()
        invariant
            i <= es.len(),
            es == entity.tags.entries(),
            prefix@ == "BACON_SUBSET_"@,
            strictly_sorted(strs_view(r@)),
            forall|t: Seq<char>| strs_view(r@).to_set().contains(t) <==> exists|j: int|
                0 <= j < i && #[trigger] entry_tribe(es, j) == Some(t),
        decreases es.len() - i,
    {
        let key = entity.tags.key_at(i);
        let value = entity.tags.value_at(i);
        let nonzero = match value.as_i64() {
            Some(v) => v != 0,
            None => false,
        };
        let found: Option<String> = if nonzero {
            match strip_prefix_chars(key, &prefix) {
                Some(rest) => normalize_tribe_chars(&rest),
                None => None,
            }
        } else {
            None
        };
        assert(opt_view(found) == entry_tribe(es, i as int));
        let ghost before = strs_view(r@).to_set();
        match found {
            Some(t) => {
                set_insert(&mut r, t);
            },
            None => {},
        }
        proof {
            assert forall|t: Seq<char>| strs_view(r@).to_set().contains(t) <==> exists|j: int|
                0 <= j < i + 1 && #[trigger] entry_tribe(es, j) == Some(t) by {
                if strs_view(r@).to_set().contains(t) {
                    if before.contains(t) {
                        let j = choose|j: int| 0 <= j < i && #[trigger] entry_tribe(es, j) == Some(t);
                        assert(entry_tribe(es, j) == Some(t));
                    } else {
                        assert(entry_tribe(es, i as int) == Some(t));
                    }
                }
                if exists|j: int| 0 <= j < i + 1 && #[trigger] entry_tribe(es, j) == Some(t) {
                    let j = choose|j: int| 0 <= j < i + 1 && #[trigger] entry_tribe(es, j) == Some(t);
                    if j < i {
                        assert(before.contains(t));
                    }
                }
            }
        }
        i += 1;
    }
    proof {
        let m = entity@.tags;
        assert forall|t: Seq<char>| strs_view(r@).to_set().contains(t) <==> tag_tribes(m).contains(t) by {
            if strs_view(r@).to_set().contains(t) {
                let j = choose|j: int| 0 <= j < es.len() && #[trigger] entry_tribe(es, j) == Some(t);
                assert(m.contains_key(es[j].0));
                assert(m[es[j].0] == es[j].1);
            }
            if tag_tribes(m).contains(t) {
                let k = choose|k: Seq<char>| m.contains_key(k) && subset_tribe(k, m[k]) == Some(t);
                let j = choose|j: int| 0 <= j < es.len() && es[j].0 == k;
                assert(m[es[j].0] == es[j].1);
                assert(entry_tribe(es, j) == Some(t));
            }
        }
        assert(strs_view(r@).to_set() =~= tag_tribes(m));
    }
    r
}

/// Adds every item of `more` to the sorted set `v`.
fn extend_sorted(v: &mut Vec<String>, more: &Vec<String>)
    requires
        strictly_sorted(strs_view(old(v)@)),
    ensures
        strictly_sorted(strs_view(final(v)@)),
        strs_view(final(v)@).to_set() == strs_view(old(v)@).to_set().union(strs_view(more@).to_set()),
{
    let ghost start = strs_view(v@).to_set();
    let mut i: usize = 0;
    assert(strs_view(more@).take(0).to_set() =~= Set::<Seq<char>>::empty());
    assert(start.union(Set::<Seq<char>>::empty()) =~= start);
    while i < more.len()
        invariant
            i <= more.len(),
            strictly_sorted(strs_view(v@)),
            strs_view(v@).to_set() == start.union(strs_view(more@).take(i as int).to_set()),
        decreases more.len() - i,
    {
        let x = more[i].clone();
        set_insert(v, x);
        assert(strs_view(more@).take(i + 1) == strs_view(more@).take(i as int).push(more@[i as int]@));
        proof {
            strs_view(more@).take(i as int).lemma_push_to_set_commute(more@[i as int]@);
        }
        assert(strs_view(v@).to_set() =~= start.union(strs_view(more@).take(i + 1).to_set()));
        i += 1;
    }
    assert(strs_view(more@).take(more.len() as int) == strs_view(more@));
}

pub open spec fn valid_card_type_tag(e: EntityV) -> Option<Seq<char>> {
    match tag_sym(e.tags, "CARDTYPE"@) {
        Some(s) => if eq_ignore_case(s, "INVALID"@) {
            None
        } else {
            Some(s)
        },
        None => None,
    }
}

pub open spec fn positive_u8(v: Option<i32>) -> Option<u8> {
    match v {
        Some(x) => if 0 < x <= 255 {
            Some(x as u8)
        } else {
            None
        },
        None => None,
    }
}

pub open spec fn fitting_u8(v: Option<i32>) -> Option<u8> {
    match v {
        Some(x) => if 0 <= x <= 255 {
            Some(x as u8)
        } else {
            None
        },
        None => None,
    }
}

pub open spec fn minus_damage(health: Option<i32>, damage: Option<i32>) -> Option<i32> {
    match health {
        Some(h) => Some(
            vstd::wrapping::i32_specs::wrapping_sub(
                h,
                match damage {
                    Some(d) => d,
                    None => 0,
                },
            ),
        ),
        None => None,
    }
}

pub open spec fn ends_golden(card_id: Option<Seq<char>>) -> bool {
    match card_id {
        Some(id) => ends_with(id, "_G"@),
        None => false,
    }
}

#[derive(Debug, Clone)]
pub struct CardSnapshot {
    pub entity_id: u32,
    pub card_id: Option<String>,
    pub name: Option<String>,
    pub text: Option<String>,
    pub mechanics: Vec<String>,
    pub card_type: Option<String>,
    pub controller: Option<i32>,
    pub zone: Option<String>,
    pub zone_position: Option<i32>,
    pub attack: Option<i32>,
    pub health: Option<i32>,
    pub damage: Option<i32>,
    pub remaining_health: Option<i32>,
    pub tavern_tier: Option<u8>,
    /// Card/entity COST. For Battlegrounds minions this is normally 0 and is
    /// not the Bob purchase price. Tavern spells use it as their printed cost.
    pub printed_cost: Option<i32>,
    pub is_golden: bool,
    pub tribes: Vec<String>,
    pub keywords: CardKeywords,
}

pub struct CardSnapshotV {
    pub entity_id: u32,
    pub card_id: Option<Seq<char>>,
    pub name: Option<Seq<char>>,
    pub text: Option<Seq<char>>,
    pub mechanics: Seq<Seq<char>>,
    pub card_type: Option<Seq<char>>,
    pub controller: Option<i32>,
    pub zone: Option<Seq<char>>,
    pub zone_position: Option<i32>,
    pub attack: Option<i32>,
    pub health: Option<i32>,
    pub damage: Option<i32>,
    pub remaining_health: Option<i32>,
    pub tavern_tier: Option<u8>,
    pub printed_cost: Option<i32>,
    pub is_golden: bool,
    pub tribes: Seq<Seq<char>>,
    pub keywords: CardKeywords,
}

impl View for CardSnapshot {
    type V = CardSnapshotV;

    open spec fn view(&self) -> CardSnapshotV {
        CardSnapshotV {
            entity_id: self.entity_id,
            card_id: opt_view(self.card_id),
            name: opt_view(self.name),
            text: opt_view(self.text),
            mechanics: strs_view(self.mechanics@),
            card_type: opt_view(self.card_type),
            controller: self.controller,
            zone: opt_view(self.zone),
            zone_position: self.zone_position,
            attack: self.attack,
            health: self.health,
            damage: self.damage,
            remaining_health: self.remaining_health,
            tavern_tier: self.tavern_tier,
            printed_cost: self.printed_cost,
            is_golden: self.is_golden,
            tribes: strs_view(self.tribes@),
            keywords: self.keywords,
        }
    }
}

/// The snapshot of a live entity, its tags first and the catalog's static
/// metadata `r` as fallback.
pub open spec fn card_v(e: EntityV, r: Option<ResolvedV>) -> CardSnapshotV {
    let health = first_of(i32_tag_v(e, "HEALTH"@), r_health(r));
    let damage = i32_tag_v(e, "DAMAGE"@);
    CardSnapshotV {
        entity_id: e.id,
        card_id: e.card_id,
        name: first_of(r_name(r), trustworthy_name_v(e.name)),
        text: r_text(r),
        mechanics: sorted_of(r_mechanics(r)),
        card_type: first_of(valid_card_type_tag(e), r_card_type(r)),
        controller: i32_tag_v(e, "CONTROLLER"@),
        zone: tag_sym(e.tags, "ZONE"@),
        zone_position: i32_tag_v(e, "ZONE_POSITION"@),
        attack: first_of(i32_tag_v(e, "ATK"@), r_attack(r)),
        health,
        damage,
        remaining_health: minus_damage(health, damage),
        tavern_tier: first_of(positive_u8(i32_tag_v(e, "TECH_LEVEL"@)), r_tier(r)),
        printed_cost: first_of(i32_tag_v(e, "COST"@), r_cost(r)),
        is_golden: truthy_v(e, "PREMIUM"@) || r_premium(r) || ends_golden(e.card_id),
        tribes: sorted_of(tag_tribes(e.tags).union(r_tribes(r))),
        keywords: keywords_v(e, r),
    }
}

pub fn or_i32(a: Option<i32>, b: Option<i32>) -> (r: Option<i32>)
    ensures
        r == first_of(a, b),
{
    match a {
        Some(_) => a,
        None => b,
    }
}

pub fn owned_str(o: Option<&str>) -> (r: Option<String>)
    ensures
        opt_view(r) == opt_str_view(o),
{
    match o {
        Some(s) => Some(string_of(&chars_of(s))),
        None => None,
    }
}

fn or_string(a: Option<String>, b: Option<String>) -> (r: Option<String>)
    ensures
        opt_view(r) == first_of(opt_view(a), opt_view(b)),
{
    match a {
        Some(_) => a,
        None => b,
    }
}

fn valid_card_type_of(entity: &Entity) -> (r: Option<String>)
    ensures
        opt_view(r) == valid_card_type_tag(entity@),
{
    match entity.tag_symbol("CARDTYPE") {
        Some(s) => if eq_ignore_ascii_case(&chars_of(s), &chars_of("INVALID")) {
            None
        } else {
            owned_str(Some(s))
        },
        None => None,
    }
}

fn positive_u8_of(v: Option<i32>) -> (r: Option<u8>)
    ensures
        r == positive_u8(v),
{
    match v {
        Some(x) => if 0 < x && x <= 255 {
            Some(x as u8)
        } else {
            None
        },
        None => None,
    }
}

pub fn fitting_u8_of(v: Option<i32>) -> (r: Option<u8>)
    ensures
        r == fitting_u8(v),
{
    match v {
        Some(x) => if 0 <= x && x <= 255 {
            Some(x as u8)
        } else {
            None
        },
        None => None,
    }
}

fn minus_damage_of(health: Option<i32>, damage: Option<i32>) -> (r: Option<i32>)
    ensures
        r == minus_damage(health, damage),
{
    match health {
        Some(h) => Some(
            h.wrapping_sub(
                match damage {
                    Some(d) => d,
                    None => 0,
                },
            ),
        ),
        None => None,
    }
}

fn ends_golden_of(card_id: &Option<String>) -> (r: bool)
    ensures
        r == ends_golden(opt_view(*card_id)),
{
    match card_id {
        Some(id) => ends_with_exec(&chars_of(id.as_str()), &chars_of("_G")),
        None => false,
    }
}

pub fn clone_strings(v: &Vec<String>) -> (r: Vec<String>)
    ensures
        strs_view(r@) == strs_view(v@),
{
    let mut r: Vec<String> = Vec::new();
    let mut i: usize = 0;
    while i < v.len()
        invariant
            i <= v@.len(),
            strs_view(r@) == strs_view(v@).take(i as int),
        decreases v@.len() - i,
    {
        let ghost before = r@;
        r.push(v[i].clone());
        assert(strs_view(r@) =~= strs_view(before).push(v@[i as int]@));
        assert(strs_view(v@).take(i + 1) =~= strs_view(v@).take(i as int).push(v@[i as int]@));
        i += 1;
    }
    assert(strs_view(v@).take(i as int) =~= strs_view(v@));
    r
}

impl CardSnapshot {
    /// A copy with the same view.
    pub fn duplicate(&self) -> (r: CardSnapshot)
        ensures
            r@ == self@,
    {
        CardSnapshot {
            entity_id: self.entity_id,
            card_id: clone_opt_string(&self.card_id),
            name: clone_opt_string(&self.name),
            text: clone_opt_string(&self.text),
            mechanics: clone_strings(&self.mechanics),
            card_type: clone_opt_string(&self.card_type),
            controller: self.controller,
            zone: clone_opt_string(&self.zone),
            zone_position: self.zone_position,
            attack: self.attack,
            health: self.health,
            damage: self.damage,
            remaining_health: self.remaining_health,
            tavern_tier: self.tavern_tier,
            printed_cost: self.printed_cost,
            is_golden: self.is_golden,
            tribes: clone_strings(&self.tribes),
            keywords: self.keywords,
        }
    }

    pub fn from_entity(entity: &Entity) -> (r: CardSnapshot)
        ensures
            r@ == card_v(entity@, None),
    {
        CardSnapshot::from_entity_with_catalog(entity, None)
    }

    pub fn from_entity_with_catalog(entity: &Entity, catalog: Option<&CardCatalog>) -> (r: CardSnapshot)
        ensures
            r@ == card_v(entity@, resolved_v(entity@.card_id, catalog)),
    {
        let resolved = resolve_opt(&entity.card_id, catalog);
        let ghost rv = opt_res(resolved);
        let health = or_i32(
            i32_tag(entity, "HEALTH"),
            match resolved {
                Some(c) => c.health(),
                None => None,
            },
        );
        let damage = i32_tag(entity, "DAMAGE");
        let mut tribes = tribes_from_tags(entity);
        let static_tribes: Vec<String> = match resolved {
            Some(c) => c.tribes(),
            None => Vec::new(),
        };
        assert(strs_view(static_tribes@).to_set() =~= r_tribes(rv));
        extend_sorted(&mut tribes, &static_tribes);
        let static_mechanics: Vec<String> = match resolved {
            Some(c) => c.mechanics(),
            None => Vec::new(),
        };
        assert(strs_view(static_mechanics@).to_set() =~= r_mechanics(rv));
        let activate = match resolved {
            Some(c) => c.activate_keyword(),
            None => false,
        };
        let keywords = keywords_of(entity, &static_mechanics, activate, Ghost(rv));
        let static_name = owned_str(
            match resolved {
                Some(c) => c.preferred_name(),
                None => None,
            },
        );
        let static_type = owned_str(
            match resolved {
                Some(c) => c.card_type(),
                None => None,
            },
        );
        let premium = match resolved {
            Some(c) => c.premium(),
            None => false,
        };
        proof {
            assert(strictly_sorted(strs_view(static_mechanics@)));
            lemma_sorted_of(strs_view(static_mechanics@));
            lemma_sorted_of(strs_view(tribes@));
        }
        CardSnapshot {
            entity_id: entity.id,
            card_id: clone_opt_string(&entity.card_id),
            name: or_string(static_name, trustworthy_entity_name(&entity.name)),
            text: owned_str(
                match resolved {
                    Some(c) => c.preferred_text(),
                    None => None,
                },
            ),
            mechanics: static_mechanics,
            card_type: or_string(valid_card_type_of(entity), static_type),
            controller: i32_tag(entity, "CONTROLLER"),
            zone: owned_str(entity.tag_symbol("ZONE")),
            zone_position: i32_tag(entity, "ZONE_POSITION"),
            attack: or_i32(
                i32_tag(entity, "ATK"),
                match resolved {
                    Some(c) => c.attack(),
                    None => None,
                },
            ),
            health,
            damage,
            remaining_health: minus_damage_of(health, damage),
            tavern_tier: match positive_u8_of(i32_tag(entity, "TECH_LEVEL")) {
                Some(t) => Some(t),
                None => match resolved {
                    Some(c) => c.tavern_tier(),
                    None => None,
                },
            },
            printed_cost: or_i32(
                i32_tag(entity, "COST"),
                match resolved {
                    Some(c) => c.cost(),
                    None => None,
                },
            ),
            is_golden: truthy(entity, "PREMIUM") || premium || ends_golden_of(&entity.card_id),
            tribes,
            keywords,
        }
    }
}


/// The snapshot of a card known only by identity, from static metadata.
pub open spec fn identity_card_v(
    entity_id: u32,
    card_id: Option<Seq<char>>,
    name: Option<Seq<char>>,
    controller: Option<i32>,
    zone: Option<Seq<char>>,
    zone_position: Option<i32>,
    r: Option<ResolvedV>,
) -> CardSnapshotV {
    CardSnapshotV {
        entity_id,
        card_id,
        name: first_of(r_name(r), trustworthy_name_v(name)),
        text: r_text(r),
        mechanics: sorted_of(r_mechanics(r)),
        card_type: r_card_type(r),
        controller,
        zone,
        zone_position,
        attack: r_attack(r),
        health: r_health(r),
        damage: None,
        remaining_health: r_health(r),
        tavern_tier: r_tier(r),
        printed_cost: r_cost(r),
        is_golden: r_premium(r),
        tribes: sorted_of(r_tribes(r)),
        keywords: no_keywords(),
    }
}

impl CardSnapshot {
    pub fn from_identity(
        entity_id: u32,
        card_id: Option<String>,
        name: Option<String>,
        controller: Option<i32>,
        zone: Option<String>,
        zone_position: Option<i32>,
        catalog: Option<&CardCatalog>,
    ) -> (r: CardSnapshot)
        ensures
            r@ == identity_card_v(
                entity_id,
                opt_view(card_id),
                opt_view(name),
                controller,
                opt_view(zone),
                zone_position,
                resolved_v(opt_view(card_id), catalog),
            ),
    {
        let resolved = resolve_opt(&card_id, catalog);
        let ghost rv = opt_res(resolved);
        let tribes: Vec<String> = match resolved {
            Some(c) => c.tribes(),
            None => Vec::new(),
        };
        let mechanics: Vec<String> = match resolved {
            Some(c) => c.mechanics(),
            None => Vec::new(),
        };
        proof {
            assert(strs_view(tribes@).to_set() =~= r_tribes(rv));
            assert(strs_view(mechanics@).to_set() =~= r_mechanics(rv));
            if resolved is None {
                assert(strictly_sorted(strs_view(tribes@)));
                assert(strictly_sorted(strs_view(mechanics@)));
            }
            lemma_sorted_of(strs_view(tribes@));
            lemma_sorted_of(strs_view(mechanics@));
        }
        let health = match resolved {
            Some(c) => c.health(),
            None => None,
        };
        let static_name = owned_str(
            match resolved {
                Some(c) => c.preferred_name(),
                None => None,
            },
        );
        let trusted = trustworthy_entity_name(&name);
        CardSnapshot {
            entity_id,
            card_id,
            name: or_string(static_name, trusted),
            text: owned_str(
                match resolved {
                    Some(c) => c.preferred_text(),
                    None => None,
                },
            ),
            mechanics,
            card_type: owned_str(
                match resolved {
                    Some(c) => c.card_type(),
                    None => None,
                },
            ),
            controller,
            zone,
            zone_position,
            attack: match resolved {
                Some(c) => c.attack(),
                None => None,
            },
            health,
            damage: None,
            remaining_health: health,
            tavern_tier: match resolved {
                Some(c) => c.tavern_tier(),
                None => None,
            },
            printed_cost: match resolved {
                Some(c) => c.cost(),
                None => None,
            },
            is_golden: match resolved {
                Some(c) => c.premium(),
                None => false,
            },
            tribes,
            keywords: CardKeywords::default(),
        }
    }
}

#[derive(Debug, Clone)]
pub struct HeroSnapshot {
    pub entity_id: u32,
    pub player_id: Option<i32>,
    pub card_id: Option<String>,
    pub name: Option<String>,
    pub health: Option<i32>,
    pub damage: Option<i32>,
    pub armor: Option<i32>,
    pub remaining_health: Option<i32>,
    pub effective_health: Option<i32>,
    pub tavern_tier: Option<u8>,
    pub leaderboard_place: Option<u8>,
}

pub struct HeroSnapshotV {
    pub entity_id: u32,
    pub player_id: Option<i32>,
    pub card_id: Option<Seq<char>>,
    pub name: Option<Seq<char>>,
    pub health: Option<i32>,
    pub damage: Option<i32>,
    pub armor: Option<i32>,
    pub remaining_health: Option<i32>,
    pub effective_health: Option<i32>,
    pub tavern_tier: Option<u8>,
    pub leaderboard_place: Option<u8>,
}

impl View for HeroSnapshot {
    type V = HeroSnapshotV;

    open spec fn view(&self) -> HeroSnapshotV {
        HeroSnapshotV {
            entity_id: self.entity_id,
            player_id: self.player_id,
            card_id: opt_view(self.card_id),
            name: opt_view(self.name),
            health: self.health,
            damage: self.damage,
            armor: self.armor,
            remaining_health: self.remaining_health,
            effective_health: self.effective_health,
            tavern_tier: self.tavern_tier,
            leaderboard_place: self.leaderboard_place,
        }
    }
}

pub open spec fn plus_armor(remaining: Option<i32>, armor: Option<i32>) -> Option<i32> {
    match remaining {
        Some(h) => Some(
            vstd::wrapping::i32_specs::wrapping_add(
                h,
                match armor {
                    Some(a) => a,
                    None => 0,
                },
            ),
        ),
        None => None,
    }
}

/// The snapshot of a hero entity.
pub open spec fn hero_v(e: EntityV, r: Option<ResolvedV>) -> HeroSnapshotV {
    let health = first_of(i32_tag_v(e, "HEALTH"@), r_health(r));
    let damage = i32_tag_v(e, "DAMAGE"@);
    let armor = i32_tag_v(e, "ARMOR"@);
    let remaining = minus_damage(health, damage);
    HeroSnapshotV {
        entity_id: e.id,
        player_id: i32_tag_v(e, "PLAYER_ID"@),
        card_id: e.card_id,
        name: first_of(r_name(r), trustworthy_name_v(e.name)),
        health,
        damage,
        armor,
        remaining_health: remaining,
        effective_health: plus_armor(remaining, armor),
        tavern_tier: fitting_u8(i32_tag_v(e, "PLAYER_TECH_LEVEL"@)),
        leaderboard_place: fitting_u8(i32_tag_v(e, "PLAYER_LEADERBOARD_PLACE"@)),
    }
}

/// A card's remaining health is its health less its damage (none taken
/// when no damage is known), as long as that fits in an `i32`; it is
/// unknown exactly when its health is.
pub proof fn lemma_card_health(e: EntityV, r: Option<ResolvedV>)
    ensures
        card_v(e, r).remaining_health is Some == card_v(e, r).health is Some,
        ({
            let c = card_v(e, r);
            let d: int = match c.damage {
                Some(d) => d as int,
                None => 0,
            };
            match c.health {
                Some(x) => i32::MIN <= x - d <= i32::MAX ==> c.remaining_health == Some((x - d) as i32),
                None => true,
            }
        }),
{
    let c = card_v(e, r);
    if let Some(x) = c.health {
        let d: i32 = match c.damage {
            Some(d) => d,
            None => 0,
        };
        if i32::MIN <= x - d <= i32::MAX {
            assert(vstd::wrapping::i32_specs::wrapping_sub(x, d) == x - d);
        }
    }
}

/// A hero's remaining health is its health less its damage (none taken
/// when no damage is known), and its effective health is the remaining
/// health plus its armor (none when no armor is known), so armor never
/// lowers it; both as long as the sums fit in an `i32`.
pub proof fn lemma_hero_health(e: EntityV, r: Option<ResolvedV>)
    ensures
        hero_v(e, r).remaining_health is Some == hero_v(e, r).health is Some,
        hero_v(e, r).effective_health is Some == hero_v(e, r).remaining_health is Some,
        ({
            let h = hero_v(e, r);
            let d: int = match h.damage {
                Some(d) => d as int,
                None => 0,
            };
            match h.health {
                Some(x) => i32::MIN <= x - d <= i32::MAX ==> h.remaining_health == Some((x - d) as i32),
                None => true,
            }
        }),
        ({
            let h = hero_v(e, r);
            let a: int = match h.armor {
                Some(a) => a as int,
                None => 0,
            };
            match h.remaining_health {
                Some(x) => i32::MIN <= x + a <= i32::MAX ==> h.effective_health == Some((x + a) as i32) && (a >= 0
                    ==> h.effective_health->0 >= x),
                None => true,
            }
        }),
{
    let h = hero_v(e, r);
    if let Some(x) = h.health {
        let d: i32 = match h.damage {
            Some(d) => d,
            None => 0,
        };
        if i32::MIN <= x - d <= i32::MAX {
            assert(vstd::wrapping::i32_specs::wrapping_sub(x, d) == x - d);
        }
    }
    if let Some(x) = h.remaining_health {
        let a: i32 = match h.armor {
            Some(a) => a,
            None => 0,
        };
        if i32::MIN <= x + a <= i32::MAX {
            assert(vstd::wrapping::i32_specs::wrapping_add(x, a) == x + a);
        }
    }
}

fn plus_armor_of(remaining: Option<i32>, armor: Option<i32>) -> (r: Option<i32>)
    ensures
        r == plus_armor(remaining, armor),
{
    match remaining {
        Some(h) => Some(
            h.wrapping_add(
                match armor {
                    Some(a) => a,
                    None => 0,
                },
            ),
        ),
        None => None,
    }
}

impl HeroSnapshot {
    pub fn from_entity(entity: &Entity) -> (r: HeroSnapshot)
        ensures
            r@ == hero_v(entity@, None),
    {
        HeroSnapshot::from_entity_with_catalog(entity, None)
    }

    pub fn from_entity_with_catalog(entity: &Entity, catalog: Option<&CardCatalog>) -> (r: HeroSnapshot)
        ensures
            r@ == hero_v(entity@, resolved_v(entity@.card_id, catalog)),
    {
        let resolved = resolve_opt(&entity.card_id, catalog);
        let health = or_i32(
            i32_tag(entity, "HEALTH"),
            match resolved {
                Some(c) => c.health(),
                None => None,
            },
        );
        let damage = i32_tag(entity, "DAMAGE");
        let armor = i32_tag(entity, "ARMOR");
        let remaining = minus_damage_of(health, damage);
        let static_name = owned_str(
            match resolved {
                Some(c) => c.preferred_name(),
                None => None,
            },
        );
        HeroSnapshot {
            entity_id: entity.id,
            player_id: i32_tag(entity, "PLAYER_ID"),
            card_id: clone_opt_string(&entity.card_id),
            name: or_string(static_name, trustworthy_entity_name(&entity.name)),
            health,
            damage,
            armor,
            remaining_health: remaining,
            effective_health: plus_armor_of(remaining, armor),
            tavern_tier: fitting_u8_of(i32_tag(entity, "PLAYER_TECH_LEVEL")),
            leaderboard_place: fitting_u8_of(i32_tag(entity, "PLAYER_LEADERBOARD_PLACE")),
        }
    }
}

#[derive(Debug, Clone)]
pub struct HeroPowerSnapshot {
    pub entity_id: u32,
    pub card_id: Option<String>,
    pub name: Option<String>,
    pub text: Option<String>,
    pub cost: Option<i32>,
    pub exhausted: bool,
    pub available: bool,
    /// Forward-compatible script/progress state, ordered by tag name. This
    /// intentionally preserves relevant live tags instead of hard-coding
    /// every hero's mechanic.
    pub dynamic_tags: Vec<(String, String)>,
}

pub struct HeroPowerSnapshotV {
    pub entity_id: u32,
    pub card_id: Option<Seq<char>>,
    pub name: Option<Seq<char>>,
    pub text: Option<Seq<char>>,
    pub cost: Option<i32>,
    pub exhausted: bool,
    pub available: bool,
    pub dynamic_tags: Seq<(Seq<char>, Seq<char>)>,
}

pub open spec fn pairs_view(v: Seq<(String, String)>) -> Seq<(Seq<char>, Seq<char>)> {
    v.map_values(|p: (String, String)| (p.0@, p.1@))
}

impl View for HeroPowerSnapshot {
    type V = HeroPowerSnapshotV;

    open spec fn view(&self) -> HeroPowerSnapshotV {
        HeroPowerSnapshotV {
            entity_id: self.entity_id,
            card_id: opt_view(self.card_id),
            name: opt_view(self.name),
            text: opt_view(self.text),
            cost: self.cost,
            exhausted: self.exhausted,
            available: self.available,
            dynamic_tags: pairs_view(self.dynamic_tags@),
        }
    }
}

/// Tags kept as a hero power's live script/progress state.
pub open spec fn dynamic_tag_selected(k: Seq<char>) -> bool {
    starts_with(k, "TAG_SCRIPT_DATA_"@) || starts_with(k, "BACON_"@) || starts_with(k, "NUM_"@) || k
        == "COST"@ || k == "EXHAUSTED"@ || k == "CANT_PLAY"@ || k == "HAS_ACTIVATE_POWER"@ || k
        == "INTERACTABLE_OBJECT"@ || k == "INTERACTABLE_OBJECT_COST"@ || k
        == "INTERACTABLE_OBJECT_PASSIVE_ANIMATION_TYPE"@ || k == "WAS_EVER_AN_INTERACTABLE_OBJECT"@ || k
        == "TIMEOUT"@ || k == "PLAYER_TECH_LEVEL"@
}

/// A tag value as text: an integer in decimal, a symbol as it is.
pub open spec fn tag_text(v: TagValueV) -> Seq<char> {
    match v {
        TagValueV::Int(i) => int_text(i as int),
        TagValueV::Symbol(s) => s,
    }
}

/// The selected tags of an entity as (name, text) pairs, ordered by name.
pub open spec fn dynamic_tags_v(tags: Map<Seq<char>, TagValueV>) -> Seq<(Seq<char>, Seq<char>)> {
    sorted_of(tags.dom().filter(|k: Seq<char>| dynamic_tag_selected(k))).map_values(
        |k: Seq<char>| (k, tag_text(tags[k])),
    )
}

fn dynamic_tag_selected_exec(k: &[char]) -> (r: bool)
    ensures
        r == dynamic_tag_selected(k@),
{
    starts_with_exec(k, &chars_of("TAG_SCRIPT_DATA_")) || starts_with_exec(k, &chars_of("BACON_"))
        || starts_with_exec(k, &chars_of("NUM_")) || chars_eq(k, &chars_of("COST")) || chars_eq(
        k,
        &chars_of("EXHAUSTED"),
    ) || chars_eq(k, &chars_of("CANT_PLAY")) || chars_eq(k, &chars_of("HAS_ACTIVATE_POWER")) || chars_eq(
        k,
        &chars_of("INTERACTABLE_OBJECT"),
    ) || chars_eq(k, &chars_of("INTERACTABLE_OBJECT_COST")) || chars_eq(
        k,
        &chars_of("INTERACTABLE_OBJECT_PASSIVE_ANIMATION_TYPE"),
    ) || chars_eq(k, &chars_of("WAS_EVER_AN_INTERACTABLE_OBJECT")) || chars_eq(k, &chars_of("TIMEOUT"))
        || chars_eq(k, &chars_of("PLAYER_TECH_LEVEL"))
}

fn tag_text_exec(v: &TagValue) -> (r: String)
    ensures
        r@ == tag_text(v@),
{
    match v {
        TagValue::Int(i) => i64_text(*i),
        TagValue::Symbol(s) => s.clone(),
    }
}

pub fn selected_dynamic_tags(entity: &Entity) -> (r: Vec<(String, String)>)
    ensures
        pairs_view(r@) == dynamic_tags_v(entity@.tags),
{
    entity.tags.lemma_entries();
    let ghost es = entity.tags.entries();
    let ghost m = entity@.tags;
    let ghost target = m.dom().filter(|k: Seq<char>| dynamic_tag_selected(k));
    let mut keys: Vec<String> = Vec::new();
    assert(strs_view(keys@).to_set() =~= Set::<Seq<char>>::empty());
    let mut i: usize = 0;
    while i < entity.tags.len()
        invariant
            i <= es.len(),
            es == entity.tags.entries(),
            m == entity@.tags,
            forall|k: Seq<char>| #[trigger] m.contains_key(k) <==> exists|j: int| 0 <= j < es.len() && es[j].0 == k,
            strictly_sorted(strs_view(keys@)),
            forall|k: Seq<char>| strs_view(keys@).to_set().contains(k) <==> exists|j: int|
                0 <= j < i && #[trigger] es[j].0 == k && dynamic_tag_selected(k),
        decreases es.len() - i,
    {
        let key = entity.tags.key_at(i);
        let ghost before = strs_view(keys@).to_set();
        if dynamic_tag_selected_exec(key) {
            set_insert(&mut keys, string_of(key));
        }
        proof {
            assert forall|k: Seq<char>| strs_view(keys@).to_set().contains(k) <==> exists|j: int|
                0 <= j < i + 1 && #[trigger] es[j].0 == k && dynamic_tag_selected(k) by {
                if strs_view(keys@).to_set().contains(k) && !before.contains(k) {
                    assert(es[i as int].0 == k);
                }
                if exists|j: int| 0 <= j < i + 1 && #[trigger] es[j].0 == k && dynamic_tag_selected(k) {
                    let j = choose|j: int| 0 <= j < i + 1 && #[trigger] es[j].0 == k && dynamic_tag_selected(k);
                    if j < i {
                        assert(before.contains(k));
                    }
                }
            }
        }
        i += 1;
    }
    proof {
        assert forall|k: Seq<char>| strs_view(keys@).to_set().contains(k) <==> target.contains(k) by {
            if target.contains(k) {
                let j = choose|j: int| 0 <= j < es.len() && es[j].0 == k;
                assert(es[j].0 == k && dynamic_tag_selected(k));
            }
        }
        assert(strs_view(keys@).to_set() =~= target);
        lemma_sorted_of(strs_view(keys@));
    }
    let mut r: Vec<(String, String)> = Vec::new();
    let mut n: usize = 0;
    while n < keys.len()
        invariant
            n <= keys.len(),
            m == entity@.tags,
            strs_view(keys@) == sorted_of(target),
            strs_view(keys@).to_set() == target,
            target == m.dom().filter(|k: Seq<char>| dynamic_tag_selected(k)),
            pairs_view(r@) == strs_view(keys@).take(n as int).map_values(
                |k: Seq<char>| (k, tag_text(m[k])),
            ),
        decreases keys.len() - n,
    {
        let ghost kv = keys@[n as int]@;
        assert(strs_view(keys@).to_set().contains(kv)) by {
            assert(strs_view(keys@)[n as int] == kv);
        }
        assert(m.contains_key(kv));
        let text = match entity.tag(keys[n].as_str()) {
            Some(v) => tag_text_exec(v),
            None => String::new(),
        };
        assert(text@ == tag_text(m[kv]));
        let ghost old_r = r@;
        let kc = keys[n].clone();
        r.push((kc, text));
        assert(pairs_view(r@) =~= pairs_view(old_r).push((kv, tag_text(m[kv]))));
        assert(strs_view(keys@).take(n + 1) =~= strs_view(keys@).take(n as int).push(kv));
        assert(pairs_view(r@) =~= strs_view(keys@).take(n + 1).map_values(
            |k: Seq<char>| (k, tag_text(m[k])),
        ));
        n += 1;
    }
    assert(strs_view(keys@).take(keys.len() as int) == strs_view(keys@));
    r
}

#[derive(Debug, Clone)]
pub struct LobbyPlayerSnapshot {
    pub player_id: i32,
    pub is_local: bool,
    pub player_name: Option<String>,
    pub hero: HeroSnapshot,
    pub play_state: Option<String>,
    pub alive: bool,
}

pub struct LobbyPlayerV {
    pub player_id: i32,
    pub is_local: bool,
    pub player_name: Option<Seq<char>>,
    pub hero: HeroSnapshotV,
    pub play_state: Option<Seq<char>>,
    pub alive: bool,
}

impl View for LobbyPlayerSnapshot {
    type V = LobbyPlayerV;

    open spec fn view(&self) -> LobbyPlayerV {
        LobbyPlayerV {
            player_id: self.player_id,
            is_local: self.is_local,
            player_name: opt_view(self.player_name),
            hero: self.hero@,
            play_state: opt_view(self.play_state),
            alive: self.alive,
        }
    }
}

pub open spec fn cards_view(v: Seq<CardSnapshot>) -> Seq<CardSnapshotV> {
    v.map_values(|c: CardSnapshot| c@)
}

pub open spec fn lobby_view(v: Seq<LobbyPlayerSnapshot>) -> Seq<LobbyPlayerV> {
    v.map_values(|p: LobbyPlayerSnapshot| p@)
}

pub open spec fn opt_hero_view(h: Option<HeroSnapshot>) -> Option<HeroSnapshotV> {
    match h {
        Some(x) => Some(x@),
        None => None,
    }
}

pub open spec fn opt_power_view(h: Option<HeroPowerSnapshot>) -> Option<HeroPowerSnapshotV> {
    match h {
        Some(x) => Some(x@),
        None => None,
    }
}

#[derive(Debug, Clone)]
pub struct RecruitSnapshot {
    pub round_number: u32,
    pub raw_game_turn: u32,
    pub timestamp: Option<String>,
    pub hero: Option<HeroSnapshot>,
    pub hero_power: Option<HeroPowerSnapshot>,
    pub gold: Option<i32>,
    pub tavern_tier: Option<u8>,
    pub refresh_cost: Option<i32>,
    pub upgrade_cost: Option<i32>,
    pub shop_frozen: Option<bool>,
    /// TIMEOUT value supplied by Hearthstone at the start of the action window.
    pub timeout_seconds: Option<i32>,
    pub next_opponent_player_id: Option<i32>,
    pub lobby: Vec<LobbyPlayerSnapshot>,
    pub board: Vec<CardSnapshot>,
    pub hand: Vec<CardSnapshot>,
    pub shop: Vec<CardSnapshot>,
    pub trinkets: Vec<CardSnapshot>,
}

pub struct RecruitSnapshotV {
    pub round_number: u32,
    pub raw_game_turn: u32,
    pub timestamp: Option<Seq<char>>,
    pub hero: Option<HeroSnapshotV>,
    pub hero_power: Option<HeroPowerSnapshotV>,
    pub gold: Option<i32>,
    pub tavern_tier: Option<u8>,
    pub refresh_cost: Option<i32>,
    pub upgrade_cost: Option<i32>,
    pub shop_frozen: Option<bool>,
    pub timeout_seconds: Option<i32>,
    pub next_opponent_player_id: Option<i32>,
    pub lobby: Seq<LobbyPlayerV>,
    pub board: Seq<CardSnapshotV>,
    pub hand: Seq<CardSnapshotV>,
    pub shop: Seq<CardSnapshotV>,
    pub trinkets: Seq<CardSnapshotV>,
}

impl View for RecruitSnapshot {
    type V = RecruitSnapshotV;

    open spec fn view(&self) -> RecruitSnapshotV {
        RecruitSnapshotV {
            round_number: self.round_number,
            raw_game_turn: self.raw_game_turn,
            timestamp: opt_view(self.timestamp),
            hero: opt_hero_view(self.hero),
            hero_power: opt_power_view(self.hero_power),
            gold: self.gold,
            tavern_tier: self.tavern_tier,
            refresh_cost: self.refresh_cost,
            upgrade_cost: self.upgrade_cost,
            shop_frozen: self.shop_frozen,
            timeout_seconds: self.timeout_seconds,
            next_opponent_player_id: self.next_opponent_player_id,
            lobby: lobby_view(self.lobby@),
            board: cards_view(self.board@),
            hand: cards_view(self.hand@),
            shop: cards_view(self.shop@),
            trinkets: cards_view(self.trinkets@),
        }
    }
}

#[derive(Debug, Clone)]
pub struct CombatSideSnapshot {
    pub hero: Option<HeroSnapshot>,
    pub board: Vec<CardSnapshot>,
}

pub struct CombatSideV {
    pub hero: Option<HeroSnapshotV>,
    pub board: Seq<CardSnapshotV>,
}

impl View for CombatSideSnapshot {
    type V = CombatSideV;

    open spec fn view(&self) -> CombatSideV {
        CombatSideV { hero: opt_hero_view(self.hero), board: cards_view(self.board@) }
    }
}

#[derive(Debug, Clone)]
pub struct LiveCombatSnapshot {
    pub round_number: u32,
    pub raw_game_turn: u32,
    pub timestamp: Option<String>,
    pub opponent_player_id: Option<i32>,
    pub lobby: Vec<LobbyPlayerSnapshot>,
    pub player: CombatSideSnapshot,
    pub opponent: CombatSideSnapshot,
}

pub struct LiveCombatV {
    pub round_number: u32,
    pub raw_game_turn: u32,
    pub timestamp: Option<Seq<char>>,
    pub opponent_player_id: Option<i32>,
    pub lobby: Seq<LobbyPlayerV>,
    pub player: CombatSideV,
    pub opponent: CombatSideV,
}

impl View for LiveCombatSnapshot {
    type V = LiveCombatV;

    open spec fn view(&self) -> LiveCombatV {
        LiveCombatV {
            round_number: self.round_number,
            raw_game_turn: self.raw_game_turn,
            timestamp: opt_view(self.timestamp),
            opponent_player_id: self.opponent_player_id,
            lobby: lobby_view(self.lobby@),
            player: self.player@,
            opponent: self.opponent@,
        }
    }
}

} // verus!
