//! Static card metadata (HDT/HearthDb export) and CardId resolution.

use vstd::prelude::*;

use crate::harness::power::event::{clone_opt_string, opt_view};
use crate::maps::{map_of, StrMap};
use crate::text::{
    chars_eq, chars_of, ends_with, ends_with_exec, lemma_trim_clean, lemma_trim_ends, lemma_upper_char,
    set_insert, string_of, strictly_sorted, strip_suffix_chars, strs_view, trim, trim_chars, upper,
    upper_chars, upper_seq,
};

verus! {

#[derive(Debug)]
pub struct CardMeta {
    pub card_id: String,
    pub dbf_id: Option<i32>,
    pub name_zh_cn: Option<String>,
    pub name_en_us: Option<String>,
    pub text_zh_cn: Option<String>,
    pub text_en_us: Option<String>,
    pub mechanics: Vec<String>,
    /// Static Battlegrounds Activate keyword from CardDefs, not live usability.
    pub activate_keyword: bool,
    /// Present in HearthDb's current Battlegrounds minion pool.
    pub in_bacon_pool: bool,
    pub card_type: Option<String>,
    pub race: Option<String>,
    pub secondary_race: Option<String>,
    pub tavern_tier: Option<u8>,
    pub cost: Option<i32>,
    pub attack: Option<i32>,
    pub health: Option<i32>,
    pub premium: bool,
    pub normal_card_id: Option<String>,
}

pub struct CardMetaV {
    pub card_id: Seq<char>,
    pub dbf_id: Option<i32>,
    pub name_zh_cn: Option<Seq<char>>,
    pub name_en_us: Option<Seq<char>>,
    pub text_zh_cn: Option<Seq<char>>,
    pub text_en_us: Option<Seq<char>>,
    pub mechanics: Seq<Seq<char>>,
    pub activate_keyword: bool,
    pub in_bacon_pool: bool,
    pub card_type: Option<Seq<char>>,
    pub race: Option<Seq<char>>,
    pub secondary_race: Option<Seq<char>>,
    pub tavern_tier: Option<u8>,
    pub cost: Option<i32>,
    pub attack: Option<i32>,
    pub health: Option<i32>,
    pub premium: bool,
    pub normal_card_id: Option<Seq<char>>,
}

impl View for CardMeta {
    type V = CardMetaV;

    open spec fn view(&self) -> CardMetaV {
        CardMetaV {
            card_id: self.card_id@,
            dbf_id: self.dbf_id,
            name_zh_cn: opt_view(self.name_zh_cn),
            name_en_us: opt_view(self.name_en_us),
            text_zh_cn: opt_view(self.text_zh_cn),
            text_en_us: opt_view(self.text_en_us),
            mechanics: strs_view(self.mechanics@),
            activate_keyword: self.activate_keyword,
            in_bacon_pool: self.in_bacon_pool,
            card_type: opt_view(self.card_type),
            race: opt_view(self.race),
            secondary_race: opt_view(self.secondary_race),
            tavern_tier: self.tavern_tier,
            cost: self.cost,
            attack: self.attack,
            health: self.health,
            premium: self.premium,
            normal_card_id: opt_view(self.normal_card_id),
        }
    }
}

/// The first of two texts that is present and not blank.
pub open spec fn first_nonblank(a: Option<Seq<char>>, b: Option<Seq<char>>) -> Option<Seq<char>> {
    if a is Some && trim(a->0).len() > 0 {
        a
    } else if b is Some && trim(b->0).len() > 0 {
        b
    } else {
        None
    }
}

pub open spec fn opt_str_view(o: Option<&str>) -> Option<Seq<char>> {
    match o {
        Some(s) => Some(s@),
        None => None,
    }
}

fn nonblank(o: &Option<String>) -> (r: bool)
    ensures
        r == (o is Some && trim(o->0@).len() > 0),
{
    match o {
        Some(s) => trim_chars(&chars_of(s.as_str())).len() > 0,
        None => false,
    }
}

fn first_nonblank_ref<'a>(a: &'a Option<String>, b: &'a Option<String>) -> (r: Option<&'a str>)
    ensures
        opt_str_view(r) == first_nonblank(opt_view(*a), opt_view(*b)),
{
    if nonblank(a) {
        match a {
            Some(s) => Some(s.as_str()),
            None => None,
        }
    } else if nonblank(b) {
        match b {
            Some(s) => Some(s.as_str()),
            None => None,
        }
    } else {
        None
    }
}

impl CardMeta {
    pub fn preferred_name(&self) -> (r: Option<&str>)
        ensures
            opt_str_view(r) == first_nonblank(self@.name_zh_cn, self@.name_en_us),
    {
        first_nonblank_ref(&self.name_zh_cn, &self.name_en_us)
    }

    pub fn preferred_text(&self) -> (r: Option<&str>)
        ensures
            opt_str_view(r) == first_nonblank(self@.text_zh_cn, self@.text_en_us),
    {
        first_nonblank_ref(&self.text_zh_cn, &self.text_en_us)
    }
}

/// `normalize_tribe`: trimmed and upper-cased, with HearthDb race numbers and
/// aliases mapped to one name; placeholders give `None`.
pub open spec fn spec_normalize_tribe(raw: Seq<char>) -> Option<Seq<char>> {
    let u = upper_seq(trim(raw));
    if u.len() == 0 || u == "INVALID"@ || u == "ALL"@ || u == "0"@ || u == "26"@ {
        None
    } else if u == "17"@ || u == "MECHANICAL"@ || u == "MECH"@ {
        Some("MECH"@)
    } else if u == "18"@ || u == "ELEMENTAL"@ || u == "ELEMENTALS"@ {
        Some("ELEMENTALS"@)
    } else if u == "43"@ || u == "QUILBOAR"@ || u == "QUILLBOAR"@ {
        Some("QUILLBOAR"@)
    } else if u == "23"@ || u == "PIRATE"@ {
        Some("PIRATE"@)
    } else if u == "24"@ || u == "DRAGON"@ {
        Some("DRAGON"@)
    } else if u == "15"@ || u == "DEMON"@ {
        Some("DEMON"@)
    } else if u == "14"@ || u == "MURLOC"@ {
        Some("MURLOC"@)
    } else if u == "92"@ || u == "NAGA"@ {
        Some("NAGA"@)
    } else if u == "11"@ || u == "UNDEAD"@ {
        Some("UNDEAD"@)
    } else if u == "20"@ || u == "BEAST"@ {
        Some("BEAST"@)
    } else {
        Some(u)
    }
}

/// Upper-case ASCII letters only.
pub open spec fn plain_upper(s: Seq<char>) -> bool {
    forall|i: int| 0 <= i < s.len() ==> 'A' <= #[trigger] s[i] <= 'Z'
}

proof fn lemma_plain_upper_is_normal(s: Seq<char>)
    requires
        plain_upper(s),
    ensures
        upper_seq(trim(s)) == s,
{
    if s.len() > 0 {
        assert('A' <= s[0] <= 'Z');
        assert('A' <= s[s.len() - 1] <= 'Z');
    }
    lemma_trim_clean(s);
    assert(upper_seq(s) =~= s);
}

/// The upper-cased trim of a text is already upper-cased and trimmed.
proof fn lemma_normal_form_is_fixed(raw: Seq<char>)
    ensures
        upper_seq(trim(upper_seq(trim(raw)))) == upper_seq(trim(raw)),
{
    let t = trim(raw);
    lemma_trim_ends(raw);
    let u = upper_seq(t);
    if u.len() > 0 {
        lemma_upper_char(t[0]);
        lemma_upper_char(t[t.len() - 1]);
        assert(u[0] == upper(t[0]));
        assert(u[u.len() - 1] == upper(t[t.len() - 1]));
    }
    lemma_trim_clean(u);
    assert forall|i: int| 0 <= i < u.len() implies #[trigger] upper(u[i]) == u[i] by {
        lemma_upper_char(t[i]);
    }
    assert(upper_seq(u) =~= u);
}

/// Normalizing a tribe name twice gives what normalizing it once gives.
pub proof fn lemma_normalize_tribe_idempotent(raw: Seq<char>)
    ensures
        match spec_normalize_tribe(raw) {
            Some(t) => spec_normalize_tribe(t) == Some(t),
            None => true,
        },
{
    lemma_normal_form_is_fixed(raw);
    reveal_strlit("INVALID");
    reveal_strlit("ALL");
    reveal_strlit("0");
    reveal_strlit("26");
    reveal_strlit("17");
    reveal_strlit("MECHANICAL");
    reveal_strlit("MECH");
    reveal_strlit("18");
    reveal_strlit("ELEMENTAL");
    reveal_strlit("ELEMENTALS");
    reveal_strlit("43");
    reveal_strlit("QUILBOAR");
    reveal_strlit("QUILLBOAR");
    reveal_strlit("23");
    reveal_strlit("PIRATE");
    reveal_strlit("24");
    reveal_strlit("DRAGON");
    reveal_strlit("15");
    reveal_strlit("DEMON");
    reveal_strlit("14");
    reveal_strlit("MURLOC");
    reveal_strlit("92");
    reveal_strlit("NAGA");
    reveal_strlit("11");
    reveal_strlit("UNDEAD");
    reveal_strlit("20");
    reveal_strlit("BEAST");
    match spec_normalize_tribe(raw) {
        Some(t) => {
            if t != upper_seq(trim(raw)) {
                assert(plain_upper(t));
                lemma_plain_upper_is_normal(t);
            }
        },
        None => {},
    }
}

fn is_lit(u: &[char], lit: &str) -> (r: bool)
    ensures
        r == (u@ == lit@),
{
    chars_eq(u, &chars_of(lit))
}

fn lit_string(lit: &str) -> (r: String)
    ensures
        r@ == lit@,
{
    string_of(&chars_of(lit))
}

pub fn normalize_tribe_chars(raw: &[char]) -> (r: Option<String>)
    ensures
        opt_view(r) == spec_normalize_tribe(raw@),
{
    let u = upper_chars(&trim_chars(raw));
    if u.len() == 0 || is_lit(&u, "INVALID") || is_lit(&u, "ALL") || is_lit(&u, "0") || is_lit(&u, "26") {
        None
    } else if is_lit(&u, "17") || is_lit(&u, "MECHANICAL") || is_lit(&u, "MECH") {
        Some(lit_string("MECH"))
    } else if is_lit(&u, "18") || is_lit(&u, "ELEMENTAL") || is_lit(&u, "ELEMENTALS") {
        Some(lit_string("ELEMENTALS"))
    } else if is_lit(&u, "43") || is_lit(&u, "QUILBOAR") || is_lit(&u, "QUILLBOAR") {
        Some(lit_string("QUILLBOAR"))
    } else if is_lit(&u, "23") || is_lit(&u, "PIRATE") {
        Some(lit_string("PIRATE"))
    } else if is_lit(&u, "24") || is_lit(&u, "DRAGON") {
        Some(lit_string("DRAGON"))
    } else if is_lit(&u, "15") || is_lit(&u, "DEMON") {
        Some(lit_string("DEMON"))
    } else if is_lit(&u, "14") || is_lit(&u, "MURLOC") {
        Some(lit_string("MURLOC"))
    } else if is_lit(&u, "92") || is_lit(&u, "NAGA") {
        Some(lit_string("NAGA"))
    } else if is_lit(&u, "11") || is_lit(&u, "UNDEAD") {
        Some(lit_string("UNDEAD"))
    } else if is_lit(&u, "20") || is_lit(&u, "BEAST") {
        Some(lit_string("BEAST"))
    } else {
        Some(string_of(&u))
    }
}

pub fn normalize_tribe(raw: &str) -> (r: Option<String>)
    ensures
        opt_view(r) == spec_normalize_tribe(raw@),
{
    normalize_tribe_chars(&chars_of(raw))
}

/// `""` or `INVALID`, ignoring surrounding space and ASCII case.
pub open spec fn is_invalid_symbol(s: Seq<char>) -> bool {
    let u = upper_seq(trim(s));
    u.len() == 0 || u == "INVALID"@
}

fn invalid_symbol(s: &str) -> (r: bool)
    ensures
        r == is_invalid_symbol(s@),
{
    let u = upper_chars(&trim_chars(&chars_of(s)));
    u.len() == 0 || is_lit(&u, "INVALID")
}

/// The catalog a list of cards makes: later cards replace earlier ones with
/// the same CardId.
pub open spec fn catalog_of(cards: Seq<CardMetaV>) -> Map<Seq<char>, CardMetaV>
    decreases cards.len(),
{
    if cards.len() == 0 {
        Map::empty()
    } else {
        catalog_of(cards.drop_last()).insert(cards.last().card_id, cards.last())
    }
}

pub open spec fn cards_view(v: Seq<CardMeta>) -> Seq<CardMetaV> {
    v.map_values(|c: CardMeta| c@)
}

/// Every card is filed under its own CardId.
pub open spec fn keyed_by_card_id(m: Map<Seq<char>, CardMetaV>) -> bool {
    forall|k: Seq<char>| #[trigger] m.contains_key(k) ==> m[k].card_id == k
}

proof fn lemma_catalog_of_keyed(cards: Seq<CardMetaV>)
    ensures
        keyed_by_card_id(catalog_of(cards)),
    decreases cards.len(),
{
    if cards.len() > 0 {
        lemma_catalog_of_keyed(cards.drop_last());
    }
}

#[derive(Debug)]
pub struct CardCatalog {
    cards: StrMap<CardMeta>,
    source: Option<String>,
}

impl CardCatalog {
    #[verifier::type_invariant]
    spec fn inv(&self) -> bool {
        keyed_by_card_id(self.cards@)
    }

    pub closed spec fn cards_map(&self) -> Map<Seq<char>, CardMetaV> {
        self.cards@
    }

    /// The walk lists each card once, under its own CardId, and every
    /// CardId of the catalog is listed.
    pub fn lemma_card_seq(&self)
        ensures
            forall|i: int|
                0 <= i < self.card_seq().len() ==> (#[trigger] self.card_seq()[i]).1.card_id == self.card_seq()[i].0
                    && self.lookup(self.card_seq()[i].0) == Some(self.card_seq()[i].1),
            forall|k: Seq<char>|
                #[trigger] self.lookup(k) is Some ==> exists|i: int|
                    0 <= i < self.card_seq().len() && self.card_seq()[i].0 == k,
    {
        proof {
            use_type_invariant(self);
        }
        self.cards.lemma_entries();
    }

    /// Cards in walking order.
    pub closed spec fn card_seq(&self) -> Seq<(Seq<char>, CardMetaV)> {
        self.cards.entries()
    }

    pub closed spec fn source_view(&self) -> Option<Seq<char>> {
        opt_view(self.source)
    }

    pub fn empty() -> (r: CardCatalog)
        ensures
            r.cards_map() == Map::<Seq<char>, CardMetaV>::empty(),
            r.card_seq().len() == 0,
            r.source_view() is None,
    {
        CardCatalog { cards: StrMap::new(), source: None }
    }

    pub fn from_cards(cards: Vec<CardMeta>) -> (r: CardCatalog)
        ensures
            r.cards_map() == catalog_of(cards_view(cards@)),
            r.source_view() == Some("in-memory"@),
    {
        let ghost all = cards_view(cards@);
        let mut map: StrMap<CardMeta> = StrMap::new();
        let mut rest = cards;
        let mut taken: Vec<CardMeta> = Vec::new();
        let mut i: usize = 0;
        let n = rest.len();
        while i < n
            invariant
                n == all.len(),
                i <= n,
                map@ == catalog_of(all.take(i as int)),
                cards_view(rest@) == all.skip(i as int),
            decreases n - i,
        {
            assert(rest@.len() == cards_view(rest@).len());
            let ghost before = rest@;
            let card = rest.remove(0);
            assert(all.take(i + 1).drop_last() == all.take(i as int));
            assert(cards_view(before)[0] == before[0]@);
            assert(all.skip(i as int)[0] == card@);
            assert(rest@ == before.remove(0));
            assert(all.skip(i + 1) =~= cards_view(before).skip(1));
            assert(cards_view(rest@) =~= cards_view(before).skip(1));
            map.insert(chars_of(card.card_id.as_str()), card);
            i += 1;
        }
        assert(all.take(n as int) == all);
        proof {
            lemma_catalog_of_keyed(all);
        }
        CardCatalog { cards: map, source: Some(lit_string("in-memory")) }
    }

    pub fn len(&self) -> (r: usize)
        ensures
            r == self.cards_map().dom().len(),
    {
        self.cards.lemma_entries();
        self.cards.len()
    }

    pub fn is_empty(&self) -> (r: bool)
        ensures
            r == (self.cards_map().dom().len() == 0),
    {
        self.len() == 0
    }

    pub fn source(&self) -> (r: Option<&str>)
        ensures
            opt_str_view(r) == self.source_view(),
    {
        match &self.source {
            Some(s) => Some(s.as_str()),
            None => None,
        }
    }

    pub fn set_source(&mut self, source: Option<String>)
        ensures
            final(self).source_view() == opt_view(source),
            final(self).cards_map() == old(self).cards_map(),
            final(self).card_seq() == old(self).card_seq(),
    {
        proof {
            use_type_invariant(&*self);
        }
        self.source = source;
    }

    pub fn get_chars(&self, card_id: &[char]) -> (r: Option<&CardMeta>)
        ensures
            match r {
                Some(c) => self.cards_map().contains_key(card_id@) && c@ == self.cards_map()[card_id@],
                None => !self.cards_map().contains_key(card_id@),
            },
    {
        self.cards.get(card_id)
    }

    pub fn get(&self, card_id: &str) -> (r: Option<&CardMeta>)
        ensures
            match r {
                Some(c) => self.cards_map().contains_key(card_id@) && c@ == self.cards_map()[card_id@],
                None => !self.cards_map().contains_key(card_id@),
            },
    {
        self.get_chars(&chars_of(card_id))
    }

    /// Every card, in walking order.
    pub fn cards(&self) -> (r: Vec<&CardMeta>)
        ensures
            r.len() == self.card_seq().len(),
            forall|i: int| 0 <= i < r.len() ==> r[i]@ == self.card_seq()[i].1,
    {
        let mut r: Vec<&CardMeta> = Vec::new();
        let mut i: usize = 0;
        while i < self.cards.len()
            invariant
                i <= self.card_seq().len(),
                r.len() == i,
                forall|j: int| 0 <= j < i ==> r[j]@ == self.card_seq()[j].1,
            decreases self.card_seq().len() - i,
        {
            r.push(self.cards.value_at(i));
            i += 1;
        }
        r
    }

    pub open spec fn lookup(&self, id: Seq<char>) -> Option<CardMetaV> {
        if self.cards_map().contains_key(id) {
            Some(self.cards_map()[id])
        } else {
            None
        }
    }

    /// Static metadata of a CardId, falling back from a premium card to its
    /// normal counterpart (`normal_card_id`, or the id without `_G`).
    pub open spec fn spec_resolve(&self, card_id: Seq<char>) -> Option<ResolvedV> {
        let direct = self.lookup(card_id);
        let normal_id = match direct {
            Some(c) if c.normal_card_id is Some => c.normal_card_id,
            _ => if ends_with(card_id, "_G"@) {
                Some(card_id.take(card_id.len() - 2))
            } else {
                None
            },
        };
        let normal = match normal_id {
            Some(n) => self.lookup(n),
            None => None,
        };
        if direct is None && normal is None {
            None
        } else {
            Some(
                ResolvedV {
                    direct,
                    normal,
                    premium_fallback: direct is None && ends_with(card_id, "_G"@),
                },
            )
        }
    }

    pub fn resolve_chars(&self, card_id: &[char]) -> (r: Option<ResolvedCardMeta<'_>>)
        ensures
            match r {
                Some(m) => self.spec_resolve(card_id@) == Some(m@),
                None => self.spec_resolve(card_id@) is None,
            },
    {
        let direct = self.get_chars(card_id);
        let g = chars_of("_G");
        assert(g@.len() == 2) by {
            reveal_strlit("_G");
        }
        let normal_id: Option<Vec<char>> = match direct {
            Some(c) if c.normal_card_id.is_some() => match &c.normal_card_id {
                Some(n) => Some(chars_of(n.as_str())),
                None => None,
            },
            _ => strip_suffix_chars(card_id, &g),
        };
        let normal = match &normal_id {
            Some(n) => self.get_chars(n),
            None => None,
        };
        if direct.is_none() && normal.is_none() {
            return None;
        }
        let premium_fallback = direct.is_none() && ends_with_exec(card_id, &g);
        Some(ResolvedCardMeta { direct, normal, premium_fallback })
    }

    pub fn resolve(&self, card_id: &str) -> (r: Option<ResolvedCardMeta<'_>>)
        ensures
            match r {
                Some(m) => self.spec_resolve(card_id@) == Some(m@),
                None => self.spec_resolve(card_id@) is None,
            },
    {
        self.resolve_chars(&chars_of(card_id))
    }
}

pub struct ResolvedV {
    pub direct: Option<CardMetaV>,
    pub normal: Option<CardMetaV>,
    pub premium_fallback: bool,
}

#[derive(Debug, Clone, Copy)]
pub struct ResolvedCardMeta<'a> {
    direct: Option<&'a CardMeta>,
    normal: Option<&'a CardMeta>,
    premium_fallback: bool,
}

pub open spec fn opt_meta(o: Option<&CardMeta>) -> Option<CardMetaV> {
    match o {
        Some(c) => Some(c@),
        None => None,
    }
}

impl<'a> View for ResolvedCardMeta<'a> {
    type V = ResolvedV;

    closed spec fn view(&self) -> ResolvedV {
        ResolvedV { direct: opt_meta(self.direct), normal: opt_meta(self.normal), premium_fallback: self.premium_fallback }
    }
}


pub open spec fn or_else<T>(a: Option<T>, b: Option<T>) -> Option<T> {
    if a is Some {
        a
    } else {
        b
    }
}

pub open spec fn opt_set(o: Option<Seq<char>>) -> Set<Seq<char>> {
    match o {
        Some(s) => set![s],
        None => Set::empty(),
    }
}

/// Normalized tribes named by a card's race fields.
pub open spec fn race_set(c: CardMetaV) -> Set<Seq<char>> {
    opt_set(
        match c.race {
            Some(r) => spec_normalize_tribe(r),
            None => None,
        },
    ).union(
        opt_set(
            match c.secondary_race {
                Some(r) => spec_normalize_tribe(r),
                None => None,
            },
        ),
    )
}

pub open spec fn nonzero_tier(t: Option<u8>) -> Option<u8> {
    match t {
        Some(v) => if v > 0 {
            Some(v)
        } else {
            None
        },
        None => None,
    }
}

pub open spec fn valid_type(c: CardMetaV) -> Option<Seq<char>> {
    match c.card_type {
        Some(t) => if is_invalid_symbol(t) {
            None
        } else {
            Some(t)
        },
        None => None,
    }
}

impl ResolvedV {
    pub open spec fn card_id(self) -> Seq<char> {
        match self.direct {
            Some(c) => c.card_id,
            None => match self.normal {
                Some(c) => c.card_id,
                None => Seq::empty(),
            },
        }
    }

    pub open spec fn name(self) -> Option<Seq<char>> {
        or_else(
            match self.direct {
                Some(c) => first_nonblank(c.name_zh_cn, c.name_en_us),
                None => None,
            },
            match self.normal {
                Some(c) => first_nonblank(c.name_zh_cn, c.name_en_us),
                None => None,
            },
        )
    }

    pub open spec fn text(self) -> Option<Seq<char>> {
        or_else(
            match self.direct {
                Some(c) => first_nonblank(c.text_zh_cn, c.text_en_us),
                None => None,
            },
            match self.normal {
                Some(c) => first_nonblank(c.text_zh_cn, c.text_en_us),
                None => None,
            },
        )
    }

    /// The direct card's mechanics, or the normal card's when there are none.
    pub open spec fn mechanic_set(self) -> Set<Seq<char>> {
        let d = match self.direct {
            Some(c) => c.mechanics.to_set(),
            None => Set::empty(),
        };
        if d.len() > 0 {
            d
        } else {
            match self.normal {
                Some(c) => c.mechanics.to_set(),
                None => Set::empty(),
            }
        }
    }

    /// The direct card's tribes, or the normal card's when there are none.
    pub open spec fn tribe_set(self) -> Set<Seq<char>> {
        let d = match self.direct {
            Some(c) => race_set(c),
            None => Set::empty(),
        };
        if d.len() > 0 {
            d
        } else {
            match self.normal {
                Some(c) => race_set(c),
                None => Set::empty(),
            }
        }
    }

    pub open spec fn activate_keyword(self) -> bool {
        (self.direct is Some && self.direct->0.activate_keyword) || (self.normal is Some
            && self.normal->0.activate_keyword)
    }

    pub open spec fn in_bacon_pool(self) -> bool {
        (self.direct is Some && self.direct->0.in_bacon_pool) || (self.normal is Some
            && self.normal->0.in_bacon_pool)
    }

    pub open spec fn card_type(self) -> Option<Seq<char>> {
        or_else(
            match self.direct {
                Some(c) => valid_type(c),
                None => None,
            },
            match self.normal {
                Some(c) => valid_type(c),
                None => None,
            },
        )
    }

    pub open spec fn tavern_tier(self) -> Option<u8> {
        or_else(
            match self.direct {
                Some(c) => nonzero_tier(c.tavern_tier),
                None => None,
            },
            match self.normal {
                Some(c) => nonzero_tier(c.tavern_tier),
                None => None,
            },
        )
    }

    pub open spec fn cost(self) -> Option<i32> {
        or_else(
            match self.direct {
                Some(c) => c.cost,
                None => None,
            },
            match self.normal {
                Some(c) => c.cost,
                None => None,
            },
        )
    }

    pub open spec fn attack(self) -> Option<i32> {
        or_else(
            match self.direct {
                Some(c) => c.attack,
                None => None,
            },
            match self.normal {
                Some(c) => c.attack,
                None => None,
            },
        )
    }

    pub open spec fn health(self) -> Option<i32> {
        or_else(
            match self.direct {
                Some(c) => c.health,
                None => None,
            },
            match self.normal {
                Some(c) => c.health,
                None => None,
            },
        )
    }

    pub open spec fn normal_card_id(self) -> Option<Seq<char>> {
        or_else(
            match self.direct {
                Some(c) => c.normal_card_id,
                None => None,
            },
            match self.normal {
                Some(c) => Some(c.card_id),
                None => None,
            },
        )
    }

    pub open spec fn premium(self) -> bool {
        (self.direct is Some && self.direct->0.premium) || self.normal_card_id() is Some
            || self.premium_fallback
    }
}

pub proof fn lemma_set_empty_len(s: Seq<Seq<char>>)
    ensures
        (s.len() == 0) == (s.to_set().len() == 0),
{
    s.lemma_cardinality_of_empty_set_is_0();
}

/// Adds every string of `items` to the strictly sorted `set`.
fn extend_set(set: &mut Vec<String>, items: &Vec<String>)
    requires
        strictly_sorted(strs_view(old(set)@)),
    ensures
        strictly_sorted(strs_view(final(set)@)),
        strs_view(final(set)@).to_set() == strs_view(old(set)@).to_set().union(strs_view(items@).to_set()),
{
    let ghost start = strs_view(set@).to_set();
    let mut i: usize = 0;
    while i < items.len()
        invariant
            i <= items.len(),
            strictly_sorted(strs_view(set@)),
            strs_view(set@).to_set() == start.union(strs_view(items@).take(i as int).to_set()),
        decreases items.len() - i,
    {
        set_insert(set, items[i].clone());
        assert(strs_view(items@).take(i + 1) == strs_view(items@).take(i as int).push(items@[i as int]@));
        proof {
            strs_view(items@).take(i as int).lemma_push_to_set_commute(items@[i as int]@);
        }
        i += 1;
    }
    assert(strs_view(items@).take(items.len() as int) == strs_view(items@));
}

fn race_into(set: &mut Vec<String>, race: &Option<String>)
    requires
        strictly_sorted(strs_view(old(set)@)),
    ensures
        strictly_sorted(strs_view(final(set)@)),
        strs_view(final(set)@).to_set() == strs_view(old(set)@).to_set().union(
            opt_set(
                match opt_view(*race) {
                    Some(r) => spec_normalize_tribe(r),
                    None => None,
                },
            ),
        ),
{
    if let Some(r) = race {
        if let Some(n) = normalize_tribe(r.as_str()) {
            let ghost nv = n@;
            set_insert(set, n);
            assert(strs_view(set@).to_set() =~= strs_view(old(set)@).to_set().union(set![nv]));
            return;
        }
    }
    assert(strs_view(set@).to_set() =~= strs_view(old(set)@).to_set().union(Set::empty()));
}

fn race_set_of(c: &CardMeta) -> (r: Vec<String>)
    ensures
        strictly_sorted(strs_view(r@)),
        strs_view(r@).to_set() == race_set(c@),
{
    let mut set: Vec<String> = Vec::new();
    assert(strs_view(set@).to_set() =~= Set::<Seq<char>>::empty());
    race_into(&mut set, &c.race);
    race_into(&mut set, &c.secondary_race);
    assert(strs_view(set@).to_set() =~= race_set(c@));
    set
}

fn mechanic_set_of(c: &CardMeta) -> (r: Vec<String>)
    ensures
        strictly_sorted(strs_view(r@)),
        strs_view(r@).to_set() == c@.mechanics.to_set(),
{
    let mut set: Vec<String> = Vec::new();
    assert(strs_view(set@).to_set() =~= Set::<Seq<char>>::empty());
    extend_set(&mut set, &c.mechanics);
    assert(strs_view(set@).to_set() =~= c@.mechanics.to_set());
    set
}

fn first_some_i32(a: Option<i32>, b: Option<i32>) -> (r: Option<i32>)
    ensures
        r == or_else(a, b),
{
    if a.is_some() {
        a
    } else {
        b
    }
}

impl<'a> ResolvedCardMeta<'a> {
    pub fn card_id(&self) -> (r: &str)
        ensures
            r@ == self@.card_id(),
    {
        match self.direct {
            Some(c) => c.card_id.as_str(),
            None => match self.normal {
                Some(c) => c.card_id.as_str(),
                None => {
                    proof { reveal_strlit(""); }
                    ""
                },
            },
        }
    }

    pub fn preferred_name(&self) -> (r: Option<&'a str>)
        ensures
            opt_str_view(r) == self@.name(),
    {
        let d = match self.direct {
            Some(c) => c.preferred_name(),
            None => None,
        };
        if d.is_some() {
            return d;
        }
        match self.normal {
            Some(c) => c.preferred_name(),
            None => None,
        }
    }

    pub fn preferred_text(&self) -> (r: Option<&'a str>)
        ensures
            opt_str_view(r) == self@.text(),
    {
        let d = match self.direct {
            Some(c) => c.preferred_text(),
            None => None,
        };
        if d.is_some() {
            return d;
        }
        match self.normal {
            Some(c) => c.preferred_text(),
            None => None,
        }
    }

    /// Sorted, distinct mechanics.
    pub fn mechanics(&self) -> (r: Vec<String>)
        ensures
            strictly_sorted(strs_view(r@)),
            strs_view(r@).to_set() == self@.mechanic_set(),
    {
        let mut set: Vec<String> = Vec::new();
        assert(strs_view(set@).to_set() =~= Set::<Seq<char>>::empty());
        if let Some(direct) = self.direct {
            set = mechanic_set_of(direct);
        }
        proof { lemma_set_empty_len(strs_view(set@)); }
        if set.len() == 0 {
            if let Some(normal) = self.normal {
                set = mechanic_set_of(normal);
            }
        }
        set
    }

    /// Sorted, distinct normalized tribes.
    pub fn tribes(&self) -> (r: Vec<String>)
        ensures
            strictly_sorted(strs_view(r@)),
            strs_view(r@).to_set() == self@.tribe_set(),
    {
        let mut set: Vec<String> = Vec::new();
        assert(strs_view(set@).to_set() =~= Set::<Seq<char>>::empty());
        if let Some(direct) = self.direct {
            set = race_set_of(direct);
        }
        proof { lemma_set_empty_len(strs_view(set@)); }
        if set.len() == 0 {
            if let Some(normal) = self.normal {
                set = race_set_of(normal);
            }
        }
        set
    }

    /// Static CardDefs keyword, not live usability.
    pub fn activate_keyword(&self) -> (r: bool)
        ensures
            r == self@.activate_keyword(),
    {
        (match self.direct {
            Some(c) => c.activate_keyword,
            None => false,
        }) || (match self.normal {
            Some(c) => c.activate_keyword,
            None => false,
        })
    }

    /// Current Battlegrounds minion-pool membership; premium cards inherit it.
    pub fn in_bacon_pool(&self) -> (r: bool)
        ensures
            r == self@.in_bacon_pool(),
    {
        (match self.direct {
            Some(c) => c.in_bacon_pool,
            None => false,
        }) || (match self.normal {
            Some(c) => c.in_bacon_pool,
            None => false,
        })
    }

    pub fn card_type(&self) -> (r: Option<&'a str>)
        ensures
            opt_str_view(r) == self@.card_type(),
    {
        if let Some(c) = self.direct {
            if let Some(t) = &c.card_type {
                if !invalid_symbol(t.as_str()) {
                    return Some(t.as_str());
                }
            }
        }
        if let Some(c) = self.normal {
            if let Some(t) = &c.card_type {
                if !invalid_symbol(t.as_str()) {
                    return Some(t.as_str());
                }
            }
        }
        None
    }

    pub fn tavern_tier(&self) -> (r: Option<u8>)
        ensures
            r == self@.tavern_tier(),
    {
        if let Some(c) = self.direct {
            if let Some(t) = c.tavern_tier {
                if t > 0 {
                    return Some(t);
                }
            }
        }
        if let Some(c) = self.normal {
            if let Some(t) = c.tavern_tier {
                if t > 0 {
                    return Some(t);
                }
            }
        }
        None
    }

    pub fn cost(&self) -> (r: Option<i32>)
        ensures
            r == self@.cost(),
    {
        first_some_i32(
            match self.direct {
                Some(c) => c.cost,
                None => None,
            },
            match self.normal {
                Some(c) => c.cost,
                None => None,
            },
        )
    }

    pub fn attack(&self) -> (r: Option<i32>)
        ensures
            r == self@.attack(),
    {
        first_some_i32(
            match self.direct {
                Some(c) => c.attack,
                None => None,
            },
            match self.normal {
                Some(c) => c.attack,
                None => None,
            },
        )
    }

    pub fn health(&self) -> (r: Option<i32>)
        ensures
            r == self@.health(),
    {
        first_some_i32(
            match self.direct {
                Some(c) => c.health,
                None => None,
            },
            match self.normal {
                Some(c) => c.health,
                None => None,
            },
        )
    }

    pub fn normal_card_id(&self) -> (r: Option<&'a str>)
        ensures
            opt_str_view(r) == self@.normal_card_id(),
    {
        if let Some(c) = self.direct {
            if let Some(n) = &c.normal_card_id {
                return Some(n.as_str());
            }
        }
        match self.normal {
            Some(c) => Some(c.card_id.as_str()),
            None => None,
        }
    }

    pub fn premium(&self) -> (r: bool)
        ensures
            r == self@.premium(),
    {
        (match self.direct {
            Some(c) => c.premium,
            None => false,
        }) || self.normal_card_id().is_some() || self.premium_fallback
    }
}

} // verus!
