//! Current Battlegrounds card facts drawn from the card catalog: the minion
//! pool of a match and the text that states it to the planner.

use vstd::prelude::*;

use crate::harness::card_catalog::{opt_str_view, CardCatalog, CardMeta, CardMetaV, ResolvedV};
use crate::harness::state::snapshot::{clone_strings, lemma_sorted_of, owned_str, sorted_of};
use crate::text::{
    chars_eq, chars_of, eq_ignore_ascii_case, eq_ignore_case, is_whitespace, is_ws, lex_less, lex_lt,
    set_insert, strictly_sorted, string_of, strs_view, trim, trim_chars, u64_text, upper_chars,
    upper_seq, push_str,
};

verus! {

broadcast use vstd::seq_lib::group_to_multiset_ensures, vstd::multiset::group_multiset_axioms;

#[derive(Debug, Clone)]
pub struct KnowledgeStats {
    pub source: String,
    pub total_cards: usize,
    pub bacon_pool_minions: usize,
}

/// Current Battlegrounds factual knowledge backed by the card catalog.
///
/// The planner is deliberately not a source of card facts. This layer decides
/// which minions are currently in the pool and supplies CardId, name, tier
/// and text; planner output is validated against the same layer afterwards.
#[derive(Debug)]
pub struct HdtKnowledgeBase {
    catalog: CardCatalog,
    stats: KnowledgeStats,
}

#[derive(Debug, Clone)]
pub struct KnowledgeCard {
    pub card_id: String,
    pub name: String,
    pub tavern_tier: u8,
    pub tribes: Vec<String>,
    pub text: String,
    pub mechanics: Vec<String>,
}

pub struct KnowledgeCardV {
    pub card_id: Seq<char>,
    pub name: Seq<char>,
    pub tavern_tier: u8,
    pub tribes: Seq<Seq<char>>,
    pub text: Seq<char>,
    pub mechanics: Seq<Seq<char>>,
}

impl View for KnowledgeCard {
    type V = KnowledgeCardV;

    open spec fn view(&self) -> KnowledgeCardV {
        KnowledgeCardV {
            card_id: self.card_id@,
            name: self.name@,
            tavern_tier: self.tavern_tier,
            tribes: strs_view(self.tribes@),
            text: self.text@,
            mechanics: strs_view(self.mechanics@),
        }
    }
}

pub open spec fn knowledge_view(v: Seq<KnowledgeCard>) -> Seq<KnowledgeCardV> {
    v.map_values(|c: KnowledgeCard| c@)
}

/// A current normal pool minion: in the Battlegrounds pool, not premium,
/// with a positive tier, and typed MINION (any ASCII case).
pub open spec fn normal_pool_minion(c: CardMetaV) -> bool {
    &&& c.in_bacon_pool
    &&& !c.premium
    &&& c.tavern_tier is Some && c.tavern_tier->0 > 0
    &&& c.card_type is Some && eq_ignore_case(c.card_type->0, "MINION"@)
}

fn is_normal_pool_minion(c: &CardMeta) -> (r: bool)
    ensures
        r == normal_pool_minion(c@),
{
    let tier_ok = match c.tavern_tier {
        Some(t) => t > 0,
        None => false,
    };
    let type_ok = match &c.card_type {
        Some(t) => eq_ignore_ascii_case(&chars_of(t.as_str()), &chars_of("MINION")),
        None => false,
    };
    c.in_bacon_pool && !c.premium && tier_ok && type_ok
}

/// The match's tribes, trimmed and upper-cased.
pub open spec fn allowed_v(available: Seq<Seq<char>>) -> Set<Seq<char>> {
    Set::new(|u: Seq<char>| exists|i: int| 0 <= i < available.len() && upper_seq(trim(available[i])) == u)
}

/// A neutral minion, an unknown tribe pool, or a tribe of the match.
pub open spec fn tribes_allowed_v(tribes: Seq<Seq<char>>, available: Seq<Seq<char>>) -> bool {
    tribes.len() == 0 || available.len() == 0 || exists|k: int|
        0 <= k < tribes.len() && allowed_v(available).contains(upper_seq(tribes[k]))
}

fn allowed_contains(available: &Vec<String>, u: &Vec<char>) -> (r: bool)
    ensures
        r == allowed_v(strs_view(available@)).contains(u@),
{
    let mut i: usize = 0;
    while i < available.len()
        invariant
            i <= available@.len(),
            forall|k: int| 0 <= k < i ==> upper_seq(trim(strs_view(available@)[k])) != u@,
        decreases available@.len() - i,
    {
        let a = upper_chars(&trim_chars(&chars_of(available[i].as_str())));
        if chars_eq(&a, u) {
            assert(upper_seq(trim(strs_view(available@)[i as int])) == u@);
            return true;
        }
        i += 1;
    }
    false
}

fn tribes_allowed(tribes: &Vec<String>, available: &Vec<String>) -> (r: bool)
    ensures
        r == tribes_allowed_v(strs_view(tribes@), strs_view(available@)),
{
    if tribes.len() == 0 || available.len() == 0 {
        return true;
    }
    let mut k: usize = 0;
    while k < tribes.len()
        invariant
            k <= tribes@.len(),
            forall|m: int| 0 <= m < k ==> !allowed_v(strs_view(available@)).contains(upper_seq(strs_view(tribes@)[m])),
        decreases tribes@.len() - k,
    {
        if allowed_contains(available, &upper_chars(&chars_of(tribes[k].as_str()))) {
            assert(strs_view(tribes@)[k as int] == tribes@[k as int]@);
            return true;
        }
        k += 1;
    }
    false
}

/// State of whitespace collapsing: the text so far and whether a gap is due.
pub struct Collapse {
    pub out: Seq<char>,
    pub gap: bool,
}

pub open spec fn collapse_fold(s: Seq<char>) -> Collapse
    decreases s.len(),
{
    if s.len() == 0 {
        Collapse { out: Seq::empty(), gap: false }
    } else {
        let st = collapse_fold(s.drop_last());
        let c = s.last();
        if is_ws(c) {
            Collapse { out: st.out, gap: true }
        } else if st.gap && st.out.len() > 0 {
            Collapse { out: st.out + seq![' ', c], gap: false }
        } else {
            Collapse { out: st.out.push(c), gap: false }
        }
    }
}

/// The words of `s` joined by single spaces.
pub open spec fn sanitize_v(s: Seq<char>) -> Seq<char> {
    collapse_fold(s).out
}

pub fn sanitize(text: &str) -> (r: String)
    ensures
        r@ == sanitize_v(text@),
{
    let s = chars_of(text);
    let mut out: Vec<char> = Vec::new();
    let mut gap = false;
    let mut i: usize = 0;
    while i < s.len()
        invariant
            i <= s@.len(),
            s@ == text@,
            collapse_fold(s@.take(i as int)) == (Collapse { out: out@, gap }),
        decreases s@.len() - i,
    {
        let c = s[i];
        assert(s@.take(i + 1).drop_last() =~= s@.take(i as int));
        if is_whitespace(c) {
            gap = true;
        } else if gap && out.len() > 0 {
            let ghost before = out@;
            out.push(' ');
            out.push(c);
            assert(out@ =~= before + seq![' ', c]);
            gap = false;
        } else {
            out.push(c);
            gap = false;
        }
        i += 1;
    }
    assert(s@.take(i as int) =~= s@);
    string_of(&out)
}

/// The pool card that catalog entry `c` gives, if any: it must resolve and
/// have a tier, and its tribes must be allowed in the match.
pub open spec fn pool_card_v(cat: &CardCatalog, c: CardMetaV, available: Seq<Seq<char>>) -> Option<KnowledgeCardV> {
    match cat.spec_resolve(c.card_id) {
        Some(r) => {
            let tribes = sorted_of(r.tribe_set());
            if tribes_allowed_v(tribes, available) && r.tavern_tier() is Some {
                Some(
                    KnowledgeCardV {
                        card_id: c.card_id,
                        name: match r.name() {
                            Some(n) => n,
                            None => c.card_id,
                        },
                        tavern_tier: r.tavern_tier()->0,
                        tribes,
                        text: sanitize_v(
                            match r.text() {
                                Some(t) => t,
                                None => Seq::empty(),
                            },
                        ),
                        mechanics: sorted_of(r.mechanic_set()),
                    },
                )
            } else {
                None
            }
        },
        None => None,
    }
}

/// Pool cards of catalog entries `0..k`, in walking order.
pub open spec fn pool_upto(cat: &CardCatalog, k: int, available: Seq<Seq<char>>) -> Seq<KnowledgeCardV>
    decreases k,
{
    if k <= 0 {
        Seq::empty()
    } else {
        let prev = pool_upto(cat, k - 1, available);
        let c = cat.card_seq()[k - 1].1;
        if normal_pool_minion(c) && pool_card_v(cat, c, available) is Some {
            prev.push(pool_card_v(cat, c, available)->0)
        } else {
            prev
        }
    }
}

/// The catalog walk lists each card under its own CardId.
pub open spec fn walk_keyed(cat: &CardCatalog) -> bool {
    forall|i: int|
        0 <= i < cat.card_seq().len() ==> (#[trigger] cat.card_seq()[i]).1.card_id == cat.card_seq()[i].0
            && cat.lookup(cat.card_seq()[i].0) == Some(cat.card_seq()[i].1)
}

/// A normal pool minion filed under its own CardId resolves with a tier.
proof fn lemma_entry_has_tier(cat: &CardCatalog, i: int)
    requires
        walk_keyed(cat),
        0 <= i < cat.card_seq().len(),
        normal_pool_minion(cat.card_seq()[i].1),
    ensures
        cat.spec_resolve(cat.card_seq()[i].1.card_id) is Some,
        cat.spec_resolve(cat.card_seq()[i].1.card_id)->0.tavern_tier() is Some,
{
    let c = cat.card_seq()[i].1;
    assert(cat.lookup(c.card_id) == Some(c));
}

/// Counting the pool minions the match allows gives the pool's length.
pub proof fn lemma_pool_count_is_pool_len(cat: &CardCatalog, k: int, available: Seq<Seq<char>>)
    requires
        walk_keyed(cat),
        0 <= k <= cat.card_seq().len(),
    ensures
        pool_count_upto(cat, k, available) == pool_upto(cat, k, available).len(),
    decreases k,
{
    if k > 0 {
        lemma_pool_count_is_pool_len(cat, k - 1, available);
        let c = cat.card_seq()[k - 1].1;
        if normal_pool_minion(c) {
            lemma_entry_has_tier(cat, k - 1);
        }
    }
}

/// An entry that yields a pool card has that card in the pool.
proof fn lemma_pool_upto_has(cat: &CardCatalog, k: int, available: Seq<Seq<char>>, i: int)
    requires
        0 <= i < k,
        normal_pool_minion(cat.card_seq()[i].1),
        pool_card_v(cat, cat.card_seq()[i].1, available) is Some,
    ensures
        exists|j: int|
            0 <= j < pool_upto(cat, k, available).len() && pool_upto(cat, k, available)[j] == pool_card_v(
                cat,
                cat.card_seq()[i].1,
                available,
            )->0,
    decreases k,
{
    let p = pool_upto(cat, k, available);
    if i == k - 1 {
        assert(p[p.len() - 1] == pool_card_v(cat, cat.card_seq()[i].1, available)->0);
    } else {
        lemma_pool_upto_has(cat, k - 1, available, i);
        let q = pool_upto(cat, k - 1, available);
        let j = choose|j: int| 0 <= j < q.len() && q[j] == pool_card_v(cat, cat.card_seq()[i].1, available)->0;
        assert(p[j] == q[j]);
    }
}

/// Every pool card comes from a catalog entry that yields it.
proof fn lemma_pool_upto_from(cat: &CardCatalog, k: int, available: Seq<Seq<char>>, j: int)
    requires
        0 <= j < pool_upto(cat, k, available).len(),
    ensures
        exists|i: int|
            0 <= i < k && normal_pool_minion(#[trigger] cat.card_seq()[i].1) && pool_card_v(cat, cat.card_seq()[i].1, available)
                == Some(pool_upto(cat, k, available)[j]),
    decreases k,
{
    if k > 0 {
        let q = pool_upto(cat, k - 1, available);
        if j < q.len() {
            lemma_pool_upto_from(cat, k - 1, available, j);
            assert(pool_upto(cat, k, available)[j] == q[j]);
            let i = choose|i: int|
                0 <= i < k - 1 && normal_pool_minion(#[trigger] cat.card_seq()[i].1) && pool_card_v(
                    cat,
                    cat.card_seq()[i].1,
                    available,
                ) == Some(q[j]);
            assert(0 <= i < k);
        } else {
            assert(normal_pool_minion(cat.card_seq()[k - 1].1));
        }
    }
}

/// The golden CardId `n_G` of a pool card `n` that the catalog does not list
/// itself validates to `n`.
pub proof fn lemma_golden_id_validates(cat: &CardCatalog, available: Seq<Seq<char>>, j: int)
    requires
        walk_keyed(cat),
        0 <= j < pool_upto(cat, cat.card_seq().len() as int, available).len(),
        cat.lookup(pool_upto(cat, cat.card_seq().len() as int, available)[j].card_id + "_G"@) is None,
    ensures
        validate_v(
            cat,
            pool_upto(cat, cat.card_seq().len() as int, available)[j].card_id + "_G"@,
            available,
        ) == Some(pool_upto(cat, cat.card_seq().len() as int, available)[j].card_id),
{
    reveal_strlit("_G");
    let p = pool_upto(cat, cat.card_seq().len() as int, available);
    let n = p[j].card_id;
    let id = n + "_G"@;
    lemma_pool_upto_from(cat, cat.card_seq().len() as int, available, j);
    let i = choose|i: int|
        0 <= i < cat.card_seq().len() && normal_pool_minion(#[trigger] cat.card_seq()[i].1) && pool_card_v(
            cat,
            cat.card_seq()[i].1,
            available,
        ) == Some(p[j]);
    let c = cat.card_seq()[i].1;
    assert(c.card_id == n);
    assert(cat.lookup(n) == Some(c));
    assert(id.skip(id.len() - 2) =~= "_G"@);
    assert(crate::text::ends_with(id, "_G"@));
    assert(id.take(id.len() - 2) =~= n);
    assert(cat.spec_resolve(id)->0.normal_card_id() == Some(n));
}

/// A CardId that passes validation is the CardId of a card in the pool.
pub proof fn lemma_validated_in_pool(cat: &CardCatalog, id: Seq<char>, available: Seq<Seq<char>>)
    requires
        walk_keyed(cat),
        forall|k: Seq<char>|
            #[trigger] cat.lookup(k) is Some ==> exists|i: int| 0 <= i < cat.card_seq().len() && cat.card_seq()[i].0 == k,
        validate_v(cat, id, available) is Some,
    ensures
        exists|j: int|
            0 <= j < pool_upto(cat, cat.card_seq().len() as int, available).len() && pool_upto(
                cat,
                cat.card_seq().len() as int,
                available,
            )[j].card_id == validate_v(cat, id, available)->0,
{
    let c = validate_v(cat, id, available)->0;
    assert(cat.lookup(c) is Some);
    let i = choose|i: int| 0 <= i < cat.card_seq().len() && cat.card_seq()[i].0 == c;
    assert(cat.card_seq()[i].1 == cat.lookup(c)->0);
    lemma_entry_has_tier(cat, i);
    lemma_pool_upto_has(cat, cat.card_seq().len() as int, available, i);
}

/// Pool order: by tier, then name, then CardId.
pub open spec fn pool_le(a: KnowledgeCardV, b: KnowledgeCardV) -> bool {
    a.tavern_tier < b.tavern_tier || (a.tavern_tier == b.tavern_tier && (lex_lt(a.name, b.name) || (a.name
        == b.name && (lex_lt(a.card_id, b.card_id) || a.card_id == b.card_id))))
}

pub open spec fn pool_sorted(s: Seq<KnowledgeCardV>) -> bool {
    forall|i: int, j: int| 0 <= i < j < s.len() ==> pool_le(s[i], s[j])
}

fn pool_before(a: &KnowledgeCard, b: &KnowledgeCard) -> (r: bool)
    ensures
        r == !pool_le(b@, a@),
{
    proof {
        crate::text::lemma_lex_total(a.name@, b.name@);
        crate::text::lemma_lex_total(a.card_id@, b.card_id@);
        if lex_lt(a.name@, b.name@) {
            crate::text::lemma_lex_asym(a.name@, b.name@);
        }
        if lex_lt(b.name@, a.name@) {
            crate::text::lemma_lex_asym(b.name@, a.name@);
        }
        if lex_lt(a.card_id@, b.card_id@) {
            crate::text::lemma_lex_asym(a.card_id@, b.card_id@);
        }
        if lex_lt(b.card_id@, a.card_id@) {
            crate::text::lemma_lex_asym(b.card_id@, a.card_id@);
        }
    }
    if a.tavern_tier != b.tavern_tier {
        return a.tavern_tier < b.tavern_tier;
    }
    let an = chars_of(a.name.as_str());
    let bn = chars_of(b.name.as_str());
    if !chars_eq(&an, &bn) {
        return lex_less(&an, &bn);
    }
    lex_less(&chars_of(a.card_id.as_str()), &chars_of(b.card_id.as_str()))
}

proof fn lemma_pool_le_total(a: KnowledgeCardV, b: KnowledgeCardV)
    ensures
        pool_le(a, b) || pool_le(b, a),
{
    crate::text::lemma_lex_total(a.name, b.name);
    crate::text::lemma_lex_total(a.card_id, b.card_id);
}

proof fn lemma_pool_le_trans(a: KnowledgeCardV, b: KnowledgeCardV, c: KnowledgeCardV)
    requires
        pool_le(a, b),
        pool_le(b, c),
    ensures
        pool_le(a, c),
{
    if lex_lt(a.name, b.name) && lex_lt(b.name, c.name) {
        crate::text::lemma_lex_trans(a.name, b.name, c.name);
    }
    if a.name == b.name && b.name == c.name && lex_lt(a.card_id, b.card_id) && lex_lt(b.card_id, c.card_id) {
        crate::text::lemma_lex_trans(a.card_id, b.card_id, c.card_id);
    }
}

/// Where `c` goes in `s` when looking from `j` on: before the first card
/// that sorts after it, else at the end.
pub open spec fn place_from(s: Seq<KnowledgeCardV>, c: KnowledgeCardV, j: int) -> int
    decreases s.len() - j,
{
    if j < 0 || j >= s.len() {
        s.len() as int
    } else if !pool_le(s[j], c) {
        j
    } else {
        place_from(s, c, j + 1)
    }
}

/// `s` with `c` placed after every card that does not sort after it.
pub open spec fn placed(s: Seq<KnowledgeCardV>, c: KnowledgeCardV) -> Seq<KnowledgeCardV> {
    s.insert(place_from(s, c, 0), c)
}

/// The pool of catalog entries `0..k`, each placed in turn as it is walked.
pub open spec fn sorted_pool_upto(cat: &CardCatalog, k: int, available: Seq<Seq<char>>) -> Seq<KnowledgeCardV>
    decreases k,
{
    if k <= 0 {
        Seq::empty()
    } else {
        let prev = sorted_pool_upto(cat, k - 1, available);
        let c = cat.card_seq()[k - 1].1;
        if normal_pool_minion(c) && pool_card_v(cat, c, available) is Some {
            placed(prev, pool_card_v(cat, c, available)->0)
        } else {
            prev
        }
    }
}

/// Inserts `c` after every card that does not sort after it.
fn insert_pool(v: &mut Vec<KnowledgeCard>, c: KnowledgeCard)
    requires
        pool_sorted(knowledge_view(old(v)@)),
    ensures
        pool_sorted(knowledge_view(final(v)@)),
        knowledge_view(final(v)@).to_multiset() == knowledge_view(old(v)@).to_multiset().insert(c@),
        knowledge_view(final(v)@) == placed(knowledge_view(old(v)@), c@),
        final(v)@.len() == old(v)@.len() + 1,
{
    let ghost s = knowledge_view(v@);
    let mut j: usize = 0;
    while j < v.len() && !pool_before(&c, &v[j])
        invariant
            j <= v.len(),
            knowledge_view(v@) == s,
            forall|k: int| 0 <= k < j ==> pool_le(#[trigger] s[k], c@),
            place_from(s, c@, j as int) == place_from(s, c@, 0),
        decreases v.len() - j,
    {
        j += 1;
    }
    assert(place_from(s, c@, j as int) == j as int);
    let ghost cv = c@;
    v.insert(j, c);
    let ghost t = knowledge_view(v@);
    assert(t =~= s.insert(j as int, cv));
    assert(t.remove(j as int) =~= s);
    assert(t[j as int] == cv);
    assert(t.to_multiset().contains(cv)) by {
        assert(t.contains(cv));
    }
    assert(t.to_multiset() =~= s.to_multiset().insert(cv));
    assert forall|a: int, b: int| 0 <= a < b < t.len() implies pool_le(t[a], t[b]) by {
        if j < s.len() {
            lemma_pool_le_total(s[j as int], cv);
        }
        if b < j {
        } else if a < j && b == j {
        } else if a < j && b > j {
            assert(t[b] == s[b - 1]);
            if j < s.len() {
                if b - 1 > j {
                    lemma_pool_le_trans(cv, s[j as int], s[b - 1]);
                }
                lemma_pool_le_trans(s[a], cv, s[b - 1]);
            }
        } else if a == j {
            assert(t[b] == s[b - 1]);
            if b - 1 > j {
                lemma_pool_le_trans(cv, s[j as int], s[b - 1]);
            }
        } else {
            assert(t[a] == s[a - 1]);
            assert(t[b] == s[b - 1]);
        }
    }
}

impl HdtKnowledgeBase {
    pub closed spec fn catalog_v(&self) -> CardCatalog {
        self.catalog
    }

    pub closed spec fn stats_v(&self) -> KnowledgeStats {
        self.stats
    }

    /// Number of catalog entries among `0..k` that are in the pool and not
    /// premium.
    pub open spec fn bacon_upto(cat: &CardCatalog, k: int) -> int
        decreases k,
    {
        if k <= 0 {
            0
        } else {
            HdtKnowledgeBase::bacon_upto(cat, k - 1) + if cat.card_seq()[k - 1].1.in_bacon_pool
                && !cat.card_seq()[k - 1].1.premium {
                1int
            } else {
                0int
            }
        }
    }

    pub fn from_catalog(catalog: CardCatalog) -> (r: HdtKnowledgeBase)
        ensures
            r.catalog_v() == catalog,
            r.stats_v().total_cards == catalog.cards_map().dom().len(),
            r.stats_v().bacon_pool_minions == HdtKnowledgeBase::bacon_upto(&catalog, catalog.card_seq().len() as int),
            r.stats_v().source@ == (match catalog.source_view() {
                Some(s) => s,
                None => "unknown"@,
            }),
    {
        let cards = catalog.cards();
        let mut count: usize = 0;
        let mut i: usize = 0;
        while i < cards.len()
            invariant
                i <= cards.len(),
                cards.len() == catalog.card_seq().len(),
                forall|k: int| 0 <= k < cards.len() ==> cards[k]@ == catalog.card_seq()[k].1,
                count == HdtKnowledgeBase::bacon_upto(&catalog, i as int),
                count <= i,
            decreases cards.len() - i,
        {
            if cards[i].in_bacon_pool && !cards[i].premium {
                count += 1;
            }
            i += 1;
        }
        let source = match catalog.source() {
            Some(s) => string_of(&chars_of(s)),
            None => string_of(&chars_of("unknown")),
        };
        let total = catalog.len();
        HdtKnowledgeBase { catalog, stats: KnowledgeStats { source, total_cards: total, bacon_pool_minions: count } }
    }

    pub fn stats(&self) -> (r: &KnowledgeStats)
        ensures
            *r == self.stats_v(),
    {
        &self.stats
    }

    pub fn catalog(&self) -> (r: &CardCatalog)
        ensures
            *r == self.catalog_v(),
    {
        &self.catalog
    }

    fn pool_card(&self, card: &CardMeta, available: &Vec<String>) -> (r: Option<KnowledgeCard>)
        ensures
            match r {
                Some(k) => pool_card_v(&self.catalog_v(), card@, strs_view(available@)) == Some(k@),
                None => pool_card_v(&self.catalog_v(), card@, strs_view(available@)) is None,
            },
    {
        let resolved = match self.catalog.resolve(card.card_id.as_str()) {
            Some(r) => r,
            None => {
                return None;
            },
        };
        let tribes = resolved.tribes();
        proof {
            lemma_sorted_of(strs_view(tribes@));
        }
        if !tribes_allowed(&tribes, available) {
            return None;
        }
        let tier = match resolved.tavern_tier() {
            Some(t) => t,
            None => {
                return None;
            },
        };
        let name = match resolved.preferred_name() {
            Some(n) => string_of(&chars_of(n)),
            None => card.card_id.clone(),
        };
        let text = sanitize(
            match resolved.preferred_text() {
                Some(t) => t,
                None => "",
            },
        );
        let mechanics = resolved.mechanics();
        proof {
            lemma_sorted_of(strs_view(mechanics@));
            reveal_strlit("");
        }
        Some(KnowledgeCard { card_id: card.card_id.clone(), name, tavern_tier: tier, tribes, text, mechanics })
    }
}


/// Parts joined by `sep`.
pub open spec fn join_sep(parts: Seq<Seq<char>>, sep: Seq<char>) -> Seq<char>
    decreases parts.len(),
{
    if parts.len() == 0 {
        Seq::empty()
    } else if parts.len() == 1 {
        parts[0]
    } else {
        join_sep(parts.drop_last(), sep) + sep + parts.last()
    }
}

/// One fact line of the planner's context.
pub open spec fn fact_line(c: KnowledgeCardV) -> Seq<char> {
    c.card_id + " | "@ + c.name + " | T"@ + crate::text::nat_text(c.tavern_tier as nat) + " | "@ + (if c.tribes.len()
        == 0 {
        "NEUTRAL"@
    } else {
        join_sep(c.tribes, "/"@)
    }) + " | "@ + c.text + (if c.mechanics.len() == 0 {
        Seq::empty()
    } else {
        " | mechanics="@ + join_sep(c.mechanics, ","@)
    })
}

pub open spec fn prompt_of(pool: Seq<KnowledgeCardV>) -> Seq<char> {
    join_sep(pool.map_values(|c: KnowledgeCardV| fact_line(c)), "\n"@)
}

/// Number of catalog entries among `0..k` that are current normal pool
/// minions whose tribes the match allows.
pub open spec fn pool_count_upto(cat: &CardCatalog, k: int, available: Seq<Seq<char>>) -> int
    decreases k,
{
    if k <= 0 {
        0
    } else {
        let c = cat.card_seq()[k - 1].1;
        pool_count_upto(cat, k - 1, available) + if normal_pool_minion(c) && cat.spec_resolve(c.card_id) is Some
            && tribes_allowed_v(sorted_of(cat.spec_resolve(c.card_id)->0.tribe_set()), available) {
            1int
        } else {
            0int
        }
    }
}

/// The canonical normal pool CardId of `id`, when it is a current pool
/// minion that the match allows.
pub open spec fn validate_v(cat: &CardCatalog, id: Seq<char>, available: Seq<Seq<char>>) -> Option<Seq<char>> {
    match cat.spec_resolve(id) {
        None => None,
        Some(r) => {
            let canonical = match r.normal_card_id() {
                Some(n) => if cat.lookup(n) is Some {
                    n
                } else {
                    id
                },
                None => id,
            };
            match cat.lookup(canonical) {
                None => None,
                Some(card) => if !normal_pool_minion(card) {
                    None
                } else {
                    match cat.spec_resolve(canonical) {
                        None => None,
                        Some(r2) => if tribes_allowed_v(sorted_of(r2.tribe_set()), available) {
                            Some(canonical)
                        } else {
                            None
                        },
                    }
                },
            }
        },
    }
}


pub fn join_strings(parts: &Vec<String>, sep: &str) -> (r: Vec<char>)
    ensures
        r@ == join_sep(strs_view(parts@), sep@),
{
    let mut out: Vec<char> = Vec::new();
    let mut i: usize = 0;
    while i < parts.len()
        invariant
            i <= parts@.len(),
            out@ == join_sep(strs_view(parts@).take(i as int), sep@),
        decreases parts@.len() - i,
    {
        let ghost t = strs_view(parts@).take(i + 1);
        assert(t.drop_last() =~= strs_view(parts@).take(i as int));
        if i > 0 {
            push_str(&mut out, sep);
        } else {
            assert(out@.len() == 0) by {
                assert(strs_view(parts@).take(0) =~= Seq::<Seq<char>>::empty());
            }
        }
        push_str(&mut out, parts[i].as_str());
        proof {
            if i == 0 {
                assert(t.len() == 1);
                assert(out@ =~= t[0]);
            }
        }
        i += 1;
    }
    assert(strs_view(parts@).take(i as int) =~= strs_view(parts@));
    out
}

fn fact_line_exec(c: &KnowledgeCard) -> (r: Vec<char>)
    ensures
        r@ == fact_line(c@),
{
    let mut out: Vec<char> = Vec::new();
    push_str(&mut out, c.card_id.as_str());
    push_str(&mut out, " | ");
    push_str(&mut out, c.name.as_str());
    push_str(&mut out, " | T");
    push_str(&mut out, string_of(&u64_text(c.tavern_tier as u64)).as_str());
    push_str(&mut out, " | ");
    if c.tribes.len() == 0 {
        push_str(&mut out, "NEUTRAL");
    } else {
        push_str(&mut out, string_of(&join_strings(&c.tribes, "/")).as_str());
    }
    push_str(&mut out, " | ");
    push_str(&mut out, c.text.as_str());
    if c.mechanics.len() > 0 {
        push_str(&mut out, " | mechanics=");
        push_str(&mut out, string_of(&join_strings(&c.mechanics, ",")).as_str());
    }
    assert(out@ =~= fact_line(c@));
    out
}

impl HdtKnowledgeBase {
    pub open spec fn pool_v(&self, available: Seq<Seq<char>>) -> Seq<KnowledgeCardV> {
        pool_upto(&self.catalog_v(), self.catalog_v().card_seq().len() as int, available)
    }

    /// The pool in the order `current_pool` gives it.
    pub open spec fn sorted_pool_v(&self, available: Seq<Seq<char>>) -> Seq<KnowledgeCardV> {
        sorted_pool_upto(&self.catalog_v(), self.catalog_v().card_seq().len() as int, available)
    }

    /// Every current normal Battlegrounds pool minion that can appear under
    /// this match's tribes, neutral minions included, ordered by tier, name
    /// and CardId. Nothing is cut off.
    pub fn current_pool(&self, available_tribes: &Vec<String>) -> (r: Vec<KnowledgeCard>)
        ensures
            pool_sorted(knowledge_view(r@)),
            knowledge_view(r@).to_multiset() == self.pool_v(strs_view(available_tribes@)).to_multiset(),
            knowledge_view(r@) == self.sorted_pool_v(strs_view(available_tribes@)),
            r@.len() == self.pool_v(strs_view(available_tribes@)).len(),
    {
        let ghost avail = strs_view(available_tribes@);
        let cards = self.catalog.cards();
        let mut r: Vec<KnowledgeCard> = Vec::new();
        assert(knowledge_view(r@) =~= Seq::<KnowledgeCardV>::empty());
        let mut i: usize = 0;
        while i < cards.len()
            invariant
                i <= cards.len(),
                avail == strs_view(available_tribes@),
                cards.len() == self.catalog_v().card_seq().len(),
                forall|k: int| 0 <= k < cards.len() ==> cards[k]@ == self.catalog_v().card_seq()[k].1,
                pool_sorted(knowledge_view(r@)),
                knowledge_view(r@).to_multiset() == pool_upto(&self.catalog_v(), i as int, avail).to_multiset(),
                knowledge_view(r@) == sorted_pool_upto(&self.catalog_v(), i as int, avail),
                knowledge_view(r@).len() == pool_upto(&self.catalog_v(), i as int, avail).len(),
            decreases cards.len() - i,
        {
            let card = cards[i];
            if is_normal_pool_minion(card) {
                if let Some(k) = self.pool_card(card, available_tribes) {
                    insert_pool(&mut r, k);
                }
            }
            i += 1;
        }
        r
    }

    /// How many catalog entries are current pool minions the match allows;
    /// unlike `current_pool`, entries without a tier count too.
    pub fn current_pool_count(&self, available_tribes: &Vec<String>) -> (r: usize)
        ensures
            r == pool_count_upto(&self.catalog_v(), self.catalog_v().card_seq().len() as int, strs_view(available_tribes@)),
            r == self.pool_v(strs_view(available_tribes@)).len(),
    {
        self.catalog.lemma_card_seq();
        proof {
            lemma_pool_count_is_pool_len(
                &self.catalog_v(),
                self.catalog_v().card_seq().len() as int,
                strs_view(available_tribes@),
            );
        }
        let ghost avail = strs_view(available_tribes@);
        let cards = self.catalog.cards();
        let mut n: usize = 0;
        let mut i: usize = 0;
        while i < cards.len()
            invariant
                i <= cards.len(),
                avail == strs_view(available_tribes@),
                cards.len() == self.catalog_v().card_seq().len(),
                forall|k: int| 0 <= k < cards.len() ==> cards[k]@ == self.catalog_v().card_seq()[k].1,
                n == pool_count_upto(&self.catalog_v(), i as int, avail),
                n <= i,
            decreases cards.len() - i,
        {
            let card = cards[i];
            if is_normal_pool_minion(card) {
                match self.catalog.resolve(card.card_id.as_str()) {
                    Some(resolved) => {
                        let tribes = resolved.tribes();
                        proof {
                            lemma_sorted_of(strs_view(tribes@));
                        }
                        if tribes_allowed(&tribes, available_tribes) {
                            n += 1;
                        }
                    },
                    None => {},
                }
            }
            i += 1;
        }
        n
    }

    /// Checks a normal or premium CardId against the current pool and this
    /// match's tribes, and gives back the canonical normal pool CardId.
    pub fn validate_pool_card_id(&self, card_id: &str, available_tribes: &Vec<String>) -> (r: Option<String>)
        ensures
            crate::harness::power::event::opt_view(r) == validate_v(&self.catalog_v(), card_id@, strs_view(available_tribes@)),
            forall|j: int|
                0 <= j < self.pool_v(strs_view(available_tribes@)).len() && card_id@ == #[trigger] self.pool_v(
                    strs_view(available_tribes@),
                )[j].card_id + "_G"@ && self.catalog_v().lookup(card_id@) is None ==> validate_v(
                    &self.catalog_v(),
                    card_id@,
                    strs_view(available_tribes@),
                ) == Some(self.pool_v(strs_view(available_tribes@))[j].card_id),
            validate_v(&self.catalog_v(), card_id@, strs_view(available_tribes@)) matches Some(c) ==> exists|j: int|
                0 <= j < self.pool_v(strs_view(available_tribes@)).len() && self.pool_v(strs_view(available_tribes@))[j].card_id
                    == c,
    {
        self.catalog.lemma_card_seq();
        proof {
            let avail = strs_view(available_tribes@);
            assert forall|j: int|
                0 <= j < self.pool_v(avail).len() && card_id@ == #[trigger] self.pool_v(avail)[j].card_id + "_G"@
                    && self.catalog_v().lookup(card_id@) is None implies validate_v(&self.catalog_v(), card_id@, avail)
                == Some(self.pool_v(avail)[j].card_id) by {
                lemma_golden_id_validates(&self.catalog_v(), avail, j);
            }
            if validate_v(&self.catalog_v(), card_id@, avail) is Some {
                lemma_validated_in_pool(&self.catalog_v(), card_id@, avail);
                let c = validate_v(&self.catalog_v(), card_id@, avail)->0;
                let j = choose|j: int|
                    0 <= j < self.pool_v(avail).len() && self.pool_v(avail)[j].card_id == c;
                assert(0 <= j < self.pool_v(avail).len() && self.pool_v(avail)[j].card_id == c);
            }
        }
        let resolved = match self.catalog.resolve(card_id) {
            Some(r) => r,
            None => {
                return None;
            },
        };
        let canonical: &str = match resolved.normal_card_id() {
            Some(n) => if self.catalog.get(n).is_some() {
                n
            } else {
                card_id
            },
            None => card_id,
        };
        let card = match self.catalog.get(canonical) {
            Some(c) => c,
            None => {
                return None;
            },
        };
        if !is_normal_pool_minion(card) {
            return None;
        }
        let again = match self.catalog.resolve(canonical) {
            Some(r) => r,
            None => {
                return None;
            },
        };
        let tribes = again.tribes();
        proof {
            lemma_sorted_of(strs_view(tribes@));
        }
        if !tribes_allowed(&tribes, available_tribes) {
            return None;
        }
        Some(string_of(&chars_of(canonical)))
    }

    /// Compact factual context for the planner: one line per current pool
    /// card, in pool order. Every line comes from the catalog; there is no
    /// arbitrary first-N cut.
    pub fn prompt_context(&self, available_tribes: &Vec<String>) -> (r: String)
        ensures
            r@ == prompt_of(self.sorted_pool_v(strs_view(available_tribes@))),
    {
        let pool = self.current_pool(available_tribes);
        let ghost p = knowledge_view(pool@);
        let ghost lines = p.map_values(|c: KnowledgeCardV| fact_line(c));
        let mut out: Vec<char> = Vec::new();
        let mut i: usize = 0;
        while i < pool.len()
            invariant
                i <= pool@.len(),
                p == knowledge_view(pool@),
                lines == p.map_values(|c: KnowledgeCardV| fact_line(c)),
                out@ == join_sep(lines.take(i as int), "\n"@),
            decreases pool@.len() - i,
        {
            let ghost t = lines.take(i + 1);
            assert(t.drop_last() =~= lines.take(i as int));
            if i > 0 {
                push_str(&mut out, "\n");
            } else {
                assert(lines.take(0) =~= Seq::<Seq<char>>::empty());
            }
            let line = fact_line_exec(&pool[i]);
            let ghost before = out@;
            let mut j: usize = 0;
            while j < line.len()
                invariant
                    j <= line@.len(),
                    out@ == before + line@.take(j as int),
                decreases line@.len() - j,
            {
                out.push(line[j]);
                assert(line@.take(j + 1) =~= line@.take(j as int).push(line@[j as int]));
                j += 1;
            }
            assert(line@.take(j as int) =~= line@);
            proof {
                if i == 0 {
                    assert(out@ =~= t[0]);
                }
            }
            i += 1;
        }
        assert(lines.take(i as int) =~= lines);
        string_of(&out)
    }
}

} // verus!
