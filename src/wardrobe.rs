//! Wardrobe items, pairing weights and the errors of the pipeline.
use std::collections::HashMap;
use vstd::prelude::*;
use vstd::std_specs::hash::group_hash_axioms;

verus! {

broadcast use group_hash_axioms;

/// Weights are fixed-point numbers: this many units make a weight of one.
pub const WEIGHT_ONE: u32 = 1000;

/// The weight of a bottom that has no recorded preference for the chosen top.
pub const DEFAULT_WEIGHT: u32 = WEIGHT_ONE;

/// Items are identified by their color code.
pub type ItemId = i32;

/// The two garment categories of a wardrobe.
#[derive(Clone, Copy, Debug, PartialEq, Eq, Structural)]
pub enum Category {
    Top,
    Bottom,
}

/// A recorded weight for pairing a bottom with some top.
#[derive(Clone, Copy, Debug, PartialEq, Eq, Structural)]
pub struct Preference {
    pub bottom: ItemId,
    pub weight: u32,
}

/// A delivered recommendation.
#[derive(Clone, Copy, Debug, PartialEq, Eq, Structural)]
pub struct Pairing {
    pub top: ItemId,
    pub bottom: ItemId,
}

/// Failures of a combo request, as seen at the boundary.
#[derive(Clone, Copy, Debug, PartialEq, Eq, Structural)]
pub enum ComboError {
    IdentityUnavailable,
    EmptyWardrobe(Category),
    StoreUnavailable,
}

/// The weight used for `bottom`: the first recorded preference for it, or
/// the default weight when none is recorded.
pub open spec fn weight_in(prefs: Seq<Preference>, bottom: ItemId) -> nat
    decreases prefs.len(),
{
    if prefs.len() == 0 {
        DEFAULT_WEIGHT as nat
    } else if prefs[0].bottom == bottom {
        prefs[0].weight as nat
    } else {
        weight_in(prefs.drop_first(), bottom)
    }
}

/// Whether some preference is recorded for `bottom`.
pub open spec fn has_preference(prefs: Seq<Preference>, bottom: ItemId) -> bool {
    exists|j: int| 0 <= j < prefs.len() && prefs[j].bottom == bottom
}

/// A suffix of the table decides the weight once the prefix holds no entry
/// for `bottom`.
pub proof fn lemma_weight_in_suffix(prefs: Seq<Preference>, bottom: ItemId, i: int)
    requires
        0 <= i <= prefs.len(),
        forall|j: int| 0 <= j < i ==> prefs[j].bottom != bottom,
    ensures
        weight_in(prefs, bottom) == weight_in(prefs.subrange(i, prefs.len() as int), bottom),
    decreases i,
{
    if i > 0 {
        lemma_weight_in_suffix(prefs.drop_first(), bottom, i - 1);
        assert(prefs.drop_first().subrange(i - 1, prefs.len() - 1) =~= prefs.subrange(
            i,
            prefs.len() as int,
        ));
    } else {
        assert(prefs.subrange(0, prefs.len() as int) =~= prefs);
    }
}

/// The weight of `bottom` in the table, by a linear scan; absent bottoms get
/// the default weight.
pub fn effective_weight(prefs: &Vec<Preference>, bottom: ItemId) -> (w: u32)
    ensures
        w as nat == weight_in(prefs@, bottom),
        !has_preference(prefs@, bottom) ==> w == DEFAULT_WEIGHT,
{
    let mut i: usize = 0;
    while i < prefs.len()
        invariant
            0 <= i <= prefs.len(),
            forall|j: int| 0 <= j < i ==> prefs@[j].bottom != bottom,
        decreases prefs.len() - i,
    {
        if prefs[i].bottom == bottom {
            proof {
                lemma_weight_in_suffix(prefs@, bottom, i as int);
                let rest = prefs@.subrange(i as int, prefs@.len() as int);
                assert(rest[0] == prefs@[i as int]);
            }
            return prefs[i].weight;
        }
        i = i + 1;
    }
    proof {
        lemma_weight_in_suffix(prefs@, bottom, i as int);
        assert(prefs@.subrange(i as int, prefs@.len() as int).len() == 0);
    }
    DEFAULT_WEIGHT
}

/// The recorded preferences of one top, with a direct-lookup index built
/// once the table is larger than a caller-chosen crossover size; smaller
/// tables are scanned.
#[derive(Debug)]
pub struct WeightTable {
    prefs: Vec<Preference>,
    index: Option<HashMap<ItemId, u32>>,
}

impl View for WeightTable {
    type V = Seq<Preference>;

    closed spec fn view(&self) -> Seq<Preference> {
        self.prefs@
    }
}

/// `j` is the first entry of the table recorded for `bottom`.
pub open spec fn first_entry(prefs: Seq<Preference>, bottom: ItemId, j: int) -> bool {
    &&& 0 <= j < prefs.len()
    &&& prefs[j].bottom == bottom
    &&& forall|l: int| 0 <= l < j ==> prefs[l].bottom != bottom
}

impl WeightTable {
    /// The index, where there is one, maps each recorded bottom to its
    /// effective weight and holds no other bottom.
    #[verifier::type_invariant]
    spec fn wf(&self) -> bool {
        match self.index {
            Some(m) => forall|k: ItemId|
                #[trigger] m@.contains_key(k) == has_preference(self.prefs@, k) && (m@.contains_key(k)
                    ==> m@[k] as nat == weight_in(self.prefs@, k)),
            None => true,
        }
    }

    /// Builds the table; an index is built when it holds more than
    /// `crossover` entries.
    pub fn new(prefs: Vec<Preference>, crossover: usize) -> (t: WeightTable)
        ensures
            t@ == prefs@,
    {
        if prefs.len() <= crossover {
            return WeightTable { prefs, index: None };
        }
        let mut m: HashMap<ItemId, u32> = HashMap::new();
        let mut i: usize = 0;
        while i < prefs.len()
            invariant
                0 <= i <= prefs.len(),
                forall|k: ItemId|
                    #[trigger] m@.contains_key(k) <==> exists|j: int|
                        0 <= j < i && first_entry(prefs@, k, j),
                forall|k: ItemId, j: int|
                    m@.contains_key(k) && #[trigger] first_entry(prefs@, k, j) ==> m@[k]
                        == prefs@[j].weight,
            decreases prefs.len() - i,
        {
            let b = prefs[i].bottom;
            let ghost before = m@;
            if !m.contains_key(&b) {
                proof {
                    assert forall|l: int| 0 <= l < i implies prefs@[l].bottom != b by {
                        if prefs@[l].bottom == b {
                            let j = lemma_first_entry_at_most(prefs@, b, l);
                            assert(before.contains_key(b));
                        }
                    }
                    assert(first_entry(prefs@, b, i as int));
                }
                m.insert(b, prefs[i].weight);
            } else {
                proof {
                    assert(before.contains_key(b));
                    let j = choose|j: int| 0 <= j < i && first_entry(prefs@, b, j);
                    assert(!first_entry(prefs@, b, i as int));
                }
            }
            proof {
                assert forall|k: ItemId|
                    #[trigger] m@.contains_key(k) <==> exists|j: int|
                        0 <= j < i + 1 && first_entry(prefs@, k, j) by {
                    if first_entry(prefs@, k, i as int) {
                        assert(k == b);
                    }
                    if exists|j: int| 0 <= j < i + 1 && first_entry(prefs@, k, j) {
                        let j = choose|j: int| 0 <= j < i + 1 && first_entry(prefs@, k, j);
                        if j < i {
                            assert(before.contains_key(k));
                        }
                    }
                    if before.contains_key(k) {
                        let j = choose|j: int| 0 <= j < i && first_entry(prefs@, k, j);
                        assert(0 <= j < i + 1 && first_entry(prefs@, k, j));
                    }
                }
            }
            i = i + 1;
        }
        proof {
            assert forall|k: ItemId|
                #[trigger] m@.contains_key(k) == has_preference(prefs@, k) && (m@.contains_key(k)
                    ==> m@[k] as nat == weight_in(prefs@, k)) by {
                if has_preference(prefs@, k) {
                    let l = choose|l: int| 0 <= l < prefs@.len() && prefs@[l].bottom == k;
                    let j = lemma_first_entry_at_most(prefs@, k, l);
                    lemma_weight_in_suffix(prefs@, k, j);
                    let rest = prefs@.subrange(j, prefs@.len() as int);
                    assert(rest[0] == prefs@[j]);
                }
            }
        }
        WeightTable { prefs, index: Some(m) }
    }

    /// The effective weight of `bottom`: its first recorded weight, or the
    /// default weight when none is recorded.
    pub fn weight(&self, bottom: ItemId) -> (w: u32)
        ensures
            w as nat == weight_in(self@, bottom),
            !has_preference(self@, bottom) ==> w == DEFAULT_WEIGHT,
    {
        proof {
            use_type_invariant(self);
            if !has_preference(self@, bottom) {
                lemma_weight_in_absent(self@, bottom);
            }
        }
        match &self.index {
            Some(m) => match m.get(&bottom) {
                Some(w) => *w,
                None => {
                    proof {
                        lemma_weight_in_absent(self.prefs@, bottom);
                    }
                    DEFAULT_WEIGHT
                },
            },
            None => effective_weight(&self.prefs, bottom),
        }
    }
}

/// An entry for `bottom` at `l` has a first entry at or before it.
proof fn lemma_first_entry_at_most(prefs: Seq<Preference>, bottom: ItemId, l: int) -> (j: int)
    requires
        0 <= l < prefs.len(),
        prefs[l].bottom == bottom,
    ensures
        first_entry(prefs, bottom, j),
        j <= l,
    decreases l,
{
    if exists|q: int| 0 <= q < l && prefs[q].bottom == bottom {
        let q = choose|q: int| 0 <= q < l && prefs[q].bottom == bottom;
        lemma_first_entry_at_most(prefs, bottom, q)
    } else {
        l
    }
}

/// A bottom without a recorded preference has the default weight.
pub proof fn lemma_weight_in_absent(prefs: Seq<Preference>, bottom: ItemId)
    requires
        !has_preference(prefs, bottom),
    ensures
        weight_in(prefs, bottom) == DEFAULT_WEIGHT,
    decreases prefs.len(),
{
    if prefs.len() > 0 {
        assert forall|j: int| 0 <= j < prefs.drop_first().len() implies prefs.drop_first()[j].bottom
            != bottom by {
            assert(prefs.drop_first()[j] == prefs[j + 1]);
        }
        lemma_weight_in_absent(prefs.drop_first(), bottom);
    }
}

} // verus!
