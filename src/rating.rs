//! User feedback on a delivered pairing and its effect on the pairing weight.
use crate::wardrobe::{weight_in, ItemId, Preference, DEFAULT_WEIGHT};
use vstd::prelude::*;

verus! {

/// The largest weight a pairing can reach through ratings.
pub const MAX_WEIGHT: u32 = 1_000_000;

/// A user's judgment on a delivered pairing.
#[derive(Clone, Copy, Debug, PartialEq, Eq, Structural)]
pub enum Rating {
    Good,
    TooSoon,
    Bad,
}

impl Rating {
    /// The rating's name, as it is written in logs.
    pub fn name(&self) -> (s: String)
        ensures
            *self == Rating::Good ==> s@ == "Good"@,
            *self == Rating::TooSoon ==> s@ == "TooSoon"@,
            *self == Rating::Bad ==> s@ == "Bad"@,
    {
        proof {
            reveal_strlit("Good");
            reveal_strlit("TooSoon");
            reveal_strlit("Bad");
        }
        match self {
            Rating::Good => String::from_str("Good"),
            Rating::TooSoon => String::from_str("TooSoon"),
            Rating::Bad => String::from_str("Bad"),
        }
    }
}

/// How far one rating moves a weight. With a `too_soon_step` of zero,
/// `TooSoon` is a pure cooldown signal and leaves the long-term weight alone;
/// a positive step makes it lower the weight as well.
#[derive(Clone, Copy, Debug, PartialEq, Eq, Structural)]
pub struct RatingPolicy {
    pub good_step: u32,
    pub bad_step: u32,
    pub too_soon_step: u32,
}

impl RatingPolicy {
    /// Good ratings raise and bad ratings lower a weight.
    pub open spec fn wf(&self) -> bool {
        self.good_step > 0 && self.bad_step > 0
    }
}

/// The weight after one rating: raised by `good_step` up to `MAX_WEIGHT`, or
/// lowered by `bad_step` or `too_soon_step` down to zero.
pub open spec fn adjusted(policy: RatingPolicy, weight: nat, rating: Rating) -> nat {
    match rating {
        Rating::Good => if weight + policy.good_step >= MAX_WEIGHT {
            MAX_WEIGHT as nat
        } else {
            (weight + policy.good_step) as nat
        },
        Rating::Bad => if weight <= policy.bad_step {
            0
        } else {
            (weight - policy.bad_step) as nat
        },
        Rating::TooSoon => if weight <= policy.too_soon_step {
            0
        } else {
            (weight - policy.too_soon_step) as nat
        },
    }
}

/// The weight after a sequence of ratings, applied in order.
pub open spec fn adjusted_all(policy: RatingPolicy, weight: nat, ratings: Seq<Rating>) -> nat
    decreases ratings.len(),
{
    if ratings.len() == 0 {
        weight
    } else {
        adjusted_all(
            policy,
            adjusted(policy, weight, ratings[0]),
            ratings.drop_first(),
        )
    }
}

/// Applies one rating to a weight.
pub fn adjust_weight(policy: &RatingPolicy, weight: u32, rating: Rating) -> (w: u32)
    ensures
        w as nat == adjusted(*policy, weight as nat, rating),
        weight <= MAX_WEIGHT ==> w <= MAX_WEIGHT,
        policy.wf() && rating == Rating::Bad && weight > 0 ==> w < weight,
        policy.wf() && rating == Rating::Good && weight < MAX_WEIGHT ==> w > weight,
        rating == Rating::TooSoon && policy.too_soon_step == 0 ==> w == weight,
{
    match rating {
        Rating::Good => {
            if weight as u64 + policy.good_step as u64 >= MAX_WEIGHT as u64 {
                MAX_WEIGHT
            } else {
                weight + policy.good_step
            }
        },
        Rating::Bad => {
            if weight <= policy.bad_step {
                0
            } else {
                weight - policy.bad_step
            }
        },
        Rating::TooSoon => {
            if weight <= policy.too_soon_step {
                0
            } else {
                weight - policy.too_soon_step
            }
        },
    }
}

/// Any sequence of ratings keeps a weight that starts within
/// `0..=MAX_WEIGHT` within that range.
pub proof fn lemma_ratings_stay_bounded(policy: RatingPolicy, weight: nat, ratings: Seq<Rating>)
    requires
        weight <= MAX_WEIGHT,
    ensures
        0 <= adjusted_all(policy, weight, ratings) <= MAX_WEIGHT,
    decreases ratings.len(),
{
    if ratings.len() > 0 {
        lemma_ratings_stay_bounded(
            policy,
            adjusted(policy, weight, ratings[0]),
            ratings.drop_first(),
        );
    }
}

/// The table after recording `weight` for `bottom`: the first entry for it is
/// replaced, or a new entry is appended.
pub open spec fn upserted(prefs: Seq<Preference>, bottom: ItemId, weight: u32) -> Seq<Preference>
    decreases prefs.len(),
{
    if prefs.len() == 0 {
        seq![Preference { bottom, weight }]
    } else if prefs[0].bottom == bottom {
        prefs.update(0, Preference { bottom, weight })
    } else {
        seq![prefs[0]] + upserted(prefs.drop_first(), bottom, weight)
    }
}

/// After an upsert the bottom has the recorded weight and every other bottom
/// keeps its weight.
pub proof fn lemma_upserted_weights(prefs: Seq<Preference>, bottom: ItemId, weight: u32, other: ItemId)
    ensures
        weight_in(upserted(prefs, bottom, weight), bottom) == weight as nat,
        other != bottom ==> weight_in(upserted(prefs, bottom, weight), other) == weight_in(
            prefs,
            other,
        ),
    decreases prefs.len(),
{
    let u = upserted(prefs, bottom, weight);
    if prefs.len() == 0 {
        assert(u.drop_first() =~= prefs);
    } else if prefs[0].bottom == bottom {
        assert(u[0] == Preference { bottom, weight });
        assert(u.drop_first() =~= prefs.drop_first());
    } else {
        lemma_upserted_weights(prefs.drop_first(), bottom, weight, other);
        assert(u.drop_first() =~= upserted(prefs.drop_first(), bottom, weight));
    }
}

/// A bad rating of a pairing with positive weight, once recorded, leaves the
/// next draw for that top with a strictly lower weight for the pairing, and
/// the other bottoms' weights unchanged.
pub proof fn lemma_bad_rating_lowers_next_weight(
    policy: RatingPolicy,
    prefs: Seq<Preference>,
    bottom: ItemId,
    other: ItemId,
)
    requires
        policy.wf(),
        weight_in(prefs, bottom) > 0,
        weight_in(prefs, bottom) <= u32::MAX,
    ensures
        weight_in(
            upserted(
                prefs,
                bottom,
                adjusted(policy, weight_in(prefs, bottom), Rating::Bad) as u32,
            ),
            bottom,
        ) < weight_in(prefs, bottom),
        other != bottom ==> weight_in(
            upserted(
                prefs,
                bottom,
                adjusted(policy, weight_in(prefs, bottom), Rating::Bad) as u32,
            ),
            other,
        ) == weight_in(prefs, other),
{
    let w = adjusted(policy, weight_in(prefs, bottom), Rating::Bad);
    lemma_upserted_weights(prefs, bottom, w as u32, other);
}

/// Records a rating of the pairing of the table's top with `bottom`: the
/// bottom's effective weight is adjusted and written back, and the weights of
/// the other bottoms are kept. Returns the new weight, for the store.
pub fn record_rating(
    policy: &RatingPolicy,
    prefs: &mut Vec<Preference>,
    bottom: ItemId,
    rating: Rating,
) -> (w: u32)
    ensures
        w as nat == adjusted(*policy, weight_in(old(prefs)@, bottom), rating),
        final(prefs)@ == upserted(old(prefs)@, bottom, w),
        weight_in(final(prefs)@, bottom) == w as nat,
        forall|c: ItemId| c != bottom ==> weight_in(final(prefs)@, c) == weight_in(old(prefs)@, c),
{
    let ghost before = prefs@;
    let mut i: usize = 0;
    let n = prefs.len();
    while i < n
        invariant
            0 <= i <= n,
            n == prefs@.len(),
            prefs@ == before,
            before == old(prefs)@,
            forall|j: int| 0 <= j < i ==> prefs@[j].bottom != bottom,
        decreases n - i,
    {
        if prefs[i].bottom == bottom {
            let w = adjust_weight(policy, prefs[i].weight, rating);
            proof {
                crate::wardrobe::lemma_weight_in_suffix(before, bottom, i as int);
                lemma_upserted_suffix(before, bottom, w, i as int);
                let rest = before.subrange(i as int, n as int);
                assert(rest[0] == before[i as int]);
            }
            prefs.set(i, Preference { bottom, weight: w });
            proof {
                let rest = before.subrange(i as int, n as int);
                assert(upserted(rest, bottom, w) =~= rest.update(0, Preference { bottom, weight: w }));
                assert(prefs@ =~= before.subrange(0, i as int) + upserted(rest, bottom, w));
                assert forall|c: ItemId| c != bottom implies weight_in(prefs@, c) == weight_in(before, c) by {
                    lemma_upserted_weights(before, bottom, w, c);
                }
                lemma_upserted_weights(before, bottom, w, bottom);
            }
            return w;
        }
        i = i + 1;
    }
    let w = adjust_weight(policy, DEFAULT_WEIGHT, rating);
    proof {
        crate::wardrobe::lemma_weight_in_suffix(before, bottom, n as int);
        assert(before.subrange(n as int, n as int).len() == 0);
        lemma_upserted_suffix(before, bottom, w, n as int);
    }
    prefs.push(Preference { bottom, weight: w });
    proof {
        assert(prefs@ =~= before.subrange(0, n as int) + upserted(before.subrange(n as int, n as int), bottom, w));
        assert forall|c: ItemId| c != bottom implies weight_in(prefs@, c) == weight_in(before, c) by {
            lemma_upserted_weights(before, bottom, w, c);
        }
        lemma_upserted_weights(before, bottom, w, bottom);
    }
    w
}

/// Upserting skips a prefix that holds no entry for `bottom`.
proof fn lemma_upserted_suffix(prefs: Seq<Preference>, bottom: ItemId, weight: u32, i: int)
    requires
        0 <= i <= prefs.len(),
        forall|j: int| 0 <= j < i ==> prefs[j].bottom != bottom,
    ensures
        upserted(prefs, bottom, weight) == prefs.subrange(0, i) + upserted(
            prefs.subrange(i, prefs.len() as int),
            bottom,
            weight,
        ),
    decreases i,
{
    if i > 0 {
        lemma_upserted_suffix(prefs.drop_first(), bottom, weight, i - 1);
        assert(prefs.drop_first().subrange(i - 1, prefs.len() - 1) =~= prefs.subrange(
            i,
            prefs.len() as int,
        ));
        assert(prefs.subrange(0, i) =~= seq![prefs[0]] + prefs.drop_first().subrange(0, i - 1));
    } else {
        assert(prefs.subrange(0, prefs.len() as int) =~= prefs);
        assert(prefs.subrange(0, 0) + upserted(prefs, bottom, weight) =~= upserted(prefs, bottom, weight));
    }
}

} // verus!
