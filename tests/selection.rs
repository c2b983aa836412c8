use outfit_picker::combo::{choose_bottom, choose_top, Action, Event, Phase};
use outfit_picker::rating::{adjust_weight, record_rating, Rating, RatingPolicy, MAX_WEIGHT};
use outfit_picker::sampler::{sample, sample_with_draw, total_weight_of, SampleError};
use outfit_picker::wardrobe::{
    effective_weight, Category, ComboError, Pairing, Preference, WeightTable, DEFAULT_WEIGHT,
    WEIGHT_ONE,
};

fn pref(bottom: i32, weight: u32) -> Preference {
    Preference { bottom, weight }
}

fn scanned(prefs: Vec<Preference>) -> WeightTable {
    WeightTable::new(prefs, usize::MAX)
}

fn indexed(prefs: Vec<Preference>) -> WeightTable {
    WeightTable::new(prefs, 0)
}

fn policy() -> RatingPolicy {
    RatingPolicy { good_step: 500, bad_step: 1000, too_soon_step: 0 }
}

#[test]
fn default_weight_is_one() {
    assert_eq!(DEFAULT_WEIGHT, WEIGHT_ONE);
    let prefs = vec![pref(5, 3 * WEIGHT_ONE)];
    assert_eq!(effective_weight(&prefs, 6), WEIGHT_ONE);
    assert_eq!(effective_weight(&vec![], 6), WEIGHT_ONE);
}

#[test]
fn recorded_weight_is_used_first_match_wins() {
    let prefs = vec![pref(4, 7), pref(5, 3000), pref(5, 9)];
    assert_eq!(effective_weight(&prefs, 5), 3000);
    assert_eq!(effective_weight(&prefs, 4), 7);
}

#[test]
fn total_weight_sums_effective_weights() {
    let prefs = vec![pref(5, 3000)];
    assert_eq!(total_weight_of(&vec![5, 6], &scanned(prefs.clone())), 4000);
    assert_eq!(total_weight_of(&vec![], &scanned(prefs.clone())), 0);
}

#[test]
fn three_to_one_split_between_x_and_y() {
    // Top A chosen; (A, X) weighs 3.0, Y has the default 1.0.
    let prefs = vec![pref(5, 3 * WEIGHT_ONE)];
    let bottoms = vec![5, 6];
    let mut x = 0u32;
    let mut y = 0u32;
    for draw in 0..4 * WEIGHT_ONE as u64 {
        match sample_with_draw(&bottoms, &scanned(prefs.clone()), draw) {
            Ok(5) => x += 1,
            Ok(6) => y += 1,
            other => panic!("unexpected {:?}", other),
        }
    }
    assert_eq!(x, 3 * y);
    assert_eq!(sample_with_draw(&bottoms, &scanned(prefs.clone()), 2999), Ok(5));
    assert_eq!(sample_with_draw(&bottoms, &scanned(prefs.clone()), 3000), Ok(6));
}

#[test]
fn random_sampling_roughly_follows_weights() {
    let prefs = vec![pref(5, 3 * WEIGHT_ONE)];
    let bottoms = vec![5, 6];
    let mut x = 0u32;
    for _ in 0..4000 {
        let b = sample(&bottoms, &scanned(prefs.clone())).unwrap();
        assert!(b == 5 || b == 6);
        if b == 5 {
            x += 1;
        }
    }
    assert!(x > 2700 && x < 3300, "x chosen {} times of 4000", x);
}

#[test]
fn empty_candidates_fail() {
    assert_eq!(sample(&vec![], &scanned(vec![])), Err(SampleError::NoCandidates));
    assert_eq!(sample_with_draw(&vec![], &scanned(vec![]), 0), Err(SampleError::NoCandidates));
}

#[test]
fn all_zero_weights_are_degenerate() {
    let prefs = vec![pref(5, 0), pref(6, 0)];
    assert_eq!(sample(&vec![5, 6], &indexed(prefs.clone())), Err(SampleError::DegenerateDistribution));
    assert_eq!(sample(&vec![5], &scanned(prefs.clone())), Err(SampleError::DegenerateDistribution));
}

#[test]
fn one_positive_weight_succeeds() {
    let prefs = vec![pref(5, 0), pref(6, 2)];
    for _ in 0..50 {
        assert_eq!(sample(&vec![5, 6], &indexed(prefs.clone())), Ok(6));
    }
}

#[test]
fn single_candidate_is_deterministic() {
    for draw in [0u64, 1, 999, u64::MAX] {
        assert_eq!(sample_with_draw(&vec![9], &scanned(vec![]), draw), Ok(9));
    }
    for _ in 0..20 {
        assert_eq!(sample(&vec![9], &scanned(vec![pref(9, 4)])), Ok(9));
    }
}

#[test]
fn sampled_bottom_is_a_candidate() {
    let prefs = vec![pref(1, 10), pref(2, 0), pref(30, 50)];
    let cands = vec![1, 2, 3, 4];
    for _ in 0..200 {
        let b = sample(&cands, &scanned(prefs.clone())).unwrap();
        assert!(cands.contains(&b));
        assert_ne!(b, 2);
    }
}

#[test]
fn choose_top_picks_an_eligible_top() {
    let tops = vec![1, 2];
    for _ in 0..50 {
        let t = choose_top(&tops).unwrap();
        assert!(tops.contains(&t));
    }
    assert_eq!(choose_top(&vec![]), Err(ComboError::EmptyWardrobe(Category::Top)));
}

#[test]
fn choose_bottom_maps_sampler_failures() {
    assert_eq!(choose_bottom(1, &vec![], &indexed(vec![])), Err(ComboError::EmptyWardrobe(Category::Bottom)));
    assert_eq!(choose_bottom(1, &vec![5], &indexed(vec![pref(5, 0)])), Err(ComboError::StoreUnavailable));
    assert_eq!(choose_bottom(1, &vec![5], &indexed(vec![])), Ok(Pairing { top: 1, bottom: 5 }));
}

#[test]
fn full_pipeline_delivers_eligible_pairing() {
    let (phase, action) = Phase::Start.step(Event::Identified(true));
    assert_eq!(action, Action::SpawnBottomsAndFetchTops);
    let (phase, action) = phase.step(Event::TopsFetched(Some(vec![1, 2])));
    let top = match action {
        Action::FetchPreferences(t) => t,
        other => panic!("unexpected {:?}", other),
    };
    assert!(top == 1 || top == 2);
    let (phase, action) = phase.step(Event::PreferencesFetched(Some(indexed(vec![pref(5, 3000)]))));
    assert_eq!(action, Action::JoinBottoms);
    let (phase, action) = phase.step(Event::BottomsJoined(Some(vec![5, 6])));
    match action {
        Action::Deliver(p) => {
            assert_eq!(p.top, top);
            assert!(p.bottom == 5 || p.bottom == 6);
        }
        other => panic!("unexpected {:?}", other),
    }
    assert!(matches!(phase, Phase::Finished));
}

#[test]
fn empty_tops_fail_before_join() {
    let (phase, _) = Phase::Start.step(Event::Identified(true));
    let (phase, action) = phase.step(Event::TopsFetched(Some(vec![])));
    assert_eq!(action, Action::Fail(ComboError::EmptyWardrobe(Category::Top)));
    assert!(matches!(phase, Phase::Finished));
}

#[test]
fn empty_bottoms_fail_after_join() {
    let phase = Phase::AwaitingPreferences { top: 1 };
    let (phase, _) = phase.step(Event::PreferencesFetched(Some(scanned(vec![]))));
    let (_, action) = phase.step(Event::BottomsJoined(Some(vec![])));
    assert_eq!(action, Action::Fail(ComboError::EmptyWardrobe(Category::Bottom)));
}

#[test]
fn missing_identity_fails() {
    let (_, action) = Phase::Start.step(Event::Identified(false));
    assert_eq!(action, Action::Fail(ComboError::IdentityUnavailable));
}

#[test]
fn store_failures_end_the_request() {
    let (_, action) = Phase::AwaitingTops.step(Event::TopsFetched(None));
    assert_eq!(action, Action::Fail(ComboError::StoreUnavailable));
    let (_, action) = Phase::AwaitingPreferences { top: 1 }.step(Event::PreferencesFetched(None));
    assert_eq!(action, Action::Fail(ComboError::StoreUnavailable));
    let phase = Phase::AwaitingBottoms { top: 1, table: scanned(vec![]) };
    let (_, action) = phase.step(Event::BottomsJoined(None));
    assert_eq!(action, Action::Fail(ComboError::StoreUnavailable));
    let (_, action) = Phase::Start.step(Event::TopsFetched(Some(vec![1])));
    assert_eq!(action, Action::Fail(ComboError::StoreUnavailable));
}

#[test]
fn bad_rating_lowers_weight_for_next_pick() {
    let mut prefs = vec![pref(6, 10), pref(5, 3 * WEIGHT_ONE)];
    let w = record_rating(&policy(), &mut prefs, 5, Rating::Bad);
    assert_eq!(w, 2 * WEIGHT_ONE);
    assert!(effective_weight(&prefs, 5) < 3 * WEIGHT_ONE);
    assert_eq!(effective_weight(&prefs, 6), 10);
    assert_eq!(prefs.len(), 2);
}

#[test]
fn rating_unrecorded_pairing_starts_from_default() {
    let mut prefs = vec![pref(6, 10)];
    let w = record_rating(&policy(), &mut prefs, 5, Rating::Good);
    assert_eq!(w, WEIGHT_ONE + 500);
    assert_eq!(prefs, vec![pref(6, 10), pref(5, WEIGHT_ONE + 500)]);
}

#[test]
fn too_soon_keeps_weight() {
    let mut prefs = vec![pref(5, 1234)];
    assert_eq!(record_rating(&policy(), &mut prefs, 5, Rating::TooSoon), 1234);
    assert_eq!(prefs, vec![pref(5, 1234)]);
}

#[test]
fn ratings_stay_within_bounds() {
    let p = policy();
    let mut w = 3 * WEIGHT_ONE;
    for _ in 0..10 {
        w = adjust_weight(&p, w, Rating::Bad);
    }
    assert_eq!(w, 0);
    for _ in 0..10_000 {
        w = adjust_weight(&p, w, Rating::Good);
        assert!(w <= MAX_WEIGHT);
    }
    assert_eq!(w, MAX_WEIGHT);
    assert_eq!(adjust_weight(&p, u32::MAX, Rating::Good), MAX_WEIGHT);
    assert_eq!(adjust_weight(&p, 400, Rating::Bad), 0);
}

#[test]
fn rating_names() {
    assert_eq!(Rating::Good.name(), "Good");
    assert_eq!(Rating::TooSoon.name(), "TooSoon");
    assert_eq!(Rating::Bad.name(), "Bad");
}

#[test]
fn index_and_scan_agree() {
    let prefs = vec![pref(4, 7), pref(5, 3000), pref(5, 9), pref(8, 0)];
    let a = scanned(prefs.clone());
    let b = indexed(prefs.clone());
    let c = WeightTable::new(prefs.clone(), 3);
    for bottom in [4, 5, 6, 8] {
        assert_eq!(a.weight(bottom), effective_weight(&prefs, bottom));
        assert_eq!(b.weight(bottom), effective_weight(&prefs, bottom));
        assert_eq!(c.weight(bottom), effective_weight(&prefs, bottom));
    }
    assert_eq!(b.weight(5), 3000);
    assert_eq!(b.weight(6), DEFAULT_WEIGHT);
    assert_eq!(b.weight(8), 0);
}

#[test]
fn indexed_table_draws_like_scanned() {
    let prefs = vec![pref(5, 3 * WEIGHT_ONE)];
    let bottoms = vec![5, 6];
    for draw in [0u64, 2999, 3000, 3999] {
        assert_eq!(
            sample_with_draw(&bottoms, &indexed(prefs.clone()), draw),
            sample_with_draw(&bottoms, &scanned(prefs.clone()), draw)
        );
    }
}

#[test]
fn too_soon_step_lowers_when_configured() {
    let p = RatingPolicy { good_step: 500, bad_step: 1000, too_soon_step: 200 };
    assert_eq!(adjust_weight(&p, 1234, Rating::TooSoon), 1034);
    assert_eq!(adjust_weight(&p, 150, Rating::TooSoon), 0);
}
