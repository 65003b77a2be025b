use diana::rank::{next_tier, prev_tier, tier_order, Tier};

#[test]
fn tier_names_round_trip() {
    let all = [
        Tier::IRON,
        Tier::BRONZE,
        Tier::SILVER,
        Tier::GOLD,
        Tier::PLATINUM,
        Tier::EMERALD,
        Tier::DIAMOND,
        Tier::MASTER,
        Tier::GRANDMASTER,
        Tier::CHALLENGER,
    ];
    for (i, t) in all.iter().enumerate() {
        assert_eq!(Tier::from_str(t.to_str()), Some(*t));
        assert_eq!(tier_order(*t), i as i32);
    }
}

#[test]
fn tier_names_ignore_ascii_case() {
    assert_eq!(Tier::from_str("gold"), Some(Tier::GOLD));
    assert_eq!(Tier::from_str("GrandMaster"), Some(Tier::GRANDMASTER));
    assert_eq!(Tier::from_str("GOLD "), None);
    assert_eq!(Tier::from_str(""), None);
    assert_eq!(Tier::from_str("UNRANKED"), None);
}

#[test]
fn tier_steps_stop_at_the_ends() {
    assert_eq!(next_tier(Tier::IRON), Tier::BRONZE);
    assert_eq!(next_tier(Tier::DIAMOND), Tier::MASTER);
    assert_eq!(next_tier(Tier::CHALLENGER), Tier::CHALLENGER);
    assert_eq!(prev_tier(Tier::IRON), Tier::IRON);
    assert_eq!(prev_tier(Tier::EMERALD), Tier::PLATINUM);
    assert_eq!(prev_tier(Tier::CHALLENGER), Tier::GRANDMASTER);
    assert_eq!(Tier::PLATINUM.to_str(), "PLATINUM");
}
