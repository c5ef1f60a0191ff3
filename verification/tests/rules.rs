use peakrunner::bot_nav::{plan_armor, slot, Difficulty, PlanArmor};
use peakrunner::conditions::{describe, precipitation, spawn_twist, SpawnTwist, TimeOfDay, Twist, Weather};
use peakrunner::deathmatch::{capture, deathmatch_frag, ffa_leader, hostile, hud_winner, record_kill, team_outcome, Fragger, Outcome,
    CAPTURES, FFA_FRAG_LIMIT, TDM_FRAG_LIMIT};
use peakrunner::deploy::{half_extents, placement_problem, team_limit, DeployKind, HalfExtents, PlacementProblem, Survey};
use peakrunner::football::{catch_kind, catch_text, halftime_side, has_field, hit_effect, hit_losers, knock_loose_text,
    tackle_text, team_name, touchdown, touchdown_text, CatchKind, HitEffect, Losers, TOUCHDOWNS_TO_WIN, TOUCHDOWN_POINTS};
use peakrunner::loadout::{allowed_weapon, drop_loot, exhausted, has_mortar, is_railgun, max_ammo, purchase,
    rifle_name, roll_count, take_loot, take_round, ArmorClass, Kit, LootPack, Purchase, BUY_AMMO, BUY_FIELD, BUY_HEAVY,
    BUY_LIGHT, BUY_NONE, BUY_RIFLE, BUY_TURRET, BUY_WALL, RIFLE_SLOT};
use peakrunner::map_catalog::PackInfo;
use peakrunner::terrain::MapId;
use peakrunner::throwables::{check_throw, is_throwable, max_throwables, ThrowRefused, GRENADE_KIND, MINE_KIND,
    MINE_TEAM_MAX, THROW_GRENADE, THROW_MINE};
use peakrunner::{MatchState, Team};

#[test]
fn carrying_limits_and_team_mine_cap() {
    let full = max_throwables(ArmorClass::Light);
    assert_eq!(check_throw(true, true, THROW_GRENADE, full, 0), Ok(GRENADE_KIND));
    assert_eq!(check_throw(true, true, THROW_GRENADE, [0, 0], 0).map_err(|e| e.message()), Err("NO GRENADES LEFT"));
    assert_eq!(check_throw(true, true, THROW_MINE, [0, 0], 0).map_err(|e| e.message()), Err("NO MINES LEFT"));
    assert_eq!(check_throw(true, true, THROW_MINE, [0, 3], MINE_TEAM_MAX).map_err(|e| e.message()),
        Err("YOUR TEAM HAS THE MAXIMUM OF MINES OUT"));
    assert_eq!(max_throwables(ArmorClass::Heavy), [8, 3]);
}

#[test]
fn throws_need_a_ready_living_thrower() {
    assert_eq!(check_throw(false, true, THROW_GRENADE, [5, 3], 0), Err(ThrowRefused::NotReady));
    assert_eq!(check_throw(true, false, THROW_MINE, [5, 3], 0), Err(ThrowRefused::NotReady));
    assert_eq!(check_throw(true, true, THROW_MINE, [0, 1], MINE_TEAM_MAX - 1), Ok(MINE_KIND));
    assert_eq!(ThrowRefused::NotReady.message(), "");
    assert!(is_throwable(GRENADE_KIND) && is_throwable(MINE_KIND) && !is_throwable(0));
    assert_eq!(max_throwables(ArmorClass::Light), [5, 3]);
}

fn hit(defender: f32, carrier: f32) -> (bool, bool, bool) {
    // The carrier runs at +carrier, the defender at -defender, head on.
    let closing = (carrier + defender).abs().round() as u32;
    let (sc, sd) = (carrier.abs().round() as u32, defender.abs().round() as u32);
    let losers = hit_losers(sc, sd);
    let carrier_loses = losers != Losers::Second;
    let defender_loses = losers != Losers::First;
    let carrier_hit = if carrier_loses { hit_effect(closing, true, true) } else { HitEffect::Unhurt };
    let defender_hit = if defender_loses { hit_effect(closing, false, true) } else { HitEffect::Unhurt };
    (carrier_hit != HitEffect::Unhurt, carrier_hit == HitEffect::Tackle, defender_hit == HitEffect::Tackle)
}

#[test]
fn hits_follow_the_classic_rule_the_slower_player_loses() {
    assert_eq!(hit(1.0, 0.0), (false, false, false), "closing 1: a bump");
    assert_eq!(hit(8.0, 0.0), (true, false, false), "closing 8: the slower carrier fumbles");
    assert_eq!(hit(14.4, 0.0), (true, false, false), "closing 14.4 rounds to 14: fumble");
    assert_eq!(hit(14.6, 0.0), (true, true, false), "closing 14.6 rounds to 15: tackle");
    assert_eq!(hit(24.0, 0.0), (true, true, false), "hard hit: the carrier goes down");
    assert_eq!(hit(3.0, 16.0), (false, false, true), "the faster carrier wins");
    assert_eq!(hit(10.2, 9.8), (true, true, true), "a tie takes both down");
}

#[test]
fn football_plays_and_scores() {
    assert_eq!(hit_losers(3, 9), Losers::First);
    assert_eq!(hit_losers(9, 3), Losers::Second);
    assert_eq!(hit_losers(4, 4), Losers::Both);
    assert_eq!(hit_effect(1, true, true), HitEffect::Unhurt);
    assert_eq!(hit_effect(2, true, true), HitEffect::KnockLoose);
    assert_eq!(hit_effect(15, false, true), HitEffect::Tackle);
    assert_eq!(hit_effect(30, false, false), HitEffect::Unhurt, "nobody is tackled without a ball in play");
    assert_eq!(hit_effect(30, true, false), HitEffect::Unhurt);
    assert_eq!(catch_kind(None, false, Team::Ember), CatchKind::PickUp);
    assert_eq!(catch_kind(Some(Team::Glacier), true, Team::Ember), CatchKind::PickUp);
    assert_eq!(catch_kind(Some(Team::Glacier), false, Team::Ember), CatchKind::Intercept);
    assert_eq!(catch_kind(Some(Team::Ember), false, Team::Ember), CatchKind::Catch);
    assert_eq!(catch_text("Ann", CatchKind::Intercept), "Ann intercepts the ball!");
    assert_eq!(catch_text("Ann", CatchKind::PickUp), "Ann picks up the ball");
    assert_eq!(catch_text("Ann", CatchKind::Catch), "Ann catches the ball");
    assert_eq!(touchdown_text("Bob", Team::Glacier), "Bob scores a touchdown for GLACIER!");
    assert_eq!(knock_loose_text("Ann", "Bob"), "Ann knocks the ball loose from Bob");
    assert_eq!(tackle_text("Ann", "Bob"), "Ann tackles Bob");
    assert_eq!(team_name(Team::Ember), "EMBER");
    let mut score = [TOUCHDOWNS_TO_WIN - 2, 0];
    let mut points = 10;
    assert!(!touchdown(&mut score, &mut points, Team::Ember));
    assert_eq!((score, points), ([TOUCHDOWNS_TO_WIN - 1, 0], 10 + TOUCHDOWN_POINTS));
    assert!(touchdown(&mut score, &mut points, Team::Ember));
    assert_eq!(halftime_side(0), Team::Glacier);
    assert_eq!(halftime_side(1), Team::Ember);
    assert!(has_field(Some(PackInfo { football: true, control_points: 0 })));
    assert!(!has_field(None));
}

#[test]
fn deathmatch_makes_teammates_targets_and_team_deathmatch_does_not() {
    let players = [Fragger { team: Team::Ember, frags: 0, losses: 0, listed: true },
        Fragger { team: Team::Ember, frags: 0, losses: 0, listed: true },
        Fragger { team: Team::Glacier, frags: 0, losses: 0, listed: true }];
    assert!(hostile(true, &players, 0, Team::Ember, 1));
    assert!(!hostile(false, &players, 0, Team::Ember, 1));
    assert!(hostile(false, &players, 0, Team::Ember, 2));
    assert!(!hostile(true, &players, 0, Team::Ember, 0), "never yourself");
    // A turret (not a player) goes by team even in Deathmatch.
    assert!(!hostile(true, &players, 8, Team::Ember, 1));
    assert!(hostile(true, &players, 8, Team::Ember, 2));
}

#[test]
fn frags_tally_and_end_matches() {
    let mut players = vec![Fragger { team: Team::Ember, frags: 0, losses: 0, listed: true },
        Fragger { team: Team::Glacier, frags: 0, losses: 0, listed: true },
        Fragger { team: Team::Ember, frags: 0, losses: 0, listed: true }];
    record_kill(&mut players, 1, Some(0));
    assert_eq!((players[0].frags, players[1].losses), (1, 1));
    record_kill(&mut players, 2, Some(0));
    assert_eq!((players[0].frags, players[2].losses), (1, 1), "no credit for a teammate");
    record_kill(&mut players, 1, None);
    assert_eq!(players[1].losses, 2);
    assert_eq!(ffa_leader(&players), Some(0));
    let mut score = [0, 0];
    players[0].frags = FFA_FRAG_LIMIT - 2;
    record_kill(&mut players, 1, Some(0));
    assert!(!deathmatch_frag(true, &mut players, &mut score, Some(0), 1));
    record_kill(&mut players, 1, Some(0));
    assert!(deathmatch_frag(true, &mut players, &mut score, Some(0), 1), "the frag limit ends it");
    assert_eq!(score, [0, 0]);
    assert!(!deathmatch_frag(true, &mut players, &mut score, Some(2), 2));
    assert_eq!(players[2].frags, 0, "a suicide costs a frag, never below zero");
    players[0].frags = 3;
    assert!(!deathmatch_frag(true, &mut players, &mut score, Some(0), 0));
    assert_eq!(players[0].frags, 2);
    let mut score = [TDM_FRAG_LIMIT - 1, 0];
    let mut players = vec![Fragger { team: Team::Ember, frags: 0, losses: 0, listed: true },
        Fragger { team: Team::Glacier, frags: 0, losses: 0, listed: true }];
    assert!(deathmatch_frag(false, &mut players, &mut score, Some(0), 1));
    assert_eq!(score, [TDM_FRAG_LIMIT, 0]);
    assert_eq!(team_outcome(Team::Ember, score), Outcome::Victory);
    assert_eq!(team_outcome(Team::Glacier, score), Outcome::Defeat);
    assert_eq!(team_outcome(Team::Glacier, [2, 2]), Outcome::Draw);
    let mut flags = [CAPTURES - 1, 0];
    assert!(capture(&mut flags, Team::Ember));
    assert!(!capture(&mut flags, Team::Glacier));
    assert_eq!(flags, [CAPTURES, 1]);
}

#[test]
fn the_leader_is_the_last_of_equals_and_none_when_nobody_is_listed() {
    let p = |frags, losses, listed| Fragger { team: Team::Ember, frags, losses, listed };
    assert_eq!(ffa_leader(&[p(3, 1, true), p(3, 1, true), p(5, 9, false)]), Some(1));
    assert_eq!(ffa_leader(&[p(3, 0, true), p(3, 1, true)]), Some(0));
    assert_eq!(ffa_leader(&[p(3, 0, false)]), None);
}

#[test]
fn teams_are_limited_and_bad_spots_refused() {
    let clear = Survey { on_unit: false, flat: true, near_flag: false, near_spawn: false, near_deployable: false,
        blocked_overhead: false, panel_blocked: false, panel_uneven: false, occupied: false };
    assert_eq!(placement_problem(DeployKind::Turret, 0, clear), None);
    assert_eq!(placement_problem(DeployKind::Turret, team_limit(DeployKind::Turret), clear).map(|p| p.message()),
        Some("YOUR TEAM HAS THE MAXIMUM OF THOSE DEPLOYED"));
    assert!(placement_problem(DeployKind::Turret, 0, Survey { near_flag: true, ..clear }).is_some(), "not on the flag");
}

#[test]
fn placement_checks_run_in_order() {
    let clear = Survey { on_unit: false, flat: true, near_flag: false, near_spawn: false, near_deployable: false,
        blocked_overhead: false, panel_blocked: false, panel_uneven: false, occupied: false };
    let all_bad = Survey { on_unit: true, flat: false, near_flag: true, near_spawn: true, near_deployable: true,
        blocked_overhead: true, panel_blocked: true, panel_uneven: true, occupied: true };
    assert_eq!(placement_problem(DeployKind::Wall, 0, all_bad), Some(PlacementProblem::NoRoom));
    assert_eq!(placement_problem(DeployKind::Wall, 0, Survey { flat: false, ..clear }), Some(PlacementProblem::NotFlat));
    assert_eq!(placement_problem(DeployKind::Ammo, 0, Survey { near_spawn: true, ..clear }),
        Some(PlacementProblem::NearSpawn));
    assert_eq!(placement_problem(DeployKind::Ammo, 0, Survey { near_deployable: true, ..clear }),
        Some(PlacementProblem::NearDeployable));
    assert_eq!(placement_problem(DeployKind::Field, 0, Survey { panel_uneven: true, ..clear }),
        Some(PlacementProblem::NotFlat));
    assert_eq!(placement_problem(DeployKind::Turret, 0, Survey { panel_uneven: true, panel_blocked: true, ..clear }),
        None, "panel checks are for walls and fields");
    assert_eq!(placement_problem(DeployKind::Turret, 0, Survey { occupied: true, ..clear }),
        Some(PlacementProblem::SomeoneInTheWay));
    assert_eq!(PlacementProblem::NearFlag.message(), "TOO CLOSE TO A FLAG");
    assert_eq!((team_limit(DeployKind::Wall), team_limit(DeployKind::Field), team_limit(DeployKind::Ammo)), (6, 4, 5));
    assert_eq!(half_extents(DeployKind::Turret), None);
    assert_eq!(half_extents(DeployKind::Ammo), Some(HalfExtents { x_mm: 550, y_mm: 450, z_mm: 400 }));
    assert_eq!(half_extents(DeployKind::Field), Some(HalfExtents { x_mm: 2000, y_mm: 1600, z_mm: 180 }));
}

#[test]
fn purchases_and_rounds() {
    assert_eq!(purchase(BUY_NONE), None);
    assert_eq!(purchase(BUY_LIGHT), Some(Purchase::Armor(ArmorClass::Light)));
    assert_eq!(purchase(BUY_HEAVY), Some(Purchase::Armor(ArmorClass::Heavy)));
    assert_eq!(purchase(BUY_RIFLE), Some(Purchase::Rifle));
    assert_eq!(purchase(BUY_TURRET), Some(Purchase::Pack(DeployKind::Turret)));
    assert_eq!(purchase(BUY_WALL), Some(Purchase::Pack(DeployKind::Wall)));
    assert_eq!(purchase(BUY_FIELD), Some(Purchase::Pack(DeployKind::Field)));
    assert_eq!(purchase(BUY_AMMO), Some(Purchase::Pack(DeployKind::Ammo)));
    assert_eq!(purchase(99), None);
    let heavy = max_ammo(ArmorClass::Heavy);
    let light = max_ammo(ArmorClass::Light);
    assert!(heavy.iter().zip(light).all(|(h, l)| *h >= l) && heavy[0] > light[0] && heavy[1] > light[1]);
    assert!(has_mortar(ArmorClass::Heavy) && !has_mortar(ArmorClass::Light));
    let mut ammo = [2, 0, 1, 0];
    assert!(take_round(&mut ammo, 0));
    assert!(take_round(&mut ammo, 0));
    assert!(!take_round(&mut ammo, 0), "empty: it clicks");
    assert!(!take_round(&mut ammo, 1));
    assert!(take_round(&mut ammo, 3), "the rifle draws on the third slot");
    assert_eq!(ammo, [0, 0, 0, 0]);
}

#[test]
fn the_dead_drop_a_roll_of_what_they_carried() {
    for roll in 0..10u16 {
        let l = drop_loot([10, 60, 4, 0], 3, ArmorClass::Light, [roll, roll, roll]);
        assert!((1..=5).contains(&l.ammo[0]) && (1..=4).contains(&l.ammo[2]), "{:?}", l.ammo);
        assert_eq!(l.ammo[1], 60);
        assert_eq!(l.ammo[3], 0);
        assert!((1..=3).contains(&l.grenades));
    }
    assert_eq!(roll_count(0, 10), 1);
    assert_eq!(roll_count(2, 10), 3);
    assert_eq!(roll_count(9, 10), 5);
    assert_eq!(roll_count(9, 2), 2);
    let empty = drop_loot([0, 0, 0, 0], 0, ArmorClass::Light, [4, 4, 4]);
    assert_eq!((empty.ammo, empty.grenades), ([0, 0, 0, 0], 1), "somebody with no grenades still drops one");
}

#[test]
fn a_picker_takes_what_fits_and_the_pack_keeps_the_rest() {
    let mut kit = Kit { armor: ArmorClass::Light, ammo: [13, 100, 0, 0], grenades: 4 };
    let mut loot = LootPack { ammo: [5, 60, 4, 0], armor: ArmorClass::Heavy, grenades: 3 };
    assert!(take_loot(&mut kit, &mut loot));
    assert_eq!(kit.ammo, [15, 100, 0, 0], "mortar shells don't fit a grenade launcher");
    assert_eq!(kit.grenades, 5);
    assert_eq!(loot.ammo, [3, 60, 4, 0]);
    assert_eq!(loot.grenades, 2);
    assert!(!exhausted(&loot));
    assert!(!take_loot(&mut kit, &mut loot), "nothing more fits");
    let mut heavy = Kit { armor: ArmorClass::Heavy, ammo: [0, 0, 0, 0], grenades: 8 };
    assert!(take_loot(&mut heavy, &mut loot));
    assert_eq!(heavy.ammo, [3, 60, 4, 0]);
    assert_eq!(loot.ammo, [0, 0, 0, 0]);
    assert_eq!(loot.grenades, 2);
    let mut last = Kit { armor: ArmorClass::Light, ammo: [0, 0, 0, 0], grenades: 0 };
    assert!(take_loot(&mut last, &mut loot));
    assert!(exhausted(&loot));
}

#[test]
fn conditions_describe_themselves() {
    assert_eq!(describe(TimeOfDay::MapDefault, Weather::Clear, Twist::NoTwist), "Clear");
    assert_eq!(describe(TimeOfDay::Night, Weather::Rain, Twist::NoTwist), "Night · Rain");
    assert_eq!(describe(TimeOfDay::Dawn, Weather::Fog, Twist::GlassCannon), "Dawn · Fog · Glass cannon");
    assert_eq!(describe(TimeOfDay::MapDefault, Weather::Snow, Twist::Heavies), "Snow · Heavies only");
    assert!(precipitation(Weather::Rain) && precipitation(Weather::Storm) && precipitation(Weather::Snow));
    assert!(!precipitation(Weather::Fog) && !precipitation(Weather::Overcast) && !precipitation(Weather::Clear));
}

#[test]
fn bots_plan_by_map() {
    assert_eq!(slot(MapId::Valley), None);
    assert_eq!(slot(MapId::Raindance), Some(0));
    assert_eq!(slot(MapId::Reefbreak), Some(8));
    assert_eq!(plan_armor(Some(PackInfo { football: true, control_points: 0 })), PlanArmor::Football);
    assert_eq!(plan_armor(None), PlanArmor::Standard);
    assert_eq!(Difficulty::ALL.map(|d| d.label()), ["Easy", "Normal", "Hard", "Mixed"]);
}

#[test]
fn teams_and_pause() {
    assert_eq!(Team::Ember.other(), Team::Glacier);
    assert_eq!(Team::Glacier.other().other(), Team::Glacier);
    assert_eq!((Team::Ember.idx(), Team::Glacier.idx()), (0, 1));
    assert_eq!(MatchState::Playing.set_paused(true), MatchState::Paused);
    assert_eq!(MatchState::Paused.set_paused(false), MatchState::Playing);
    assert_eq!(MatchState::Paused.set_paused(true), MatchState::Paused);
    assert_eq!(MatchState::Ended.set_paused(true), MatchState::Ended);
    assert_eq!(MatchState::Flyby.set_paused(false), MatchState::Flyby);
}

#[test]
fn rifles_follow_the_armor_and_must_be_bought() {
    assert_eq!(allowed_weapon(RIFLE_SLOT, false, 0), 0, "not carried by default");
    assert_eq!(allowed_weapon(RIFLE_SLOT, false, 2), 2);
    assert_eq!(allowed_weapon(RIFLE_SLOT, false, RIFLE_SLOT), 2);
    assert_eq!(allowed_weapon(RIFLE_SLOT, true, 0), RIFLE_SLOT);
    assert_eq!(allowed_weapon(1, false, 0), 1);
    assert_eq!(allowed_weapon(9, true, 0), RIFLE_SLOT);
    assert!(!is_railgun(ArmorClass::Light) && is_railgun(ArmorClass::Heavy));
    assert_eq!(rifle_name(ArmorClass::Light), "Laser rifle");
    assert_eq!(rifle_name(ArmorClass::Heavy), "Railgun");
    assert_eq!(spawn_twist(Twist::Heavies), SpawnTwist { armor: Some(ArmorClass::Heavy), rifle: false });
    assert_eq!(spawn_twist(Twist::Rifles), SpawnTwist { armor: None, rifle: true });
    assert_eq!(spawn_twist(Twist::GlassCannon), SpawnTwist { armor: None, rifle: false });
}

#[test]
fn the_hud_names_the_winner_only_at_the_end() {
    assert_eq!(hud_winner(MatchState::Playing, [3, 0]), -2);
    assert_eq!(hud_winner(MatchState::Ended, [3, 0]), 0);
    assert_eq!(hud_winner(MatchState::Ended, [1, 2]), 1);
    assert_eq!(hud_winner(MatchState::Ended, [2, 2]), -1);
}
