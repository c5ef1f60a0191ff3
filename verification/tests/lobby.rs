use peakrunner::feed::Entry;
use peakrunner::matchplay::{command_valid, next_phase, Clock, Lobby, Phase, MAX_PLAYERS, RENAME_GAP};
use peakrunner::Team;

fn duel() -> Lobby {
    let mut game = Lobby::new();
    game.join(1, Some("Skier".into())).unwrap();
    game.join(2, Some("Skier".into())).unwrap();
    game.phase = Phase::Playing;
    game.round = 1;
    game
}

fn count(game: &Lobby, team: Team) -> usize {
    game.seats.iter().filter(|p| p.net_id != 0 && p.team == team).count()
}

#[test]
fn team_chat_is_filtered_before_serialization_and_shares_rate_limit() {
    let mut m = Lobby::new();
    let a = m.join(1, Some("Alice".into())).unwrap();
    let enemy = m.join(2, Some("Enemy".into())).unwrap();
    let friend = m.join(3, Some("Friend".into())).unwrap();
    assert!(m.chat_channel(a, "Secret route", true));
    assert!(!m.chat(a, "Bypass cooldown"));
    assert_eq!(m.feed_for(a).len(), 1);
    assert_eq!(m.feed_for(friend).len(), 1);
    assert!(m.feed_for(enemy).is_empty());
    assert!(m.feed_for(99).is_empty());
    assert!(m.public_feed().is_empty());
    m.tick += 60;
    assert!(!m.chat_channel(a, "\nBad", true));
    assert!(m.chat(a, "Public hello"));
    assert_eq!(m.feed_for(enemy).len(), 1);
    m.seats[friend].team = m.seats[enemy].team;
    assert_eq!(m.feed_for(friend).len(), 1);
}

#[test]
fn chat_is_authoritative_bounded_rate_limited_and_resets_when_empty() {
    let mut m = Lobby::new();
    let a = m.join(11, Some("Alice".into())).unwrap();
    let b = m.join(12, Some("Bob".into())).unwrap();
    assert!(!m.chat(7, "forged"));
    assert!(!m.chat(a, "bad\nmessage"));
    assert!(m.chat(a, "hello"));
    assert!(!m.chat(a, "spam"));
    assert!(m.chat(b, "ready"));
    m.tick += 60;
    assert!(m.chat(a, "go"));
    for _ in 0..3 {
        let feed = m.public_feed();
        assert_eq!(feed.len(), 3, "repeated snapshots must not duplicate events");
        assert_eq!(feed[0], Entry::Chat { sender: "Alice".into(), text: "hello".into() });
    }
    m.leave(a);
    m.leave(b);
    assert!(m.feed.is_empty());
}

#[test]
fn map_transition_preserves_slots_clocks_and_rate_limits_not_world_state() {
    let mut game = Lobby::new();
    game.join(11, Some("First".into())).unwrap();
    game.join(22, Some("Second".into())).unwrap();
    game.join(33, Some("Third".into())).unwrap();
    game.leave(0);
    game.tick = 500;
    game.round = 7;
    game.phase = Phase::Intermission;
    game.acks[1] = 123;
    assert!(game.chat(1, "Before rotation"));
    let team = game.seats[1].team;
    game.rotate();
    assert_eq!(game.tick, 500);
    assert_eq!(game.round, 7);
    assert_eq!(game.seats[0].net_id, 0);
    assert_eq!(game.seats[1].net_id, 22);
    assert_eq!(game.seats[2].net_id, 33);
    assert_eq!(game.seats[1].name, "Second");
    assert_eq!(game.seats[1].team, team);
    assert_eq!(game.acks[1], 123);
    assert!(!game.chat(1, "Too soon"));
    assert!(game.feed.is_empty());
    // The intermission clock runs out on this tick.
    game.step(true);
    assert_eq!(game.round, 8);
    assert_eq!(game.phase, Phase::Playing);
    game.leave(1);
    game.leave(2);
    assert_eq!(game.phase, Phase::Waiting);
    assert_eq!(game.round, 0);
    assert!(game.tick > 500);
}

#[test]
fn departure_balances_teams_without_resetting_active_match() {
    let mut game = duel();
    for id in 3..=6 {
        game.join(id, Some("Skier".into())).unwrap();
    }
    game.leave(1);
    game.leave(3);
    game.step(false);
    assert_eq!((count(&game, Team::Ember), count(&game, Team::Glacier)), (2, 2));
    assert_eq!(game.seats[4].team, Team::Glacier);
    assert_eq!(game.seats[4].net_id, 5);
    assert_eq!(game.phase, Phase::Playing);
}

#[test]
fn balance_prefers_non_carriers_and_drops_flags_if_unavoidable() {
    let mut game = duel();
    game.join(3, Some("Carrier".into())).unwrap();
    game.seats[2].carrying = Some(Team::Glacier);
    game.leave(1);
    let moves = game.balance_teams();
    assert_eq!(game.seats[0].team, Team::Glacier);
    assert_eq!(game.seats[2].team, Team::Ember);
    assert_eq!(game.seats[2].carrying, Some(Team::Glacier));
    assert_eq!(moves.len(), 1);
    assert_eq!(moves[0].dropped, None);

    game.seats[0].team = Team::Ember;
    game.seats[0].carrying = Some(Team::Ember);
    let moves = game.balance_teams();
    assert_eq!(game.seats[2].team, Team::Glacier);
    assert_eq!(game.seats[2].carrying, None);
    assert_eq!(moves[0].slot, 2);
    assert_eq!(moves[0].dropped, Some(Team::Glacier), "the flag is dropped");
}

#[test]
fn empty_server_resets_every_phase_and_keeps_health_clock_advancing() {
    for phase in [Phase::Waiting, Phase::Countdown, Phase::Playing, Phase::Intermission] {
        let mut game = duel();
        game.phase = phase;
        game.tick = 999;
        game.acks[0] = 300;
        game.leave(0);
        game.leave(1);
        assert_eq!(game.phase, Phase::Waiting);
        assert_eq!(game.round, 0);
        assert!(game.acks.iter().all(|ack| *ack == 0));
        assert!(game.step(false).is_none());
        assert_eq!(game.tick, 1000);
        game.join(7, Some("Fresh".into())).unwrap();
        game.join(8, Some("Fresh".into())).unwrap();
        game.step(false);
        assert_eq!(game.phase, Phase::Countdown);
    }
}

#[test]
fn abandoned_match_returns_to_warmup_and_requires_new_countdown() {
    let mut game = duel();
    game.leave(1);
    let (_, step) = game.step(false).unwrap();
    assert!(step.restart);
    assert_eq!(game.phase, Phase::Waiting);
    game.join(3, Some("Replacement".into())).unwrap();
    game.step(false);
    assert_eq!(game.phase, Phase::Countdown);
}

#[test]
fn seats_go_to_the_first_free_slot_and_identities_are_unique() {
    let mut game = Lobby::new();
    assert_eq!(game.join(0, Some("Nobody".into())), None);
    for id in 1..=MAX_PLAYERS as u32 {
        assert_eq!(game.join(id, Some("P".into())), Some(id as usize - 1));
    }
    assert_eq!(game.join(99, Some("Late".into())), None, "full");
    game.leave(3);
    assert_eq!(game.join(2, Some("Twin".into())), None, "identity already seated");
    assert_eq!(game.join(42, Some("Back".into())), Some(3));
    assert_eq!(count(&game, Team::Ember), 4);
    assert_eq!(count(&game, Team::Glacier), 4);
}

#[test]
fn renames_wait_their_turn_and_keep_identity() {
    let mut game = Lobby::new();
    assert_eq!(game.join(99, None), None, "a name the rules refuse never takes a seat");
    let a = game.join(1, Some("Alice".into())).unwrap();
    assert!(!game.rename(a, None), "nor renames anyone");
    assert_eq!(game.seats[a].name, "Alice");
    assert!(!game.rename(5, Some("Ghost".into())));
    assert!(game.rename(a, Some("Pilot".into())));
    assert_eq!(game.seats[a].name, "Pilot");
    assert_eq!(game.seats[a].net_id, 1);
    assert!(!game.rename(a, Some("Spam".into())));
    game.tick += RENAME_GAP;
    assert!(game.rename(a, Some("Pilot".into())), "keeping the name is fine");
    assert!(game.rename(a, Some("New Pilot".into())));
    game.leave(a);
    assert!(!game.rename(a, Some("Ghost".into())));
}

#[test]
fn commands_acknowledge_and_validate() {
    let mut game = duel();
    game.acknowledge(0, 7, true);
    game.acknowledge(0, 3, true);
    assert_eq!(game.acks[0], 7, "acknowledgements never go back");
    game.acknowledge(0, 9, false);
    game.acknowledge(5, 9, true);
    assert_eq!((game.acks[0], game.acks[5]), (7, 0));
    assert!(command_valid(1, 2, true));
    assert!(!command_valid(0, 0, true) && !command_valid(u64::MAX, 0, true));
    assert!(!command_valid(1, 3, true) && !command_valid(1, 0, false));
}

#[test]
fn phases_follow_the_round_rules() {
    let s = next_phase(Phase::Waiting, true, false);
    assert_eq!((s.phase, s.clock, s.restart), (Phase::Countdown, Clock::Countdown, false));
    let s = next_phase(Phase::Countdown, false, true);
    assert_eq!((s.phase, s.clock, s.next_round), (Phase::Waiting, Clock::Clear, false));
    let s = next_phase(Phase::Countdown, true, true);
    assert_eq!((s.phase, s.restart, s.next_round), (Phase::Playing, true, true));
    let s = next_phase(Phase::Intermission, false, true);
    assert_eq!((s.phase, s.restart, s.next_round), (Phase::Waiting, true, true));
    let s = next_phase(Phase::Intermission, false, false);
    assert_eq!((s.phase, s.clock), (Phase::Intermission, Clock::Tick));
    let s = next_phase(Phase::Playing, true, true);
    assert_eq!((s.phase, s.clock, s.restart), (Phase::Playing, Clock::Keep, false));
}

#[test]
fn balancing_reports_exactly_the_moves_it_made() {
    let mut game = Lobby::new();
    for id in 1..=6 {
        game.join(id, Some("P".into())).unwrap();
    }
    // Move every Glacier player to Ember by hand: six against none.
    for seat in game.seats.iter_mut() {
        seat.team = Team::Ember;
    }
    game.seats[2].carrying = Some(Team::Glacier);
    game.seats[4].alive = false;
    let moves = game.balance_teams();
    assert_eq!(moves.len(), 3, "half the difference");
    // Dead non-carriers first, then the newest arrivals.
    assert_eq!(moves.iter().map(|m| m.slot).collect::<Vec<_>>(), vec![4, 5, 3]);
    assert!(moves.iter().all(|m| m.to == Team::Glacier && m.dropped.is_none()));
    assert!(game.seats[4].alive, "moved players respawn");
    assert_eq!(game.seats[2].carrying, Some(Team::Glacier), "the carrier stays put");
    assert_eq!((count(&game, Team::Ember), count(&game, Team::Glacier)), (3, 3));
    let (moves, _) = game.step(false).unwrap();
    assert!(moves.is_empty());
}
