use roguelike::combat::{apply_damage, resolve_attack, AttackOutcome};
use roguelike::components::{CombatStats, Color, GameLoopState, GameState, PlayerBundle, Point, Position, Renderable, RunState, WorldPosition, spawn_player};
use roguelike::npc::{
    follow_path, mob_from_roll, npc_ai_step, npc_step_in_range, spawn_random_mob, NPCBundle, NPC_AI_State, NPC_Type, NpcSpeech,
    Utterance,
};
use roguelike::random::RNG;

#[test]
fn player_defaults() {
    let p = PlayerBundle::default();
    assert_eq!(p.name.0, "Hero");
    assert_eq!(p.position, Position { x: 40, y: 25 });
    assert_eq!(p.stats, CombatStats { max_hp: 30, hp: 30, defense: 2, power: 5 });
    assert_eq!(p.renderable, Renderable { glyph: '@', fg: Color::LimeGreen, bg: Color::Black });
    assert_eq!(p.viewshed.range, 3);
    assert!(p.viewshed.dirty && p.viewshed.visible_tiles.is_empty());
    let q = spawn_player(Position { x: 7, y: 8 });
    assert_eq!(q.position, Position { x: 7, y: 8 });
    assert_eq!(q.name.0, "Hero");
    assert_eq!(GameLoopState::default(), GameLoopState::Initialization);
}

#[test]
fn npc_defaults_and_mobs() {
    let n = NPCBundle::default();
    assert_eq!(n.name.0, "NPC");
    assert_eq!(n.marker, NPC_Type::Enemy);
    assert_eq!(n.stats, CombatStats { max_hp: 5, hp: 5, defense: 0, power: 5 });
    assert_eq!(n.ai.state, NPC_AI_State::Inactive);
    assert_eq!(n.renderable.glyph, 'X');
    let g = mob_from_roll(1, Position { x: 1, y: 2 }, WorldPosition { x: 3, y: 4, z: 0 });
    assert_eq!(g.name.0, "Goblin");
    assert_eq!(g.renderable.glyph, 'G');
    assert_eq!(g.world_pos, WorldPosition { x: 3, y: 4, z: 0 });
    assert_eq!(mob_from_roll(2, Position { x: 1, y: 2 }, WorldPosition { x: 0, y: 0, z: 0 }).name.0, "Orc");
    assert_eq!(mob_from_roll(3, Position { x: 1, y: 2 }, WorldPosition { x: 0, y: 0, z: 0 }).name.0, "Xenity");
    let mut rng = RNG(rltk::RandomNumberGenerator::seeded(11));
    let mut kinds = std::collections::HashSet::new();
    for _ in 0..50 {
        let m = spawn_random_mob(Position { x: 5, y: 6 }, &mut rng, WorldPosition { x: 0, y: 0, z: 0 });
        assert!(m.name.0 == "Goblin" || m.name.0 == "Orc");
        assert_eq!(m.position, Position { x: 5, y: 6 });
        kinds.insert(m.name.0.clone());
    }
    assert_eq!(kinds.len(), 2);
}

#[test]
fn damage_outcomes() {
    let mut gs = GameState { runstate: RunState::Running };
    let mut orc = CombatStats { max_hp: 5, hp: 5, defense: 0, power: 5 };
    assert_eq!(apply_damage(&mut orc, 3, false, &mut gs), AttackOutcome::Survived);
    assert_eq!(orc.hp, 2);
    assert_eq!(apply_damage(&mut orc, 2, false, &mut gs), AttackOutcome::TargetSlain);
    assert_eq!(gs.runstate, RunState::Running);
    let mut hero = CombatStats { max_hp: 30, hp: 4, defense: 2, power: 5 };
    assert_eq!(apply_damage(&mut hero, 6, true, &mut gs), AttackOutcome::PlayerDefeated);
    assert_eq!(hero.hp, -2);
    assert_eq!(gs.runstate, RunState::GameOver);
}

#[test]
fn attacks_roll_within_the_dice() {
    let mut rng = RNG(rltk::RandomNumberGenerator::seeded(5));
    let mut gs = GameState { runstate: RunState::Running };
    for _ in 0..100 {
        let mut t = CombatStats { max_hp: 100, hp: 100, defense: 0, power: 0 };
        let out = resolve_attack(&mut rng, &mut t, (2, 6), false, &mut gs);
        assert!(t.hp >= 88 && t.hp <= 98);
        assert_eq!(out, AttackOutcome::Survived);
    }
    let mut t = CombatStats { max_hp: 3, hp: 3, defense: 0, power: 0 };
    assert_eq!(resolve_attack(&mut rng, &mut t, (0, 6), false, &mut gs), AttackOutcome::Survived);
    assert_eq!(t.hp, 3);
}

#[test]
fn npc_wakes_greets_and_chases() {
    let me = Position { x: 20, y: 10 };
    let d = npc_ai_step(NPC_AI_State::Inactive, me, Position { x: 25, y: 10 }, false);
    assert_eq!(d.state, NPC_AI_State::Inactive);
    assert_eq!(d.speech, None);
    let d = npc_ai_step(NPC_AI_State::Inactive, me, Position { x: 25, y: 10 }, true);
    assert_eq!(d.state, NPC_AI_State::Active);
    assert_eq!(d.speech, Some(Utterance { speech: NpcSpeech::Greeting, at: Point { x: 14, y: 12 } }));
    assert!(!d.chase);
    let d = npc_ai_step(NPC_AI_State::Active, me, Position { x: 25, y: 10 }, true);
    assert!(d.chase && d.speech.is_none());
    let d = npc_ai_step(NPC_AI_State::Active, me, Position { x: 25, y: 10 }, false);
    assert!(!d.chase);
    assert_eq!(d.state, NPC_AI_State::Active);
    let d = npc_ai_step(NPC_AI_State::Active, me, Position { x: 21, y: 10 }, true);
    assert_eq!(d.speech, Some(Utterance { speech: NpcSpeech::Attack, at: Point { x: 17, y: 12 } }));
    assert!(!d.chase);
    let d = npc_ai_step(NPC_AI_State::Active, me, Position { x: 21, y: 9 }, true);
    assert!(d.speech.is_some());
    assert_eq!(NpcSpeech::Greeting.text(), "Hello, World!");
    assert_eq!(NpcSpeech::Attack.text(), "Attack!");
}

#[test]
fn chasing_takes_second_path_step() {
    assert_eq!(follow_path(true, &vec![10, 171, 172], 80), Some(Position { x: 11, y: 2 }));
    assert_eq!(follow_path(true, &vec![10], 80), None);
    assert_eq!(follow_path(false, &vec![10, 11], 80), None);
    assert_eq!(follow_path(true, &vec![0, 100], 79), Some(Position { x: 21, y: 1 }));
}

#[test]
fn npc_turns_that_can_be_taken() {
    let far = Position { x: 0x50_0000, y: -0x50_0000 };
    let near = Position { x: 3, y: 4 };
    assert!(npc_step_in_range(NPC_AI_State::Inactive, far, near, true));
    assert!(npc_step_in_range(NPC_AI_State::Inactive, Position { x: i32::MIN, y: i32::MAX }, near, false));
    assert!(!npc_step_in_range(NPC_AI_State::Inactive, Position { x: i32::MIN + 5, y: 0 }, near, true));
    assert!(!npc_step_in_range(NPC_AI_State::Inactive, Position { x: 0, y: i32::MAX - 1 }, near, true));
    assert!(npc_step_in_range(NPC_AI_State::Active, near, near, true));
    assert!(!npc_step_in_range(NPC_AI_State::Active, far, near, false));
    assert!(!npc_step_in_range(NPC_AI_State::Active, near, far, false));
    let d = npc_ai_step(NPC_AI_State::Inactive, far, near, true);
    assert_eq!(d.state, NPC_AI_State::Active);
    let u = d.speech.unwrap();
    assert_eq!((u.at.x, u.at.y), (0x50_0000 - 6, -0x50_0000 + 2));
}

#[test]
fn attacks_follow_the_dice() {
    let mut gs = GameState { runstate: RunState::Running };
    let mut a = RNG(rltk::RandomNumberGenerator::seeded(11));
    let mut b = RNG(rltk::RandomNumberGenerator::seeded(11));
    let mut hps = Vec::new();
    for _ in 0..20 {
        let mut t1 = CombatStats { max_hp: 100, hp: 100, defense: 0, power: 0 };
        let mut t2 = t1;
        resolve_attack(&mut a, &mut t1, (1, 20), false, &mut gs);
        resolve_attack(&mut b, &mut t2, (1, 20), false, &mut gs);
        assert_eq!(t1.hp, t2.hp);
        hps.push(t1.hp);
    }
    hps.sort();
    hps.dedup();
    assert!(hps.len() > 1);
}
