use ethervoid::combat::{plan_parries, AttackType, Owner, ParryState};
use ethervoid::entity::Vitals;
use ethervoid::goal::{GoalAction, GoalBehavior};
use ethervoid::behavior::{handle_behavior, Behavior, Turn};
use ethervoid::map::{closed_ring, known_placements};
use ethervoid::paused::{FrameOutcome, PauseAction, Paused, State};
use ethervoid::messages::{
    dialogue_on_hit, dialogue_with_rolls, pick_message, pick_with_rolls, roll_bounds, Dialogue, Message,
};
use ethervoid::obj::Axis;
use ethervoid::player::swap_weapons;
use ethervoid::process::downscale;
use ethervoid::sprite::{draw_source, frame_at, frame_source, FrameSource, Rotation};
use ethervoid::texturedobj::AttackTextureType;
use ethervoid::ui::{alpha_bounds, remove_alpha, PixelBox};

fn line(text: &str) -> Dialogue {
    Dialogue::new("Bob".to_string(), "default:bob".to_string(), text.to_string())
}

#[test]
fn message_reads_line_by_line() {
    let mut m = Message::new(vec![], vec![], 100, vec![line("hi"), line("bye")]);
    assert_eq!(m.get_dialogue().get_text(), "hi");
    assert!(!m.should_stop());
    m.next();
    assert_eq!(m.get_dialogue().get_text(), "bye");
    assert!(!m.should_stop());
    m.next();
    assert_eq!(m.get_dialogue().get_text(), "bye");
    assert!(m.should_stop());
    m.next();
    assert!(m.should_stop());
    assert_eq!(m.get_dialogue().get_name(), "Bob");
    assert_eq!(m.get_dialogue().get_portrait_key(), "default:bob");
}

#[test]
fn message_rolls() {
    let m = Message::new(vec![], vec![], 10, vec![line("hi")]);
    assert!(m.accepts_roll(0));
    assert!(m.accepts_roll(10));
    assert!(!m.accepts_roll(11));
    assert_eq!(m.probability(), 10);
    let sure = Message::new(vec![], vec![], 254, vec![line("hi")]);
    for _ in 0..200 {
        assert!(sure.should_read());
    }
    // With probability 0 only a roll of 0 is accepted: most draws are refused.
    let rare = Message::new(vec![], vec![], 0, vec![line("hi")]);
    let refused = (0..500).filter(|_| !rare.should_read()).count();
    assert!(refused > 400);
}

#[test]
fn weapons_swap_to_next_unlocked() {
    assert_eq!(swap_weapons(&0, &[true, true, true]), 1);
    assert_eq!(swap_weapons(&1, &[true, true, true]), 2);
    assert_eq!(swap_weapons(&2, &[true, true, true]), 0);
    assert_eq!(swap_weapons(&0, &[true, false, true]), 2);
    assert_eq!(swap_weapons(&5, &[true, false, false]), 0);
    assert_eq!(swap_weapons(&0, &[true]), 0);
}

#[test]
fn axis_facings() {
    assert_eq!(Axis::from_step(-1), Axis::Positive);
    assert_eq!(Axis::from_step(1), Axis::Negative);
    assert_eq!(Axis::from_step(0), Axis::Neutral);
    assert_eq!(Axis::from_step(2), Axis::Neutral);
    assert_eq!(Axis::Positive.updated(0), Axis::Neutral);
    assert_eq!(Axis::Positive.updated(5), Axis::Positive);
    assert_eq!(Axis::Neutral.updated(1), Axis::Negative);
    // Both keys held: the one just pressed wins, the second key first.
    assert_eq!(Axis::Neutral.switch_axis(true, true, true, true), Axis::Positive);
    assert_eq!(Axis::Positive.switch_axis(true, true, true, false), Axis::Negative);
    assert_eq!(Axis::Positive.switch_axis(true, true, false, false), Axis::Positive);
    assert_eq!(Axis::Neutral.switch_axis(true, false, false, false), Axis::Negative);
    assert_eq!(Axis::Neutral.switch_axis(false, true, false, false), Axis::Positive);
    assert_eq!(Axis::Positive.switch_axis(false, false, true, true), Axis::Neutral);
}

#[test]
fn sprite_frames() {
    // An eight-way sheet 64 wide and 80 high has 16-pixel frames.
    let src = frame_source(Rotation::EightWay, Axis::Negative, Axis::Positive, 2, 0, 64, 80);
    assert_eq!(src, FrameSource { x: 32, y: 16, size: 16, flip_x: true });
    let src = frame_source(Rotation::EightWay, Axis::Neutral, Axis::Negative, 1, 2, 64, 80);
    assert_eq!(src, FrameSource { x: 18, y: 64, size: 16, flip_x: false });
    let src = frame_source(Rotation::EightWay, Axis::Positive, Axis::Neutral, 9, 0, 64, 80);
    assert_eq!(src, FrameSource { x: 63, y: 32, size: 16, flip_x: false });
    let src = frame_source(Rotation::EightWay, Axis::Positive, Axis::Negative, 0, 0, 64, 80);
    assert_eq!(src.y, 48);
    let src = frame_source(Rotation::EightWay, Axis::Neutral, Axis::Positive, 0, 0, 64, 80);
    assert_eq!(src.y, 0);
    let src = frame_source(Rotation::Static, Axis::Negative, Axis::Negative, 1, 0, 48, 16);
    assert_eq!(src, FrameSource { x: 16, y: 0, size: 16, flip_x: false });
    assert_eq!(frame_at(&vec![0, 1, 0, 2], 3), 2);
    assert_eq!(frame_at(&vec![0, 1, 0, 2], 4), 0);
    assert_eq!(frame_at(&vec![], 0), 0);
}

#[test]
fn attack_frames() {
    let slash = AttackTextureType::Slash;
    assert_eq!(slash.frame_x(8, 10), 0);
    assert_eq!(slash.frame_x(6, 10), 0);
    assert_eq!(slash.frame_x(5, 10), 10);
    assert_eq!(slash.frame_x(3, 10), 10);
    assert_eq!(slash.frame_x(2, 10), 20);
    assert_eq!(slash.frame_x(9, 10), 20);
    assert_eq!(slash.frame_x(-2, 10), 20);
    assert_eq!(AttackTextureType::ProjectileEnemy.frame_x(4, 10), 0);
    assert!(AttackTextureType::ProjectilePlayer.is_projectile());
    assert!(!AttackTextureType::Burst.is_projectile());
}

#[test]
fn bounds_of_opaque_pixels() {
    // 4 x 3 image with opaque pixels at (1, 0) and (2, 2).
    let alpha = vec![0, 9, 0, 0, 0, 0, 0, 0, 0, 0, 255, 0];
    assert_eq!(alpha_bounds(4, 3, &alpha), Some(PixelBox { x: 1, y: 0, width: 2, height: 3 }));
    assert_eq!(alpha_bounds(2, 2, &vec![0, 0, 0, 0]), None);
    assert_eq!(alpha_bounds(1, 1, &vec![1]), Some(PixelBox { x: 0, y: 0, width: 1, height: 1 }));
    assert_eq!(alpha_bounds(0, 0, &vec![]), Some(PixelBox { x: 0, y: 0, width: 1, height: 1 }));
    assert_eq!(alpha_bounds(0, 3, &vec![]), None);
}

#[test]
fn ring_edges() {
    assert_eq!(closed_ring(&vec![1, 2, 3]), vec![(1, 2), (2, 3), (3, 1)]);
    assert_eq!(closed_ring(&vec![7]), vec![(7, 7)]);
    assert!(closed_ring::<u8>(&vec![]).is_empty());
}

fn atk(t: AttackType, o: Owner) -> ParryState {
    ParryState { atk_type: t, owner: o, is_parried: false }
}

#[test]
fn parrying_a_projectile() {
    // A player's sword touches an enemy projectile.
    let mut attacks = vec![atk(AttackType::Projectile, Owner::Enemy), atk(AttackType::Physical, Owner::Player)];
    let touching = vec![vec![true, true], vec![true, true]];
    let parries = plan_parries(&mut attacks, &touching);
    assert_eq!(parries, vec![(1, 0)]);
    assert_eq!(attacks[0], ParryState { atk_type: AttackType::Hitscan, owner: Owner::Player, is_parried: true });
    assert_eq!(attacks[1], ParryState { atk_type: AttackType::Physical, owner: Owner::Player, is_parried: true });
}

#[test]
fn parrying_rules() {
    let all = |n: usize| vec![vec![true; n]; n];
    // Two swords of the same side do not parry each other.
    let mut attacks = vec![atk(AttackType::Physical, Owner::Player), atk(AttackType::Physical, Owner::Player)];
    assert!(plan_parries(&mut attacks, &all(2)).is_empty());
    // Swords of opposite sides: the last one parries the other.
    let mut attacks = vec![atk(AttackType::Physical, Owner::Enemy), atk(AttackType::Physical, Owner::Player)];
    assert_eq!(plan_parries(&mut attacks, &all(2)), vec![(1, 0)]);
    assert_eq!(attacks[0].owner, Owner::Player);
    assert_eq!(attacks[0].atk_type, AttackType::Physical);
    // Bursts and hitscans cannot be parried.
    let mut attacks = vec![
        atk(AttackType::Burst, Owner::Enemy),
        atk(AttackType::Hitscan, Owner::Enemy),
        atk(AttackType::Physical, Owner::Player),
    ];
    assert!(plan_parries(&mut attacks, &all(3)).is_empty());
    // Attacks that do not touch are not parried.
    let mut attacks = vec![atk(AttackType::Projectile, Owner::Enemy), atk(AttackType::Physical, Owner::Player)];
    assert!(plan_parries(&mut attacks, &vec![vec![true, false], vec![true, true]]).is_empty());
    // Each attack takes part in one parry at most.
    let mut attacks = vec![
        atk(AttackType::Projectile, Owner::Enemy),
        atk(AttackType::Projectile, Owner::Enemy),
        atk(AttackType::Physical, Owner::Player),
        atk(AttackType::Physical, Owner::Player),
    ];
    assert_eq!(plan_parries(&mut attacks, &all(4)), vec![(3, 1), (2, 0)]);
}

#[test]
fn goal_turns() {
    let mut g = GoalBehavior::new(vec!["chase".to_string(), "wander".to_string()]);
    assert_eq!(g.prev_goal(), "none");
    assert_eq!(g.next_action(), GoalAction::AskStart(0));
    assert_eq!(g.on_should_start(0, Ok(false)), GoalAction::AskStart(1));
    assert_eq!(g.on_should_start(1, Ok(true)), GoalAction::Init(1));
    g.on_init(Ok(()));
    assert_eq!(g.index(), Some(1));
    assert_eq!(g.next_action(), GoalAction::Update(1));
    assert_eq!(g.on_update(1, Ok(())), GoalAction::AskStop(1));
    assert!(g.on_should_stop(1, Ok(true)));
    assert_eq!(g.index(), None);
    assert_eq!(g.prev_goal(), "wander");
    assert_eq!(g.on_should_start(0, Err("boom".to_string())), GoalAction::AskStart(1));
    assert_eq!(g.err().map(|e| e.as_str()), Some("boom"));
    assert_eq!(g.next_action(), GoalAction::Idle);
    let empty = GoalBehavior::new(vec![]);
    assert_eq!(empty.next_action(), GoalAction::Idle);
    assert!(g.same_progress(&g));
    assert!(!g.same_progress(&empty));
}

#[test]
fn damage_and_invincibility() {
    let mut v = Vitals::new(20);
    v.try_damage(15);
    assert_eq!(v.get_health(), 5);
    assert_eq!(v.i_frames, 12);
    v.try_damage(15);
    assert_eq!(v.get_health(), 5);
    assert!(!v.should_kill());
    v.i_frames = 0;
    v.try_damage(5);
    assert!(v.should_kill());
}

fn said(probability: u8) -> Message {
    Message::new(vec![], vec![], probability, vec![line("hey")])
}

#[test]
fn sure_messages_are_picked() {
    assert_eq!(pick_message(&vec![said(255), said(0)]), Some(0));
    let picked = pick_message(&vec![said(0), said(254), said(255)]);
    assert!(picked == Some(0) || picked == Some(1));
    assert_eq!(pick_message(&vec![]), None);
}

#[test]
fn only_player_melee_hits_start_dialogue() {
    let messages = vec![said(255)];
    let ignored = vec![
        (false, AttackType::Physical, Owner::Player),
        (true, AttackType::Projectile, Owner::Player),
        (true, AttackType::Hitscan, Owner::Player),
        (true, AttackType::Physical, Owner::Enemy),
    ];
    assert_eq!(dialogue_on_hit(&ignored, &messages), None);
    let hit = vec![(true, AttackType::Burst, Owner::Player)];
    assert_eq!(dialogue_on_hit(&hit, &messages), Some(0));
    assert_eq!(dialogue_on_hit(&hit, &vec![]), None);
    let copy = messages[0].clone();
    assert_eq!(copy.get_dialogue().get_text(), "hey");
    assert_eq!(copy.probability(), 255);
}

fn rgba(alpha: &[u8]) -> Vec<u8> {
    alpha.iter().enumerate().flat_map(|(i, a)| [i as u8, 10, 20, *a]).collect()
}

#[test]
fn trims_transparent_border() {
    // 3 wide, 2 high: only the pixels at (1, 0) and (2, 1) show.
    let pixels = rgba(&[0, 9, 0, 0, 0, 255]);
    let t = remove_alpha(3, 2, pixels);
    assert_eq!((t.x, t.y, t.width, t.height), (1, 0, 2, 2));
    assert_eq!(t.pixels, vec![1, 10, 20, 9, 2, 10, 20, 0, 4, 10, 20, 0, 5, 10, 20, 255]);
}

#[test]
fn fully_transparent_image_becomes_empty() {
    let t = remove_alpha(2, 2, rgba(&[0, 0, 0, 0]));
    assert_eq!((t.x, t.y, t.width, t.height), (0, 0, 0, 0));
    assert!(t.pixels.is_empty());
    let e = remove_alpha(0, 0, vec![]);
    assert_eq!((e.x, e.y, e.width, e.height), (0, 0, 0, 0));
    assert!(e.pixels.is_empty());
}

#[test]
fn downscale_keeps_nearest_pixels() {
    // 2 wide, 4 high; pixel i has red value i.
    let pixels: Vec<u8> = (0..8u8).flat_map(|i| [i, 0, 0, 255]).collect();
    let (w, h, out) = downscale(2, 4, pixels.clone(), 1);
    assert_eq!((w, h), (1, 2));
    assert_eq!(out, vec![3, 0, 0, 255, 7, 0, 0, 255]);
    let (w, h, same) = downscale(2, 4, pixels.clone(), 2);
    assert_eq!((w, h), (2, 4));
    assert_eq!(same, pixels);
}

#[test]
fn goals_from_loaded_scripts() {
    let g = GoalBehavior::from_scripts(vec![
        Ok("chase".to_string()),
        Err("syntax error".to_string()),
        Ok("wander".to_string()),
    ]);
    assert_eq!(g.prev_goal(), "none");
    assert_eq!(g.index(), None);
    assert_eq!(g.next_action(), GoalAction::AskStart(0));
    let mut g = g;
    assert_eq!(g.on_should_start(0, Ok(false)), GoalAction::AskStart(1));
    assert_eq!(g.on_should_start(1, Ok(false)), GoalAction::Idle);
    let none = GoalBehavior::from_scripts(vec![Err("missing".to_string())]);
    assert_eq!(none.next_action(), GoalAction::Idle);
}

#[test]
fn cloned_goals_forget_errors() {
    let mut g = GoalBehavior::new(vec!["chase".to_string()]);
    assert_eq!(g.on_should_start(0, Ok(true)), GoalAction::Init(0));
    g.on_init(Err("bad init".to_string()));
    assert_eq!(g.next_action(), GoalAction::Idle);
    let copy = g.clone();
    assert!(copy.err().is_none());
    assert!(copy.same_progress(&g));
    assert_eq!(copy.next_action(), GoalAction::Update(0));
}

#[test]
fn pause_state_machine() {
    let (p, a) = Paused::Running.pause(true, false);
    assert!(matches!(p, Paused::Pause));
    assert_eq!(a, PauseAction::Nothing);
    let (p, a) = p.pause(false, false);
    assert!(matches!(p, Paused::Pause));
    assert_eq!(a, PauseAction::ShowPauseMenu);
    let (p, a) = p.pause(true, false);
    assert!(matches!(p, Paused::Running));
    assert_eq!(a, PauseAction::ShowPauseMenu);
    let (p, a) = Paused::Hitstop.pause(false, false);
    assert!(matches!(p, Paused::Hitstop));
    assert_eq!(a, PauseAction::CountDown);
    let (p, _) = Paused::Hitstop.pause(false, true);
    assert!(!p.is_paused());
    let (p, a) = Paused::Dialogue(None).pause(false, false);
    assert!(matches!(p, Paused::Running));
    assert_eq!(a, PauseAction::Nothing);
    let (p, a) = Paused::Dialogue(Some(said(255))).pause(true, false);
    assert!(matches!(p, Paused::Dialogue(Some(_))));
    assert_eq!(a, PauseAction::ShowDialogue);
}

#[test]
fn dialogue_ends_when_message_stops() {
    let mut m = said(255);
    assert!(matches!(Paused::after_dialogue(m.clone()), Paused::Dialogue(Some(_))));
    m.next();
    assert!(matches!(Paused::after_dialogue(m), Paused::Running));
}

#[test]
fn frame_outcomes() {
    let (p, o) = Paused::Pause.frame(Some(State::Gameplay));
    assert!(matches!(p, Paused::Running));
    assert_eq!(o, FrameOutcome::RunWorld);
    let (_, o) = Paused::Running.frame(Some(State::Menu));
    assert_eq!(o, FrameOutcome::Leave(State::Menu));
    let (_, o) = Paused::Hitstop.frame(None);
    assert_eq!(o, FrameOutcome::SkipWorld);
    let (_, o) = Paused::Running.frame(None);
    assert_eq!(o, FrameOutcome::RunWorld);
}

#[test]
fn stunned_objects_drop_their_goal() {
    let mut g = GoalBehavior::new(vec!["chase".to_string()]);
    assert_eq!(g.on_should_start(0, Ok(true)), GoalAction::Init(0));
    let (b, t) = handle_behavior(Behavior::Goal(g), false);
    assert_eq!(t, Turn::RunGoals);
    let (b, t) = handle_behavior(b, true);
    assert_eq!(t, Turn::Stunned);
    match b {
        Behavior::Goal(g) => assert_eq!(g.index(), None),
        Behavior::Player => panic!("the behavior changed kind"),
    }
    let (b, t) = handle_behavior(Behavior::Player, false);
    assert_eq!(t, Turn::Control);
    assert!(matches!(handle_behavior(b, true), (Behavior::Player, Turn::Stunned)));
}

#[test]
fn unknown_placements_are_skipped() {
    let names = vec!["default:bat".to_string(), "default:ghost".to_string(), "default:rat".to_string()];
    let known = vec!["default:rat".to_string(), "default:bat".to_string()];
    assert_eq!(known_placements(&names, &known), vec![0, 2]);
    assert_eq!(known_placements(&names, &vec![]), Vec::<usize>::new());
}

#[test]
fn rolls_are_drawn_below_255() {
    assert_eq!(roll_bounds(), (0, 255));
}

#[test]
fn angle_sprites_have_no_source_rect() {
    let f = FrameSource { x: 1, y: 2, size: 3, flip_x: false };
    assert_eq!(draw_source(Rotation::Angle, f), None);
    assert_eq!(draw_source(Rotation::Static, f), Some(f));
    assert_eq!(draw_source(Rotation::EightWay, f), Some(f));
}

#[test]
fn picks_follow_the_rolls() {
    let messages = vec![said(10), said(100), said(0)];
    assert_eq!(pick_with_rolls(&messages, &vec![11, 100, 0]), Some(1));
    assert_eq!(pick_with_rolls(&messages, &vec![10, 0, 0]), Some(0));
    assert_eq!(pick_with_rolls(&messages, &vec![200, 200, 0]), Some(2));
    assert_eq!(pick_with_rolls(&messages, &vec![200, 200, 1]), None);
}

#[test]
fn last_provoking_pick_wins() {
    let messages = vec![said(10), said(100)];
    let hit = (true, AttackType::Physical, Owner::Player);
    let miss = (false, AttackType::Physical, Owner::Player);
    let attacks = vec![hit, miss, hit, hit];
    let rolls = vec![vec![0, 0], vec![0, 0], vec![50, 0], vec![200, 200]];
    // The third attack picks message 1; the fourth picks nothing; the second does not provoke.
    assert_eq!(dialogue_with_rolls(&attacks, &messages, &rolls), Some(1));
    let rolls = vec![vec![50, 0], vec![0, 0], vec![0, 0], vec![200, 200]];
    assert_eq!(dialogue_with_rolls(&attacks, &messages, &rolls), Some(0));
    assert_eq!(dialogue_with_rolls(&vec![miss], &messages, &vec![vec![0, 0]]), None);
}
