use rust_breakout::ball::{Ball, BALL_SIZE};
use rust_breakout::block::{Block, BlockType};
use rust_breakout::fixed::UNIT;
use rust_breakout::game::RustBreakout;
use rust_breakout::input::Input;
use rust_breakout::layout::LayoutError;
use rust_breakout::model::GameState;
use rust_breakout::player::Player;
use rust_breakout::rect::Rect;
use rust_breakout::render::{Align, Color, DrawCommand, Label};
use rust_breakout::vec2::Vec2;
use rust_breakout::viewport::Viewport;
use macroquad::rand::RandGenerator;

fn screen() -> Viewport {
    Viewport::new(1_000_000, 600_000).unwrap()
}

fn seeded(seed: u64) -> RandGenerator {
    let rng = RandGenerator::new();
    rng.srand(seed);
    rng
}

fn ball(x: i64, y: i64, vx: i64, vy: i64) -> Ball {
    Ball { rect: Rect::new(x, y, BALL_SIZE, BALL_SIZE), vel: Vec2 { x: vx, y: vy } }
}

fn block(x: i64, y: i64, lives: u8, block_type: BlockType) -> Block {
    let mut b = Block::new(Vec2 { x, y }, block_type);
    b.lives = lives;
    b
}

fn playing(lives: u8, balls: Vec<Ball>, blocks: Vec<Block>) -> RustBreakout {
    let mut game = RustBreakout::new(screen(), seeded(3));
    game.state = GameState::Playing;
    game.player.lives = lives;
    game.balls = balls;
    game.blocks = blocks;
    assert!(game.is_valid());
    game
}

fn launch() -> Input {
    Input { move_left: false, move_right: false, launch_pressed: true, reset_pressed: false }
}

fn reset() -> Input {
    Input { move_left: false, move_right: false, launch_pressed: false, reset_pressed: true }
}

fn lives_line(lives: u8) -> DrawCommand {
    DrawCommand::Text { label: Label::Lives(lives), x: 10_000, y: 50_000, size: 30, align: Align::Left }
}

#[test]
fn new_game_waits_at_the_start() {
    let game = RustBreakout::new(screen(), seeded(3));
    assert_eq!(game.state, GameState::Start);
    assert_eq!(game.player, Player { rect: Rect::new(425_000, 500_000, 150_000, 40_000), lives: 3 });
    assert!(game.balls.is_empty());
    assert!(game.blocks.is_empty());
    assert_eq!(game.viewport, screen());
    assert!(game.is_valid());
}

#[test]
fn start_screen_shows_paddle_lives_and_invitation() {
    let mut game = RustBreakout::new(screen(), seeded(3));
    let cmds = game.handle_frame(16_667, &Input::idle());
    assert_eq!(game.state, GameState::Start);
    assert_eq!(
        cmds,
        vec![
            DrawCommand::FilledRect { rect: Rect::new(425_000, 500_000, 150_000, 40_000), color: Color::DarkGray },
            lives_line(3),
            DrawCommand::Text { label: Label::PressStart, x: 500_000, y: 300_000, size: 30, align: Align::CenteredRaised },
        ]
    );
}

#[test]
fn nothing_moves_before_the_start() {
    let mut game = RustBreakout::new(screen(), seeded(3));
    game.balls.push(ball(100_000, 100_000, 0, UNIT));
    let input = Input { move_left: true, move_right: false, launch_pressed: false, reset_pressed: true };
    game.handle_frame(1_000_000, &input);
    assert_eq!(game.state, GameState::Start);
    assert_eq!(game.player, Player::new(&screen()));
    assert_eq!(game.balls, vec![ball(100_000, 100_000, 0, UNIT)]);
    assert!(game.blocks.is_empty());
}

#[test]
fn launch_starts_the_game_with_a_grid() {
    let mut game = RustBreakout::new(screen(), seeded(3));
    let cmds = game.handle_frame(16_667, &launch());
    assert_eq!(game.state, GameState::Playing);
    assert_eq!(game.blocks.len(), 36);
    assert_eq!(game.blocks[0].rect, Rect::new(185_000, 50_000, 100_000, 40_000));
    assert_eq!(game.blocks[0].lives, 3);
    assert_eq!(game.blocks[35].lives, 1);
    assert!(game.balls.is_empty());
    assert_eq!(game.player, Player::new(&screen()));
    assert!(game.is_valid());
    // The blocks, then the paddle and the lives.
    assert_eq!(cmds.len(), 38);
    assert_eq!(cmds[0], DrawCommand::FilledRect { rect: Rect::new(185_000, 50_000, 100_000, 40_000), color: Color::DarkBrown });
    assert_eq!(cmds[6], DrawCommand::FilledRect { rect: Rect::new(185_000, 95_000, 100_000, 40_000), color: Color::Red });
    assert_eq!(cmds[35], DrawCommand::FilledRect { rect: Rect::new(710_000, 275_000, 100_000, 40_000), color: Color::Blue });
    assert_eq!(cmds[36], game.player.draw());
    assert_eq!(cmds[37], lives_line(3));
}

#[test]
fn losing_the_only_ball_with_one_life_ends_the_game() {
    let mut game = playing(
        1,
        vec![ball(500_000, 560_000, 0, UNIT)],
        vec![block(0, 50_000, 1, BlockType::Normal)],
    );
    let cmds = game.handle_frame(0, &Input::idle());
    assert_eq!(game.player.lives, 0);
    assert_eq!(game.state, GameState::Dead);
    assert!(game.balls.is_empty());
    assert_eq!(game.blocks.len(), 1);
    assert!(game.is_valid());
    assert_eq!(
        cmds,
        vec![
            game.player.draw(),
            lives_line(0),
            DrawCommand::FilledRect { rect: Rect::new(0, 50_000, 100_000, 40_000), color: Color::Blue },
            DrawCommand::Text { label: Label::Lost, x: 500_000, y: 300_000, size: 30, align: Align::Centered },
        ]
    );
}

#[test]
fn ball_is_lost_exactly_at_the_line() {
    let blocks = vec![block(0, 50_000, 1, BlockType::Normal)];
    let mut game = playing(3, vec![ball(700_000, 549_999, 0, UNIT)], blocks.clone());
    game.handle_frame(0, &Input::idle());
    assert_eq!(game.balls.len(), 1);
    assert_eq!(game.player.lives, 3);
    let mut game = playing(3, vec![ball(700_000, 550_000, 0, UNIT)], blocks);
    game.handle_frame(0, &Input::idle());
    assert!(game.balls.is_empty());
    assert_eq!(game.player.lives, 2);
    assert_eq!(game.state, GameState::Playing);
}

#[test]
fn losing_a_ball_while_another_is_in_play_costs_nothing() {
    let mut game = playing(
        2,
        vec![ball(500_000, 560_000, 0, UNIT), ball(100_000, 300_000, 0, UNIT), ball(300_000, 590_000, 0, UNIT)],
        vec![block(0, 50_000, 1, BlockType::Normal)],
    );
    game.handle_frame(0, &Input::idle());
    assert_eq!(game.balls, vec![ball(100_000, 300_000, 0, UNIT)]);
    assert_eq!(game.player.lives, 2);
    assert_eq!(game.state, GameState::Playing);
}

#[test]
fn no_life_is_lost_without_a_ball() {
    let mut game = playing(2, vec![], vec![block(0, 50_000, 1, BlockType::Normal)]);
    game.handle_frame(1_000_000, &Input::idle());
    assert_eq!(game.player.lives, 2);
    assert_eq!(game.state, GameState::Playing);
}

#[test]
fn destroying_the_last_block_wins_on_that_frame() {
    let mut game = playing(
        3,
        vec![ball(330_000, 130_000, 0, -UNIT)],
        vec![block(300_000, 100_000, 1, BlockType::Normal)],
    );
    let cmds = game.handle_frame(0, &Input::idle());
    assert_eq!(game.state, GameState::Win);
    assert!(game.blocks.is_empty());
    assert_eq!(game.balls, vec![ball(330_000, 140_000, 0, UNIT)]);
    assert_eq!(game.player.lives, 3);
    assert!(game.is_valid());
    assert_eq!(
        cmds,
        vec![
            game.player.draw(),
            lives_line(3),
            DrawCommand::FilledRect { rect: Rect::new(330_000, 140_000, 40_000, 40_000), color: Color::Yellow },
            DrawCommand::Text { label: Label::Won, x: 500_000, y: 300_000, size: 30, align: Align::Centered },
        ]
    );
}

#[test]
fn winning_counts_even_as_the_last_life_goes() {
    let mut game = playing(
        1,
        vec![ball(330_000, 130_000, 0, -UNIT), ball(700_000, 580_000, 0, UNIT)],
        vec![block(300_000, 100_000, 1, BlockType::Normal)],
    );
    game.handle_frame(0, &Input::idle());
    assert_eq!(game.state, GameState::Win);
    assert_eq!(game.player.lives, 1);
    let mut game = playing(
        1,
        vec![ball(330_000, 548_000, 0, -UNIT)],
        vec![block(300_000, 520_000, 1, BlockType::Normal)],
    );
    // The ball is pushed below the line by the block that it destroys.
    game.handle_frame(0, &Input::idle());
    assert!(game.balls.is_empty());
    assert_eq!(game.player.lives, 0);
    assert_eq!(game.state, GameState::Win);
}

#[test]
fn a_hit_takes_one_life_off_the_block() {
    let mut game = playing(
        3,
        vec![ball(330_000, 130_000, 0, -UNIT)],
        vec![block(300_000, 100_000, 3, BlockType::BallSpawner)],
    );
    game.handle_frame(0, &Input::idle());
    assert_eq!(game.state, GameState::Playing);
    assert_eq!(game.blocks, vec![block(300_000, 100_000, 2, BlockType::BallSpawner)]);
    assert_eq!(game.balls, vec![ball(330_000, 140_000, 0, UNIT)]);
    // At rest now: another frame of no duration changes nothing.
    game.handle_frame(0, &Input::idle());
    assert_eq!(game.blocks, vec![block(300_000, 100_000, 2, BlockType::BallSpawner)]);
    assert_eq!(game.balls, vec![ball(330_000, 140_000, 0, UNIT)]);
}

#[test]
fn a_destroyed_spawner_leaves_a_ball_behind() {
    let far = block(700_000, 100_000, 1, BlockType::Normal);
    let mut game = playing(
        3,
        vec![ball(330_000, 130_000, 0, -UNIT)],
        vec![block(300_000, 100_000, 1, BlockType::BallSpawner), far],
    );
    game.handle_frame(0, &Input::idle());
    assert_eq!(game.state, GameState::Playing);
    assert_eq!(game.blocks, vec![far]);
    assert_eq!(game.balls.len(), 2);
    assert_eq!(game.balls[0], ball(330_000, 140_000, 0, UNIT));
    // Below the middle of the ball that struck.
    assert_eq!(game.balls[1].rect, Rect::new(350_000, 180_000, 40_000, 40_000));
    assert!(game.balls[1].vel.has_unit_length());
    assert!(game.balls[1].vel.y > 0);
    assert!(game.is_valid());
}

#[test]
fn a_destroyed_normal_block_leaves_nothing() {
    let far = block(700_000, 100_000, 1, BlockType::Normal);
    let mut game = playing(
        3,
        vec![ball(330_000, 130_000, 0, -UNIT)],
        vec![block(300_000, 100_000, 1, BlockType::Normal), far],
    );
    game.handle_frame(0, &Input::idle());
    assert_eq!(game.blocks, vec![far]);
    assert_eq!(game.balls, vec![ball(330_000, 140_000, 0, UNIT)]);
}

#[test]
fn a_ball_meets_the_blocks_in_their_order() {
    // The ball overlaps the ends of two neighbours from below. The first
    // sends it down, after which it no longer touches the second.
    let left = block(300_000, 100_000, 2, BlockType::Normal);
    let right = block(405_000, 100_000, 2, BlockType::Normal);
    let mut game = playing(3, vec![ball(380_000, 135_000, 0, -UNIT)], vec![left, right]);
    game.handle_frame(0, &Input::idle());
    assert_eq!(game.blocks[0].lives, 1);
    assert_eq!(game.blocks[1].lives, 2);
    assert_eq!(game.balls, vec![ball(380_000, 140_000, 0, UNIT)]);
}

#[test]
fn two_balls_can_hit_the_same_block() {
    let mut game = playing(
        3,
        vec![ball(310_000, 130_000, 0, -UNIT), ball(355_000, 130_000, 0, -UNIT)],
        vec![block(300_000, 100_000, 3, BlockType::Normal)],
    );
    game.handle_frame(0, &Input::idle());
    assert_eq!(game.blocks[0].lives, 1);
    assert_eq!(game.balls, vec![ball(310_000, 140_000, 0, UNIT), ball(355_000, 140_000, 0, UNIT)]);
}

#[test]
fn launch_sets_a_ball_off_above_the_paddle() {
    let mut game = playing(3, vec![], vec![block(0, 50_000, 1, BlockType::Normal)]);
    game.handle_frame(0, &launch());
    assert_eq!(game.balls.len(), 1);
    assert_eq!(game.balls[0].rect, Rect::new(500_000, 400_000, 40_000, 40_000));
    assert!(game.balls[0].vel.has_unit_length());
    assert!(game.balls[0].vel.y > 0);
    assert_eq!(game.blocks.len(), 1);
    assert_eq!(game.state, GameState::Playing);
}

#[test]
fn launched_ball_moves_in_the_same_frame() {
    let mut game = playing(3, vec![], vec![block(0, 50_000, 1, BlockType::Normal)]);
    game.handle_frame(16_000, &launch());
    assert_eq!(game.balls.len(), 1);
    // 8 pixels along a direction that points down and at most as far sideways.
    let moved = game.balls[0].rect;
    assert!(moved.y > 400_000 + 5_600 && moved.y <= 408_000);
    assert!(moved.x >= 500_000 - 5_700 && moved.x <= 500_000 + 5_700);
}

#[test]
fn launch_goes_before_reset() {
    let mut input = launch();
    input.reset_pressed = true;
    let mut game = playing(3, vec![], vec![block(0, 50_000, 1, BlockType::Normal)]);
    game.handle_frame(0, &input);
    assert_eq!(game.balls.len(), 1);
    assert_eq!(game.blocks.len(), 1);
}

#[test]
fn reset_lays_the_blocks_out_anew() {
    let mut game = playing(
        2,
        vec![ball(100_000, 400_000, 0, UNIT)],
        vec![block(0, 50_000, 1, BlockType::Normal)],
    );
    game.handle_frame(0, &reset());
    assert_eq!(game.state, GameState::Playing);
    assert_eq!(game.blocks.len(), 36);
    assert_eq!(game.blocks[0].rect, Rect::new(185_000, 50_000, 100_000, 40_000));
    assert_eq!(game.balls, vec![ball(100_000, 400_000, 0, UNIT)]);
    assert_eq!(game.player.lives, 2);
}

#[test]
fn paddle_moves_while_the_game_is_on() {
    let mut game = playing(3, vec![], vec![block(0, 50_000, 1, BlockType::Normal)]);
    let input = Input { move_left: false, move_right: true, launch_pressed: false, reset_pressed: false };
    game.handle_frame(10_000, &input);
    assert_eq!(game.player.rect, Rect::new(432_000, 500_000, 150_000, 40_000));
}

#[test]
fn paddle_sends_the_ball_back_within_the_frame() {
    let mut game = playing(
        3,
        vec![ball(480_000, 455_000, 0, UNIT)],
        vec![block(0, 50_000, 1, BlockType::Normal)],
    );
    // 8 pixels down: 3 pixels into the paddle, then out again.
    game.handle_frame(16_000, &Input::idle());
    assert_eq!(game.balls, vec![ball(480_000, 460_000, 0, -UNIT)]);
}

#[test]
fn after_a_win_launch_starts_over() {
    let mut game = playing(
        1,
        vec![ball(330_000, 130_000, 0, -UNIT)],
        vec![block(300_000, 100_000, 1, BlockType::Normal)],
    );
    game.player.rect.x = 200_000;
    game.handle_frame(0, &Input::idle());
    assert_eq!(game.state, GameState::Win);
    // Frozen until the launch control.
    let moving = Input { move_left: true, move_right: false, launch_pressed: false, reset_pressed: true };
    game.handle_frame(1_000_000, &moving);
    assert_eq!(game.state, GameState::Win);
    assert_eq!(game.balls, vec![ball(330_000, 140_000, 0, UNIT)]);
    assert_eq!(game.player.rect.x, 200_000);
    game.handle_frame(16_000, &launch());
    assert_eq!(game.state, GameState::Playing);
    assert!(game.balls.is_empty());
    assert_eq!(game.blocks.len(), 36);
    assert_eq!(game.player, Player::new(&screen()));
    assert!(game.is_valid());
}

#[test]
fn after_a_loss_launch_starts_over() {
    let mut game = playing(
        1,
        vec![ball(500_000, 560_000, 0, UNIT)],
        vec![block(0, 50_000, 2, BlockType::Normal), block(200_000, 50_000, 1, BlockType::Normal)],
    );
    game.handle_frame(0, &Input::idle());
    assert_eq!(game.state, GameState::Dead);
    game.handle_frame(16_000, &Input::idle());
    assert_eq!(game.state, GameState::Dead);
    assert_eq!(game.blocks.len(), 2);
    game.handle_frame(16_000, &launch());
    assert_eq!(game.state, GameState::Playing);
    assert!(game.balls.is_empty());
    assert_eq!(game.blocks.len(), 36);
    assert_eq!(game.blocks[0].rect, Rect::new(185_000, 50_000, 100_000, 40_000));
    assert_eq!(game.player, Player::new(&screen()));
}

#[test]
fn a_still_frame_leaves_a_game_at_rest_as_it_is() {
    let balls = vec![ball(100_000, 300_000, 600_000, -800_000), ball(330_000, 140_000, 0, UNIT), ball(535_000, 460_000, 0, -UNIT)];
    let blocks = vec![block(300_000, 100_000, 2, BlockType::BallSpawner), block(405_000, 100_000, 1, BlockType::Normal)];
    let mut game = playing(2, balls.clone(), blocks.clone());
    game.player.rect.x = 430_000;
    for _ in 0..3 {
        game.handle_frame(0, &Input::idle());
        assert_eq!(game.state, GameState::Playing);
        assert_eq!(game.player, Player { rect: Rect::new(430_000, 500_000, 150_000, 40_000), lives: 2 });
        assert_eq!(game.balls, balls);
        assert_eq!(game.blocks, blocks);
    }
}

#[test]
fn balls_keep_unit_length_through_a_game() {
    let mut game = RustBreakout::new(screen(), seeded(3));
    game.handle_frame(16_667, &launch());
    for frame in 0..2_000u32 {
        let input = Input {
            move_left: frame % 7 < 3,
            move_right: frame % 11 < 5,
            launch_pressed: frame % 50 == 0,
            reset_pressed: false,
        };
        game.handle_frame(16_667, &input);
        assert!(game.is_valid());
        for b in game.balls.iter() {
            assert!(b.vel.has_unit_length());
        }
        assert!(0 <= game.player.rect.x && game.player.rect.x <= 850_000);
        if game.state != GameState::Playing {
            assert!(game.state == GameState::Win || game.state == GameState::Dead);
            game.handle_frame(16_667, &launch());
            assert_eq!(game.state, GameState::Playing);
        }
    }
}

#[test]
fn setup_blocks_replaces_the_blocks() {
    let mut game = playing(3, vec![], vec![block(0, 50_000, 1, BlockType::Normal)]);
    assert_eq!(game.setup_blocks(2, 4), Ok(()));
    assert_eq!(game.blocks.len(), 8);
    assert_eq!(game.blocks[7].rect, Rect::new(395_000 + 105_000, 50_000 + 135_000, 100_000, 40_000));
    assert_eq!(game.blocks[7].lives, 1);
    assert_eq!(game.blocks[1].lives, 3);
    assert_eq!(game.blocks[2].lives, 2);
}

#[test]
fn setup_blocks_refuses_an_empty_grid() {
    let mut game = playing(3, vec![], vec![block(0, 50_000, 1, BlockType::Normal)]);
    assert_eq!(game.setup_blocks(0, 4), Err(LayoutError::EmptyGrid));
    assert_eq!(game.setup_blocks(4, 0), Err(LayoutError::EmptyGrid));
    assert_eq!(game.blocks, vec![block(0, 50_000, 1, BlockType::Normal)]);
}

#[test]
fn reset_game_goes_back_to_the_start() {
    let mut game = playing(
        1,
        vec![ball(100_000, 400_000, 0, UNIT)],
        vec![block(0, 50_000, 1, BlockType::Normal)],
    );
    game.player.rect.x = 0;
    game.reset_game();
    assert_eq!(game.state, GameState::Start);
    assert!(game.balls.is_empty());
    assert_eq!(game.blocks.len(), 36);
    assert_eq!(game.player, Player::new(&screen()));
}

#[test]
fn eliminate_balls_keeps_the_order_of_the_rest() {
    let mut game = playing(
        3,
        vec![ball(1, 100_000, 0, UNIT), ball(2, 550_000, 0, UNIT), ball(3, 200_000, 0, UNIT), ball(4, 600_000, 0, UNIT), ball(5, 549_999, 0, UNIT)],
        vec![block(0, 50_000, 1, BlockType::Normal)],
    );
    game.eliminate_balls();
    assert_eq!(game.balls, vec![ball(1, 100_000, 0, UNIT), ball(3, 200_000, 0, UNIT), ball(5, 549_999, 0, UNIT)]);
    assert_eq!(game.player.lives, 3);
    assert_eq!(game.state, GameState::Playing);
}

#[test]
fn remove_destroyed_blocks_keeps_the_standing() {
    let mut game = playing(3, vec![], vec![block(0, 50_000, 1, BlockType::Normal)]);
    game.blocks = vec![
        block(0, 0, 0, BlockType::Normal),
        block(1, 0, 2, BlockType::BallSpawner),
        block(2, 0, 0, BlockType::BallSpawner),
        block(3, 0, 1, BlockType::Normal),
    ];
    game.remove_destroyed_blocks();
    assert_eq!(game.blocks, vec![block(1, 0, 2, BlockType::BallSpawner), block(3, 0, 1, BlockType::Normal)]);
}

#[test]
fn step_balls_queues_where_spawners_fall() {
    let mut game = playing(
        3,
        vec![ball(330_000, 130_000, 0, -UNIT), ball(720_000, 130_000, 0, -UNIT)],
        vec![block(300_000, 100_000, 1, BlockType::BallSpawner), block(700_000, 100_000, 1, BlockType::Normal)],
    );
    let queued = game.step_balls(0);
    assert_eq!(queued, vec![Vec2 { x: 350_000, y: 180_000 }]);
    assert_eq!(game.blocks[0].lives, 0);
    assert_eq!(game.blocks[1].lives, 0);
    assert_eq!(game.balls, vec![ball(330_000, 140_000, 0, UNIT), ball(720_000, 140_000, 0, UNIT)]);
}

#[test]
fn spawn_balls_adds_one_ball_per_point() {
    let mut game = playing(3, vec![ball(1, 100_000, 0, UNIT)], vec![block(0, 50_000, 1, BlockType::Normal)]);
    game.spawn_balls(&vec![Vec2 { x: 10, y: 20 }, Vec2 { x: 30, y: 40 }]);
    assert_eq!(game.balls.len(), 3);
    assert_eq!(game.balls[0], ball(1, 100_000, 0, UNIT));
    assert_eq!(game.balls[1].rect, Rect::new(10, 20, 40_000, 40_000));
    assert_eq!(game.balls[2].rect, Rect::new(30, 40, 40_000, 40_000));
    assert!(game.is_valid());
}

#[test]
fn spawn_point_is_below_the_middle() {
    assert_eq!(RustBreakout::spawn_point_of(&Rect::new(330_000, 140_000, 40_000, 40_000)), Vec2 { x: 350_000, y: 180_000 });
}

#[test]
fn is_valid_tells_a_broken_game() {
    let good = || playing(3, vec![ball(1, 100_000, 0, UNIT)], vec![block(0, 50_000, 1, BlockType::Normal)]);
    assert!(good().is_valid());
    let mut game = good();
    game.balls[0].vel = Vec2 { x: UNIT, y: UNIT };
    assert!(!game.is_valid());
    let mut game = good();
    game.balls[0].rect.w = 1;
    assert!(!game.is_valid());
    let mut game = good();
    game.blocks[0].lives = 0;
    assert!(!game.is_valid());
    let mut game = good();
    game.blocks[0].lives = 4;
    assert!(!game.is_valid());
    let mut game = good();
    game.player.rect.x = -1;
    assert!(!game.is_valid());
    let mut game = good();
    game.player.lives = 0;
    assert!(!game.is_valid());
    game.state = GameState::Dead;
    assert!(game.is_valid());
    let mut game = good();
    game.blocks.clear();
    assert!(!game.is_valid());
    game.state = GameState::Win;
    assert!(game.is_valid());
    let mut game = good();
    game.viewport.width = 100;
    assert!(!game.is_valid());
}

#[test]
fn draw_lives_tells_the_lives() {
    let game = playing(2, vec![], vec![block(0, 50_000, 1, BlockType::Normal)]);
    assert_eq!(game.draw_lives(), lives_line(2));
}

#[test]
fn playing_screen_shows_blocks_balls_paddle_lives() {
    let game = playing(
        2,
        vec![ball(1, 100_000, 0, UNIT)],
        vec![block(0, 50_000, 2, BlockType::Normal)],
    );
    assert_eq!(
        game.render(),
        vec![
            DrawCommand::FilledRect { rect: Rect::new(0, 50_000, 100_000, 40_000), color: Color::Red },
            DrawCommand::FilledRect { rect: Rect::new(1, 100_000, 40_000, 40_000), color: Color::Yellow },
            game.player.draw(),
            lives_line(2),
        ]
    );
}

#[test]
fn launch_takes_the_heading_from_the_generator() {
    let mut game = playing(3, vec![], vec![block(0, 50_000, 1, BlockType::Normal)]);
    let twin = seeded(3);
    game.handle_frame(0, &launch());
    let heading: i32 = twin.gen_range(-1_000_000, 1_000_000);
    assert_eq!(game.balls, vec![Ball::launch(Vec2 { x: 500_000, y: 400_000 }, heading as i64)]);
    game.handle_frame(0, &launch());
    let heading: i32 = twin.gen_range(-1_000_000, 1_000_000);
    assert_eq!(game.balls.len(), 2);
    assert_eq!(game.balls[1], Ball::launch(Vec2 { x: 500_000, y: 400_000 }, heading as i64));
}

#[test]
fn spawned_balls_take_their_headings_from_the_generator() {
    let far = block(900_000, 300_000, 1, BlockType::Normal);
    let mut game = playing(
        3,
        vec![ball(330_000, 130_000, 0, -UNIT), ball(630_000, 130_000, 0, -UNIT)],
        vec![
            block(300_000, 100_000, 1, BlockType::BallSpawner),
            block(600_000, 100_000, 1, BlockType::BallSpawner),
            far,
        ],
    );
    let twin = seeded(3);
    game.handle_frame(0, &Input::idle());
    let first: i32 = twin.gen_range(-1_000_000, 1_000_000);
    let second: i32 = twin.gen_range(-1_000_000, 1_000_000);
    assert_eq!(
        game.balls,
        vec![
            ball(330_000, 140_000, 0, UNIT),
            ball(630_000, 140_000, 0, UNIT),
            Ball::launch(Vec2 { x: 350_000, y: 180_000 }, first as i64),
            Ball::launch(Vec2 { x: 650_000, y: 180_000 }, second as i64),
        ]
    );
    assert_eq!(game.blocks, vec![far]);
}

#[test]
fn start_takes_the_kinds_from_the_generator() {
    let mut game = RustBreakout::new(screen(), seeded(9));
    game.handle_frame(16_667, &launch());
    let expected = rust_breakout::layout::generate(6, 6, &screen(), &seeded(9)).unwrap();
    assert_eq!(game.blocks, expected);
}

#[test]
fn a_frame_without_chance_draws_nothing() {
    let mut game = playing(
        3,
        vec![ball(330_000, 130_000, 0, -UNIT)],
        vec![block(300_000, 100_000, 2, BlockType::BallSpawner)],
    );
    let twin = seeded(3);
    let input = Input { move_left: true, move_right: false, launch_pressed: false, reset_pressed: false };
    game.handle_frame(16_000, &input);
    let next: i32 = game.rng.gen_range(0, 1000);
    let expected: i32 = twin.gen_range(0, 1000);
    assert_eq!(next, expected);
}

#[test]
fn a_game_that_is_on_without_blocks_is_won_at_once() {
    let mut game = RustBreakout::new(screen(), seeded(3));
    game.state = GameState::Playing;
    game.balls = vec![ball(100_000, 300_000, 0, UNIT)];
    assert!(game.bodies_valid());
    assert!(!game.is_valid());
    game.handle_frame(16_000, &Input::idle());
    assert_eq!(game.state, GameState::Win);
    assert_eq!(game.balls, vec![ball(100_000, 308_000, 0, UNIT)]);
    assert!(game.is_valid());
}

#[test]
fn a_game_that_is_on_without_lives_is_over_at_once() {
    let mut game = RustBreakout::new(screen(), seeded(3));
    game.state = GameState::Playing;
    game.player.lives = 0;
    game.balls = vec![ball(100_000, 300_000, 0, UNIT)];
    game.blocks = vec![block(0, 50_000, 1, BlockType::Normal)];
    assert!(game.bodies_valid());
    assert!(!game.is_valid());
    game.handle_frame(16_000, &Input::idle());
    assert_eq!(game.state, GameState::Dead);
    assert_eq!(game.player.lives, 0);
    assert_eq!(game.balls, vec![ball(100_000, 308_000, 0, UNIT)]);
    assert!(game.is_valid());
}

#[test]
fn bodies_valid_asks_only_for_well_formed_bodies() {
    let mut game = playing(3, vec![ball(1, 100_000, 0, UNIT)], vec![block(0, 50_000, 1, BlockType::Normal)]);
    assert!(game.bodies_valid());
    game.blocks[0].lives = 0;
    assert!(game.bodies_valid());
    assert!(!game.is_valid());
    game.blocks[0].lives = 4;
    assert!(!game.bodies_valid());
    game.blocks[0].lives = 1;
    game.balls[0].vel = Vec2 { x: 1, y: 1 };
    assert!(!game.bodies_valid());
    game.balls[0].vel = Vec2 { x: 0, y: -UNIT };
    game.player.rect.y = 0;
    assert!(!game.bodies_valid());
}
