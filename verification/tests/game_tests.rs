use rand::rngs::StdRng;
use rand::SeedableRng;
use snake_game::frame::{CellUpdate, GlyphKind};
use snake_game::game::{
    Game, InputEvent, Phase, Reaction, TickOutcome, BORDER_WIDTH, TICK_MILLIS,
};
use snake_game::scene::{ConfigError, Scene};
use snake_game::snake::{Direction, Snake};

fn seeded_game(width: u16, height: u16, seed: u64) -> Game {
    match Game::with_rng(width, height, StdRng::seed_from_u64(seed)) {
        Ok(game) => game,
        Err(e) => panic!("terminal {}x{} refused: {:?}", width, height, e),
    }
}

fn empty_board(width: u16, height: u16) -> Scene {
    match Scene::new(width, height, 1) {
        Ok(scene) => scene,
        Err(e) => panic!("board {}x{} refused: {:?}", width, height, e),
    }
}

fn game_of(snake: Snake, scene: Scene) -> Game {
    Game::from_parts(snake, scene, StdRng::seed_from_u64(5))
}

fn lost_game() -> Game {
    let mut game = game_of(Snake::new(5, 9, Direction::Down), empty_board(10, 10));
    assert!(matches!(game.tick(), TickOutcome::Collided));
    assert_eq!(game.phase(), Phase::Lost);
    game
}

fn advanced(outcome: TickOutcome) -> Vec<CellUpdate> {
    match outcome {
        TickOutcome::Advanced(batch) => batch,
        TickOutcome::Collided => panic!("collided"),
        TickOutcome::Frozen => panic!("frozen"),
    }
}

fn cell(x: u16, y: u16, glyph: GlyphKind) -> CellUpdate {
    CellUpdate { x, y, glyph }
}

type Snapshot = (Vec<(u16, u16)>, Direction, Vec<(u16, u16)>, Phase, Option<Direction>, bool);

fn snapshot(game: &Game) -> Snapshot {
    (
        game.snake().body(),
        game.snake().direction(),
        game.scene().list_fruits().clone(),
        game.phase(),
        game.pending_turn(),
        game.will_grow(),
    )
}

#[test]
fn constants_match_the_game_rules() {
    assert_eq!(TICK_MILLIS, 100);
    assert_eq!(BORDER_WIDTH, 1);
}

#[test]
fn new_game_starts_in_the_middle_heading_down() {
    let game = match Game::new(10, 10) {
        Ok(game) => game,
        Err(e) => panic!("refused: {:?}", e),
    };
    assert_eq!(game.phase(), Phase::Running);
    assert_eq!(game.snake().body(), vec![(5, 5)]);
    assert_eq!(game.snake().direction(), Direction::Down);
    assert_eq!(game.pending_turn(), None);
    assert!(!game.will_grow());
    assert_eq!(game.scene().width(), 10);
    assert_eq!(game.scene().height(), 10);
    assert_eq!(game.scene().border_width(), 1);
    assert_eq!(game.overlay(), None);
}

#[test]
fn new_game_has_one_piece_of_food_off_the_snake() {
    for seed in 0..10u64 {
        let game = seeded_game(10, 10, seed);
        assert_eq!(game.scene().list_fruits().len(), 1);
        let (x, y) = game.scene().list_fruits()[0];
        assert!(2 <= x && x <= 8 && 2 <= y && y <= 8);
        assert_ne!((x, y), (5, 5));
    }
}

#[test]
fn new_game_is_sized_by_the_terminal_up_to_the_limits() {
    let game = seeded_game(80, 24, 1);
    assert_eq!((game.scene().width(), game.scene().height()), (80, 24));
    assert_eq!(game.snake().body(), vec![(40, 12)]);
    let game = seeded_game(300, 100, 1);
    assert_eq!((game.scene().width(), game.scene().height()), (150, 40));
    assert_eq!(game.snake().body(), vec![(75, 20)]);
}

#[test]
fn new_game_refuses_a_terminal_that_is_too_small() {
    assert!(matches!(Game::new(0, 10), Err(ConfigError::ZeroDimension)));
    assert!(matches!(Game::new(10, 0), Err(ConfigError::ZeroDimension)));
    assert!(matches!(Game::new(3, 10), Err(ConfigError::NoInterior)));
    assert!(matches!(Game::new(10, 3), Err(ConfigError::NoInterior)));
    assert!(matches!(
        Game::with_rng(3, 3, StdRng::seed_from_u64(0)),
        Err(ConfigError::NoInterior)
    ));
}

#[test]
fn smallest_game_has_no_room_for_food() {
    let game = seeded_game(4, 4, 9);
    assert_eq!(game.snake().body(), vec![(2, 2)]);
    assert!(game.scene().list_fruits().is_empty());
}

#[test]
fn from_parts_takes_snake_and_board_as_they_are() {
    let mut scene = empty_board(12, 9);
    let mut snake = Snake::new(4, 4, Direction::Left);
    snake.add_segment_body((5, 4));
    assert!(scene.place_fruit(&snake, (3, 3)));
    let game = game_of(snake, scene);
    assert_eq!(
        snapshot(&game),
        (vec![(4, 4), (5, 4)], Direction::Left, vec![(3, 3)], Phase::Running, None, false)
    );
    assert_eq!((game.scene().width(), game.scene().height()), (12, 9));
}

#[test]
fn three_ticks_without_input_move_the_head_three_cells_down() {
    let mut game = seeded_game(10, 10, 42);
    for _ in 0..3 {
        advanced(game.tick());
    }
    assert_eq!(game.snake().body()[0], (5, 8));
    assert_eq!(game.phase(), Phase::Running);
    assert!(!game.scene().is_snake_out_of_bound(game.snake()));
    assert!(!game.scene().is_snake_touch_himself(game.snake()));
}

#[test]
fn fourth_tick_enters_the_band_and_the_fifth_loses() {
    let mut game = game_of(Snake::new(5, 5, Direction::Down), empty_board(10, 10));
    for _ in 0..4 {
        advanced(game.tick());
    }
    assert_eq!(game.snake().body(), vec![(5, 9)]);
    assert_eq!(game.phase(), Phase::Running);
    assert!(matches!(game.tick(), TickOutcome::Collided));
    assert_eq!(game.phase(), Phase::Lost);
    assert_eq!(game.snake().body(), vec![(5, 9)]);
}

#[test]
fn heading_right_next_to_the_band_loses_two_ticks_later() {
    let mut game = game_of(Snake::new(8, 5, Direction::Right), empty_board(10, 10));
    advanced(game.tick());
    assert_eq!(game.snake().body(), vec![(9, 5)]);
    assert!(game.scene().is_snake_out_of_bound(game.snake()));
    assert!(matches!(game.tick(), TickOutcome::Collided));
    assert_eq!(game.phase(), Phase::Lost);
}

#[test]
fn snake_on_itself_loses() {
    let mut snake = Snake::new(5, 5, Direction::Down);
    snake.add_segment_body((5, 6));
    snake.add_segment_body((5, 5));
    let mut game = game_of(snake, empty_board(10, 10));
    assert!(matches!(game.tick(), TickOutcome::Collided));
    assert_eq!(game.phase(), Phase::Lost);
    assert_eq!(game.snake().body(), vec![(5, 5), (5, 6), (5, 5)]);
}

#[test]
fn pending_turn_is_made_even_on_the_losing_tick() {
    let mut game = game_of(Snake::new(5, 9, Direction::Down), empty_board(10, 10));
    assert_eq!(game.handle_input(InputEvent::DirectionKey(Direction::Left)), Reaction::Steered);
    assert!(matches!(game.tick(), TickOutcome::Collided));
    assert_eq!(game.snake().direction(), Direction::Left);
    assert_eq!(game.pending_turn(), None);
    assert_eq!(game.snake().body(), vec![(5, 9)]);
}

#[test]
fn reverse_key_is_ignored_for_all_four_headings() {
    let pairs = [
        (Direction::Right, Direction::Left),
        (Direction::Left, Direction::Right),
        (Direction::Up, Direction::Down),
        (Direction::Down, Direction::Up),
    ];
    for (heading, reverse) in pairs {
        let mut game = game_of(Snake::new(5, 5, heading), empty_board(10, 10));
        assert_eq!(game.handle_input(InputEvent::DirectionKey(reverse)), Reaction::Ignored);
        assert_eq!(game.pending_turn(), None);
        assert_eq!(game.snake().direction(), heading);
        advanced(game.tick());
        assert_eq!(game.snake().direction(), heading);
    }
}

#[test]
fn reverse_key_keeps_an_earlier_turn() {
    let mut game = game_of(Snake::new(5, 5, Direction::Right), empty_board(10, 10));
    assert_eq!(game.handle_input(InputEvent::DirectionKey(Direction::Up)), Reaction::Steered);
    assert_eq!(game.handle_input(InputEvent::DirectionKey(Direction::Left)), Reaction::Ignored);
    assert_eq!(game.pending_turn(), Some(Direction::Up));
    advanced(game.tick());
    assert_eq!(game.snake().direction(), Direction::Up);
    assert_eq!(game.snake().body(), vec![(5, 4)]);
}

#[test]
fn last_valid_key_of_a_tick_wins() {
    let mut game = game_of(Snake::new(5, 5, Direction::Right), empty_board(10, 10));
    assert_eq!(game.handle_input(InputEvent::DirectionKey(Direction::Up)), Reaction::Steered);
    assert_eq!(game.handle_input(InputEvent::DirectionKey(Direction::Down)), Reaction::Steered);
    assert_eq!(game.pending_turn(), Some(Direction::Down));
    assert_eq!(game.snake().direction(), Direction::Right);
    advanced(game.tick());
    assert_eq!(game.pending_turn(), None);
    assert_eq!(game.snake().direction(), Direction::Down);
    assert_eq!(game.snake().body(), vec![(5, 6)]);
}

#[test]
fn key_for_the_current_heading_is_accepted() {
    let mut game = game_of(Snake::new(5, 5, Direction::Right), empty_board(10, 10));
    assert_eq!(game.handle_input(InputEvent::DirectionKey(Direction::Right)), Reaction::Steered);
    advanced(game.tick());
    assert_eq!(game.snake().body(), vec![(6, 5)]);
}

#[test]
fn validity_is_judged_against_the_heading_not_the_pending_turn() {
    let mut game = game_of(Snake::new(5, 5, Direction::Right), empty_board(10, 10));
    assert_eq!(game.handle_input(InputEvent::DirectionKey(Direction::Up)), Reaction::Steered);
    assert_eq!(game.handle_input(InputEvent::DirectionKey(Direction::Down)), Reaction::Steered);
    assert_eq!(game.handle_input(InputEvent::DirectionKey(Direction::Left)), Reaction::Ignored);
    assert_eq!(game.pending_turn(), Some(Direction::Down));
}

#[test]
fn tick_batch_erases_then_draws_snake_then_food() {
    let mut scene = empty_board(10, 10);
    let mut snake = Snake::new(5, 5, Direction::Down);
    snake.add_segment_body((5, 4));
    assert!(scene.place_fruit(&snake, (3, 3)));
    let mut game = game_of(snake, scene);
    let batch = advanced(game.tick());
    assert_eq!(
        batch,
        vec![
            cell(5, 5, GlyphKind::Empty),
            cell(5, 4, GlyphKind::Empty),
            cell(5, 6, GlyphKind::SnakeHead),
            cell(5, 5, GlyphKind::SnakeBody),
            cell(3, 3, GlyphKind::Food)
        ]
    );
}

#[test]
fn eating_grows_the_snake_on_the_following_tick_only() {
    let mut scene = empty_board(10, 10);
    let snake = Snake::new(5, 3, Direction::Down);
    assert!(scene.place_fruit(&snake, (5, 4)));
    let mut game = game_of(snake, scene);

    advanced(game.tick());
    assert_eq!(game.snake().body(), vec![(5, 4)]);
    assert!(game.will_grow());
    assert_eq!(game.scene().list_fruits().len(), 1);
    let spawned = game.scene().list_fruits()[0];
    assert_ne!(spawned, (5, 4));
    assert!(2 <= spawned.0 && spawned.0 <= 8 && 2 <= spawned.1 && spawned.1 <= 8);

    advanced(game.tick());
    assert_eq!(game.snake().body(), vec![(5, 5), (5, 4)]);
    assert_eq!(game.will_grow(), spawned == (5, 5));

    let grows_again = game.will_grow();
    advanced(game.tick());
    assert_eq!(game.snake().body().len(), if grows_again { 3 } else { 2 });
    assert_eq!(game.snake().body()[0], (5, 6));
}

#[test]
fn eaten_food_is_replaced_on_a_free_cell() {
    let mut scene = empty_board(5, 5);
    let snake = Snake::new(2, 2, Direction::Down);
    assert!(scene.place_fruit(&snake, (2, 3)));
    let mut game = game_of(snake, scene);
    let batch = advanced(game.tick());
    assert_eq!(game.snake().body(), vec![(2, 3)]);
    assert!(game.will_grow());
    assert_eq!(game.scene().list_fruits().len(), 1);
    let spawned = game.scene().list_fruits()[0];
    assert!([(2, 2), (3, 2), (3, 3)].contains(&spawned));
    assert_eq!(
        batch,
        vec![
            cell(2, 2, GlyphKind::Empty),
            cell(2, 3, GlyphKind::SnakeHead),
            cell(spawned.0, spawned.1, GlyphKind::Food)
        ]
    );
    advanced(game.tick());
    assert_eq!(game.snake().body(), vec![(2, 4), (2, 3)]);
    assert!(!game.will_grow());
    assert!(matches!(game.tick(), TickOutcome::Collided));
}

#[test]
fn eaten_food_respawns_on_the_only_free_cell() {
    let mut scene = empty_board(5, 5);
    let mut snake = Snake::new(2, 2, Direction::Right);
    snake.add_segment_body((2, 3));
    snake.add_segment_body((3, 3));
    assert!(scene.place_fruit(&snake, (3, 2)));
    let mut game = game_of(snake, scene);
    advanced(game.tick());
    assert_eq!(game.snake().body(), vec![(3, 2), (2, 2), (2, 3)]);
    assert!(game.will_grow());
    assert_eq!(game.scene().list_fruits(), &vec![(3, 3)]);
}

#[test]
fn snake_that_fills_the_board_gets_no_new_food() {
    let mut scene = empty_board(5, 5);
    let mut snake = Snake::new(2, 2, Direction::Down);
    snake.add_segment_body((3, 2));
    snake.add_segment_body((3, 3));
    assert!(scene.place_fruit(&snake, (2, 3)));
    let mut game = game_of(snake, scene);

    advanced(game.tick());
    assert_eq!(game.snake().body(), vec![(2, 3), (2, 2), (3, 2)]);
    assert_eq!(game.scene().list_fruits(), &vec![(3, 3)]);
    assert!(game.will_grow());

    assert_eq!(game.handle_input(InputEvent::DirectionKey(Direction::Right)), Reaction::Steered);
    let batch = advanced(game.tick());
    assert_eq!(game.snake().body(), vec![(3, 3), (2, 3), (2, 2), (3, 2)]);
    assert!(game.scene().list_fruits().is_empty());
    assert!(game.will_grow());
    assert_eq!(
        batch,
        vec![
            cell(2, 3, GlyphKind::Empty),
            cell(2, 2, GlyphKind::Empty),
            cell(3, 2, GlyphKind::Empty),
            cell(3, 3, GlyphKind::SnakeHead),
            cell(2, 3, GlyphKind::SnakeBody),
            cell(2, 2, GlyphKind::SnakeBody),
            cell(3, 2, GlyphKind::SnakeBody)
        ]
    );

    advanced(game.tick());
    assert_eq!(game.snake().body(), vec![(4, 3), (3, 3), (2, 3), (2, 2), (3, 2)]);
    assert!(!game.will_grow());
    assert!(matches!(game.tick(), TickOutcome::Collided));
}

#[test]
fn length_changes_only_after_a_meal() {
    let mut scene = empty_board(20, 20);
    let snake = Snake::new(10, 10, Direction::Down);
    for food in [(10, 11), (10, 12), (12, 12), (13, 11), (13, 9), (11, 9), (10, 9)] {
        assert!(scene.place_fruit(&snake, food));
    }
    let mut game = game_of(snake, scene);
    let turns = [Direction::Right, Direction::Up, Direction::Left, Direction::Down];
    let mut meals = 0;
    for step in 0..120usize {
        if step % 3 == 2 {
            game.handle_input(InputEvent::DirectionKey(turns[(step / 3) % 4]));
        }
        let length_before = game.snake().body().len();
        let growth_due = game.will_grow();
        let food_before = game.scene().list_fruits().clone();
        match game.tick() {
            TickOutcome::Advanced(_) => {
                let body = game.snake().body();
                assert_eq!(body.len(), length_before + if growth_due { 1 } else { 0 });
                let ate = food_before.contains(&body[0]);
                assert_eq!(game.will_grow(), ate);
                assert!(!game.scene().list_fruits().contains(&body[0]));
                if ate {
                    meals += 1;
                } else {
                    assert_eq!(game.scene().list_fruits(), &food_before);
                }
            }
            TickOutcome::Collided => {
                assert_eq!(game.snake().body().len(), length_before);
                break;
            }
            TickOutcome::Frozen => panic!("frozen while running"),
        }
    }
    assert!(meals >= 7);
}

#[test]
fn lost_game_is_frozen() {
    let mut game = lost_game();
    let before = snapshot(&game);
    assert!(matches!(game.tick(), TickOutcome::Frozen));
    assert_eq!(game.handle_input(InputEvent::DirectionKey(Direction::Left)), Reaction::Ignored);
    assert_eq!(game.handle_input(InputEvent::PauseToggle), Reaction::Ignored);
    assert_eq!(game.handle_input(InputEvent::Other), Reaction::Ignored);
    assert!(matches!(game.tick(), TickOutcome::Frozen));
    assert_eq!(snapshot(&game), before);
}

#[test]
fn confirm_after_a_loss_starts_a_new_round() {
    let mut game = lost_game();
    assert_eq!(game.handle_input(InputEvent::Confirm), Reaction::Restarted);
    assert_eq!(game.phase(), Phase::Running);
    assert_eq!(game.snake().body(), vec![(5, 5)]);
    assert_eq!(game.snake().direction(), Direction::Down);
    assert_eq!(game.pending_turn(), None);
    assert!(!game.will_grow());
    assert_eq!(game.scene().list_fruits().len(), 1);
    assert_ne!(game.scene().list_fruits()[0], (5, 5));
    assert_eq!((game.scene().width(), game.scene().height()), (10, 10));
    advanced(game.tick());
    assert_eq!(game.snake().body()[0], (5, 6));
}

#[test]
fn confirm_does_nothing_unless_lost() {
    let mut game = game_of(Snake::new(5, 5, Direction::Right), empty_board(10, 10));
    let before = snapshot(&game);
    assert_eq!(game.handle_input(InputEvent::Confirm), Reaction::Ignored);
    assert_eq!(snapshot(&game), before);
    assert_eq!(game.handle_input(InputEvent::PauseToggle), Reaction::Paused);
    let paused = snapshot(&game);
    assert_eq!(game.handle_input(InputEvent::Confirm), Reaction::Ignored);
    assert_eq!(snapshot(&game), paused);
}

#[test]
fn reset_starts_a_new_round_from_any_phase() {
    let mut scene = empty_board(12, 8);
    let mut snake = Snake::new(3, 3, Direction::Left);
    snake.add_segment_body((4, 3));
    assert!(scene.place_fruit(&snake, (6, 5)));
    assert!(scene.place_fruit(&snake, (7, 5)));
    let mut game = game_of(snake, scene);
    game.handle_input(InputEvent::DirectionKey(Direction::Up));
    game.handle_input(InputEvent::PauseToggle);
    game.reset();
    assert_eq!(game.phase(), Phase::Running);
    assert_eq!(game.snake().body(), vec![(6, 4)]);
    assert_eq!(game.snake().direction(), Direction::Down);
    assert_eq!(game.pending_turn(), None);
    assert!(!game.will_grow());
    assert_eq!(game.scene().list_fruits().len(), 1);
    assert_ne!(game.scene().list_fruits()[0], (6, 4));
}

#[test]
fn pause_freezes_and_resume_goes_on() {
    let mut game = game_of(Snake::new(5, 5, Direction::Right), empty_board(10, 10));
    assert_eq!(game.handle_input(InputEvent::DirectionKey(Direction::Up)), Reaction::Steered);
    assert_eq!(game.handle_input(InputEvent::PauseToggle), Reaction::Paused);
    assert_eq!(game.phase(), Phase::Paused);
    let paused = snapshot(&game);
    assert!(matches!(game.tick(), TickOutcome::Frozen));
    assert_eq!(game.handle_input(InputEvent::DirectionKey(Direction::Down)), Reaction::Ignored);
    assert_eq!(game.handle_input(InputEvent::Other), Reaction::Ignored);
    assert_eq!(snapshot(&game), paused);
    assert_eq!(game.handle_input(InputEvent::PauseToggle), Reaction::Resumed);
    assert_eq!(game.phase(), Phase::Running);
    assert_eq!(game.pending_turn(), Some(Direction::Up));
    advanced(game.tick());
    assert_eq!(game.snake().body(), vec![(5, 4)]);
}

#[test]
fn quit_is_reported_in_every_phase_and_changes_nothing() {
    let mut running = game_of(Snake::new(5, 5, Direction::Right), empty_board(10, 10));
    let before = snapshot(&running);
    assert_eq!(running.handle_input(InputEvent::Quit), Reaction::Quit);
    assert_eq!(snapshot(&running), before);

    running.handle_input(InputEvent::PauseToggle);
    let before = snapshot(&running);
    assert_eq!(running.handle_input(InputEvent::Quit), Reaction::Quit);
    assert_eq!(snapshot(&running), before);

    let mut lost = lost_game();
    let before = snapshot(&lost);
    assert_eq!(lost.handle_input(InputEvent::Quit), Reaction::Quit);
    assert_eq!(snapshot(&lost), before);
}

#[test]
fn other_keys_are_ignored_while_running() {
    let mut game = game_of(Snake::new(5, 5, Direction::Right), empty_board(10, 10));
    let before = snapshot(&game);
    assert_eq!(game.handle_input(InputEvent::Other), Reaction::Ignored);
    assert_eq!(snapshot(&game), before);
}

#[test]
fn overlay_anchors_follow_the_phase() {
    let mut game = game_of(Snake::new(20, 9, Direction::Down), empty_board(31, 10));
    assert_eq!(game.overlay(), None);
    game.handle_input(InputEvent::PauseToggle);
    assert_eq!(game.overlay(), Some(cell(15, 5, GlyphKind::TextOverlay)));
    game.handle_input(InputEvent::PauseToggle);
    assert_eq!(game.overlay(), None);
    assert!(matches!(game.tick(), TickOutcome::Collided));
    assert_eq!(game.overlay(), Some(cell(10, 5, GlyphKind::TextOverlay)));
}

#[test]
fn games_with_the_same_seed_play_the_same() {
    let mut first = seeded_game(30, 20, 77);
    let mut second = seeded_game(30, 20, 77);
    assert_eq!(snapshot(&first), snapshot(&second));
    let keys = [Direction::Right, Direction::Up, Direction::Left, Direction::Down];
    for step in 0..60usize {
        if step % 4 == 3 {
            let key = InputEvent::DirectionKey(keys[(step / 4) % 4]);
            assert_eq!(first.handle_input(key), second.handle_input(key));
        }
        let a = first.tick();
        let b = second.tick();
        match (a, b) {
            (TickOutcome::Advanced(x), TickOutcome::Advanced(y)) => assert_eq!(x, y),
            (TickOutcome::Collided, TickOutcome::Collided) => {}
            (TickOutcome::Frozen, TickOutcome::Frozen) => {}
            _ => panic!("outcomes differ at step {}", step),
        }
        assert_eq!(snapshot(&first), snapshot(&second));
    }
}
