use roguelike::random::Probability;
use roguelike::states::check_app_exit_via_keys;
use roguelike::states::AppState;
use roguelike::states::ExecutionMode;
use roguelike::states::GameEvent;
use roguelike::states::GameState;
use roguelike::tile::Tile;
use roguelike::tile::TileKind;
use roguelike::tile::TILESET_TERRAIN_IDX_GRASS;
use roguelike::tile::TILESET_TERRAIN_IDX_GRASS_WITH_FLOWER;
use roguelike::tile::TILESET_TERRAIN_IDX_GRASS_WITH_STONE;
use roguelike::tile::TILESET_TERRAIN_IDX_GRASS_WITH_STONE_DAMAGED;
use roguelike::tile::TILESET_TERRAIN_IDX_SIGNPOST;
use roguelike::actors::Actor;
use roguelike::actors::ActorKind;

const STATES: [GameState; 7] = [
    GameState::Uninitialized,
    GameState::InitializingMap,
    GameState::InitializingActors,
    GameState::PlayerTurn,
    GameState::EnemyTurn,
    GameState::CleanupMap,
    GameState::CleanupActors,
];

const EVENTS: [GameEvent; 8] = [
    GameEvent::GameStarted,
    GameEvent::MapInitialized,
    GameEvent::ActorsInitialized,
    GameEvent::PlayerActed,
    GameEvent::ExitReached,
    GameEvent::EnemiesActed,
    GameEvent::ActorsCleanedUp,
    GameEvent::MapCleanedUp,
];

#[test]
fn the_turn_cycle_has_eight_transitions() {
    let expected = [
        (GameState::Uninitialized, GameEvent::GameStarted, GameState::InitializingMap),
        (GameState::InitializingMap, GameEvent::MapInitialized, GameState::InitializingActors),
        (GameState::InitializingActors, GameEvent::ActorsInitialized, GameState::PlayerTurn),
        (GameState::PlayerTurn, GameEvent::PlayerActed, GameState::EnemyTurn),
        (GameState::PlayerTurn, GameEvent::ExitReached, GameState::CleanupActors),
        (GameState::EnemyTurn, GameEvent::EnemiesActed, GameState::PlayerTurn),
        (GameState::CleanupActors, GameEvent::ActorsCleanedUp, GameState::CleanupMap),
        (GameState::CleanupMap, GameEvent::MapCleanedUp, GameState::InitializingMap),
    ];
    for state in STATES {
        for event in EVENTS {
            let wanted = expected
                .iter()
                .find(|(from, on, _)| *from == state && *on == event)
                .map(|(_, _, to)| *to);
            assert_eq!(state.next(event), wanted, "{:?} on {:?}", state, event);
        }
    }
}

#[test]
fn states_start_at_their_beginning() {
    assert_eq!(GameState::default(), GameState::Uninitialized);
    assert_eq!(AppState::default(), AppState::LoadingAssets);
    assert_eq!(ExecutionMode::default(), ExecutionMode::Release);
}

#[test]
fn the_execution_mode_flips() {
    let mut mode = ExecutionMode::Release;
    mode.flip();
    assert_eq!(mode, ExecutionMode::Debug);
    mode.flip();
    assert_eq!(mode, ExecutionMode::Release);
}

#[test]
fn probabilities_are_ratios() {
    assert!(Probability::new(0, 1).is_some());
    assert!(Probability::new(3, 3).is_some());
    assert!(Probability::new(1, 10).is_some());
    assert!(Probability::new(0, 0).is_none());
    assert!(Probability::new(4, 3).is_none());
}

#[test]
fn the_ends_of_the_scale_are_certain() {
    let sure = Probability::new(7, 7).unwrap();
    let never = Probability::new(0, 7).unwrap();
    for _ in 0..100 {
        assert!(Probability::always().sample());
        assert!(!Probability::never().sample());
        assert!(sure.sample());
        assert!(!never.sample());
    }
}

#[test]
fn a_fair_coin_shows_both_sides() {
    let mut heads = 0;
    for _ in 0..1000 {
        if Probability::half().sample() {
            heads += 1;
        }
    }
    assert!(heads > 300 && heads < 700);
}

#[test]
fn stone_cannot_be_walked_on() {
    assert!(TileKind::Grass.is_walkable());
    assert!(TileKind::GrassWithFlower.is_walkable());
    assert!(TileKind::LevelExit.is_walkable());
    assert!(!TileKind::GrassWithStone.is_walkable());
    assert!(!TileKind::GrassWithStoneDamaged.is_walkable());
}

#[test]
fn an_occupied_tile_cannot_be_walked_on() {
    assert!(Tile::default().is_walkable());
    assert!(Tile::from_kind(TileKind::LevelExit).is_walkable());
    assert!(!Tile::from_kind(TileKind::GrassWithStone).is_walkable());
    let occupied = Tile { kind: TileKind::Grass, actor: Some(Actor::new(ActorKind::Rabbit)) };
    assert!(!occupied.is_walkable());
    let both = Tile { kind: TileKind::GrassWithStone, actor: Some(Actor::new(ActorKind::Blob)) };
    assert!(!both.is_walkable());
}

#[test]
fn a_default_tile_is_empty_grass() {
    assert_eq!(Tile::default(), Tile { kind: TileKind::Grass, actor: None });
    assert_eq!(TileKind::default(), TileKind::Grass);
    assert_eq!(
        Tile::from_kind(TileKind::GrassWithFlower),
        Tile { kind: TileKind::GrassWithFlower, actor: None }
    );
}

#[test]
fn grounds_have_their_sprites() {
    assert_eq!(TileKind::to_sprite_idx(TileKind::Grass), TILESET_TERRAIN_IDX_GRASS);
    assert_eq!(
        TileKind::to_sprite_idx(TileKind::GrassWithFlower),
        TILESET_TERRAIN_IDX_GRASS_WITH_FLOWER
    );
    assert_eq!(
        TileKind::to_sprite_idx(TileKind::GrassWithStone),
        TILESET_TERRAIN_IDX_GRASS_WITH_STONE
    );
    assert_eq!(
        TileKind::to_sprite_idx(TileKind::GrassWithStoneDamaged),
        TILESET_TERRAIN_IDX_GRASS_WITH_STONE_DAMAGED
    );
    assert_eq!(TileKind::to_sprite_idx(TileKind::LevelExit), TILESET_TERRAIN_IDX_SIGNPOST);
    assert_eq!(TileKind::to_sprite_idx(TileKind::Grass), 0);
    assert_eq!(TileKind::to_sprite_idx(TileKind::LevelExit), 4);
}

#[test]
fn the_key_for_leaving_ends_the_application() {
    let mut state = AppState::InGame;
    assert!(!check_app_exit_via_keys(false, &mut state));
    assert_eq!(state, AppState::InGame);
    assert!(check_app_exit_via_keys(true, &mut state));
    assert_eq!(state, AppState::Finished);
}
