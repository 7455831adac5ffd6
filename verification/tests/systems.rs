use pill_engine::systems::{SystemError, SystemManager, UpdatePhase};

fn run_a() -> u32 {
    1
}

fn run_b() -> u32 {
    2
}

type Manager = SystemManager<fn() -> u32, u64>;

#[test]
fn phase_names() {
    assert_eq!(UpdatePhase::PreGame.name(), "PreGame");
    assert_eq!(UpdatePhase::Game.name(), "Game");
    assert_eq!(UpdatePhase::PostGame.name(), "PostGame");
}

#[test]
fn add_then_get_finds_the_system() {
    let mut m: Manager = SystemManager::new();
    assert!(m.add_system("physics", run_a, UpdatePhase::Game, 10).is_ok());
    let s = m.get_system("physics", UpdatePhase::Game).ok().unwrap();
    assert_eq!(s.name, "physics");
    assert!(s.enabled);
    assert_eq!(s.timer, Some(10));
    assert_eq!((s.system_function)(), 1);
    assert!(m.get_system("physics", UpdatePhase::PreGame).is_err());
    assert_eq!(m.system_count(), 1);
}

#[test]
fn duplicate_name_is_refused_in_the_same_phase_only() {
    let mut m: Manager = SystemManager::new();
    m.add_system("input", run_a, UpdatePhase::PreGame, 0).ok().unwrap();
    match m.add_system("input", run_b, UpdatePhase::PreGame, 0) {
        Err(SystemError::SystemAlreadyExists { name, update_phase }) => {
            assert_eq!(name, "input");
            assert_eq!(update_phase, UpdatePhase::PreGame);
        }
        _ => panic!("expected SystemAlreadyExists"),
    }
    assert!(m.add_system("input", run_b, UpdatePhase::PostGame, 0).is_ok());
    assert_eq!(m.system_count(), 2);
    let s = m.get_system("input", UpdatePhase::PreGame).ok().unwrap();
    assert_eq!((s.system_function)(), 1);
}

#[test]
fn remove_undoes_add() {
    let mut m: Manager = SystemManager::new();
    m.add_system("a", run_a, UpdatePhase::Game, 0).ok().unwrap();
    m.add_system("b", run_b, UpdatePhase::Game, 0).ok().unwrap();
    assert!(m.remove_system("b", UpdatePhase::Game).is_ok());
    assert!(m.get_system("b", UpdatePhase::Game).is_err());
    assert!(m.get_system("a", UpdatePhase::Game).is_ok());
    assert_eq!(m.system_count(), 1);
}

#[test]
fn remove_of_missing_system_is_refused() {
    let mut m: Manager = SystemManager::new();
    match m.remove_system("ghost", UpdatePhase::PostGame) {
        Err(SystemError::SystemNotFound { name, update_phase }) => {
            assert_eq!(name, "ghost");
            assert_eq!(update_phase, UpdatePhase::PostGame);
        }
        _ => panic!("expected SystemNotFound"),
    }
}

#[test]
fn toggle_and_timers() {
    let mut m: Manager = SystemManager::new();
    m.add_system("render", run_a, UpdatePhase::PostGame, 5).ok().unwrap();
    m.toggle_system("render", UpdatePhase::PostGame, false).ok().unwrap();
    assert!(!m.get_system("render", UpdatePhase::PostGame).ok().unwrap().enabled);
    assert_eq!(m.get_system_timer("render", UpdatePhase::PostGame).ok().unwrap(), Some(5));
    assert_eq!(m.get_system_timer("render", UpdatePhase::PostGame).ok().unwrap(), None);
    m.update_system_timer("render", UpdatePhase::PostGame, 9).ok().unwrap();
    assert_eq!(m.get_system("render", UpdatePhase::PostGame).ok().unwrap().timer, Some(9));
    assert!(m.toggle_system("nothing", UpdatePhase::PostGame, true).is_err());
    assert!(m.update_system_timer("nothing", UpdatePhase::Game, 1).is_err());
    assert!(m.get_system_timer("nothing", UpdatePhase::Game).is_err());
}
