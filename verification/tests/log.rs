use pill_engine::log::{get_default_log_levels, parse_config_log_settings, parse_log_level, LevelFilter, LogContext};

#[test]
fn context_names_are_snake_case() {
    assert_eq!(LogContext::HotReload.as_ref(), "hot_reload");
    assert_eq!(LogContext::ECS.as_ref(), "ecs");
    assert_eq!(LogContext::Frame.as_ref(), "frame");
}

#[test]
fn default_levels_name_every_context() {
    assert_eq!(
        get_default_log_levels(),
        "hot_reload: info, engine: info, input: info, ecs: info, rendering: info, resources: info, frame: info"
    );
}

#[test]
fn level_words() {
    assert_eq!(parse_log_level("info"), LevelFilter::Info);
    assert_eq!(parse_log_level("DEBUG"), LevelFilter::Debug);
    assert_eq!(parse_log_level("Warning"), LevelFilter::Warn);
    assert_eq!(parse_log_level("error"), LevelFilter::Error);
    assert_eq!(parse_log_level("off"), LevelFilter::Off);
    assert_eq!(parse_log_level("trace"), LevelFilter::Info);
}

fn level_of(table: &pill_engine::table::StrTable<LevelFilter>, name: &str) -> Option<LevelFilter> {
    table.get(&name.to_string()).copied()
}

#[test]
fn settings_with_colons_and_equals() {
    let t = parse_config_log_settings("ecs: debug, renderer=off,, input , frame: ERROR");
    assert_eq!(level_of(&t, "ecs"), Some(LevelFilter::Debug));
    assert_eq!(level_of(&t, "renderer"), Some(LevelFilter::Off));
    assert_eq!(level_of(&t, "input"), Some(LevelFilter::Info));
    assert_eq!(level_of(&t, "frame"), Some(LevelFilter::Error));
    assert_eq!(t.len(), 4);
}

#[test]
fn later_entry_wins() {
    let t = parse_config_log_settings("ecs=debug, ecs=error");
    assert_eq!(level_of(&t, "ecs"), Some(LevelFilter::Error));
    assert_eq!(t.len(), 1);
}

#[test]
fn default_levels_read_back_as_info() {
    let t = parse_config_log_settings(&get_default_log_levels());
    assert_eq!(t.len(), 7);
    for name in ["hot_reload", "engine", "input", "ecs", "rendering", "resources", "frame"] {
        assert_eq!(level_of(&t, name), Some(LevelFilter::Info));
    }
}

#[test]
fn empty_setting_sets_nothing() {
    let t = parse_config_log_settings("  ,  ");
    assert_eq!(t.len(), 0);
}
