use pill_engine::config::{ConfigError, EngineConfig};

#[test]
fn from_ini_reads_keys_without_regard_to_case() {
    let c = EngineConfig::from_ini("[window]\nwidth = 800\n; comment\n# other\nFullscreen = yes\n");
    assert_eq!(c.get_int("WIDTH").unwrap(), 800);
    assert_eq!(c.get_int("width").unwrap(), 800);
    assert_eq!(c.get_bool("fullscreen").unwrap(), true);
}

#[test]
fn from_ini_last_value_wins() {
    let c = EngineConfig::from_ini("a=1\nA = 2\n");
    assert_eq!(c.get_int("a").unwrap(), 2);
}

#[test]
fn from_ini_skips_lines_without_equals() {
    let c = EngineConfig::from_ini("no separator here\nkey=  value with spaces  \n");
    assert!(matches!(c.get_int("no separator here"), Err(ConfigError::KeyNotFound { .. })));
    match c.get_int("key") {
        Err(ConfigError::NotAnInteger { key, value }) => {
            assert_eq!(key, "key");
            assert_eq!(value, "value with spaces");
        }
        _ => panic!("expected NotAnInteger"),
    }
}

#[test]
fn set_then_get_int_gives_the_value_back() {
    let mut c = EngineConfig::default();
    c.set("Max_Clients", -42);
    assert_eq!(c.get_int("max_clients").unwrap(), -42);
    c.set("max_clients", 7);
    assert_eq!(c.get_int("MAX_CLIENTS").unwrap(), 7);
}

#[test]
fn set_keeps_other_keys() {
    let mut c = EngineConfig::from_ini("port=9000\nverbose=false");
    c.set("other", 1);
    assert_eq!(c.get_int("port").unwrap(), 9000);
    assert_eq!(c.get_bool("verbose").unwrap(), false);
}

#[test]
fn get_bool_accepts_the_six_words_in_any_case() {
    let c = EngineConfig::from_ini("a=TRUE\nb=1\nc=Yes\nd=false\ne=0\nf=NO\ng=maybe");
    assert_eq!(c.get_bool("a").unwrap(), true);
    assert_eq!(c.get_bool("b").unwrap(), true);
    assert_eq!(c.get_bool("c").unwrap(), true);
    assert_eq!(c.get_bool("d").unwrap(), false);
    assert_eq!(c.get_bool("e").unwrap(), false);
    assert_eq!(c.get_bool("f").unwrap(), false);
    match c.get_bool("g") {
        Err(ConfigError::NotABool { key, value }) => {
            assert_eq!(key, "g");
            assert_eq!(value, "maybe");
        }
        _ => panic!("expected NotABool"),
    }
}

#[test]
fn missing_key_is_reported() {
    let c = EngineConfig::default();
    match c.get_bool("absent") {
        Err(e) => assert_eq!(e.message(), "absent not found in config"),
        Ok(_) => panic!("expected an error"),
    }
}

#[test]
fn error_messages() {
    let e = ConfigError::NotAnInteger { key: "k".to_string(), value: "v".to_string() };
    assert_eq!(e.message(), "Config key k is not a valid integer: v");
    let e = ConfigError::NotABool { key: "k".to_string(), value: "v".to_string() };
    assert_eq!(e.message(), "Config key k is not a valid bool: v");
}

#[test]
fn get_bool_reads_back_zero_and_one() {
    let mut c = EngineConfig::from_ini("");
    c.set("Flag", 1);
    assert_eq!(c.get_bool("flag").unwrap(), true);
    c.set("flag", 0);
    assert_eq!(c.get_bool("FLAG").unwrap(), false);
    c.set("flag", 2);
    assert!(c.get_bool("flag").is_err());
    c.set("flag", -1);
    assert!(c.get_bool("flag").is_err());
}

#[test]
fn integers_read_as_std_parses_them() {
    let c = EngineConfig::from_ini(
        "a = +5\nb = 9223372036854775808\nc = -9223372036854775808\nd = 1x\ne = -\nf = 007\ng = \n",
    );
    assert_eq!(c.get_int("a").unwrap(), 5);
    assert!(c.get_int("b").is_err());
    assert_eq!(c.get_int("c").unwrap(), i64::MIN);
    assert!(c.get_int("d").is_err());
    assert!(c.get_int("e").is_err());
    assert_eq!(c.get_int("f").unwrap(), 7);
    assert!(c.get_int("g").is_err());
}

#[test]
fn extreme_integers_read_back() {
    let mut c = EngineConfig::from_ini("");
    c.set("lo", i64::MIN);
    c.set("hi", i64::MAX);
    c.set("zero", 0);
    assert_eq!(c.get_int("LO").unwrap(), i64::MIN);
    assert_eq!(c.get_int("hi").unwrap(), i64::MAX);
    assert_eq!(c.get_int("zero").unwrap(), 0);
}
