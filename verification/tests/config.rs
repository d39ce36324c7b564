use wcapp::config::{
    config_path_below, config_path_from, default_cycle_interval, get_config_path, get_wallpaper_dir, load_config,
    save_config, Config, ConfigError, StoredConfig, DEFAULT_CYCLE_INTERVAL,
    WALLPAPER_REPO,
};

fn config(dir: &str, seconds: u64) -> Config {
    Config { wallpaper_dir: dir.to_string(), cycle_interval: seconds }
}

#[test]
fn the_default_interval_is_five_minutes() {
    assert_eq!(default_cycle_interval(), 300);
    assert_eq!(DEFAULT_CYCLE_INTERVAL, 300);
}

#[test]
fn the_remote_source_is_fixed() {
    assert_eq!(WALLPAPER_REPO, "https://github.com/Incalculas/wallpapers");
}

#[test]
fn a_configuration_survives_writing_and_reading() {
    for c in [config("/home/u/Pictures/wcapp", 300), config("", 0), config("C:\\w", u64::MAX)] {
        assert_eq!(load_config(save_config(&c)), Ok(Some(c)));
    }
}

#[test]
fn a_record_without_interval_reads_with_the_default() {
    let stored = StoredConfig::Record { wallpaper_dir: "/w".to_string(), cycle_interval: None };
    assert_eq!(load_config(stored), Ok(Some(config("/w", 300))));
}

#[test]
fn a_record_with_interval_keeps_it() {
    let stored = StoredConfig::Record { wallpaper_dir: "/w".to_string(), cycle_interval: Some(45) };
    assert_eq!(load_config(stored), Ok(Some(config("/w", 45))));
}

#[test]
fn the_saved_record_holds_both_fields() {
    assert_eq!(
        save_config(&config("/w", 60)),
        StoredConfig::Record { wallpaper_dir: "/w".to_string(), cycle_interval: Some(60) }
    );
}

#[test]
fn nothing_stored_is_no_configuration() {
    assert_eq!(load_config(StoredConfig::Missing), Ok(None));
}

#[test]
fn an_unreadable_record_is_a_read_failure() {
    assert_eq!(load_config(StoredConfig::Unreadable), Err(ConfigError::ReadFailed));
}

#[test]
fn a_malformed_record_is_a_parse_failure() {
    assert_eq!(load_config(StoredConfig::Malformed), Err(ConfigError::ParseFailed));
}

#[test]
fn the_three_config_errors_differ() {
    assert_ne!(ConfigError::ReadFailed, ConfigError::WriteFailed);
    assert_ne!(ConfigError::WriteFailed, ConfigError::ParseFailed);
    assert_ne!(ConfigError::ReadFailed, ConfigError::ParseFailed);
}

#[test]
fn the_record_lives_below_the_configuration_directory() {
    assert_eq!(config_path_below("/home/u/.config"), "/home/u/.config/wcapp/config.toml");
    assert_eq!(config_path_below("/home/u/.config/"), "/home/u/.config/wcapp/config.toml");
}

#[test]
fn the_record_path_on_this_machine_ends_as_expected() {
    if let Some(path) = get_config_path() {
        assert!(path.ends_with("wcapp/config.toml"), "{}", path);
    }
}

#[test]
fn the_configured_root_wins() {
    let c = config("/custom/root", 10);
    assert_eq!(get_wallpaper_dir(Some(&c), None), Some("/custom/root".to_string()));
    assert_eq!(
        get_wallpaper_dir(Some(&c), Some("/home/u/Pictures".to_string())),
        Some("/custom/root".to_string())
    );
}

#[test]
fn the_default_root_is_below_the_picture_directory() {
    assert_eq!(
        get_wallpaper_dir(None, Some("/home/u/Pictures".to_string())),
        Some("/home/u/Pictures/wcapp".to_string())
    );
    assert_eq!(
        get_wallpaper_dir(None, Some("/home/u/Pictures/".to_string())),
        Some("/home/u/Pictures/wcapp".to_string())
    );
    assert_eq!(get_wallpaper_dir(None, None), None);
}

#[test]
fn the_record_path_follows_the_configuration_directory() {
    assert_eq!(
        config_path_from(Some("/home/u/.config".to_string())),
        Some("/home/u/.config/wcapp/config.toml".to_string())
    );
    assert_eq!(config_path_from(None), None);
}
