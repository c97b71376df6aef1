use hyprrgn::config::{
    config_path, get_screen_rect, read_grid_size, Config, GridSize,
};
use hyprrgn::geometry::Rect;

fn sized(rows: usize, cols: usize) -> Config {
    Config { grid_size: Some(GridSize { rows, cols }), keybindings: None }
}

#[test]
fn default_config_is_empty() {
    let cfg = Config::default();
    assert!(cfg.grid_size.is_none());
    assert!(cfg.keybindings.is_none());
}

#[test]
fn config_path_is_explicit_or_below_home() {
    assert_eq!(config_path(Some("/tmp/c.toml"), Some("/home/a")).unwrap(), "/tmp/c.toml");
    assert_eq!(config_path(Some(""), Some("/home/a")).unwrap(), "");
    assert_eq!(
        config_path(None, Some("/home/a")).unwrap(),
        "/home/a/.config/hyprrgn/config.toml"
    );
    assert_eq!(config_path(None, Some("/")).unwrap(), "/.config/hyprrgn/config.toml");
    assert_eq!(config_path(None, Some("")).unwrap(), ".config/hyprrgn/config.toml");
    assert_eq!(config_path(None, None), None);
}

#[test]
fn config_path_joins_like_std() {
    for home in ["", "/", "/home/a", "/home/a/", "rel", "a//"] {
        let joined = std::path::PathBuf::from(home).join(".config/hyprrgn/config.toml");
        assert_eq!(config_path(None, Some(home)).unwrap(), joined.to_str().unwrap());
    }
}

#[test]
fn screen_rect_comes_from_the_resolution() {
    assert_eq!(get_screen_rect(None), Rect::new(0, 0, 1920, 1080));
    assert_eq!(get_screen_rect(Some("2560x1440")), Rect::new(0, 0, 2560, 1440));
    assert_eq!(get_screen_rect(Some("2560")), Rect::new(0, 0, 1920, 1080));
    assert_eq!(get_screen_rect(Some("1x2x3")), Rect::new(0, 0, 1920, 1080));
}

#[test]
fn screen_sides_are_read_on_their_own() {
    assert_eq!(get_screen_rect(Some("ax600")), Rect::new(0, 0, 1920, 600));
    assert_eq!(get_screen_rect(Some("800x")), Rect::new(0, 0, 800, 1080));
    assert_eq!(get_screen_rect(Some("-5x+7")), Rect::new(0, 0, -5, 7));
}

#[test]
fn grid_size_defaults_to_two_by_two() {
    assert_eq!(read_grid_size(&Config::default(), None), (2, 2));
    assert_eq!(read_grid_size(&sized(3, 4), None), (3, 4));
    assert_eq!(read_grid_size(&sized(0, 99), None), (1, 10));
}

#[test]
fn grid_variable_overrides_the_config() {
    assert_eq!(read_grid_size(&sized(3, 4), Some("5x6")), (5, 6));
    assert_eq!(read_grid_size(&sized(3, 4), Some("0x11")), (1, 10));
    assert_eq!(read_grid_size(&sized(3, 4), Some("5xa")), (3, 4));
    assert_eq!(read_grid_size(&sized(3, 4), Some("5")), (3, 4));
    assert_eq!(read_grid_size(&Config::default(), Some("3x3")), (3, 3));
    assert_eq!(read_grid_size(&Config::default(), Some("-3x3")), (2, 2));
}
