use crabbox::command::Command;
use crabbox::config::{default_gpio_debounce_ms, Config, ConfigError, GpioConfig, MusicDirectory, ServerConfig};
use crabbox::bindings::TagBindings;
use crabbox::gpio::{gpio_buttons, pins_configured, Timer, SHUTDOWN_HOLD_MS};
use crabbox::rfid::{read_address, uid_from_reply, write_address, UidError};

fn gpio(play: Option<u8>, shutdown: Option<u8>) -> GpioConfig {
    GpioConfig {
        play,
        debounce_ms: default_gpio_debounce_ms(),
        next: Some(5),
        prev: None,
        volume_up: None,
        volume_down: Some(7),
        shutdown,
    }
}

#[test]
fn buttons_follow_configured_pins() {
    let buttons = gpio_buttons(&gpio(Some(17), Some(3)));
    assert_eq!(buttons.len(), 4);
    assert_eq!((buttons[0].pin, &buttons[0].command, buttons[0].hold_ms), (17, &Command::PlayPause { filter: None }, None));
    assert_eq!((buttons[1].pin, &buttons[1].command), (5, &Command::Next));
    assert_eq!((buttons[2].pin, &buttons[2].command), (7, &Command::VolumeDown));
    assert_eq!((buttons[3].pin, &buttons[3].command, buttons[3].hold_ms), (3, &Command::Shutdown, Some(SHUTDOWN_HOLD_MS)));
    assert!(pins_configured(&gpio(None, None)));
    let none = GpioConfig { play: None, debounce_ms: 200, next: None, prev: None, volume_up: None, volume_down: None, shutdown: None };
    assert!(!pins_configured(&none));
    assert!(gpio_buttons(&none).is_empty());
    assert_eq!(default_gpio_debounce_ms(), 200);
}

#[test]
fn timer_fires_only_for_latest_arm() {
    let mut timer = Timer::new(5000);
    assert_eq!(timer.duration_ms(), 5000);
    let first = timer.arm();
    assert!(timer.should_fire(first));
    timer.reset();
    assert!(!timer.should_fire(first));
    let second = timer.arm();
    assert!(!timer.should_fire(first));
    assert!(timer.should_fire(second));
}

#[test]
fn reader_addresses() {
    assert_eq!(read_address(0x04), 0x88);
    assert_eq!(write_address(0x04), 0x08);
    assert_eq!(write_address(0x2D), 0x5A);
    assert_eq!(read_address(0x7F), 0xFE);
}

#[test]
fn uid_checksum() {
    assert_eq!(uid_from_reply(&vec![1, 2, 3]), Ok(None));
    assert_eq!(uid_from_reply(&vec![0xDE, 0xAD, 0xBE, 0xEF, 0xDE ^ 0xAD ^ 0xBE ^ 0xEF]), Ok(Some([0xDE, 0xAD, 0xBE, 0xEF])));
    assert_eq!(uid_from_reply(&vec![1, 2, 3, 4, 0]), Err(UidError::ChecksumMismatch));
}

#[test]
fn config_check() {
    let mut cfg = Config {
        music: Vec::new(),
        server: ServerConfig { pipe: None, web: "  ".to_string(), startup_sound: None, shutdown_sound: None },
        tags: TagBindings::new(),
        state_file: None,
        path: "config.toml".to_string(),
        backup_dir: None,
        gpio: None,
        rfid: None,
    };
    assert_eq!(cfg.check(), Err(ConfigError::NoMusicDirectory));
    cfg.music.push(MusicDirectory { dir: "/m".to_string() });
    assert_eq!(cfg.check(), Err(ConfigError::NoWebAddress));
    cfg.server.web = "0.0.0.0:80".to_string();
    assert_eq!(cfg.check(), Ok(()));
}
