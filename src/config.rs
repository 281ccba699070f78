//! Settings read from the configuration document.
use vstd::prelude::*;

use crate::bindings::TagBindings;
use crate::text::{chars_of, trim, trim_bounds};

verus! {

/// One root directory of the music library.
pub struct MusicDirectory {
    pub dir: String,
}

/// Where commands come in, and the sounds played at start and at shutdown.
pub struct ServerConfig {
    pub pipe: Option<String>,
    pub web: String,
    pub startup_sound: Option<String>,
    pub shutdown_sound: Option<String>,
}

/// GPIO pins of the buttons, and the debounce interval in milliseconds.
pub struct GpioConfig {
    pub play: Option<u8>,
    pub debounce_ms: u64,
    pub next: Option<u8>,
    pub prev: Option<u8>,
    pub volume_up: Option<u8>,
    pub volume_down: Option<u8>,
    pub shutdown: Option<u8>,
}

/// SPI bus and pins of the tag reader.
pub struct RfidConfig {
    pub bus: u8,
    pub irq: u8,
    pub reset: Option<u8>,
}

/// The whole configuration, as far as the engine reads it.
pub struct Config {
    pub music: Vec<MusicDirectory>,
    pub server: ServerConfig,
    pub tags: TagBindings,
    pub state_file: Option<String>,
    pub path: String,
    pub backup_dir: Option<String>,
    pub gpio: Option<GpioConfig>,
    pub rfid: Option<RfidConfig>,
}

/// Why a configuration is refused.
#[derive(Debug, PartialEq, Eq)]
pub enum ConfigError {
    /// No `[[music]]` entry.
    NoMusicDirectory,
    /// `[server].web` is empty or blank.
    NoWebAddress,
}

pub const DEFAULT_GPIO_DEBOUNCE_MS: u64 = 200;

pub fn default_gpio_debounce_ms() -> (r: u64)
    ensures
        r == DEFAULT_GPIO_DEBOUNCE_MS,
{
    DEFAULT_GPIO_DEBOUNCE_MS
}

impl Config {
    /// Refuses a configuration without a music directory, or without a web address.
    pub fn check(&self) -> (r: Result<(), ConfigError>)
        ensures
            self.music@.len() == 0 ==> r == Err::<(), ConfigError>(ConfigError::NoMusicDirectory),
            self.music@.len() > 0 && trim(self.server.web@).len() == 0 ==> r == Err::<
                (),
                ConfigError,
            >(ConfigError::NoWebAddress),
            self.music@.len() > 0 && trim(self.server.web@).len() > 0 ==> r is Ok,
    {
        if self.music.len() == 0 {
            return Err(ConfigError::NoMusicDirectory);
        }
        let v = chars_of(self.server.web.as_str());
        let (a, b) = trim_bounds(&v, 0, v.len());
        assert(v@.subrange(0, v.len() as int) =~= self.server.web@);
        if a == b {
            return Err(ConfigError::NoWebAddress);
        }
        Ok(())
    }
}

} // verus!
