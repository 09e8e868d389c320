//! The daemon's configuration: what holds where the configuration file says
//! nothing, and how the file's entries take the place of that.

use vstd::prelude::*;

verus! {

/// The entries of a configuration file, each of which may be missing.
#[derive(Debug, Clone, Default)]
pub struct ConfigFile {
    pub qmdl_store_path: Option<String>,
    pub port: Option<u16>,
    pub debug_mode: Option<bool>,
    pub ui_level: Option<u8>,
    pub enable_dummy_analyzer: Option<bool>,
    pub colorblind_mode: Option<bool>,
    pub full_background_color: Option<bool>,
    pub show_screen_overlay: Option<bool>,
    pub enable_animation: Option<bool>,
}

/// The configuration that the daemon runs with.
#[derive(Debug, Clone)]
pub struct Config {
    pub qmdl_store_path: String,
    pub port: u16,
    pub debug_mode: bool,
    pub ui_level: u8,
    pub enable_dummy_analyzer: bool,
    pub colorblind_mode: bool,
    pub full_background_color: bool,
    pub show_screen_overlay: bool,
    pub enable_animation: bool,
}

/// The command line of the daemon.
#[derive(Debug, Clone)]
pub struct Args {
    pub config_path: String,
}

impl Config {
    /// Whether this is the configuration that holds without a file: the
    /// store under `/data/rayhunter/qmdl`, port 8080, the first level of the
    /// display with overlay and animation, and everything else off.
    pub open spec fn is_default(self) -> bool {
        &&& self.qmdl_store_path@ == "/data/rayhunter/qmdl"@
        &&& self.port == 8080
        &&& !self.debug_mode
        &&& self.ui_level == 1
        &&& !self.enable_dummy_analyzer
        &&& !self.colorblind_mode
        &&& !self.full_background_color
        &&& self.show_screen_overlay
        &&& self.enable_animation
    }

    /// This configuration with each entry that `file` holds in the place of
    /// its own.
    pub open spec fn overridden_by(self, file: ConfigFile) -> Config {
        Config {
            qmdl_store_path: match file.qmdl_store_path {
                Some(path) => path,
                None => self.qmdl_store_path,
            },
            port: match file.port {
                Some(port) => port,
                None => self.port,
            },
            debug_mode: match file.debug_mode {
                Some(on) => on,
                None => self.debug_mode,
            },
            ui_level: match file.ui_level {
                Some(level) => level,
                None => self.ui_level,
            },
            enable_dummy_analyzer: match file.enable_dummy_analyzer {
                Some(on) => on,
                None => self.enable_dummy_analyzer,
            },
            colorblind_mode: match file.colorblind_mode {
                Some(on) => on,
                None => self.colorblind_mode,
            },
            full_background_color: match file.full_background_color {
                Some(on) => on,
                None => self.full_background_color,
            },
            show_screen_overlay: match file.show_screen_overlay {
                Some(on) => on,
                None => self.show_screen_overlay,
            },
            enable_animation: match file.enable_animation {
                Some(on) => on,
                None => self.enable_animation,
            },
        }
    }

    /// Puts each entry that `file` holds in the place of this
    /// configuration's own.
    pub fn apply(self, file: ConfigFile) -> (config: Config)
        ensures
            config == self.overridden_by(file),
    {
        let mut config: Config = self;
        match file.qmdl_store_path {
            Some(path) => {
                config.qmdl_store_path = path;
            },
            None => {},
        }
        match file.port {
            Some(port) => {
                config.port = port;
            },
            None => {},
        }
        match file.debug_mode {
            Some(on) => {
                config.debug_mode = on;
            },
            None => {},
        }
        match file.ui_level {
            Some(level) => {
                config.ui_level = level;
            },
            None => {},
        }
        match file.enable_dummy_analyzer {
            Some(on) => {
                config.enable_dummy_analyzer = on;
            },
            None => {},
        }
        match file.colorblind_mode {
            Some(on) => {
                config.colorblind_mode = on;
            },
            None => {},
        }
        match file.full_background_color {
            Some(on) => {
                config.full_background_color = on;
            },
            None => {},
        }
        match file.show_screen_overlay {
            Some(on) => {
                config.show_screen_overlay = on;
            },
            None => {},
        }
        match file.enable_animation {
            Some(on) => {
                config.enable_animation = on;
            },
            None => {},
        }
        config
    }
}

impl Default for Config {
    fn default() -> (config: Config)
        ensures
            config.is_default(),
    {
        Config {
            qmdl_store_path: "/data/rayhunter/qmdl".to_owned(),
            port: 8080,
            debug_mode: false,
            ui_level: 1,
            enable_dummy_analyzer: false,
            colorblind_mode: false,
            full_background_color: false,
            show_screen_overlay: true,
            enable_animation: true,
        }
    }
}

/// The configuration for what was found at the configuration's path: the
/// defaults where no file could be read, and else the defaults with the
/// file's entries in their place.
pub fn parse_config(file: Option<ConfigFile>) -> (config: Config)
    ensures
        match file {
            Some(entries) => exists|defaults: Config|
                defaults.is_default() && config == #[trigger] defaults.overridden_by(entries),
            None => config.is_default(),
        },
{
    let defaults: Config = Config::default();
    match file {
        Some(entries) => defaults.apply(entries),
        None => defaults,
    }
}

/// Reads the command line: the program's name and the path of the
/// configuration file, no more and no less.
pub fn parse_args(arguments: Vec<String>) -> (args: Option<Args>)
    ensures
        match args {
            Some(found) => arguments@.len() == 2 && found.config_path == arguments@[1],
            None => arguments@.len() != 2,
        },
{
    if arguments.len() != 2 {
        return None;
    }
    Some(Args { config_path: arguments[1].clone() })
}

} // verus!
