use vstd::prelude::*;

verus! {

/// Settings of the bridge: where Intiface listens, which local port receives
/// the game-state updates, and where the game's config directory is.
#[derive(Clone, Debug)]
pub struct Config {
    pub buttplug_server_url: String,
    pub cs_integration_port: u16,
    /// `None` means the standard Steam install location.
    pub cs_script_dir: Option<String>,
}

/// The address of a standard Intiface install.
pub open spec fn default_server_url() -> Seq<char> {
    "ws://127.0.0.1:12345"@
}

/// The port the game-state integration listens on unless told otherwise.
pub open spec fn default_integration_port() -> u16 {
    42069
}

impl Default for Config {
    fn default() -> (c: Self)
        ensures
            c.buttplug_server_url@ == default_server_url(),
            c.cs_integration_port == default_integration_port(),
            c.cs_script_dir is None,
    {
        let url = "ws://127.0.0.1:12345";
        proof {
            reveal_strlit("ws://127.0.0.1:12345");
        }
        Config {
            buttplug_server_url: url.to_owned(),
            cs_integration_port: 42069,
            cs_script_dir: None,
        }
    }
}

/// Where a standard Steam install keeps the game's config directory.
pub open spec fn default_game_dir() -> Seq<char> {
    "C:\\Program Files (x86)\\Steam\\steamapps\\common\\Counter-Strike Global Offensive\\game\\csgo\\cfg"@
}

impl Config {
    /// The game's config directory: the configured one, or the standard Steam
    /// location when none is configured.
    pub fn script_dir(&self) -> (dir: String)
        ensures
            dir@ == match self.cs_script_dir {
                Some(d) => d@,
                None => default_game_dir(),
            },
    {
        match &self.cs_script_dir {
            Some(d) => d.clone(),
            None => {
                let d = "C:\\Program Files (x86)\\Steam\\steamapps\\common\\Counter-Strike Global Offensive\\game\\csgo\\cfg";
                proof {
                    reveal_strlit("C:\\Program Files (x86)\\Steam\\steamapps\\common\\Counter-Strike Global Offensive\\game\\csgo\\cfg");
                }
                d.to_owned()
            },
        }
    }
}

} // verus!
