//! Fixed settings: what each uninstall mode removes, and the retry budgets.

use crate::retry::RetryPolicy;
use vstd::prelude::*;

verus! {

/// The game's executable, which marks the game root.
pub const GAME_EXECUTABLE: &'static str = "Touhou Mystia Izakaya.exe";

/// The game's process name.
pub const GAME_PROCESS_NAME: &'static str = "Touhou Mystia Izakaya.exe";

/// The game's Steam application id.
pub const GAME_STEAM_APP_ID: u32 = 1584090;

/// The three user-facing operations.
#[derive(Debug, Clone, Copy, PartialEq, Eq, Structural)]
pub enum OperationMode {
    Install,
    Upgrade,
    Uninstall,
}

/// How much an uninstall removes.
#[derive(Debug, Clone, Copy, PartialEq, Eq, Structural)]
pub enum UninstallMode {
    /// Only the plugin and its resource bundle.
    Light,
    /// Everything the framework and the add-on put into the game root.
    Full,
}

/// The removal targets of a mode: a path under the game root (possibly a
/// glob pattern) and whether it names a directory.
pub open spec fn mode_targets(mode: UninstallMode) -> Seq<(Seq<char>, bool)> {
    match mode {
        UninstallMode::Light => seq![
            ("BepInEx/plugins/MetaMystia-*.dll"@, false),
            ("ResourceEx/ResourceExample-*.zip"@, false),
        ],
        UninstallMode::Full => seq![
            ("BepInEx"@, true),
            (".doorstop_version"@, false),
            ("changelog.txt"@, false),
            ("doorstop_config.ini"@, false),
            ("MinHook.x64.dll"@, false),
            ("winhttp.dll"@, false),
            ("ResourceEx"@, true),
        ],
    }
}

/// The views of a target list.
pub open spec fn targets_view(v: Seq<(&'static str, bool)>) -> Seq<(Seq<char>, bool)> {
    v.map_values(|t: (&'static str, bool)| (t.0@, t.1))
}

impl UninstallMode {
    /// What this mode removes, in the order it is scanned.
    pub fn get_targets(&self) -> (r: Vec<(&'static str, bool)>)
        ensures
            targets_view(r@) == mode_targets(*self),
    {
        match self {
            UninstallMode::Light => {
                let r = vec![
                    ("BepInEx/plugins/MetaMystia-*.dll", false),
                    ("ResourceEx/ResourceExample-*.zip", false),
                ];
                assert(targets_view(r@) =~= mode_targets(*self));
                r
            },
            UninstallMode::Full => {
                let r = vec![
                    ("BepInEx", true),
                    (".doorstop_version", false),
                    ("changelog.txt", false),
                    ("doorstop_config.ini", false),
                    ("MinHook.x64.dll", false),
                    ("winhttp.dll", false),
                    ("ResourceEx", true),
                ];
                assert(targets_view(r@) =~= mode_targets(*self));
                r
            },
        }
    }

    /// A sentence for the user describing the mode.
    pub fn description(&self) -> (r: &'static str)
        ensures
            *self == UninstallMode::Light ==> r@ == "仅移除 MetaMystia 相关文件（保留 BepInEx 框架和其他 Mod 相关文件）"@,
            *self == UninstallMode::Full ==> r@ == "移除所有和 Mod 有关的文件（还原为原版游戏）"@,
    {
        match self {
            UninstallMode::Light => "仅移除 MetaMystia 相关文件（保留 BepInEx 框架和其他 Mod 相关文件）",
            UninstallMode::Full => "移除所有和 Mod 有关的文件（还原为原版游戏）",
        }
    }
}

/// Retry budget for network operations: few, short waits.
pub type NetworkRetryConfig = RetryPolicy;

/// Retry budget for deleting files that another program holds open: longer
/// waits, so that the program can let go.
pub type UninstallRetryConfig = RetryPolicy;

/// Three tries, waiting 5 s doubling up to 15 s.
pub fn network_retry_config() -> (r: NetworkRetryConfig)
    ensures
        r == (RetryPolicy { attempts: 3, base_delay_secs: 5, multiplier: 2, max_delay_secs: 15 }),
{
    RetryPolicy { attempts: 3, base_delay_secs: 5, multiplier: 2, max_delay_secs: 15 }
}

/// Three tries, waiting 10 s doubling up to 60 s.
pub fn uninstall_retry_config() -> (r: UninstallRetryConfig)
    ensures
        r == (RetryPolicy { attempts: 3, base_delay_secs: 10, multiplier: 2, max_delay_secs: 60 }),
{
    RetryPolicy { attempts: 3, base_delay_secs: 10, multiplier: 2, max_delay_secs: 60 }
}

} // verus!
