//! Command-line options and the operation they select.

use crate::config::UninstallMode;
use vstd::prelude::*;

verus! {

/// The uninstall mode as given on the command line.
#[derive(Debug, Clone, Copy, PartialEq, Eq, Structural)]
pub enum UninstallModeArg {
    Light,
    Full,
}

impl From<UninstallModeArg> for UninstallMode {
    fn from(mode: UninstallModeArg) -> (r: UninstallMode) {
        match mode {
            UninstallModeArg::Light => UninstallMode::Light,
            UninstallModeArg::Full => UninstallMode::Full,
        }
    }
}

impl vstd::std_specs::convert::FromSpecImpl<UninstallModeArg> for UninstallMode {
    open spec fn obeys_from_spec() -> bool {
        true
    }

    open spec fn from_spec(mode: UninstallModeArg) -> UninstallMode {
        match mode {
            UninstallModeArg::Light => UninstallMode::Light,
            UninstallModeArg::Full => UninstallMode::Full,
        }
    }
}

/// The parsed command line.
#[derive(Debug, Clone)]
pub struct Cli {
    pub path: Option<String>,
    pub skip_self_update: bool,
    pub quiet: bool,
    pub install: bool,
    pub no_resourceex: bool,
    pub with_bepinex_console: bool,
    pub dll_version: Option<String>,
    pub resourceex_version: Option<String>,
    pub upgrade: bool,
    pub uninstall: bool,
    pub mode: UninstallModeArg,
}

/// Options of an install.
#[derive(Debug, Clone, PartialEq, Eq)]
pub struct InstallConfig {
    pub install_resourceex: bool,
    pub show_bepinex_console: bool,
    pub dll_version: Option<String>,
    pub resourceex_version: Option<String>,
}

/// The operation the command line asks for.
#[derive(Debug, Clone, PartialEq, Eq)]
pub enum CliOperation {
    Install(InstallConfig),
    Upgrade,
    Uninstall(UninstallMode),
}

/// A run driven by the command line.
#[derive(Debug, Clone, PartialEq, Eq)]
pub struct CliConfig {
    pub game_path: Option<String>,
    pub operation: CliOperation,
    pub quiet: bool,
    pub skip_self_update: bool,
}

pub open spec fn opt_view(o: Option<String>) -> Option<Seq<char>> {
    match o {
        Some(s) => Some(s@),
        None => None,
    }
}

fn copy_opt(o: &Option<String>) -> (r: Option<String>)
    ensures
        opt_view(r) == opt_view(*o),
{
    match o {
        Some(s) => Some(s.clone()),
        None => None,
    }
}

impl Cli {
    /// The run the options select: install before upgrade before uninstall;
    /// `None` when no operation is named (the interactive menu runs then).
    pub fn to_config(&self) -> (r: Option<CliConfig>)
        ensures
            r is None <==> !self.install && !self.upgrade && !self.uninstall,
            r is Some ==> {
                let c = r->Some_0;
                &&& opt_view(c.game_path) == opt_view(self.path)
                &&& c.quiet == self.quiet
                &&& c.skip_self_update == self.skip_self_update
                &&& self.install ==> c.operation is Install && {
                    let i = c.operation->Install_0;
                    &&& i.install_resourceex == !self.no_resourceex
                    &&& i.show_bepinex_console == self.with_bepinex_console
                    &&& opt_view(i.dll_version) == opt_view(self.dll_version)
                    &&& opt_view(i.resourceex_version) == opt_view(self.resourceex_version)
                }
                &&& !self.install && self.upgrade ==> c.operation is Upgrade
                &&& !self.install && !self.upgrade ==> c.operation == CliOperation::Uninstall(
                    match self.mode {
                        UninstallModeArg::Light => UninstallMode::Light,
                        UninstallModeArg::Full => UninstallMode::Full,
                    },
                )
            },
    {
        let operation = if self.install {
            CliOperation::Install(InstallConfig {
                install_resourceex: !self.no_resourceex,
                show_bepinex_console: self.with_bepinex_console,
                dll_version: copy_opt(&self.dll_version),
                resourceex_version: copy_opt(&self.resourceex_version),
            })
        } else if self.upgrade {
            CliOperation::Upgrade
        } else if self.uninstall {
            CliOperation::Uninstall(UninstallMode::from(self.mode))
        } else {
            return None;
        };
        Some(CliConfig {
            game_path: copy_opt(&self.path),
            operation,
            quiet: self.quiet,
            skip_self_update: self.skip_self_update,
        })
    }
}

} // verus!
