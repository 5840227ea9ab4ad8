//! The `config` command: which diagnostic to show, and how the flags given
//! to it combine with those of the surrounding invocation.

use vstd::prelude::*;

use std::path::PathBuf;

use crate::config_report::{layers_report, layers_report_lines, WarningsSummary};
use crate::config_warnings::ConfigLayerStack;
use crate::sorted_keys::string_views;

verus! {

#[verifier::external_type_specification]
#[verifier::external_body]
pub struct ExPathBuf(PathBuf);

/// The diagnostics that the `config` command can show.
#[derive(Debug, Clone, Copy, PartialEq, Eq, Structural)]
pub enum ConfigSubcommand {
    /// Show configuration layers (highest precedence first).
    Layers,
    /// Show deprecated keys and unknown feature warnings.
    Warnings,
}

/// The settings of the invocation that runs the `config` command.
#[derive(Debug, Clone)]
pub struct ConfigContext {
    pub config_profile: Option<String>,
    pub cwd: Option<PathBuf>,
    pub web_search: bool,
}

/// What the configuration is loaded with.
#[derive(Debug)]
pub struct ConfigRequest {
    /// The profile to load.
    pub config_profile: Option<String>,
    /// The directory whose project layers are loaded.
    pub cwd: Option<PathBuf>,
    /// Whether `web_search = "live"` is added to the command-line overrides.
    pub force_live_web_search: bool,
}

impl ConfigContext {
    /// Combines the flags given to the `config` command with the context:
    /// a profile or directory given to the command wins over the context's.
    pub fn resolve(self, config_profile: Option<String>, cwd: Option<PathBuf>) -> (res:
        ConfigRequest)
        ensures
            res.config_profile == (if config_profile is Some {
                config_profile
            } else {
                self.config_profile
            }),
            res.cwd == (if cwd is Some {
                cwd
            } else {
                self.cwd
            }),
            res.force_live_web_search == self.web_search,
    {
        let config_profile = match config_profile {
            Some(p) => Some(p),
            None => self.config_profile,
        };
        let cwd = match cwd {
            Some(d) => Some(d),
            None => self.cwd,
        };
        ConfigRequest { config_profile, cwd, force_live_web_search: self.web_search }
    }
}

/// The lines that the subcommand prints for a loaded configuration, given
/// the active profile, the working directory and the known feature keys.
pub fn report_lines(
    subcommand: ConfigSubcommand,
    config_layer_stack: &ConfigLayerStack,
    known_features: &Vec<String>,
    profile: Option<&str>,
    cwd: &str,
) -> (res: Vec<String>)
    ensures
        subcommand == ConfigSubcommand::Layers ==> string_views(res@) == layers_report(
            config_layer_stack.layers@,
            match profile {
                Some(p) => Some(p@),
                None => None,
            },
            cwd@,
        ),
        subcommand == ConfigSubcommand::Warnings ==> exists|summary: WarningsSummary|
            #![auto]
            summary.matches_stack(*config_layer_stack, known_features@) && string_views(res@)
                == summary.report(
                match profile {
                    Some(p) => Some(p@),
                    None => None,
                },
                cwd@,
            ),
{
    match subcommand {
        ConfigSubcommand::Layers => layers_report_lines(config_layer_stack, profile, cwd),
        ConfigSubcommand::Warnings => {
            let summary = WarningsSummary::new(config_layer_stack, known_features);
            summary.report_lines(profile, cwd)
        },
    }
}

} // verus!
