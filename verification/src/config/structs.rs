//! The shape of the configuration file and of the command line.

use vstd::prelude::*;

verus! {

/// The configuration file.
#[derive(Debug, Clone, Default)]
pub struct ConfigFile {
    pub general: GeneralConfig,
    pub text: TextConfig,
    pub tooltip: TooltipConfig,
}

/// The status-bar label.
#[derive(Debug, Clone)]
pub struct TextConfig {
    /// Whether the default label shows the memory utilization.
    pub show_memory: bool,
    /// The template; none asks for the default.
    pub format: Option<String>,
}

impl Default for TextConfig {
    fn default() -> (r: TextConfig)
        ensures
            r.show_memory,
            r.format.is_none(),
    {
        TextConfig { show_memory: true, format: None }
    }
}

/// The tooltip.
#[derive(Debug, Clone, Default)]
pub struct TooltipConfig {
    /// The template; none asks for the default, tailored to the device.
    pub format: Option<String>,
}

#[derive(Debug, Clone)]
pub struct GeneralConfig {
    /// Polling interval in milliseconds.
    pub interval: u64,
}

impl Default for GeneralConfig {
    fn default() -> (r: GeneralConfig)
        ensures
            r.interval == 1000,
    {
        GeneralConfig { interval: 1000 }
    }
}

/// What the command line sets.
#[derive(Debug, Clone, Default)]
pub struct Args {
    /// Whether to leave the memory utilization out of the default label.
    pub text_no_memory: bool,
    /// The template of the status-bar label.
    pub text_format: Option<String>,
    /// The template of the tooltip.
    pub tooltip_format: Option<String>,
    /// Polling interval in milliseconds.
    pub interval: Option<u64>,
}

impl ConfigFile {
    /// Lets the command line overrule the file: what `args` sets replaces
    /// what the file holds, and the rest stays.
    pub fn merge_args_into_config(&mut self, args: &Args)
        ensures
            final(self).text.show_memory == (old(self).text.show_memory && !args.text_no_memory),
            final(self).text.format == (match args.text_format {
                Some(f) => Some(f),
                None => old(self).text.format,
            }),
            final(self).tooltip.format == (match args.tooltip_format {
                Some(f) => Some(f),
                None => old(self).tooltip.format,
            }),
            final(self).general.interval == (match args.interval {
                Some(i) => i,
                None => old(self).general.interval,
            }),
    {
        if args.text_no_memory {
            self.text.show_memory = false;
        }
        if let Some(format) = &args.text_format {
            self.text.format = Some(format.clone());
        }
        if let Some(format) = &args.tooltip_format {
            self.tooltip.format = Some(format.clone());
        }
        if let Some(interval) = args.interval {
            self.general.interval = interval;
        }
    }
}

} // verus!
