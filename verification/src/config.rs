//! What the user configures: the polling interval and the two templates.

pub mod structs;

use crate::config::structs::ConfigFile;
use crate::formatter::prune::{lemma_pruned_template_parses, prune_template, spec_prune};
use crate::formatter::{chunk_views, spec_parse, ChunkView, State};
use crate::gpu_status::fields::{ParseFailure, UnitParseError};
use crate::gpu_status::GpuStatusData;
use vstd::prelude::*;
use vstd::string::*;

verus! {

/// The template of the status-bar label where the user sets none.
pub const DEFAULT_TEXT_FORMAT: &'static str = "{gpu_utilization}%|{mem_utilization}%";

/// The template of the status-bar label where the user sets none and does
/// not want the memory utilization shown.
pub const DEFAULT_TEXT_FORMAT_NO_MEMORY: &'static str = "{gpu_utilization}%";

/// The template of the tooltip where the user sets none: one line for each
/// metric.
pub const DEFAULT_TOOLTIP_FORMAT: &'static str =
    "GPU: {gpu_utilization}%\nMEM USED: {mem_used:MiB.0}/{mem_total:MiB.0} MiB ({mem_utilization}%)\nMEM R/W: {mem_rw}%\nDEC: {decoder_utilization}%\nENC: {encoder_utilization}%\nRENDER: {render_utilization}%\nVIDEO: {video_utilization}%\nTEMP: {temperature:c.0}°C\nPOWER: {power:w.1}W\nPSTATE: {p_state}\nPLEVEL: {p_level}\nFAN SPEED: {fan_speed}%\nTX: {tx:MiB.1} MiB/s\nRX: {rx:MiB.1} MiB/s\n";

/// The template in use: the user's own where there is one, as it is; else the
/// default with the lines left out that name what the device does not have.
pub open spec fn spec_template(custom: Option<String>, default: Seq<char>, data: GpuStatusData) -> Seq<char> {
    match custom {
        Some(c) => c@,
        None => spec_prune(default, data),
    }
}

/// The template in use: the user's own where there is one, else the default
/// tailored to the device that `data` was read from.
pub fn resolve_template(custom: &Option<String>, default: &str, data: &GpuStatusData) -> (r: String)
    ensures
        r@ == spec_template(*custom, default@, *data),
{
    match custom {
        Some(c) => c.clone(),
        None => prune_template(default, data),
    }
}

/// Whether an outcome is the state for the template `template`.
pub open spec fn state_result_is(r: Result<State, UnitParseError>, template: Seq<char>) -> bool {
    match r {
        Ok(state) => spec_parse(template) == Ok::<Seq<ChunkView>, ParseFailure>(
            chunk_views(state.chunks@),
        ) && state.buffer@ == Seq::<char>::empty(),
        Err(e) => spec_parse(template) == Err::<Seq<ChunkView>, ParseFailure>(e@),
    }
}

impl ConfigFile {
    /// The template of the status-bar label: the user's own where there is
    /// one, else the default, with or without the memory utilization.
    pub open spec fn text_template(self) -> Seq<char> {
        match self.text.format {
            Some(f) => f@,
            None => if self.text.show_memory {
                DEFAULT_TEXT_FORMAT@
            } else {
                DEFAULT_TEXT_FORMAT_NO_MEMORY@
            },
        }
    }

    /// The state for the status-bar label. A template that names no field
    /// somewhere is an error.
    pub fn text_state(&self) -> (r: Result<State, UnitParseError>)
        ensures
            state_result_is(r, self.text_template()),
    {
        match &self.text.format {
            Some(f) => State::try_from_format(f.as_str()),
            None => if self.text.show_memory {
                State::try_from_format(DEFAULT_TEXT_FORMAT)
            } else {
                State::try_from_format(DEFAULT_TEXT_FORMAT_NO_MEMORY)
            },
        }
    }

    /// The state for the tooltip: for the user's template where there is
    /// one, else for the default tailored to the device that `data` was read
    /// from. A template of the user's that names no field somewhere is an
    /// error; the tailored default never is.
    pub fn tooltip_state(&self, data: &GpuStatusData) -> (r: Result<State, UnitParseError>)
        ensures
            state_result_is(r, spec_template(self.tooltip.format, DEFAULT_TOOLTIP_FORMAT@, *data)),
            self.tooltip.format.is_none() ==> r.is_ok(),
    {
        proof {
            lemma_pruned_template_parses(DEFAULT_TOOLTIP_FORMAT@, *data);
        }
        let template = resolve_template(&self.tooltip.format, DEFAULT_TOOLTIP_FORMAT, data);
        State::try_from_format(template.as_str())
    }
}

} // verus!
