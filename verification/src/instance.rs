//! Which vendor's driver serves the GPU.

use crate::text::{contains_text, str_contains};
use vstd::prelude::*;

verus! {

/// The vendor of a GPU.
#[derive(Debug, Clone, Copy, PartialEq, Eq, Structural)]
pub enum GpuType {
    Amd,
    Nvidia,
    Intel,
}

impl GpuType {
    /// The vendor that a list of loaded kernel modules points to: NVIDIA
    /// where the text `nvidia` occurs in it, else AMD where `amdgpu` does,
    /// else none.
    pub open spec fn spec_detect(modules: Seq<char>) -> Option<GpuType> {
        if contains_text(modules, "nvidia"@) {
            Some(GpuType::Nvidia)
        } else if contains_text(modules, "amdgpu"@) {
            Some(GpuType::Amd)
        } else {
            None
        }
    }

    /// The vendor that the list of loaded kernel modules points to.
    pub fn detect(modules: &str) -> (r: Option<GpuType>)
        ensures
            r == Self::spec_detect(modules@),
    {
        if str_contains(modules, "nvidia") {
            Some(GpuType::Nvidia)
        } else if str_contains(modules, "amdgpu") {
            Some(GpuType::Amd)
        } else {
            None
        }
    }
}

} // verus!
