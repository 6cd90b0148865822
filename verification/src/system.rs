//! What the machine offers: its processors, and from them the default concurrency.

use crate::encoder::{detect_hardware_encoders, detected_encoders};
use vstd::prelude::*;

verus! {

/// What is known of the machine and its tools.
#[derive(Debug)]
pub struct SystemInfo {
    pub ffmpeg_available: bool,
    pub ffprobe_available: bool,
    pub hardware_encoders: Vec<String>,
    pub max_concurrent_jobs: usize,
    pub cpu_cores: usize,
}

/// The default concurrency on a machine with this many logical processors: a quarter of
/// them, and at least one. Encodes are heavy; the default leaves processors free on purpose.
pub open spec fn concurrency_for(cores: usize) -> usize {
    if cores / 4 >= 1 {
        cores / 4
    } else {
        1
    }
}

/// Computes [`concurrency_for`].
pub fn max_concurrent_for(cores: usize) -> (n: usize)
    ensures
        n == concurrency_for(cores),
        n >= 1,
{
    let quarter: usize = cores / 4;
    if quarter >= 1 {
        quarter
    } else {
        1
    }
}

/// Trusted: `num_cpus::get` of the `num_cpus` crate, the number of logical processors that
/// this process may use. The crate documents that it is at least 1; which number it is
/// depends on the machine and is left open.
#[verifier::external_body]
fn cpu_count() -> (n: usize)
    ensures
        n >= 1,
{
    num_cpus::get()
}

/// The default concurrency on this machine.
pub fn calculate_max_concurrent() -> (n: usize)
    ensures
        n >= 1,
        exists|cores: usize| cores >= 1 && n == #[trigger] concurrency_for(cores),
{
    let cores = cpu_count();
    max_concurrent_for(cores)
}

/// Gathers what is known of the machine: whether the two tools answered, the hardware
/// encoders that the transcoder's list of encoders mentions, the processors and the default
/// concurrency that follows from them.
pub fn get_system_info(ffmpeg_available: bool, ffprobe_available: bool, encoder_listing: &str) -> (info:
    SystemInfo)
    ensures
        info.ffmpeg_available == ffmpeg_available,
        info.ffprobe_available == ffprobe_available,
        info.hardware_encoders.deep_view() == detected_encoders(encoder_listing@),
        info.cpu_cores >= 1,
        info.max_concurrent_jobs == concurrency_for(info.cpu_cores),
{
    let cores = cpu_count();
    SystemInfo {
        ffmpeg_available,
        ffprobe_available,
        hardware_encoders: detect_hardware_encoders(encoder_listing),
        max_concurrent_jobs: max_concurrent_for(cores),
        cpu_cores: cores,
    }
}

} // verus!
