use vstd::prelude::*;

verus! {

/// The core that a CPU number reported by the system names; a negative
/// number reports that the system could not tell.
pub fn core_from_cpu(cpu: i32) -> (r: Option<usize>)
    ensures
        cpu >= 0 <==> r is Some,
        r matches Some(c) ==> c == cpu,
{
    if cpu >= 0 {
        Some(cpu as usize)
    } else {
        None
    }
}

/// The core that a processor number reported by the system names;
/// `0xFFFF_FFFF` reports that the system could not tell.
pub fn core_from_processor_number(number: u32) -> (r: Option<usize>)
    ensures
        number != 0xFFFF_FFFFu32 <==> r is Some,
        r matches Some(c) ==> c == number,
{
    if number != 0xFFFF_FFFF {
        Some(number as usize)
    } else {
        None
    }
}

/// The core a thread meant for core `core_id` is pinned to on a machine
/// with `num_cores` cores: ids wrap around the cores there are.
pub fn pin_target_core(core_id: usize, num_cores: usize) -> (r: usize)
    requires
        num_cores > 0,
    ensures
        r == core_id % num_cores,
        r < num_cores,
{
    core_id % num_cores
}

} // verus!
