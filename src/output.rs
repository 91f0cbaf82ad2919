//! Where narrative output goes.
use vstd::prelude::*;

verus! {

/// In machine mode only the essential value goes to standard output and
/// all narrative text goes to standard error.
pub struct OutputSettings {
    pub machine: bool,
}

impl OutputSettings {
    pub fn new() -> (r: OutputSettings)
        ensures
            !r.machine,
    {
        OutputSettings { machine: false }
    }

    pub fn set_machine_output(&mut self, enabled: bool)
        ensures
            final(self).machine == enabled,
    {
        self.machine = enabled;
    }

    pub fn is_machine_output(&self) -> (r: bool)
        ensures
            r == self.machine,
    {
        self.machine
    }
}

/// Colour stays on unless `NO_COLOR` is set or `CLICOLOR` is `0`.
pub fn should_use_color(no_color_set: bool, clicolor: Option<&str>) -> (r: bool)
    ensures
        r == !(no_color_set || (clicolor matches Some(v) && v@ == "0"@)),
{
    if no_color_set {
        return false;
    }
    match clicolor {
        Some(v) => !crate::text::str_eq(v, "0"),
        None => true,
    }
}

} // verus!
