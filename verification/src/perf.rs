use vstd::prelude::*;
use vstd::string::StringExecFns;

verus! {

/// The suffix of the names of performance tests.
pub const SUF_NORMAL: &'static str = "_pf_test";

/// The suffix of the names of their metadata functions.
pub const SUF_MDATA: &'static str = "_pf_meta";

/// The weight of a test that names none.
pub const WEIGHT_DEFAULT: i32 = 50;

/// The prefix of a metadata line.
pub const MDATA_LINE_PREF: &'static str = "!#!";

/// The metadata line that gives the iteration count.
pub const ITER_COUNT_LINE_NAME: &'static str = "iterations";

/// The metadata line that gives the weight.
pub const WEIGHT_LINE_NAME: &'static str = "weight";

/// The metadata line that gives the importance.
pub const IMPORTANCE_LINE_NAME: &'static str = "importance";

/// The metadata line that gives the format version.
pub const VERSION_LINE_NAME: &'static str = "version";

/// The version of the metadata format.
pub const MDATA_VER: i32 = 1;

/// The environment variable that sets the iteration count.
pub const ITER_ENV_VAR: &'static str = "PERF_ITER";

/// How much a performance test matters.
#[derive(Debug, Clone, Copy, PartialEq, Eq, Structural)]
pub enum Importance {
    Critical,
    Important,
    Average,
    Iffy,
    Fluff,
}

impl Default for Importance {
    fn default() -> (r: Importance)
        ensures
            r == Importance::Average,
    {
        Importance::Average
    }
}

/// The name of an importance level as it is written out.
pub open spec fn importance_name(i: Importance) -> Seq<char> {
    match i {
        Importance::Critical => "critical"@,
        Importance::Important => "important"@,
        Importance::Average => "average"@,
        Importance::Iffy => "iffy"@,
        Importance::Fluff => "fluff"@,
    }
}

impl Importance {
    /// The level as it is written out (`critical`, ..., `fluff`).
    pub fn to_display_string(&self) -> (r: String)
        ensures
            r@ == importance_name(*self),
    {
        match self {
            Importance::Critical => String::from_str("critical"),
            Importance::Important => String::from_str("important"),
            Importance::Average => String::from_str("average"),
            Importance::Iffy => String::from_str("iffy"),
            Importance::Fluff => String::from_str("fluff"),
        }
    }
}

} // verus!
