//! The records of the system profiler's report that the display needs, and
//! the labels made from them.

use vstd::prelude::*;
use crate::text::{same_text, strip_prefix};

verus! {

/// The report on the displays.
#[derive(Clone, Debug)]
pub struct Root {
    pub gpus: Vec<GpuEntry>,
}

/// One GPU of the report on the displays.
#[derive(Clone, Debug)]
pub struct GpuEntry {
    pub name: String,
    pub sppci_bus: String,
    pub sppci_cores: String,
    pub spdisplays_mtlgpufamilysupport: String,
}

/// The report on the software.
#[derive(Clone, Debug)]
pub struct SysProf {
    pub system: Vec<SysVersion>,
}

/// The operating system of the report on the software.
#[derive(Clone, Debug)]
pub struct SysVersion {
    pub os_version: String,
}

/// `s` without `prefix` at its front; `s` itself where it does not begin
/// with `prefix`.
pub open spec fn without_prefix(s: Seq<char>, prefix: Seq<char>) -> Seq<char> {
    if prefix.is_prefix_of(s) {
        s.skip(prefix.len() as int)
    } else {
        s
    }
}

/// Cuts `prefix` off `s` where `s` begins with it.
fn cut_prefix<'a>(s: &'a str, prefix: &str) -> (r: &'a str)
    ensures
        r@ == without_prefix(s@, prefix@),
{
    match strip_prefix(s, prefix) {
        Some(rest) => {
            assert(rest@ =~= s@.skip(prefix@.len() as int));
            assert(prefix@ =~= s@.subrange(0, prefix@.len() as int));
            rest
        },
        None => s,
    }
}

impl GpuEntry {
    /// The bus as shown: `Built-in` for the profiler's word for a built-in
    /// GPU, the profiler's word otherwise.
    pub fn bus_label(&self) -> (r: &str)
        ensures
            r@ == if self.sppci_bus@ == "spdisplays_builtin"@ {
                "Built-in"@
            } else {
                self.sppci_bus@
            },
    {
        if same_text(self.sppci_bus.as_str(), "spdisplays_builtin") {
            "Built-in"
        } else {
            self.sppci_bus.as_str()
        }
    }

    /// The Metal family as shown: the profiler's word without its prefix
    /// `spdisplays_metal`.
    pub fn metal_lable(&self) -> (r: &str)
        ensures
            r@ == without_prefix(self.spdisplays_mtlgpufamilysupport@, "spdisplays_metal"@),
    {
        cut_prefix(self.spdisplays_mtlgpufamilysupport.as_str(), "spdisplays_metal")
    }
}

impl SysVersion {
    /// The version as shown: the profiler's words without `macOS ` at their
    /// front.
    pub fn os_version_label(&self) -> (r: &str)
        ensures
            r@ == without_prefix(self.os_version@, "macOS "@),
    {
        cut_prefix(self.os_version.as_str(), "macOS ")
    }
}

impl Root {
    /// The Metal family of the first GPU, as shown; empty where the report
    /// names no GPU.
    pub fn metal_label(&self) -> (r: &str)
        ensures
            r@ == if self.gpus@.len() > 0 {
                without_prefix(self.gpus@[0].spdisplays_mtlgpufamilysupport@, "spdisplays_metal"@)
            } else {
                Seq::<char>::empty()
            },
    {
        if self.gpus.len() > 0 {
            self.gpus[0].metal_lable()
        } else {
            proof {
                reveal_strlit("");
            }
            ""
        }
    }
}

impl SysProf {
    /// The version of the first system, as shown; empty where the report
    /// names no system.
    pub fn os_label(&self) -> (r: &str)
        ensures
            r@ == if self.system@.len() > 0 {
                without_prefix(self.system@[0].os_version@, "macOS "@)
            } else {
                Seq::<char>::empty()
            },
    {
        if self.system.len() > 0 {
            self.system[0].os_version_label()
        } else {
            proof {
                reveal_strlit("");
            }
            ""
        }
    }
}

} // verus!
