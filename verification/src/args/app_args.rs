//! General application settings.

use vstd::prelude::*;

verus! {

/// Application-level settings.
#[derive(Debug)]
pub struct AppArgs {
    /// Verbose output mode.
    pub verbose: bool,
    /// Additional debugging features; may affect performance.
    pub debug: bool,
    /// Virtual display resolution, width by height.
    pub resolution: (u32, u32),
    /// Virtual display framerate.
    pub framerate: u32,
    /// Relay URL.
    pub relay_url: String,
    /// Room name the stream is announced under.
    pub room: String,
    /// Experimental DMA-BUF support.
    pub dma_buf: bool,
}


/// The text of a flag.
pub open spec fn spec_bool_text(b: bool) -> Seq<char> {
    if b {
        "true"@
    } else {
        "false"@
    }
}

pub(crate) fn bool_str(b: bool) -> (r: &'static str)
    ensures
        r@ == spec_bool_text(b),
{
    if b {
        "true"
    } else {
        "false"
    }
}

/// The lines the application settings print as.
pub open spec fn spec_app_args_lines(a: AppArgs) -> Seq<Seq<char>> {
    seq![
        "AppArgs:"@,
        "> verbose: "@ + spec_bool_text(a.verbose),
        "> debug: "@ + spec_bool_text(a.debug),
        "> resolution: '"@ + crate::json::spec_nat_chars(a.resolution.0 as int) + "x"@
            + crate::json::spec_nat_chars(a.resolution.1 as int) + "'"@,
        "> framerate: "@ + crate::json::spec_nat_chars(a.framerate as int),
        "> relay_url: '"@ + a.relay_url@ + "'"@,
        "> room: '"@ + a.room@ + "'"@,
        "> dma_buf: "@ + spec_bool_text(a.dma_buf),
    ]
}

impl AppArgs {
    /// The settings as display lines; the driver prints them.
    pub fn debug_print(&self) -> (r: Vec<String>)
        ensures
            r@.len() == spec_app_args_lines(*self).len(),
            forall|i: int|
                0 <= i < r@.len() ==> (#[trigger] r@[i])@ == spec_app_args_lines(*self)[i],
    {
        let mut r: Vec<String> = Vec::new();
        r.push(<String as vstd::string::StringExecFns>::from_str("AppArgs:"));
        let mut l = <String as vstd::string::StringExecFns>::from_str("> verbose: ");
        l.append(bool_str(self.verbose));
        r.push(l);
        let mut l = <String as vstd::string::StringExecFns>::from_str("> debug: ");
        l.append(bool_str(self.debug));
        r.push(l);
        let mut l = <String as vstd::string::StringExecFns>::from_str("> resolution: '");
        let w = crate::json::u32_to_string(self.resolution.0);
        l.append(w.as_str());
        l.append("x");
        let h = crate::json::u32_to_string(self.resolution.1);
        l.append(h.as_str());
        l.append("'");
        r.push(l);
        let mut l = <String as vstd::string::StringExecFns>::from_str("> framerate: ");
        let f = crate::json::u32_to_string(self.framerate);
        l.append(f.as_str());
        r.push(l);
        let mut l = <String as vstd::string::StringExecFns>::from_str("> relay_url: '");
        l.append(self.relay_url.as_str());
        l.append("'");
        r.push(l);
        let mut l = <String as vstd::string::StringExecFns>::from_str("> room: '");
        l.append(self.room.as_str());
        l.append("'");
        r.push(l);
        let mut l = <String as vstd::string::StringExecFns>::from_str("> dma_buf: ");
        l.append(bool_str(self.dma_buf));
        r.push(l);
        r
    }
}

} // verus!
