//! Resolved run configuration.
//!
//! Command-line and environment parsing happens outside; what the rest
//! of the program reads is the plain data gathered here.

pub mod app_args;
pub mod device_args;
pub mod encoding_args;

use vstd::prelude::*;

verus! {

/// Everything the program was configured with.
#[derive(Debug)]
pub struct Args {
    pub app: app_args::AppArgs,
    pub device: device_args::DeviceArgs,
    pub encoding: encoding_args::EncodingArgs,
}

/// The lines the whole configuration prints as.
pub open spec fn spec_args_lines(a: Args) -> Seq<Seq<char>> {
    app_args::spec_app_args_lines(a.app) + device_args::spec_device_args_lines(a.device)
        + encoding_args::spec_encoding_args_lines(a.encoding)
}

impl Args {
    /// The configuration as display lines; the driver prints them.
    pub fn debug_print(&self) -> (r: Vec<String>)
        ensures
            r@.len() == spec_args_lines(*self).len(),
            forall|i: int| 0 <= i < r@.len() ==> (#[trigger] r@[i])@ == spec_args_lines(*self)[i],
    {
        let mut r = self.app.debug_print();
        let ghost rsnap = r@;
        let mut device = self.device.debug_print();
        let ghost dsnap = device@;
        r.append(&mut device);
        let mut encoding = self.encoding.debug_print();
        let ghost esnap = encoding@;
        r.append(&mut encoding);
        proof {
            let lines = spec_args_lines(*self);
            let al = app_args::spec_app_args_lines(self.app);
            let dl = device_args::spec_device_args_lines(self.device);
            let el = encoding_args::spec_encoding_args_lines(self.encoding);
            assert forall|i: int| 0 <= i < r@.len() implies (#[trigger] r@[i])@ == lines[i] by {
                if i < al.len() {
                    assert(r@[i] == rsnap[i]);
                    assert(lines[i] == al[i]);
                } else if i < al.len() + dl.len() {
                    assert(r@[i] == dsnap[i - al.len()]);
                    assert(lines[i] == dl[i - al.len()]);
                } else {
                    assert(r@[i] == esnap[i - al.len() - dl.len()]);
                    assert(lines[i] == el[i - al.len() - dl.len()]);
                }
            }
        }
        r
    }
}

} // verus!
