//! GPU selection settings.

use vstd::prelude::*;

verus! {

/// Which GPU to use, by vendor, name, index or explicit path.
#[derive(Debug)]
pub struct DeviceArgs {
    /// GPU vendor filter, such as `intel`.
    pub gpu_vendor: String,
    /// GPU name filter, such as `a770`.
    pub gpu_name: String,
    /// Index among equal candidates; negative selects automatically.
    pub gpu_index: i32,
    /// Explicit card or render path, overriding the filters.
    pub gpu_card_path: String,
}


/// The lines the device settings print as.
pub open spec fn spec_device_args_lines(d: DeviceArgs) -> Seq<Seq<char>> {
    seq![
        "DeviceArgs:"@,
        "> gpu_vendor: '"@ + d.gpu_vendor@ + "'"@,
        "> gpu_name: '"@ + d.gpu_name@ + "'"@,
        "> gpu_index: "@ + crate::json::spec_int_chars(d.gpu_index as int),
        "> gpu_card_path: '"@ + d.gpu_card_path@ + "'"@,
    ]
}

impl DeviceArgs {
    /// The settings as display lines; the driver prints them.
    pub fn debug_print(&self) -> (r: Vec<String>)
        ensures
            r@.len() == spec_device_args_lines(*self).len(),
            forall|i: int|
                0 <= i < r@.len() ==> (#[trigger] r@[i])@ == spec_device_args_lines(*self)[i],
    {
        let mut r: Vec<String> = Vec::new();
        r.push(<String as vstd::string::StringExecFns>::from_str("DeviceArgs:"));
        let mut l = <String as vstd::string::StringExecFns>::from_str("> gpu_vendor: '");
        l.append(self.gpu_vendor.as_str());
        l.append("'");
        r.push(l);
        let mut l = <String as vstd::string::StringExecFns>::from_str("> gpu_name: '");
        l.append(self.gpu_name.as_str());
        l.append("'");
        r.push(l);
        let mut l = <String as vstd::string::StringExecFns>::from_str("> gpu_index: ");
        let ix = crate::json::i64_to_string(self.gpu_index as i64);
        l.append(ix.as_str());
        r.push(l);
        let mut l = <String as vstd::string::StringExecFns>::from_str("> gpu_card_path: '");
        l.append(self.gpu_card_path.as_str());
        l.append("'");
        r.push(l);
        r
    }
}

} // verus!
