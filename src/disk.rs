//! Block devices of the remote host, as its device listing describes them.

use vstd::prelude::*;

verus! {

/// The text that `Debug` writes for an optional string: `None`, or `Some`
/// around the quoted and escaped string.
pub uninterp spec fn option_debug_of(o: Option<Seq<char>>) -> Seq<char>;

pub open spec fn option_view(o: Option<String>) -> Option<Seq<char>> {
    match o {
        Some(s) => Some(s@),
        None => None,
    }
}

/// Relies on the `Debug` impl of `Option<String>`: the text depends on the
/// value alone, and `None` is written `None`.
#[verifier::external_body]
fn option_debug(o: &Option<String>) -> (r: String)
    ensures
        r@ == option_debug_of(option_view(*o)),
        o is None ==> r@ == "None"@,
{
    format!("{:?}", o)
}

/// `name (size: size / model: model / mountpoint: mountpoint)`, the last two
/// in their `Debug` form.
pub open spec fn device_info(
    name: Seq<char>,
    size: Seq<char>,
    model: Option<Seq<char>>,
    mountpoint: Option<Seq<char>>,
) -> Seq<char> {
    name + " (size: "@ + size + " / model: "@ + option_debug_of(model) + " / mountpoint: "@
        + option_debug_of(mountpoint) + ")"@
}

fn describe(name: &String, size: &String, model: &Option<String>, mountpoint: &Option<String>) -> (r:
    String)
    ensures
        r@ == device_info(name@, size@, option_view(*model), option_view(*mountpoint)),
{
    let mut s = name.clone();
    s.append(" (size: ");
    s.append(size.as_str());
    s.append(" / model: ");
    let m = option_debug(model);
    s.append(m.as_str());
    s.append(" / mountpoint: ");
    let p = option_debug(mountpoint);
    s.append(p.as_str());
    s.append(")");
    s
}

/// The device listing of the remote host.
#[derive(Debug, Clone)]
pub struct DiskDevices {
    pub blockdevices: Vec<DiskDevice>,
}

#[derive(Debug, Clone)]
pub struct DiskDevice {
    pub name: String,
    pub size: String,
    pub model: Option<String>,
    pub mountpoint: Option<String>,
}

impl DiskDevice {
    /// One line describing the device, as offered for selection.
    pub fn get_info(&self) -> (r: String)
        ensures
            r@ == device_info(
                self.name@,
                self.size@,
                option_view(self.model),
                option_view(self.mountpoint),
            ),
    {
        describe(&self.name, &self.size, &self.model, &self.mountpoint)
    }
}

#[derive(Debug, Clone)]
pub struct BlockDevice {
    pub name: String,
    pub size: String,
    pub model: Option<String>,
    pub mountpoint: Option<String>,
}

impl BlockDevice {
    /// One line describing the device, as offered for selection.
    pub fn get_info(&self) -> (r: String)
        ensures
            r@ == device_info(
                self.name@,
                self.size@,
                option_view(self.model),
                option_view(self.mountpoint),
            ),
    {
        describe(&self.name, &self.size, &self.model, &self.mountpoint)
    }
}

/// The device at a position of the listing.
pub fn select_device(devices: &DiskDevices, selection: usize) -> (r: Option<&DiskDevice>)
    ensures
        selection < devices.blockdevices@.len() ==> r == Some(&devices.blockdevices@[selection as int]),
        selection >= devices.blockdevices@.len() ==> r is None,
{
    if selection < devices.blockdevices.len() {
        Some(&devices.blockdevices[selection])
    } else {
        None
    }
}

} // verus!
