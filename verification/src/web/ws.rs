//! Notifications pushed to the web page, the size limit on messages from
//! it, and the ends of the sessions of the devices under control.

use vstd::prelude::*;

verus! {

/// A device under control, as the page lists it.
#[derive(Debug)]
pub struct ScrcpyDevice {
    pub device_id: String,
    pub device_name: String,
    pub scid: String,
    pub main: bool,
    pub device_size: (u32, u32),
    pub socket_ids: Vec<String>,
}

/// A notification pushed to the web page.
#[derive(Debug)]
pub enum WebSocketNotification {
    /// A device turned its screen.
    ScrcpyDeviceRotation { rotation: u16, width: u32, height: u32, scid: String },
    /// A device connected or disconnected.
    ScrcpyDeviceConnection { scid: String, main: bool, connected: bool },
    /// The devices under control.
    ScrcpyDeviceList { devices: Vec<ScrcpyDevice> },
}

/// The largest text message from the page that is read (1 MiB).
pub const MAX_TEXT_MESSAGE: usize = 1_048_576;

/// Whether a text message of `len` bytes from the page is read; longer ones
/// are skipped.
pub fn accepts_text_message(len: usize) -> (b: bool)
    ensures
        b == (len <= MAX_TEXT_MESSAGE),
{
    len <= MAX_TEXT_MESSAGE
}

/// The end of a device's session, as the controller is asked for it: the
/// main device's session or a further one, by session id.
#[derive(Debug, PartialEq, Eq)]
pub enum Shutdown {
    Main(String),
    Sub(String),
}

/// The end of the session of `d`.
pub open spec fn shutdown_of(d: ScrcpyDevice, s: Shutdown) -> bool {
    match s {
        Shutdown::Main(scid) => d.main && scid@ == d.scid@,
        Shutdown::Sub(scid) => !d.main && scid@ == d.scid@,
    }
}

/// The end of the session of `d`.
pub fn shutdown_for(d: &ScrcpyDevice) -> (s: Shutdown)
    ensures
        shutdown_of(*d, s),
{
    if d.main {
        Shutdown::Main(d.scid.clone())
    } else {
        Shutdown::Sub(d.scid.clone())
    }
}

/// When the page's connection closes, every controlled session ends, in the
/// order of the device list.
pub fn shutdowns_on_close(devices: &Vec<ScrcpyDevice>) -> (r: Vec<Shutdown>)
    ensures
        r@.len() == devices@.len(),
        forall|i: int| 0 <= i < devices@.len() ==> shutdown_of(devices@[i], #[trigger] r@[i]),
{
    let mut r: Vec<Shutdown> = Vec::new();
    let mut i: usize = 0;
    while i < devices.len()
        invariant
            i <= devices@.len(),
            r@.len() == i,
            forall|j: int| 0 <= j < i ==> shutdown_of(devices@[j], #[trigger] r@[j]),
        decreases devices@.len() - i,
    {
        r.push(shutdown_for(&devices[i]));
        i = i + 1;
    }
    r
}

} // verus!
