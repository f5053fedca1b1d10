//! # MiniUPnP
//!
//! The data that the miniupnpc client library reports about the UPnP
//! devices and Internet Gateway Devices (IGD) of the local network, and the
//! decisions taken on its raw answers.

pub mod commands;

use vstd::prelude::*;

verus! {

/// MiniUPnP API version.
pub fn api_version() -> (r: u32)
    ensures
        r == 17,
{
    17
}

/// MiniUPnP version.
pub fn version() -> (r: &'static str)
    ensures
        r@ == "2.1"@,
{
    "2.1"
}

/// Local port code that lets the OS pick the source port.
pub const UPNP_LOCAL_PORT_ANY: i32 = 0;

/// Local port code that uses the destination port (1900) as source port.
pub const UPNP_LOCAL_PORT_SAME: i32 = 1;

/// Port of SSDP, taken when the LAN address that a gateway reports has
/// none.
pub const SSDP_PORT: u16 = 1900;

/// MiniUPnP library errors, by their code.
pub struct Error(pub i32);

/// The local (source) port of discovery.
pub enum LocalPort {
    /// The OS assigns the source port
    Any,
    /// Uses the same destination port (1900).
    Same,
    /// Other local port.
    Other(u16),
}

impl LocalPort {
    /// The code that the library takes for this choice.
    pub fn to_raw(&self) -> (r: i32)
        ensures
            match self {
                LocalPort::Any => r == UPNP_LOCAL_PORT_ANY,
                LocalPort::Same => r == UPNP_LOCAL_PORT_SAME,
                LocalPort::Other(v) => r == *v as i32,
            },
    {
        match self {
            LocalPort::Any => UPNP_LOCAL_PORT_ANY,
            LocalPort::Same => UPNP_LOCAL_PORT_SAME,
            LocalPort::Other(v) => *v as i32,
        }
    }
}

/// Single UPnP device.
pub struct Device {
    desc_url: String,
    scope_id: u32,
}

impl Device {
    /// A device with the given description URL and scope id.
    pub fn new(desc_url: String, scope_id: u32) -> (r: Device)
        ensures
            r.spec_desc_url() == desc_url@,
            r.spec_scope_id() == scope_id,
    {
        Device { desc_url, scope_id }
    }

    pub closed spec fn spec_desc_url(&self) -> Seq<char> {
        self.desc_url@
    }

    pub closed spec fn spec_scope_id(&self) -> u32 {
        self.scope_id
    }

    /// Description URL.
    pub fn desc_url(&self) -> (r: &str)
        ensures
            r@ == self.spec_desc_url(),
    {
        self.desc_url.as_str()
    }

    /// Returns the scope ID associated with this device.
    pub fn scope_id(&self) -> (r: u32)
        ensures
            r == self.spec_scope_id(),
    {
        self.scope_id
    }
}

/// UPnP discovered devices list.
pub struct DeviceList {
    devices: Vec<Device>,
}

impl DeviceList {
    /// A list of the given devices, in discovery order.
    pub fn from_devices(devices: Vec<Device>) -> (r: DeviceList)
        ensures
            r.devices() == devices@,
    {
        DeviceList { devices }
    }

    /// The devices, in discovery order.
    pub closed spec fn devices(&self) -> Seq<Device> {
        self.devices@
    }

    /// Returns an iterator over the device list.
    ///
    /// If the list is empty the iterator returns `None` on its first call.
    pub fn iter(&self) -> (r: DeviceListIter<'_>)
        ensures
            r.list() == *self,
            r.position() == 0,
    {
        DeviceListIter { list: self, index: 0 }
    }

    /// Is the device list empty?
    pub fn is_empty(&self) -> (r: bool)
        ensures
            r == (self.devices().len() == 0),
    {
        self.devices.len() == 0
    }
}

/// Iterator over a [`DeviceList`].
pub struct DeviceListIter<'list> {
    list: &'list DeviceList,
    index: usize,
}

impl<'list> DeviceListIter<'list> {
    /// The list iterated over.
    pub closed spec fn list(&self) -> DeviceList {
        *self.list
    }

    /// How many devices were handed out.
    pub closed spec fn position(&self) -> int {
        self.index as int
    }

    /// The next device of the list, in discovery order.
    pub fn next(&mut self) -> (r: Option<&'list Device>)
        ensures
            final(self).list() == old(self).list(),
            old(self).position() < old(self).list().devices().len() ==> r == Some(
                &old(self).list().devices()[old(self).position()],
            ) && final(self).position() == old(self).position() + 1,
            old(self).position() >= old(self).list().devices().len() ==> r is None && final(self).position() == old(self).position(),
    {
        if self.index < self.list.devices.len() {
            let d = &self.list.devices[self.index];
            self.index = self.index + 1;
            Some(d)
        } else {
            None
        }
    }
}

/// IGD service information.
pub struct IgdService {
    pub control_url: String,
    pub event_sub_url: String,
    pub scpd_url: String,
    pub service_type: String,
}

/// UPnP IGD device URLs.
pub struct Urls {
    pub control_url: String,
    pub ipcon_desc_url: String,
    pub control_url_cif: String,
    pub control_url_6fc: String,
    pub root_desc_url: String,
}

/// IGD data.
pub struct IgdData {
    pub cur_elt_name: String,
    pub url_base: String,
    pub presentation_url: String,
    pub level: i32,
    pub cif: IgdService,
    pub first: IgdService,
    pub second: IgdService,
    pub ipv6_fc: IgdService,
    pub tmp: IgdService,
}

impl IgdData {
    /// Nesting level of the parser.
    pub fn level(&self) -> (r: i32)
        ensures
            r == self.level,
    {
        self.level
    }

    /// The WANCommonInterfaceConfig service.
    pub fn cif(&self) -> (r: &IgdService)
        ensures
            *r == self.cif,
    {
        &self.cif
    }

    /// The first WAN connection service.
    pub fn first(&self) -> (r: &IgdService)
        ensures
            *r == self.first,
    {
        &self.first
    }

    /// The second WAN connection service.
    pub fn second(&self) -> (r: &IgdService)
        ensures
            *r == self.second,
    {
        &self.second
    }

    /// The WANIPv6FirewallControl service.
    pub fn ipv6_fc(&self) -> (r: &IgdService)
        ensures
            *r == self.ipv6_fc,
    {
        &self.ipv6_fc
    }

    /// The service being parsed.
    pub fn tmp(&self) -> (r: &IgdService)
        ensures
            *r == self.tmp,
    {
        &self.tmp
    }
}

/// Information about a valid IGD.
pub struct ValidIgd {
    pub urls: Urls,
    pub data: Option<IgdData>,
    pub lan_address: ([u8; 4], u16),
    pub connected: bool,
}

/// What a status code of `UPNP_GetValidIGD` tells: `None` when no IGD was
/// found, else whether the device is an IGD and whether it is connected.
pub open spec fn igd_status_of(code: i32) -> Option<(bool, bool)> {
    if code == 0 {
        None
    } else if code == 1 {
        Some((true, true))
    } else if code == 2 {
        Some((true, false))
    } else {
        Some((false, false))
    }
}

/// Reads a status code of `UPNP_GetValidIGD`: 0 means that no IGD was
/// found, 1 a connected IGD, 2 an IGD that is not connected, and 3 a UPnP
/// device that is not an IGD.
pub fn igd_status(code: i32) -> (r: Option<(bool, bool)>)
    requires
        0 <= code <= 3,
    ensures
        r == igd_status_of(code),
{
    if code == 0 {
        None
    } else if code == 1 {
        Some((true, true))
    } else if code == 2 {
        Some((true, false))
    } else {
        Some((false, false))
    }
}

/// The LAN address of a gateway answer. The answer must be a bare IPv4
/// address (reading it as one is never allowed to fail), which is then
/// taken with the SSDP port: such text never reads as a socket address.
pub fn lan_address(socket: Option<([u8; 4], u16)>, ip: Option<[u8; 4]>) -> (r: ([u8; 4], u16))
    requires
        socket is None,
        ip is Some,
    ensures
        r == (ip->0, SSDP_PORT),
{
    (ip.unwrap(), SSDP_PORT)
}

/// The valid IGD that an answer of `UPNP_GetValidIGD` describes: `None`
/// for the code 0 (no IGD found); else the device's URLs and LAN address,
/// its IGD data only when it is an IGD (codes 1 and 2), and whether it is
/// connected (code 1). `socket` and `ip` are the LAN address text read as a
/// socket address and as a bare IPv4 address.
pub fn igd_from_answer(
    code: i32,
    urls: Urls,
    data: IgdData,
    socket: Option<([u8; 4], u16)>,
    ip: Option<[u8; 4]>,
) -> (r: Option<ValidIgd>)
    requires
        0 <= code <= 3,
        code != 0 ==> socket is None && ip is Some,
    ensures
        r is None <==> code == 0,
        r matches Some(v) ==> {
            &&& v.urls == urls
            &&& v.lan_address == (ip->0, SSDP_PORT)
            &&& v.connected == (code == 1)
            &&& (code == 1 || code == 2) ==> v.data == Some(data)
            &&& code == 3 ==> v.data is None
        },
{
    match igd_status(code) {
        None => None,
        Some((is_igd, connected)) => {
            let data = if is_igd {
                Some(data)
            } else {
                None
            };
            Some(ValidIgd { urls, data, lan_address: lan_address(socket, ip), connected })
        },
    }
}

} // verus!
