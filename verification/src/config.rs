//! The settings that survive a restart: the known receivers and how far each picture is shrunk.
use crate::text::{decimal_of, push_decimal, same};
use vstd::prelude::*;

verus! {

/// The strongest shrinking, in percent.
pub const MAX_UNDERSCAN: u8 = 15;

/// A known receiver.
#[derive(Debug, Clone, PartialEq, Eq)]
pub struct Device {
    pub name: String,
    pub model: String,
    /// The receiver's address.
    pub host: String,
    pub port: u16,
    pub device_id: String,
    /// How far the picture is shrunk for this receiver, in percent.
    pub underscan: u8,
}

impl Default for Device {
    fn default() -> (r: Device)
        ensures
            r.name@.len() == 0,
            r.model@.len() == 0,
            r.host@.len() == 0,
            r.port == 0,
            r.device_id@.len() == 0,
            r.underscan == 0,
    {
        Device {
            name: String::new(),
            model: String::new(),
            host: String::new(),
            port: 0,
            device_id: String::new(),
            underscan: 0,
        }
    }
}

/// Host and port in one string.
pub open spec fn address_of(host: Seq<char>, port: u16) -> Seq<char> {
    host.push(':') + decimal_of(port as nat)
}

/// Host and port in one string.
pub fn address(host: &str, port: u16) -> (r: String)
    ensures
        r@ == address_of(host@, port),
{
    let mut out: String = host.to_owned();
    out.push(':');
    push_decimal(&mut out, port as u64);
    out
}

impl Device {
    pub open spec fn spec_addr(self) -> Seq<char> {
        address_of(self.host@, self.port)
    }

    /// Host and port in one string, which names the receiver.
    pub fn addr(&self) -> (r: String)
        ensures
            r@ == self.spec_addr(),
    {
        address(self.host.as_str(), self.port)
    }
}

/// The settings.
#[derive(Debug, Clone)]
pub struct Config {
    /// How far the picture is shrunk for receivers that are not known, in percent.
    pub underscan: u8,
    pub devices: Vec<Device>,
}

impl Default for Config {
    fn default() -> (r: Config)
        ensures
            r.underscan == 0,
            r.devices@.len() == 0,
    {
        Config { underscan: 0, devices: Vec::new() }
    }
}

/// The first device from `i` on with an address.
pub open spec fn device_at(devices: Seq<Device>, addr: Seq<char>, i: int) -> Option<int>
    decreases devices.len() - i,
{
    if i >= devices.len() {
        None
    } else if devices[i].spec_addr() == addr {
        Some(i)
    } else {
        device_at(devices, addr, i + 1)
    }
}

pub open spec fn at_most_max(pct: u8) -> u8 {
    if pct > MAX_UNDERSCAN {
        MAX_UNDERSCAN
    } else {
        pct
    }
}

fn limited(pct: u8) -> (r: u8)
    ensures
        r == at_most_max(pct),
{
    if pct > MAX_UNDERSCAN {
        MAX_UNDERSCAN
    } else {
        pct
    }
}

/// How far the picture is shrunk for an address: as the first device there says, or by the default.
pub open spec fn underscan_at(c: Config, addr: Seq<char>) -> u8 {
    at_most_max(
        match device_at(c.devices@, addr, 0) {
            Some(i) => c.devices@[i].underscan,
            None => c.underscan,
        },
    )
}

/// A device with another shrinking.
pub open spec fn shrunk(d: Device, pct: u8) -> Device {
    Device { underscan: pct, ..d }
}

impl Config {
    fn find(&self, addr: &str) -> (r: Option<usize>)
        ensures
            match device_at(self.devices@, addr@, 0) {
                Some(i) => r matches Some(k) && k == i && i < self.devices@.len(),
                None => r is None,
            },
    {
        let mut i: usize = 0;
        while i < self.devices.len()
            invariant
                i <= self.devices@.len(),
                device_at(self.devices@, addr@, 0) == device_at(self.devices@, addr@, i as int),
            decreases self.devices.len() - i,
        {
            let here = self.devices[i].addr();
            if same(here.as_str(), addr) {
                return Some(i);
            }
            i += 1;
        }
        None
    }

    /// How far the picture is shrunk for a receiver.
    pub fn underscan_for(&self, addr: &str) -> (r: u8)
        ensures
            r == underscan_at(*self, addr@),
    {
        match self.find(addr) {
            Some(i) => limited(self.devices[i].underscan),
            None => limited(self.underscan),
        }
    }

    /// Sets how far the picture is shrunk for a receiver; for one that is not known, the default.
    pub fn set_underscan_for(&mut self, addr: &str, pct: u8)
        ensures
            match device_at(old(self).devices@, addr@, 0) {
                Some(i) => final(self).underscan == old(self).underscan && final(self).devices@
                    == old(self).devices@.update(
                    i,
                    shrunk(old(self).devices@[i], at_most_max(pct)),
                ),
                None => final(self).underscan == at_most_max(pct) && final(self).devices@ == old(
                    self,
                ).devices@,
            },
    {
        match self.find(addr) {
            Some(i) => {
                self.devices[i].underscan = limited(pct);
                assert(self.devices@ =~= old(self).devices@.update(
                    i as int,
                    shrunk(old(self).devices@[i as int], at_most_max(pct)),
                ));
            },
            None => {
                self.underscan = limited(pct);
            },
        }
    }

    /// Holds every shrinking to the strongest one allowed.
    pub fn clamp_underscan(&mut self)
        ensures
            final(self).underscan == at_most_max(old(self).underscan),
            final(self).devices@.len() == old(self).devices@.len(),
            forall|i: int|
                0 <= i < old(self).devices@.len() ==> #[trigger] final(self).devices@[i] == shrunk(
                    old(self).devices@[i],
                    at_most_max(old(self).devices@[i].underscan),
                ),
    {
        self.underscan = limited(self.underscan);
        let mut i: usize = 0;
        let ghost before = old(self).devices@;
        while i < self.devices.len()
            invariant
                i <= self.devices@.len(),
                self.devices@.len() == before.len(),
                self.underscan == at_most_max(old(self).underscan),
                before == old(self).devices@,
                forall|k: int|
                    0 <= k < i ==> #[trigger] self.devices@[k] == shrunk(
                        before[k],
                        at_most_max(before[k].underscan),
                    ),
                forall|k: int| i <= k < before.len() ==> self.devices@[k] == before[k],
            decreases self.devices.len() - i,
        {
            self.devices[i].underscan = limited(self.devices[i].underscan);
            i += 1;
        }
    }
}

proof fn lemma_device_at_bounds(devices: Seq<Device>, addr: Seq<char>, i: int)
    requires
        0 <= i,
    ensures
        device_at(devices, addr, i) matches Some(k) ==> i <= k < devices.len()
            && devices[k].spec_addr() == addr,
    decreases devices.len() - i,
{
    if i < devices.len() && devices[i].spec_addr() != addr {
        lemma_device_at_bounds(devices, addr, i + 1);
    }
}

proof fn lemma_device_at_same(a: Seq<Device>, b: Seq<Device>, addr: Seq<char>, i: int)
    requires
        a.len() == b.len(),
        0 <= i,
        forall|k: int| 0 <= k < a.len() ==> a[k].spec_addr() == b[k].spec_addr(),
    ensures
        device_at(a, addr, i) == device_at(b, addr, i),
    decreases a.len() - i,
{
    if i < a.len() {
        lemma_device_at_same(a, b, addr, i + 1);
    }
}

/// What was set for a receiver is what is read for it, held to the strongest shrinking.
pub proof fn lemma_set_then_get(before: Config, after: Config, addr: Seq<char>, pct: u8)
    requires
        match device_at(before.devices@, addr, 0) {
            Some(i) => after.underscan == before.underscan && after.devices@
                == before.devices@.update(i, shrunk(before.devices@[i], at_most_max(pct))),
            None => after.underscan == at_most_max(pct) && after.devices@ == before.devices@,
        },
    ensures
        underscan_at(after, addr) == at_most_max(pct),
{
    lemma_device_at_bounds(before.devices@, addr, 0);
    lemma_device_at_same(before.devices@, after.devices@, addr, 0);
}

/// Setting a known receiver leaves every other address as it was.
pub proof fn lemma_set_leaves_others(
    before: Config,
    after: Config,
    addr: Seq<char>,
    other: Seq<char>,
    pct: u8,
)
    requires
        device_at(before.devices@, addr, 0) matches Some(i) && after.underscan == before.underscan
            && after.devices@ == before.devices@.update(
            i,
            shrunk(before.devices@[i], at_most_max(pct)),
        ),
        other != addr,
    ensures
        underscan_at(after, other) == underscan_at(before, other),
{
    lemma_device_at_bounds(before.devices@, addr, 0);
    lemma_device_at_bounds(before.devices@, other, 0);
    lemma_device_at_same(before.devices@, after.devices@, other, 0);
}

} // verus!
