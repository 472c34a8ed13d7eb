//! The receivers found on the network.
pub mod laws;

use crate::text::{
    chars, find_char, from_utf8_lossy, hex_unsigned_of, index_of_char, parse_hex, read_lossy, same,
    trim, trimmed,
};
use vstd::prelude::*;
use vstd::slice::slice_subrange;
use vstd::utf8::encode_utf8;

verus! {

/// A receiver that announced itself.
#[derive(Debug, Clone)]
pub struct AirPlayDevice {
    pub name: String,
    pub model: String,
    pub ip: String,
    pub port: u16,
    pub device_id: String,
    pub features: u64,
    /// The receiver's public key in hexadecimal.
    pub pk: String,
    pub flags: u64,
}

impl Default for AirPlayDevice {
    fn default() -> (r: AirPlayDevice)
        ensures
            r@ == blank_device(),
    {
        AirPlayDevice {
            name: String::new(),
            model: String::new(),
            ip: String::new(),
            port: 0,
            device_id: String::new(),
            features: 0,
            pk: String::new(),
            flags: 0,
        }
    }
}

#[verifier::ext_equal]
pub struct AirPlayDeviceView {
    pub name: Seq<char>,
    pub model: Seq<char>,
    pub ip: Seq<char>,
    pub port: u16,
    pub device_id: Seq<char>,
    pub features: u64,
    pub pk: Seq<char>,
    pub flags: u64,
}

pub open spec fn blank_device() -> AirPlayDeviceView {
    AirPlayDeviceView {
        name: Seq::empty(),
        model: Seq::empty(),
        ip: Seq::empty(),
        port: 0,
        device_id: Seq::empty(),
        features: 0,
        pk: Seq::empty(),
        flags: 0,
    }
}

impl View for AirPlayDevice {
    type V = AirPlayDeviceView;

    open spec fn view(&self) -> AirPlayDeviceView {
        AirPlayDeviceView {
            name: self.name@,
            model: self.model@,
            ip: self.ip@,
            port: self.port,
            device_id: self.device_id@,
            features: self.features,
            pk: self.pk@,
            flags: self.flags,
        }
    }
}

pub const FEATURE_SCREEN: u64 = 0x100;

pub const FEATURE_AUDIO: u64 = 0x400;

pub const FEATURE_FPSAP25: u64 = 0x4000;

pub const FEATURE_HOMEKIT_PAIRING: u64 = 0x2_0000;

pub const FEATURE_TRANSIENT_PAIRING: u64 = 0x8_0000;

pub const FEATURE_UDP_MIRRORING: u64 = 0x2_0000_0000_0000;

impl AirPlayDevice {
    /// The same device once more.
    pub fn copy(&self) -> (r: AirPlayDevice)
        ensures
            r@ == self@,
    {
        AirPlayDevice {
            name: self.name.clone(),
            model: self.model.clone(),
            ip: self.ip.clone(),
            port: self.port,
            device_id: self.device_id.clone(),
            features: self.features,
            pk: self.pk.clone(),
            flags: self.flags,
        }
    }

    pub fn supports_screen(&self) -> (r: bool)
        ensures
            r == (self@.features & FEATURE_SCREEN != 0),
    {
        self.features & FEATURE_SCREEN != 0
    }

    pub fn supports_transient_pairing(&self) -> (r: bool)
        ensures
            r == (self@.features & FEATURE_TRANSIENT_PAIRING != 0),
    {
        self.features & FEATURE_TRANSIENT_PAIRING != 0
    }

    pub fn supports_fairplay_sap(&self) -> (r: bool)
        ensures
            r == (self@.features & FEATURE_FPSAP25 != 0),
    {
        self.features & FEATURE_FPSAP25 != 0
    }
}

/// A string without a leading `0x`, in either case.
pub open spec fn unprefixed(s: Seq<char>) -> Seq<char> {
    if s.len() >= 2 && s[0] == '0' && (s[1] == 'x' || s[1] == 'X') {
        s.skip(2)
    } else {
        s
    }
}

/// The number that a string stands for in hexadecimal, with or without a prefix; 0 when it stands
/// for none.
pub open spec fn hex_u64_of(s: Seq<char>) -> u64 {
    match hex_unsigned_of(unprefixed(trimmed(s))) {
        Some(n) => n as u64,
        None => 0,
    }
}

fn hex_u64(s: &[char]) -> (r: u64)
    ensures
        r == hex_u64_of(s@),
{
    let t: Vec<char> = trim(s);
    let from: usize = if t.len() >= 2 && t[0] == '0' && (t[1] == 'x' || t[1] == 'X') {
        2
    } else {
        0
    };
    let digits: &[char] = slice_subrange(t.as_slice(), from, t.len());
    assert(digits@ =~= unprefixed(t@));
    match parse_hex(digits) {
        Some(n) => n,
        None => 0,
    }
}

/// Reads a hexadecimal number, with or without a prefix; 0 when it is none.
pub fn parse_hex_u64(s: &str) -> (r: u64)
    ensures
        r == hex_u64_of(s@),
{
    hex_u64(chars(s).as_slice())
}

/// The features that a receiver announces: two halves with one comma between them, the low half
/// first, or a single number.
pub open spec fn features_of(s: Seq<char>) -> u64 {
    let comma = index_of_char(s, ',', 0);
    if comma < s.len() && index_of_char(s, ',', comma + 1) == s.len() {
        (hex_u64_of(s.skip(comma + 1)) << 32) | hex_u64_of(s.take(comma))
    } else {
        hex_u64_of(s)
    }
}

/// Reads the features that a receiver announces.
pub fn parse_features(s: &str) -> (r: u64)
    ensures
        r == features_of(s@),
{
    let all: Vec<char> = chars(s);
    let comma: usize = find_char(all.as_slice(), ',', 0);
    if comma < all.len() && find_char(all.as_slice(), ',', comma + 1) == all.len() {
        let low: &[char] = slice_subrange(all.as_slice(), 0, comma);
        let high: &[char] = slice_subrange(all.as_slice(), comma + 1, all.len());
        assert(low@ =~= all@.take(comma as int));
        assert(high@ =~= all@.skip(comma + 1));
        (hex_u64(high) << 32) | hex_u64(low)
    } else {
        hex_u64(all.as_slice())
    }
}

/// Whether a byte is a decimal digit in ASCII.
#[verifier::allow_in_spec]
pub fn is_ascii_digit(b: u8) -> bool
    returns
        b >= 0x30 && b <= 0x39,
{
    b >= 0x30 && b <= 0x39
}

/// The value of an escape of three decimal digits at `i`; `None` when there is none or it does not
/// fit a byte.
pub open spec fn decimal_escape(b: Seq<u8>, i: int) -> Option<u8> {
    if i + 3 < b.len() && is_ascii_digit(b[i + 1]) && is_ascii_digit(b[i + 2]) && is_ascii_digit(
        b[i + 3],
    ) && 100 * (b[i + 1] - 0x30) + 10 * (b[i + 2] - 0x30) + (b[i + 3] - 0x30) <= 255 {
        Some((100 * (b[i + 1] - 0x30) + 10 * (b[i + 2] - 0x30) + (b[i + 3] - 0x30)) as u8)
    } else {
        None
    }
}

/// A name from `i` on without its escapes: a backslash and three digits stand for a byte, a
/// backslash and anything else for that; a backslash at the end stands for itself.
pub open spec fn unescaped_from(b: Seq<u8>, i: int) -> Seq<u8>
    decreases b.len() - i,
{
    if i >= b.len() {
        Seq::empty()
    } else if b[i] == 0x5c && i + 1 < b.len() {
        match decimal_escape(b, i) {
            Some(v) => seq![v] + unescaped_from(b, i + 4),
            None => seq![b[i + 1]] + unescaped_from(b, i + 2),
        }
    } else {
        seq![b[i]] + unescaped_from(b, i + 1)
    }
}

/// A name of DNS service discovery as it is shown.
pub open spec fn shown_name(s: Seq<char>) -> Seq<char> {
    read_lossy(unescaped_from(encode_utf8(s), 0))
}

fn read_escape(b: &[u8], i: usize) -> (r: Option<u8>)
    requires
        i < b@.len(),
    ensures
        r == decimal_escape(b@, i as int),
{
    if b.len() - i > 3 && is_ascii_digit(b[i + 1]) && is_ascii_digit(b[i + 2]) && is_ascii_digit(
        b[i + 3],
    ) {
        let v: u16 = 100 * (b[i + 1] - 0x30) as u16 + 10 * (b[i + 2] - 0x30) as u16 + (b[i + 3]
            - 0x30) as u16;
        if v <= 255 {
            return Some(v as u8);
        }
    }
    None
}

/// Takes the escapes out of a name of DNS service discovery, byte by byte.
pub fn unescape_bytes(b: &[u8]) -> (r: Vec<u8>)
    ensures
        r@ == unescaped_from(b@, 0),
{
    let mut out: Vec<u8> = Vec::new();
    let mut i: usize = 0;
    assert(Seq::<u8>::empty() + unescaped_from(b@, 0) =~= unescaped_from(b@, 0));
    while i < b.len()
        invariant
            i <= b@.len(),
            out@ + unescaped_from(b@, i as int) == unescaped_from(b@, 0),
        decreases b.len() - i,
    {
        let ghost before = out@;
        let ghost at = i as int;
        if b[i] == 0x5c && b.len() - i > 1 {
            match read_escape(b, i) {
                Some(v) => {
                    out.push(v);
                    i += 4;
                    assert(out@ + unescaped_from(b@, at + 4) =~= before + unescaped_from(b@, at));
                },
                None => {
                    out.push(b[i + 1]);
                    i += 2;
                    assert(out@ + unescaped_from(b@, at + 2) =~= before + unescaped_from(b@, at));
                },
            }
        } else {
            out.push(b[i]);
            i += 1;
            assert(out@ + unescaped_from(b@, at + 1) =~= before + unescaped_from(b@, at));
        }
    }
    assert(out@ + unescaped_from(b@, i as int) =~= out@);
    out
}

/// Takes the escapes out of a name of DNS service discovery.
pub fn unescape_dns_name(s: &str) -> (r: String)
    ensures
        r@ == shown_name(s@),
{
    from_utf8_lossy(unescape_bytes(s.as_bytes()).as_slice())
}

/// What an announcement carries beside the address; a property that is missing is `None`.
pub struct Announcement {
    pub fullname: String,
    pub model: Option<String>,
    pub device_id: Option<String>,
    pub pk: Option<String>,
    pub features: Option<String>,
    pub flags: Option<String>,
}

pub open spec fn text_of(s: Option<String>) -> Seq<char> {
    match s {
        Some(s) => s@,
        None => Seq::empty(),
    }
}

/// The receiver that an announcement describes. Its name is the first label of the full name.
pub open spec fn announced(a: Announcement, ip: Seq<char>, port: u16) -> AirPlayDeviceView {
    AirPlayDeviceView {
        name: shown_name(a.fullname@.take(index_of_char(a.fullname@, '.', 0))),
        model: text_of(a.model),
        ip,
        port,
        device_id: text_of(a.device_id),
        features: match a.features {
            Some(s) => features_of(s@),
            None => 0,
        },
        pk: text_of(a.pk),
        flags: match a.flags {
            Some(s) => hex_u64_of(s@),
            None => 0,
        },
    }
}

fn text_or_empty(s: &Option<String>) -> (r: String)
    ensures
        r@ == text_of(*s),
{
    match s {
        Some(s) => s.clone(),
        None => String::new(),
    }
}

/// The receiver that an announcement describes.
pub fn parse_resolved(a: &Announcement, ip: &str, port: u16) -> (r: AirPlayDevice)
    ensures
        r@ == announced(*a, ip@, port),
{
    let full: Vec<char> = chars(a.fullname.as_str());
    let dot: usize = find_char(full.as_slice(), '.', 0);
    let label: &[char] = slice_subrange(full.as_slice(), 0, dot);
    assert(label@ =~= full@.take(dot as int));
    let name = crate::text::from_chars(label);
    AirPlayDevice {
        name: unescape_dns_name(name.as_str()),
        model: text_or_empty(&a.model),
        ip: ip.to_owned(),
        port,
        device_id: text_or_empty(&a.device_id),
        features: match &a.features {
            Some(s) => parse_features(s.as_str()),
            None => 0,
        },
        pk: text_or_empty(&a.pk),
        flags: match &a.flags {
            Some(s) => parse_hex_u64(s.as_str()),
            None => 0,
        },
    }
}

pub open spec fn devices_view(devices: Seq<AirPlayDevice>) -> Seq<AirPlayDeviceView> {
    devices.map_values(|d: AirPlayDevice| d@)
}

/// Whether an address is already among the found receivers.
pub open spec fn has_address(devices: Seq<AirPlayDeviceView>, ip: Seq<char>, port: u16) -> bool {
    exists|i: int|
        0 <= i < devices.len() && (#[trigger] devices[i]).ip == ip && devices[i].port == port
}

/// Whether no two found receivers share an address.
pub open spec fn distinct_addresses(devices: Seq<AirPlayDeviceView>) -> bool {
    forall|i: int, j: int|
        0 <= i < j < devices.len() ==> !((#[trigger] devices[i]).ip == (#[trigger] devices[j]).ip
            && devices[i].port == devices[j].port)
}

/// Adds a receiver at the end, unless its address was found before.
pub fn add_device(devices: &mut Vec<AirPlayDevice>, device: AirPlayDevice)
    ensures
        devices_view(final(devices)@) == (if has_address(
            devices_view(old(devices)@),
            device@.ip,
            device@.port,
        ) {
            devices_view(old(devices)@)
        } else {
            devices_view(old(devices)@).push(device@)
        }),
        distinct_addresses(devices_view(old(devices)@)) ==> distinct_addresses(
            devices_view(final(devices)@),
        ),
{
    let ghost found = devices_view(devices@);
    let mut i: usize = 0;
    while i < devices.len()
        invariant
            i <= devices@.len(),
            *devices == *old(devices),
            found == devices_view(devices@),
            forall|k: int|
                0 <= k < i ==> !((#[trigger] found[k]).ip == device@.ip && found[k].port
                    == device@.port),
        decreases devices.len() - i,
    {
        assert(found[i as int] == devices@[i as int]@);
        if same(devices[i].ip.as_str(), device.ip.as_str()) && devices[i].port == device.port {
            return ;
        }
        i += 1;
    }
    devices.push(device);
    assert(devices_view(devices@) =~= found.push(device@));
}

} // verus!
