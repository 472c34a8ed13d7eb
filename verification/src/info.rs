//! What a receiver says of itself in its `/info` reply.
pub mod laws;

use crate::property_list::{
    int_at, items_at, parse_plist, plist_parsed, text_at, uint_at, Plist, PlistView,
};
use vstd::prelude::*;
use vstd::slice::slice_to_vec;

verus! {

/// The request for the information.
pub const INFO_PATH: &'static str = "/info";

pub const INFO_CONTENT_TYPE: &'static str = "application/x-apple-binary-plist";

/// A display of the receiver.
#[derive(Clone, Copy, Debug, PartialEq, Eq, Structural)]
pub struct DisplayInfo {
    pub width: i64,
    pub height: i64,
    pub width_pixels: i64,
    pub height_pixels: i64,
}

impl Default for DisplayInfo {
    fn default() -> (r: DisplayInfo)
        ensures
            r == (DisplayInfo { width: 0, height: 0, width_pixels: 0, height_pixels: 0 }),
    {
        DisplayInfo { width: 0, height: 0, width_pixels: 0, height_pixels: 0 }
    }
}

/// What is read from the reply.
#[derive(Clone, Debug)]
pub struct ReceiverInfo {
    pub name: String,
    pub model: String,
    pub source_version: String,
    pub features: u64,
    pub status_flags: u64,
    /// The receiver's long-term public key; empty when it states none.
    pub pk: Vec<u8>,
    pub displays: Vec<DisplayInfo>,
}

#[verifier::ext_equal]
pub struct ReceiverInfoView {
    pub name: Seq<char>,
    pub model: Seq<char>,
    pub source_version: Seq<char>,
    pub features: u64,
    pub status_flags: u64,
    pub pk: Seq<u8>,
    pub displays: Seq<DisplayInfo>,
}

impl View for ReceiverInfo {
    type V = ReceiverInfoView;

    open spec fn view(&self) -> ReceiverInfoView {
        ReceiverInfoView {
            name: self.name@,
            model: self.model@,
            source_version: self.source_version@,
            features: self.features,
            status_flags: self.status_flags,
            pk: self.pk@,
            displays: self.displays@,
        }
    }
}

/// A receiver of which nothing is known.
pub open spec fn unknown_receiver() -> ReceiverInfoView {
    ReceiverInfoView {
        name: Seq::empty(),
        model: Seq::empty(),
        source_version: Seq::empty(),
        features: 0,
        status_flags: 0,
        pk: Seq::empty(),
        displays: Seq::empty(),
    }
}

impl Default for ReceiverInfo {
    fn default() -> (r: ReceiverInfo)
        ensures
            r@ == unknown_receiver(),
    {
        ReceiverInfo {
            name: String::new(),
            model: String::new(),
            source_version: String::new(),
            features: 0,
            status_flags: 0,
            pk: Vec::new(),
            displays: Vec::new(),
        }
    }
}

/// The feature bit of receivers that speak FairPlay.
pub const FEATURE_FPSAP25: u64 = 0x4000;

/// A display's size in pixels: the pixel counts if both are positive, else the plain ones if both
/// are, else nothing.
pub open spec fn size_of_display(d: DisplayInfo) -> (u32, u32) {
    if d.width_pixels > 0 && d.height_pixels > 0 {
        (d.width_pixels as u32, d.height_pixels as u32)
    } else if d.width > 0 && d.height > 0 {
        (d.width as u32, d.height as u32)
    } else {
        (0, 0)
    }
}

impl ReceiverInfo {
    /// The size of the receiver's first display in pixels, or zeros when it states none.
    pub fn display_size(&self) -> (r: (u32, u32))
        ensures
            r == (if self@.displays.len() == 0 {
                (0, 0)
            } else {
                size_of_display(self@.displays[0])
            }),
    {
        if self.displays.is_empty() {
            return (0, 0);
        }
        let d: DisplayInfo = self.displays[0];
        let pixels: bool = d.width_pixels > 0 && d.height_pixels > 0;
        let w: i64 = if pixels {
            d.width_pixels
        } else {
            d.width
        };
        let h: i64 = if pixels {
            d.height_pixels
        } else {
            d.height
        };
        if w <= 0 || h <= 0 {
            return (0, 0);
        }
        (w as u32, h as u32)
    }

    /// Whether the receiver speaks FairPlay.
    pub fn supports_fairplay_sap(&self) -> (r: bool)
        ensures
            r == (self@.features & FEATURE_FPSAP25 != 0),
    {
        self.features & FEATURE_FPSAP25 != 0
    }

    /// Takes a public key that was announced elsewhere, if the receiver stated none itself.
    pub fn fill_pk(&mut self, announced: &[u8])
        ensures
            final(self)@ == with_announced_pk(old(self)@, announced@),
    {
        if self.pk.is_empty() && announced.len() > 0 {
            self.pk = slice_to_vec(announced);
        }
        assert(old(self)@.pk.len() == 0 && announced@.len() == 0 ==> old(self)@.pk =~= announced@);
    }
}

pub open spec fn int_or_zero(v: PlistView, key: Seq<char>) -> i64 {
    match int_at(v, key) {
        Some(i) => i,
        None => 0,
    }
}

pub open spec fn text_or_none(v: PlistView, key: Seq<char>) -> Seq<char> {
    match text_at(v, key) {
        Some(s) => s,
        None => Seq::empty(),
    }
}

pub open spec fn uint_or_zero(v: PlistView, key: Seq<char>) -> u64 {
    match uint_at(v, key) {
        Some(u) => u,
        None => 0,
    }
}

pub open spec fn display_of(v: PlistView) -> DisplayInfo {
    DisplayInfo {
        width: int_or_zero(v, "width"@),
        height: int_or_zero(v, "height"@),
        width_pixels: int_or_zero(v, "widthPixels"@),
        height_pixels: int_or_zero(v, "heightPixels"@),
    }
}

/// The displays among a list of values; values that are no dictionaries are passed over.
pub open spec fn displays_of(items: Seq<PlistView>) -> Seq<DisplayInfo>
    decreases items.len(),
{
    if items.len() == 0 {
        Seq::empty()
    } else if items.last() is Dictionary {
        displays_of(items.drop_last()).push(display_of(items.last()))
    } else {
        displays_of(items.drop_last())
    }
}

/// What a dictionary says of a receiver.
pub open spec fn info_of(v: PlistView) -> ReceiverInfoView {
    ReceiverInfoView {
        name: text_or_none(v, "name"@),
        model: text_or_none(v, "model"@),
        source_version: text_or_none(v, "sourceVersion"@),
        features: uint_or_zero(v, "features"@),
        status_flags: uint_or_zero(v, "statusFlags"@),
        pk: match v.get("pk"@) {
            Some(PlistView::Data(d)) => d,
            _ => Seq::empty(),
        },
        displays: match items_at(v, "displays"@) {
            Some(items) => displays_of(items),
            None => Seq::empty(),
        },
    }
}

fn get_text(v: &Plist, key: &str) -> (r: String)
    ensures
        r@ == text_or_none(v@, key@),
{
    match v.text_at(key) {
        Some(s) => s,
        None => String::new(),
    }
}

fn get_int(v: &Plist, key: &str) -> (r: i64)
    ensures
        r == int_or_zero(v@, key@),
{
    match v.int_at(key) {
        Some(i) => i,
        None => 0,
    }
}

fn get_uint(v: &Plist, key: &str) -> (r: u64)
    ensures
        r == uint_or_zero(v@, key@),
{
    match v.uint_at(key) {
        Some(u) => u,
        None => 0,
    }
}

fn get_displays(v: &Plist) -> (r: Vec<DisplayInfo>)
    ensures
        r@ == info_of(v@).displays,
{
    let mut out: Vec<DisplayInfo> = Vec::new();
    match v.items_at("displays") {
        None => {},
        Some(items) => {
            let ghost all = items_at(v@, "displays"@)->Some_0;
            let mut i: usize = 0;
            assert(all.take(0) =~= Seq::empty());
            while i < items.len()
                invariant
                    i <= items@.len(),
                    all.len() == items@.len(),
                    forall|k: int| 0 <= k < all.len() ==> #[trigger] items@[k]@ == all[k],
                    out@ == displays_of(all.take(i as int)),
                decreases items.len() - i,
            {
                let d: &Plist = &items[i];
                let ghost next = all.take(i + 1);
                assert(next.drop_last() =~= all.take(i as int));
                assert(next.last() == d@);
                if d.is_dictionary() {
                    out.push(
                        DisplayInfo {
                            width: get_int(d, "width"),
                            height: get_int(d, "height"),
                            width_pixels: get_int(d, "widthPixels"),
                            height_pixels: get_int(d, "heightPixels"),
                        },
                    );
                }
                i += 1;
            }
            assert(all.take(i as int) =~= all);
        },
    }
    out
}

/// Reads a receiver's information from a dictionary; `None` when the value is none.
pub fn info_from(v: &Plist) -> (r: Option<ReceiverInfo>)
    ensures
        r is Some <==> v@ is Dictionary,
        r matches Some(info) ==> info@ == info_of(v@),
{
    if !v.is_dictionary() {
        return None;
    }
    let pk: Vec<u8> = match v.get("pk") {
        Some(Plist::Data(d)) => slice_to_vec(d.as_slice()),
        _ => Vec::new(),
    };
    Some(
        ReceiverInfo {
            name: get_text(v, "name"),
            model: get_text(v, "model"),
            source_version: get_text(v, "sourceVersion"),
            features: get_uint(v, "features"),
            status_flags: get_uint(v, "statusFlags"),
            pk,
            displays: get_displays(v),
        },
    )
}

/// Why a reply tells nothing.
#[derive(Clone, Copy, Debug, PartialEq, Eq, Structural)]
pub enum InfoError {
    NotAPlist,
    NotADictionary,
}

/// Reads a receiver's information from a reply.
pub fn parse_info(body: &[u8]) -> (r: Result<ReceiverInfo, InfoError>)
    ensures
        match plist_parsed(body@) {
            None => r is Err && r->Err_0 == InfoError::NotAPlist,
            Some(v) => if v is Dictionary {
                r matches Ok(info) && info@ == info_of(v)
            } else {
                r is Err && r->Err_0 == InfoError::NotADictionary
            },
        },
{
    match parse_plist(body) {
        None => Err(InfoError::NotAPlist),
        Some(v) => match info_from(&v) {
            Some(info) => Ok(info),
            None => Err(InfoError::NotADictionary),
        },
    }
}

/// What is known of a receiver with the key that it announced, where it gave none itself.
pub open spec fn with_announced_pk(v: ReceiverInfoView, announced: Seq<u8>) -> ReceiverInfoView {
    ReceiverInfoView {
        pk: if v.pk.len() == 0 {
            announced
        } else {
            v.pk
        },
        ..v
    }
}

} // verus!
