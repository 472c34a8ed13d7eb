//! What a receiver says of itself.
use crate::info::{
    displays_of, info_of, size_of_display, with_announced_pk, DisplayInfo, ReceiverInfoView,
};
use crate::property_list::PlistView;
use vstd::prelude::*;

verus! {

/// What stands under each key is what is known of the receiver; what is missing is empty or zero.
pub proof fn law_receiver_info(v: PlistView, text: Seq<char>, n: u64, data: Seq<u8>)
    ensures
        ({
            let i = info_of(v);
            &&& v.get("name"@) == Some(PlistView::Text(text)) ==> i.name == text
            &&& v.get("model"@) == Some(PlistView::Text(text)) ==> i.model == text
            &&& v.get("sourceVersion"@) == Some(PlistView::Text(text)) ==> i.source_version == text
            &&& v.get("features"@) == Some(PlistView::Unsigned(n)) ==> i.features == n
            &&& v.get("statusFlags"@) == Some(PlistView::Unsigned(n)) ==> i.status_flags == n
            &&& v.get("pk"@) == Some(PlistView::Data(data)) ==> i.pk == data
            &&& v.get("name"@) is None ==> i.name.len() == 0
            &&& v.get("model"@) is None ==> i.model.len() == 0
            &&& v.get("sourceVersion"@) is None ==> i.source_version.len() == 0
            &&& v.get("features"@) is None ==> i.features == 0
            &&& v.get("statusFlags"@) is None ==> i.status_flags == 0
            &&& v.get("pk"@) is None ==> i.pk.len() == 0
            &&& v.get("displays"@) is None ==> i.displays.len() == 0
        }),
{
}

/// Each dictionary among the displays is a display, in their order, with its sizes under their keys.
pub proof fn law_displays(items: Seq<PlistView>, d: PlistView, w: i64, h: i64)
    ensures
        displays_of(Seq::empty()).len() == 0,
        !(d is Dictionary) ==> displays_of(items.push(d)) == displays_of(items),
        d is Dictionary ==> {
            let all = displays_of(items.push(d));
            &&& all.len() == displays_of(items).len() + 1
            &&& all.drop_last() == displays_of(items)
            &&& d.get("width"@) == Some(PlistView::Integer(w)) ==> all.last().width == w
            &&& d.get("height"@) == Some(PlistView::Integer(h)) ==> all.last().height == h
            &&& d.get("widthPixels"@) == Some(PlistView::Integer(w)) ==> all.last().width_pixels == w
            &&& d.get("heightPixels"@) == Some(PlistView::Integer(h)) ==> all.last().height_pixels
                == h
        },
{
    assert(items.push(d).drop_last() =~= items);
    if d is Dictionary {
        assert(displays_of(items.push(d)).drop_last() =~= displays_of(items));
    }
}

/// The size of a display is its size in pixels where both sides are known, else its plain size where
/// both are, else none.
pub proof fn law_display_size(d: DisplayInfo)
    requires
        d.width < 0x1_0000_0000,
        d.height < 0x1_0000_0000,
        d.width_pixels < 0x1_0000_0000,
        d.height_pixels < 0x1_0000_0000,
    ensures
        d.width_pixels > 0 && d.height_pixels > 0 ==> size_of_display(d).0 == d.width_pixels
            && size_of_display(d).1 == d.height_pixels,
        (d.width_pixels <= 0 || d.height_pixels <= 0) && d.width > 0 && d.height > 0
            ==> size_of_display(d).0 == d.width && size_of_display(d).1 == d.height,
        (d.width_pixels <= 0 || d.height_pixels <= 0) && (d.width <= 0 || d.height <= 0)
            ==> size_of_display(d) == (0u32, 0u32),
{
}

/// The key that a receiver gives itself is kept, and one that it only announced stands in for it.
pub proof fn law_announced_key(v: ReceiverInfoView, first: Seq<u8>, second: Seq<u8>)
    requires
        first.len() > 0,
    ensures
        v.pk.len() > 0 ==> with_announced_pk(v, first) == v,
        v.pk.len() == 0 ==> with_announced_pk(v, first) == (ReceiverInfoView { pk: first, ..v }),
        with_announced_pk(with_announced_pk(v, first), second) == with_announced_pk(v, first),
{
}

} // verus!
