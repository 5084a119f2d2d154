//! Bluetooth service UUIDs, D-Bus paths and the conversions between device
//! object paths and MAC addresses.
use vstd::prelude::*;

use crate::text::{
    chars_of, extend_chars, replace_char, replace_char_exec, split, split_ranges, starts_with,
    starts_with_exec, string_of, range_views, lemma_split_nonempty,
};

verus! {

pub const A2DP_SINK_UUID: &'static str = "0000110b-0000-1000-8000-00805f9b34fb";

pub const A2DP_SOURCE_UUID: &'static str = "0000110a-0000-1000-8000-00805f9b34fb";

pub const AVRCP_TARGET: &'static str = "0000110c-0000-1000-8000-00805f9b34fb";

pub const AVRCP_CONTROLLER: &'static str = "0000110e-0000-1000-8000-00805f9b34fb";

pub const AGENT_PATH: &'static str = "/org/soundsync/agent";

/// Device-property poll period, in milliseconds.
pub const DEVICE_PROPS_POLL_MS: u64 = 500;

/// AVRCP poll period while a device is connected, in milliseconds.
pub const AVRCP_POLL_ACTIVE_MS: u64 = 250;

/// AVRCP poll period while idle, in milliseconds.
pub const AVRCP_POLL_IDLE_MS: u64 = 2000;

pub open spec fn sink_uuid() -> Seq<char> {
    "0000110b-0000-1000-8000-00805f9b34fb"@
}

pub open spec fn source_uuid() -> Seq<char> {
    "0000110a-0000-1000-8000-00805f9b34fb"@
}

pub open spec fn dev_prefix() -> Seq<char> {
    "dev_"@
}

/// First segment, scanning left to right, that starts with `dev_`.
pub open spec fn first_dev_segment(segs: Seq<Seq<char>>) -> Option<Seq<char>>
    decreases segs.len(),
{
    if segs.len() == 0 {
        None
    } else {
        match first_dev_segment(segs.drop_last()) {
            Some(s) => Some(s),
            None => if starts_with(segs.last(), dev_prefix()) {
                Some(segs.last())
            } else {
                None
            },
        }
    }
}

/// `/org/bluez/hci0/dev_AA_BB_CC_DD_EE_FF[/...]` → `AA:BB:CC:DD:EE:FF`.
pub open spec fn address_of_path(path: Seq<char>) -> Option<Seq<char>> {
    match first_dev_segment(split(path, '/')) {
        Some(seg) => Some(replace_char(seg.skip(4), '_', ':')),
        None => None,
    }
}

/// `(adapter, AA:BB:...)` → `adapter/dev_AA_BB_...`.
pub open spec fn path_of_address(adapter_path: Seq<char>, address: Seq<char>) -> Seq<char> {
    adapter_path + "/dev_"@ + replace_char(address, ':', '_')
}

/// Convert a D-Bus device path to a MAC address.
/// e.g. `/org/bluez/hci0/dev_AA_BB_CC_DD_EE_FF` → `AA:BB:CC:DD:EE:FF`
pub fn address_from_path(path: &str) -> (r: Option<String>)
    ensures
        r.deep_view() == address_of_path(path@),
{
    let chars = chars_of(path);
    let segs = split_ranges(&chars, '/');
    let prefix = chars_of("dev_");
    proof {
        reveal_strlit("dev_");
    }
    let mut found: Option<(usize, usize)> = None;
    let mut k: usize = 0;
    let ghost views = range_views(chars@, segs@);
    proof {
        assert(views.take(0) =~= Seq::<Seq<char>>::empty());
    }
    while k < segs.len()
        invariant
            0 <= k <= segs@.len(),
            views == range_views(chars@, segs@),
            prefix@ == dev_prefix(),
            forall|j: int| 0 <= j < segs@.len() ==> #[trigger] segs@[j].0 <= segs@[j].1
                && segs@[j].1 <= chars@.len(),
            match found {
                Some(rg) => rg.0 <= rg.1 <= chars@.len() && first_dev_segment(views.take(k as int))
                    == Some(chars@.subrange(rg.0 as int, rg.1 as int)),
                None => first_dev_segment(views.take(k as int)) is None,
            },
        decreases segs.len() - k,
    {
        let (a, b) = segs[k];
        proof {
            assert(views.take(k + 1).drop_last() =~= views.take(k as int));
            assert(views.take(k + 1).last() == chars@.subrange(a as int, b as int));
        }
        if found.is_none() && starts_with_exec(&chars[a..b], &prefix) {
            found = Some((a, b));
        }
        k = k + 1;
    }
    proof {
        assert(views.take(segs@.len() as int) =~= views);
    }
    match found {
        Some((a, b)) => {
            proof {
                lemma_first_dev_prefixed(views);
            }
            let seg = &chars[a..b];
            let rest = &seg[4..seg.len()];
            let replaced = replace_char_exec(rest, '_', ':');
            assert(rest@ =~= chars@.subrange(a as int, b as int).skip(4));
            Some(string_of(&replaced))
        },
        None => None,
    }
}

/// Convert a MAC address to a D-Bus device path.
/// e.g. `("AA:BB:CC:DD:EE:FF")` → `/org/bluez/hci0/dev_AA_BB_CC_DD_EE_FF`
pub fn path_from_address(adapter_path: &str, address: &str) -> (r: String)
    ensures
        r@ == path_of_address(adapter_path@, address@),
{
    let mut v = chars_of(adapter_path);
    let sep = chars_of("/dev_");
    extend_chars(&mut v, &sep);
    let addr = chars_of(address);
    let replaced = replace_char_exec(&addr, ':', '_');
    extend_chars(&mut v, &replaced);
    string_of(&v)
}

proof fn lemma_split_append_piece(x: Seq<char>, c: char, y: Seq<char>)
    requires
        forall|i: int| 0 <= i < y.len() ==> y[i] != c,
    ensures
        split(x.push(c) + y, c) == split(x, c).push(y),
    decreases y.len(),
{
    let t = x.push(c) + y;
    if y.len() == 0 {
        assert(t =~= x.push(c));
        assert(t.drop_last() =~= x);
        assert(y =~= Seq::<char>::empty());
        assert(split(t, c) =~= split(x, c).push(y));
    } else {
        let y0 = y.drop_last();
        assert(t.drop_last() =~= x.push(c) + y0);
        lemma_split_append_piece(x, c, y0);
        lemma_split_nonempty(x, c);
        assert(t.last() == y.last());
        assert(y0.push(y.last()) =~= y);
        assert(split(t, c) =~= split(x, c).push(y));
    }
}

pub proof fn lemma_first_dev_prefixed(segs: Seq<Seq<char>>)
    ensures
        first_dev_segment(segs) matches Some(s) ==> starts_with(s, dev_prefix()),
    decreases segs.len(),
{
    if segs.len() > 0 {
        lemma_first_dev_prefixed(segs.drop_last());
    }
}

proof fn lemma_first_dev_none(segs: Seq<Seq<char>>)
    requires
        forall|i: int| 0 <= i < segs.len() ==> !starts_with(#[trigger] segs[i], dev_prefix()),
    ensures
        first_dev_segment(segs) is None,
    decreases segs.len(),
{
    if segs.len() > 0 {
        lemma_first_dev_none(segs.drop_last());
    }
}

/// A device path built from an address leads back to that address, provided
/// the adapter path has no `dev_` segment and the address holds neither `/`
/// nor `_`.
pub proof fn lemma_address_path_roundtrip(adapter_path: Seq<char>, address: Seq<char>)
    requires
        forall|i: int|
            0 <= i < split(adapter_path, '/').len() ==> !starts_with(
                #[trigger] split(adapter_path, '/')[i],
                dev_prefix(),
            ),
        forall|i: int| 0 <= i < address.len() ==> address[i] != '/' && address[i] != '_',
    ensures
        address_of_path(path_of_address(adapter_path, address)) == Some(address),
{
    reveal_strlit("/dev_");
    reveal_strlit("dev_");
    let r = replace_char(address, ':', '_');
    let seg = "dev_"@ + r;
    let path = path_of_address(adapter_path, address);
    assert(path =~= adapter_path.push('/') + seg);
    assert forall|i: int| 0 <= i < seg.len() implies seg[i] != '/' by {
        if i >= 4 {
            assert(seg[i] == r[i - 4]);
        }
    }
    lemma_split_append_piece(adapter_path, '/', seg);
    let segs = split(adapter_path, '/');
    lemma_first_dev_none(segs);
    assert(segs.push(seg).drop_last() =~= segs);
    assert(seg.take(4) =~= dev_prefix());
    assert(seg.skip(4) =~= r);
    assert(replace_char(r, '_', ':') =~= address);
}

} // verus!
