//! Typed representations of gateway resources.
//!
//! The fields are those of the gateway's JSON objects; attributes that the
//! library does not know are kept in `extra`. Floating-point attributes are
//! kept as the bit pattern of their `f64` and compare as `f64`s.
use vstd::prelude::*;
use crate::json::{items_view, json_as_u64, json_get, F64Bits, Json, JsonMap, JsonValue};
use crate::protocol::{ATTR_HS_LINK, ATTR_ID};

verus! {

/// Device metadata reported in attribute `3` by the gateway.
#[derive(Clone, PartialEq, Debug, Default)]
pub struct DeviceInfo {
    pub manufacturer: Option<String>,
    pub model_number: Option<String>,
    pub serial: Option<String>,
    pub firmware_version: Option<String>,
    pub power_source: Option<u8>,
    pub battery_level: Option<u8>,
    pub extra: JsonMap,
}

/// A single light endpoint nested below device attribute `3311`.
#[derive(Clone, PartialEq, Debug)]
pub struct Light {
    pub id: u32,
    pub state: u8,
    pub brightness: Option<u16>,
    pub color_temperature_mireds: Option<u16>,
    pub color_hex: Option<String>,
    pub hue: Option<u16>,
    pub saturation: Option<u16>,
    pub color_x: Option<u16>,
    pub color_y: Option<u16>,
    pub extra: JsonMap,
}

impl Light {
    pub fn is_on(&self) -> (r: bool)
        ensures
            r == (self.state == 1),
    {
        self.state == 1
    }
}

/// A switched outlet endpoint nested below device attribute `3312`.
#[derive(Clone, PartialEq, Debug)]
pub struct Socket {
    pub id: u32,
    pub state: u8,
    pub on_time: Option<u64>,
    pub cumulative_active_power: Option<F64Bits>,
    pub power_factor: Option<F64Bits>,
    pub extra: JsonMap,
}

impl Socket {
    pub fn is_on(&self) -> (r: bool)
        ensures
            r == (self.state == 1),
    {
        self.state == 1
    }
}

/// A blind endpoint nested below device attribute `15015`.
#[derive(Clone, PartialEq, Debug)]
pub struct Blind {
    pub id: u32,
    pub current_position: F64Bits,
    pub extra: JsonMap,
}

/// An air purifier endpoint nested below device attribute `15025`.
#[derive(Clone, PartialEq, Debug)]
pub struct AirPurifier {
    pub id: u32,
    pub mode: Option<i64>,
    pub filter_runtime: Option<i64>,
    pub filter_status: Option<i64>,
    pub filter_lifetime_total: Option<i64>,
    pub controls_locked: Option<i64>,
    pub leds_off: Option<i64>,
    pub air_quality: Option<i64>,
    pub fan_speed: Option<i64>,
    pub motor_runtime_total: Option<i64>,
    pub filter_lifetime_remaining: Option<i64>,
    pub extra: JsonMap,
}

impl AirPurifier {
    /// On unless the mode is zero or negative.
    pub fn is_on(&self) -> (r: Option<bool>)
        ensures
            r == match self.mode {
                Some(mode) => Some(mode > 0),
                None => None,
            },
    {
        match self.mode {
            Some(mode) => Some(mode > 0),
            None => None,
        }
    }

    pub fn is_auto_mode(&self) -> (r: Option<bool>)
        ensures
            r == match self.mode {
                Some(mode) => Some(mode == 1),
                None => None,
            },
    {
        match self.mode {
            Some(mode) => Some(mode == 1),
            None => None,
        }
    }

    pub fn controls_locked(&self) -> (r: Option<bool>)
        ensures
            r == match self.controls_locked {
                Some(value) => Some(value == 1),
                None => None,
            },
    {
        match self.controls_locked {
            Some(value) => Some(value == 1),
            None => None,
        }
    }

    pub fn leds_off(&self) -> (r: Option<bool>)
        ensures
            r == match self.leds_off {
                Some(value) => Some(value == 1),
                None => None,
            },
    {
        match self.leds_off {
            Some(value) => Some(value == 1),
            None => None,
        }
    }

    pub fn filter_needs_replacement(&self) -> (r: Option<bool>)
        ensures
            r == match self.filter_status {
                Some(value) => Some(value != 0),
                None => None,
            },
    {
        match self.filter_status {
            Some(value) => Some(value != 0),
            None => None,
        }
    }
}

/// A signal repeater control endpoint.
#[derive(Clone, PartialEq, Debug, Default)]
pub struct SignalRepeater {
    pub id: Option<u32>,
    pub extra: JsonMap,
}

#[derive(Clone, Copy, PartialEq, Eq, Structural, Debug)]
pub enum DeviceKind {
    Light,
    Socket,
    Blind,
    AirPurifier,
    SignalRepeater,
    Other,
}

/// A resource returned from `/15001/{id}`.
///
/// Unknown attributes are preserved in `extra`; old gateways and third-party
/// Zigbee devices are allowed to be weird.
#[derive(Clone, PartialEq, Debug)]
pub struct Device {
    pub id: u32,
    pub display_name: Option<String>,
    pub application_type: Option<u32>,
    pub info: DeviceInfo,
    pub last_seen: Option<u64>,
    pub reachable: Option<u8>,
    pub lights: Vec<Light>,
    pub sockets: Vec<Socket>,
    pub blinds: Vec<Blind>,
    pub air_purifiers: Vec<AirPurifier>,
    pub signal_repeaters: Vec<SignalRepeater>,
    pub extra: JsonMap,
}

/// `kind` when `present`, else nothing.
pub open spec fn kind_if(present: bool, kind: DeviceKind) -> Seq<DeviceKind> {
    if present {
        seq![kind]
    } else {
        Seq::empty()
    }
}

/// The kinds of endpoints a device has, in the order light, socket, blind,
/// air purifier, signal repeater; `Other` alone when it has none.
pub open spec fn capability_list(d: &Device) -> Seq<DeviceKind> {
    let found = kind_if(d.lights.len() > 0, DeviceKind::Light) + kind_if(
        d.sockets.len() > 0,
        DeviceKind::Socket,
    ) + kind_if(d.blinds.len() > 0, DeviceKind::Blind) + kind_if(
        d.air_purifiers.len() > 0,
        DeviceKind::AirPurifier,
    ) + kind_if(d.signal_repeaters.len() > 0, DeviceKind::SignalRepeater);
    if found.len() == 0 {
        seq![DeviceKind::Other]
    } else {
        found
    }
}

/// The device has an endpoint of kind `kind`: a non-empty list of such
/// endpoints; `Other` when it has no endpoint of any kind.
pub open spec fn has_endpoint_of(d: &Device, kind: DeviceKind) -> bool {
    match kind {
        DeviceKind::Light => d.lights.len() > 0,
        DeviceKind::Socket => d.sockets.len() > 0,
        DeviceKind::Blind => d.blinds.len() > 0,
        DeviceKind::AirPurifier => d.air_purifiers.len() > 0,
        DeviceKind::SignalRepeater => d.signal_repeaters.len() > 0,
        DeviceKind::Other => d.lights.len() == 0 && d.sockets.len() == 0 && d.blinds.len() == 0
            && d.air_purifiers.len() == 0 && d.signal_repeaters.len() == 0,
    }
}

proof fn lemma_concat_contains(a: Seq<DeviceKind>, b: Seq<DeviceKind>, x: DeviceKind)
    ensures
        (a + b).contains(x) <==> a.contains(x) || b.contains(x),
{
    if a.contains(x) {
        let i = choose|i: int| 0 <= i < a.len() && a[i] == x;
        assert((a + b)[i] == x);
    }
    if b.contains(x) {
        let j = choose|j: int| 0 <= j < b.len() && b[j] == x;
        assert((a + b)[a.len() + j] == x);
    }
    if (a + b).contains(x) {
        let i = choose|i: int| 0 <= i < (a + b).len() && (a + b)[i] == x;
        if i < a.len() {
            assert(a[i] == x);
        } else {
            assert(b[i - a.len()] == x);
        }
    }
}

proof fn lemma_kind_if_contains(present: bool, kind: DeviceKind, x: DeviceKind)
    ensures
        kind_if(present, kind).contains(x) <==> present && x == kind,
{
    if present {
        assert(kind_if(present, kind)[0] == kind);
    }
}

/// A kind is among a device's capabilities exactly when the device has an
/// endpoint of that kind, and `Other` exactly when it has none.
pub proof fn lemma_capabilities_law(d: &Device)
    ensures
        forall|k: DeviceKind| #[trigger] capability_list(d).contains(k) <==> has_endpoint_of(d, k),
{
    let l = kind_if(d.lights.len() > 0, DeviceKind::Light);
    let so = kind_if(d.sockets.len() > 0, DeviceKind::Socket);
    let b = kind_if(d.blinds.len() > 0, DeviceKind::Blind);
    let a = kind_if(d.air_purifiers.len() > 0, DeviceKind::AirPurifier);
    let r = kind_if(d.signal_repeaters.len() > 0, DeviceKind::SignalRepeater);
    let found = l + so + b + a + r;
    assert forall|k: DeviceKind| #[trigger] found.contains(k) <==> (k != DeviceKind::Other
        && has_endpoint_of(d, k)) by {
        lemma_concat_contains(l + so + b + a, r, k);
        lemma_concat_contains(l + so + b, a, k);
        lemma_concat_contains(l + so, b, k);
        lemma_concat_contains(l, so, k);
        lemma_kind_if_contains(d.lights.len() > 0, DeviceKind::Light, k);
        lemma_kind_if_contains(d.sockets.len() > 0, DeviceKind::Socket, k);
        lemma_kind_if_contains(d.blinds.len() > 0, DeviceKind::Blind, k);
        lemma_kind_if_contains(d.air_purifiers.len() > 0, DeviceKind::AirPurifier, k);
        lemma_kind_if_contains(d.signal_repeaters.len() > 0, DeviceKind::SignalRepeater, k);
    }
    if found.len() == 0 {
        assert forall|k: DeviceKind| #[trigger] capability_list(d).contains(k)
            <==> has_endpoint_of(d, k) by {
            assert(capability_list(d) =~= seq![DeviceKind::Other]);
            assert(capability_list(d)[0] == DeviceKind::Other);
            if has_endpoint_of(d, k) && k != DeviceKind::Other {
                assert(found.contains(k));
            }
        }
    } else {
        assert(capability_list(d) == found);
        assert(found.contains(found[0]));
    }
}

fn push_kind_if(kinds: &mut Vec<DeviceKind>, present: bool, kind: DeviceKind)
    ensures
        final(kinds)@ == old(kinds)@ + kind_if(present, kind),
{
    if present {
        kinds.push(kind);
    }
    assert(kinds@ =~= old(kinds)@ + kind_if(present, kind));
}

impl Device {
    /// The display name, or `Unnamed device`.
    pub fn name(&self) -> (r: &str)
        ensures
            r@ == match self.display_name {
                Some(name) => name@,
                None => "Unnamed device"@,
            },
    {
        match &self.display_name {
            Some(name) => name.as_str(),
            None => "Unnamed device",
        }
    }

    /// Reachability as the gateway reports it: `1` is reachable.
    pub fn is_reachable(&self) -> (r: Option<bool>)
        ensures
            r == match self.reachable {
                Some(value) => Some(value == 1),
                None => None,
            },
    {
        match self.reachable {
            Some(value) => Some(value == 1),
            None => None,
        }
    }

    /// The kinds of endpoints the device has; never empty.
    pub fn capabilities(&self) -> (r: Vec<DeviceKind>)
        ensures
            r@ == capability_list(self),
            r@.len() >= 1,
            forall|k: DeviceKind| #[trigger] r@.contains(k) <==> has_endpoint_of(self, k),
    {
        proof {
            lemma_capabilities_law(self);
        }
        let mut kinds: Vec<DeviceKind> = Vec::with_capacity(5);
        push_kind_if(&mut kinds, self.lights.len() > 0, DeviceKind::Light);
        push_kind_if(&mut kinds, self.sockets.len() > 0, DeviceKind::Socket);
        push_kind_if(&mut kinds, self.blinds.len() > 0, DeviceKind::Blind);
        push_kind_if(&mut kinds, self.air_purifiers.len() > 0, DeviceKind::AirPurifier);
        push_kind_if(&mut kinds, self.signal_repeaters.len() > 0, DeviceKind::SignalRepeater);
        if kinds.len() == 0 {
            kinds.push(DeviceKind::Other);
        }
        assert(kinds@ =~= capability_list(self));
        kinds
    }

    /// The first of the device's capabilities.
    pub fn kind(&self) -> (r: DeviceKind)
        ensures
            r == capability_list(self)[0],
            has_endpoint_of(self, r),
    {
        let kinds = self.capabilities();
        assert(kinds@.contains(kinds@[0]));
        kinds[0]
    }

    /// The first light endpoint, if any.
    pub fn primary_light(&self) -> (r: Option<&Light>)
        ensures
            r == if self.lights.len() > 0 {
                Some(&self.lights@[0])
            } else {
                None
            },
    {
        if self.lights.len() > 0 {
            Some(&self.lights[0])
        } else {
            None
        }
    }
}

/// A group resource returned from `/15004/{id}`.
#[derive(Clone, PartialEq, Debug)]
pub struct Group {
    pub id: u32,
    pub display_name: Option<String>,
    pub state: u8,
    pub brightness: Option<u16>,
    pub color_hex: Option<String>,
    pub mood_id: Option<u32>,
    pub raw_members: JsonValue,
    pub extra: JsonMap,
}

/// The ids among `items` that are non-negative integers within `u32`, in order.
pub open spec fn ids_of(items: Seq<Json>) -> Seq<u32>
    decreases items.len(),
{
    if items.len() == 0 {
        Seq::empty()
    } else {
        let rest = ids_of(items.drop_last());
        match json_as_u64(items.last()) {
            Some(id) => if id <= u32::MAX {
                rest.push(id as u32)
            } else {
                rest
            },
            None => rest,
        }
    }
}

/// The member ids listed in a group's members attribute: the ids under
/// `15002` → `9003` when that is an array; none otherwise.
pub open spec fn member_ids_of(raw: Json) -> Seq<u32> {
    match json_get(raw, ATTR_HS_LINK@) {
        Some(links) => match json_get(links, ATTR_ID@) {
            Some(Json::Array(items)) => ids_of(items),
            _ => Seq::empty(),
        },
        None => Seq::empty(),
    }
}

/// The member id an item of a link list stands for: a non-negative integer
/// within `u32`.
pub open spec fn member_id(item: Json) -> Option<u32> {
    match json_as_u64(item) {
        Some(id) => if id <= u32::MAX {
            Some(id as u32)
        } else {
            None
        },
        None => None,
    }
}

/// The link list of a group's members attribute: the array under `15002` →
/// `9003`, if there is one.
pub open spec fn member_links(raw: Json) -> Option<Seq<Json>> {
    match json_get(raw, ATTR_HS_LINK@) {
        Some(links) => match json_get(links, ATTR_ID@) {
            Some(Json::Array(items)) => Some(items),
            _ => None,
        },
        None => None,
    }
}

/// The ids taken from a link list are its items that stand for a member id,
/// every one of them, in order, each as the id it stands for.
pub proof fn lemma_ids_of_law(items: Seq<Json>)
    ensures
        ids_of(items) == items.filter(|item: Json| member_id(item) is Some).map_values(
            |item: Json| member_id(item)->0,
        ),
    decreases items.len(),
{
    reveal(Seq::filter);
    let pred = |item: Json| member_id(item) is Some;
    let f = |item: Json| member_id(item)->0;
    if items.len() > 0 {
        lemma_ids_of_law(items.drop_last());
        let sub = items.drop_last().filter(pred);
        assert(items.filter(pred) == if pred(items.last()) {
            sub.push(items.last())
        } else {
            sub
        });
        if pred(items.last()) {
            assert(sub.push(items.last()).map_values(f) =~= sub.map_values(f).push(
                f(items.last()),
            ));
        }
    } else {
        assert(items.filter(pred).map_values(f) =~= Seq::<u32>::empty());
    }
}

impl Group {
    /// The display name, or `Unnamed group`.
    pub fn name(&self) -> (r: &str)
        ensures
            r@ == match self.display_name {
                Some(name) => name@,
                None => "Unnamed group"@,
            },
    {
        match &self.display_name {
            Some(name) => name.as_str(),
            None => "Unnamed group",
        }
    }

    pub fn is_on(&self) -> (r: bool)
        ensures
            r == (self.state == 1),
    {
        self.state == 1
    }

    pub fn member_ids(&self) -> (r: Vec<u32>)
        ensures
            r@ == member_ids_of(self.raw_members@),
            member_links(self.raw_members@) matches Some(items) ==> r@ == items.filter(
                |item: Json| member_id(item) is Some,
            ).map_values(|item: Json| member_id(item)->0),
            member_links(self.raw_members@) is None ==> r@.len() == 0,
    {
        proof {
            if let Some(items) = member_links(self.raw_members@) {
                lemma_ids_of_law(items);
            }
        }
        let mut ids: Vec<u32> = Vec::new();
        if let Some(links) = self.raw_members.get(ATTR_HS_LINK) {
            if let Some(listed) = links.get(ATTR_ID) {
                if let Some(items) = listed.as_array() {
                    let ghost view = items_view(items@);
                    let mut i: usize = 0;
                    while i < items.len()
                        invariant
                            i <= items.len(),
                            view == items_view(items@),
                            ids@ == ids_of(view.take(i as int)),
                        decreases items.len() - i,
                    {
                        assert(view.take(i + 1).drop_last() =~= view.take(i as int));
                        if let Some(id) = items[i].as_u64() {
                            if id <= u32::MAX as u64 {
                                ids.push(id as u32);
                            }
                        }
                        i = i + 1;
                    }
                    assert(view.take(items.len() as int) =~= view);
                }
            }
        }
        ids
    }
}

/// Successful response from the gateway identity provisioning endpoint.
#[derive(Clone, PartialEq, Eq, Debug)]
pub struct ProvisionedIdentity {
    pub pre_shared_key: String,
}

} // verus!
