//! Deciding, from the events a device backend reports, when the console was
//! plugged in or removed.
use vstd::prelude::*;
use crate::text::str_eq;

verus! {

/// What happened to the console.
#[derive(Debug, Clone, Copy, PartialEq, Eq, Structural)]
pub enum DeviceAction {
    Add,
    Remove,
}

/// The vendor name that USB databases give Nintendo.
pub open spec fn nintendo_vendor() -> Seq<char> {
    "Nintendo Co., Ltd"@
}

/// The product id string of the console in install mode.
pub open spec fn switch_product() -> Seq<char> {
    "57e/3000/100"@
}

/// What a udev event on a USB interface means: nothing when it names another
/// vendor or product; otherwise `add` and `remove` tell the console's arrival
/// and departure, and other actions mean nothing.
pub open spec fn spec_uevent_action(
    vendor: Option<Seq<char>>,
    product: Option<Seq<char>>,
    action: Seq<char>,
) -> Option<DeviceAction> {
    if vendor matches Some(v) && v != nintendo_vendor() {
        None
    } else if product matches Some(p) && p != switch_product() {
        None
    } else if action == "add"@ {
        Some(DeviceAction::Add)
    } else if action == "remove"@ {
        Some(DeviceAction::Remove)
    } else {
        None
    }
}

pub open spec fn opt_view(o: Option<&str>) -> Option<Seq<char>> {
    match o {
        Some(s) => Some(s@),
        None => None,
    }
}

/// The device action a udev event reports, if any.
pub fn uevent_action(vendor: Option<&str>, product: Option<&str>, action: &str) -> (r: Option<
    DeviceAction,
>)
    ensures
        r == spec_uevent_action(opt_view(vendor), opt_view(product), action@),
{
    if let Some(v) = vendor {
        if !str_eq(v, "Nintendo Co., Ltd") {
            return None;
        }
    }
    if let Some(p) = product {
        if !str_eq(p, "57e/3000/100") {
            return None;
        }
    }
    if str_eq(action, "add") {
        Some(DeviceAction::Add)
    } else if str_eq(action, "remove") {
        Some(DeviceAction::Remove)
    } else {
        None
    }
}

/// The console's udev events: an event on a device whose vendor is Nintendo
/// Co., Ltd or is not given, and whose product is the console's (57e/3000/100)
/// or is not given, reports the console's arrival for `add` and its removal
/// for `remove`, and nothing for any other action; an event naming another
/// vendor or another product reports nothing.
pub proof fn lemma_uevent_actions(
    vendor: Option<Seq<char>>,
    product: Option<Seq<char>>,
    action: Seq<char>,
)
    ensures
        (vendor is None || vendor == Some("Nintendo Co., Ltd"@)) && (product is None || product
            == Some("57e/3000/100"@)) ==> {
            &&& action == "add"@ ==> spec_uevent_action(vendor, product, action) == Some(
                DeviceAction::Add,
            )
            &&& action == "remove"@ ==> spec_uevent_action(vendor, product, action) == Some(
                DeviceAction::Remove,
            )
            &&& action != "add"@ && action != "remove"@ ==> spec_uevent_action(
                vendor,
                product,
                action,
            ) is None
        },
        vendor matches Some(v) && v != "Nintendo Co., Ltd"@ ==> spec_uevent_action(
            vendor,
            product,
            action,
        ) is None,
        product matches Some(p) && p != "57e/3000/100"@ ==> spec_uevent_action(
            vendor,
            product,
            action,
        ) is None,
{
    reveal_strlit("add");
    reveal_strlit("remove");
    assert("add"@ != "remove"@) by {
        assert("add"@.len() != "remove"@.len());
    }
}

/// The kinds of event the desktop portal reports on USB devices.
#[derive(Debug, Clone, Copy, PartialEq, Eq, Structural)]
pub enum UsbEventKind {
    Add,
    Remove,
    Change,
}

/// Follows the portal's device events to know which device is the console.
pub struct PortalTracker {
    /// The id of the last Nintendo device that was added.
    pub switch_id: Option<String>,
}

impl PortalTracker {
    pub fn new() -> (r: Self)
        ensures
            r.switch_id is None,
    {
        PortalTracker { switch_id: None }
    }

    /// Handles one portal event: adding a device of Nintendo's makes it the
    /// console and reports its arrival; removing the device that is the
    /// console reports its departure; anything else reports nothing.
    pub fn on_event(&mut self, kind: UsbEventKind, vendor: Option<&str>, device_id: &str) -> (r:
        Option<DeviceAction>)
        ensures
            kind == UsbEventKind::Add ==> {
                if vendor matches Some(v) && v@ == nintendo_vendor() {
                    &&& r == Some(DeviceAction::Add)
                    &&& final(self).switch_id matches Some(id) && id@ == device_id@
                } else {
                    &&& r is None
                    &&& final(self).switch_id == old(self).switch_id
                }
            },
            kind == UsbEventKind::Remove ==> {
                &&& final(self).switch_id == old(self).switch_id
                &&& r == (if old(self).switch_id matches Some(id) && id@ == device_id@ {
                    Some(DeviceAction::Remove)
                } else {
                    None
                })
            },
            kind == UsbEventKind::Change ==> r is None && final(self).switch_id == old(
                self,
            ).switch_id,
    {
        match kind {
            UsbEventKind::Add => {
                let is_nintendo = match vendor {
                    Some(v) => str_eq(v, "Nintendo Co., Ltd"),
                    None => false,
                };
                if !is_nintendo {
                    return None;
                }
                self.switch_id = Some(String::from_str(device_id));
                Some(DeviceAction::Add)
            },
            UsbEventKind::Remove => {
                let matches = match &self.switch_id {
                    Some(id) => str_eq(id.as_str(), device_id),
                    None => false,
                };
                if matches {
                    Some(DeviceAction::Remove)
                } else {
                    None
                }
            },
            UsbEventKind::Change => None,
        }
    }
}

/// The index of the console among devices given by their vendor and product
/// ids: the last one with Nintendo's vendor id 0x057E and product id 0x3000.
pub fn find_switch(ids: &Vec<(u16, u16)>) -> (r: Option<usize>)
    ensures
        r matches Some(i) ==> i < ids@.len() && ids@[i as int] == (0x057Eu16, 0x3000u16) && forall|
            j: int,
        | i < j < ids@.len() ==> ids@[j] != (0x057Eu16, 0x3000u16),
        r is None ==> forall|j: int| 0 <= j < ids@.len() ==> ids@[j] != (0x057Eu16, 0x3000u16),
{
    let mut found: Option<usize> = None;
    let mut i: usize = 0;
    while i < ids.len()
        invariant
            i <= ids@.len(),
            found matches Some(k) ==> k < i && ids@[k as int] == (0x057Eu16, 0x3000u16) && forall|
                j: int,
            | k < j < i ==> ids@[j] != (0x057Eu16, 0x3000u16),
            found is None ==> forall|j: int| 0 <= j < i ==> ids@[j] != (0x057Eu16, 0x3000u16),
        decreases ids.len() - i,
    {
        let (v, p) = ids[i];
        if v == 0x057E && p == 0x3000 {
            found = Some(i);
        }
        i = i + 1;
    }
    found
}

} // verus!
