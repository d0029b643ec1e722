//! How a connected device is named, addressed and listed.

use vstd::prelude::*;

verus! {

/// Session key of one physical device.
#[derive(Debug, PartialEq, Eq, PartialOrd, Ord, Hash)]
pub struct DeviceKey(String);

impl View for DeviceKey {
    type V = Seq<char>;

    closed spec fn view(&self) -> Seq<char> {
        self.0@
    }
}

impl Clone for DeviceKey {
    fn clone(&self) -> (copy: Self)
        ensures
            copy@ == self@,
    {
        DeviceKey(self.0.clone())
    }
}

impl Default for DeviceKey {
    /// The empty key, which names no device.
    fn default() -> (key: Self)
        ensures
            key@ == Seq::<char>::empty(),
    {
        DeviceKey(String::new())
    }
}

impl From<&str> for DeviceKey {
    fn from(text: &str) -> (key: Self)
        ensures
            key@ == text@,
    {
        DeviceKey(text.to_owned())
    }
}

impl vstd::std_specs::convert::FromSpecImpl<&str> for DeviceKey {
    open spec fn obeys_from_spec() -> bool {
        false
    }

    open spec fn from_spec(text: &str) -> Self {
        arbitrary()
    }
}

impl DeviceKey {
    /// The key as text.
    pub fn as_str(&self) -> (text: &str)
        ensures
            text@ == self@,
    {
        self.0.as_str()
    }

    /// The key as owned text.
    pub fn text(&self) -> (text: String)
        ensures
            text@ == self@,
    {
        self.0.clone()
    }

    /// Whether two keys name the same device.
    pub fn same(&self, other: &Self) -> (equal: bool)
        ensures
            equal == (self@ == other@),
    {
        self.0 == other.0
    }
}

/// Where a device is reached.
#[derive(Debug, PartialEq, Eq)]
pub enum DeviceRoute {
    /// Attached to the host itself, by cable or Bluetooth.
    Direct {
        /// USB vendor id.
        vendor_id: u16,
        /// USB product id.
        product_id: u16,
    },
    /// Paired with a wireless receiver.
    Receiver {
        /// Identity of the receiver.
        receiver: String,
        /// Pairing slot on the receiver.
        slot: u8,
    },
}

/// Mathematical contents of a [`DeviceRoute`].
#[verifier::ext_equal]
pub enum RouteView {
    Direct { vendor_id: u16, product_id: u16 },
    Receiver { receiver: Seq<char>, slot: u8 },
}

impl View for DeviceRoute {
    type V = RouteView;

    open spec fn view(&self) -> RouteView {
        match *self {
            DeviceRoute::Direct { vendor_id, product_id } => RouteView::Direct {
                vendor_id,
                product_id,
            },
            DeviceRoute::Receiver { receiver, slot } => RouteView::Receiver {
                receiver: receiver@,
                slot,
            },
        }
    }
}

impl Clone for DeviceRoute {
    fn clone(&self) -> (copy: Self)
        ensures
            copy@ == self@,
    {
        match self {
            DeviceRoute::Direct { vendor_id, product_id } => DeviceRoute::Direct {
                vendor_id: *vendor_id,
                product_id: *product_id,
            },
            DeviceRoute::Receiver { receiver, slot } => DeviceRoute::Receiver {
                receiver: receiver.clone(),
                slot: *slot,
            },
        }
    }
}

impl DeviceRoute {
    /// Whether two routes lead to the same place.
    pub fn same(&self, other: &Self) -> (equal: bool)
        ensures
            equal == (self@ == other@),
    {
        match (self, other) {
            (
                DeviceRoute::Direct { vendor_id, product_id },
                DeviceRoute::Direct { vendor_id: other_vendor, product_id: other_product },
            ) => *vendor_id == *other_vendor && *product_id == *other_product,
            (
                DeviceRoute::Receiver { receiver, slot },
                DeviceRoute::Receiver { receiver: other_receiver, slot: other_slot },
            ) => *receiver == *other_receiver && *slot == *other_slot,
            _ => false,
        }
    }
}

/// The view of an optional route.
pub open spec fn route_view(route: Option<DeviceRoute>) -> Option<RouteView> {
    match route {
        Some(route) => Some(route@),
        None => None,
    }
}

/// One device in the list that the application shows.
#[derive(Debug, PartialEq, Eq)]
pub struct DeviceRecord {
    /// Session key of the device.
    pub key: DeviceKey,
    /// Key under which its settings are saved, where it has a stable identity.
    pub config_key: Option<String>,
    /// Where it is reached; an offline device has no route.
    pub route: Option<DeviceRoute>,
}

impl DeviceRecord {
    /// The session key of the device.
    pub fn device_key(&self) -> (key: DeviceKey)
        ensures
            key@ == self.key@,
    {
        self.key.clone()
    }

    /// A copy of the key under which the settings of the device are saved.
    pub fn persistent_config_key(&self) -> (key: Option<String>)
        ensures
            match (key, self.config_key) {
                (Some(key), Some(saved)) => key@ == saved@,
                (None, None) => true,
                _ => false,
            },
    {
        match &self.config_key {
            Some(saved) => Some(saved.clone()),
            None => None,
        }
    }

    /// A copy of the route of the device.
    pub fn route_copy(&self) -> (route: Option<DeviceRoute>)
        ensures
            route_view(route) == route_view(self.route),
    {
        match &self.route {
            Some(route) => Some(route.clone()),
            None => None,
        }
    }
}

/// Two routes lead to the same place exactly if they agree in everything that they
/// name.
pub proof fn routes_are_told_apart(a: DeviceRoute, b: DeviceRoute)
    ensures
        a@ == b@ <==> match (a, b) {
            (
                DeviceRoute::Direct { vendor_id, product_id },
                DeviceRoute::Direct { vendor_id: other_vendor, product_id: other_product },
            ) => vendor_id == other_vendor && product_id == other_product,
            (
                DeviceRoute::Receiver { receiver, slot },
                DeviceRoute::Receiver { receiver: other_receiver, slot: other_slot },
            ) => receiver@ == other_receiver@ && slot == other_slot,
            _ => false,
        },
        route_view(Some(a)) == Some(a@),
        route_view(None) is None,
{
}

} // verus!
