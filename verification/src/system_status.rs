//! Network and Bluetooth status as the top bar shows it.
use vstd::prelude::*;

verus! {

#[derive(Clone, Debug)]
pub struct SystemStatus {
    pub wifi: Option<WifiStatus>,
    pub bluetooth: Option<BluetoothStatus>,
}

#[derive(Clone, Debug)]
pub struct WifiStatus {
    pub enabled: bool,
    pub connected: bool,
    pub strength: u8,
}

#[derive(Clone, Debug)]
pub struct BluetoothStatus {
    pub enabled: bool,
    pub connected: bool,
}

impl WifiStatus {
    /// The icon for the link: disconnected, or one of four strength steps
    /// (below 25, 50, 75, and the rest).
    pub fn icon_name(&self) -> (r: &'static str)
        ensures
            r@ == (if !self.enabled || !self.connected {
                "network-wireless-disconnected-symbolic"@
            } else if self.strength < 25 {
                "network-wireless-signal-weak-symbolic"@
            } else if self.strength < 50 {
                "network-wireless-signal-ok-symbolic"@
            } else if self.strength < 75 {
                "network-wireless-signal-good-symbolic"@
            } else {
                "network-wireless-signal-excellent-symbolic"@
            }),
    {
        if !self.enabled || !self.connected {
            "network-wireless-disconnected-symbolic"
        } else if self.strength < 25 {
            "network-wireless-signal-weak-symbolic"
        } else if self.strength < 50 {
            "network-wireless-signal-ok-symbolic"
        } else if self.strength < 75 {
            "network-wireless-signal-good-symbolic"
        } else {
            "network-wireless-signal-excellent-symbolic"
        }
    }

    pub fn label(&self) -> (r: &'static str)
        ensures
            r@ == (if !self.enabled {
                "Wi-Fi off"@
            } else if self.connected {
                "Wi-Fi connected"@
            } else {
                "Wi-Fi disconnected"@
            }),
    {
        if !self.enabled {
            "Wi-Fi off"
        } else if self.connected {
            "Wi-Fi connected"
        } else {
            "Wi-Fi disconnected"
        }
    }
}

impl BluetoothStatus {
    pub fn label(&self) -> (r: &'static str)
        ensures
            r@ == (if !self.enabled {
                "Bluetooth off"@
            } else if self.connected {
                "Bluetooth connected"@
            } else {
                "Bluetooth on"@
            }),
    {
        if !self.enabled {
            "Bluetooth off"
        } else if self.connected {
            "Bluetooth connected"
        } else {
            "Bluetooth on"
        }
    }
}


impl Default for SystemStatus {
    /// Nothing known yet about either radio.
    fn default() -> (r: Self)
        ensures
            r.wifi is None,
            r.bluetooth is None,
    {
        SystemStatus { wifi: None, bluetooth: None }
    }
}


/// An active network connection as NetworkManager reports it: Wi-Fi with
/// its signal strength when known, or another kind.
#[derive(Clone, Copy, Debug, PartialEq, Eq, Structural)]
pub enum ActiveConnection {
    Wifi(Option<u8>),
    Other,
}

/// The first Wi-Fi connection's signal strength (0 when unknown), from
/// `from` on.
pub open spec fn wifi_strength(links: Seq<ActiveConnection>, from: int) -> Option<u8>
    decreases links.len() - from,
{
    if from < 0 || from >= links.len() {
        None
    } else {
        match links[from] {
            ActiveConnection::Wifi(strength) => Some(
                match strength {
                    Some(s) => s,
                    None => 0,
                },
            ),
            ActiveConnection::Other => wifi_strength(links, from + 1),
        }
    }
}

/// The Wi-Fi status of a NetworkManager snapshot: whether Wi-Fi is on, and
/// the first active Wi-Fi connection, if any, with its strength.
pub fn wifi_from_snapshot(enabled: bool, active: &[ActiveConnection]) -> (r: WifiStatus)
    ensures
        r.enabled == enabled,
        r.connected == (wifi_strength(active@, 0) is Some),
        r.strength == match wifi_strength(active@, 0) {
            Some(s) => s,
            None => 0u8,
        },
{
    let mut i: usize = 0;
    while i < active.len()
        invariant
            i <= active@.len(),
            wifi_strength(active@, 0) == wifi_strength(active@, i as int),
        decreases active@.len() - i,
    {
        if let ActiveConnection::Wifi(strength) = active[i] {
            let strength = match strength {
                Some(s) => s,
                None => 0,
            };
            return WifiStatus { enabled, connected: true, strength };
        }
        i = i + 1;
    }
    WifiStatus { enabled, connected: false, strength: 0 }
}

/// The Bluetooth status of the default adapter: whether it is powered, and
/// whether any of its devices is connected.
pub fn bluetooth_from_adapter(powered: bool, devices_connected: &[bool]) -> (r: BluetoothStatus)
    ensures
        r.enabled == powered,
        r.connected == devices_connected@.contains(true),
{
    let mut i: usize = 0;
    while i < devices_connected.len()
        invariant
            i <= devices_connected@.len(),
            forall|k: int| 0 <= k < i ==> !devices_connected@[k],
        decreases devices_connected@.len() - i,
    {
        if devices_connected[i] {
            assert(devices_connected@[i as int]);
            return BluetoothStatus { enabled: powered, connected: true };
        }
        i = i + 1;
    }
    BluetoothStatus { enabled: powered, connected: false }
}

} // verus!
