use hearthdeck::system_status::{BluetoothStatus, SystemStatus, WifiStatus};

#[test]
fn wifi_icon_tracks_connection_strength() {
    let mut status = WifiStatus {
        enabled: true,
        connected: true,
        strength: 80,
    };
    assert_eq!(
        status.icon_name(),
        "network-wireless-signal-excellent-symbolic"
    );

    status.connected = false;
    assert_eq!(status.icon_name(), "network-wireless-disconnected-symbolic");
}

#[test]
fn wifi_strength_steps_at_each_quarter() {
    let icon = |strength| {
        WifiStatus {
            enabled: true,
            connected: true,
            strength,
        }
        .icon_name()
    };
    assert_eq!(icon(0), "network-wireless-signal-weak-symbolic");
    assert_eq!(icon(24), "network-wireless-signal-weak-symbolic");
    assert_eq!(icon(25), "network-wireless-signal-ok-symbolic");
    assert_eq!(icon(50), "network-wireless-signal-good-symbolic");
    assert_eq!(icon(75), "network-wireless-signal-excellent-symbolic");
}

#[test]
fn radios_describe_their_state() {
    let wifi = |enabled, connected| {
        WifiStatus {
            enabled,
            connected,
            strength: 60,
        }
        .label()
    };
    assert_eq!(wifi(false, true), "Wi-Fi off");
    assert_eq!(wifi(true, true), "Wi-Fi connected");
    assert_eq!(wifi(true, false), "Wi-Fi disconnected");

    let bluetooth = |enabled, connected| BluetoothStatus { enabled, connected }.label();
    assert_eq!(bluetooth(false, false), "Bluetooth off");
    assert_eq!(bluetooth(true, true), "Bluetooth connected");
    assert_eq!(bluetooth(true, false), "Bluetooth on");

    let unknown = SystemStatus::default();
    assert!(unknown.wifi.is_none() && unknown.bluetooth.is_none());
}

use hearthdeck::system_status::{bluetooth_from_adapter, wifi_from_snapshot, ActiveConnection};

#[test]
fn the_first_wifi_connection_gives_the_strength() {
    let status = wifi_from_snapshot(
        true,
        &[ActiveConnection::Other, ActiveConnection::Wifi(Some(62)), ActiveConnection::Wifi(Some(90))],
    );
    assert!(status.enabled && status.connected);
    assert_eq!(status.strength, 62);
    assert_eq!(status.icon_name(), "network-wireless-signal-good-symbolic");

    let unknown = wifi_from_snapshot(true, &[ActiveConnection::Wifi(None)]);
    assert!(unknown.connected);
    assert_eq!(unknown.strength, 0);

    let none = wifi_from_snapshot(false, &[ActiveConnection::Other]);
    assert!(!none.connected && !none.enabled);
    assert_eq!(none.label(), "Wi-Fi off");
}

#[test]
fn bluetooth_is_connected_when_any_device_is() {
    let status = bluetooth_from_adapter(true, &[false, true]);
    assert!(status.enabled && status.connected);
    assert_eq!(status.label(), "Bluetooth connected");
    let idle = bluetooth_from_adapter(true, &[false]);
    assert!(!idle.connected);
    assert_eq!(idle.label(), "Bluetooth on");
}
