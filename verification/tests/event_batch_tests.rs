use easywifi::channels::SpectrumBand;
use easywifi::event_batch::{
    coalesce_bluetooth_events, coalesce_capture_events, drain_bluetooth_events_batch,
    drain_capture_events_batch,
};
use easywifi::records::{
    AccessPointRecord, BluetoothDeviceRecord, ClientNetworkIntel, ClientRecord, GeoObservation,
    PacketTypeBreakdown,
};
use easywifi::web_state::{BluetoothEvent, CaptureEvent, ChannelUsagePoint, HandshakeRecord};

fn mix() -> PacketTypeBreakdown {
    PacketTypeBreakdown { management: 0, control: 0, data: 0, other: 0 }
}

fn ap(bssid: &str, ssid: &str, last_seen: i64) -> AccessPointRecord {
    AccessPointRecord {
        bssid: bssid.to_string(),
        ssid: Some(ssid.to_string()),
        oui_manufacturer: None,
        country_code_80211d: None,
        channel: Some(1),
        frequency_mhz: None,
        band: SpectrumBand::Ghz2_4,
        encryption_short: "WPA2".to_string(),
        encryption_full: "WPA2".to_string(),
        uptime_beacons: None,
        rssi_dbm: Some(-42),
        first_seen: last_seen,
        last_seen,
        handshake_count: 0,
        packet_mix: mix(),
        observations: vec![],
        number_of_clients: 0,
        notes: None,
        wps: None,
        source_adapters: vec![],
    }
}

fn client(mac: &str, associated: &str, last_seen: i64) -> ClientRecord {
    ClientRecord {
        mac: mac.to_string(),
        oui_manufacturer: None,
        associated_ap: Some(associated.to_string()),
        data_transferred_bytes: 0,
        rssi_dbm: None,
        probes: vec![],
        first_seen: last_seen,
        last_seen,
        seen_access_points: vec![],
        handshake_networks: vec![],
        network_intel: ClientNetworkIntel {
            local_ipv4_addresses: vec![],
            local_ipv6_addresses: vec![],
            dhcp_hostnames: vec![],
            dhcp_fqdns: vec![],
            dhcp_vendor_classes: vec![],
            dns_names: vec![],
            remote_endpoints: vec![],
            uplink_bytes: 0,
            downlink_bytes: 0,
            packet_mix: mix(),
            retry_frame_count: 0,
            power_save_observed: false,
            qos_priorities: vec![],
            eapol_frame_count: 0,
            pmkid_count: 0,
            last_frame_type: None,
            last_frame_subtype: None,
            last_channel: None,
            last_frequency_mhz: None,
            band: SpectrumBand::Unknown,
            last_reason_code: None,
            last_status_code: None,
            listen_interval: None,
        },
        observations: vec![],
        wps: None,
        source_adapters: vec![],
    }
}

fn device(mac: &str) -> BluetoothDeviceRecord {
    BluetoothDeviceRecord {
        mac: mac.to_string(),
        address_type: None,
        transport: "le".to_string(),
        oui_manufacturer: Some("Known".to_string()),
        advertised_name: Some("Buds".to_string()),
        alias: None,
        device_type: None,
        class_of_device: None,
        rssi_dbm: Some(-60),
        first_seen: 1_000,
        last_seen: 1_000,
        mfgr_ids: vec![],
        mfgr_names: vec![],
        uuids: vec![],
        uuid_names: vec![],
        active_enumeration: None,
        observations: vec![],
        source_adapters: vec![],
    }
}

fn usage(channel: u16, packets: u64) -> ChannelUsagePoint {
    ChannelUsagePoint { timestamp_ms: 0, channel, band: SpectrumBand::Ghz2_4, utilization_percent_bits: 0, packets }
}

fn describe(e: &CaptureEvent) -> String {
    match e {
        CaptureEvent::Log(t) => format!("log:{t}"),
        CaptureEvent::AccessPointSeen(a) => format!("ap:{}:{}", a.bssid, a.last_seen),
        CaptureEvent::ClientSeen(c) => format!("client:{}:{}", c.mac, c.last_seen),
        CaptureEvent::Observation { device_id, .. } => format!("obs:{device_id}"),
        CaptureEvent::HandshakeSeen(h) => format!("hs:{}", h.bssid),
        CaptureEvent::ChannelUsage(u) => format!("usage:{}:{}", u.channel, u.packets),
    }
}

fn capture_events() -> Vec<CaptureEvent> {
    vec![
        CaptureEvent::AccessPointSeen(ap("AA", "one", 1)),
        CaptureEvent::ChannelUsage(usage(6, 10)),
        CaptureEvent::Log("first".to_string()),
        CaptureEvent::ClientSeen(client("C1", "AA", 5)),
        CaptureEvent::AccessPointSeen(ap("BB", "two", 2)),
        CaptureEvent::AccessPointSeen(ap("AA", "one", 3)),
        CaptureEvent::Observation {
            device_type: "ap".to_string(),
            device_id: "AA".to_string(),
            observation: GeoObservation { timestamp_ms: 0, latitude_bits: 0, longitude_bits: 0, altitude_bits: None, rssi_dbm: None },
        },
        CaptureEvent::HandshakeSeen(HandshakeRecord { bssid: "AA".to_string(), client_mac: "C1".to_string(), timestamp_ms: 4 }),
        CaptureEvent::ChannelUsage(usage(6, 20)),
        CaptureEvent::Log("second".to_string()),
    ]
}

#[test]
fn capture_batch_keeps_latest_per_device_and_channel() {
    let out: Vec<String> = coalesce_capture_events(capture_events()).iter().map(describe).collect();
    assert_eq!(
        out,
        vec!["log:first", "log:second", "ap:AA:3", "ap:BB:2", "client:C1:5", "obs:AA", "hs:AA", "usage:6:20"]
    );
}

#[test]
fn capture_batch_of_nothing_is_empty() {
    assert!(coalesce_capture_events(vec![]).is_empty());
}

#[test]
fn drain_stops_at_limit_and_when_empty() {
    let (tx, rx) = crossbeam_channel::unbounded();
    for e in capture_events() {
        tx.send(e).unwrap();
    }
    let first: Vec<String> = drain_capture_events_batch(&rx, 3).iter().map(describe).collect();
    assert_eq!(first, vec!["log:first", "ap:AA:1", "usage:6:10"]);
    let rest: Vec<String> = drain_capture_events_batch(&rx, 100).iter().map(describe).collect();
    assert_eq!(rest, vec!["log:second", "ap:BB:2", "ap:AA:3", "client:C1:5", "obs:AA", "hs:AA", "usage:6:20"]);
    assert!(drain_capture_events_batch(&rx, 100).is_empty());
}

fn describe_bt(e: &BluetoothEvent) -> String {
    match e {
        BluetoothEvent::Log(t) => format!("log:{t}"),
        BluetoothEvent::DeviceSeen(d) => format!("dev:{}:{:?}", d.mac, d.rssi_dbm),
        BluetoothEvent::EnumerationStatus { mac, message, is_error } => format!("status:{mac}:{message}:{is_error}"),
    }
}

#[test]
fn bluetooth_batch_keeps_latest_per_device() {
    let mut d1 = device("M1");
    d1.rssi_dbm = Some(-80);
    let mut d2 = device("M1");
    d2.rssi_dbm = Some(-50);
    let events = vec![
        BluetoothEvent::DeviceSeen(d1),
        BluetoothEvent::EnumerationStatus { mac: "M1".to_string(), message: "connecting".to_string(), is_error: false },
        BluetoothEvent::Log("scan".to_string()),
        BluetoothEvent::DeviceSeen(device("M2")),
        BluetoothEvent::EnumerationStatus { mac: "M1".to_string(), message: "failed".to_string(), is_error: true },
        BluetoothEvent::DeviceSeen(d2),
    ];
    let out: Vec<String> = coalesce_bluetooth_events(events).iter().map(describe_bt).collect();
    assert_eq!(out, vec!["log:scan", "status:M1:failed:true", "dev:M1:Some(-50)", "dev:M2:Some(-60)"]);
}

#[test]
fn bluetooth_drain_from_channel() {
    let (tx, rx) = crossbeam_channel::unbounded();
    tx.send(BluetoothEvent::Log("a".to_string())).unwrap();
    tx.send(BluetoothEvent::Log("b".to_string())).unwrap();
    let out: Vec<String> = drain_bluetooth_events_batch(&rx, 10).iter().map(describe_bt).collect();
    assert_eq!(out, vec!["log:a", "log:b"]);
}
