use easywifi::channels::SpectrumBand;
use easywifi::merge::{
    client_count_for_ap, client_seen_on_ap, merge_ap, merge_bluetooth_device, merge_client,
    merge_client_network_intel, refresh_ap_client_count_for_bssid,
    refresh_ap_client_counts_for_client,
};
use easywifi::records::{
    AccessPointRecord, BluetoothDeviceRecord, ClientEndpointRecord, ClientNetworkIntel,
    ClientRecord, GeoObservation, PacketTypeBreakdown,
};

fn empty_mix() -> PacketTypeBreakdown {
    PacketTypeBreakdown { management: 0, control: 0, data: 0, other: 0 }
}

fn empty_intel() -> ClientNetworkIntel {
    ClientNetworkIntel {
        local_ipv4_addresses: vec![],
        local_ipv6_addresses: vec![],
        dhcp_hostnames: vec![],
        dhcp_fqdns: vec![],
        dhcp_vendor_classes: vec![],
        dns_names: vec![],
        remote_endpoints: vec![],
        uplink_bytes: 0,
        downlink_bytes: 0,
        packet_mix: empty_mix(),
        retry_frame_count: 0,
        power_save_observed: false,
        qos_priorities: vec![],
        eapol_frame_count: 0,
        pmkid_count: 0,
        last_frame_type: None,
        last_frame_subtype: None,
        last_channel: None,
        last_frequency_mhz: None,
        band: SpectrumBand::Unknown,
        last_reason_code: None,
        last_status_code: None,
        listen_interval: None,
    }
}

fn client(mac: &str, now: i64) -> ClientRecord {
    ClientRecord {
        mac: mac.to_string(),
        oui_manufacturer: None,
        associated_ap: None,
        data_transferred_bytes: 0,
        rssi_dbm: None,
        probes: vec![],
        first_seen: now,
        last_seen: now,
        seen_access_points: vec![],
        handshake_networks: vec![],
        network_intel: empty_intel(),
        observations: vec![],
        wps: None,
        source_adapters: vec![],
    }
}

fn ap(bssid: &str, now: i64) -> AccessPointRecord {
    AccessPointRecord {
        bssid: bssid.to_string(),
        ssid: None,
        oui_manufacturer: None,
        country_code_80211d: None,
        channel: None,
        frequency_mhz: None,
        band: SpectrumBand::Unknown,
        encryption_short: "Unknown".to_string(),
        encryption_full: "Unknown".to_string(),
        uptime_beacons: None,
        rssi_dbm: None,
        first_seen: now,
        last_seen: now,
        handshake_count: 0,
        packet_mix: empty_mix(),
        observations: vec![],
        number_of_clients: 0,
        notes: None,
        wps: None,
        source_adapters: vec![],
    }
}

fn endpoint(ip: &str, port: u16, last_seen: i64, packets: u64) -> ClientEndpointRecord {
    ClientEndpointRecord {
        ip_address: ip.to_string(),
        protocol: "TCP".to_string(),
        port: Some(port),
        domain: None,
        geo_city: None,
        first_seen: last_seen,
        last_seen,
        packet_count: packets,
    }
}

fn obs(ts: i64) -> GeoObservation {
    GeoObservation {
        timestamp_ms: ts,
        latitude_bits: 0,
        longitude_bits: 0,
        altitude_bits: None,
        rssi_dbm: Some(-40),
    }
}

#[test]
fn client_seen_on_ap_uses_current_association_only() {
    let now = 1_700_000_000_000;
    let mut client = client("AA:BB:CC:DD:EE:FF", now);
    client.associated_ap = Some("11:22:33:44:55:66".to_string());
    client.seen_access_points = vec!["77:88:99:AA:BB:CC".to_string()];

    assert!(client_seen_on_ap(&client, "11:22:33:44:55:66"));
    assert!(!client_seen_on_ap(&client, "77:88:99:AA:BB:CC"));
}

#[test]
fn merge_ap_keeps_known_values_and_widens_times() {
    let mut aps = vec![];
    let mut first = ap("00:11:22:33:44:55", 1000);
    first.ssid = Some("Home".to_string());
    first.encryption_short = "WPA2".to_string();
    first.handshake_count = 3;
    first.observations = vec![obs(1000)];
    merge_ap(&mut aps, first);
    assert_eq!(aps.len(), 1);

    let mut second = ap("00:11:22:33:44:55", 500);
    second.last_seen = 2000;
    second.channel = Some(6);
    second.handshake_count = 1;
    second.number_of_clients = 4;
    second.observations = vec![obs(2000)];
    merge_ap(&mut aps, second);

    assert_eq!(aps.len(), 1);
    let merged = &aps[0];
    assert_eq!(merged.ssid.as_deref(), Some("Home"));
    assert_eq!(merged.encryption_short, "WPA2");
    assert_eq!(merged.channel, Some(6));
    assert_eq!(merged.first_seen, 500);
    assert_eq!(merged.last_seen, 2000);
    assert_eq!(merged.handshake_count, 3);
    assert_eq!(merged.number_of_clients, 4);
    assert_eq!(merged.observations.len(), 2);

    merge_ap(&mut aps, ap("66:77:88:99:AA:BB", 3000));
    assert_eq!(aps.len(), 2);
    assert_eq!(aps[1].bssid, "66:77:88:99:AA:BB");
}

#[test]
fn merge_client_adds_missing_list_items_once() {
    let mut clients = vec![];
    let mut a = client("AA:AA:AA:AA:AA:AA", 100);
    a.probes = vec!["Cafe".to_string(), "Home".to_string()];
    merge_client(&mut clients, a);
    let mut b = client("AA:AA:AA:AA:AA:AA", 200);
    b.probes = vec!["Home".to_string(), "Office".to_string(), "Office".to_string()];
    b.associated_ap = Some("11:11:11:11:11:11".to_string());
    b.data_transferred_bytes = 50;
    merge_client(&mut clients, b);
    assert_eq!(clients.len(), 1);
    assert_eq!(clients[0].probes, vec!["Cafe", "Home", "Office"]);
    assert_eq!(clients[0].associated_ap.as_deref(), Some("11:11:11:11:11:11"));
    assert_eq!(clients[0].first_seen, 100);
    assert_eq!(clients[0].last_seen, 200);
    assert_eq!(clients[0].data_transferred_bytes, 50);
}

#[test]
fn network_intel_merge_orders_endpoints_newest_first() {
    let mut existing = client("AA:BB:CC:DD:EE:FF", 0);
    existing.network_intel.remote_endpoints = vec![endpoint("10.0.0.1", 443, 10, 5)];
    existing.network_intel.qos_priorities = vec![5, 0];
    let mut incoming = empty_intel();
    incoming.remote_endpoints = vec![
        endpoint("10.0.0.2", 80, 30, 1),
        endpoint("10.0.0.1", 443, 20, 2),
        endpoint("10.0.0.3", 53, 20, 9),
    ];
    incoming.qos_priorities = vec![3, 5];
    incoming.band = SpectrumBand::Ghz5;
    incoming.power_save_observed = true;
    merge_client_network_intel(&mut existing, &incoming);
    let eps = &existing.network_intel.remote_endpoints;
    let order: Vec<&str> = eps.iter().map(|e| e.ip_address.as_str()).collect();
    assert_eq!(order, vec!["10.0.0.2", "10.0.0.3", "10.0.0.1"]);
    let merged = eps.iter().find(|e| e.ip_address == "10.0.0.1").unwrap();
    assert_eq!(merged.first_seen, 10);
    assert_eq!(merged.last_seen, 20);
    assert_eq!(merged.packet_count, 5);
    assert_eq!(existing.network_intel.qos_priorities, vec![0, 3, 5]);
    assert_eq!(existing.network_intel.band, SpectrumBand::Ghz5);
    assert!(existing.network_intel.power_save_observed);
}

#[test]
fn network_intel_keeps_at_most_64_endpoints() {
    let mut existing = client("AA:BB:CC:DD:EE:FF", 0);
    let mut incoming = empty_intel();
    for i in 0..70u16 {
        incoming.remote_endpoints.push(endpoint("10.0.0.9", i, i as i64, 1));
    }
    merge_client_network_intel(&mut existing, &incoming);
    let eps = &existing.network_intel.remote_endpoints;
    assert_eq!(eps.len(), 64);
    assert_eq!(eps[0].port, Some(69));
    assert_eq!(eps[63].port, Some(6));
}

#[test]
fn bluetooth_merge_keeps_known_transport() {
    let mut devices = vec![];
    let base = BluetoothDeviceRecord {
        mac: "AA:BB:CC:00:11:22".to_string(),
        address_type: None,
        transport: "BLE".to_string(),
        oui_manufacturer: None,
        advertised_name: Some("Tag".to_string()),
        alias: None,
        device_type: None,
        class_of_device: None,
        rssi_dbm: Some(-70),
        first_seen: 50,
        last_seen: 60,
        mfgr_ids: vec!["004C".to_string()],
        mfgr_names: vec![],
        uuids: vec![],
        uuid_names: vec![],
        active_enumeration: None,
        observations: vec![],
        source_adapters: vec![],
    };
    let mut later = base.clone();
    merge_bluetooth_device(&mut devices, base);
    later.transport = "Unknown".to_string();
    later.advertised_name = None;
    later.rssi_dbm = None;
    later.first_seen = 70;
    later.last_seen = 90;
    later.mfgr_ids = vec!["004C".to_string(), "0006".to_string()];
    merge_bluetooth_device(&mut devices, later);
    assert_eq!(devices.len(), 1);
    assert_eq!(devices[0].transport, "BLE");
    assert_eq!(devices[0].advertised_name.as_deref(), Some("Tag"));
    assert_eq!(devices[0].rssi_dbm, Some(-70));
    assert_eq!(devices[0].first_seen, 50);
    assert_eq!(devices[0].last_seen, 90);
    assert_eq!(devices[0].mfgr_ids, vec!["004C", "0006"]);
}

#[test]
fn client_counts_follow_current_association() {
    let mut c1 = client("C1", 0);
    c1.associated_ap = Some("AP1".to_string());
    let mut c2 = client("C2", 0);
    c2.associated_ap = Some("AP1".to_string());
    c2.seen_access_points = vec!["AP2".to_string()];
    let clients = vec![c1, c2.clone()];
    assert_eq!(client_count_for_ap(&clients, "AP1"), 2);
    assert_eq!(client_count_for_ap(&clients, "AP2"), 0);

    let mut aps = vec![ap("AP1", 0), ap("AP2", 0)];
    refresh_ap_client_count_for_bssid(&mut aps, &clients, "AP1");
    assert_eq!(aps[0].number_of_clients, 2);

    aps[0].number_of_clients = 0;
    aps[1].number_of_clients = 5;
    let changed = refresh_ap_client_counts_for_client(&mut aps, &clients, &c2);
    assert_eq!(changed, vec!["AP2", "AP1"]);
    assert_eq!(aps[0].number_of_clients, 2);
    assert_eq!(aps[1].number_of_clients, 0);
}
