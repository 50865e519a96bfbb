use easywifi::channels::SpectrumBand;
use easywifi::display::{
    ap_security_breakdown, bool_text, client_detail_signature, describe_channel_mode,
    display_dbm, format_beacon_uptime, format_client_detail_text, format_dbm,
    format_endpoint_summary, format_frame_subtype, format_qos_priorities, format_timestamp,
    is_randomized_mac, rssi_stats, sanitize_name, should_persist_device_update,
    should_record_observation, ClientFloatTexts, ThrottleEntry,
};
use easywifi::records::{
    AccessPointRecord, ClientEndpointRecord, ClientNetworkIntel, ClientRecord, GeoObservation,
    PacketTypeBreakdown,
};
use easywifi::settings::{ChannelModes, ChannelSelectionMode};

fn empty_mix() -> PacketTypeBreakdown {
    PacketTypeBreakdown { management: 0, control: 0, data: 0, other: 0 }
}

fn empty_intel() -> ClientNetworkIntel {
    ClientNetworkIntel {
        local_ipv4_addresses: vec![],
        local_ipv6_addresses: vec![],
        dhcp_hostnames: vec![],
        dhcp_fqdns: vec![],
        dhcp_vendor_classes: vec![],
        dns_names: vec![],
        remote_endpoints: vec![],
        uplink_bytes: 0,
        downlink_bytes: 0,
        packet_mix: empty_mix(),
        retry_frame_count: 0,
        power_save_observed: false,
        qos_priorities: vec![],
        eapol_frame_count: 0,
        pmkid_count: 0,
        last_frame_type: None,
        last_frame_subtype: None,
        last_channel: None,
        last_frequency_mhz: None,
        band: SpectrumBand::Unknown,
        last_reason_code: None,
        last_status_code: None,
        listen_interval: None,
    }
}

fn new_client(mac: &str, now: i64) -> ClientRecord {
    ClientRecord {
        mac: mac.to_string(),
        oui_manufacturer: None,
        associated_ap: None,
        data_transferred_bytes: 0,
        rssi_dbm: None,
        probes: vec![],
        first_seen: now,
        last_seen: now,
        seen_access_points: vec![],
        handshake_networks: vec![],
        network_intel: empty_intel(),
        observations: vec![],
        wps: None,
        source_adapters: vec![],
    }
}

fn new_ap(bssid: &str, encryption_full: &str) -> AccessPointRecord {
    AccessPointRecord {
        bssid: bssid.to_string(),
        ssid: None,
        oui_manufacturer: None,
        country_code_80211d: None,
        channel: None,
        frequency_mhz: None,
        band: SpectrumBand::Unknown,
        encryption_short: "WPA2".to_string(),
        encryption_full: encryption_full.to_string(),
        uptime_beacons: None,
        rssi_dbm: None,
        first_seen: 0,
        last_seen: 0,
        handshake_count: 0,
        packet_mix: empty_mix(),
        observations: vec![],
        number_of_clients: 0,
        notes: None,
        wps: None,
        source_adapters: vec![],
    }
}

fn float_texts() -> ClientFloatTexts {
    ClientFloatTexts {
        retry_rate: "Unknown".to_string(),
        first_location: "Unknown".to_string(),
        last_location: "Unknown".to_string(),
        strongest_location: "Unknown".to_string(),
    }
}

fn obs(rssi: Option<i32>) -> GeoObservation {
    GeoObservation {
        timestamp_ms: 0,
        latitude_bits: 0,
        longitude_bits: 0,
        altitude_bits: None,
        rssi_dbm: rssi,
    }
}

#[test]
fn client_detail_text_includes_network_intel_sections() {
    let now = 1_700_000_000_000;
    let mut client = new_client("AA:BB:CC:DD:EE:FF", now);
    client.oui_manufacturer = Some("Example Vendor".to_string());
    client.associated_ap = Some("11:22:33:44:55:66".to_string());
    client.rssi_dbm = Some(-52);
    client.probes = vec!["ExampleWiFi".to_string()];
    client.seen_access_points = vec!["11:22:33:44:55:66".to_string()];
    client.handshake_networks = vec!["11:22:33:44:55:66".to_string()];
    client.network_intel = ClientNetworkIntel {
        local_ipv4_addresses: vec!["192.168.1.25".to_string()],
        local_ipv6_addresses: vec!["fe80::1234".to_string()],
        dhcp_hostnames: vec!["phone".to_string()],
        dhcp_fqdns: vec!["phone.lan".to_string()],
        dhcp_vendor_classes: vec!["android-dhcp-13".to_string()],
        dns_names: vec!["example.com".to_string()],
        remote_endpoints: vec![ClientEndpointRecord {
            ip_address: "93.184.216.34".to_string(),
            protocol: "TCP".to_string(),
            port: Some(443),
            domain: Some("example.com".to_string()),
            geo_city: Some("Los Angeles, US".to_string()),
            first_seen: now,
            last_seen: now,
            packet_count: 4,
        }],
        uplink_bytes: 512,
        downlink_bytes: 1024,
        retry_frame_count: 2,
        power_save_observed: true,
        qos_priorities: vec![0, 5],
        eapol_frame_count: 1,
        pmkid_count: 1,
        last_frame_type: Some(2),
        last_frame_subtype: Some(8),
        last_channel: Some(6),
        last_frequency_mhz: Some(2437),
        band: SpectrumBand::Ghz2_4,
        last_reason_code: Some(7),
        last_status_code: Some(0),
        listen_interval: Some(10),
        ..empty_intel()
    };

    let rendered = format_client_detail_text(&client, &[], &float_texts());
    assert!(rendered.contains("Open Network Metadata"));
    assert!(rendered.contains("192.168.1.25"));
    assert!(rendered.contains("example.com"));
    assert!(rendered.contains("93.184.216.34:443"));
    assert!(rendered.contains("Radio And Behavior"));
    assert!(rendered.contains("Security"));
}

#[test]
fn client_detail_signature_changes_when_endpoint_content_changes() {
    let now = 1_700_000_000_000;
    let mut client = new_client("AA:BB:CC:DD:EE:FF", now);
    client.network_intel.remote_endpoints = vec![ClientEndpointRecord {
        ip_address: "93.184.216.34".to_string(),
        protocol: "TCP".to_string(),
        port: Some(443),
        domain: Some("example.com".to_string()),
        geo_city: Some("Los Angeles, US".to_string()),
        first_seen: now,
        last_seen: now,
        packet_count: 1,
    }];

    let before = client_detail_signature(&client);
    client.network_intel.remote_endpoints[0].packet_count = 2;
    let after_packets = client_detail_signature(&client);
    assert_ne!(before, after_packets);

    client.network_intel.remote_endpoints[0].domain = Some("www.example.com".to_string());
    let after_domain = client_detail_signature(&client);
    assert_ne!(after_packets, after_domain);
}

#[test]
fn client_detail_text_names_associated_network() {
    let mut client = new_client("AA:BB:CC:DD:EE:FF", 0);
    client.associated_ap = Some("11:22:33:44:55:66".to_string());
    let mut ap = new_ap("11:22:33:44:55:66", "");
    ap.ssid = Some("HomeNet".to_string());
    let rendered = format_client_detail_text(&client, &[ap], &float_texts());
    assert!(rendered.contains("HomeNet"));
}

#[test]
fn bool_and_dbm_texts() {
    assert_eq!(bool_text(true), "True");
    assert_eq!(bool_text(false), "False");
    assert_eq!(format_dbm(Some(-52)), "-52 dBm");
    assert_eq!(format_dbm(None), "");
    assert_eq!(display_dbm(Some(7)), "7 dBm");
    assert_eq!(display_dbm(None), "Unknown");
}

#[test]
fn beacon_uptime_is_days_and_clock() {
    assert_eq!(format_beacon_uptime(None), "Unknown");
    assert_eq!(format_beacon_uptime(Some(0)), "0d 00:00:00");
    assert_eq!(format_beacon_uptime(Some(90_061)), "1d 01:01:01");
    assert_eq!(format_beacon_uptime(Some(3_599)), "0d 00:59:59");
}

#[test]
fn randomized_mac_uses_locally_administered_bit() {
    assert!(is_randomized_mac("02:00:00:00:00:01"));
    assert!(is_randomized_mac("da:a1:19:00:00:00"));
    assert!(!is_randomized_mac("00:11:22:33:44:55"));
    assert!(!is_randomized_mac("zz:11:22:33:44:55"));
    assert!(!is_randomized_mac(""));
}

#[test]
fn frame_subtype_names() {
    assert_eq!(format_frame_subtype(Some(0), Some(8)), "Beacon");
    assert_eq!(format_frame_subtype(Some(0), Some(4)), "Probe Request");
    assert_eq!(format_frame_subtype(Some(2), Some(8)), "QoS Data");
    assert_eq!(format_frame_subtype(Some(1), Some(13)), "ACK");
    assert_eq!(format_frame_subtype(Some(3), Some(2)), "Type 3 / Subtype 2");
    assert_eq!(format_frame_subtype(None, Some(2)), "Unknown");
}

#[test]
fn qos_priorities_joined() {
    assert_eq!(format_qos_priorities(&[]), "None observed");
    assert_eq!(format_qos_priorities(&[0, 5, 7]), "0, 5, 7");
}

#[test]
fn sanitize_name_replaces_non_alphanumerics() {
    assert_eq!(sanitize_name("Home Net-5G!"), "Home_Net_5G_");
    assert_eq!(sanitize_name("abc123"), "abc123");
}

#[test]
fn security_breakdown_reads_parts() {
    let ap = new_ap("AA", "WPA2 - AKM PSK - Cipher CCMP - PMF Required");
    let (akm, cipher, pmf) = ap_security_breakdown(&ap);
    assert_eq!(akm, "PSK");
    assert_eq!(cipher, "CCMP");
    assert_eq!(pmf, "PMF Required");
    let open = new_ap("BB", "Open");
    assert_eq!(
        ap_security_breakdown(&open),
        ("Unknown".to_string(), "Unknown".to_string(), "Unknown".to_string())
    );
}

#[test]
fn channel_mode_descriptions() {
    let locked = ChannelSelectionMode::Locked { channel: 6, ht_mode: "HT20".to_string() };
    assert_eq!(describe_channel_mode(&locked), "Locked 6 (HT20)");
    let hop = ChannelSelectionMode::HopAll {
        channels: vec![1, 6, 11],
        dwell_ms: 200,
        ht_mode: "HT20".to_string(),
        channel_ht_modes: vec![
            ChannelModes { channel: 1, modes: vec!["HT20".to_string()] },
            ChannelModes { channel: 6, modes: vec!["HT40+".to_string()] },
        ],
    };
    assert_eq!(describe_channel_mode(&hop), "Hop Specific [3 channels @ 200 ms, HT20, mixed]");
    let same = ChannelSelectionMode::HopAll {
        channels: vec![1, 6],
        dwell_ms: 150,
        ht_mode: "HT20".to_string(),
        channel_ht_modes: vec![
            ChannelModes { channel: 1, modes: vec!["HT20".to_string()] },
            ChannelModes { channel: 6, modes: vec!["HT20".to_string()] },
        ],
    };
    assert_eq!(describe_channel_mode(&same), "Hop Specific [2 channels @ 150 ms, HT20]");
}

#[test]
fn endpoint_summary_lines() {
    let mut client = new_client("AA", 0);
    assert_eq!(format_endpoint_summary(&client), "None observed");
    client.network_intel.remote_endpoints = vec![ClientEndpointRecord {
        ip_address: "93.184.216.34".to_string(),
        protocol: "TCP".to_string(),
        port: Some(443),
        domain: None,
        geo_city: None,
        first_seen: 3_661_000,
        last_seen: 7_322_000,
        packet_count: 3,
    }];
    assert_eq!(
        format_endpoint_summary(&client),
        "TCP 93.184.216.34:443 | domain=unresolved | city=location unknown | packets=3 | first=01:01:01 | last=02:02:02"
    );
}

#[test]
fn rssi_stats_over_samples() {
    let (avg, min, max, n) = rssi_stats(&[obs(Some(-40)), obs(Some(-61)), obs(None)], None);
    assert_eq!((min, max, n), (Some(-61), Some(-40), 2));
    assert_eq!(avg, Some(-51));
    let (avg, min, max, n) = rssi_stats(&[], Some(-70));
    assert_eq!((avg, min, max, n), (Some(-70), Some(-70), Some(-70), 1));
    assert_eq!(rssi_stats(&[], None), (None, None, None, 0));
}

#[test]
fn observation_throttle_waits_three_seconds() {
    let mut map: Vec<ThrottleEntry> = Vec::new();
    assert!(should_record_observation(&mut map, "ap:AA", 10_000));
    assert!(!should_record_observation(&mut map, "ap:AA", 12_999));
    assert!(should_record_observation(&mut map, "ap:BB", 12_999));
    assert!(should_record_observation(&mut map, "ap:AA", 13_000));
    assert_eq!(map.len(), 2);
}

#[test]
fn device_update_throttle_waits_two_seconds() {
    let mut map: Vec<ThrottleEntry> = Vec::new();
    assert!(should_persist_device_update(&mut map, "bt:1", 0));
    assert!(!should_persist_device_update(&mut map, "bt:1", 1_999));
    assert!(should_persist_device_update(&mut map, "bt:1", 2_000));
}

#[test]
fn timestamps_render_in_utc() {
    assert_eq!(format_timestamp(1_700_000_000_000), "2023-11-14 22:13:20 UTC");
    assert_eq!(format_timestamp(0), "1970-01-01 00:00:00 UTC");
}
