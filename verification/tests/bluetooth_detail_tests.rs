use easywifi::bluetooth_detail::{
    format_bluetooth_active_summary, format_bluetooth_characteristics, format_bluetooth_descriptors,
    format_bluetooth_detail_text, format_bluetooth_identity_section, format_bluetooth_passive_section,
    format_bluetooth_readable_attributes, format_bluetooth_services, format_bluetooth_uuid_metadata,
    UuidMetadata,
};
use easywifi::cells::LocationCells;
use easywifi::records::{
    BluetoothActiveEnumeration, BluetoothDeviceRecord, BluetoothGattCharacteristic,
    BluetoothGattDescriptor, BluetoothGattService, BluetoothReadableAttribute,
};

fn device() -> BluetoothDeviceRecord {
    BluetoothDeviceRecord {
        mac: "C0:FF:EE:00:00:01".to_string(),
        address_type: Some("random".to_string()),
        transport: "le".to_string(),
        oui_manufacturer: None,
        advertised_name: Some("Tag".to_string()),
        alias: None,
        device_type: None,
        class_of_device: None,
        rssi_dbm: Some(-70),
        first_seen: 0,
        last_seen: 1_000,
        mfgr_ids: vec!["0x004C".to_string(), "0x0006".to_string()],
        mfgr_names: vec!["Apple".to_string()],
        uuids: vec![],
        uuid_names: vec![],
        active_enumeration: None,
        observations: vec![],
        source_adapters: vec![],
    }
}

fn enumeration() -> BluetoothActiveEnumeration {
    BluetoothActiveEnumeration {
        last_enumerated: Some(946_684_800_000),
        connected: true,
        paired: false,
        trusted: false,
        blocked: false,
        services_resolved: true,
        tx_power_dbm: Some(-4),
        battery_percent: Some(87),
        appearance_code: Some(0x03C1),
        appearance_name: None,
        icon: None,
        modalias: Some("usb:v004Cp0001".to_string()),
        services: vec![
            BluetoothGattService { uuid: "180F".to_string(), name: Some("Battery".to_string()), primary: true },
            BluetoothGattService { uuid: "FEAA".to_string(), name: None, primary: false },
        ],
        characteristics: vec![BluetoothGattCharacteristic {
            uuid: "2A19".to_string(),
            name: None,
            service_uuid: Some("180F".to_string()),
            service_name: None,
            flags: vec!["read".to_string(), "notify".to_string()],
        }],
        descriptors: vec![BluetoothGattDescriptor {
            uuid: "2902".to_string(),
            name: None,
            characteristic_uuid: None,
            characteristic_name: None,
            value: Some("01 00".to_string()),
        }],
        readable_attributes: vec![],
        last_error: None,
    }
}

fn loc() -> LocationCells {
    LocationCells { first: "Unknown".to_string(), last: "Unknown".to_string(), strongest: "Unknown".to_string() }
}

#[test]
fn identity_section_lists_fields_with_unknowns() {
    let text = format_bluetooth_identity_section(&device(), &loc());
    assert!(text.starts_with("MAC: C0:FF:EE:00:00:01\nTransport: le\nAddress Type: random\nOUI: Unknown\nName: Tag\nAlias: Unknown\nDevice Type: Unknown\nClass: Unknown\nCurrent RSSI: -70 dBm\nFirst Seen: 1970-01-01 00:00:00 UTC\nLast Seen: 1970-01-01 00:00:01 UTC\n"));
    assert!(text.ends_with("First Location: Unknown\nLast Location: Unknown\nStrongest Location: Unknown"));
}

#[test]
fn passive_section_pairs_ids_with_names() {
    let text = format_bluetooth_passive_section(&device(), &vec![]);
    assert_eq!(
        text,
        "MFGR IDs: 0x004C (Apple), 0x0006 (Unknown)\nUUIDs: None observed\nUUID Resolver Details:\nNone observed"
    );
}

#[test]
fn uuid_metadata_lines() {
    let mut d = device();
    d.uuids = vec!["0000180f-0000-1000-8000-00805f9b34fb".to_string()];
    assert_eq!(format_bluetooth_uuid_metadata(&d, &vec![]), "No resolver metadata available");
    let m = vec![
        UuidMetadata {
            uuid: "0000180f-0000-1000-8000-00805f9b34fb".to_string(),
            name: Some("Battery".to_string()),
            kind: Some("Service".to_string()),
            short_form: Some("180F".to_string()),
        },
        UuidMetadata { uuid: "abcd".to_string(), name: None, kind: None, short_form: None },
    ];
    assert_eq!(
        format_bluetooth_uuid_metadata(&d, &m),
        "- 0000180f-0000-1000-8000-00805f9b34fb (180F): Battery [Service]\n- abcd: Unknown [Unknown Type]"
    );
}

#[test]
fn active_summary_without_enumeration() {
    assert_eq!(
        format_bluetooth_active_summary(&device()),
        "Not yet enumerated. Use Connect & Enumerate to actively query services and characteristics."
    );
    assert_eq!(format_bluetooth_services(&device()), "Not yet enumerated.");
    assert_eq!(format_bluetooth_readable_attributes(&device()), "Not yet enumerated.");
}

#[test]
fn active_summary_with_enumeration() {
    let mut d = device();
    d.active_enumeration = Some(enumeration());
    assert_eq!(
        format_bluetooth_active_summary(&d),
        "Last Enumerated: 2000-01-01 00:00:00 UTC\nConnected: True\nPaired: False\nTrusted: False\nBlocked: False\nServices Resolved: True\nTx Power: -4 dBm\nBattery: 87%\nAppearance: Unknown (0x03C1)\nIcon: Unknown\nModalias: usb:v004Cp0001\nLast Error: None"
    );
}

#[test]
fn gatt_lists() {
    let mut d = device();
    d.active_enumeration = Some(enumeration());
    assert_eq!(format_bluetooth_services(&d), "- Battery (180F) [primary]\n- Unknown Service (FEAA)");
    assert_eq!(format_bluetooth_characteristics(&d), "- Unknown Characteristic (2A19) via 180F [read, notify]");
    assert_eq!(format_bluetooth_descriptors(&d), "- Unknown Descriptor (2902) via Unknown Characteristic: 01 00");
    assert_eq!(format_bluetooth_readable_attributes(&d), "None read");
    let mut e = enumeration();
    e.readable_attributes = vec![BluetoothReadableAttribute {
        uuid: "2A19".to_string(),
        name: Some("Battery Level".to_string()),
        value: "87".to_string(),
    }];
    e.services.clear();
    d.active_enumeration = Some(e);
    assert_eq!(format_bluetooth_readable_attributes(&d), "- Battery Level (2A19): 87");
    assert_eq!(format_bluetooth_services(&d), "None enumerated");
}

#[test]
fn detail_text_has_all_sections() {
    let text = format_bluetooth_detail_text(&device(), &loc(), &vec![]);
    assert!(text.starts_with("Identity\nMAC: "));
    assert!(text.contains("\n\nPassive Broadcast Data\nMFGR IDs: "));
    assert!(text.ends_with("\n\nDescriptors\nNot yet enumerated."));
}
