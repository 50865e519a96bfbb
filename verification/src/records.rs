//! Device records collected while scanning (access points, Wi-Fi clients,
//! Bluetooth devices) and how a new sighting is merged into the record of a
//! device already seen.

use vstd::prelude::*;
use crate::channels::SpectrumBand;
use crate::text::str_eq;

verus! {

/// A position fix attached to a sighting. The coordinates are carried as the
/// IEEE-754 bit patterns of degrees (and metres), unchanged by this library.
#[derive(Debug, Clone, Copy, PartialEq, Eq, Structural)]
pub struct GeoObservation {
    /// Milliseconds since the Unix epoch.
    pub timestamp_ms: i64,
    pub latitude_bits: u64,
    pub longitude_bits: u64,
    pub altitude_bits: Option<u64>,
    pub rssi_dbm: Option<i32>,
}

/// Frames seen per 802.11 frame class.
#[derive(Debug, Clone, Copy, PartialEq, Eq, Structural)]
pub struct PacketTypeBreakdown {
    pub management: u64,
    pub control: u64,
    pub data: u64,
    pub other: u64,
}

impl PacketTypeBreakdown {
    pub open spec fn total_spec(self) -> int {
        self.management + self.control + self.data + self.other
    }

    /// Frames seen in all classes, saturating at `u64::MAX`.
    pub open spec fn total_value(self) -> u64 {
        if self.total_spec() <= u64::MAX {
            self.total_spec() as u64
        } else {
            u64::MAX
        }
    }

    /// Frames seen in all classes (saturating at `u64::MAX`).
    pub fn total(&self) -> (r: u64)
        ensures
            r == self.total_value(),
    {
        self.management.saturating_add(self.control).saturating_add(self.data).saturating_add(
            self.other,
        )
    }
}

/// The per-class maximum of two breakdowns.
pub open spec fn packet_mix_max(a: PacketTypeBreakdown, b: PacketTypeBreakdown) -> PacketTypeBreakdown {
    PacketTypeBreakdown {
        management: if a.management >= b.management {
            a.management
        } else {
            b.management
        },
        control: if a.control >= b.control {
            a.control
        } else {
            b.control
        },
        data: if a.data >= b.data {
            a.data
        } else {
            b.data
        },
        other: if a.other >= b.other {
            a.other
        } else {
            b.other
        },
    }
}

pub fn packet_mix_merge(a: PacketTypeBreakdown, b: PacketTypeBreakdown) -> (r: PacketTypeBreakdown)
    ensures
        r == packet_mix_max(a, b),
{
    PacketTypeBreakdown {
        management: if a.management >= b.management {
            a.management
        } else {
            b.management
        },
        control: if a.control >= b.control {
            a.control
        } else {
            b.control
        },
        data: if a.data >= b.data {
            a.data
        } else {
            b.data
        },
        other: if a.other >= b.other {
            a.other
        } else {
            b.other
        },
    }
}

/// WPS attributes advertised by a device.
#[derive(Debug, Clone)]
pub struct WpsInfo {
    pub version: Option<String>,
    pub state: Option<String>,
    pub config_methods: Option<String>,
    pub manufacturer: Option<String>,
    pub model_name: Option<String>,
    pub model_number: Option<String>,
    pub serial_number: Option<String>,
}

/// An access point as seen so far.
#[derive(Debug, Clone)]
pub struct AccessPointRecord {
    pub bssid: String,
    pub ssid: Option<String>,
    pub oui_manufacturer: Option<String>,
    pub country_code_80211d: Option<String>,
    pub channel: Option<u16>,
    pub frequency_mhz: Option<u32>,
    pub band: SpectrumBand,
    pub encryption_short: String,
    pub encryption_full: String,
    pub uptime_beacons: Option<u64>,
    pub rssi_dbm: Option<i32>,
    /// Milliseconds since the Unix epoch.
    pub first_seen: i64,
    pub last_seen: i64,
    pub handshake_count: u32,
    pub packet_mix: PacketTypeBreakdown,
    pub observations: Vec<GeoObservation>,
    pub number_of_clients: u32,
    pub notes: Option<String>,
    pub wps: Option<WpsInfo>,
    pub source_adapters: Vec<String>,
}

/// A remote endpoint a client talked to.
#[derive(Debug, Clone)]
pub struct ClientEndpointRecord {
    pub ip_address: String,
    pub protocol: String,
    pub port: Option<u16>,
    pub domain: Option<String>,
    pub geo_city: Option<String>,
    pub first_seen: i64,
    pub last_seen: i64,
    pub packet_count: u64,
}

/// What was learned about a client's network use.
#[derive(Debug, Clone)]
pub struct ClientNetworkIntel {
    pub local_ipv4_addresses: Vec<String>,
    pub local_ipv6_addresses: Vec<String>,
    pub dhcp_hostnames: Vec<String>,
    pub dhcp_fqdns: Vec<String>,
    pub dhcp_vendor_classes: Vec<String>,
    pub dns_names: Vec<String>,
    pub remote_endpoints: Vec<ClientEndpointRecord>,
    pub uplink_bytes: u64,
    pub downlink_bytes: u64,
    pub packet_mix: PacketTypeBreakdown,
    pub retry_frame_count: u64,
    pub power_save_observed: bool,
    pub qos_priorities: Vec<u8>,
    pub eapol_frame_count: u32,
    pub pmkid_count: u32,
    pub last_frame_type: Option<u8>,
    pub last_frame_subtype: Option<u8>,
    pub last_channel: Option<u16>,
    pub last_frequency_mhz: Option<u32>,
    pub band: SpectrumBand,
    pub last_reason_code: Option<u16>,
    pub last_status_code: Option<u16>,
    pub listen_interval: Option<u16>,
}

/// A Wi-Fi client as seen so far.
#[derive(Debug, Clone)]
pub struct ClientRecord {
    pub mac: String,
    pub oui_manufacturer: Option<String>,
    pub associated_ap: Option<String>,
    pub data_transferred_bytes: u64,
    pub rssi_dbm: Option<i32>,
    pub probes: Vec<String>,
    pub first_seen: i64,
    pub last_seen: i64,
    pub seen_access_points: Vec<String>,
    pub handshake_networks: Vec<String>,
    pub network_intel: ClientNetworkIntel,
    pub observations: Vec<GeoObservation>,
    pub wps: Option<WpsInfo>,
    pub source_adapters: Vec<String>,
}

/// A GATT service found by active enumeration.
#[derive(Debug, Clone)]
pub struct BluetoothGattService {
    pub uuid: String,
    pub name: Option<String>,
    pub primary: bool,
}

/// A GATT characteristic found by active enumeration.
#[derive(Debug, Clone)]
pub struct BluetoothGattCharacteristic {
    pub uuid: String,
    pub name: Option<String>,
    pub service_uuid: Option<String>,
    pub service_name: Option<String>,
    pub flags: Vec<String>,
}

/// A GATT descriptor found by active enumeration.
#[derive(Debug, Clone)]
pub struct BluetoothGattDescriptor {
    pub uuid: String,
    pub name: Option<String>,
    pub characteristic_uuid: Option<String>,
    pub characteristic_name: Option<String>,
    pub value: Option<String>,
}

/// A value read from a readable GATT attribute.
#[derive(Debug, Clone)]
pub struct BluetoothReadableAttribute {
    pub uuid: String,
    pub name: Option<String>,
    pub value: String,
}

/// Results of connecting to a Bluetooth device and reading its GATT database.
#[derive(Debug, Clone)]
pub struct BluetoothActiveEnumeration {
    pub last_enumerated: Option<i64>,
    pub connected: bool,
    pub paired: bool,
    pub trusted: bool,
    pub blocked: bool,
    pub services_resolved: bool,
    pub tx_power_dbm: Option<i32>,
    pub battery_percent: Option<u8>,
    pub appearance_code: Option<u16>,
    pub appearance_name: Option<String>,
    pub icon: Option<String>,
    pub modalias: Option<String>,
    pub services: Vec<BluetoothGattService>,
    pub characteristics: Vec<BluetoothGattCharacteristic>,
    pub descriptors: Vec<BluetoothGattDescriptor>,
    pub readable_attributes: Vec<BluetoothReadableAttribute>,
    pub last_error: Option<String>,
}

/// A Bluetooth device as seen so far.
#[derive(Debug, Clone)]
pub struct BluetoothDeviceRecord {
    pub mac: String,
    pub address_type: Option<String>,
    pub transport: String,
    pub oui_manufacturer: Option<String>,
    pub advertised_name: Option<String>,
    pub alias: Option<String>,
    pub device_type: Option<String>,
    pub class_of_device: Option<String>,
    pub rssi_dbm: Option<i32>,
    pub first_seen: i64,
    pub last_seen: i64,
    pub mfgr_ids: Vec<String>,
    pub mfgr_names: Vec<String>,
    pub uuids: Vec<String>,
    pub uuid_names: Vec<String>,
    pub active_enumeration: Option<BluetoothActiveEnumeration>,
    pub observations: Vec<GeoObservation>,
    pub source_adapters: Vec<String>,
}

pub open spec fn min_i64(a: i64, b: i64) -> i64 {
    if a <= b {
        a
    } else {
        b
    }
}

pub open spec fn max_i64(a: i64, b: i64) -> i64 {
    if a >= b {
        a
    } else {
        b
    }
}

/// `incoming` when it is present, else `current`.
pub open spec fn prefer<T>(incoming: Option<T>, current: Option<T>) -> Option<T> {
    match incoming {
        Some(v) => Some(v),
        None => current,
    }
}

/// Index of the first record key among `keys` equal to `key`.
pub open spec fn first_key(keys: Seq<Seq<char>>, key: Seq<char>) -> Option<int>
    decreases keys.len(),
{
    if keys.len() == 0 {
        None
    } else if keys[0] == key {
        Some(0)
    } else {
        match first_key(keys.drop_first(), key) {
            Some(i) => Some(i + 1),
            None => None,
        }
    }
}

pub proof fn lemma_first_key(keys: Seq<Seq<char>>, key: Seq<char>)
    ensures
        match first_key(keys, key) {
            Some(i) => 0 <= i < keys.len() && keys[i] == key && forall|j: int|
                0 <= j < i ==> keys[j] != key,
            None => forall|j: int| 0 <= j < keys.len() ==> keys[j] != key,
        },
    decreases keys.len(),
{
    if keys.len() > 0 && keys[0] != key {
        lemma_first_key(keys.drop_first(), key);
        match first_key(keys.drop_first(), key) {
            Some(i) => {
                assert forall|j: int| 0 <= j < i + 1 implies keys[j] != key by {
                    if j > 0 {
                        assert(keys[j] == keys.drop_first()[j - 1]);
                    }
                }
            },
            None => {
                assert forall|j: int| 0 <= j < keys.len() implies keys[j] != key by {
                    if j > 0 {
                        assert(keys[j] == keys.drop_first()[j - 1]);
                    }
                }
            },
        }
    }
}

pub open spec fn ap_keys(aps: Seq<AccessPointRecord>) -> Seq<Seq<char>> {
    aps.map_values(|a: AccessPointRecord| a.bssid@)
}

pub open spec fn client_keys(cs: Seq<ClientRecord>) -> Seq<Seq<char>> {
    cs.map_values(|c: ClientRecord| c.mac@)
}

pub open spec fn bluetooth_keys(ds: Seq<BluetoothDeviceRecord>) -> Seq<Seq<char>> {
    ds.map_values(|d: BluetoothDeviceRecord| d.mac@)
}

/// Index of the first access point with BSSID `bssid`.
pub fn find_ap(aps: &Vec<AccessPointRecord>, bssid: &str) -> (r: Option<usize>)
    ensures
        match r {
            Some(i) => first_key(ap_keys(aps@), bssid@) == Some(i as int),
            None => first_key(ap_keys(aps@), bssid@) is None,
        },
{
    proof {
        lemma_first_key(ap_keys(aps@), bssid@);
    }
    let mut i: usize = 0;
    while i < aps.len()
        invariant
            i <= aps@.len(),
            forall|j: int| 0 <= j < i ==> ap_keys(aps@)[j] != bssid@,
        decreases aps@.len() - i,
    {
        if str_eq(aps[i].bssid.as_str(), bssid) {
            proof {
                lemma_first_key(ap_keys(aps@), bssid@);
                match first_key(ap_keys(aps@), bssid@) {
                    Some(k) => {
                        if k > i {
                            assert(ap_keys(aps@)[i as int] == bssid@);
                        }
                    },
                    None => {
                        assert(ap_keys(aps@)[i as int] == bssid@);
                    },
                }
            }
            return Some(i);
        }
        i = i + 1;
    }
    proof {
        lemma_first_key(ap_keys(aps@), bssid@);
        match first_key(ap_keys(aps@), bssid@) {
            Some(k) => {
                assert(ap_keys(aps@)[k] != bssid@);
            },
            None => {},
        }
    }
    None
}

/// Index of the first client with MAC `mac`.
pub fn find_client(clients: &Vec<ClientRecord>, mac: &str) -> (r: Option<usize>)
    ensures
        match r {
            Some(i) => first_key(client_keys(clients@), mac@) == Some(i as int),
            None => first_key(client_keys(clients@), mac@) is None,
        },
{
    proof {
        lemma_first_key(client_keys(clients@), mac@);
    }
    let mut i: usize = 0;
    while i < clients.len()
        invariant
            i <= clients@.len(),
            forall|j: int| 0 <= j < i ==> client_keys(clients@)[j] != mac@,
        decreases clients@.len() - i,
    {
        if str_eq(clients[i].mac.as_str(), mac) {
            proof {
                lemma_first_key(client_keys(clients@), mac@);
                match first_key(client_keys(clients@), mac@) {
                    Some(k) => {
                        if k > i {
                            assert(client_keys(clients@)[i as int] == mac@);
                        }
                    },
                    None => {
                        assert(client_keys(clients@)[i as int] == mac@);
                    },
                }
            }
            return Some(i);
        }
        i = i + 1;
    }
    proof {
        lemma_first_key(client_keys(clients@), mac@);
        match first_key(client_keys(clients@), mac@) {
            Some(k) => {
                assert(client_keys(clients@)[k] != mac@);
            },
            None => {},
        }
    }
    None
}

/// Index of the first Bluetooth device with MAC `mac`.
pub fn find_bluetooth(devices: &Vec<BluetoothDeviceRecord>, mac: &str) -> (r: Option<usize>)
    ensures
        match r {
            Some(i) => first_key(bluetooth_keys(devices@), mac@) == Some(i as int),
            None => first_key(bluetooth_keys(devices@), mac@) is None,
        },
{
    proof {
        lemma_first_key(bluetooth_keys(devices@), mac@);
    }
    let mut i: usize = 0;
    while i < devices.len()
        invariant
            i <= devices@.len(),
            forall|j: int| 0 <= j < i ==> bluetooth_keys(devices@)[j] != mac@,
        decreases devices@.len() - i,
    {
        if str_eq(devices[i].mac.as_str(), mac) {
            proof {
                lemma_first_key(bluetooth_keys(devices@), mac@);
                match first_key(bluetooth_keys(devices@), mac@) {
                    Some(k) => {
                        if k > i {
                            assert(bluetooth_keys(devices@)[i as int] == mac@);
                        }
                    },
                    None => {
                        assert(bluetooth_keys(devices@)[i as int] == mac@);
                    },
                }
            }
            return Some(i);
        }
        i = i + 1;
    }
    proof {
        lemma_first_key(bluetooth_keys(devices@), mac@);
        match first_key(bluetooth_keys(devices@), mac@) {
            Some(k) => {
                assert(bluetooth_keys(devices@)[k] != mac@);
            },
            None => {},
        }
    }
    None
}

} // verus!
