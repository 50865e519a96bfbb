//! The detail view of a Bluetooth device: identity, passive broadcast data,
//! the summary of an active enumeration and the GATT database it read.

use vstd::prelude::*;
use crate::ap_detail::or_word;
use crate::cells::LocationCells;
use crate::display::{bool_word, time_text, seconds_text, format_timestamp, format_utc_seconds, push_joined, push_or};
use crate::records::{
    BluetoothDeviceRecord, BluetoothActiveEnumeration, BluetoothGattService,
    BluetoothGattCharacteristic, BluetoothGattDescriptor, BluetoothReadableAttribute,
};
use crate::text::{
    decimal, decimal_int, join, string_seqs, push_str, push_decimal, push_decimal_i64,
    string_from_chars,
};

verus! {

/// What the UUID resolver knows of one advertised UUID.
pub struct UuidMetadata {
    pub uuid: String,
    pub name: Option<String>,
    pub kind: Option<String>,
    pub short_form: Option<String>,
}

/// `<level> dBm`, or "Unknown".
pub open spec fn dbm_or_unknown(o: Option<i32>) -> Seq<char> {
    match o {
        Some(v) => decimal_int(v as int) + " dBm"@,
        None => "Unknown"@,
    }
}

/// The identity section; `loc` holds the location cells, rendered by the
/// caller from coordinates.
pub open spec fn identity_text(d: BluetoothDeviceRecord, loc: LocationCells) -> Seq<char> {
    "MAC: "@ + d.mac@ + "\nTransport: "@ + d.transport@ + "\nAddress Type: "@ + or_word(
        d.address_type,
        "Unknown"@,
    ) + "\nOUI: "@ + or_word(d.oui_manufacturer, "Unknown"@) + "\nName: "@ + or_word(
        d.advertised_name,
        "Unknown"@,
    ) + "\nAlias: "@ + or_word(d.alias, "Unknown"@) + "\nDevice Type: "@ + or_word(
        d.device_type,
        "Unknown"@,
    ) + "\nClass: "@ + or_word(d.class_of_device, "Unknown"@) + "\nCurrent RSSI: "@
        + dbm_or_unknown(d.rssi_dbm) + "\nFirst Seen: "@ + time_text(d.first_seen)
        + "\nLast Seen: "@ + time_text(d.last_seen) + "\nFirst Location: "@ + loc.first@
        + "\nLast Location: "@ + loc.last@ + "\nStrongest Location: "@ + loc.strongest@
}

fn push_dbm_or_unknown(out: &mut Vec<char>, o: Option<i32>)
    ensures
        final(out)@ == old(out)@ + dbm_or_unknown(o),
{
    match o {
        Some(v) => {
            push_decimal_i64(out, v as i64);
            push_str(out, " dBm");
            assert(final(out)@ =~= old(out)@ + dbm_or_unknown(o));
        },
        None => push_str(out, "Unknown"),
    }
}

/// The identity section of a Bluetooth device's detail view.
#[verifier::rlimit(40)]
pub fn format_bluetooth_identity_section(device: &BluetoothDeviceRecord, locations: &LocationCells) -> (r: String)
    ensures
        r@ == identity_text(*device, *locations),
{
    let d = device;
    let mut out: Vec<char> = Vec::new();
    push_str(&mut out, "MAC: ");
    push_str(&mut out, d.mac.as_str());
    push_str(&mut out, "\nTransport: ");
    push_str(&mut out, d.transport.as_str());
    push_str(&mut out, "\nAddress Type: ");
    push_or(&mut out, &d.address_type, "Unknown");
    push_str(&mut out, "\nOUI: ");
    push_or(&mut out, &d.oui_manufacturer, "Unknown");
    push_str(&mut out, "\nName: ");
    push_or(&mut out, &d.advertised_name, "Unknown");
    push_str(&mut out, "\nAlias: ");
    push_or(&mut out, &d.alias, "Unknown");
    push_str(&mut out, "\nDevice Type: ");
    push_or(&mut out, &d.device_type, "Unknown");
    push_str(&mut out, "\nClass: ");
    push_or(&mut out, &d.class_of_device, "Unknown");
    push_str(&mut out, "\nCurrent RSSI: ");
    push_dbm_or_unknown(&mut out, d.rssi_dbm);
    push_str(&mut out, "\nFirst Seen: ");
    push_str(&mut out, format_timestamp(d.first_seen).as_str());
    push_str(&mut out, "\nLast Seen: ");
    push_str(&mut out, format_timestamp(d.last_seen).as_str());
    push_str(&mut out, "\nFirst Location: ");
    push_str(&mut out, locations.first.as_str());
    push_str(&mut out, "\nLast Location: ");
    push_str(&mut out, locations.last.as_str());
    push_str(&mut out, "\nStrongest Location: ");
    push_str(&mut out, locations.strongest.as_str());
    assert(out@ =~= identity_text(*device, *locations));
    string_from_chars(out.as_slice())
}

/// An identifier with the name at the same position: `id (name)`, with
/// "Unknown" when there are fewer names than identifiers.
pub open spec fn named_id(ids: Seq<String>, names: Seq<String>, i: int) -> Seq<char> {
    ids[i]@ + " ("@ + (if i < names.len() {
        names[i]@
    } else {
        "Unknown"@
    }) + ")"@
}

/// A list of identifiers with their names: "None observed" when empty, the
/// identifiers alone when there are no names.
pub open spec fn named_ids_text(ids: Seq<String>, names: Seq<String>) -> Seq<char> {
    if ids.len() == 0 {
        "None observed"@
    } else if names.len() == 0 {
        join(string_seqs(ids), ", "@)
    } else {
        join(Seq::new(ids.len(), |i: int| named_id(ids, names, i)), ", "@)
    }
}

/// One line of the UUID resolver details.
pub open spec fn metadata_line(m: UuidMetadata) -> Seq<char> {
    "- "@ + m.uuid@ + (match m.short_form {
        Some(s) => " ("@ + s@ + ")"@,
        None => Seq::empty(),
    }) + ": "@ + or_word(m.name, "Unknown"@) + " ["@ + or_word(m.kind, "Unknown Type"@) + "]"@
}

/// The UUID resolver details of a device whose advertised UUIDs resolved to
/// `metadata`.
pub open spec fn uuid_metadata_text(d: BluetoothDeviceRecord, metadata: Seq<UuidMetadata>) -> Seq<char> {
    if d.uuids@.len() == 0 {
        "None observed"@
    } else if metadata.len() == 0 {
        "No resolver metadata available"@
    } else {
        join(Seq::new(metadata.len(), |i: int| metadata_line(metadata[i])), "\n"@)
    }
}

/// The passive broadcast section.
pub open spec fn passive_text(d: BluetoothDeviceRecord, metadata: Seq<UuidMetadata>) -> Seq<char> {
    "MFGR IDs: "@ + named_ids_text(d.mfgr_ids@, d.mfgr_names@) + "\nUUIDs: "@ + named_ids_text(
        d.uuids@,
        d.uuid_names@,
    ) + "\nUUID Resolver Details:\n"@ + uuid_metadata_text(d, metadata)
}

/// Appends `lines` joined by `sep`, where `lines[k]` is made from item `k`.
fn push_lines(out: &mut Vec<char>, lines: &Vec<String>, sep: &str)
    ensures
        final(out)@ == old(out)@ + join(string_seqs(lines@), sep@),
{
    push_joined(out, lines, sep);
}

fn push_named_ids(out: &mut Vec<char>, ids: &Vec<String>, names: &Vec<String>)
    ensures
        final(out)@ == old(out)@ + named_ids_text(ids@, names@),
{
    if ids.len() == 0 {
        push_str(out, "None observed");
    } else if names.len() == 0 {
        push_joined(out, ids, ", ");
    } else {
        let ghost want = Seq::new(ids@.len(), |i: int| named_id(ids@, names@, i));
        let mut lines: Vec<String> = Vec::new();
        let mut i: usize = 0;
        while i < ids.len()
            invariant
                i <= ids@.len(),
                want == Seq::new(ids@.len(), |i: int| named_id(ids@, names@, i)),
                string_seqs(lines@) == want.subrange(0, i as int),
            decreases ids@.len() - i,
        {
            let mut line: Vec<char> = Vec::new();
            push_str(&mut line, ids[i].as_str());
            push_str(&mut line, " (");
            if i < names.len() {
                push_str(&mut line, names[i].as_str());
            } else {
                push_str(&mut line, "Unknown");
            }
            push_str(&mut line, ")");
            assert(line@ =~= want[i as int]);
            let text = string_from_chars(line.as_slice());
            let ghost prev = lines@;
            lines.push(text);
            assert(string_seqs(lines@) =~= string_seqs(prev).push(want[i as int]));
            i = i + 1;
            assert(string_seqs(lines@) =~= want.subrange(0, i as int));
        }
        assert(want.subrange(0, ids@.len() as int) =~= want);
        push_lines(out, &lines, ", ");
    }
}

fn metadata_line_text(m: &UuidMetadata) -> (r: String)
    ensures
        r@ == metadata_line(*m),
{
    let mut line: Vec<char> = Vec::new();
    push_str(&mut line, "- ");
    push_str(&mut line, m.uuid.as_str());
    match &m.short_form {
        Some(s) => {
            push_str(&mut line, " (");
            push_str(&mut line, s.as_str());
            push_str(&mut line, ")");
        },
        None => {},
    }
    push_str(&mut line, ": ");
    push_or(&mut line, &m.name, "Unknown");
    push_str(&mut line, " [");
    push_or(&mut line, &m.kind, "Unknown Type");
    push_str(&mut line, "]");
    assert(line@ =~= metadata_line(*m));
    string_from_chars(line.as_slice())
}

/// The UUID resolver details of `device`; `metadata` is what the resolver
/// returned for its advertised UUIDs.
pub fn format_bluetooth_uuid_metadata(device: &BluetoothDeviceRecord, metadata: &Vec<UuidMetadata>) -> (r: String)
    ensures
        r@ == uuid_metadata_text(*device, metadata@),
{
    if device.uuids.len() == 0 {
        return String::from_str("None observed");
    }
    if metadata.len() == 0 {
        return String::from_str("No resolver metadata available");
    }
    let ghost want = Seq::new(metadata@.len(), |i: int| metadata_line(metadata@[i]));
    let mut lines: Vec<String> = Vec::new();
    let mut i: usize = 0;
    while i < metadata.len()
        invariant
            i <= metadata@.len(),
            want == Seq::new(metadata@.len(), |i: int| metadata_line(metadata@[i])),
            string_seqs(lines@) == want.subrange(0, i as int),
        decreases metadata@.len() - i,
    {
        let text = metadata_line_text(&metadata[i]);
        let ghost prev = lines@;
        lines.push(text);
        assert(string_seqs(lines@) =~= string_seqs(prev).push(want[i as int]));
        i = i + 1;
        assert(string_seqs(lines@) =~= want.subrange(0, i as int));
    }
    assert(want.subrange(0, metadata@.len() as int) =~= want);
    let mut out: Vec<char> = Vec::new();
    push_lines(&mut out, &lines, "\n");
    assert(out@ =~= uuid_metadata_text(*device, metadata@));
    string_from_chars(out.as_slice())
}

/// The passive broadcast section of a Bluetooth device's detail view.
pub fn format_bluetooth_passive_section(device: &BluetoothDeviceRecord, metadata: &Vec<UuidMetadata>) -> (r: String)
    ensures
        r@ == passive_text(*device, metadata@),
{
    let mut out: Vec<char> = Vec::new();
    push_str(&mut out, "MFGR IDs: ");
    push_named_ids(&mut out, &device.mfgr_ids, &device.mfgr_names);
    push_str(&mut out, "\nUUIDs: ");
    push_named_ids(&mut out, &device.uuids, &device.uuid_names);
    push_str(&mut out, "\nUUID Resolver Details:\n");
    let details = format_bluetooth_uuid_metadata(device, metadata);
    push_str(&mut out, details.as_str());
    assert(out@ =~= passive_text(*device, metadata@));
    string_from_chars(out.as_slice())
}

/// An upper-case hexadecimal digit.
pub open spec fn hex_digit_char(d: nat) -> char {
    if d < 10 {
        (48 + d) as char
    } else {
        (55 + d) as char
    }
}

/// A 16-bit value as four upper-case hexadecimal digits.
pub open spec fn hex4(v: u16) -> Seq<char> {
    seq![
        hex_digit_char((v / 4096) as nat),
        hex_digit_char(((v / 256) % 16) as nat),
        hex_digit_char(((v / 16) % 16) as nat),
        hex_digit_char((v % 16) as nat),
    ]
}

fn push_hex_digit(out: &mut Vec<char>, d: u16)
    requires
        d < 16,
    ensures
        final(out)@ == old(out)@.push(hex_digit_char(d as nat)),
{
    let b: u8 = d as u8;
    if b < 10 {
        out.push((48u8 + b) as char);
    } else {
        out.push((55u8 + b) as char);
    }
}

fn push_hex4(out: &mut Vec<char>, v: u16)
    ensures
        final(out)@ == old(out)@ + hex4(v),
{
    push_hex_digit(out, v / 4096);
    push_hex_digit(out, (v / 256) % 16);
    push_hex_digit(out, (v / 16) % 16);
    push_hex_digit(out, v % 16);
    assert(final(out)@ =~= old(out)@ + hex4(v));
}

/// What is shown of a device that was never enumerated.
pub open spec fn not_enumerated_summary() -> Seq<char> {
    "Not yet enumerated. Use Connect & Enumerate to actively query services and characteristics."@
}

/// The summary of an active enumeration.
pub open spec fn active_summary_of(a: BluetoothActiveEnumeration) -> Seq<char> {
    "Last Enumerated: "@ + (match a.last_enumerated {
        Some(t) => seconds_text(t),
        None => "Unknown"@,
    }) + "\nConnected: "@ + bool_word(a.connected) + "\nPaired: "@ + bool_word(a.paired)
        + "\nTrusted: "@ + bool_word(a.trusted) + "\nBlocked: "@ + bool_word(a.blocked)
        + "\nServices Resolved: "@ + bool_word(a.services_resolved) + "\nTx Power: "@
        + dbm_or_unknown(a.tx_power_dbm) + "\nBattery: "@ + (match a.battery_percent {
        Some(b) => decimal(b as nat) + "%"@,
        None => "Unknown"@,
    }) + "\nAppearance: "@ + (match a.appearance_code {
        Some(code) => or_word(a.appearance_name, "Unknown"@) + " (0x"@ + hex4(code) + ")"@,
        None => "Unknown"@,
    }) + "\nIcon: "@ + or_word(a.icon, "Unknown"@) + "\nModalias: "@ + or_word(
        a.modalias,
        "Unknown"@,
    ) + "\nLast Error: "@ + or_word(a.last_error, "None"@)
}

pub open spec fn active_summary_text(d: BluetoothDeviceRecord) -> Seq<char> {
    match d.active_enumeration {
        Some(a) => active_summary_of(a),
        None => not_enumerated_summary(),
    }
}

fn push_bool_word(out: &mut Vec<char>, b: bool)
    ensures
        final(out)@ == old(out)@ + bool_word(b),
{
    if b {
        push_str(out, "True");
    } else {
        push_str(out, "False");
    }
}

/// The active enumeration summary of a Bluetooth device's detail view.
#[verifier::rlimit(40)]
pub fn format_bluetooth_active_summary(device: &BluetoothDeviceRecord) -> (r: String)
    ensures
        r@ == active_summary_text(*device),
{
    let a = match &device.active_enumeration {
        Some(a) => a,
        None => {
            return String::from_str(
                "Not yet enumerated. Use Connect & Enumerate to actively query services and characteristics.",
            );
        },
    };
    let mut out: Vec<char> = Vec::new();
    push_str(&mut out, "Last Enumerated: ");
    match a.last_enumerated {
        Some(t) => push_str(&mut out, format_utc_seconds(t).as_str()),
        None => push_str(&mut out, "Unknown"),
    }
    push_str(&mut out, "\nConnected: ");
    push_bool_word(&mut out, a.connected);
    push_str(&mut out, "\nPaired: ");
    push_bool_word(&mut out, a.paired);
    push_str(&mut out, "\nTrusted: ");
    push_bool_word(&mut out, a.trusted);
    push_str(&mut out, "\nBlocked: ");
    push_bool_word(&mut out, a.blocked);
    push_str(&mut out, "\nServices Resolved: ");
    push_bool_word(&mut out, a.services_resolved);
    push_str(&mut out, "\nTx Power: ");
    push_dbm_or_unknown(&mut out, a.tx_power_dbm);
    push_str(&mut out, "\nBattery: ");
    let ghost before_battery = out@;
    match a.battery_percent {
        Some(b) => {
            push_decimal(&mut out, b as u64);
            push_str(&mut out, "%");
            assert(out@ =~= before_battery + (decimal(b as nat) + "%"@));
        },
        None => push_str(&mut out, "Unknown"),
    }
    push_str(&mut out, "\nAppearance: ");
    let ghost before_appearance = out@;
    match a.appearance_code {
        Some(code) => {
            push_or(&mut out, &a.appearance_name, "Unknown");
            push_str(&mut out, " (0x");
            push_hex4(&mut out, code);
            push_str(&mut out, ")");
            assert(out@ =~= before_appearance + (or_word(a.appearance_name, "Unknown"@) + " (0x"@
                + hex4(code) + ")"@));
        },
        None => push_str(&mut out, "Unknown"),
    }
    push_str(&mut out, "\nIcon: ");
    push_or(&mut out, &a.icon, "Unknown");
    push_str(&mut out, "\nModalias: ");
    push_or(&mut out, &a.modalias, "Unknown");
    push_str(&mut out, "\nLast Error: ");
    push_or(&mut out, &a.last_error, "None");
    assert(out@ =~= active_summary_text(*device));
    string_from_chars(out.as_slice())
}

/// A GATT list: "Not yet enumerated." without an enumeration, `empty` when
/// the list is empty, else its lines.
pub open spec fn gatt_list_text(enumerated: bool, lines: Seq<Seq<char>>, empty: Seq<char>) -> Seq<char> {
    if !enumerated {
        "Not yet enumerated."@
    } else if lines.len() == 0 {
        empty
    } else {
        join(lines, "\n"@)
    }
}

pub open spec fn attribute_line(a: BluetoothReadableAttribute) -> Seq<char> {
    "- "@ + or_word(a.name, "Unknown Attribute"@) + " ("@ + a.uuid@ + "): "@ + a.value@
}

pub open spec fn service_line(s: BluetoothGattService) -> Seq<char> {
    "- "@ + or_word(s.name, "Unknown Service"@) + " ("@ + s.uuid@ + ")"@ + (if s.primary {
        " [primary]"@
    } else {
        Seq::empty()
    })
}

/// The first of two optional names that is there, else `fallback`.
pub open spec fn first_or(a: Option<String>, b: Option<String>, fallback: Seq<char>) -> Seq<char> {
    match a {
        Some(x) => x@,
        None => or_word(b, fallback),
    }
}

pub open spec fn characteristic_line(c: BluetoothGattCharacteristic) -> Seq<char> {
    "- "@ + or_word(c.name, "Unknown Characteristic"@) + " ("@ + c.uuid@ + ") via "@ + first_or(
        c.service_name,
        c.service_uuid,
        "Unknown Service"@,
    ) + " ["@ + (if c.flags@.len() == 0 {
        "no flags"@
    } else {
        join(string_seqs(c.flags@), ", "@)
    }) + "]"@
}

pub open spec fn descriptor_line(d: BluetoothGattDescriptor) -> Seq<char> {
    "- "@ + or_word(d.name, "Unknown Descriptor"@) + " ("@ + d.uuid@ + ") via "@ + first_or(
        d.characteristic_name,
        d.characteristic_uuid,
        "Unknown Characteristic"@,
    ) + match d.value {
        Some(v) => ": "@ + v@,
        None => Seq::empty(),
    }
}

pub open spec fn readable_attributes_text(d: BluetoothDeviceRecord) -> Seq<char> {
    match d.active_enumeration {
        Some(a) => gatt_list_text(
            true,
            Seq::new(a.readable_attributes@.len(), |i: int| attribute_line(a.readable_attributes@[i])),
            "None read"@,
        ),
        None => gatt_list_text(false, Seq::empty(), Seq::empty()),
    }
}

pub open spec fn services_text(d: BluetoothDeviceRecord) -> Seq<char> {
    match d.active_enumeration {
        Some(a) => gatt_list_text(
            true,
            Seq::new(a.services@.len(), |i: int| service_line(a.services@[i])),
            "None enumerated"@,
        ),
        None => gatt_list_text(false, Seq::empty(), Seq::empty()),
    }
}

pub open spec fn characteristics_text(d: BluetoothDeviceRecord) -> Seq<char> {
    match d.active_enumeration {
        Some(a) => gatt_list_text(
            true,
            Seq::new(a.characteristics@.len(), |i: int| characteristic_line(a.characteristics@[i])),
            "None enumerated"@,
        ),
        None => gatt_list_text(false, Seq::empty(), Seq::empty()),
    }
}

pub open spec fn descriptors_text(d: BluetoothDeviceRecord) -> Seq<char> {
    match d.active_enumeration {
        Some(a) => gatt_list_text(
            true,
            Seq::new(a.descriptors@.len(), |i: int| descriptor_line(a.descriptors@[i])),
            "None enumerated"@,
        ),
        None => gatt_list_text(false, Seq::empty(), Seq::empty()),
    }
}

fn attribute_line_text(a: &BluetoothReadableAttribute) -> (r: String)
    ensures
        r@ == attribute_line(*a),
{
    let mut line: Vec<char> = Vec::new();
    push_str(&mut line, "- ");
    push_or(&mut line, &a.name, "Unknown Attribute");
    push_str(&mut line, " (");
    push_str(&mut line, a.uuid.as_str());
    push_str(&mut line, "): ");
    push_str(&mut line, a.value.as_str());
    assert(line@ =~= attribute_line(*a));
    string_from_chars(line.as_slice())
}

fn service_line_text(s: &BluetoothGattService) -> (r: String)
    ensures
        r@ == service_line(*s),
{
    let mut line: Vec<char> = Vec::new();
    push_str(&mut line, "- ");
    push_or(&mut line, &s.name, "Unknown Service");
    push_str(&mut line, " (");
    push_str(&mut line, s.uuid.as_str());
    push_str(&mut line, ")");
    if s.primary {
        push_str(&mut line, " [primary]");
    }
    assert(line@ =~= service_line(*s));
    string_from_chars(line.as_slice())
}

fn push_first_or(out: &mut Vec<char>, a: &Option<String>, b: &Option<String>, fallback: &str)
    ensures
        final(out)@ == old(out)@ + first_or(*a, *b, fallback@),
{
    match a {
        Some(x) => push_str(out, x.as_str()),
        None => push_or(out, b, fallback),
    }
}

fn characteristic_line_text(c: &BluetoothGattCharacteristic) -> (r: String)
    ensures
        r@ == characteristic_line(*c),
{
    let mut line: Vec<char> = Vec::new();
    push_str(&mut line, "- ");
    push_or(&mut line, &c.name, "Unknown Characteristic");
    push_str(&mut line, " (");
    push_str(&mut line, c.uuid.as_str());
    push_str(&mut line, ") via ");
    push_first_or(&mut line, &c.service_name, &c.service_uuid, "Unknown Service");
    push_str(&mut line, " [");
    if c.flags.len() == 0 {
        push_str(&mut line, "no flags");
    } else {
        push_joined(&mut line, &c.flags, ", ");
    }
    push_str(&mut line, "]");
    assert(line@ =~= characteristic_line(*c));
    string_from_chars(line.as_slice())
}

fn descriptor_line_text(d: &BluetoothGattDescriptor) -> (r: String)
    ensures
        r@ == descriptor_line(*d),
{
    let mut line: Vec<char> = Vec::new();
    push_str(&mut line, "- ");
    push_or(&mut line, &d.name, "Unknown Descriptor");
    push_str(&mut line, " (");
    push_str(&mut line, d.uuid.as_str());
    push_str(&mut line, ") via ");
    push_first_or(&mut line, &d.characteristic_name, &d.characteristic_uuid, "Unknown Characteristic");
    let ghost head = line@;
    match &d.value {
        Some(v) => {
            push_str(&mut line, ": ");
            push_str(&mut line, v.as_str());
            assert(line@ =~= head + (": "@ + v@));
        },
        None => {
            assert(line@ =~= head + Seq::<char>::empty());
        },
    }
    assert(line@ =~= descriptor_line(*d));
    string_from_chars(line.as_slice())
}

/// Joins `lines` with line breaks, or gives `empty` when there are none.
fn lines_or(lines: &Vec<String>, empty: &str) -> (r: String)
    ensures
        r@ == gatt_list_text(true, string_seqs(lines@), empty@),
{
    if lines.len() == 0 {
        return empty.to_string();
    }
    let mut out: Vec<char> = Vec::new();
    push_joined(&mut out, lines, "\n");
    assert(out@ =~= join(string_seqs(lines@), "\n"@));
    string_from_chars(out.as_slice())
}

/// The readable attributes section of a Bluetooth device's detail view.
pub fn format_bluetooth_readable_attributes(device: &BluetoothDeviceRecord) -> (r: String)
    ensures
        r@ == readable_attributes_text(*device),
{
    let a = match &device.active_enumeration {
        Some(a) => a,
        None => {
            return String::from_str("Not yet enumerated.");
        },
    };
    let items = &a.readable_attributes;
    let ghost want = Seq::new(items@.len(), |i: int| attribute_line(items@[i]));
    let mut lines: Vec<String> = Vec::new();
    let mut i: usize = 0;
    while i < items.len()
        invariant
            i <= items@.len(),
            want == Seq::new(items@.len(), |i: int| attribute_line(items@[i])),
            string_seqs(lines@) == want.subrange(0, i as int),
        decreases items@.len() - i,
    {
        let text = attribute_line_text(&items[i]);
        let ghost prev = lines@;
        lines.push(text);
        assert(string_seqs(lines@) =~= string_seqs(prev).push(want[i as int]));
        i = i + 1;
    }
    assert(want.subrange(0, items@.len() as int) =~= want);
    lines_or(&lines, "None read")
}

/// The services section of a Bluetooth device's detail view.
pub fn format_bluetooth_services(device: &BluetoothDeviceRecord) -> (r: String)
    ensures
        r@ == services_text(*device),
{
    let a = match &device.active_enumeration {
        Some(a) => a,
        None => {
            return String::from_str("Not yet enumerated.");
        },
    };
    let items = &a.services;
    let ghost want = Seq::new(items@.len(), |i: int| service_line(items@[i]));
    let mut lines: Vec<String> = Vec::new();
    let mut i: usize = 0;
    while i < items.len()
        invariant
            i <= items@.len(),
            want == Seq::new(items@.len(), |i: int| service_line(items@[i])),
            string_seqs(lines@) == want.subrange(0, i as int),
        decreases items@.len() - i,
    {
        let text = service_line_text(&items[i]);
        let ghost prev = lines@;
        lines.push(text);
        assert(string_seqs(lines@) =~= string_seqs(prev).push(want[i as int]));
        i = i + 1;
    }
    assert(want.subrange(0, items@.len() as int) =~= want);
    lines_or(&lines, "None enumerated")
}

/// The characteristics section of a Bluetooth device's detail view.
pub fn format_bluetooth_characteristics(device: &BluetoothDeviceRecord) -> (r: String)
    ensures
        r@ == characteristics_text(*device),
{
    let a = match &device.active_enumeration {
        Some(a) => a,
        None => {
            return String::from_str("Not yet enumerated.");
        },
    };
    let items = &a.characteristics;
    let ghost want = Seq::new(items@.len(), |i: int| characteristic_line(items@[i]));
    let mut lines: Vec<String> = Vec::new();
    let mut i: usize = 0;
    while i < items.len()
        invariant
            i <= items@.len(),
            want == Seq::new(items@.len(), |i: int| characteristic_line(items@[i])),
            string_seqs(lines@) == want.subrange(0, i as int),
        decreases items@.len() - i,
    {
        let text = characteristic_line_text(&items[i]);
        let ghost prev = lines@;
        lines.push(text);
        assert(string_seqs(lines@) =~= string_seqs(prev).push(want[i as int]));
        i = i + 1;
    }
    assert(want.subrange(0, items@.len() as int) =~= want);
    lines_or(&lines, "None enumerated")
}

/// The descriptors section of a Bluetooth device's detail view.
pub fn format_bluetooth_descriptors(device: &BluetoothDeviceRecord) -> (r: String)
    ensures
        r@ == descriptors_text(*device),
{
    let a = match &device.active_enumeration {
        Some(a) => a,
        None => {
            return String::from_str("Not yet enumerated.");
        },
    };
    let items = &a.descriptors;
    let ghost want = Seq::new(items@.len(), |i: int| descriptor_line(items@[i]));
    let mut lines: Vec<String> = Vec::new();
    let mut i: usize = 0;
    while i < items.len()
        invariant
            i <= items@.len(),
            want == Seq::new(items@.len(), |i: int| descriptor_line(items@[i])),
            string_seqs(lines@) == want.subrange(0, i as int),
        decreases items@.len() - i,
    {
        let text = descriptor_line_text(&items[i]);
        let ghost prev = lines@;
        lines.push(text);
        assert(string_seqs(lines@) =~= string_seqs(prev).push(want[i as int]));
        i = i + 1;
    }
    assert(want.subrange(0, items@.len() as int) =~= want);
    lines_or(&lines, "None enumerated")
}

/// The whole detail view: each section under its heading.
pub open spec fn detail_text(d: BluetoothDeviceRecord, loc: LocationCells, metadata: Seq<UuidMetadata>) -> Seq<char> {
    "Identity\n"@ + identity_text(d, loc) + "\n\nPassive Broadcast Data\n"@ + passive_text(d, metadata)
        + "\n\nActive Enumeration Summary\n"@ + active_summary_text(d) + "\n\nReadable Attributes\n"@
        + readable_attributes_text(d) + "\n\nServices\n"@ + services_text(d)
        + "\n\nCharacteristics\n"@ + characteristics_text(d) + "\n\nDescriptors\n"@
        + descriptors_text(d)
}

/// The text of a Bluetooth device's detail view; `locations` are its
/// location cells and `metadata` what the UUID resolver knows of its UUIDs.
pub fn format_bluetooth_detail_text(
    device: &BluetoothDeviceRecord,
    locations: &LocationCells,
    metadata: &Vec<UuidMetadata>,
) -> (r: String)
    ensures
        r@ == detail_text(*device, *locations, metadata@),
{
    let mut out: Vec<char> = Vec::new();
    push_str(&mut out, "Identity\n");
    push_str(&mut out, format_bluetooth_identity_section(device, locations).as_str());
    push_str(&mut out, "\n\nPassive Broadcast Data\n");
    push_str(&mut out, format_bluetooth_passive_section(device, metadata).as_str());
    push_str(&mut out, "\n\nActive Enumeration Summary\n");
    push_str(&mut out, format_bluetooth_active_summary(device).as_str());
    push_str(&mut out, "\n\nReadable Attributes\n");
    push_str(&mut out, format_bluetooth_readable_attributes(device).as_str());
    push_str(&mut out, "\n\nServices\n");
    push_str(&mut out, format_bluetooth_services(device).as_str());
    push_str(&mut out, "\n\nCharacteristics\n");
    push_str(&mut out, format_bluetooth_characteristics(device).as_str());
    push_str(&mut out, "\n\nDescriptors\n");
    push_str(&mut out, format_bluetooth_descriptors(device).as_str());
    assert(out@ =~= detail_text(*device, *locations, metadata@));
    string_from_chars(out.as_slice())
}

/// The Pango markup of the enumeration status line: a prompt when no
/// device is selected, "idle" when the selected device has no status, else
/// its message (already escaped for markup), in red for an error.
pub open spec fn enumeration_markup(selected: bool, status: Option<(Seq<char>, bool)>) -> Seq<char> {
    if !selected {
        "<b>Enumeration status:</b> select a Bluetooth device"@
    } else {
        match status {
            None => "<b>Enumeration status:</b> idle"@,
            Some((m, true)) => "<span foreground='red'><b>Enumeration status:</b> "@ + m + "</span>"@,
            Some((m, false)) => "<b>Enumeration status:</b> "@ + m,
        }
    }
}

pub fn enumeration_status_markup(selected: bool, status: Option<(&str, bool)>) -> (r: String)
    ensures
        r@ == enumeration_markup(
            selected,
            match status {
                Some((m, e)) => Some((m@, e)),
                None => None,
            },
        ),
{
    if !selected {
        return String::from_str("<b>Enumeration status:</b> select a Bluetooth device");
    }
    match status {
        None => String::from_str("<b>Enumeration status:</b> idle"),
        Some((m, is_error)) => {
            let mut out: Vec<char> = Vec::new();
            if is_error {
                push_str(&mut out, "<span foreground='red'><b>Enumeration status:</b> ");
                push_str(&mut out, m);
                push_str(&mut out, "</span>");
            } else {
                push_str(&mut out, "<b>Enumeration status:</b> ");
                push_str(&mut out, m);
            }
            string_from_chars(out.as_slice())
        },
    }
}

} // verus!
