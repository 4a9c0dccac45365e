//! The sensor probe: build the named readings of the hardware-monitor
//! device from its channels, and keep them sorted by name.
//!
//! Channel values arrive as plain integers in thousandths of their unit
//! (millivolts, millidegrees, milliwatts, milliamps, thousandths of a
//! revolution per minute); the renderings divide back out with the decimal
//! count each channel family uses.

use vstd::prelude::*;
use vstd::string::*;

use crate::num::{round_div, round_div_u128};
use crate::order::{keyed_insert, lemma_keyed_insert_sorted, lemma_lex_lt_iff, lex_lt, sorted_by_key};
use crate::text::{dec_chars, fixed1_chars, fixed2_chars, fmt_hundredths, fmt_tenths, str_lex_le, u64_to_string};

verus! {

/// One named sensor reading of the snapshot. The optional bounds and the
/// current value are held in thousandths of the reading's unit.
#[derive(Debug, Clone, PartialEq, Eq, Default)]
pub struct SensorReading {
    pub name: String,
    pub value: String,
    pub unit: String,
    pub min: Option<i64>,
    pub max: Option<i64>,
    pub current: Option<i64>,
}

pub struct SensorView {
    pub name: Seq<char>,
    pub value: Seq<char>,
    pub unit: Seq<char>,
    pub min: Option<i64>,
    pub max: Option<i64>,
    pub current: Option<i64>,
}

impl View for SensorReading {
    type V = SensorView;

    open spec fn view(&self) -> SensorView {
        SensorView {
            name: self.name@,
            value: self.value@,
            unit: self.unit@,
            min: self.min,
            max: self.max,
            current: self.current,
        }
    }
}

pub open spec fn sensor_views(s: Seq<SensorReading>) -> Seq<SensorView> {
    s.map_values(|x: SensorReading| x@)
}

/// The ordering key of a reading.
pub open spec fn sensor_key() -> spec_fn(SensorView) -> Seq<char> {
    |r: SensorView| r.name
}

/// The fan channel: speed with its configured bounds.
#[derive(Debug, Clone, Copy, PartialEq, Eq)]
pub struct FanData {
    pub input_milli: i64,
    pub min_milli: i64,
    pub max_milli: i64,
}

/// The channel families that carry a keyed map of values.
#[derive(Debug, Clone, Copy, PartialEq, Eq)]
pub enum ChannelKind {
    Temperature,
    Power,
    Current,
}

/// Everything the hardware-monitor device reports, as plain values: one
/// optional channel or channel map per family.
#[derive(Debug, Clone, PartialEq, Eq)]
pub struct MacsmcData {
    pub adapter: String,
    pub ac_input_voltage: Option<i64>,
    pub fan: Option<FanData>,
    pub nand_flash_temperature: Option<Vec<(String, i64)>>,
    pub wifi_bt_module_temp: Option<Vec<(String, i64)>>,
    pub total_system_power: Option<Vec<(String, i64)>>,
    pub ac_input_power: Option<Vec<(String, i64)>>,
    pub rail_power: Option<Vec<(String, i64)>>,
    pub ac_input_current: Option<Vec<(String, i64)>>,
}

// ---------------------------------------------------------------------------
// Rendering thousandths
// ---------------------------------------------------------------------------
pub open spec fn abs_milli(m: i64) -> int {
    if m < 0 {
        -(m as int)
    } else {
        m as int
    }
}

/// Sign prefix and digits of a rendering with `digits` listed below.
pub open spec fn milli2_chars(m: i64) -> Seq<char> {
    let body = fixed2_chars(round_div(abs_milli(m), 10) as nat);
    if m < 0 {
        seq!['-'] + body
    } else {
        body
    }
}

pub open spec fn milli1_chars(m: i64) -> Seq<char> {
    let body = fixed1_chars(round_div(abs_milli(m), 100) as nat);
    if m < 0 {
        seq!['-'] + body
    } else {
        body
    }
}

pub open spec fn milli0_chars(m: i64) -> Seq<char> {
    let body = dec_chars(round_div(abs_milli(m), 1000) as nat);
    if m < 0 {
        seq!['-'] + body
    } else {
        body
    }
}

pub open spec fn milli_whole_chars(m: i64) -> Seq<char> {
    let body = dec_chars(abs_milli(m) as nat);
    if m < 0 {
        seq!['-'] + body
    } else {
        body
    }
}

fn abs_of(m: i64) -> (a: u64)
    ensures
        a == abs_milli(m),
{
    if m < 0 {
        (-(m as i128)) as u64
    } else {
        m as u64
    }
}

fn prepend_sign(m: i64, body: String) -> (s: String)
    ensures
        m < 0 ==> s@ == seq!['-'] + body@,
        m >= 0 ==> s@ == body@,
{
    if m < 0 {
        let mut s = String::new();
        proof {
            reveal_strlit("-");
        }
        s.append("-");
        s.append(body.as_str());
        proof {
            assert(s@ =~= seq!['-'] + body@);
        }
        s
    } else {
        body
    }
}

fn fmt_milli2(m: i64) -> (s: String)
    ensures
        s@ == milli2_chars(m),
{
    let a = abs_of(m);
    let h = round_div_u128(a as u128, 10);
    proof {
        assert(round_div(a as int, 10) <= a as int);
    }
    prepend_sign(m, fmt_hundredths(h as u64))
}

fn fmt_milli1(m: i64) -> (s: String)
    ensures
        s@ == milli1_chars(m),
{
    let a = abs_of(m);
    let t = round_div_u128(a as u128, 100);
    proof {
        assert(round_div(a as int, 100) <= a as int);
    }
    prepend_sign(m, fmt_tenths(t as u64))
}

fn fmt_milli0(m: i64) -> (s: String)
    ensures
        s@ == milli0_chars(m),
{
    let a = abs_of(m);
    let w = round_div_u128(a as u128, 1000);
    proof {
        assert(round_div(a as int, 1000) <= a as int);
    }
    prepend_sign(m, u64_to_string(w as u64))
}

fn fmt_milli_whole(m: i64) -> (s: String)
    ensures
        s@ == milli_whole_chars(m),
{
    let a = abs_of(m);
    prepend_sign(m, u64_to_string(a))
}

// ---------------------------------------------------------------------------
// Readings
// ---------------------------------------------------------------------------
pub open spec fn voltage_reading(mv: i64) -> SensorView {
    SensorView {
        name: "AC Input Voltage"@,
        value: milli2_chars(mv),
        unit: "V"@,
        min: None,
        max: None,
        current: Some(mv),
    }
}

pub open spec fn fan_reading(f: FanData) -> SensorView {
    SensorView {
        name: "Fan Speed"@,
        value: milli0_chars(f.input_milli),
        unit: "RPM"@,
        min: Some(f.min_milli),
        max: Some(f.max_milli),
        current: Some(f.input_milli),
    }
}

/// The name of a keyed channel's reading: the family label with the
/// channel key in parentheses.
pub open spec fn channel_name(label: Seq<char>, key: Seq<char>) -> Seq<char> {
    label + " ("@ + key + ")"@
}

pub open spec fn channel_reading(kind: ChannelKind, label: Seq<char>, key: Seq<char>, m: i64) -> SensorView {
    match kind {
        ChannelKind::Temperature => SensorView {
            name: channel_name(label, key),
            value: milli1_chars(m),
            unit: "\u{b0}C"@,
            min: None,
            max: None,
            current: Some(m),
        },
        ChannelKind::Power => SensorView {
            name: channel_name(label, key),
            value: milli2_chars(m),
            unit: "W"@,
            min: None,
            max: None,
            current: Some(m),
        },
        ChannelKind::Current => SensorView {
            name: channel_name(label, key),
            value: milli_whole_chars(m),
            unit: "mA"@,
            min: None,
            max: None,
            current: Some(m),
        },
    }
}

pub open spec fn channel_entries(
    kind: ChannelKind,
    label: Seq<char>,
    entries: Seq<(String, i64)>,
) -> Seq<SensorView>
    decreases entries.len(),
{
    if entries.len() == 0 {
        Seq::empty()
    } else {
        seq![channel_reading(kind, label, entries[0].0@, entries[0].1)] + channel_entries(
            kind,
            label,
            entries.drop_first(),
        )
    }
}

pub open spec fn opt_channel_entries(
    kind: ChannelKind,
    label: Seq<char>,
    entries: Option<Vec<(String, i64)>>,
) -> Seq<SensorView> {
    match entries {
        Some(v) => channel_entries(kind, label, v@),
        None => Seq::empty(),
    }
}

/// Every reading of the device, in the fixed family order, before sorting.
pub open spec fn readings_unsorted(d: MacsmcData) -> Seq<SensorView> {
    let volt: Seq<SensorView> = match d.ac_input_voltage {
        Some(mv) => seq![voltage_reading(mv)],
        None => Seq::empty(),
    };
    let fan: Seq<SensorView> = match d.fan {
        Some(f) => seq![fan_reading(f)],
        None => Seq::empty(),
    };
    volt + fan + opt_channel_entries(
        ChannelKind::Temperature,
        "NAND Flash Temperature"@,
        d.nand_flash_temperature,
    ) + opt_channel_entries(
        ChannelKind::Temperature,
        "WiFi/BT Module Temp"@,
        d.wifi_bt_module_temp,
    ) + opt_channel_entries(ChannelKind::Power, "Total System Power"@, d.total_system_power)
        + opt_channel_entries(ChannelKind::Power, "AC Input Power"@, d.ac_input_power)
        + opt_channel_entries(ChannelKind::Power, "3.8 V Rail Power"@, d.rail_power)
        + opt_channel_entries(ChannelKind::Current, "AC Input Current"@, d.ac_input_current)
}

/// The readings in name order: each inserted stably into the sorted list.
pub open spec fn sensor_sort_acc(xs: Seq<SensorView>, acc: Seq<SensorView>) -> Seq<SensorView>
    decreases xs.len(),
{
    if xs.len() == 0 {
        acc
    } else {
        sensor_sort_acc(xs.drop_first(), keyed_insert(acc, xs[0], sensor_key()))
    }
}

pub open spec fn sensors_spec(d: MacsmcData) -> Seq<SensorView> {
    sensor_sort_acc(readings_unsorted(d), Seq::empty())
}

// ---------------------------------------------------------------------------
// Building
// ---------------------------------------------------------------------------
fn channel_unit(kind: ChannelKind) -> (s: String)
    ensures
        kind is Temperature ==> s@ == "\u{b0}C"@,
        kind is Power ==> s@ == "W"@,
        kind is Current ==> s@ == "mA"@,
{
    match kind {
        ChannelKind::Temperature => String::from_str("\u{b0}C"),
        ChannelKind::Power => String::from_str("W"),
        ChannelKind::Current => String::from_str("mA"),
    }
}

fn channel_value(kind: ChannelKind, m: i64) -> (s: String)
    ensures
        kind is Temperature ==> s@ == milli1_chars(m),
        kind is Power ==> s@ == milli2_chars(m),
        kind is Current ==> s@ == milli_whole_chars(m),
{
    match kind {
        ChannelKind::Temperature => fmt_milli1(m),
        ChannelKind::Power => fmt_milli2(m),
        ChannelKind::Current => fmt_milli_whole(m),
    }
}

/// Append one keyed channel family's readings.
fn push_channel(
    out: &mut Vec<SensorReading>,
    kind: ChannelKind,
    label: &str,
    entries: &Vec<(String, i64)>,
)
    ensures
        sensor_views(final(out)@) == sensor_views(old(out)@) + channel_entries(
            kind,
            label@,
            entries@,
        ),
{
    let mut i: usize = 0;
    proof {
        assert(entries@.skip(0) =~= entries@);
        assert(sensor_views(out@) + channel_entries(kind, label@, entries@) =~= sensor_views(out@)
            + channel_entries(kind, label@, entries@));
    }
    while i < entries.len()
        invariant
            0 <= i <= entries@.len(),
            sensor_views(old(out)@) + channel_entries(kind, label@, entries@) == sensor_views(out@)
                + channel_entries(kind, label@, entries@.skip(i as int)),
        decreases entries@.len() - i,
    {
        proof {
            assert(entries@.skip(i as int)[0] == entries@[i as int]);
            assert(entries@.skip(i as int).drop_first() =~= entries@.skip(i as int + 1));
        }
        let mut name = String::from_str(label);
        proof {
            reveal_strlit(" (");
            reveal_strlit(")");
        }
        name.append(" (");
        name.append(entries[i].0.as_str());
        name.append(")");
        let m = entries[i].1;
        let rec = SensorReading {
            name,
            value: channel_value(kind, m),
            unit: channel_unit(kind),
            min: None,
            max: None,
            current: Some(m),
        };
        let ghost out0 = out@;
        let ghost recv = rec@;
        proof {
            assert(recv.name == channel_name(label@, entries@[i as int].0@));
            assert(recv == channel_reading(kind, label@, entries@[i as int].0@, m));
        }
        out.push(rec);
        proof {
            assert(out@ == out0.push(out@[out0.len() as int]));
            assert(sensor_views(out@) =~= sensor_views(out0).push(recv));
            assert(sensor_views(out0).push(recv) + channel_entries(
                kind,
                label@,
                entries@.skip(i as int + 1),
            ) =~= sensor_views(out0) + channel_entries(kind, label@, entries@.skip(i as int)));
        }
        i += 1;
    }
    proof {
        assert(channel_entries(kind, label@, entries@.skip(entries@.len() as int))
            =~= Seq::<SensorView>::empty());
        assert(sensor_views(out@) + channel_entries(
            kind,
            label@,
            entries@.skip(entries@.len() as int),
        ) =~= sensor_views(out@));
    }
}

/// Insert one reading into a name-sorted vector, after every reading whose
/// name is not strictly above.
fn insert_reading_sorted(out: &mut Vec<SensorReading>, rec: SensorReading)
    ensures
        sensor_views(final(out)@) == keyed_insert(sensor_views(old(out)@), rec@, sensor_key()),
{
    let ghost ov = sensor_views(old(out)@);
    let ghost recv = rec@;
    let mut j: usize = 0;
    proof {
        assert(ov.take(0) =~= Seq::<SensorView>::empty());
        assert(ov.skip(0) =~= ov);
        assert(Seq::<SensorView>::empty() + keyed_insert(ov, recv, sensor_key()) =~= keyed_insert(
            ov,
            recv,
            sensor_key(),
        ));
    }
    loop
        invariant
            0 <= j <= out@.len(),
            out@ == old(out)@,
            ov == sensor_views(old(out)@),
            recv == rec@,
            keyed_insert(ov, recv, sensor_key()) == ov.take(j as int) + keyed_insert(
                ov.skip(j as int),
                recv,
                sensor_key(),
            ),
        decreases out@.len() - j,
    {
        let ghost rem = ov.skip(j as int);
        if j >= out.len() {
            out.push(rec);
            proof {
                assert(rem.len() == 0);
                assert(keyed_insert(ov, recv, sensor_key()) =~~= sensor_views(out@));
            }
            return;
        }
        proof {
            assert(rem[0] == ov[j as int]);
            assert(ov[j as int] == out@[j as int]@);
        }
        if !str_lex_le(out[j].name.as_str(), rec.name.as_str()) {
            proof {
                lemma_lex_lt_iff(recv.name, ov[j as int].name);
            }
            out.insert(j, rec);
            proof {
                assert(keyed_insert(ov, recv, sensor_key()) =~~= sensor_views(out@));
            }
            return;
        }
        proof {
            lemma_lex_lt_iff(recv.name, ov[j as int].name);
            assert(!lex_lt(recv.name, ov[j as int].name));
            assert(rem.drop_first() =~= ov.skip(j as int + 1));
            assert(ov.take(j as int + 1) =~= ov.take(j as int) + seq![ov[j as int]]);
            assert(keyed_insert(ov, recv, sensor_key()) =~~= ov.take(j as int + 1) + keyed_insert(
                ov.skip(j as int + 1),
                recv,
                sensor_key(),
            ));
        }
        j += 1;
    }
}

/// Build the sorted sensor readings of the hardware-monitor device: one
/// reading per present channel, named by family (and channel key for the
/// keyed families), sorted by name.
#[verifier::rlimit(100)]
pub fn get_sensor_data_from(d: &MacsmcData) -> (r: Vec<SensorReading>)
    ensures
        sensor_views(r@) == sensors_spec(*d),
        sorted_by_key(sensor_views(r@), sensor_key()),
{
    let mut buf: Vec<SensorReading> = Vec::new();
    proof {
        assert(sensor_views(buf@) =~= Seq::<SensorView>::empty());
    }
    match &d.ac_input_voltage {
        Some(mv) => {
            let rec = SensorReading {
                name: String::from_str("AC Input Voltage"),
                value: fmt_milli2(*mv),
                unit: String::from_str("V"),
                min: None,
                max: None,
                current: Some(*mv),
            };
            let ghost buf0 = buf@;
            let ghost recv = rec@;
            proof {
                assert(recv == voltage_reading(d.ac_input_voltage.unwrap()));
            }
            buf.push(rec);
            proof {
                assert(buf@ == buf0.push(buf@[buf0.len() as int]));
                assert(sensor_views(buf@) =~= sensor_views(buf0).push(recv));
            }
        },
        None => {},
    }
    match &d.fan {
        Some(f) => {
            let rec = SensorReading {
                name: String::from_str("Fan Speed"),
                value: fmt_milli0(f.input_milli),
                unit: String::from_str("RPM"),
                min: Some(f.min_milli),
                max: Some(f.max_milli),
                current: Some(f.input_milli),
            };
            let ghost buf0 = buf@;
            let ghost recv = rec@;
            proof {
                assert(recv == fan_reading(d.fan.unwrap()));
            }
            buf.push(rec);
            proof {
                assert(buf@ == buf0.push(buf@[buf0.len() as int]));
                assert(sensor_views(buf@) =~= sensor_views(buf0).push(recv));
            }
        },
        None => {},
    }
    match &d.nand_flash_temperature {
        Some(v) => push_channel(&mut buf, ChannelKind::Temperature, "NAND Flash Temperature", v),
        None => {},
    }
    match &d.wifi_bt_module_temp {
        Some(v) => push_channel(&mut buf, ChannelKind::Temperature, "WiFi/BT Module Temp", v),
        None => {},
    }
    match &d.total_system_power {
        Some(v) => push_channel(&mut buf, ChannelKind::Power, "Total System Power", v),
        None => {},
    }
    match &d.ac_input_power {
        Some(v) => push_channel(&mut buf, ChannelKind::Power, "AC Input Power", v),
        None => {},
    }
    match &d.rail_power {
        Some(v) => push_channel(&mut buf, ChannelKind::Power, "3.8 V Rail Power", v),
        None => {},
    }
    match &d.ac_input_current {
        Some(v) => push_channel(&mut buf, ChannelKind::Current, "AC Input Current", v),
        None => {},
    }
    proof {
        assert(sensor_views(buf@) =~= readings_unsorted(*d));
    }
    let mut out: Vec<SensorReading> = Vec::new();
    proof {
        assert(sensor_views(out@) =~= Seq::<SensorView>::empty());
    }
    while buf.len() > 0
        invariant
            sensors_spec(*d) == sensor_sort_acc(sensor_views(buf@), sensor_views(out@)),
            sorted_by_key(sensor_views(out@), sensor_key()),
        decreases buf@.len(),
    {
        let ghost bufv = sensor_views(buf@);
        proof {
            assert(bufv[0] == buf@[0]@);
            lemma_keyed_insert_sorted(sensor_views(out@), buf@[0]@, sensor_key());
        }
        let rec = buf.remove(0);
        proof {
            assert(sensor_views(buf@) =~= bufv.drop_first());
        }
        insert_reading_sorted(&mut out, rec);
    }
    out
}

} // verus!
