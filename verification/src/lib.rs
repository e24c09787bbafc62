//! BTHome v2 advertising-payload encoder.
//!
//! A [`BTHomeData`] record holds an optional value for each supported
//! measurement. Physical quantities (temperature, humidity, pressure,
//! illuminance, mass, power) are carried in fixed-point form: the stored
//! integer is the measurement divided by the wire scale factor of 0.01,
//! i.e. a count of hundredths. Particulate and gas counts are raw 16-bit
//! values. [`BTHomeUnencryptedSerializer`] encodes a record into the
//! plaintext wire form; the [`encryption`] module produces the
//! authenticated-encrypted form.

use vstd::prelude::*;

pub mod encryption;
mod writer;

use crate::writer::BoundedWriter;

verus! {

/// Wire object id of the battery field.
pub const BATTERY_OBJECT_ID: u8 = 0x01;
/// Wire object id of the temperature field.
pub const TEMPERATURE_OBJECT_ID: u8 = 0x02;
/// Wire object id of the humidity field.
pub const HUMIDITY_OBJECT_ID: u8 = 0x03;
/// Wire object id of the pressure field.
pub const PRESSURE_OBJECT_ID: u8 = 0x04;
/// Wire object id of the illuminance field.
pub const ILLUMINANCE_OBJECT_ID: u8 = 0x05;
/// Wire object id of the mass field, kilogram variant.
pub const MASS_KG_OBJECT_ID: u8 = 0x06;
/// Wire object id of the mass field, pound variant.
pub const MASS_LB_OBJECT_ID: u8 = 0x06;
/// Wire object id of the power field.
pub const POWER_OBJECT_ID: u8 = 0x0b;
/// Wire object id of the PM2.5 field.
pub const PM2_5_OBJECT_ID: u8 = 0x0d;
/// Wire object id of the PM10 field.
pub const PM10_OBJECT_ID: u8 = 0x0e;
/// Wire object id of the CO2 field.
pub const CO2_OBJECT_ID: u8 = 0x12;
/// Wire object id of the TVOC field.
pub const TVOC_OBJECT_ID: u8 = 0x13;

/// The BTHome service identifier; its two bytes open the advertising UUID
/// and stand in the encryption nonce.
pub const SERVICE_UUID: u16 = 0xFCD2;

/// The two bytes of a 16-bit value, little-endian.
pub open spec fn le16(v: int) -> Seq<u8>
    recommends
        0 <= v < 0x10000,
{
    seq![(v % 256) as u8, ((v / 256) % 256) as u8]
}

/// The low three bytes of a value, little-endian.
pub open spec fn le24(v: int) -> Seq<u8>
    recommends
        0 <= v < 0x1000000,
{
    seq![(v % 256) as u8, ((v / 256) % 256) as u8, ((v / 0x10000) % 256) as u8]
}

/// The four bytes of a 32-bit value, little-endian.
pub open spec fn le32(v: int) -> Seq<u8>
    recommends
        0 <= v < 0x1_0000_0000,
{
    seq![
        (v % 256) as u8,
        ((v / 256) % 256) as u8,
        ((v / 0x10000) % 256) as u8,
        ((v / 0x1000000) % 256) as u8,
    ]
}

/// The 16-bit two's-complement wire image of a signed value.
pub open spec fn i16_wire(v: int) -> int
    recommends
        -0x8000 <= v < 0x8000,
{
    if v < 0 {
        v + 0x10000
    } else {
        v
    }
}

/// One emission step for a raw byte field: on a still-successful state,
/// appends object id and value if the field is present and the two bytes
/// fit in `avail`; a short buffer stops the encode with `BufferOverflow`.
pub open spec fn step_u8(
    st: Result<Seq<u8>, BTHomeError>,
    avail: int,
    object_id: u8,
    field: Option<u8>,
) -> Result<Seq<u8>, BTHomeError> {
    match st {
        Err(e) => Err(e),
        Ok(s) => match field {
            None => Ok(s),
            Some(v) => if s.len() + 2 > avail {
                Err(BTHomeError::BufferOverflow)
            } else {
                Ok(s + seq![object_id, v])
            },
        },
    }
}

/// One emission step for a raw 16-bit count: object id then the value
/// little-endian, three bytes in all.
pub open spec fn step_u16(
    st: Result<Seq<u8>, BTHomeError>,
    avail: int,
    object_id: u8,
    field: Option<u16>,
) -> Result<Seq<u8>, BTHomeError> {
    match st {
        Err(e) => Err(e),
        Ok(s) => match field {
            None => Ok(s),
            Some(v) => if s.len() + 3 > avail {
                Err(BTHomeError::BufferOverflow)
            } else {
                Ok(s + (seq![object_id] + le16(v as int)))
            },
        },
    }
}

/// One emission step for an unsigned fixed-point field of 16-bit width:
/// a scaled value above `u16::MAX` is a `ValueOverflow`, a negative one a
/// `ValueUnderflow`; in range it is emitted little-endian after the id.
pub open spec fn step_scaled_u16(
    st: Result<Seq<u8>, BTHomeError>,
    avail: int,
    object_id: u8,
    field: Option<i32>,
) -> Result<Seq<u8>, BTHomeError> {
    match st {
        Err(e) => Err(e),
        Ok(s) => match field {
            None => Ok(s),
            Some(v) => if v > 0xffff {
                Err(BTHomeError::ValueOverflow)
            } else if v < 0 {
                Err(BTHomeError::ValueUnderflow)
            } else if s.len() + 3 > avail {
                Err(BTHomeError::BufferOverflow)
            } else {
                Ok(s + (seq![object_id] + le16(v as int)))
            },
        },
    }
}

/// One emission step for a signed fixed-point field of 16-bit width: the
/// scaled value must lie in the `i16` range and is emitted little-endian
/// in two's complement after the id.
pub open spec fn step_scaled_i16(
    st: Result<Seq<u8>, BTHomeError>,
    avail: int,
    object_id: u8,
    field: Option<i32>,
) -> Result<Seq<u8>, BTHomeError> {
    match st {
        Err(e) => Err(e),
        Ok(s) => match field {
            None => Ok(s),
            Some(v) => if v > 0x7fff {
                Err(BTHomeError::ValueOverflow)
            } else if v < -0x8000 {
                Err(BTHomeError::ValueUnderflow)
            } else if s.len() + 3 > avail {
                Err(BTHomeError::BufferOverflow)
            } else {
                Ok(s + (seq![object_id] + le16(i16_wire(v as int))))
            },
        },
    }
}

/// One emission step for an unsigned fixed-point field of 24-bit width:
/// the scaled value must satisfy `0 <= v < 2^24` and its low three bytes
/// are emitted little-endian after the id, four bytes in all.
pub open spec fn step_scaled_u24(
    st: Result<Seq<u8>, BTHomeError>,
    avail: int,
    object_id: u8,
    field: Option<i32>,
) -> Result<Seq<u8>, BTHomeError> {
    match st {
        Err(e) => Err(e),
        Ok(s) => match field {
            None => Ok(s),
            Some(v) => if v >= 0x1000000 {
                Err(BTHomeError::ValueOverflow)
            } else if v < 0 {
                Err(BTHomeError::ValueUnderflow)
            } else if s.len() + 4 > avail {
                Err(BTHomeError::BufferOverflow)
            } else {
                Ok(s + (seq![object_id] + le24(v as int)))
            },
        },
    }
}

/// The first third of the registry order: battery, temperature, humidity
/// and pressure, applied to a running emission state.
pub open spec fn environment_steps(
    st: Result<Seq<u8>, BTHomeError>,
    avail: int,
    data: BTHomeData,
) -> Result<Seq<u8>, BTHomeError> {
    let s = step_u8(st, avail, BATTERY_OBJECT_ID, data.battery);
    let s = step_scaled_i16(s, avail, TEMPERATURE_OBJECT_ID, data.temperature);
    let s = step_scaled_u16(s, avail, HUMIDITY_OBJECT_ID, data.humidity);
    step_scaled_u24(s, avail, PRESSURE_OBJECT_ID, data.pressure)
}

/// The middle third of the registry order: illuminance, mass in kilograms,
/// mass in pounds and power.
pub open spec fn meter_steps(
    st: Result<Seq<u8>, BTHomeError>,
    avail: int,
    data: BTHomeData,
) -> Result<Seq<u8>, BTHomeError> {
    let s = step_scaled_u24(st, avail, ILLUMINANCE_OBJECT_ID, data.illuminance);
    let s = step_scaled_u16(s, avail, MASS_KG_OBJECT_ID, data.mass_kg);
    let s = step_scaled_u16(s, avail, MASS_LB_OBJECT_ID, data.mass_lb);
    step_scaled_u24(s, avail, POWER_OBJECT_ID, data.power)
}

/// The last third of the registry order: the raw particulate and gas
/// counts PM2.5, PM10, CO2 and TVOC.
pub open spec fn count_steps(
    st: Result<Seq<u8>, BTHomeError>,
    avail: int,
    data: BTHomeData,
) -> Result<Seq<u8>, BTHomeError> {
    let s = step_u16(st, avail, PM2_5_OBJECT_ID, data.pm2_5);
    let s = step_u16(s, avail, PM10_OBJECT_ID, data.pm10);
    let s = step_u16(s, avail, CO2_OBJECT_ID, data.co2);
    step_u16(s, avail, TVOC_OBJECT_ID, data.tvoc)
}

/// The payload an encode of `data` produces into `avail` free bytes:
/// every present field in registry order — battery, temperature, humidity,
/// pressure, illuminance, mass (kg then lb), power, PM2.5, PM10, CO2,
/// TVOC — or the error of the first field that fails.
pub open spec fn payload_result(data: BTHomeData, avail: int) -> Result<Seq<u8>, BTHomeError> {
    count_steps(meter_steps(environment_steps(Ok(Seq::<u8>::empty()), avail, data), avail, data), avail, data)
}

/// The errors an encode operation can report.
#[derive(Clone, Copy, Debug, Eq, Hash, Ord, PartialEq, PartialOrd)]
pub enum BTHomeError {
    /// The AEAD primitive rejected its inputs.
    Encrypt,
    /// The output or scratch buffer is too small for the payload.
    BufferOverflow,
    /// A measurement's scaled representation exceeds its wire width.
    ValueOverflow,
    /// A measurement's scaled representation falls below its wire range.
    ValueUnderflow,
}

/// One record of sensor measurements, each slot independently present or
/// absent. Scaled slots (`temperature` through `power`) hold hundredths of
/// the physical unit; no range is enforced until encode time.
#[derive(Debug, Clone, Copy)]
pub struct BTHomeData {
    /// Battery level, percent, emitted as one raw byte.
    pub battery: Option<u8>,
    /// Temperature in hundredths of a degree, signed 16-bit on the wire.
    pub temperature: Option<i32>,
    /// Relative humidity in hundredths of a percent, unsigned 16-bit.
    pub humidity: Option<i32>,
    /// Pressure in hundredths of an hPa, unsigned 24-bit.
    pub pressure: Option<i32>,
    /// Illuminance in hundredths of a lux, unsigned 24-bit.
    pub illuminance: Option<i32>,
    /// Mass in hundredths of a kilogram, unsigned 16-bit.
    pub mass_kg: Option<i32>,
    /// Mass in hundredths of a pound, unsigned 16-bit.
    pub mass_lb: Option<i32>,
    /// Power in hundredths of a watt, unsigned 24-bit.
    pub power: Option<i32>,
    /// PM2.5 concentration, raw unsigned 16-bit.
    pub pm2_5: Option<u16>,
    /// PM10 concentration, raw unsigned 16-bit.
    pub pm10: Option<u16>,
    /// CO2 concentration, raw unsigned 16-bit.
    pub co2: Option<u16>,
    /// Volatile-organic-compound concentration, raw unsigned 16-bit.
    pub tvoc: Option<u16>,
}

/// A single builder step: which slot to fill, and with what value.
pub enum FieldSetting {
    /// Set the battery slot.
    Battery(u8),
    /// Set the temperature slot.
    Temperature(i32),
    /// Set the humidity slot.
    Humidity(i32),
    /// Set the pressure slot.
    Pressure(i32),
    /// Set the illuminance slot.
    Illuminance(i32),
    /// Set the kilogram mass slot.
    MassKg(i32),
    /// Set the pound mass slot.
    MassLb(i32),
    /// Set the power slot.
    Power(i32),
    /// Set the PM2.5 slot.
    Pm2_5(u16),
    /// Set the PM10 slot.
    Pm10(u16),
    /// Set the CO2 slot.
    Co2(u16),
    /// Set the TVOC slot.
    Tvoc(u16),
}

/// The record slot a setting fills, as an index; two settings with the same
/// slot overwrite each other, settings with different slots are independent.
pub open spec fn setting_slot(s: FieldSetting) -> int {
    match s {
        FieldSetting::Battery(_) => 0,
        FieldSetting::Temperature(_) => 1,
        FieldSetting::Humidity(_) => 2,
        FieldSetting::Pressure(_) => 3,
        FieldSetting::Illuminance(_) => 4,
        FieldSetting::MassKg(_) => 5,
        FieldSetting::MassLb(_) => 6,
        FieldSetting::Power(_) => 7,
        FieldSetting::Pm2_5(_) => 8,
        FieldSetting::Pm10(_) => 9,
        FieldSetting::Co2(_) => 10,
        FieldSetting::Tvoc(_) => 11,
    }
}

/// The record produced by one builder step applied to `d`.
pub open spec fn apply_setting(d: BTHomeData, s: FieldSetting) -> BTHomeData {
    match s {
        FieldSetting::Battery(v) => BTHomeData { battery: Some(v), ..d },
        FieldSetting::Temperature(v) => BTHomeData { temperature: Some(v), ..d },
        FieldSetting::Humidity(v) => BTHomeData { humidity: Some(v), ..d },
        FieldSetting::Pressure(v) => BTHomeData { pressure: Some(v), ..d },
        FieldSetting::Illuminance(v) => BTHomeData { illuminance: Some(v), ..d },
        FieldSetting::MassKg(v) => BTHomeData { mass_kg: Some(v), ..d },
        FieldSetting::MassLb(v) => BTHomeData { mass_lb: Some(v), ..d },
        FieldSetting::Power(v) => BTHomeData { power: Some(v), ..d },
        FieldSetting::Pm2_5(v) => BTHomeData { pm2_5: Some(v), ..d },
        FieldSetting::Pm10(v) => BTHomeData { pm10: Some(v), ..d },
        FieldSetting::Co2(v) => BTHomeData { co2: Some(v), ..d },
        FieldSetting::Tvoc(v) => BTHomeData { tvoc: Some(v), ..d },
    }
}

/// The record with every slot of `d` overwritten by the settings of `ss`,
/// applied left to right.
pub open spec fn apply_settings(d: BTHomeData, ss: Seq<FieldSetting>) -> BTHomeData
    decreases ss.len(),
{
    if ss.len() == 0 {
        d
    } else {
        apply_settings(apply_setting(d, ss[0]), ss.skip(1))
    }
}

/// The empty record: every slot absent.
pub open spec fn empty_record() -> BTHomeData {
    BTHomeData {
        battery: None,
        temperature: None,
        humidity: None,
        pressure: None,
        illuminance: None,
        mass_kg: None,
        mass_lb: None,
        power: None,
        pm2_5: None,
        pm10: None,
        co2: None,
        tvoc: None,
    }
}

impl BTHomeData {
    /// A record with every slot absent.
    pub fn new() -> (r: BTHomeData)
        ensures
            r == empty_record(),
    {
        BTHomeData {
            battery: None,
            temperature: None,
            humidity: None,
            pressure: None,
            illuminance: None,
            mass_kg: None,
            mass_lb: None,
            power: None,
            pm2_5: None,
            pm10: None,
            co2: None,
            tvoc: None,
        }
    }

    /// The record with the battery slot set to `val` percent.
    pub fn battery(self, val: u8) -> (r: Self)
        ensures
            r == apply_setting(self, FieldSetting::Battery(val)),
    {
        BTHomeData { battery: Some(val), ..self }
    }

    /// The record with the temperature slot set to `val` hundredths of a degree.
    pub fn temperature(self, val: i32) -> (r: Self)
        ensures
            r == apply_setting(self, FieldSetting::Temperature(val)),
    {
        BTHomeData { temperature: Some(val), ..self }
    }

    /// The record with the humidity slot set to `val` hundredths of a percent.
    pub fn humidity(self, val: i32) -> (r: Self)
        ensures
            r == apply_setting(self, FieldSetting::Humidity(val)),
    {
        BTHomeData { humidity: Some(val), ..self }
    }

    /// The record with the pressure slot set to `val` hundredths of an hPa.
    pub fn pressure(self, val: i32) -> (r: Self)
        ensures
            r == apply_setting(self, FieldSetting::Pressure(val)),
    {
        BTHomeData { pressure: Some(val), ..self }
    }

    /// The record with the illuminance slot set to `val` hundredths of a lux.
    pub fn illuminance(self, val: i32) -> (r: Self)
        ensures
            r == apply_setting(self, FieldSetting::Illuminance(val)),
    {
        BTHomeData { illuminance: Some(val), ..self }
    }

    /// The record with the kilogram mass slot set to `val` hundredths of a kilogram.
    pub fn mass_kg(self, val: i32) -> (r: Self)
        ensures
            r == apply_setting(self, FieldSetting::MassKg(val)),
    {
        BTHomeData { mass_kg: Some(val), ..self }
    }

    /// The record with the pound mass slot set to `val` hundredths of a pound.
    pub fn mass_lb(self, val: i32) -> (r: Self)
        ensures
            r == apply_setting(self, FieldSetting::MassLb(val)),
    {
        BTHomeData { mass_lb: Some(val), ..self }
    }

    /// The record with the power slot set to `val` hundredths of a watt.
    pub fn power(self, val: i32) -> (r: Self)
        ensures
            r == apply_setting(self, FieldSetting::Power(val)),
    {
        BTHomeData { power: Some(val), ..self }
    }

    /// The record with the PM2.5 slot set to the raw count `val`.
    pub fn pm2_5(self, val: u16) -> (r: Self)
        ensures
            r == apply_setting(self, FieldSetting::Pm2_5(val)),
    {
        BTHomeData { pm2_5: Some(val), ..self }
    }

    /// The record with the PM10 slot set to the raw count `val`.
    pub fn pm10(self, val: u16) -> (r: Self)
        ensures
            r == apply_setting(self, FieldSetting::Pm10(val)),
    {
        BTHomeData { pm10: Some(val), ..self }
    }

    /// The record with the CO2 slot set to the raw count `val`.
    pub fn co2(self, val: u16) -> (r: Self)
        ensures
            r == apply_setting(self, FieldSetting::Co2(val)),
    {
        BTHomeData { co2: Some(val), ..self }
    }

    /// The record with the TVOC slot set to the raw count `val`.
    pub fn tvoc(self, val: u16) -> (r: Self)
        ensures
            r == apply_setting(self, FieldSetting::Tvoc(val)),
    {
        BTHomeData { tvoc: Some(val), ..self }
    }
}

/// Emits a raw byte field: object id, then the value.
fn add_u8(buffer: &mut BoundedWriter, object_id: u8, val: u8) -> (r: Result<(), BTHomeError>)
    requires
        old(buffer).wf(),
    ensures
        final(buffer).wf(),
        final(buffer).cap_spec() == old(buffer).cap_spec(),
        (match r {
            Ok(()) => {
                &&& old(buffer)@.len() + 2 <= old(buffer).cap_spec()
                &&& final(buffer)@ == old(buffer)@ + seq![object_id, val]
            },
            Err(e) => {
                &&& e == BTHomeError::BufferOverflow
                &&& old(buffer)@.len() + 2 > old(buffer).cap_spec()
                &&& final(buffer)@ == old(buffer)@
            },
        }),
{
    buffer.check_remaining_capacity(2)?;
    buffer.push(object_id);
    buffer.push(val);
    Ok(())
}

/// Emits a raw 16-bit count: object id, then the value little-endian.
fn add_u16(buffer: &mut BoundedWriter, object_id: u8, val: u16) -> (r: Result<(), BTHomeError>)
    requires
        old(buffer).wf(),
    ensures
        final(buffer).wf(),
        final(buffer).cap_spec() == old(buffer).cap_spec(),
        (match r {
            Ok(()) => {
                &&& old(buffer)@.len() + 3 <= old(buffer).cap_spec()
                &&& final(buffer)@ == old(buffer)@ + seq![object_id] + le16(val as int)
            },
            Err(e) => {
                &&& e == BTHomeError::BufferOverflow
                &&& old(buffer)@.len() + 3 > old(buffer).cap_spec()
                &&& final(buffer)@ == old(buffer)@
            },
        }),
{
    buffer.check_remaining_capacity(3)?;
    buffer.push(object_id);
    buffer.push((val % 256) as u8);
    buffer.push((val / 256) as u8);
    Ok(())
}

/// Emits an unsigned fixed-point field of 16-bit width, checking the
/// scaled value against the `u16` range first.
fn add_u16_scaled(buffer: &mut BoundedWriter, object_id: u8, scaled: i32) -> (r: Result<
    (),
    BTHomeError,
>)
    requires
        old(buffer).wf(),
    ensures
        final(buffer).wf(),
        final(buffer).cap_spec() == old(buffer).cap_spec(),
        (match r {
            Ok(()) => {
                &&& 0 <= scaled <= 0xffff
                &&& old(buffer)@.len() + 3 <= old(buffer).cap_spec()
                &&& final(buffer)@ == old(buffer)@ + seq![object_id] + le16(scaled as int)
            },
            Err(e) => {
                &&& final(buffer)@ == old(buffer)@
                &&& (if scaled > 0xffff {
                    e == BTHomeError::ValueOverflow
                } else if scaled < 0 {
                    e == BTHomeError::ValueUnderflow
                } else {
                    e == BTHomeError::BufferOverflow && old(buffer)@.len() + 3 > old(
                        buffer,
                    ).cap_spec()
                })
            },
        }),
{
    if scaled > 0xffff {
        return Err(BTHomeError::ValueOverflow);
    }
    if scaled < 0 {
        return Err(BTHomeError::ValueUnderflow);
    }
    buffer.check_remaining_capacity(3)?;
    let val = scaled as u16;
    buffer.push(object_id);
    buffer.push((val % 256) as u8);
    buffer.push((val / 256) as u8);
    Ok(())
}

/// Emits a signed fixed-point field of 16-bit width, checking the scaled
/// value against the `i16` range first; the wire image is two's complement.
fn add_i16_scaled(buffer: &mut BoundedWriter, object_id: u8, scaled: i32) -> (r: Result<
    (),
    BTHomeError,
>)
    requires
        old(buffer).wf(),
    ensures
        final(buffer).wf(),
        final(buffer).cap_spec() == old(buffer).cap_spec(),
        (match r {
            Ok(()) => {
                &&& -0x8000 <= scaled <= 0x7fff
                &&& old(buffer)@.len() + 3 <= old(buffer).cap_spec()
                &&& final(buffer)@ == old(buffer)@ + seq![object_id] + le16(i16_wire(scaled as int))
            },
            Err(e) => {
                &&& final(buffer)@ == old(buffer)@
                &&& (if scaled > 0x7fff {
                    e == BTHomeError::ValueOverflow
                } else if scaled < -0x8000 {
                    e == BTHomeError::ValueUnderflow
                } else {
                    e == BTHomeError::BufferOverflow && old(buffer)@.len() + 3 > old(
                        buffer,
                    ).cap_spec()
                })
            },
        }),
{
    if scaled > 0x7fff {
        return Err(BTHomeError::ValueOverflow);
    }
    if scaled < -0x8000 {
        return Err(BTHomeError::ValueUnderflow);
    }
    buffer.check_remaining_capacity(3)?;
    let wire: u32 = if scaled >= 0 {
        scaled as u32
    } else {
        (scaled + 0x10000) as u32
    };
    buffer.push(object_id);
    buffer.push((wire % 256) as u8);
    buffer.push(((wire / 256) % 256) as u8);
    Ok(())
}

/// Emits an unsigned fixed-point field of 24-bit width, checking the
/// scaled value against the 24-bit range first.
fn add_u24_scaled(buffer: &mut BoundedWriter, object_id: u8, scaled: i32) -> (r: Result<
    (),
    BTHomeError,
>)
    requires
        old(buffer).wf(),
    ensures
        final(buffer).wf(),
        final(buffer).cap_spec() == old(buffer).cap_spec(),
        (match r {
            Ok(()) => {
                &&& 0 <= scaled < 0x1000000
                &&& old(buffer)@.len() + 4 <= old(buffer).cap_spec()
                &&& final(buffer)@ == old(buffer)@ + seq![object_id] + le24(scaled as int)
            },
            Err(e) => {
                &&& final(buffer)@ == old(buffer)@
                &&& (if scaled >= 0x1000000 {
                    e == BTHomeError::ValueOverflow
                } else if scaled < 0 {
                    e == BTHomeError::ValueUnderflow
                } else {
                    e == BTHomeError::BufferOverflow && old(buffer)@.len() + 4 > old(
                        buffer,
                    ).cap_spec()
                })
            },
        }),
{
    if scaled >= 0x1000000 {
        return Err(BTHomeError::ValueOverflow);
    }
    if scaled < 0 {
        return Err(BTHomeError::ValueUnderflow);
    }
    buffer.check_remaining_capacity(4)?;
    let val = scaled as u32;
    buffer.push(object_id);
    buffer.push((val % 256) as u8);
    buffer.push(((val / 256) % 256) as u8);
    buffer.push(((val / 0x10000) % 256) as u8);
    Ok(())
}

/// Encodes every present field of `data` into the writer, in registry
/// order; the result is the byte count appended, or the error of the
/// first field that fails, with [`payload_result`] over the writer's free
/// room saying exactly which.
pub(crate) fn add_payload(data: BTHomeData, buffer: &mut BoundedWriter) -> (r: Result<
    usize,
    BTHomeError,
>)
    requires
        old(buffer).wf(),
    ensures
        final(buffer).wf(),
        final(buffer).cap_spec() == old(buffer).cap_spec(),
        (match r {
            Ok(n) => ({
                let pr = payload_result(data, old(buffer).cap_spec() - old(buffer)@.len());
                pr matches Ok(s) && final(buffer)@ == old(buffer)@ + s && n == s.len()
            }),
            Err(e) => payload_result(data, old(buffer).cap_spec() - old(buffer)@.len())
                == Err::<Seq<u8>, BTHomeError>(e),
        }),
{
    let ghost base = buffer@;
    let ghost avail = buffer.cap_spec() - base.len();
    let start = buffer.len();
    let ghost st0: Result<Seq<u8>, BTHomeError> = Ok(Seq::<u8>::empty());

    let mut fail: Option<BTHomeError> = None;
    fail = add_environment_fields(data, buffer, fail, Ghost(avail), Ghost(base), Ghost(st0));
    let ghost st_a = environment_steps(st0, avail, data);
    fail = add_meter_fields(data, buffer, fail, Ghost(avail), Ghost(base), Ghost(st_a));
    let ghost st_b = meter_steps(st_a, avail, data);
    fail = add_count_fields(data, buffer, fail, Ghost(avail), Ghost(base), Ghost(st_b));
    let ghost st_c = count_steps(st_b, avail, data);

    assert(payload_result(data, avail) == st_c);
    match fail {
        Some(e) => Err(e),
        None => Ok(buffer.len() - start),
    }
}

/// Emits the battery, temperature, humidity and pressure fields, carrying
/// the first error onward instead of writing further.
#[verifier::rlimit(50)]
fn add_environment_fields(
    data: BTHomeData,
    buffer: &mut BoundedWriter,
    fail: Option<BTHomeError>,
    Ghost(avail): Ghost<int>,
    Ghost(base): Ghost<Seq<u8>>,
    Ghost(st_in): Ghost<Result<Seq<u8>, BTHomeError>>,
) -> (fail_out: Option<BTHomeError>)
    requires
        old(buffer).wf(),
        avail == old(buffer).cap_spec() - base.len(),
        fold_state(st_in, fail, base, old(buffer)@),
    ensures
        final(buffer).wf(),
        final(buffer).cap_spec() == old(buffer).cap_spec(),
        fold_state(environment_steps(st_in, avail, data), fail_out, base, final(buffer)@),
{
    let mut fail = fail;

    let ghost st1 = step_u8(st_in, avail, BATTERY_OBJECT_ID, data.battery);
    if fail.is_none() {
        if let Some(val) = data.battery {
            if let Err(e) = add_u8(buffer, BATTERY_OBJECT_ID, val) {
                fail = Some(e);
            }
        }
    }
    assert(st1 matches Ok(s) ==> buffer@ =~= base + s);
    assert(fold_state(st1, fail, base, buffer@));

    let ghost st2 = step_scaled_i16(st1, avail, TEMPERATURE_OBJECT_ID, data.temperature);
    if fail.is_none() {
        if let Some(val) = data.temperature {
            if let Err(e) = add_i16_scaled(buffer, TEMPERATURE_OBJECT_ID, val) {
                fail = Some(e);
            }
        }
    }
    assert(st2 matches Ok(s) ==> buffer@ =~= base + s);
    assert(fold_state(st2, fail, base, buffer@));

    let ghost st3 = step_scaled_u16(st2, avail, HUMIDITY_OBJECT_ID, data.humidity);
    if fail.is_none() {
        if let Some(val) = data.humidity {
            if let Err(e) = add_u16_scaled(buffer, HUMIDITY_OBJECT_ID, val) {
                fail = Some(e);
            }
        }
    }
    assert(st3 matches Ok(s) ==> buffer@ =~= base + s);
    assert(fold_state(st3, fail, base, buffer@));

    let ghost st4 = step_scaled_u24(st3, avail, PRESSURE_OBJECT_ID, data.pressure);
    if fail.is_none() {
        if let Some(val) = data.pressure {
            if let Err(e) = add_u24_scaled(buffer, PRESSURE_OBJECT_ID, val) {
                fail = Some(e);
            }
        }
    }
    assert(st4 matches Ok(s) ==> buffer@ =~= base + s);
    assert(fold_state(st4, fail, base, buffer@));

    fail
}

/// Emits the illuminance, kilogram mass, pound mass and power fields,
/// carrying the first error onward instead of writing further.
#[verifier::rlimit(50)]
fn add_meter_fields(
    data: BTHomeData,
    buffer: &mut BoundedWriter,
    fail: Option<BTHomeError>,
    Ghost(avail): Ghost<int>,
    Ghost(base): Ghost<Seq<u8>>,
    Ghost(st_in): Ghost<Result<Seq<u8>, BTHomeError>>,
) -> (fail_out: Option<BTHomeError>)
    requires
        old(buffer).wf(),
        avail == old(buffer).cap_spec() - base.len(),
        fold_state(st_in, fail, base, old(buffer)@),
    ensures
        final(buffer).wf(),
        final(buffer).cap_spec() == old(buffer).cap_spec(),
        fold_state(meter_steps(st_in, avail, data), fail_out, base, final(buffer)@),
{
    let mut fail = fail;

    let ghost st1 = step_scaled_u24(st_in, avail, ILLUMINANCE_OBJECT_ID, data.illuminance);
    if fail.is_none() {
        if let Some(val) = data.illuminance {
            if let Err(e) = add_u24_scaled(buffer, ILLUMINANCE_OBJECT_ID, val) {
                fail = Some(e);
            }
        }
    }
    assert(st1 matches Ok(s) ==> buffer@ =~= base + s);
    assert(fold_state(st1, fail, base, buffer@));

    let ghost st2 = step_scaled_u16(st1, avail, MASS_KG_OBJECT_ID, data.mass_kg);
    if fail.is_none() {
        if let Some(val) = data.mass_kg {
            if let Err(e) = add_u16_scaled(buffer, MASS_KG_OBJECT_ID, val) {
                fail = Some(e);
            }
        }
    }
    assert(st2 matches Ok(s) ==> buffer@ =~= base + s);
    assert(fold_state(st2, fail, base, buffer@));

    let ghost st3 = step_scaled_u16(st2, avail, MASS_LB_OBJECT_ID, data.mass_lb);
    if fail.is_none() {
        if let Some(val) = data.mass_lb {
            if let Err(e) = add_u16_scaled(buffer, MASS_LB_OBJECT_ID, val) {
                fail = Some(e);
            }
        }
    }
    assert(st3 matches Ok(s) ==> buffer@ =~= base + s);
    assert(fold_state(st3, fail, base, buffer@));

    let ghost st4 = step_scaled_u24(st3, avail, POWER_OBJECT_ID, data.power);
    if fail.is_none() {
        if let Some(val) = data.power {
            if let Err(e) = add_u24_scaled(buffer, POWER_OBJECT_ID, val) {
                fail = Some(e);
            }
        }
    }
    assert(st4 matches Ok(s) ==> buffer@ =~= base + s);
    assert(fold_state(st4, fail, base, buffer@));

    fail
}

/// Emits the four raw count fields PM2.5, PM10, CO2 and TVOC, carrying
/// the first error onward instead of writing further.
#[verifier::rlimit(50)]
fn add_count_fields(
    data: BTHomeData,
    buffer: &mut BoundedWriter,
    fail: Option<BTHomeError>,
    Ghost(avail): Ghost<int>,
    Ghost(base): Ghost<Seq<u8>>,
    Ghost(st_in): Ghost<Result<Seq<u8>, BTHomeError>>,
) -> (fail_out: Option<BTHomeError>)
    requires
        old(buffer).wf(),
        avail == old(buffer).cap_spec() - base.len(),
        fold_state(st_in, fail, base, old(buffer)@),
    ensures
        final(buffer).wf(),
        final(buffer).cap_spec() == old(buffer).cap_spec(),
        fold_state(count_steps(st_in, avail, data), fail_out, base, final(buffer)@),
{
    let mut fail = fail;

    let ghost st1 = step_u16(st_in, avail, PM2_5_OBJECT_ID, data.pm2_5);
    if fail.is_none() {
        if let Some(val) = data.pm2_5 {
            if let Err(e) = add_u16(buffer, PM2_5_OBJECT_ID, val) {
                fail = Some(e);
            }
        }
    }
    assert(st1 matches Ok(s) ==> buffer@ =~= base + s);
    assert(fold_state(st1, fail, base, buffer@));

    let ghost st2 = step_u16(st1, avail, PM10_OBJECT_ID, data.pm10);
    if fail.is_none() {
        if let Some(val) = data.pm10 {
            if let Err(e) = add_u16(buffer, PM10_OBJECT_ID, val) {
                fail = Some(e);
            }
        }
    }
    assert(st2 matches Ok(s) ==> buffer@ =~= base + s);
    assert(fold_state(st2, fail, base, buffer@));

    let ghost st3 = step_u16(st2, avail, CO2_OBJECT_ID, data.co2);
    if fail.is_none() {
        if let Some(val) = data.co2 {
            if let Err(e) = add_u16(buffer, CO2_OBJECT_ID, val) {
                fail = Some(e);
            }
        }
    }
    assert(st3 matches Ok(s) ==> buffer@ =~= base + s);
    assert(fold_state(st3, fail, base, buffer@));

    let ghost st4 = step_u16(st3, avail, TVOC_OBJECT_ID, data.tvoc);
    if fail.is_none() {
        if let Some(val) = data.tvoc {
            if let Err(e) = add_u16(buffer, TVOC_OBJECT_ID, val) {
                fail = Some(e);
            }
        }
    }
    assert(st4 matches Ok(s) ==> buffer@ =~= base + s);
    assert(fold_state(st4, fail, base, buffer@));

    fail
}

/// The device-info marker opening every unencrypted envelope.
pub const UNENCRYPTED_MARKER: u8 = 0x40;

/// Stateless encoder of the unencrypted BTHome v2 envelope: the marker
/// byte, then the payload of [`payload_result`].
pub struct BTHomeUnencryptedSerializer {}

impl BTHomeUnencryptedSerializer {
    /// An encoder instance; it carries no state.
    pub fn new() -> BTHomeUnencryptedSerializer {
        BTHomeUnencryptedSerializer {}
    }

    /// Encodes `data` into the front of the caller's buffer: the marker
    /// `0x40`, then every present field in registry order. Success is
    /// returned exactly when every present field is in range and the
    /// whole envelope fits; the count returned is marker plus payload,
    /// and bytes past it keep their old values. On an error the buffer
    /// contents are unspecified and must be discarded.
    pub fn serialize_to(&self, data: BTHomeData, buffer: &mut Vec<u8>) -> (r: Result<
        usize,
        BTHomeError,
    >)
        ensures
            final(buffer)@.len() == old(buffer)@.len(),
            (match r {
                Ok(n) => ({
                    &&& old(buffer)@.len() >= 1
                    &&& 1 <= n <= old(buffer)@.len()
                    &&& payload_result(data, old(buffer)@.len() - 1) matches Ok(s) && n == s.len()
                        + 1 && final(buffer)@ == seq![UNENCRYPTED_MARKER] + s + old(buffer)@.skip(
                        n as int,
                    )
                }),
                Err(e) => (if old(buffer)@.len() == 0 {
                    e == BTHomeError::BufferOverflow
                } else {
                    payload_result(data, old(buffer)@.len() - 1) == Err::<Seq<u8>, BTHomeError>(e)
                }),
            }),
    {
        let cap = buffer.len();
        if cap == 0 {
            return Err(BTHomeError::BufferOverflow);
        }
        let mut w = BoundedWriter::new(cap);
        w.push(UNENCRYPTED_MARKER);
        assert(w@ =~= seq![UNENCRYPTED_MARKER]);
        match add_payload(data, &mut w) {
            Err(e) => Err(e),
            Ok(_payload_size) => {
                let size = w.len();
                let ghost pre = w@;
                // carry the bytes past the envelope over unchanged
                let mut i = size;
                while i < cap
                    invariant
                        size <= i <= cap,
                        w.wf(),
                        w.cap_spec() == cap,
                        pre.len() == size,
                        w@ == pre + buffer@.subrange(size as int, i as int),
                        buffer@.len() == cap,
                    decreases cap - i,
                {
                    let b = buffer[i];
                    w.push(b);
                    proof {
                        assert(w@ =~= pre + buffer@.subrange(size as int, i + 1));
                    }
                    i = i + 1;
                }
                proof {
                    assert(buffer@.skip(size as int) =~= buffer@.subrange(size as int, cap as int));
                }
                let out = w.into_vec();
                *buffer = out;
                Ok(size)
            },
        }
    }

    /// Encodes `data` through a 256-byte scratch buffer and returns
    /// exactly the envelope bytes, with the same success and error
    /// behaviour as [`Self::serialize_to`] given 255 free payload bytes.
    pub fn serialize(&self, data: BTHomeData) -> (r: Result<Vec<u8>, BTHomeError>)
        ensures
            (match r {
                Ok(v) => (payload_result(data, 255) matches Ok(s) && v@ == seq![UNENCRYPTED_MARKER]
                    + s),
                Err(e) => payload_result(data, 255) == Err::<Seq<u8>, BTHomeError>(e),
            }),
    {
        let mut buffer: Vec<u8> = vec![0u8; 256];
        match self.serialize_to(data, &mut buffer) {
            Err(e) => Err(e),
            Ok(size) => {
                buffer.truncate(size);
                proof {
                    let s = payload_result(data, 255)->Ok_0;
                    assert(buffer@ =~= seq![UNENCRYPTED_MARKER] + s);
                }
                Ok(buffer)
            },
        }
    }
}

/// The running relation between the spec fold, the first error seen, and
/// the bytes the writer holds: while no field has failed the fold is the
/// bytes appended so far, afterwards it is that error.
spec fn fold_state(
    st: Result<Seq<u8>, BTHomeError>,
    fail: Option<BTHomeError>,
    base: Seq<u8>,
    cur: Seq<u8>,
) -> bool {
    match fail {
        None => st matches Ok(s) && cur == base + s,
        Some(e) => st == Err::<Seq<u8>, BTHomeError>(e),
    }
}

/// One group of the registry adds only boundedly many bytes: battery,
/// temperature, humidity and pressure together occupy at most 12.
proof fn lemma_environment_steps_len(
    st: Result<Seq<u8>, BTHomeError>,
    avail: int,
    data: BTHomeData,
    k: int,
)
    requires
        st matches Ok(s0) ==> s0.len() <= k,
    ensures
        environment_steps(st, avail, data) matches Ok(s) ==> s.len() <= k + 12,
{
    let s1 = step_u8(st, avail, BATTERY_OBJECT_ID, data.battery);
    assert(s1 matches Ok(s) ==> s.len() <= k + 2);
    let s2 = step_scaled_i16(s1, avail, TEMPERATURE_OBJECT_ID, data.temperature);
    assert(s2 matches Ok(s) ==> s.len() <= k + 5);
    let s3 = step_scaled_u16(s2, avail, HUMIDITY_OBJECT_ID, data.humidity);
    assert(s3 matches Ok(s) ==> s.len() <= k + 8);
}

/// Illuminance, the two mass variants and power together occupy at most
/// 14 bytes.
proof fn lemma_meter_steps_len(
    st: Result<Seq<u8>, BTHomeError>,
    avail: int,
    data: BTHomeData,
    k: int,
)
    requires
        st matches Ok(s0) ==> s0.len() <= k,
    ensures
        meter_steps(st, avail, data) matches Ok(s) ==> s.len() <= k + 14,
{
    let s1 = step_scaled_u24(st, avail, ILLUMINANCE_OBJECT_ID, data.illuminance);
    assert(s1 matches Ok(s) ==> s.len() <= k + 4);
    let s2 = step_scaled_u16(s1, avail, MASS_KG_OBJECT_ID, data.mass_kg);
    assert(s2 matches Ok(s) ==> s.len() <= k + 7);
    let s3 = step_scaled_u16(s2, avail, MASS_LB_OBJECT_ID, data.mass_lb);
    assert(s3 matches Ok(s) ==> s.len() <= k + 10);
}

/// The four raw counts together occupy at most 12 bytes.
proof fn lemma_count_steps_len(
    st: Result<Seq<u8>, BTHomeError>,
    avail: int,
    data: BTHomeData,
    k: int,
)
    requires
        st matches Ok(s0) ==> s0.len() <= k,
    ensures
        count_steps(st, avail, data) matches Ok(s) ==> s.len() <= k + 12,
{
    let s1 = step_u16(st, avail, PM2_5_OBJECT_ID, data.pm2_5);
    assert(s1 matches Ok(s) ==> s.len() <= k + 3);
    let s2 = step_u16(s1, avail, PM10_OBJECT_ID, data.pm10);
    assert(s2 matches Ok(s) ==> s.len() <= k + 6);
    let s3 = step_u16(s2, avail, CO2_OBJECT_ID, data.co2);
    assert(s3 matches Ok(s) ==> s.len() <= k + 9);
}

/// A successful payload is never longer than 38 bytes, the sum of the
/// twelve registry entry widths.
pub proof fn lemma_payload_result_len(data: BTHomeData, avail: int)
    ensures
        payload_result(data, avail) matches Ok(s) ==> s.len() <= 38,
{
    let st0: Result<Seq<u8>, BTHomeError> = Ok(Seq::<u8>::empty());
    lemma_environment_steps_len(st0, avail, data, 0);
    let st_a = environment_steps(st0, avail, data);
    lemma_meter_steps_len(st_a, avail, data, 12);
    let st_b = meter_steps(st_a, avail, data);
    lemma_count_steps_len(st_b, avail, data, 26);
}

/// The bytes of one raw byte field, when present.
pub open spec fn opt_u8_bytes(object_id: u8, field: Option<u8>) -> Seq<u8> {
    match field {
        None => Seq::<u8>::empty(),
        Some(v) => seq![object_id, v],
    }
}

/// The bytes of one raw 16-bit count, when present.
pub open spec fn opt_u16_bytes(object_id: u8, field: Option<u16>) -> Seq<u8> {
    match field {
        None => Seq::<u8>::empty(),
        Some(v) => seq![object_id] + le16(v as int),
    }
}

/// The bytes of one unsigned 16-bit fixed-point field, when present.
pub open spec fn opt_scaled_u16_bytes(object_id: u8, field: Option<i32>) -> Seq<u8> {
    match field {
        None => Seq::<u8>::empty(),
        Some(v) => seq![object_id] + le16(v as int),
    }
}

/// The bytes of one signed 16-bit fixed-point field, when present.
pub open spec fn opt_scaled_i16_bytes(object_id: u8, field: Option<i32>) -> Seq<u8> {
    match field {
        None => Seq::<u8>::empty(),
        Some(v) => seq![object_id] + le16(i16_wire(v as int)),
    }
}

/// The bytes of one unsigned 24-bit fixed-point field, when present.
pub open spec fn opt_scaled_u24_bytes(object_id: u8, field: Option<i32>) -> Seq<u8> {
    match field {
        None => Seq::<u8>::empty(),
        Some(v) => seq![object_id] + le24(v as int),
    }
}

/// The bytes the first registry third contributes, ranges permitting.
pub open spec fn environment_bytes(d: BTHomeData) -> Seq<u8> {
    opt_u8_bytes(BATTERY_OBJECT_ID, d.battery) + opt_scaled_i16_bytes(
        TEMPERATURE_OBJECT_ID,
        d.temperature,
    ) + opt_scaled_u16_bytes(HUMIDITY_OBJECT_ID, d.humidity) + opt_scaled_u24_bytes(
        PRESSURE_OBJECT_ID,
        d.pressure,
    )
}

/// The bytes the middle registry third contributes, ranges permitting.
pub open spec fn meter_bytes(d: BTHomeData) -> Seq<u8> {
    opt_scaled_u24_bytes(ILLUMINANCE_OBJECT_ID, d.illuminance) + opt_scaled_u16_bytes(
        MASS_KG_OBJECT_ID,
        d.mass_kg,
    ) + opt_scaled_u16_bytes(MASS_LB_OBJECT_ID, d.mass_lb) + opt_scaled_u24_bytes(
        POWER_OBJECT_ID,
        d.power,
    )
}

/// The bytes the four raw counts contribute.
pub open spec fn count_bytes(d: BTHomeData) -> Seq<u8> {
    opt_u16_bytes(PM2_5_OBJECT_ID, d.pm2_5) + opt_u16_bytes(PM10_OBJECT_ID, d.pm10) + opt_u16_bytes(
        CO2_OBJECT_ID,
        d.co2,
    ) + opt_u16_bytes(TVOC_OBJECT_ID, d.tvoc)
}

/// The full payload a record encodes to when every present field is in
/// range and room suffices: all twelve registry entries in order.
pub open spec fn payload_bytes(d: BTHomeData) -> Seq<u8> {
    environment_bytes(d) + meter_bytes(d) + count_bytes(d)
}

/// Every present field of the first registry third fits its wire width.
pub open spec fn environment_in_range(d: BTHomeData) -> bool {
    &&& (d.temperature matches Some(v) ==> -0x8000 <= v <= 0x7fff)
    &&& (d.humidity matches Some(v) ==> 0 <= v <= 0xffff)
    &&& (d.pressure matches Some(v) ==> 0 <= v < 0x1000000)
}

/// Every present field of the middle registry third fits its wire width.
pub open spec fn meter_in_range(d: BTHomeData) -> bool {
    &&& (d.illuminance matches Some(v) ==> 0 <= v < 0x1000000)
    &&& (d.mass_kg matches Some(v) ==> 0 <= v <= 0xffff)
    &&& (d.mass_lb matches Some(v) ==> 0 <= v <= 0xffff)
    &&& (d.power matches Some(v) ==> 0 <= v < 0x1000000)
}

/// Every present scaled field fits its wire width; raw byte and count
/// fields always do.
pub open spec fn record_in_range(d: BTHomeData) -> bool {
    environment_in_range(d) && meter_in_range(d)
}

/// How the first registry third acts on a running state: an error passes
/// through; in range, the group's bytes land whole or the first short
/// check stops with `BufferOverflow`; out of range, some error stops it.
proof fn lemma_environment_characterized(st: Result<Seq<u8>, BTHomeError>, avail: int, d: BTHomeData)
    ensures
        st is Err ==> environment_steps(st, avail, d) == st,
        st is Ok && !environment_in_range(d) ==> environment_steps(st, avail, d) is Err,
        st is Ok && st->Ok_0.len() <= avail && environment_in_range(d) ==> (if st->Ok_0.len()
            + environment_bytes(d).len() <= avail {
            environment_steps(st, avail, d) == Ok::<Seq<u8>, BTHomeError>(st->Ok_0 + environment_bytes(d))
        } else {
            environment_steps(st, avail, d) == Err::<Seq<u8>, BTHomeError>(
                BTHomeError::BufferOverflow,
            )
        }),
{
    let s0 = st->Ok_0;
    if st is Ok && s0.len() <= avail && environment_in_range(d) {
        let b1 = opt_u8_bytes(BATTERY_OBJECT_ID, d.battery);
        let b2 = opt_scaled_i16_bytes(TEMPERATURE_OBJECT_ID, d.temperature);
        let b3 = opt_scaled_u16_bytes(HUMIDITY_OBJECT_ID, d.humidity);
        let b4 = opt_scaled_u24_bytes(PRESSURE_OBJECT_ID, d.pressure);
        let p1 = b1;
        let p2 = b1 + b2;
        let p3 = b1 + b2 + b3;
        let p4 = environment_bytes(d);
        let s1 = step_u8(st, avail, BATTERY_OBJECT_ID, d.battery);
        assert(s0 + Seq::<u8>::empty() =~= s0);
        assert((s0 + p1) + Seq::<u8>::empty() =~= s0 + p1);
        assert((s0 + p2) + Seq::<u8>::empty() =~= s0 + p2);
        assert((s0 + p3) + Seq::<u8>::empty() =~= s0 + p3);
        assert(if s0.len() + p1.len() <= avail {
            s1 == Ok::<Seq<u8>, BTHomeError>(s0 + p1)
        } else {
            s1 == Err::<Seq<u8>, BTHomeError>(BTHomeError::BufferOverflow)
        });
        let s2 = step_scaled_i16(s1, avail, TEMPERATURE_OBJECT_ID, d.temperature);
        assert((s0 + p1) + b2 =~= s0 + p2);
        assert(if s0.len() + p2.len() <= avail {
            s2 == Ok::<Seq<u8>, BTHomeError>(s0 + p2)
        } else {
            s2 == Err::<Seq<u8>, BTHomeError>(BTHomeError::BufferOverflow)
        });
        let s3 = step_scaled_u16(s2, avail, HUMIDITY_OBJECT_ID, d.humidity);
        assert((s0 + p2) + b3 =~= s0 + p3);
        assert(if s0.len() + p3.len() <= avail {
            s3 == Ok::<Seq<u8>, BTHomeError>(s0 + p3)
        } else {
            s3 == Err::<Seq<u8>, BTHomeError>(BTHomeError::BufferOverflow)
        });
        let s4 = step_scaled_u24(s3, avail, PRESSURE_OBJECT_ID, d.pressure);
        assert((s0 + p3) + b4 =~= s0 + p4);
        assert(if s0.len() + p4.len() <= avail {
            s4 == Ok::<Seq<u8>, BTHomeError>(s0 + p4)
        } else {
            s4 == Err::<Seq<u8>, BTHomeError>(BTHomeError::BufferOverflow)
        });
    }
}

/// How the middle registry third acts on a running state, as for the
/// first third.
proof fn lemma_meter_characterized(st: Result<Seq<u8>, BTHomeError>, avail: int, d: BTHomeData)
    ensures
        st is Err ==> meter_steps(st, avail, d) == st,
        st is Ok && !meter_in_range(d) ==> meter_steps(st, avail, d) is Err,
        st is Ok && st->Ok_0.len() <= avail && meter_in_range(d) ==> (if st->Ok_0.len()
            + meter_bytes(d).len() <= avail {
            meter_steps(st, avail, d) == Ok::<Seq<u8>, BTHomeError>(st->Ok_0 + meter_bytes(d))
        } else {
            meter_steps(st, avail, d) == Err::<Seq<u8>, BTHomeError>(BTHomeError::BufferOverflow)
        }),
{
    let s0 = st->Ok_0;
    if st is Ok && s0.len() <= avail && meter_in_range(d) {
        let b1 = opt_scaled_u24_bytes(ILLUMINANCE_OBJECT_ID, d.illuminance);
        let b2 = opt_scaled_u16_bytes(MASS_KG_OBJECT_ID, d.mass_kg);
        let b3 = opt_scaled_u16_bytes(MASS_LB_OBJECT_ID, d.mass_lb);
        let b4 = opt_scaled_u24_bytes(POWER_OBJECT_ID, d.power);
        let p1 = b1;
        let p2 = b1 + b2;
        let p3 = b1 + b2 + b3;
        let p4 = meter_bytes(d);
        let s1 = step_scaled_u24(st, avail, ILLUMINANCE_OBJECT_ID, d.illuminance);
        assert(s0 + Seq::<u8>::empty() =~= s0);
        assert((s0 + p1) + Seq::<u8>::empty() =~= s0 + p1);
        assert((s0 + p2) + Seq::<u8>::empty() =~= s0 + p2);
        assert((s0 + p3) + Seq::<u8>::empty() =~= s0 + p3);
        assert(if s0.len() + p1.len() <= avail {
            s1 == Ok::<Seq<u8>, BTHomeError>(s0 + p1)
        } else {
            s1 == Err::<Seq<u8>, BTHomeError>(BTHomeError::BufferOverflow)
        });
        let s2 = step_scaled_u16(s1, avail, MASS_KG_OBJECT_ID, d.mass_kg);
        assert((s0 + p1) + b2 =~= s0 + p2);
        assert(if s0.len() + p2.len() <= avail {
            s2 == Ok::<Seq<u8>, BTHomeError>(s0 + p2)
        } else {
            s2 == Err::<Seq<u8>, BTHomeError>(BTHomeError::BufferOverflow)
        });
        let s3 = step_scaled_u16(s2, avail, MASS_LB_OBJECT_ID, d.mass_lb);
        assert((s0 + p2) + b3 =~= s0 + p3);
        assert(if s0.len() + p3.len() <= avail {
            s3 == Ok::<Seq<u8>, BTHomeError>(s0 + p3)
        } else {
            s3 == Err::<Seq<u8>, BTHomeError>(BTHomeError::BufferOverflow)
        });
        let s4 = step_scaled_u24(s3, avail, POWER_OBJECT_ID, d.power);
        assert((s0 + p3) + b4 =~= s0 + p4);
        assert(if s0.len() + p4.len() <= avail {
            s4 == Ok::<Seq<u8>, BTHomeError>(s0 + p4)
        } else {
            s4 == Err::<Seq<u8>, BTHomeError>(BTHomeError::BufferOverflow)
        });
    }
}

/// How the four raw counts act on a running state; they are always in
/// range, so only room decides.
proof fn lemma_count_characterized(st: Result<Seq<u8>, BTHomeError>, avail: int, d: BTHomeData)
    ensures
        st is Err ==> count_steps(st, avail, d) == st,
        st is Ok && st->Ok_0.len() <= avail ==> (if st->Ok_0.len() + count_bytes(d).len()
            <= avail {
            count_steps(st, avail, d) == Ok::<Seq<u8>, BTHomeError>(st->Ok_0 + count_bytes(d))
        } else {
            count_steps(st, avail, d) == Err::<Seq<u8>, BTHomeError>(BTHomeError::BufferOverflow)
        }),
{
    let s0 = st->Ok_0;
    if st is Ok && s0.len() <= avail {
        let b1 = opt_u16_bytes(PM2_5_OBJECT_ID, d.pm2_5);
        let b2 = opt_u16_bytes(PM10_OBJECT_ID, d.pm10);
        let b3 = opt_u16_bytes(CO2_OBJECT_ID, d.co2);
        let b4 = opt_u16_bytes(TVOC_OBJECT_ID, d.tvoc);
        let p1 = b1;
        let p2 = b1 + b2;
        let p3 = b1 + b2 + b3;
        let p4 = count_bytes(d);
        let s1 = step_u16(st, avail, PM2_5_OBJECT_ID, d.pm2_5);
        assert(s0 + Seq::<u8>::empty() =~= s0);
        assert((s0 + p1) + Seq::<u8>::empty() =~= s0 + p1);
        assert((s0 + p2) + Seq::<u8>::empty() =~= s0 + p2);
        assert((s0 + p3) + Seq::<u8>::empty() =~= s0 + p3);
        assert(if s0.len() + p1.len() <= avail {
            s1 == Ok::<Seq<u8>, BTHomeError>(s0 + p1)
        } else {
            s1 == Err::<Seq<u8>, BTHomeError>(BTHomeError::BufferOverflow)
        });
        let s2 = step_u16(s1, avail, PM10_OBJECT_ID, d.pm10);
        assert((s0 + p1) + b2 =~= s0 + p2);
        assert(if s0.len() + p2.len() <= avail {
            s2 == Ok::<Seq<u8>, BTHomeError>(s0 + p2)
        } else {
            s2 == Err::<Seq<u8>, BTHomeError>(BTHomeError::BufferOverflow)
        });
        let s3 = step_u16(s2, avail, CO2_OBJECT_ID, d.co2);
        assert((s0 + p2) + b3 =~= s0 + p3);
        assert(if s0.len() + p3.len() <= avail {
            s3 == Ok::<Seq<u8>, BTHomeError>(s0 + p3)
        } else {
            s3 == Err::<Seq<u8>, BTHomeError>(BTHomeError::BufferOverflow)
        });
        let s4 = step_u16(s3, avail, TVOC_OBJECT_ID, d.tvoc);
        assert((s0 + p3) + b4 =~= s0 + p4);
        assert(if s0.len() + p4.len() <= avail {
            s4 == Ok::<Seq<u8>, BTHomeError>(s0 + p4)
        } else {
            s4 == Err::<Seq<u8>, BTHomeError>(BTHomeError::BufferOverflow)
        });
    }
}

/// What an encode yields, characterised without the fold: with every
/// present field in range the payload is exactly [`payload_bytes`] when
/// it fits and `BufferOverflow` when it does not — a buffer smaller than
/// the required size never yields a shorter success — and with any field
/// out of range the encode fails.
pub proof fn lemma_payload_result_characterized(d: BTHomeData, avail: int)
    requires
        0 <= avail,
    ensures
        record_in_range(d) && payload_bytes(d).len() <= avail ==> payload_result(d, avail)
            == Ok::<Seq<u8>, BTHomeError>(payload_bytes(d)),
        record_in_range(d) && payload_bytes(d).len() > avail ==> payload_result(d, avail)
            == Err::<Seq<u8>, BTHomeError>(BTHomeError::BufferOverflow),
        !record_in_range(d) ==> payload_result(d, avail) is Err,
{
    let st0: Result<Seq<u8>, BTHomeError> = Ok(Seq::<u8>::empty());
    lemma_environment_characterized(st0, avail, d);
    let st_a = environment_steps(st0, avail, d);
    lemma_meter_characterized(st_a, avail, d);
    let st_b = meter_steps(st_a, avail, d);
    lemma_count_characterized(st_b, avail, d);
    let eb = environment_bytes(d);
    let mb = meter_bytes(d);
    let cb = count_bytes(d);
    assert(Seq::<u8>::empty() + eb =~= eb);
    assert(eb + mb + cb =~= payload_bytes(d));
    assert((eb + mb) + cb =~= payload_bytes(d));
}

/// An output buffer smaller than the record's envelope — marker plus
/// [`payload_bytes`] — always yields `BufferOverflow` from the payload
/// encode, never a shorter success; an empty buffer fails on the marker
/// alone.
pub proof fn lemma_undersized_buffer_overflows(d: BTHomeData, cap: int)
    requires
        record_in_range(d),
        0 <= cap < payload_bytes(d).len() + 1,
    ensures
        cap > 0 ==> payload_result(d, cap - 1) == Err::<Seq<u8>, BTHomeError>(
            BTHomeError::BufferOverflow,
        ),
{
    if cap > 0 {
        lemma_payload_result_characterized(d, cap - 1);
    }
}

/// Builder steps that fill different slots commute: a record built by
/// setting distinct fields carries no trace of the order they were set
/// in, so the emitted payload depends on the registry order alone.
pub proof fn lemma_settings_commute(d: BTHomeData, s1: FieldSetting, s2: FieldSetting)
    requires
        setting_slot(s1) != setting_slot(s2),
    ensures
        apply_setting(apply_setting(d, s1), s2) == apply_setting(apply_setting(d, s2), s1),
{
}

/// Whether every pair of settings in `ss` fills a different slot.
pub open spec fn distinct_slots(ss: Seq<FieldSetting>) -> bool {
    forall|i: int, j: int|
        0 <= i < j < ss.len() ==> setting_slot(ss[i]) != setting_slot(ss[j])
}

/// With pairwise-distinct slots, the setting at position `j` may be
/// applied first without changing the record built.
proof fn lemma_apply_settings_pull_front(d: BTHomeData, ss: Seq<FieldSetting>, j: int)
    requires
        distinct_slots(ss),
        0 <= j < ss.len(),
    ensures
        apply_settings(d, ss) == apply_settings(apply_setting(d, ss[j]), ss.remove(j)),
    decreases j,
{
    if j == 0 {
        assert(ss.remove(0) =~= ss.skip(1));
    } else {
        let t = ss.skip(1);
        assert forall|a: int, b: int| 0 <= a < b < t.len() implies setting_slot(t[a])
            != setting_slot(t[b]) by {
            assert(t[a] == ss[a + 1]);
            assert(t[b] == ss[b + 1]);
        }
        lemma_apply_settings_pull_front(apply_setting(d, ss[0]), t, j - 1);
        assert(t[j - 1] == ss[j]);
        lemma_settings_commute(d, ss[0], ss[j]);
        assert(ss.remove(j)[0] == ss[0]);
        assert(ss.remove(j).skip(1) =~= t.remove(j - 1));
    }
}

/// Two builder runs that set pairwise-distinct fields, one a
/// rearrangement of the other, build the same record — so the emitted
/// payload keeps registry order whatever the order the caller chose.
pub proof fn lemma_settings_order_irrelevant(
    d: BTHomeData,
    ss1: Seq<FieldSetting>,
    ss2: Seq<FieldSetting>,
)
    requires
        distinct_slots(ss1),
        ss2.to_multiset() == ss1.to_multiset(),
    ensures
        apply_settings(d, ss1) == apply_settings(d, ss2),
    decreases ss1.len(),
{
    ss1.to_multiset_ensures();
    ss2.to_multiset_ensures();
    if ss1.len() == 0 {
        assert(ss2.len() == 0);
    } else {
        let h = ss1[0];
        assert(ss1.contains(h));
        assert(ss2.to_multiset().count(h) > 0);
        assert(ss2.contains(h));
        let j = choose|i: int| 0 <= i < ss2.len() && ss2[i] == h;

        // slot-distinctness carries over to the rearrangement
        assert(ss1.no_duplicates());
        ss1.lemma_multiset_has_no_duplicates();
        ss2.lemma_multiset_has_no_duplicates_conv();
        assert forall|a: int, b: int| 0 <= a < b < ss2.len() implies setting_slot(ss2[a])
            != setting_slot(ss2[b]) by {
            assert(ss2[a] != ss2[b]);
            assert(ss2.contains(ss2[a]));
            assert(ss2.contains(ss2[b]));
            assert(ss1.to_multiset().count(ss2[a]) > 0);
            assert(ss1.to_multiset().count(ss2[b]) > 0);
            assert(ss1.contains(ss2[a]));
            assert(ss1.contains(ss2[b]));
            let ia = choose|i: int| 0 <= i < ss1.len() && ss1[i] == ss2[a];
            let ib = choose|i: int| 0 <= i < ss1.len() && ss1[i] == ss2[b];
            assert(ia != ib);
        }

        lemma_apply_settings_pull_front(d, ss2, j);

        let t1 = ss1.skip(1);
        assert forall|a: int, b: int| 0 <= a < b < t1.len() implies setting_slot(t1[a])
            != setting_slot(t1[b]) by {
            assert(t1[a] == ss1[a + 1]);
            assert(t1[b] == ss1[b + 1]);
        }
        assert(ss1.remove(0) =~= t1);
        assert(t1.to_multiset() == ss1.to_multiset().remove(h));
        assert(ss2.remove(j).to_multiset() == ss2.to_multiset().remove(h));
        lemma_settings_order_irrelevant(apply_setting(d, h), t1, ss2.remove(j));
    }
}

} // verus!
