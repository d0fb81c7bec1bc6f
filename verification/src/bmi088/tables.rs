//! Compact field and unit codes, and the default telemetry schema.

use super::constants::{BMI088_FIELD_TYPE_I16, BMI088_SAMPLE_SCALE_Q, BMI088_SCHEMA_VERSION};
use super::models::{fields_model, Bmi088FieldDescriptor, Bmi088SchemaFrame, FieldModel, SchemaModel};
use crate::text::{chars_eq_str, chars_of, owned};
use vstd::prelude::*;

verus! {

/// The field name that a compact code stands for.
pub open spec fn compact_name(code: u8) -> Option<Seq<char>> {
    if code == 0 {
        Some("acc_x"@)
    } else if code == 1 {
        Some("acc_y"@)
    } else if code == 2 {
        Some("acc_z"@)
    } else if code == 3 {
        Some("gyro_x"@)
    } else if code == 4 {
        Some("gyro_y"@)
    } else if code == 5 {
        Some("gyro_z"@)
    } else if code == 6 {
        Some("roll"@)
    } else if code == 7 {
        Some("pitch"@)
    } else if code == 8 {
        Some("yaw"@)
    } else if code == 9 {
        Some("reserved_0"@)
    } else if code == 10 {
        Some("reserved_1"@)
    } else if code == 11 {
        Some("motor_left_rear_wheel"@)
    } else if code == 12 {
        Some("motor_left_front_wheel"@)
    } else if code == 13 {
        Some("motor_right_front_wheel"@)
    } else if code == 14 {
        Some("motor_right_rear_wheel"@)
    } else if code == 15 {
        Some("roll_correction_output"@)
    } else if code == 16 {
        Some("pitch_correction_output"@)
    } else if code == 17 {
        Some("yaw_correction_output"@)
    } else if code == 18 {
        Some("throttle_correction_output"@)
    } else if code == 19 {
        Some("roll_proportional_gain_x100"@)
    } else if code == 20 {
        Some("roll_integral_gain_x100"@)
    } else if code == 21 {
        Some("roll_derivative_gain_x100"@)
    } else if code == 22 {
        Some("pitch_proportional_gain_x100"@)
    } else if code == 23 {
        Some("pitch_integral_gain_x100"@)
    } else if code == 24 {
        Some("pitch_derivative_gain_x100"@)
    } else if code == 25 {
        Some("yaw_proportional_gain_x100"@)
    } else if code == 26 {
        Some("yaw_integral_gain_x100"@)
    } else if code == 27 {
        Some("yaw_derivative_gain_x100"@)
    } else if code == 28 {
        Some("output_limit"@)
    } else if code == 29 {
        Some("bench_test_throttle"@)
    } else {
        None
    }
}

/// The compact code of a field name.
pub open spec fn compact_code(name: Seq<char>) -> Option<u8> {
    if name == "acc_x"@ {
        Some(0u8)
    } else if name == "acc_y"@ {
        Some(1u8)
    } else if name == "acc_z"@ {
        Some(2u8)
    } else if name == "gyro_x"@ {
        Some(3u8)
    } else if name == "gyro_y"@ {
        Some(4u8)
    } else if name == "gyro_z"@ {
        Some(5u8)
    } else if name == "roll"@ {
        Some(6u8)
    } else if name == "pitch"@ {
        Some(7u8)
    } else if name == "yaw"@ {
        Some(8u8)
    } else if name == "reserved_0"@ {
        Some(9u8)
    } else if name == "reserved_1"@ {
        Some(10u8)
    } else if name == "motor_left_rear_wheel"@ {
        Some(11u8)
    } else if name == "motor_left_front_wheel"@ {
        Some(12u8)
    } else if name == "motor_right_front_wheel"@ {
        Some(13u8)
    } else if name == "motor_right_rear_wheel"@ {
        Some(14u8)
    } else if name == "roll_correction_output"@ {
        Some(15u8)
    } else if name == "pitch_correction_output"@ {
        Some(16u8)
    } else if name == "yaw_correction_output"@ {
        Some(17u8)
    } else if name == "throttle_correction_output"@ {
        Some(18u8)
    } else if name == "roll_proportional_gain_x100"@ {
        Some(19u8)
    } else if name == "roll_integral_gain_x100"@ {
        Some(20u8)
    } else if name == "roll_derivative_gain_x100"@ {
        Some(21u8)
    } else if name == "pitch_proportional_gain_x100"@ {
        Some(22u8)
    } else if name == "pitch_integral_gain_x100"@ {
        Some(23u8)
    } else if name == "pitch_derivative_gain_x100"@ {
        Some(24u8)
    } else if name == "yaw_proportional_gain_x100"@ {
        Some(25u8)
    } else if name == "yaw_integral_gain_x100"@ {
        Some(26u8)
    } else if name == "yaw_derivative_gain_x100"@ {
        Some(27u8)
    } else if name == "output_limit"@ {
        Some(28u8)
    } else if name == "bench_test_throttle"@ {
        Some(29u8)
    } else {
        None
    }
}

/// The unit name that a compact code stands for.
pub open spec fn compact_unit(code: u8) -> Option<Seq<char>> {
    if code == 0 {
        Some("raw"@)
    } else if code == 1 {
        Some("deg"@)
    } else {
        None
    }
}

/// The compact code of a unit name.
pub open spec fn compact_unit_code_spec(unit: Seq<char>) -> Option<u8> {
    if unit == "raw"@ {
        Some(0u8)
    } else if unit == "deg"@ {
        Some(1u8)
    } else {
        None
    }
}

/// The code of a name names it back.
pub proof fn lemma_compact_code_name(name: Seq<char>)
    ensures
        compact_code(name) matches Some(c) ==> compact_name(c) == Some(name),
        compact_unit_code_spec(name) matches Some(c) ==> compact_unit(c) == Some(name),
{
}

/// Looks up the compact code of a field name.
pub fn compact_field_code(name: &str) -> (out: Option<u8>)
    ensures
        out == compact_code(name@),
{
    let n = chars_of(name);
    let s = n.as_slice();
    if chars_eq_str(s, "acc_x") {
        Some(0)
    } else if chars_eq_str(s, "acc_y") {
        Some(1)
    } else if chars_eq_str(s, "acc_z") {
        Some(2)
    } else if chars_eq_str(s, "gyro_x") {
        Some(3)
    } else if chars_eq_str(s, "gyro_y") {
        Some(4)
    } else if chars_eq_str(s, "gyro_z") {
        Some(5)
    } else if chars_eq_str(s, "roll") {
        Some(6)
    } else if chars_eq_str(s, "pitch") {
        Some(7)
    } else if chars_eq_str(s, "yaw") {
        Some(8)
    } else if chars_eq_str(s, "reserved_0") {
        Some(9)
    } else if chars_eq_str(s, "reserved_1") {
        Some(10)
    } else if chars_eq_str(s, "motor_left_rear_wheel") {
        Some(11)
    } else if chars_eq_str(s, "motor_left_front_wheel") {
        Some(12)
    } else if chars_eq_str(s, "motor_right_front_wheel") {
        Some(13)
    } else if chars_eq_str(s, "motor_right_rear_wheel") {
        Some(14)
    } else if chars_eq_str(s, "roll_correction_output") {
        Some(15)
    } else if chars_eq_str(s, "pitch_correction_output") {
        Some(16)
    } else if chars_eq_str(s, "yaw_correction_output") {
        Some(17)
    } else if chars_eq_str(s, "throttle_correction_output") {
        Some(18)
    } else if chars_eq_str(s, "roll_proportional_gain_x100") {
        Some(19)
    } else if chars_eq_str(s, "roll_integral_gain_x100") {
        Some(20)
    } else if chars_eq_str(s, "roll_derivative_gain_x100") {
        Some(21)
    } else if chars_eq_str(s, "pitch_proportional_gain_x100") {
        Some(22)
    } else if chars_eq_str(s, "pitch_integral_gain_x100") {
        Some(23)
    } else if chars_eq_str(s, "pitch_derivative_gain_x100") {
        Some(24)
    } else if chars_eq_str(s, "yaw_proportional_gain_x100") {
        Some(25)
    } else if chars_eq_str(s, "yaw_integral_gain_x100") {
        Some(26)
    } else if chars_eq_str(s, "yaw_derivative_gain_x100") {
        Some(27)
    } else if chars_eq_str(s, "output_limit") {
        Some(28)
    } else if chars_eq_str(s, "bench_test_throttle") {
        Some(29)
    } else {
        None
    }
}

/// Looks up the field name of a compact code.
pub fn compact_field_name(code: u8) -> (out: Option<String>)
    ensures
        match (out, compact_name(code)) {
            (Some(a), Some(b)) => a@ == b,
            (None, None) => true,
            _ => false,
        },
{
    if code == 0 {
        Some(owned("acc_x"))
    } else if code == 1 {
        Some(owned("acc_y"))
    } else if code == 2 {
        Some(owned("acc_z"))
    } else if code == 3 {
        Some(owned("gyro_x"))
    } else if code == 4 {
        Some(owned("gyro_y"))
    } else if code == 5 {
        Some(owned("gyro_z"))
    } else if code == 6 {
        Some(owned("roll"))
    } else if code == 7 {
        Some(owned("pitch"))
    } else if code == 8 {
        Some(owned("yaw"))
    } else if code == 9 {
        Some(owned("reserved_0"))
    } else if code == 10 {
        Some(owned("reserved_1"))
    } else if code == 11 {
        Some(owned("motor_left_rear_wheel"))
    } else if code == 12 {
        Some(owned("motor_left_front_wheel"))
    } else if code == 13 {
        Some(owned("motor_right_front_wheel"))
    } else if code == 14 {
        Some(owned("motor_right_rear_wheel"))
    } else if code == 15 {
        Some(owned("roll_correction_output"))
    } else if code == 16 {
        Some(owned("pitch_correction_output"))
    } else if code == 17 {
        Some(owned("yaw_correction_output"))
    } else if code == 18 {
        Some(owned("throttle_correction_output"))
    } else if code == 19 {
        Some(owned("roll_proportional_gain_x100"))
    } else if code == 20 {
        Some(owned("roll_integral_gain_x100"))
    } else if code == 21 {
        Some(owned("roll_derivative_gain_x100"))
    } else if code == 22 {
        Some(owned("pitch_proportional_gain_x100"))
    } else if code == 23 {
        Some(owned("pitch_integral_gain_x100"))
    } else if code == 24 {
        Some(owned("pitch_derivative_gain_x100"))
    } else if code == 25 {
        Some(owned("yaw_proportional_gain_x100"))
    } else if code == 26 {
        Some(owned("yaw_integral_gain_x100"))
    } else if code == 27 {
        Some(owned("yaw_derivative_gain_x100"))
    } else if code == 28 {
        Some(owned("output_limit"))
    } else if code == 29 {
        Some(owned("bench_test_throttle"))
    } else {
        None
    }
}

/// Looks up the compact code of a unit name.
pub fn compact_unit_code(unit: &str) -> (out: Option<u8>)
    ensures
        out == compact_unit_code_spec(unit@),
{
    let u = chars_of(unit);
    if chars_eq_str(u.as_slice(), "raw") {
        Some(0)
    } else if chars_eq_str(u.as_slice(), "deg") {
        Some(1)
    } else {
        None
    }
}

/// Looks up the unit name of a compact code.
pub fn compact_unit_name(code: u8) -> (out: Option<String>)
    ensures
        match (out, compact_unit(code)) {
            (Some(a), Some(b)) => a@ == b,
            (None, None) => true,
            _ => false,
        },
{
    if code == 0 {
        Some(owned("raw"))
    } else if code == 1 {
        Some(owned("deg"))
    } else {
        None
    }
}

/// The fixed-point exponent of field `i` of the default schema.
pub open spec fn default_scale_q(i: int) -> i8 {
    if (6 <= i <= 8) || (19 <= i <= 27) {
        -2i8
    } else {
        0i8
    }
}

/// Field `i` of the default schema.
pub open spec fn default_field(i: int) -> FieldModel {
    FieldModel {
        field_id: i as u8,
        field_type: 0x01,
        name: compact_name(i as u8)->0,
        unit: if 6 <= i <= 8 {
            "deg"@
        } else {
            "raw"@
        },
        scale_q: default_scale_q(i),
    }
}

/// The default schema: the thirty BMI088 telemetry fields at 100 Hz.
pub open spec fn default_schema_spec() -> SchemaModel {
    SchemaModel {
        seq: 0,
        schema_version: 0x01,
        rate_hz: 100,
        sample_len: 60,
        fields: Seq::new(30, |i: int| default_field(i)),
    }
}

impl Bmi088SchemaFrame {
    /// The default BMI088 telemetry schema.
    pub fn bmi088_telemetry() -> (out: Self)
        ensures
            out@ == default_schema_spec(),
    {
        let mut fields: Vec<Bmi088FieldDescriptor> = Vec::new();
        let mut i: u8 = 0;
        while i < 30
            invariant
                i <= 30,
                fields_model(fields@) =~= Seq::new(i as nat, |k: int| default_field(k)),
            decreases 30 - i,
        {
            let name = match compact_field_name(i) {
                Some(n) => n,
                None => owned(""),
            };
            let unit = if 6 <= i && i <= 8 {
                owned("deg")
            } else {
                owned("raw")
            };
            let scale_q = BMI088_SAMPLE_SCALE_Q[i as usize];
            assert(scale_q == default_scale_q(i as int));
            let field = Bmi088FieldDescriptor {
                field_id: i,
                field_type: BMI088_FIELD_TYPE_I16,
                name,
                unit,
                scale_q,
            };
            assert(field@ == default_field(i as int));
            let ghost before = fields@;
            fields.push(field);
            assert(fields_model(fields@) =~= fields_model(before).push(field@));
            i = i + 1;
        }
        Bmi088SchemaFrame {
            seq: 0,
            schema_version: BMI088_SCHEMA_VERSION,
            rate_hz: 100,
            sample_len: 60,
            fields,
        }
    }
}

/// The default BMI088 telemetry schema.
pub fn default_schema() -> (out: Bmi088SchemaFrame)
    ensures
        out@ == default_schema_spec(),
{
    Bmi088SchemaFrame::bmi088_telemetry()
}

} // verus!
