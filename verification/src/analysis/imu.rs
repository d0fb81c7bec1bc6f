//! Recognising the raw IMU channels of a device by their names, and
//! gathering their values into complete samples.

use vstd::prelude::*;
use crate::text::{ascii_lower_all, chars_of, lower_chars, string_from_chars};

verus! {

/// The six raw IMU axes.
#[derive(Clone, Copy, Debug, PartialEq, Eq, Structural)]
pub enum AxisKind {
    AccelX,
    AccelY,
    AccelZ,
    GyroX,
    GyroY,
    GyroZ,
}

/// The channel-name endings that identify each axis, in the order they are
/// tried.
pub open spec fn alias_table() -> Seq<(AxisKind, Seq<char>)> {
    seq![
        (AxisKind::AccelX, "imuaccelx"@),
        (AxisKind::AccelX, "imuaccx"@),
        (AxisKind::AccelX, "imuax"@),
        (AxisKind::AccelX, "accelx"@),
        (AxisKind::AccelX, "accx"@),
        (AxisKind::AccelX, "ax"@),
        (AxisKind::AccelY, "imuaccely"@),
        (AxisKind::AccelY, "imuaccy"@),
        (AxisKind::AccelY, "imuay"@),
        (AxisKind::AccelY, "accely"@),
        (AxisKind::AccelY, "accy"@),
        (AxisKind::AccelY, "ay"@),
        (AxisKind::AccelZ, "imuaccelz"@),
        (AxisKind::AccelZ, "imuaccz"@),
        (AxisKind::AccelZ, "imuaz"@),
        (AxisKind::AccelZ, "accelz"@),
        (AxisKind::AccelZ, "accz"@),
        (AxisKind::AccelZ, "az"@),
        (AxisKind::GyroX, "imugyrox"@),
        (AxisKind::GyroX, "imugx"@),
        (AxisKind::GyroX, "gyrox"@),
        (AxisKind::GyroX, "gx"@),
        (AxisKind::GyroY, "imugyroy"@),
        (AxisKind::GyroY, "imugy"@),
        (AxisKind::GyroY, "gyroy"@),
        (AxisKind::GyroY, "gy"@),
        (AxisKind::GyroZ, "imugyroz"@),
        (AxisKind::GyroZ, "imugz"@),
        (AxisKind::GyroZ, "gyroz"@),
        (AxisKind::GyroZ, "gz"@)
    ]
}

/// The text of the alias list.
pub open spec fn aliases_text(v: Seq<(AxisKind, &str)>) -> Seq<(AxisKind, Seq<char>)> {
    v.map_values(|e: (AxisKind, &str)| (e.0, e.1@))
}

/// The channel-name endings that identify each axis.
pub fn raw_aliases() -> (out: Vec<(AxisKind, &'static str)>)
    ensures
        aliases_text(out@) == alias_table(),
{
    let out: Vec<(AxisKind, &'static str)> = vec![
        (AxisKind::AccelX, "imuaccelx"),
        (AxisKind::AccelX, "imuaccx"),
        (AxisKind::AccelX, "imuax"),
        (AxisKind::AccelX, "accelx"),
        (AxisKind::AccelX, "accx"),
        (AxisKind::AccelX, "ax"),
        (AxisKind::AccelY, "imuaccely"),
        (AxisKind::AccelY, "imuaccy"),
        (AxisKind::AccelY, "imuay"),
        (AxisKind::AccelY, "accely"),
        (AxisKind::AccelY, "accy"),
        (AxisKind::AccelY, "ay"),
        (AxisKind::AccelZ, "imuaccelz"),
        (AxisKind::AccelZ, "imuaccz"),
        (AxisKind::AccelZ, "imuaz"),
        (AxisKind::AccelZ, "accelz"),
        (AxisKind::AccelZ, "accz"),
        (AxisKind::AccelZ, "az"),
        (AxisKind::GyroX, "imugyrox"),
        (AxisKind::GyroX, "imugx"),
        (AxisKind::GyroX, "gyrox"),
        (AxisKind::GyroX, "gx"),
        (AxisKind::GyroY, "imugyroy"),
        (AxisKind::GyroY, "imugy"),
        (AxisKind::GyroY, "gyroy"),
        (AxisKind::GyroY, "gy"),
        (AxisKind::GyroZ, "imugyroz"),
        (AxisKind::GyroZ, "imugz"),
        (AxisKind::GyroZ, "gyroz"),
        (AxisKind::GyroZ, "gz")
    ];
    assert(aliases_text(out@) =~= alias_table());
    out
}

/// Whether a character is an ASCII letter or digit.
pub open spec fn is_ascii_alnum(c: char) -> bool {
    ('a' <= c <= 'z') || ('A' <= c <= 'Z') || ('0' <= c <= '9')
}

/// The ASCII letters and digits of a name, lower-cased.
pub open spec fn normalized_name(s: Seq<char>) -> Seq<char>
    decreases s.len(),
{
    if s.len() == 0 {
        Seq::empty()
    } else if is_ascii_alnum(s.last()) {
        normalized_name(s.drop_last()).push(crate::text::ascii_lower(s.last()))
    } else {
        normalized_name(s.drop_last())
    }
}

/// Keeps the ASCII letters and digits of a name, lower-cased.
pub fn normalize_channel_name(value: &str) -> (out: String)
    ensures
        out@ == normalized_name(value@),
{
    let chars = chars_of(value);
    let mut out: Vec<char> = Vec::new();
    let mut i: usize = 0;
    while i < chars.len()
        invariant
            i <= chars.len(),
            chars@ == value@,
            out@ == normalized_name(chars@.take(i as int)),
        decreases chars.len() - i,
    {
        let c = chars[i];
        if ('a' <= c && c <= 'z') || ('A' <= c && c <= 'Z') || ('0' <= c && c <= '9') {
            out.push(crate::text::to_ascii_lower(c));
        }
        assert(chars@.take(i + 1).drop_last() =~= chars@.take(i as int));
        i = i + 1;
    }
    assert(chars@.take(chars.len() as int) =~= chars@);
    string_from_chars(out.as_slice())
}

/// Whether `s` ends with `t`.
pub open spec fn ends_with(s: Seq<char>, t: Seq<char>) -> bool {
    s.len() >= t.len() && s.skip(s.len() - t.len()) == t
}

/// The label of the sensor whose channels start with `prefix`.
pub open spec fn sensor_label_text(prefix: Seq<char>) -> Seq<char> {
    if prefix.len() == 0 {
        "imu"@
    } else if ends_with(prefix, "imu"@) {
        prefix
    } else {
        prefix + "_imu"@
    }
}

/// Whether a character sequence ends with the characters of a string.
fn chars_end_with(s: &[char], t: &str) -> (r: bool)
    ensures
        r == ends_with(s@, t@),
{
    let tc = chars_of(t);
    if s.len() < tc.len() {
        return false;
    }
    let tail = vstd::slice::slice_subrange(s, s.len() - tc.len(), s.len());
    assert(tail@ =~= s@.skip(s@.len() - tc@.len()));
    crate::text::chars_eq(tail, tc.as_slice())
}

/// The label of the sensor whose channels start with `prefix`: `imu` alone,
/// the prefix when it already ends with `imu`, else the prefix and `_imu`.
pub fn sensor_label(prefix: &str) -> (out: String)
    ensures
        out@ == sensor_label_text(prefix@),
{
    let chars = chars_of(prefix);
    if chars.len() == 0 {
        return crate::text::owned("imu");
    }
    if chars_end_with(chars.as_slice(), "imu") {
        return crate::text::owned(prefix);
    }
    let mut out = crate::text::owned(prefix);
    out.append("_imu");
    out
}

/// The best match among the aliases from position `i` on: the longest
/// alias that ends the name, the earliest among equally long ones.
pub open spec fn classify_scan(
    n: Seq<char>,
    i: int,
    best: Option<(int, Seq<char>, AxisKind)>,
) -> Option<(int, Seq<char>, AxisKind)>
    decreases alias_table().len() - i,
{
    if i < 0 || i >= alias_table().len() {
        best
    } else {
        let (kind, alias) = alias_table()[i];
        if ends_with(n, alias) && match best {
            Some((score, _, _)) => alias.len() > score,
            None => true,
        } {
            classify_scan(
                n,
                i + 1,
                Some((alias.len() as int, sensor_label_text(n.take(n.len() - alias.len())), kind)),
            )
        } else {
            classify_scan(n, i + 1, best)
        }
    }
}

/// The sensor label and axis that a channel name identifies, if any.
pub open spec fn classify_spec(channel_id: Seq<char>) -> Option<(Seq<char>, AxisKind)> {
    match classify_scan(normalized_name(channel_id), 0, None) {
        Some((_, label, kind)) => Some((label, kind)),
        None => None,
    }
}

/// Recognises a raw IMU channel: its normalised name must end with one of
/// the axis aliases; the longest alias wins, and what comes before it names
/// the sensor.
pub fn classify_raw_channel(channel_id: &str) -> (r: Option<(String, AxisKind)>)
    ensures
        match classify_spec(channel_id@) {
            Some((label, kind)) => r matches Some((l, k)) && l@ == label && k == kind,
            None => r is None,
        },
{
    let normalized = normalize_channel_name(channel_id);
    let n = chars_of(normalized.as_str());
    let aliases = raw_aliases();
    let mut best: Option<(usize, String, AxisKind)> = None;
    let mut i: usize = 0;
    while i < aliases.len()
        invariant
            i <= aliases.len(),
            aliases_text(aliases@) == alias_table(),
            n@ == normalized_name(channel_id@),
            classify_scan(n@, 0, None) == classify_scan(
                n@,
                i as int,
                match best {
                    Some((s, l, k)) => Some((s as int, l@, k)),
                    None => None,
                },
            ),
        decreases aliases.len() - i,
    {
        let (kind, alias) = aliases[i];
        assert(alias_table()[i as int] == (kind, alias@));
        if chars_end_with(n.as_slice(), alias) {
            let alias_len = chars_of(alias).len();
            let better = match &best {
                Some((s, _, _)) => alias_len > *s,
                None => true,
            };
            if better {
                let prefix = vstd::slice::slice_subrange(n.as_slice(), 0, n.len() - alias_len);
                assert(prefix@ =~= n@.take(n@.len() - alias@.len()));
                let label = sensor_label(string_from_chars(prefix).as_str());
                best = Some((alias_len, label, kind));
            }
        }
        i = i + 1;
    }
    match best {
        Some((_, label, kind)) => Some((label, kind)),
        None => None,
    }
}

/// Whether `t` occurs somewhere in `s`.
pub open spec fn contains_text(s: Seq<char>, t: Seq<char>) -> bool {
    exists|i: int| 0 <= i && i + t.len() <= s.len() && #[trigger] s.subrange(i, i + t.len()) == t
}

/// Whether gyro values in `unit` are in radians per second: the unit,
/// `deg/s` when none is given, lower-cased, contains `rad`.
pub open spec fn gyro_in_radians(unit: Option<Seq<char>>) -> bool {
    contains_text(
        ascii_lower_all(
            match unit {
                Some(u) => u,
                None => "deg/s"@,
            },
        ),
        "rad"@,
    )
}

/// Whether gyro values in `unit` are in radians per second (others are in
/// degrees per second and get converted).
pub fn gyro_unit_in_radians(unit: Option<&str>) -> (r: bool)
    ensures
        r == gyro_in_radians(
            match unit {
                Some(u) => Some(u@),
                None => None,
            },
        ),
{
    let text = match unit {
        Some(u) => u,
        None => "deg/s",
    };
    let lower = lower_chars(chars_of(text).as_slice());
    let pattern = chars_of("rad");
    proof {
        reveal_strlit("rad");
    }
    let ghost target = "rad"@;
    let ghost unit_text = match unit {
        Some(u) => u@,
        None => "deg/s"@,
    };
    assert(lower@ == ascii_lower_all(unit_text));
    assert(target.len() == 3);
    if lower.len() < 3 {
        return false;
    }
    let mut i: usize = 0;
    while i < lower.len() - 2
        invariant
            lower.len() >= 3,
            i <= lower.len() - 2,
            pattern@ == target,
            target.len() == 3,
            target == "rad"@,
            lower@ == ascii_lower_all(unit_text),
            unit_text == match unit {
                Some(u) => u@,
                None => "deg/s"@,
            },
            forall|j: int| 0 <= j < i ==> #[trigger] lower@.subrange(j, j + target.len()) != target,
        decreases lower.len() - i,
    {
        if lower[i] == pattern[0] && lower[i + 1] == pattern[1] && lower[i + 2] == pattern[2] {
            assert(lower@.subrange(i as int, i + target.len()) =~= target);
            return true;
        }
        assert(lower@.subrange(i as int, i + target.len())[0] == lower@[i as int]);
        assert(lower@.subrange(i as int, i + target.len())[1] == lower@[i + 1]);
        assert(lower@.subrange(i as int, i + target.len())[2] == lower@[i + 2]);
        i = i + 1;
    }
    false
}

/// The place of an axis among the six values of a sample: the three
/// accelerometer axes, then the three gyro axes.
pub open spec fn axis_slot(kind: AxisKind) -> int {
    match kind {
        AxisKind::AccelX => 0,
        AxisKind::AccelY => 1,
        AxisKind::AccelZ => 2,
        AxisKind::GyroX => 3,
        AxisKind::GyroY => 4,
        AxisKind::GyroZ => 5,
    }
}

/// One complete IMU sample: three accelerometer and three gyro values
/// taken at one time.
#[derive(Clone, Copy, Debug)]
pub struct ImuSample<V> {
    pub timestamp_ms: u64,
    pub accel: [V; 3],
    pub gyro: [V; 3],
}

/// The values of one sensor gathered so far for one timestamp.
#[derive(Clone, Copy, Debug)]
pub struct PendingSample<V> {
    pub timestamp_ms: Option<u64>,
    pub accel: [Option<V>; 3],
    pub gyro: [Option<V>; 3],
}

/// The six slots of a pending sample, accelerometer first.
pub open spec fn pending_axes<V>(p: PendingSample<V>) -> Seq<Option<V>> {
    p.accel@ + p.gyro@
}

/// The six values of a sample, accelerometer first.
pub open spec fn sample_axes<V>(s: ImuSample<V>) -> Seq<V> {
    s.accel@ + s.gyro@
}

/// Six empty slots.
pub open spec fn no_axes<V>() -> Seq<Option<V>> {
    seq![None, None, None, None, None, None]
}

/// The slots after a value for `kind` at `timestamp_ms` arrives: a new
/// timestamp starts from empty slots.
pub open spec fn filled_axes<V>(p: PendingSample<V>, kind: AxisKind, value: V, timestamp_ms: u64) -> Seq<
    Option<V>,
> {
    if p.timestamp_ms == Some(timestamp_ms) {
        pending_axes(p).update(axis_slot(kind), Some(value))
    } else {
        no_axes::<V>().update(axis_slot(kind), Some(value))
    }
}

/// Whether all six slots hold a value.
pub open spec fn all_axes_known<V>(a: Seq<Option<V>>) -> bool {
    a.len() == 6 && forall|i: int| 0 <= i < 6 ==> #[trigger] a[i] is Some
}

impl<V: Copy> PendingSample<V> {
    /// No value gathered yet.
    pub fn new() -> (out: Self)
        ensures
            out.timestamp_ms is None,
            pending_axes(out) == no_axes::<V>(),
    {
        let out = PendingSample { timestamp_ms: None, accel: [None, None, None], gyro: [None, None, None] };
        assert(pending_axes(out) =~= no_axes::<V>());
        out
    }

    /// Takes the value of one axis taken at `timestamp_ms`. A value with a
    /// new timestamp drops what was gathered for the old one. When all six
    /// axes of the timestamp are known, they come out as one sample and the
    /// gathering starts over.
    pub fn ingest(&mut self, axis_kind: AxisKind, value: V, timestamp_ms: u64) -> (out: Option<
        ImuSample<V>,
    >)
        ensures
            all_axes_known(filled_axes(*old(self), axis_kind, value, timestamp_ms)) ==> {
                &&& out matches Some(s)
                &&& s.timestamp_ms == timestamp_ms
                &&& forall|i: int| 0 <= i < 6 ==> filled_axes(*old(self), axis_kind, value, timestamp_ms)[i]
                    == Some(#[trigger] sample_axes(s)[i])
                &&& final(self).timestamp_ms is None
                &&& pending_axes(*final(self)) == no_axes::<V>()
            },
            !all_axes_known(filled_axes(*old(self), axis_kind, value, timestamp_ms)) ==> {
                &&& out is None
                &&& final(self).timestamp_ms == Some(timestamp_ms)
                &&& pending_axes(*final(self)) == filled_axes(*old(self), axis_kind, value, timestamp_ms)
            },
    {
        let ghost filled = filled_axes(*old(self), axis_kind, value, timestamp_ms);
        let same = match self.timestamp_ms {
            Some(t) => t == timestamp_ms,
            None => false,
        };
        if !same {
            self.timestamp_ms = Some(timestamp_ms);
            self.accel = [None, None, None];
            self.gyro = [None, None, None];
        }
        let a = self.accel;
        let g = self.gyro;
        match axis_kind {
            AxisKind::AccelX => self.accel = [Some(value), a[1], a[2]],
            AxisKind::AccelY => self.accel = [a[0], Some(value), a[2]],
            AxisKind::AccelZ => self.accel = [a[0], a[1], Some(value)],
            AxisKind::GyroX => self.gyro = [Some(value), g[1], g[2]],
            AxisKind::GyroY => self.gyro = [g[0], Some(value), g[2]],
            AxisKind::GyroZ => self.gyro = [g[0], g[1], Some(value)],
        }
        assert(pending_axes(*self) =~= filled);
        let (ax, ay, az) = match (self.accel[0], self.accel[1], self.accel[2]) {
            (Some(x), Some(y), Some(z)) => (x, y, z),
            _ => {
                assert(!all_axes_known(filled)) by {
                    assert(filled[0] is None || filled[1] is None || filled[2] is None);
                }
                return None;
            },
        };
        let (gx, gy, gz) = match (self.gyro[0], self.gyro[1], self.gyro[2]) {
            (Some(x), Some(y), Some(z)) => (x, y, z),
            _ => {
                assert(!all_axes_known(filled)) by {
                    assert(filled[3] is None || filled[4] is None || filled[5] is None);
                }
                return None;
            },
        };
        let sample = ImuSample { timestamp_ms, accel: [ax, ay, az], gyro: [gx, gy, gz] };
        self.timestamp_ms = None;
        self.accel = [None, None, None];
        self.gyro = [None, None, None];
        assert(pending_axes(*self) =~= no_axes::<V>());
        assert(sample_axes(sample) =~= seq![ax, ay, az, gx, gy, gz]);
        Some(sample)
    }
}

} // verus!
