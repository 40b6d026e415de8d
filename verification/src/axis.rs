//! The table of absolute axes of a virtual device: each key names an axis,
//! each value is a table that calibrates it.

use vstd::prelude::*;
use crate::codes::{
    AbsoluteAxis, AbsoluteAxisBit, absolute_axis_of, axis_code, try_into_abs_s,
};
use crate::document::{Node, entries_of, i32_of};
use crate::error::{ConfigError, ErrorKind, Failure};
use crate::text::same_text;

verus! {

/// The calibration of one axis while its table is being read: what each key
/// gave so far.
#[derive(Clone, Copy, PartialEq, Eq, Debug, Structural)]
pub struct AxisDraft {
    pub initial_value: Option<i32>,
    pub minimum: Option<i32>,
    pub maximum: Option<i32>,
    pub noise_threshold: Option<i32>,
    pub deadzone: Option<i32>,
    pub resolution: Option<i32>,
}

/// The draft of a calibration before any key was read.
pub open spec fn blank_axis() -> AxisDraft {
    AxisDraft {
        initial_value: None,
        minimum: None,
        maximum: None,
        noise_threshold: None,
        deadzone: None,
        resolution: None,
    }
}

/// The draft after one entry of a calibration table was read, or the fault
/// of that entry, seen from the entry's value. `min` and `max` are other
/// spellings of `minimum` and `maximum`.
pub open spec fn axis_step(draft: AxisDraft, key: Seq<char>, value: Node) -> Result<
    AxisDraft,
    Failure,
> {
    if key == "initial-value"@ {
        match i32_of(value) {
            Ok(number) => Ok(AxisDraft { initial_value: Some(number), ..draft }),
            Err(failure) => Err(failure),
        }
    } else if key == "minimum"@ || key == "min"@ {
        match i32_of(value) {
            Ok(number) => Ok(AxisDraft { minimum: Some(number), ..draft }),
            Err(failure) => Err(failure),
        }
    } else if key == "maximum"@ || key == "max"@ {
        match i32_of(value) {
            Ok(number) => Ok(AxisDraft { maximum: Some(number), ..draft }),
            Err(failure) => Err(failure),
        }
    } else if key == "noise-threshold"@ {
        match i32_of(value) {
            Ok(number) => Ok(AxisDraft { noise_threshold: Some(number), ..draft }),
            Err(failure) => Err(failure),
        }
    } else if key == "deadzone"@ {
        match i32_of(value) {
            Ok(number) => Ok(AxisDraft { deadzone: Some(number), ..draft }),
            Err(failure) => Err(failure),
        }
    } else if key == "resolution"@ {
        match i32_of(value) {
            Ok(number) => Ok(AxisDraft { resolution: Some(number), ..draft }),
            Err(failure) => Err(failure),
        }
    } else {
        Err(Failure::here(ErrorKind::UnrecognizedKey))
    }
}

/// The draft after the entries of a calibration table from position `from`
/// on were read in order, or the fault of the first entry that has one, seen
/// from the table.
pub open spec fn axis_scan(entries: Seq<(String, Node)>, from: int, draft: AxisDraft) -> Result<
    AxisDraft,
    Failure,
>
    decreases entries.len() - from,
{
    if from < 0 || from >= entries.len() {
        Ok(draft)
    } else {
        match axis_step(draft, entries[from].0@, entries[from].1) {
            Ok(next) => axis_scan(entries, from + 1, next),
            Err(failure) => Err(failure.under(entries[from].0@)),
        }
    }
}

/// The value that an absent key stands for.
pub open spec fn or_default(given: Option<i32>, default: i32) -> i32 {
    match given {
        Some(number) => number,
        None => default,
    }
}

/// The calibrated axis that a finished draft gives. The minimum and the
/// maximum are mandatory; the initial value defaults to the minimum, the
/// rest to zero.
pub open spec fn axis_bit(axis: AbsoluteAxis, draft: AxisDraft) -> Result<
    AbsoluteAxisBit,
    Failure,
> {
    match draft.minimum {
        None => Err(Failure::at_key(ErrorKind::Missing, "minimum"@)),
        Some(minimum) => match draft.maximum {
            None => Err(Failure::at_key(ErrorKind::Missing, "maximum"@)),
            Some(maximum) => Ok(
                AbsoluteAxisBit {
                    axis,
                    initial_value: or_default(draft.initial_value, minimum),
                    minimum,
                    maximum,
                    noise_threshold: or_default(draft.noise_threshold, 0),
                    deadzone: or_default(draft.deadzone, 0),
                    resolution: or_default(draft.resolution, 0),
                },
            ),
        },
    }
}

/// The calibrated axis that the table `value` gives for an axis already
/// resolved, or its fault, seen from `value`.
pub open spec fn calibration_of(axis: AbsoluteAxis, value: Node) -> Result<
    AbsoluteAxisBit,
    Failure,
> {
    match entries_of(value) {
        Ok(entries) => match axis_scan(entries, 0, blank_axis()) {
            Ok(draft) => axis_bit(axis, draft),
            Err(failure) => Err(failure),
        },
        Err(failure) => Err(failure),
    }
}

/// The calibrated axis that one entry of the table of axes gives, or the
/// entry's fault, seen from the table: a key that resolves to no axis is an
/// `InvalidAxisName` at that key.
pub open spec fn axis_of(key: Seq<char>, value: Node) -> Result<AbsoluteAxisBit, Failure> {
    match absolute_axis_of(key) {
        None => Err(Failure::at_key(ErrorKind::InvalidAxisName, key)),
        Some(axis) => match calibration_of(axis, value) {
            Ok(bit) => Ok(bit),
            Err(failure) => Err(failure.under(key)),
        },
    }
}

/// Some record is of the axis with the number `code`.
pub open spec fn has_axis(bits: Seq<AbsoluteAxisBit>, code: u16) -> bool {
    exists|i: int| 0 <= i < bits.len() && axis_code((#[trigger] bits[i]).axis) == code
}

/// No two records are of the same axis, by the axes' numbers.
pub open spec fn distinct_axes(bits: Seq<AbsoluteAxisBit>) -> bool {
    forall|i: int, j: int|
        0 <= i < j < bits.len() ==> axis_code((#[trigger] bits[i]).axis) != axis_code(
            (#[trigger] bits[j]).axis,
        )
}

/// The records after `bit` was recorded: where a record of the same axis is
/// there already, the new record takes its place; otherwise the new record
/// comes last.
pub open spec fn recorded(bits: Seq<AbsoluteAxisBit>, bit: AbsoluteAxisBit) -> Seq<
    AbsoluteAxisBit,
> {
    if has_axis(bits, axis_code(bit.axis)) {
        Seq::new(
            bits.len(),
            |i: int|
                if axis_code(bits[i].axis) == axis_code(bit.axis) {
                    bit
                } else {
                    bits[i]
                },
        )
    } else {
        bits.push(bit)
    }
}

/// The axes gathered after the entries of a table of axes from position
/// `from` on were recorded in order, or the fault of the first entry that
/// has one. An entry whose key gives the number of an axis already recorded,
/// in whatever spelling, takes the place of the earlier record.
pub open spec fn axes_scan(entries: Seq<(String, Node)>, from: int, bits: Seq<AbsoluteAxisBit>)
    -> Result<Seq<AbsoluteAxisBit>, Failure>
    decreases entries.len() - from,
{
    if from < 0 || from >= entries.len() {
        Ok(bits)
    } else {
        match axis_of(entries[from].0@, entries[from].1) {
            Ok(bit) => axes_scan(entries, from + 1, recorded(bits, bit)),
            Err(failure) => Err(failure),
        }
    }
}

/// The axes that a table of axes gives: one record for each axis, in the
/// order in which the axes first appear, each as the last entry of that
/// axis calibrates it.
pub open spec fn axes_of(table: Node) -> Result<Seq<AbsoluteAxisBit>, Failure> {
    match entries_of(table) {
        Ok(entries) => axes_scan(entries, 0, Seq::empty()),
        Err(failure) => Err(failure),
    }
}

/// Recording a record leaves the records of one axis each.
pub proof fn lemma_recorded_keeps_axes_distinct(bits: Seq<AbsoluteAxisBit>, bit: AbsoluteAxisBit)
    requires
        distinct_axes(bits),
    ensures
        distinct_axes(recorded(bits, bit)),
{
    let after = recorded(bits, bit);
    assert forall|i: int, j: int| 0 <= i < j < after.len() implies axis_code(
        (#[trigger] after[i]).axis,
    ) != axis_code((#[trigger] after[j]).axis) by {
        if has_axis(bits, axis_code(bit.axis)) {
            assert(axis_code(after[i].axis) == axis_code(bits[i].axis));
            assert(axis_code(after[j].axis) == axis_code(bits[j].axis));
        } else if j < bits.len() {
            assert(after[i] == bits[i]);
            assert(after[j] == bits[j]);
        } else {
            assert(after[i] == bits[i]);
        }
    }
}

/// While the entries of a table of axes are recorded, the records stay of
/// one axis each.
pub proof fn lemma_axes_scan_keeps_axes_distinct(
    entries: Seq<(String, Node)>,
    from: int,
    bits: Seq<AbsoluteAxisBit>,
)
    requires
        0 <= from,
        distinct_axes(bits),
        axes_scan(entries, from, bits) is Ok,
    ensures
        distinct_axes(axes_scan(entries, from, bits)->Ok_0),
    decreases entries.len() - from,
{
    if from < entries.len() {
        let bit = axis_of(entries[from].0@, entries[from].1)->Ok_0;
        lemma_recorded_keeps_axes_distinct(bits, bit);
        lemma_axes_scan_keeps_axes_distinct(entries, from + 1, recorded(bits, bit));
    }
}

impl AxisDraft {
    /// A draft before any key was read.
    pub fn blank() -> (draft: AxisDraft)
        ensures
            draft == blank_axis(),
    {
        AxisDraft {
            initial_value: None,
            minimum: None,
            maximum: None,
            noise_threshold: None,
            deadzone: None,
            resolution: None,
        }
    }

    /// The draft after one entry of a calibration table was read.
    pub fn read(self, key: &str, value: &Node) -> (done: Result<AxisDraft, ConfigError>)
        ensures
            match done {
                Ok(next) => axis_step(self, key@, *value) == Ok::<AxisDraft, Failure>(next),
                Err(error) => axis_step(self, key@, *value) == Err::<AxisDraft, Failure>(error@),
            },
    {
        let mut next = self;
        if same_text(key, "initial-value") {
            next.initial_value = Some(value.expect_i32()?);
        } else if same_text(key, "minimum") || same_text(key, "min") {
            next.minimum = Some(value.expect_i32()?);
        } else if same_text(key, "maximum") || same_text(key, "max") {
            next.maximum = Some(value.expect_i32()?);
        } else if same_text(key, "noise-threshold") {
            next.noise_threshold = Some(value.expect_i32()?);
        } else if same_text(key, "deadzone") {
            next.deadzone = Some(value.expect_i32()?);
        } else if same_text(key, "resolution") {
            next.resolution = Some(value.expect_i32()?);
        } else {
            return Err(ConfigError::here(ErrorKind::UnrecognizedKey));
        }
        Ok(next)
    }

    /// Ends the draft for the given axis.
    pub fn finish(self, axis: AbsoluteAxis) -> (done: Result<AbsoluteAxisBit, ConfigError>)
        ensures
            match done {
                Ok(bit) => axis_bit(axis, self) == Ok::<AbsoluteAxisBit, Failure>(bit),
                Err(error) => axis_bit(axis, self) == Err::<AbsoluteAxisBit, Failure>(error@),
            },
    {
        let minimum = match self.minimum {
            Some(minimum) => minimum,
            None => {
                return Err(ConfigError::at_key(ErrorKind::Missing, "minimum"));
            },
        };
        let maximum = match self.maximum {
            Some(maximum) => maximum,
            None => {
                return Err(ConfigError::at_key(ErrorKind::Missing, "maximum"));
            },
        };
        Ok(
            AbsoluteAxisBit {
                axis,
                initial_value: match self.initial_value {
                    Some(number) => number,
                    None => minimum,
                },
                minimum,
                maximum,
                noise_threshold: match self.noise_threshold {
                    Some(number) => number,
                    None => 0,
                },
                deadzone: match self.deadzone {
                    Some(number) => number,
                    None => 0,
                },
                resolution: match self.resolution {
                    Some(number) => number,
                    None => 0,
                },
            },
        )
    }
}

/// Reads the calibration table of an axis already resolved: the keys
/// `initial-value`, `minimum` or `min`, `maximum` or `max`,
/// `noise-threshold`, `deadzone` and `resolution`.
pub fn parse_calibration(axis: AbsoluteAxis, value: &Node) -> (done: Result<
    AbsoluteAxisBit,
    ConfigError,
>)
    ensures
        match done {
            Ok(bit) => calibration_of(axis, *value) == Ok::<AbsoluteAxisBit, Failure>(bit),
            Err(error) => calibration_of(axis, *value) == Err::<AbsoluteAxisBit, Failure>(error@),
        },
{
    let entries = value.expect_table()?;
    let mut draft = AxisDraft::blank();
    let mut at: usize = 0;
    while at < entries.len()
        invariant
            at <= entries.len(),
            entries_of(*value) == Ok::<Seq<(String, Node)>, Failure>(entries@),
            axis_scan(entries@, at as int, draft) == axis_scan(entries@, 0, blank_axis()),
        decreases entries.len() - at,
    {
        let key = &entries[at].0;
        match draft.read(key.as_str(), &entries[at].1) {
            Ok(next) => {
                draft = next;
            },
            Err(error) => {
                return Err(error.under(key.as_str()));
            },
        }
        at = at + 1;
    }
    draft.finish(axis)
}

/// Reads one entry of the table of axes: resolves the key to an axis and
/// reads the value as its calibration.
pub fn parse_axis(key: &str, value: &Node) -> (done: Result<AbsoluteAxisBit, ConfigError>)
    ensures
        match done {
            Ok(bit) => axis_of(key@, *value) == Ok::<AbsoluteAxisBit, Failure>(bit),
            Err(error) => axis_of(key@, *value) == Err::<AbsoluteAxisBit, Failure>(error@),
        },
{
    let axis = match try_into_abs_s(key) {
        Some(axis) => axis,
        None => {
            return Err(ConfigError::at_key(ErrorKind::InvalidAxisName, key));
        },
    };
    match parse_calibration(axis, value) {
        Ok(bit) => Ok(bit),
        Err(error) => Err(error.under(key)),
    }
}

/// Records a calibrated axis: it takes the place of each record of the same
/// axis, and comes last where there is none.
pub fn record_axis(bits: &mut Vec<AbsoluteAxisBit>, bit: AbsoluteAxisBit)
    ensures
        final(bits)@ == recorded(old(bits)@, bit),
        distinct_axes(old(bits)@) ==> distinct_axes(final(bits)@),
{
    let ghost before = bits@;
    let code = bit.axis.code();
    let mut found = false;
    let mut at: usize = 0;
    while at < bits.len()
        invariant
            at <= bits.len(),
            bits@.len() == before.len(),
            code == axis_code(bit.axis),
            forall|i: int|
                0 <= i < at ==> bits@[i] == if axis_code(before[i].axis) == code {
                    bit
                } else {
                    before[i]
                },
            forall|i: int| at <= i < bits@.len() ==> bits@[i] == before[i],
            found == exists|i: int|
                0 <= i < at && axis_code((#[trigger] before[i]).axis) == code,
        decreases bits.len() - at,
    {
        if bits[at].axis.code() == code {
            bits.set(at, bit);
            found = true;
            assert(axis_code(before[at as int].axis) == code);
        } else {
            assert forall|i: int| 0 <= i < at + 1 && axis_code((#[trigger] before[i]).axis)
                == code implies i < at by {}
        }
        at = at + 1;
    }
    if !found {
        bits.push(bit);
    }
    proof {
        assert(found == has_axis(before, code));
        assert(bits@ =~= recorded(before, bit));
        if distinct_axes(before) {
            lemma_recorded_keeps_axes_distinct(before, bit);
        }
    }
}

/// Reads the table of axes of a virtual device. No two records of the
/// result are of the same axis.
pub fn parse_axes(table: &Node) -> (done: Result<Vec<AbsoluteAxisBit>, ConfigError>)
    ensures
        match done {
            Ok(bits) => axes_of(*table) == Ok::<Seq<AbsoluteAxisBit>, Failure>(bits@)
                && distinct_axes(bits@),
            Err(error) => axes_of(*table) == Err::<Seq<AbsoluteAxisBit>, Failure>(error@),
        },
{
    let entries = table.expect_table()?;
    let mut bits: Vec<AbsoluteAxisBit> = Vec::new();
    let mut at: usize = 0;
    while at < entries.len()
        invariant
            at <= entries.len(),
            entries_of(*table) == Ok::<Seq<(String, Node)>, Failure>(entries@),
            axes_scan(entries@, at as int, bits@) == axes_scan(entries@, 0, Seq::empty()),
            distinct_axes(bits@),
        decreases entries.len() - at,
    {
        let bit = parse_axis(entries[at].0.as_str(), &entries[at].1)?;
        record_axis(&mut bits, bit);
        at = at + 1;
    }
    Ok(bits)
}

} // verus!
