//! What holds of the table of absolute axes: which tables are read without
//! a fault, what the calibration read from one holds, which fault a missing
//! bound gives, and that each axis has one record however its key is spelt.

use vstd::prelude::*;
use crate::axis::{
    AxisDraft, axes_of, axes_scan, axis_of, axis_scan, axis_step, blank_axis, calibration_of,
    distinct_axes, has_axis, lemma_axes_scan_keeps_axes_distinct, or_default, recorded,
};
use crate::codes::{AbsoluteAxis, AbsoluteAxisBit, absolute_axis_of, axis_code};
use crate::document::{Node, entries_of, i32_of};
use crate::error::{ErrorKind, Failure};
use crate::schema::has_entry;

verus! {

/// `key` is one of the keys of a calibration table.
pub open spec fn axis_key(key: Seq<char>) -> bool {
    key == "initial-value"@ || key == "minimum"@ || key == "min"@ || key == "maximum"@ || key
        == "max"@ || key == "noise-threshold"@ || key == "deadzone"@ || key == "resolution"@
}

/// The entry is one that a calibration table may hold: a key of the schema
/// with an integer of 32 bits.
pub open spec fn axis_entry_ok(key: Seq<char>, value: Node) -> bool {
    axis_key(key) && i32_of(value) is Ok
}

/// The number of the last entry from position `from` on that has one of the
/// two keys, or `before` where the table has no such entry.
pub open spec fn last_i32(
    entries: Seq<(String, Node)>,
    from: int,
    key: Seq<char>,
    other: Seq<char>,
    before: Option<i32>,
) -> Option<i32>
    decreases entries.len() - from,
{
    if from < 0 || from >= entries.len() {
        before
    } else if entries[from].0@ == key || entries[from].0@ == other {
        last_i32(entries, from + 1, key, other, Some(i32_of(entries[from].1)->Ok_0))
    } else {
        last_i32(entries, from + 1, key, other, before)
    }
}

/// The draft that a calibration table gives from position `from` on, field
/// by field: the number of the last entry under the field's key, in either
/// spelling, or what the draft held before.
pub open spec fn axis_read(entries: Seq<(String, Node)>, from: int, draft: AxisDraft)
    -> AxisDraft {
    AxisDraft {
        initial_value: last_i32(
            entries,
            from,
            "initial-value"@,
            "initial-value"@,
            draft.initial_value,
        ),
        minimum: last_i32(entries, from, "minimum"@, "min"@, draft.minimum),
        maximum: last_i32(entries, from, "maximum"@, "max"@, draft.maximum),
        noise_threshold: last_i32(
            entries,
            from,
            "noise-threshold"@,
            "noise-threshold"@,
            draft.noise_threshold,
        ),
        deadzone: last_i32(entries, from, "deadzone"@, "deadzone"@, draft.deadzone),
        resolution: last_i32(entries, from, "resolution"@, "resolution"@, draft.resolution),
    }
}

/// The table of a calibration is in order: every entry is, and it gives a
/// minimum and a maximum, each in either spelling.
pub open spec fn calibration_ok(value: Node) -> bool {
    match entries_of(value) {
        Ok(entries) => {
            &&& forall|i: int|
                0 <= i < entries.len() ==> axis_entry_ok((#[trigger] entries[i]).0@, entries[i].1)
            &&& (has_entry(entries, "minimum"@) || has_entry(entries, "min"@))
            &&& (has_entry(entries, "maximum"@) || has_entry(entries, "max"@))
        },
        Err(_) => false,
    }
}

/// The keys of a calibration table are eight different words.
pub proof fn lemma_axis_keys_differ()
    ensures
        "min"@.len() == 3 && "min"@[1] == 'i',
        "max"@.len() == 3 && "max"@[1] == 'a',
        "minimum"@.len() == 7 && "minimum"@[1] == 'i',
        "maximum"@.len() == 7 && "maximum"@[1] == 'a',
        "deadzone"@.len() == 8,
        "resolution"@.len() == 10,
        "initial-value"@.len() == 13,
        "noise-threshold"@.len() == 15,
{
    reveal_strlit("min");
    reveal_strlit("max");
    reveal_strlit("minimum");
    reveal_strlit("maximum");
    reveal_strlit("deadzone");
    reveal_strlit("resolution");
    reveal_strlit("initial-value");
    reveal_strlit("noise-threshold");
}

/// An entry is read without a fault exactly where it is in order; a key
/// outside the schema is an `UnrecognizedKey`.
pub proof fn lemma_axis_step_ok(draft: AxisDraft, key: Seq<char>, value: Node)
    ensures
        axis_step(draft, key, value) is Ok <==> axis_entry_ok(key, value),
        !axis_key(key) ==> axis_step(draft, key, value) == Err::<AxisDraft, Failure>(
            Failure::here(ErrorKind::UnrecognizedKey),
        ),
{
}

/// A calibration table is read without a fault exactly where each entry is
/// in order.
pub proof fn lemma_axis_scan_ok(entries: Seq<(String, Node)>, from: int, draft: AxisDraft)
    requires
        0 <= from,
    ensures
        axis_scan(entries, from, draft) is Ok <==> forall|i: int|
            from <= i < entries.len() ==> axis_entry_ok((#[trigger] entries[i]).0@, entries[i].1),
    decreases entries.len() - from,
{
    if from < entries.len() {
        lemma_axis_step_ok(draft, entries[from].0@, entries[from].1);
        match axis_step(draft, entries[from].0@, entries[from].1) {
            Ok(next) => {
                lemma_axis_scan_ok(entries, from + 1, next);
                if axis_scan(entries, from, draft) is Ok {
                    assert forall|i: int| from <= i < entries.len() implies axis_entry_ok(
                        (#[trigger] entries[i]).0@,
                        entries[i].1,
                    ) by {
                        if i > from {
                        }
                    }
                }
            },
            Err(_) => {},
        }
    }
}

/// A calibration table that is read without a fault gives, field by field,
/// the number of the last entry under the field's key.
pub proof fn lemma_axis_scan_reads(entries: Seq<(String, Node)>, from: int, draft: AxisDraft)
    requires
        0 <= from,
        axis_scan(entries, from, draft) is Ok,
    ensures
        axis_scan(entries, from, draft) == Ok::<AxisDraft, Failure>(
            axis_read(entries, from, draft),
        ),
    decreases entries.len() - from,
{
    lemma_axis_keys_differ();
    if from < entries.len() {
        let next = axis_step(draft, entries[from].0@, entries[from].1)->Ok_0;
        lemma_axis_scan_reads(entries, from + 1, next);
        assert(axis_read(entries, from, draft) == axis_read(entries, from + 1, next));
    }
}

/// A field is given exactly where it was given before or the table has an
/// entry under one of the field's keys.
pub proof fn lemma_last_i32_given(
    entries: Seq<(String, Node)>,
    from: int,
    key: Seq<char>,
    other: Seq<char>,
    before: Option<i32>,
)
    requires
        0 <= from,
    ensures
        last_i32(entries, from, key, other, before) is Some <==> before is Some || exists|i: int|
            from <= i < entries.len() && ((#[trigger] entries[i]).0@ == key || entries[i].0@
                == other),
    decreases entries.len() - from,
{
    if from < entries.len() {
        let here = entries[from].0@ == key || entries[from].0@ == other;
        let next = if here {
            Some(i32_of(entries[from].1)->Ok_0)
        } else {
            before
        };
        lemma_last_i32_given(entries, from + 1, key, other, next);
        if here {
            assert(from <= from < entries.len() && (entries[from].0@ == key || entries[from].0@
                == other));
        }
        if exists|i: int|
            from <= i < entries.len() && ((#[trigger] entries[i]).0@ == key || entries[i].0@
                == other) {
            let at = choose|i: int|
                from <= i < entries.len() && ((#[trigger] entries[i]).0@ == key || entries[i].0@
                    == other);
            if at > from {
                assert(from + 1 <= at < entries.len() && (entries[at].0@ == key || entries[at].0@
                    == other));
            }
        }
        if exists|i: int|
            from + 1 <= i < entries.len() && ((#[trigger] entries[i]).0@ == key || entries[i].0@
                == other) {
            let at = choose|i: int|
                from + 1 <= i < entries.len() && ((#[trigger] entries[i]).0@ == key
                    || entries[i].0@ == other);
            assert(from <= at < entries.len() && (entries[at].0@ == key || entries[at].0@
                == other));
        }
    }
}

/// A calibration is read without a fault exactly where its table is in
/// order. It then holds what the table gives: the initial value is the
/// minimum where the table gives none, and the noise threshold, the deadzone
/// and the resolution are zero where the table gives none. A table whose
/// entries are in order and that gives a minimum but no maximum is a
/// `Missing` at the key `maximum`.
pub proof fn lemma_calibration_of(axis: AbsoluteAxis, value: Node)
    ensures
        calibration_of(axis, value) is Ok <==> calibration_ok(value),
        calibration_of(axis, value) matches Ok(bit) ==> {
            let read = axis_read(entries_of(value)->Ok_0, 0, blank_axis());
            &&& read.minimum is Some
            &&& read.maximum is Some
            &&& bit == AbsoluteAxisBit {
                axis,
                initial_value: or_default(read.initial_value, read.minimum->Some_0),
                minimum: read.minimum->Some_0,
                maximum: read.maximum->Some_0,
                noise_threshold: or_default(read.noise_threshold, 0),
                deadzone: or_default(read.deadzone, 0),
                resolution: or_default(read.resolution, 0),
            }
        },
        entries_of(value) matches Ok(entries) ==> ((forall|i: int|
            0 <= i < entries.len() ==> axis_entry_ok((#[trigger] entries[i]).0@, entries[i].1)) && (
        has_entry(entries, "minimum"@) || has_entry(entries, "min"@)) && !has_entry(
            entries,
            "maximum"@,
        ) && !has_entry(entries, "max"@) ==> calibration_of(axis, value) == Err::<
            AbsoluteAxisBit,
            Failure,
        >(Failure::at_key(ErrorKind::Missing, "maximum"@))),
{
    if let Ok(entries) = entries_of(value) {
        lemma_axis_scan_ok(entries, 0, blank_axis());
        lemma_last_i32_given(entries, 0, "minimum"@, "min"@, None);
        lemma_last_i32_given(entries, 0, "maximum"@, "max"@, None);
        if axis_scan(entries, 0, blank_axis()) is Ok {
            lemma_axis_scan_reads(entries, 0, blank_axis());
        }
    }
}

/// An entry of the table of axes is read without a fault exactly where its
/// key resolves to an axis and its value is a calibration in order.
pub proof fn lemma_axis_of(key: Seq<char>, value: Node)
    ensures
        axis_of(key, value) is Ok <==> absolute_axis_of(key) is Some && calibration_ok(value),
        axis_of(key, value) matches Ok(bit) ==> bit.axis == absolute_axis_of(key)->Some_0,
{
    if let Some(axis) = absolute_axis_of(key) {
        lemma_calibration_of(axis, value);
    }
}

/// The table of axes is in order: it is a table, and each entry has a key
/// that resolves to an axis and a calibration in order as its value.
pub open spec fn axes_ok(table: Node) -> bool {
    match entries_of(table) {
        Ok(entries) => forall|i: int|
            0 <= i < entries.len() ==> absolute_axis_of((#[trigger] entries[i]).0@) is Some
                && calibration_ok(entries[i].1),
        Err(_) => false,
    }
}

/// The record that the entry at a position of a table of axes gives.
pub open spec fn entry_bit(entries: Seq<(String, Node)>, at: int) -> AbsoluteAxisBit {
    axis_of(entries[at].0@, entries[at].1)->Ok_0
}

/// The number of the axis that the key at a position of a table of axes
/// resolves to.
pub open spec fn entry_code(entries: Seq<(String, Node)>, at: int) -> u16 {
    axis_code(entry_bit(entries, at).axis)
}

/// The records that the entries of a table from position `from` on give,
/// one for each entry.
pub open spec fn axes_read(entries: Seq<(String, Node)>, from: int) -> Seq<AbsoluteAxisBit> {
    Seq::new((entries.len() - from) as nat, |i: int| entry_bit(entries, from + i))
}

/// The numbers of the axes of a sequence of records, in order.
pub open spec fn axis_codes(bits: Seq<AbsoluteAxisBit>) -> Seq<u16> {
    Seq::new(bits.len(), |i: int| axis_code(bits[i].axis))
}

/// The numbers of the axes of the entries of a table, in order.
pub open spec fn entry_codes(entries: Seq<(String, Node)>) -> Seq<u16> {
    Seq::new(entries.len(), |i: int| entry_code(entries, i))
}

/// The numbers of `codes` from position `from` on in the order in which
/// each first appears, behind those seen before.
pub open spec fn codes_in_order_of_appearance(codes: Seq<u16>, from: int, seen: Seq<u16>) -> Seq<
    u16,
>
    decreases codes.len() - from,
{
    if from < 0 || from >= codes.len() {
        seen
    } else if seen.contains(codes[from]) {
        codes_in_order_of_appearance(codes, from + 1, seen)
    } else {
        codes_in_order_of_appearance(codes, from + 1, seen.push(codes[from]))
    }
}

/// The records have one of the axis of `bit`, and `bit` is what they have
/// of that axis.
pub open spec fn holds_axis(bits: Seq<AbsoluteAxisBit>, bit: AbsoluteAxisBit) -> bool {
    &&& has_axis(bits, axis_code(bit.axis))
    &&& forall|i: int|
        0 <= i < bits.len() && axis_code((#[trigger] bits[i]).axis) == axis_code(bit.axis)
            ==> bits[i] == bit
}

/// The entries of a table of axes are read without a fault exactly where
/// each of them is.
pub proof fn lemma_axes_scan_ok(entries: Seq<(String, Node)>, from: int, bits: Seq<AbsoluteAxisBit>)
    requires
        0 <= from,
    ensures
        axes_scan(entries, from, bits) is Ok <==> forall|i: int|
            from <= i < entries.len() ==> axis_of((#[trigger] entries[i]).0@, entries[i].1) is Ok,
    decreases entries.len() - from,
{
    if from < entries.len() {
        match axis_of(entries[from].0@, entries[from].1) {
            Ok(bit) => {
                lemma_axes_scan_ok(entries, from + 1, recorded(bits, bit));
                if axes_scan(entries, from, bits) is Ok {
                    assert forall|i: int| from <= i < entries.len() implies axis_of(
                        (#[trigger] entries[i]).0@,
                        entries[i].1,
                    ) is Ok by {
                        if i > from {
                        }
                    }
                }
            },
            Err(_) => {},
        }
    }
}

/// Recording a record leaves the order of the axes as it was: an axis that
/// is new comes last, an axis that was there keeps its place.
pub proof fn lemma_recorded_keeps_order(bits: Seq<AbsoluteAxisBit>, bit: AbsoluteAxisBit)
    ensures
        has_axis(bits, axis_code(bit.axis)) == axis_codes(bits).contains(axis_code(bit.axis)),
        has_axis(bits, axis_code(bit.axis)) ==> axis_codes(recorded(bits, bit)) == axis_codes(
            bits,
        ),
        !has_axis(bits, axis_code(bit.axis)) ==> axis_codes(recorded(bits, bit)) == axis_codes(
            bits,
        ).push(axis_code(bit.axis)),
{
    let code = axis_code(bit.axis);
    let codes = axis_codes(bits);
    if has_axis(bits, code) {
        let at = choose|i: int| 0 <= i < bits.len() && axis_code((#[trigger] bits[i]).axis) == code;
        assert(codes[at] == code);
        assert(axis_codes(recorded(bits, bit)) =~= codes);
    } else {
        assert(axis_codes(recorded(bits, bit)) =~= codes.push(code));
    }
    if codes.contains(code) {
        let at = choose|i: int| 0 <= i < codes.len() && codes[i] == code;
        assert(axis_code(bits[at].axis) == code);
    }
}

/// After a record was recorded, it is what the records have of its axis: a
/// second entry of an axis takes the place of the first.
pub proof fn lemma_recorded_holds(bits: Seq<AbsoluteAxisBit>, bit: AbsoluteAxisBit)
    ensures
        holds_axis(recorded(bits, bit), bit),
{
    let after = recorded(bits, bit);
    let code = axis_code(bit.axis);
    if has_axis(bits, code) {
        let at = choose|i: int| 0 <= i < bits.len() && axis_code((#[trigger] bits[i]).axis) == code;
        assert(axis_code(after[at].axis) == code);
    } else {
        assert(axis_code(after[bits.len() as int].axis) == code);
        assert forall|i: int|
            0 <= i < after.len() && axis_code((#[trigger] after[i]).axis) == code implies after[i]
            == bit by {
            if i < bits.len() {
                assert(after[i] == bits[i]);
            }
        }
    }
}

/// Recording a record of one axis leaves what the records have of another
/// axis as it was.
pub proof fn lemma_recorded_elsewhere(
    bits: Seq<AbsoluteAxisBit>,
    bit: AbsoluteAxisBit,
    kept: AbsoluteAxisBit,
)
    requires
        axis_code(kept.axis) != axis_code(bit.axis),
    ensures
        has_axis(recorded(bits, bit), axis_code(kept.axis)) == has_axis(
            bits,
            axis_code(kept.axis),
        ),
        holds_axis(bits, kept) ==> holds_axis(recorded(bits, bit), kept),
{
    let after = recorded(bits, bit);
    let code = axis_code(kept.axis);
    if has_axis(bits, code) {
        let at = choose|i: int| 0 <= i < bits.len() && axis_code((#[trigger] bits[i]).axis) == code;
        assert(axis_code(after[at].axis) == code);
    }
    if has_axis(after, code) {
        let at = choose|i: int|
            0 <= i < after.len() && axis_code((#[trigger] after[i]).axis) == code;
        assert(at < bits.len());
        assert(axis_code(bits[at].axis) == code);
    }
    if holds_axis(bits, kept) {
        assert forall|i: int|
            0 <= i < after.len() && axis_code((#[trigger] after[i]).axis) == code implies after[i]
            == kept by {
            assert(i < bits.len());
            assert(axis_code(bits[i].axis) == code);
        }
    }
}

/// What the records have of an axis stays as it is while entries of other
/// axes are recorded.
pub proof fn lemma_axes_keep(
    entries: Seq<(String, Node)>,
    from: int,
    bits: Seq<AbsoluteAxisBit>,
    kept: AbsoluteAxisBit,
)
    requires
        0 <= from <= entries.len(),
        axes_scan(entries, from, bits) is Ok,
        holds_axis(bits, kept),
        forall|i: int|
            from <= i < entries.len() ==> #[trigger] entry_code(entries, i) != axis_code(
                kept.axis,
            ),
    ensures
        holds_axis(axes_scan(entries, from, bits)->Ok_0, kept),
    decreases entries.len() - from,
{
    if from < entries.len() {
        let bit = entry_bit(entries, from);
        assert(entry_code(entries, from) != axis_code(kept.axis));
        lemma_recorded_elsewhere(bits, bit, kept);
        lemma_axes_keep(entries, from + 1, recorded(bits, bit), kept);
    }
}

/// Where several entries of a table of axes give the same axis, in
/// whatever spellings, the records hold of that axis what the last of these
/// entries gives.
pub proof fn lemma_last_axis_wins(
    entries: Seq<(String, Node)>,
    from: int,
    bits: Seq<AbsoluteAxisBit>,
    last: int,
)
    requires
        0 <= from <= last < entries.len(),
        axes_scan(entries, from, bits) is Ok,
        forall|i: int|
            last < i < entries.len() ==> #[trigger] entry_code(entries, i) != entry_code(
                entries,
                last,
            ),
    ensures
        holds_axis(axes_scan(entries, from, bits)->Ok_0, entry_bit(entries, last)),
    decreases entries.len() - from,
{
    let bit = entry_bit(entries, from);
    if from < last {
        lemma_last_axis_wins(entries, from + 1, recorded(bits, bit), last);
    } else {
        lemma_recorded_holds(bits, bit);
        lemma_axes_keep(entries, from + 1, recorded(bits, bit), bit);
    }
}

/// The records of a table of axes stand in the order in which their axes
/// first appear among the entries, whether or not an axis appears again.
pub proof fn lemma_axes_in_order_of_appearance(
    entries: Seq<(String, Node)>,
    from: int,
    bits: Seq<AbsoluteAxisBit>,
)
    requires
        0 <= from <= entries.len(),
        axes_scan(entries, from, bits) is Ok,
    ensures
        axis_codes(axes_scan(entries, from, bits)->Ok_0) == codes_in_order_of_appearance(
            entry_codes(entries),
            from,
            axis_codes(bits),
        ),
    decreases entries.len() - from,
{
    if from < entries.len() {
        let bit = entry_bit(entries, from);
        lemma_recorded_keeps_order(bits, bit);
        lemma_axes_in_order_of_appearance(entries, from + 1, recorded(bits, bit));
    }
}

/// Entries whose axes differ from each other, and from those recorded
/// before, give one record each, in the order of the entries, behind the
/// records that were there.
pub proof fn lemma_axes_in_entry_order(
    entries: Seq<(String, Node)>,
    from: int,
    bits: Seq<AbsoluteAxisBit>,
)
    requires
        0 <= from <= entries.len(),
        axes_scan(entries, from, bits) is Ok,
        forall|i: int|
            from <= i < entries.len() ==> !has_axis(bits, #[trigger] entry_code(entries, i)),
        forall|i: int, j: int|
            from <= i < j < entries.len() ==> #[trigger] entry_code(entries, i)
                != #[trigger] entry_code(entries, j),
    ensures
        axes_scan(entries, from, bits)->Ok_0 == bits + axes_read(entries, from),
    decreases entries.len() - from,
{
    if from == entries.len() {
        assert(bits + axes_read(entries, from) =~= bits);
    } else {
        let bit = entry_bit(entries, from);
        assert(!has_axis(bits, entry_code(entries, from)));
        let next = recorded(bits, bit);
        assert(next == bits.push(bit));
        assert forall|i: int| from + 1 <= i < entries.len() implies !has_axis(
            next,
            #[trigger] entry_code(entries, i),
        ) by {
            assert(entry_code(entries, from) != entry_code(entries, i));
            assert(!has_axis(bits, entry_code(entries, i)));
            if has_axis(next, entry_code(entries, i)) {
                let at = choose|k: int|
                    0 <= k < next.len() && axis_code((#[trigger] next[k]).axis) == entry_code(
                        entries,
                        i,
                    );
                if at < bits.len() {
                    assert(axis_code(bits[at].axis) == entry_code(entries, i));
                }
            }
        }
        lemma_axes_in_entry_order(entries, from + 1, next);
        assert(next + axes_read(entries, from + 1) =~= bits + axes_read(entries, from));
    }
}

/// A table of axes is read without a fault exactly where it is in order,
/// and then no two of its records are of the same axis.
pub proof fn lemma_axes_of(table: Node)
    ensures
        axes_of(table) is Ok <==> axes_ok(table),
        axes_of(table) matches Ok(bits) ==> distinct_axes(bits),
{
    if let Ok(entries) = entries_of(table) {
        lemma_axes_scan_ok(entries, 0, Seq::empty());
        assert forall|i: int| 0 <= i < entries.len() implies (axis_of(
            (#[trigger] entries[i]).0@,
            entries[i].1,
        ) is Ok <==> absolute_axis_of(entries[i].0@) is Some && calibration_ok(entries[i].1)) by {
            lemma_axis_of(entries[i].0@, entries[i].1);
        }
        if axes_scan(entries, 0, Seq::empty()) is Ok {
            lemma_axes_scan_keeps_axes_distinct(entries, 0, Seq::empty());
        }
    }
}

/// A table of axes gives one record for each axis that its keys name, in
/// whatever spellings: the records stand in the order in which the axes
/// first appear, each is what the last entry of its axis gives, and each
/// entry gives a record of the axis that its key resolves to.
pub proof fn lemma_one_record_for_each_axis(table: Node)
    requires
        axes_of(table) is Ok,
    ensures
        distinct_axes(axes_of(table)->Ok_0),
        axis_codes(axes_of(table)->Ok_0) == codes_in_order_of_appearance(
            entry_codes(entries_of(table)->Ok_0),
            0,
            Seq::empty(),
        ),
        forall|last: int|
            0 <= last < entries_of(table)->Ok_0.len() && (forall|i: int|
                last < i < entries_of(table)->Ok_0.len() ==> #[trigger] entry_code(
                    entries_of(table)->Ok_0,
                    i,
                ) != entry_code(entries_of(table)->Ok_0, last)) ==> holds_axis(
                axes_of(table)->Ok_0,
                #[trigger] entry_bit(entries_of(table)->Ok_0, last),
            ),
        forall|i: int|
            0 <= i < entries_of(table)->Ok_0.len() ==> (#[trigger] entry_bit(
                entries_of(table)->Ok_0,
                i,
            )).axis == absolute_axis_of(entries_of(table)->Ok_0[i].0@)->Some_0,
{
    lemma_axes_of(table);
    let entries = entries_of(table)->Ok_0;
    lemma_axes_in_order_of_appearance(entries, 0, Seq::empty());
    assert(axis_codes(Seq::<AbsoluteAxisBit>::empty()) =~= Seq::<u16>::empty());
    assert forall|last: int|
        0 <= last < entries.len() && (forall|i: int|
            last < i < entries.len() ==> #[trigger] entry_code(entries, i) != entry_code(
                entries,
                last,
            )) implies holds_axis(axes_of(table)->Ok_0, #[trigger] entry_bit(entries, last)) by {
        lemma_last_axis_wins(entries, 0, Seq::empty(), last);
    }
    assert forall|i: int| 0 <= i < entries.len() implies (#[trigger] entry_bit(entries, i)).axis
        == absolute_axis_of(entries[i].0@)->Some_0 by {
        lemma_axis_of(entries[i].0@, entries[i].1);
    }
}

/// A table of axes whose keys name axes that all differ gives one record
/// for each entry, in the order of the entries.
pub proof fn lemma_one_record_for_each_entry(table: Node)
    requires
        axes_of(table) is Ok,
        forall|i: int, j: int|
            0 <= i < j < entries_of(table)->Ok_0.len() ==> #[trigger] entry_code(
                entries_of(table)->Ok_0,
                i,
            ) != #[trigger] entry_code(entries_of(table)->Ok_0, j),
    ensures
        axes_of(table)->Ok_0 == axes_read(entries_of(table)->Ok_0, 0),
{
    let entries = entries_of(table)->Ok_0;
    lemma_axes_in_entry_order(entries, 0, Seq::empty());
    assert(Seq::<AbsoluteAxisBit>::empty() + axes_read(entries, 0) =~= axes_read(entries, 0));
}

} // verus!
