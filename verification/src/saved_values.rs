//! Saved field values of a message object, to find out which field a probe
//! changed.
use vstd::prelude::*;
use crate::text::str_eq;

verus! {

/// Type name of the field every message keeps its unknown fields in; it is never watched.
pub const UNKNOWN_FIELD_SET: &'static str = "HCFKHMCLBHN";

/// A field of a message object as read at one moment.
pub struct FieldSnapshot {
    /// Offset of the field in the object (static fields have one too).
    pub offset: u32,
    /// Whether the field belongs to the object rather than to the class.
    pub is_instance: bool,
    /// Name of the field's type.
    pub field_type: String,
    /// Name of the class of the field's type.
    pub type_class: String,
    /// The value read from the object; ignored for fields that are not watched.
    pub value: usize,
}

/// Whether a field takes part in change detection: an instance field that is not
/// the unknown-field set.
pub open spec fn spec_is_watched(f: FieldSnapshot) -> bool {
    f.is_instance && f.field_type@ != UNKNOWN_FIELD_SET@
}

/// Whether a field takes part in change detection.
pub fn is_watched(f: &FieldSnapshot) -> (r: bool)
    ensures
        r == spec_is_watched(*f),
{
    f.is_instance && !str_eq(f.field_type.as_str(), UNKNOWN_FIELD_SET)
}

/// The (offset, value) pairs of the watched fields, in order.
pub open spec fn spec_watched(fields: Seq<FieldSnapshot>) -> Seq<(u32, usize)>
    decreases fields.len(),
{
    if fields.len() == 0 {
        Seq::empty()
    } else {
        let prev = spec_watched(fields.drop_last());
        let f = fields.last();
        if spec_is_watched(f) {
            prev.push((f.offset, f.value))
        } else {
            prev
        }
    }
}

/// Whether some saved pair has the offset.
pub open spec fn spec_has(values: Seq<(u32, usize)>, offset: u32) -> bool {
    exists|i: int| 0 <= i < values.len() && #[trigger] values[i].0 == offset
}

/// Index of the first saved pair with the offset (the length when there is none).
pub open spec fn spec_first(values: Seq<(u32, usize)>, offset: u32) -> int
    decreases values.len(),
{
    if values.len() == 0 {
        0
    } else if values[0].0 == offset {
        0
    } else {
        1 + spec_first(values.drop_first(), offset)
    }
}

/// The saved value of the first pair with the offset.
pub open spec fn spec_saved(values: Seq<(u32, usize)>, offset: u32) -> usize {
    values[spec_first(values, offset)].1
}

/// Checking the fields one by one, in order: the offsets whose value differs from
/// the saved one, and the saved pairs with those values replaced.
pub open spec fn spec_detect(values: Seq<(u32, usize)>, fields: Seq<FieldSnapshot>) -> (
    Seq<u32>,
    Seq<(u32, usize)>,
)
    decreases fields.len(),
{
    if fields.len() == 0 {
        (Seq::empty(), values)
    } else {
        let (changed, saved) = spec_detect(values, fields.drop_last());
        let f = fields.last();
        if spec_is_watched(f) && spec_saved(saved, f.offset) != f.value {
            (changed.push(f.offset), saved.update(spec_first(saved, f.offset), (f.offset, f.value)))
        } else {
            (changed, saved)
        }
    }
}

/// Every watched field's offset has a saved pair.
pub open spec fn spec_all_saved(values: Seq<(u32, usize)>, fields: Seq<FieldSnapshot>) -> bool {
    forall|i: int| 0 <= i < fields.len() && spec_is_watched(#[trigger] fields[i]) ==> spec_has(
        values,
        fields[i].offset,
    )
}

/// No two watched fields share an offset.
pub open spec fn spec_distinct_offsets(fields: Seq<FieldSnapshot>) -> bool {
    forall|i: int, j: int|
        0 <= i < j < fields.len() && spec_is_watched(#[trigger] fields[i]) && spec_is_watched(
            #[trigger] fields[j],
        ) ==> fields[i].offset != fields[j].offset
}

/// The first index points at a pair with the offset, and none before it has it.
pub proof fn lemma_first(values: Seq<(u32, usize)>, offset: u32)
    ensures
        0 <= spec_first(values, offset) <= values.len(),
        spec_has(values, offset) ==> spec_first(values, offset) < values.len() && values[spec_first(
            values,
            offset,
        )].0 == offset,
        !spec_has(values, offset) ==> spec_first(values, offset) == values.len(),
        forall|i: int| 0 <= i < spec_first(values, offset) ==> #[trigger] values[i].0 != offset,
    decreases values.len(),
{
    if values.len() > 0 && values[0].0 != offset {
        let rest = values.drop_first();
        lemma_first(rest, offset);
        if spec_has(values, offset) {
            let i = choose|i: int| 0 <= i < values.len() && #[trigger] values[i].0 == offset;
            assert(rest[i - 1].0 == offset);
        }
        if spec_has(rest, offset) {
            let i = choose|i: int| 0 <= i < rest.len() && #[trigger] rest[i].0 == offset;
            assert(values[i + 1].0 == offset);
        }
        assert forall|i: int| 0 <= i < spec_first(values, offset) implies #[trigger] values[i].0
            != offset by {
            if i > 0 {
                assert(values[i] == rest[i - 1]);
            }
        }
    } else if values.len() > 0 {
        assert(values[0].0 == offset);
    }
}

/// Pairs with the same offsets in the same places have the same first indices.
pub proof fn lemma_first_same_offsets(a: Seq<(u32, usize)>, b: Seq<(u32, usize)>, offset: u32)
    requires
        a.len() == b.len(),
        forall|i: int| 0 <= i < a.len() ==> #[trigger] a[i].0 == b[i].0,
    ensures
        spec_first(a, offset) == spec_first(b, offset),
        spec_has(a, offset) == spec_has(b, offset),
    decreases a.len(),
{
    if a.len() > 0 {
        assert(a[0].0 == b[0].0);
        let (ra, rb) = (a.drop_first(), b.drop_first());
        assert forall|i: int| 0 <= i < ra.len() implies #[trigger] ra[i].0 == rb[i].0 by {
            assert(a[i + 1].0 == b[i + 1].0);
        }
        lemma_first_same_offsets(ra, rb, offset);
    }
    if spec_has(a, offset) {
        let i = choose|i: int| 0 <= i < a.len() && #[trigger] a[i].0 == offset;
        assert(b[i].0 == offset);
    }
    if spec_has(b, offset) {
        let i = choose|i: int| 0 <= i < b.len() && #[trigger] b[i].0 == offset;
        assert(a[i].0 == offset);
    }
}

/// Detection replaces values only: the offsets stay where they were.
pub proof fn lemma_detect_keeps_offsets(values: Seq<(u32, usize)>, fields: Seq<FieldSnapshot>)
    requires
        spec_all_saved(values, fields),
    ensures
        spec_detect(values, fields).1.len() == values.len(),
        forall|i: int|
            0 <= i < values.len() ==> #[trigger] spec_detect(values, fields).1[i].0 == values[i].0,
    decreases fields.len(),
{
    if fields.len() > 0 {
        let prefix = fields.drop_last();
        assert forall|i: int| 0 <= i < prefix.len() && spec_is_watched(#[trigger] prefix[i]) implies spec_has(
            values,
            prefix[i].offset,
        ) by {
            assert(prefix[i] == fields[i]);
        }
        lemma_detect_keeps_offsets(values, prefix);
        let (changed, saved) = spec_detect(values, prefix);
        let f = fields.last();
        if spec_is_watched(f) {
            assert(fields[fields.len() - 1] == f);
            lemma_first_same_offsets(saved, values, f.offset);
            lemma_first(saved, f.offset);
        }
    }
}

/// The first index is the one position that has the offset with none before it.
pub proof fn lemma_first_at(values: Seq<(u32, usize)>, offset: u32, k: int)
    requires
        0 <= k < values.len(),
        values[k].0 == offset,
        forall|i: int| 0 <= i < k ==> #[trigger] values[i].0 != offset,
    ensures
        spec_first(values, offset) == k,
    decreases values.len(),
{
    if k > 0 {
        let rest = values.drop_first();
        assert(values[0].0 != offset);
        assert forall|i: int| 0 <= i < k - 1 implies #[trigger] rest[i].0 != offset by {
            assert(rest[i] == values[i + 1]);
        }
        lemma_first_at(rest, offset, k - 1);
    }
}

/// Updating the value at the first index of one offset leaves the saved values
/// of all other present offsets as they were.
proof fn lemma_update_other(values: Seq<(u32, usize)>, offset: u32, value: usize, other: u32)
    requires
        spec_has(values, offset),
        spec_has(values, other),
        other != offset,
    ensures
        ({
            let updated = values.update(spec_first(values, offset), (offset, value));
            &&& spec_has(updated, other)
            &&& spec_first(updated, other) == spec_first(values, other)
            &&& spec_saved(updated, other) == spec_saved(values, other)
        }),
{
    lemma_first(values, offset);
    lemma_first(values, other);
    let updated = values.update(spec_first(values, offset), (offset, value));
    assert forall|i: int| 0 <= i < values.len() implies #[trigger] updated[i].0 == values[i].0 by {}
    lemma_first_same_offsets(updated, values, other);
}

/// Saved values that already match every watched field make detection find
/// nothing and change nothing.
pub proof fn lemma_detect_nothing_new(values: Seq<(u32, usize)>, fields: Seq<FieldSnapshot>)
    requires
        forall|i: int|
            0 <= i < fields.len() && spec_is_watched(#[trigger] fields[i]) ==> spec_saved(
                values,
                fields[i].offset,
            ) == fields[i].value,
    ensures
        spec_detect(values, fields) == (Seq::<u32>::empty(), values),
    decreases fields.len(),
{
    if fields.len() > 0 {
        let prefix = fields.drop_last();
        assert forall|i: int|
            0 <= i < prefix.len() && spec_is_watched(#[trigger] prefix[i]) implies spec_saved(
            values,
            prefix[i].offset,
        ) == prefix[i].value by {
            assert(prefix[i] == fields[i]);
        }
        lemma_detect_nothing_new(values, prefix);
        assert(fields[fields.len() - 1] == fields.last());
    }
}

/// After detection, the saved value of every watched field is the value read,
/// when no two watched fields share an offset.
pub proof fn lemma_detect_saves_reads(values: Seq<(u32, usize)>, fields: Seq<FieldSnapshot>)
    requires
        spec_all_saved(values, fields),
        spec_distinct_offsets(fields),
    ensures
        forall|i: int|
            0 <= i < fields.len() && spec_is_watched(#[trigger] fields[i]) ==> spec_saved(
                spec_detect(values, fields).1,
                fields[i].offset,
            ) == fields[i].value,
        spec_all_saved(spec_detect(values, fields).1, fields),
    decreases fields.len(),
{
    if fields.len() > 0 {
        let prefix = fields.drop_last();
        let n = fields.len() - 1;
        let f = fields.last();
        assert(fields[n] == f);
        assert forall|i: int| 0 <= i < prefix.len() implies #[trigger] prefix[i] == fields[i] by {}
        assert(spec_all_saved(values, prefix));
        assert(spec_distinct_offsets(prefix));
        lemma_detect_saves_reads(values, prefix);
        lemma_detect_keeps_offsets(values, prefix);
        let saved = spec_detect(values, prefix).1;
        let result = spec_detect(values, fields).1;
        let changed = spec_is_watched(f) && spec_saved(saved, f.offset) != f.value;
        if spec_is_watched(f) {
            lemma_first_same_offsets(saved, values, f.offset);
            lemma_first(saved, f.offset);
        }
        assert forall|i: int| 0 <= i < fields.len() && spec_is_watched(#[trigger] fields[i]) implies spec_saved(
            result,
            fields[i].offset,
        ) == fields[i].value && spec_has(result, fields[i].offset) by {
            if i < n {
                assert(prefix[i] == fields[i]);
                assert(spec_is_watched(prefix[i]));
                assert(spec_has(saved, prefix[i].offset));
                assert(spec_saved(saved, prefix[i].offset) == prefix[i].value);
                if changed {
                    assert(fields[i].offset != fields[n].offset);
                    lemma_update_other(saved, f.offset, f.value, fields[i].offset);
                }
            } else {
                if changed {
                    let j = spec_first(saved, f.offset);
                    assert forall|k: int| 0 <= k < result.len() implies #[trigger] result[k].0
                        == saved[k].0 by {}
                    lemma_first_same_offsets(result, saved, f.offset);
                    assert(result[j] == (f.offset, f.value));
                }
            }
        }
    }
}

/// Reading the same values a second time finds no change: detection is
/// idempotent when no two watched fields share an offset.
pub proof fn lemma_detect_idempotent(values: Seq<(u32, usize)>, fields: Seq<FieldSnapshot>)
    requires
        spec_all_saved(values, fields),
        spec_distinct_offsets(fields),
    ensures
        spec_detect(spec_detect(values, fields).1, fields).0 == Seq::<u32>::empty(),
        spec_detect(spec_detect(values, fields).1, fields).1 == spec_detect(values, fields).1,
{
    lemma_detect_saves_reads(values, fields);
    lemma_detect_nothing_new(spec_detect(values, fields).1, fields);
}

/// The watched pairs hold an entry for a watched field's offset exactly when
/// some watched field has it.
proof fn lemma_watched_has(fields: Seq<FieldSnapshot>, offset: u32)
    ensures
        spec_has(spec_watched(fields), offset) ==> exists|i: int|
            0 <= i < fields.len() && spec_is_watched(#[trigger] fields[i]) && fields[i].offset
                == offset,
    decreases fields.len(),
{
    if fields.len() > 0 {
        let prefix = fields.drop_last();
        lemma_watched_has(prefix, offset);
        let w = spec_watched(fields);
        let wp = spec_watched(prefix);
        if spec_has(w, offset) {
            let k = choose|k: int| 0 <= k < w.len() && #[trigger] w[k].0 == offset;
            if k < wp.len() {
                assert(w[k] == wp[k]);
                assert(spec_has(wp, offset));
                let i = choose|i: int|
                    0 <= i < prefix.len() && spec_is_watched(#[trigger] prefix[i])
                        && prefix[i].offset == offset;
                assert(fields[i] == prefix[i]);
            } else {
                assert(spec_is_watched(fields[fields.len() - 1]));
            }
        }
    }
}

/// Right after starting, the saved value of every watched field is its value,
/// when no two watched fields share an offset.
pub proof fn lemma_new_saves_reads(fields: Seq<FieldSnapshot>)
    requires
        spec_distinct_offsets(fields),
    ensures
        forall|i: int|
            0 <= i < fields.len() && spec_is_watched(#[trigger] fields[i]) ==> spec_has(
                spec_watched(fields),
                fields[i].offset,
            ) && spec_saved(spec_watched(fields), fields[i].offset) == fields[i].value,
    decreases fields.len(),
{
    if fields.len() > 0 {
        let prefix = fields.drop_last();
        let n = fields.len() - 1;
        let f = fields[n];
        assert forall|i: int| 0 <= i < prefix.len() implies #[trigger] prefix[i] == fields[i] by {}
        assert(spec_distinct_offsets(prefix));
        lemma_new_saves_reads(prefix);
        let wp = spec_watched(prefix);
        let w = spec_watched(fields);
        if spec_is_watched(f) {
            assert(w == wp.push((f.offset, f.value)));
            lemma_watched_has(prefix, f.offset);
            assert(!spec_has(wp, f.offset));
        } else {
            assert(w == wp);
        }
        assert forall|i: int|
            0 <= i < fields.len() && spec_is_watched(#[trigger] fields[i]) implies spec_has(
            w,
            fields[i].offset,
        ) && spec_saved(w, fields[i].offset) == fields[i].value by {
            if i < n {
                let o = fields[i].offset;
                assert(prefix[i] == fields[i]);
                assert(spec_is_watched(prefix[i]));
                assert(spec_has(wp, o));
                lemma_first(wp, o);
                if spec_is_watched(f) {
                    assert(w[spec_first(wp, o)] == wp[spec_first(wp, o)]);
                    assert forall|j: int| 0 <= j < spec_first(wp, o) implies #[trigger] w[j].0
                        != o by {
                        assert(w[j] == wp[j]);
                    }
                    lemma_first_at(w, o, spec_first(wp, o));
                }
            } else {
                assert(w[wp.len() as int].0 == f.offset);
                assert forall|j: int| 0 <= j < wp.len() implies #[trigger] w[j].0 != f.offset by {
                    assert(w[j] == wp[j]);
                }
                lemma_first_at(w, f.offset, wp.len() as int);
            }
        }
    }
}

/// Detection right after starting, on the same reads, finds no change.
pub proof fn lemma_new_then_detect(fields: Seq<FieldSnapshot>)
    requires
        spec_distinct_offsets(fields),
    ensures
        spec_all_saved(spec_watched(fields), fields),
        spec_detect(spec_watched(fields), fields) == (Seq::<u32>::empty(), spec_watched(fields)),
{
    lemma_new_saves_reads(fields);
    lemma_detect_nothing_new(spec_watched(fields), fields);
}

impl TrackedValues {
    /// Starts tracking the given fields with their current values.
    pub fn new(fields: &[FieldSnapshot]) -> (r: Self)
        ensures
            r.values@ == spec_watched(fields@),
    {
        let mut values: Vec<(u32, usize)> = Vec::new();
        let mut i: usize = 0;
        while i < fields.len()
            invariant
                i <= fields@.len(),
                values@ == spec_watched(fields@.take(i as int)),
            decreases fields@.len() - i,
        {
            proof {
                assert(fields@.take(i + 1).drop_last() =~= fields@.take(i as int));
            }
            if is_watched(&fields[i]) {
                values.push((fields[i].offset, fields[i].value));
            }
            i = i + 1;
        }
        assert(fields@.take(i as int) =~= fields@);
        TrackedValues { values }
    }

    /// The saved value of the first pair with the offset.
    pub fn get_saved_value(&self, offset: u32) -> (value: usize)
        requires
            spec_has(self.values@, offset),
        ensures
            value == spec_saved(self.values@, offset),
    {
        proof {
            lemma_first(self.values@, offset);
        }
        let mut i: usize = 0;
        while i < self.values.len()
            invariant
                i <= spec_first(self.values@, offset) < self.values@.len(),
                self.values@[spec_first(self.values@, offset)].0 == offset,
                forall|j: int| 0 <= j < spec_first(self.values@, offset) ==> #[trigger] self.values@[j].0
                    != offset,
            decreases self.values@.len() - i,
        {
            if self.values[i].0 == offset {
                return self.values[i].1;
            }
            i = i + 1;
        }
        0
    }

    /// Replaces the value of the first pair with the offset.
    pub fn replace_value(&mut self, offset: u32, value: usize)
        requires
            spec_has(old(self).values@, offset),
        ensures
            final(self).values@ == old(self).values@.update(
                spec_first(old(self).values@, offset),
                (offset, value),
            ),
    {
        proof {
            lemma_first(self.values@, offset);
        }
        let ghost first = spec_first(self.values@, offset);
        let mut i: usize = 0;
        while i < self.values.len()
            invariant
                i <= first < self.values@.len(),
                first == spec_first(old(self).values@, offset),
                self.values@ == old(self).values@,
                self.values@[first].0 == offset,
                forall|j: int| 0 <= j < first ==> #[trigger] self.values@[j].0 != offset,
            decreases self.values@.len() - i,
        {
            if self.values[i].0 == offset {
                self.values.set(i, (offset, value));
                return;
            }
            i = i + 1;
        }
    }

    /// How many watched fields differ from their saved values, leaving the saved
    /// values as they are.
    pub fn count_changes(&self, fields: &[FieldSnapshot]) -> (n: usize)
        requires
            spec_all_saved(self.values@, fields@),
        ensures
            n == spec_detect(self.values@, fields@).0.len(),
    {
        let mut copy: Vec<(u32, usize)> = Vec::new();
        let mut i: usize = 0;
        while i < self.values.len()
            invariant
                i <= self.values@.len(),
                copy@ == self.values@.take(i as int),
            decreases self.values@.len() - i,
        {
            copy.push(self.values[i]);
            i = i + 1;
        }
        assert(copy@ =~= self.values@);
        let mut scratch = TrackedValues { values: copy };
        let changed = scratch.detect_changes_and_update(fields);
        changed.len()
    }

    /// Reads the fields in order and, for every watched one whose value differs
    /// from the saved one, records its offset and saves the new value.
    pub fn detect_changes_and_update(&mut self, fields: &[FieldSnapshot]) -> (changed: Vec<u32>)
        requires
            spec_all_saved(old(self).values@, fields@),
        ensures
            (changed@, final(self).values@) == spec_detect(old(self).values@, fields@),
    {
        let ghost start = self.values@;
        let mut changed: Vec<u32> = Vec::new();
        let mut i: usize = 0;
        while i < fields.len()
            invariant
                i <= fields@.len(),
                spec_all_saved(start, fields@),
                (changed@, self.values@) == spec_detect(start, fields@.take(i as int)),
            decreases fields@.len() - i,
        {
            let ghost prefix = fields@.take(i as int);
            proof {
                assert(fields@.take(i + 1).drop_last() =~= prefix);
                assert(fields@.take(i + 1).last() == fields@[i as int]);
                assert forall|j: int| 0 <= j < prefix.len() && spec_is_watched(#[trigger] prefix[j]) implies spec_has(
                    start,
                    prefix[j].offset,
                ) by {
                    assert(prefix[j] == fields@[j]);
                }
                lemma_detect_keeps_offsets(start, prefix);
            }
            let field = &fields[i];
            if is_watched(field) {
                proof {
                    assert(spec_has(start, field.offset));
                    lemma_first_same_offsets(self.values@, start, field.offset);
                }
                let saved = self.get_saved_value(field.offset);
                if field.value != saved {
                    changed.push(field.offset);
                    self.replace_value(field.offset, field.value);
                }
            }
            i = i + 1;
        }
        assert(fields@.take(i as int) =~= fields@);
        changed
    }
}

/// The values saved for a message object, one pair (offset, value) per watched field.
pub struct TrackedValues {
    pub values: Vec<(u32, usize)>,
}

} // verus!
