//! The order in which a record's headers stand does not matter.
//!
//! Putting one more header anywhere among others has the same effect as putting it behind them.

use crate::envelope::EnvelopeModel;
use crate::headers::{ascending, lemma_slot, lemma_slot_keeps_ascending, slot, HeaderLimits};
use crate::provider::error::IggyMappingError;
use crate::provider::mapper::decode::{
    context_malformed, custom_names, custom_text, customs, decoded, lemma_customs_ascending,
    metadata_of, raw_text, valid_id, valid_number, valid_text, Custom,
};
use crate::provider::mapper::encode::MAX_HEADER_FIELD_BYTES;
use crate::provider::mapper::framework::{framework_name, is_framework_name, FrameworkHeader};
use crate::provider::mapper::normalize::{
    custom_bytes, distinct, find, with_headers, Field, HeaderVerdict,
};
use crate::provider::mapper::record::{WireHeader, WireRecord};
use crate::text::{
    bytes_of, lemma_bytes_determine_text, lemma_precedes_irreflexive, lemma_precedes_total,
    lemma_precedes_transitive, lower_text, precedes,
};
use vstd::prelude::*;

verus! {

/// Fields with names that occur once each.
spec fn apart(fields: Seq<Field>) -> bool {
    forall|i: int, j: int|
        0 <= i < j < fields.len() ==> (#[trigger] fields[i]).name != (#[trigger] fields[j]).name
}

/// A name that no field has.
spec fn is_new(fields: Seq<Field>, name: Seq<char>) -> bool {
    forall|i: int| 0 <= i < fields.len() ==> (#[trigger] fields[i]).name != name
}

proof fn lemma_find_new(fields: Seq<Field>, name: Seq<char>)
    ensures
        find(fields, name) is None <==> is_new(fields, name),
    decreases fields.len(),
{
    if fields.len() > 0 {
        let before = fields.drop_last();
        lemma_find_new(before, name);
        if is_new(before, name) && fields.last().name != name {
            assert forall|i: int| 0 <= i < fields.len() implies (#[trigger] fields[i]).name
                != name by {
                if i < before.len() {
                    assert(before[i] == fields[i]);
                }
            }
        }
        if is_new(fields, name) {
            assert(fields[fields.len() - 1].name != name);
            assert forall|i: int| 0 <= i < before.len() implies (#[trigger] before[i]).name
                != name by {
                assert(before[i] == fields[i]);
            }
        }
    }
}

proof fn lemma_distinct_apart(fields: Seq<Field>)
    ensures
        distinct(fields) <==> apart(fields),
    decreases fields.len(),
{
    if fields.len() > 0 {
        let before = fields.drop_last();
        let last = fields.last();
        lemma_distinct_apart(before);
        lemma_find_new(before, last.name);
        if distinct(fields) {
            assert forall|i: int, j: int| 0 <= i < j < fields.len() implies (
            #[trigger] fields[i]).name != (#[trigger] fields[j]).name by {
                assert(before[i] == fields[i]);
                if j < before.len() {
                    assert(before[j] == fields[j]);
                }
            }
        }
        if apart(fields) {
            assert forall|i: int, j: int| 0 <= i < j < before.len() implies (
            #[trigger] before[i]).name != (#[trigger] before[j]).name by {
                assert(before[i] == fields[i] && before[j] == fields[j]);
            }
            assert forall|i: int| 0 <= i < before.len() implies (#[trigger] before[i]).name
                != last.name by {
                assert(before[i] == fields[i] && last == fields[fields.len() - 1]);
            }
        }
    }
}

proof fn lemma_apart_insert(fields: Seq<Field>, at: int, field: Field)
    requires
        apart(fields),
        is_new(fields, field.name),
        0 <= at <= fields.len(),
    ensures
        apart(fields.insert(at, field)),
{
    let after = fields.insert(at, field);
    assert forall|i: int, j: int| 0 <= i < j < after.len() implies (#[trigger] after[i]).name != (
    #[trigger] after[j]).name by {
        let left = if i < at { i } else { i - 1 };
        let right = if j < at { j } else { j - 1 };
        if i != at {
            assert(after[i] == fields[left]);
        }
        if j != at {
            assert(after[j] == fields[right]);
        }
    }
}

proof fn lemma_insert_splits(fields: Seq<Field>, at: int, field: Field)
    requires
        0 <= at < fields.len(),
    ensures
        fields.insert(at, field).drop_last() =~= fields.drop_last().insert(at, field),
        fields.insert(at, field).last() == fields.last(),
{
}

proof fn lemma_find_insert(fields: Seq<Field>, at: int, field: Field, name: Seq<char>)
    requires
        is_new(fields, field.name),
        0 <= at <= fields.len(),
    ensures
        find(fields.insert(at, field), name) == if field.name == name {
            Some(field)
        } else {
            find(fields, name)
        },
    decreases fields.len(),
{
    let after = fields.insert(at, field);
    if at == fields.len() {
        assert(after.drop_last() =~= fields);
    } else {
        let before = fields.drop_last();
        lemma_insert_splits(fields, at, field);
        assert forall|i: int| 0 <= i < before.len() implies (#[trigger] before[i]).name
            != field.name by {
            assert(before[i] == fields[i]);
        }
        lemma_find_insert(before, at, field, name);
        assert(fields[fields.len() - 1].name != field.name);
    }
}

proof fn lemma_custom_bytes_insert(fields: Seq<Field>, at: int, field: Field)
    requires
        0 <= at <= fields.len(),
    ensures
        custom_bytes(fields.insert(at, field)) == custom_bytes(fields.push(field)),
    decreases fields.len(),
{
    reveal_with_fuel(custom_bytes, 2);
    assert(fields.push(field).drop_last() =~= fields);
    if at == fields.len() {
        assert(fields.insert(at, field) =~= fields.push(field));
    } else {
        lemma_insert_splits(fields, at, field);
        lemma_custom_bytes_insert(fields.drop_last(), at, field);
        assert(fields.drop_last().push(field).drop_last() =~= fields.drop_last());
    }
}

proof fn lemma_custom_bytes_prefix(fields: Seq<Field>, k: int)
    requires
        0 <= k <= fields.len(),
    ensures
        custom_bytes(fields.take(k)) <= custom_bytes(fields),
    decreases fields.len(),
{
    if k == fields.len() {
        assert(fields.take(k) =~= fields);
    } else {
        lemma_custom_bytes_prefix(fields.drop_last(), k);
        assert(fields.drop_last().take(k) =~= fields.take(k));
    }
}

/// An ordered list with one more application header.
spec fn placed(list: Seq<Custom>, custom: Custom) -> Seq<Custom> {
    list.insert(slot(custom_names(list), custom.name), custom)
}

/// The slot of a new name is the only boundary between the names before it and those behind it.
proof fn lemma_slot_is(names: Seq<Seq<char>>, name: Seq<char>, at: int)
    requires
        0 <= at <= names.len(),
        forall|i: int| 0 <= i < at ==> precedes(bytes_of(#[trigger] names[i]), bytes_of(name)),
        forall|i: int|
            at <= i < names.len() ==> precedes(bytes_of(name), bytes_of(#[trigger] names[i])),
    ensures
        slot(names, name) == at,
{
    lemma_slot(names, name);
    let found = slot(names, name);
    if found < at {
        assert(precedes(bytes_of(names[found]), bytes_of(name)));
        lemma_precedes_transitive(bytes_of(name), bytes_of(names[found]), bytes_of(name));
        lemma_precedes_irreflexive(bytes_of(name));
    }
    if found > at {
        assert(precedes(bytes_of(name), bytes_of(names[found - 1])));
    }
}

/// A new name in an ordered list: everything before its slot precedes it.
proof fn lemma_new_slot(names: Seq<Seq<char>>, name: Seq<char>)
    requires
        ascending(names),
        !names.contains(name),
    ensures
        0 <= slot(names, name) <= names.len(),
        forall|i: int|
            0 <= i < slot(names, name) ==> precedes(bytes_of(#[trigger] names[i]), bytes_of(name)),
        forall|i: int|
            slot(names, name) <= i < names.len() ==> precedes(
                bytes_of(name),
                bytes_of(#[trigger] names[i]),
            ),
{
    lemma_slot(names, name);
    lemma_slot_keeps_ascending(names, name);
    let at = slot(names, name);
    let after = names.insert(at, name);
    assert forall|i: int| 0 <= i < at implies precedes(
        bytes_of(#[trigger] names[i]),
        bytes_of(name),
    ) by {
        assert(after[i] == names[i] && after[at] == name);
    }
}

proof fn lemma_placed_in_order(list: Seq<Custom>, first: Custom, second: Custom)
    requires
        ascending(custom_names(list)),
        !custom_names(list).contains(first.name),
        !custom_names(list).contains(second.name),
        precedes(bytes_of(first.name), bytes_of(second.name)),
    ensures
        placed(placed(list, first), second) == placed(placed(list, second), first),
{
    let names = custom_names(list);
    lemma_new_slot(names, first.name);
    lemma_new_slot(names, second.name);
    let p = slot(names, first.name);
    let q = slot(names, second.name);

    if q < p {
        assert(precedes(bytes_of(names[q]), bytes_of(first.name)));
        assert(precedes(bytes_of(second.name), bytes_of(names[q])));
        lemma_precedes_transitive(
            bytes_of(second.name),
            bytes_of(names[q]),
            bytes_of(first.name),
        );
        lemma_precedes_transitive(
            bytes_of(second.name),
            bytes_of(first.name),
            bytes_of(second.name),
        );
        lemma_precedes_irreflexive(bytes_of(second.name));
    }

    let with_first = custom_names(placed(list, first));
    assert(with_first =~= names.insert(p, first.name));
    assert forall|i: int| 0 <= i < q + 1 implies precedes(
        bytes_of(#[trigger] with_first[i]),
        bytes_of(second.name),
    ) by {
        if i < p {
            assert(with_first[i] == names[i]);
        } else if i > p {
            assert(with_first[i] == names[i - 1]);
        }
    }
    assert forall|i: int| q + 1 <= i < with_first.len() implies precedes(
        bytes_of(second.name),
        bytes_of(#[trigger] with_first[i]),
    ) by {
        assert(with_first[i] == names[i - 1]);
    }
    lemma_slot_is(with_first, second.name, q + 1);

    let with_second = custom_names(placed(list, second));
    assert(with_second =~= names.insert(q, second.name));
    assert forall|i: int| 0 <= i < p implies precedes(
        bytes_of(#[trigger] with_second[i]),
        bytes_of(first.name),
    ) by {
        assert(with_second[i] == names[i]);
    }
    assert forall|i: int| p <= i < with_second.len() implies precedes(
        bytes_of(first.name),
        bytes_of(#[trigger] with_second[i]),
    ) by {
        if i < q {
            assert(with_second[i] == names[i]);
        } else if i > q {
            assert(with_second[i] == names[i - 1]);
        }
    }
    lemma_slot_is(with_second, first.name, p);

    assert(placed(placed(list, first), second) =~= placed(placed(list, second), first));
}

/// Two application headers may be placed in either order.
proof fn lemma_placed_commutes(list: Seq<Custom>, first: Custom, second: Custom)
    requires
        ascending(custom_names(list)),
        !custom_names(list).contains(first.name),
        !custom_names(list).contains(second.name),
        first.name != second.name,
    ensures
        placed(placed(list, first), second) == placed(placed(list, second), first),
{
    lemma_bytes_determine_text(first.name, second.name);
    lemma_precedes_total(bytes_of(first.name), bytes_of(second.name));
    if precedes(bytes_of(first.name), bytes_of(second.name)) {
        lemma_placed_in_order(list, first, second);
    } else {
        lemma_placed_in_order(list, second, first);
    }
}

proof fn lemma_customs_push(fields: Seq<Field>, field: Field)
    ensures
        customs(fields.push(field)) == if is_framework_name(field.name) {
            customs(fields)
        } else {
            placed(customs(fields), Custom { name: field.name, value: custom_text(field) })
        },
{
    assert(fields.push(field).drop_last() =~= fields);
}

proof fn lemma_customs_insert(fields: Seq<Field>, at: int, field: Field)
    requires
        apart(fields),
        is_new(fields, field.name),
        0 <= at <= fields.len(),
    ensures
        customs(fields.insert(at, field)) == customs(fields.push(field)),
    decreases fields.len(),
{
    if at == fields.len() {
        assert(fields.insert(at, field) =~= fields.push(field));
    } else {
        let before = fields.drop_last();
        let last = fields.last();
        lemma_insert_splits(fields, at, field);
        assert forall|i: int| 0 <= i < before.len() implies (#[trigger] before[i]).name
            != field.name by {
            assert(before[i] == fields[i]);
        }
        assert forall|i: int, j: int| 0 <= i < j < before.len() implies (
        #[trigger] before[i]).name != (#[trigger] before[j]).name by {
            assert(before[i] == fields[i] && before[j] == fields[j]);
        }
        assert(last == fields[fields.len() - 1]);
        assert forall|i: int| 0 <= i < before.len() implies (#[trigger] before[i]).name
            != last.name by {
            assert(before[i] == fields[i]);
        }
        lemma_customs_insert(before, at, field);
        assert(fields =~= before.push(last));
        assert(fields.insert(at, field) =~= before.insert(at, field).push(last));
        lemma_customs_push(before.insert(at, field), last);
        lemma_customs_push(before, field);
        lemma_customs_push(before, last);
        lemma_customs_push(fields, field);

        if !is_framework_name(field.name) && !is_framework_name(last.name) {
            let list = customs(before);
            lemma_distinct_apart(before);
            lemma_customs_ascending(before);
            lemma_find_new(before, field.name);
            lemma_find_new(before, last.name);
            lemma_placed_commutes(
                list,
                Custom { name: field.name, value: custom_text(field) },
                Custom { name: last.name, value: custom_text(last) },
            );
        }
    }
}

/// Two lists of checked headers that read the same.
spec fn alike(left: Seq<Field>, right: Seq<Field>) -> bool {
    &&& left.len() == right.len()
    &&& customs(left) == customs(right)
    &&& custom_bytes(left) == custom_bytes(right)
    &&& forall|name: Seq<char>| #[trigger] find(left, name) == find(right, name)
}

/// Lists that read the same still do after one has a header anywhere that the other has at its
/// end.
proof fn lemma_alike_insert(left: Seq<Field>, at: int, right: Seq<Field>, field: Field)
    requires
        alike(left, right),
        distinct(left),
        distinct(right),
        find(right, field.name) is None,
        0 <= at <= left.len(),
    ensures
        alike(left.insert(at, field), right.push(field)),
        distinct(left.insert(at, field)),
        distinct(right.push(field)),
{
    lemma_distinct_apart(left);
    lemma_find_new(left, field.name);
    lemma_find_new(right, field.name);
    assert(find(left, field.name) is None);
    lemma_apart_insert(left, at, field);
    lemma_distinct_apart(left.insert(at, field));
    assert(right.push(field).drop_last() =~= right);
    assert(left.push(field).drop_last() =~= left);
    lemma_customs_insert(left, at, field);
    lemma_custom_bytes_insert(left, at, field);
    lemma_customs_push(left, field);
    lemma_customs_push(right, field);
    assert forall|name: Seq<char>| #[trigger]
        find(left.insert(at, field), name) == find(right.push(field), name) by {
        lemma_find_insert(left, at, field, name);
        assert(find(left, name) == find(right, name));
    }
}

/// Headers with their verdicts.
pub open spec fn paired(headers: Seq<WireHeader>, verdicts: Seq<HeaderVerdict>) -> Seq<
    (WireHeader, HeaderVerdict),
> {
    Seq::new(headers.len(), |i: int| (headers[i], verdicts[i]))
}

/// A header as it is after a check that it passes.
spec fn field_of(pair: (WireHeader, HeaderVerdict)) -> Field {
    Field {
        name: lower_text(pair.0.name),
        value: pair.0.value,
        accepted: pair.1.value_accepted,
    }
}

spec fn fields_of_pairs(pairs: Seq<(WireHeader, HeaderVerdict)>) -> Seq<Field> {
    pairs.map_values(|pair: (WireHeader, HeaderVerdict)| field_of(pair))
}

/// A header that is valid by itself.
spec fn is_valid(pair: (WireHeader, HeaderVerdict)) -> bool {
    let name = lower_text(pair.0.name);
    &&& pair.0.value.len() > 0
    &&& is_framework_name(name) ==> pair.0.name == name && pair.0.value.len()
        <= MAX_HEADER_FIELD_BYTES
    &&& !is_framework_name(name) ==> name.len() > 0 && pair.1.name_accepted
}

/// Headers that are each valid by themselves, share no name, and are within the bounds.
spec fn all_valid(pairs: Seq<(WireHeader, HeaderVerdict)>, limits: HeaderLimits) -> bool {
    &&& forall|i: int| 0 <= i < pairs.len() ==> is_valid(#[trigger] pairs[i])
    &&& distinct(fields_of_pairs(pairs))
    &&& custom_bytes(fields_of_pairs(pairs)) <= limits.max_bytes
}

/// Headers pass their check together exactly if they are all valid.
proof fn lemma_all_valid(
    headers: Seq<WireHeader>,
    verdicts: Seq<HeaderVerdict>,
    limits: HeaderLimits,
)
    requires
        headers.len() == verdicts.len(),
    ensures
        with_headers(headers, verdicts, limits) is Ok <==> all_valid(
            paired(headers, verdicts),
            limits,
        ),
        with_headers(headers, verdicts, limits) matches Ok(fields) ==> fields == fields_of_pairs(
            paired(headers, verdicts),
        ),
    decreases headers.len(),
{
    let pairs = paired(headers, verdicts);
    let fields = fields_of_pairs(pairs);

    if headers.len() == 0 {
        assert(fields =~= seq![]);
    } else {
        let before = paired(headers.drop_last(), verdicts.drop_last());
        let field = field_of(pairs.last());
        lemma_all_valid(headers.drop_last(), verdicts.drop_last(), limits);
        assert(pairs.drop_last() =~= before);
        assert(fields =~= fields_of_pairs(before).push(field));
        assert(fields.drop_last() =~= fields_of_pairs(before));
        lemma_custom_bytes_prefix(fields, fields.len() - 1);
        assert(fields.take(fields.len() - 1) =~= fields.drop_last());
        assert(pairs[pairs.len() - 1] == (headers.last(), verdicts.last()));

        if all_valid(pairs, limits) {
            assert forall|i: int| 0 <= i < before.len() implies is_valid(#[trigger] before[i]) by {
                assert(before[i] == pairs[i]);
            }
            assert(is_valid(pairs[pairs.len() - 1]));
        }
        if with_headers(headers, verdicts, limits) is Ok {
            assert forall|i: int| 0 <= i < pairs.len() implies is_valid(#[trigger] pairs[i]) by {
                if i < before.len() {
                    assert(pairs[i] == before[i]);
                }
            }
        }
    }
}

/// Valid headers stay valid in any order, and read the same.
proof fn lemma_any_order(
    left: Seq<(WireHeader, HeaderVerdict)>,
    right: Seq<(WireHeader, HeaderVerdict)>,
    limits: HeaderLimits,
)
    requires
        all_valid(left, limits),
        left.to_multiset() == right.to_multiset(),
    ensures
        all_valid(right, limits),
        alike(fields_of_pairs(left), fields_of_pairs(right)),
    decreases right.len(),
{
    broadcast use vstd::seq_lib::group_to_multiset_ensures;

    assert(left.len() == left.to_multiset().len());
    assert(right.len() == right.to_multiset().len());

    if right.len() == 0 {
        assert(left =~= right);
    } else {
        let last = right.last();
        assert(right[right.len() - 1] == last);
        assert(right.contains(last));
        assert(right.to_multiset().count(last) > 0);
        assert(left.contains(last));
        let at = choose|at: int| 0 <= at < left.len() && left[at] == last;
        let rest = left.remove(at);
        let before = right.drop_last();
        assert(before =~= right.remove(right.len() - 1));
        assert(rest.to_multiset() == before.to_multiset());

        let fields = fields_of_pairs(rest);
        let field = field_of(last);
        assert(fields_of_pairs(left) =~= fields.insert(at, field));
        lemma_without(fields, at, field);
        assert forall|i: int| 0 <= i < rest.len() implies is_valid(#[trigger] rest[i]) by {
            let from = if i < at { i } else { i + 1 };
            assert(rest[i] == left[from]);
        }
        lemma_any_order(rest, before, limits);
        lemma_alike_insert(fields, at, fields_of_pairs(before), field);
        assert(fields_of_pairs(right) =~= fields_of_pairs(before).push(field));
        assert forall|i: int| 0 <= i < right.len() implies is_valid(#[trigger] right[i]) by {
            if i < before.len() {
                assert(right[i] == before[i]);
            } else {
                assert(right[i] == left[at]);
            }
        }
    }
}

/// What taking one of several headers away leaves: the rest share no name, neither with each other
/// nor with it, and are no larger.
proof fn lemma_without(fields: Seq<Field>, at: int, field: Field)
    requires
        0 <= at <= fields.len(),
        distinct(fields.insert(at, field)),
    ensures
        distinct(fields),
        find(fields, field.name) is None,
        custom_bytes(fields) <= custom_bytes(fields.insert(at, field)),
{
    let all = fields.insert(at, field);
    lemma_distinct_apart(all);
    lemma_distinct_apart(fields);
    lemma_find_new(fields, field.name);
    assert forall|i: int, j: int| 0 <= i < j < fields.len() implies (#[trigger] fields[i]).name
        != (#[trigger] fields[j]).name by {
        let x = if i < at { i } else { i + 1 };
        let y = if j < at { j } else { j + 1 };
        assert(all[x] == fields[i] && all[y] == fields[j]);
    }
    assert forall|i: int| 0 <= i < fields.len() implies (#[trigger] fields[i]).name
        != field.name by {
        let x = if i < at { i } else { i + 1 };
        assert(all[x] == fields[i] && all[at] == field);
    }
    lemma_custom_bytes_insert(fields, at, field);
    assert(fields.push(field).drop_last() =~= fields);
}

proof fn lemma_alike_reads(left: Seq<Field>, right: Seq<Field>, header: FrameworkHeader, max: nat)
    requires
        alike(left, right),
    ensures
        raw_text(left, header) == raw_text(right, header),
        valid_text(left, header) == valid_text(right, header),
        valid_id(left, header) == valid_id(right, header),
        valid_number(left, header, max) == valid_number(right, header, max),
{
    assert(find(left, framework_name(header)) == find(right, framework_name(header)));
}

/// The order in which a record's headers stand does not matter: a record that decodes to an
/// envelope decodes to the same envelope with its headers, and the verdicts on them, in any other
/// order, with its key or without it. The envelope's payload is the record's.
pub proof fn law_header_order_does_not_matter(
    record: WireRecord,
    verdicts: Seq<HeaderVerdict>,
    other: WireRecord,
    other_verdicts: Seq<HeaderVerdict>,
    limits: HeaderLimits,
    e: EnvelopeModel,
)
    requires
        record.headers.len() == verdicts.len(),
        other.headers.len() == other_verdicts.len(),
        paired(record.headers, verdicts).to_multiset() == paired(
            other.headers,
            other_verdicts,
        ).to_multiset(),
        other.id == record.id,
        other.payload == record.payload,
        other.key == record.key || other.key is None,
        decoded(record, verdicts, limits) == Ok::<_, IggyMappingError>(e),
    ensures
        decoded(other, other_verdicts, limits) == Ok::<_, IggyMappingError>(e),
        e.payload == record.payload,
{
    broadcast use vstd::seq_lib::group_to_multiset_ensures;

    let left = paired(record.headers, verdicts);
    let right = paired(other.headers, other_verdicts);
    assert(left.len() == left.to_multiset().len());
    assert(right.len() == right.to_multiset().len());
    lemma_all_valid(record.headers, verdicts, limits);
    lemma_all_valid(other.headers, other_verdicts, limits);
    lemma_any_order(left, right, limits);

    let fields = fields_of_pairs(left);
    let others = fields_of_pairs(right);
    assert forall|header: FrameworkHeader, max: nat| #![trigger valid_number(others, header, max)]
        valid_number(others, header, max) == valid_number(fields, header, max) by {
        lemma_alike_reads(fields, others, header, max);
    }
    assert forall|header: FrameworkHeader| #[trigger] valid_text(others, header) == valid_text(
        fields,
        header,
    ) by {
        lemma_alike_reads(fields, others, header, 0);
    }
    assert forall|header: FrameworkHeader| #[trigger] valid_id(others, header) == valid_id(
        fields,
        header,
    ) by {
        lemma_alike_reads(fields, others, header, 0);
    }
    assert(context_malformed(others) == context_malformed(fields));
    assert(metadata_of(others, e.metadata.headers) == metadata_of(fields, e.metadata.headers));
}

} // verus!
