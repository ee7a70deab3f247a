//! What holds of the encoder whatever the instance and the registry are.

use crate::columnar::{lemma_position_bounds, ColumnEntry, ColumnModel, StructModel};
use crate::descriptor::{ElementModel, MemberModel, MemberTypeModel, MessageKey, StringKind};
use crate::defaults::member_default;
use crate::encode::{
    bounded_sequence_encoding, declares, element_encoding, field_encoding, first_undeclared,
    fixed_array_encoding, instance_encoding, is_first_failing_member, items_encoding,
    lemma_fields_follow_members, member_encoding, members_encoding, message_encoding,
    value_encoding,
};
use crate::error::{record_outcome, EncodeError, ErrorModel};
use crate::value::{Record, ValueModel};
use vstd::prelude::*;

verus! {

/// Encoding is determined by what the value and the registry hold. Whatever two
/// attempts on the same instance, message type and registry come to, they come to the
/// same: the same record, or the same failure.
pub proof fn lemma_encoding_is_determined(
    first: Result<Record, EncodeError>,
    second: Result<Record, EncodeError>,
    column: ColumnModel,
    package: Seq<char>,
    message_name: Seq<char>,
    registry: Map<MessageKey, Seq<MemberModel>>,
    depth: nat,
)
    requires
        record_outcome(first) == value_encoding(column, package, message_name, registry, depth),
        record_outcome(second) == value_encoding(column, package, message_name, registry, depth),
    ensures
        record_outcome(first) == record_outcome(second),
        first is Ok <==> second is Ok,
        first matches Ok(one) ==> second matches Ok(other) && one@ == other@,
        first matches Err(one) ==> second matches Err(other) && one@ == other@,
{
}

/// A scalar or a narrow string.
pub open spec fn is_plain(element: ElementModel) -> bool {
    match element {
        ElementModel::Primitive(_) => true,
        ElementModel::GenericString(StringKind::String) => true,
        ElementModel::GenericString(StringKind::BoundedString(_)) => true,
        _ => false,
    }
}

/// Members that refer to no message type always have a default, unless they are wide
/// strings: scalars, narrow strings, and collections of either. Sequences have one
/// whatever their elements are.
pub proof fn lemma_plain_members_have_defaults(
    member: MemberModel,
    rows: nat,
    package: Seq<char>,
    registry: Map<MessageKey, Seq<MemberModel>>,
    depth: nat,
)
    ensures
        (member.ty matches MemberTypeModel::Single(element) && is_plain(element))
            ==> member_default(member, rows, package, registry, depth) is Ok,
        (member.ty matches MemberTypeModel::FixedArray { element_type, .. } && is_plain(
            element_type,
        )) ==> member_default(member, rows, package, registry, depth) is Ok,
        member.ty is Sequence ==> member_default(member, rows, package, registry, depth) is Ok,
        member.ty is BoundedSequence ==> member_default(member, rows, package, registry, depth)
            is Ok,
{
}

/// No two columns carry the same name.
pub open spec fn distinct_column_names(columns: Seq<ColumnEntry>) -> bool {
    forall|i: int, j: int|
        0 <= i < j < columns.len() ==> (#[trigger] columns[i]).name != (#[trigger] columns[j]).name
}

/// No two members carry the same name.
pub open spec fn distinct_member_names(members: Seq<MemberModel>) -> bool {
    forall|i: int, j: int|
        0 <= i < j < members.len() ==> (#[trigger] members[i]).name != (#[trigger] members[j]).name
}

/// Each column of either list is a column of the other: the lists hold the same
/// columns, in whatever order.
pub open spec fn same_columns(a: Seq<ColumnEntry>, b: Seq<ColumnEntry>) -> bool {
    &&& forall|i: int| 0 <= i < a.len() ==> b.contains(#[trigger] a[i])
    &&& forall|j: int| 0 <= j < b.len() ==> a.contains(#[trigger] b[j])
}

/// The position of a name is at most the position of any column that carries it.
pub proof fn lemma_position_first(value: StructModel, name: Seq<char>, at: int)
    requires
        0 <= at < value.columns.len(),
        value.columns[at].name == name,
    ensures
        0 <= value.position(name) <= at,
    decreases value.columns.len(),
{
    lemma_position_bounds(value, name);
    if value.columns[0].name != name {
        let rest = StructModel { rows: value.rows, columns: value.columns.drop_first() };
        assert(rest.columns[at - 1] == value.columns[at]);
        lemma_position_first(rest, name, at - 1);
    }
}

/// Struct values that hold the same columns under distinct names give the same column
/// for every name.
pub proof fn lemma_same_lookup(a: StructModel, b: StructModel, name: Seq<char>)
    requires
        distinct_column_names(a.columns),
        distinct_column_names(b.columns),
        same_columns(a.columns, b.columns),
    ensures
        a.column(name) == b.column(name),
{
    lemma_position_bounds(a, name);
    lemma_position_bounds(b, name);
    let p = a.position(name);
    let q = b.position(name);
    if p < a.columns.len() {
        let entry = a.columns[p];
        assert(b.columns.contains(entry));
        let j = choose|j: int| 0 <= j < b.columns.len() && b.columns[j] == entry;
        lemma_position_first(b, name, j);
        assert(q == j) by {
            if q < j {
                assert(b.columns[q].name != b.columns[j].name);
            }
        }
    } else if q < b.columns.len() {
        let entry = b.columns[q];
        assert(a.columns.contains(entry));
        let i = choose|i: int| 0 <= i < a.columns.len() && a.columns[i] == entry;
        lemma_position_first(a, name, i);
    }
}

/// Where the first undeclared column is: it is undeclared, and if there is none, every
/// column is declared.
pub proof fn lemma_first_undeclared(columns: Seq<ColumnEntry>, members: Seq<MemberModel>)
    ensures
        0 <= first_undeclared(columns, members) <= columns.len(),
        first_undeclared(columns, members) < columns.len() ==> !declares(
            members,
            columns[first_undeclared(columns, members)].name,
        ),
        first_undeclared(columns, members) == columns.len() ==> forall|i: int|
            0 <= i < columns.len() ==> declares(members, (#[trigger] columns[i]).name),
    decreases columns.len(),
{
    if columns.len() > 0 && declares(members, columns[0].name) {
        let rest = columns.drop_first();
        lemma_first_undeclared(rest, members);
        if first_undeclared(columns, members) == columns.len() {
            assert forall|i: int| 0 <= i < columns.len() implies declares(
                members,
                (#[trigger] columns[i]).name,
            ) by {
                if i > 0 {
                    assert(rest[i - 1] == columns[i]);
                }
            }
        }
    }
}

/// The members are encoded from the columns found under their names, and from nothing
/// else of the struct value.
pub proof fn lemma_members_by_lookup(
    a: StructModel,
    b: StructModel,
    row: int,
    members: Seq<MemberModel>,
    count: nat,
    package: Seq<char>,
    registry: Map<MessageKey, Seq<MemberModel>>,
    depth: nat,
)
    requires
        forall|k: int|
            0 <= k < members.len() ==> a.column((#[trigger] members[k]).name) == b.column(
                members[k].name,
            ),
    ensures
        members_encoding(a, row, members, count, package, registry, depth) == members_encoding(
            b,
            row,
            members,
            count,
            package,
            registry,
            depth,
        ),
    decreases count,
{
    if count > 0 && count <= members.len() {
        lemma_members_by_lookup(a, b, row, members, (count - 1) as nat, package, registry, depth);
        let member = members[count - 1];
        assert(a.column(member.name) == b.column(member.name));
        assert(member_encoding(a, row, member, package, registry, depth) == member_encoding(
            b,
            row,
            member,
            package,
            registry,
            depth,
        ));
    }
}

/// The order of the columns does not matter. Two struct values that hold the same
/// columns under distinct names, in whatever order, are encoded alike: to the same
/// record, or to the same failure. Only where some column is undeclared may the two
/// failures name different columns, each the first undeclared one of its value.
pub proof fn lemma_column_order_is_irrelevant(
    a: StructModel,
    b: StructModel,
    row: int,
    members: Seq<MemberModel>,
    package: Seq<char>,
    registry: Map<MessageKey, Seq<MemberModel>>,
    depth: nat,
)
    requires
        distinct_column_names(a.columns),
        distinct_column_names(b.columns),
        same_columns(a.columns, b.columns),
    ensures
        ({
            let from_a = instance_encoding(a, row, members, package, registry, depth);
            let from_b = instance_encoding(b, row, members, package, registry, depth);
            ||| from_a == from_b
            ||| (from_a matches Err(ErrorModel::UnknownField { .. })
                && from_b matches Err(ErrorModel::UnknownField { .. }))
        }),
{
    lemma_first_undeclared(a.columns, members);
    lemma_first_undeclared(b.columns, members);
    let p = first_undeclared(a.columns, members);
    let q = first_undeclared(b.columns, members);
    if p < a.columns.len() {
        assert(b.columns.contains(a.columns[p]));
    } else if q < b.columns.len() {
        assert(a.columns.contains(b.columns[q]));
    } else {
        assert forall|k: int| 0 <= k < members.len() implies a.column((#[trigger] members[k]).name)
            == b.column(members[k].name) by {
            lemma_same_lookup(a, b, members[k].name);
        }
        lemma_members_by_lookup(a, b, row, members, members.len(), package, registry, depth);
    }
}

/// A column that the descriptor does not declare is refused wherever it stands among
/// the columns: the failure names an undeclared column.
pub proof fn lemma_undeclared_column_is_refused(
    value: StructModel,
    at: int,
    row: int,
    members: Seq<MemberModel>,
    package: Seq<char>,
    registry: Map<MessageKey, Seq<MemberModel>>,
    depth: nat,
)
    requires
        0 <= at < value.columns.len(),
        !declares(members, value.columns[at].name),
    ensures
        instance_encoding(value, row, members, package, registry, depth) matches Err(
            ErrorModel::UnknownField { column },
        ) && !declares(members, column),
{
    lemma_first_undeclared(value.columns, members);
}

/// The declared names decide which column is the first undeclared one.
pub proof fn lemma_first_undeclared_by_names(
    columns: Seq<ColumnEntry>,
    first: Seq<MemberModel>,
    second: Seq<MemberModel>,
)
    requires
        forall|name: Seq<char>| #[trigger] declares(first, name) == declares(second, name),
    ensures
        first_undeclared(columns, first) == first_undeclared(columns, second),
    decreases columns.len(),
{
    if columns.len() > 0 {
        assert(declares(first, columns[0].name) == declares(second, columns[0].name));
        lemma_first_undeclared_by_names(columns.drop_first(), first, second);
    }
}

/// The order of the members is the order of the fields. If a descriptor's members are
/// rearranged, so that the member at each position `i` is the one that stood at
/// `from[i]`, and no member is lost, then the record is rearranged in the same way; and
/// the one descriptor has a record exactly if the other has.
pub proof fn lemma_member_order_is_field_order(
    value: StructModel,
    row: int,
    members: Seq<MemberModel>,
    rearranged: Seq<MemberModel>,
    from: Seq<int>,
    package: Seq<char>,
    registry: Map<MessageKey, Seq<MemberModel>>,
    depth: nat,
)
    requires
        from.len() == members.len(),
        rearranged.len() == members.len(),
        forall|i: int|
            0 <= i < rearranged.len() ==> 0 <= #[trigger] from[i] < members.len() && rearranged[i]
                == members[from[i]],
        forall|j: int| 0 <= j < members.len() ==> from.contains(j),
    ensures
        match (
            instance_encoding(value, row, members, package, registry, depth),
            instance_encoding(value, row, rearranged, package, registry, depth),
        ) {
            (Ok(fields), Ok(moved)) => moved.len() == fields.len() && forall|i: int|
                0 <= i < moved.len() ==> #[trigger] moved[i] == fields[from[i]],
            (Err(_), Err(_)) => true,
            _ => false,
        },
{
    assert forall|name: Seq<char>| #[trigger] declares(members, name) == declares(
        rearranged,
        name,
    ) by {
        if declares(members, name) {
            let j = choose|j: int| 0 <= j < members.len() && (#[trigger] members[j]).name == name;
            assert(from.contains(j));
            let i = choose|i: int| 0 <= i < from.len() && from[i] == j;
            assert(rearranged[i].name == name);
        }
        if declares(rearranged, name) {
            let i = choose|i: int|
                0 <= i < rearranged.len() && (#[trigger] rearranged[i]).name == name;
            assert(members[from[i]].name == name);
        }
    }
    lemma_first_undeclared_by_names(value.columns, members, rearranged);
    lemma_fields_follow_members(value, row, members, members.len(), package, registry, depth);
    lemma_fields_follow_members(
        value,
        row,
        rearranged,
        rearranged.len(),
        package,
        registry,
        depth,
    );
    let plain = members_encoding(value, row, members, members.len(), package, registry, depth);
    let moved = members_encoding(
        value,
        row,
        rearranged,
        rearranged.len(),
        package,
        registry,
        depth,
    );
    match (plain, moved) {
        (Ok(fields), Ok(others)) => {
            assert forall|i: int| 0 <= i < others.len() implies #[trigger] others[i]
                == fields[from[i]] by {
                assert(rearranged[i] == members[from[i]]);
            }
        },
        (Ok(fields), Err(error)) => {
            let k = choose|k: int|
                k < rearranged.len() && #[trigger] is_first_failing_member(
                    k,
                    error,
                    value,
                    row,
                    rearranged,
                    package,
                    registry,
                    depth,
                );
            assert(rearranged[k] == members[from[k]]);
        },
        (Err(error), Ok(others)) => {
            let j = choose|j: int|
                j < members.len() && #[trigger] is_first_failing_member(
                    j,
                    error,
                    value,
                    row,
                    members,
                    package,
                    registry,
                    depth,
                );
            assert(from.contains(j));
            let i = choose|i: int| 0 <= i < from.len() && from[i] == j;
            assert(rearranged[i] == members[j]);
        },
        (Err(_), Err(_)) => {},
    }
}

/// Where a name is found after a column has been appended.
pub proof fn lemma_position_after_append(
    value: StructModel,
    added: Seq<char>,
    data: ColumnModel,
    name: Seq<char>,
)
    ensures
        ({
            let before = value.position(name);
            let after = value.with_column(added, data).position(name);
            &&& before < value.columns.len() ==> after == before
            &&& before >= value.columns.len() && added == name ==> after == value.columns.len()
            &&& before >= value.columns.len() && added != name ==> after == value.columns.len() + 1
        }),
    decreases value.columns.len(),
{
    let extended = value.with_column(added, data);
    lemma_position_bounds(value, name);
    if value.columns.len() == 0 {
        assert(extended.columns.drop_first() =~= Seq::empty());
        let rest = StructModel { rows: value.rows, columns: extended.columns.drop_first() };
        assert(rest.position(name) == 0);
    } else if value.columns[0].name != name {
        let rest = StructModel { rows: value.rows, columns: value.columns.drop_first() };
        lemma_position_after_append(rest, added, data, name);
        assert(extended.columns.drop_first() =~= rest.with_column(added, data).columns);
    }
}

/// Which column is the first undeclared one after a declared column has been appended.
pub proof fn lemma_first_undeclared_after_append(
    columns: Seq<ColumnEntry>,
    entry: ColumnEntry,
    members: Seq<MemberModel>,
)
    requires
        declares(members, entry.name),
    ensures
        ({
            let before = first_undeclared(columns, members);
            let after = first_undeclared(columns.push(entry), members);
            &&& before < columns.len() ==> after == before
            &&& before >= columns.len() ==> after == columns.len() + 1
        }),
    decreases columns.len(),
{
    let extended = columns.push(entry);
    lemma_first_undeclared(columns, members);
    if columns.len() == 0 {
        assert(extended.drop_first() =~= Seq::empty());
        assert(first_undeclared(extended.drop_first(), members) == 0);
    } else if declares(members, columns[0].name) {
        lemma_first_undeclared_after_append(columns.drop_first(), entry, members);
        assert(extended.drop_first() =~= columns.drop_first().push(entry));
    }
}

/// The members are encoded one by one: struct values under which every member is
/// encoded alike are encoded alike.
pub proof fn lemma_members_one_by_one(
    a: StructModel,
    b: StructModel,
    row: int,
    members: Seq<MemberModel>,
    count: nat,
    package: Seq<char>,
    registry: Map<MessageKey, Seq<MemberModel>>,
    depth: nat,
)
    requires
        forall|k: int|
            0 <= k < members.len() ==> member_encoding(
                a,
                row,
                #[trigger] members[k],
                package,
                registry,
                depth,
            ) == member_encoding(b, row, members[k], package, registry, depth),
    ensures
        members_encoding(a, row, members, count, package, registry, depth) == members_encoding(
            b,
            row,
            members,
            count,
            package,
            registry,
            depth,
        ),
    decreases count,
{
    if count > 0 && count <= members.len() {
        lemma_members_one_by_one(a, b, row, members, (count - 1) as nat, package, registry, depth);
        let member = members[count - 1];
        assert(member_encoding(a, row, member, package, registry, depth) == member_encoding(
            b,
            row,
            member,
            package,
            registry,
            depth,
        ));
    }
}

/// Leaving a member out is the same as giving its default. If an instance has no
/// column for a member whose default can be made, then the instance is encoded just as
/// the instance that holds this default in a column of the member's name.
pub proof fn lemma_absent_is_default(
    value: StructModel,
    at: int,
    package: Seq<char>,
    message_name: Seq<char>,
    registry: Map<MessageKey, Seq<MemberModel>>,
    depth: nat,
)
    requires
        registry.contains_key((package, message_name)),
        distinct_member_names(registry[(package, message_name)]),
        0 <= at < registry[(package, message_name)].len(),
        value.column(registry[(package, message_name)][at].name) is None,
        member_default(registry[(package, message_name)][at], 1, package, registry, depth) is Ok,
    ensures
        ({
            let member = registry[(package, message_name)][at];
            let made = member_default(member, 1, package, registry, depth)->Ok_0;
            value_encoding(
                ColumnModel::Struct(value.with_column(member.name, made)),
                package,
                message_name,
                registry,
                depth,
            ) == value_encoding(ColumnModel::Struct(value), package, message_name, registry, depth)
        }),
{
    let members = registry[(package, message_name)];
    let member = members[at];
    let made = member_default(member, 1, package, registry, depth)->Ok_0;
    let given = value.with_column(member.name, made);
    let entry = ColumnEntry { name: member.name, data: made };
    assert(declares(members, member.name));
    lemma_first_undeclared(value.columns, members);
    lemma_first_undeclared_after_append(value.columns, entry, members);
    lemma_position_bounds(value, member.name);
    assert forall|k: int| 0 <= k < members.len() implies member_encoding(
        given,
        0,
        #[trigger] members[k],
        package,
        registry,
        depth,
    ) == member_encoding(value, 0, members[k], package, registry, depth) by {
        let other = members[k];
        lemma_position_after_append(value, member.name, made, other.name);
        lemma_position_bounds(value, other.name);
        if other.name == member.name {
            assert(k == at) by {
                if k < at {
                    assert(members[k].name != members[at].name);
                }
                if at < k {
                    assert(members[at].name != members[k].name);
                }
            }
            assert(given.column(other.name) == Some(made));
        } else {
            assert(given.column(other.name) == value.column(other.name));
        }
    }
    lemma_members_one_by_one(given, value, 0, members, members.len(), package, registry, depth);
}

/// Exactly one instance is encoded at a time: of a registered message type, a struct
/// value without rows is refused as empty, one with several rows as several instances,
/// and one with a single row is encoded under the type's descriptor.
pub proof fn lemma_one_instance(
    value: StructModel,
    package: Seq<char>,
    message_name: Seq<char>,
    registry: Map<MessageKey, Seq<MemberModel>>,
    depth: nat,
)
    requires
        registry.contains_key((package, message_name)),
    ensures
        ({
            let encoded = value_encoding(
                ColumnModel::Struct(value),
                package,
                message_name,
                registry,
                depth,
            );
            &&& value.rows == 0 ==> encoded == Err::<Seq<ValueModel>, ErrorModel>(
                ErrorModel::EmptyInput,
            )
            &&& value.rows > 1 ==> encoded == Err::<Seq<ValueModel>, ErrorModel>(
                ErrorModel::MultipleInstances { rows: value.rows },
            )
            &&& value.rows == 1 ==> encoded == instance_encoding(
                value,
                0,
                registry[(package, message_name)],
                package,
                registry,
                depth,
            )
        }),
{
}

/// Whether the entry at a position is the first that cannot be encoded, and `error` is
/// why.
pub open spec fn is_first_failing_item(
    at: int,
    error: ErrorModel,
    items: ColumnModel,
    element: ElementModel,
    field: Seq<char>,
    package: Seq<char>,
    registry: Map<MessageKey, Seq<MemberModel>>,
    depth: nat,
) -> bool {
    &&& 0 <= at
    &&& element_encoding(items, at, element, field, package, registry, depth) == Err::<
        ValueModel,
        ErrorModel,
    >(error)
    &&& forall|j: int|
        0 <= j < at ==> (#[trigger] element_encoding(
            items,
            j,
            element,
            field,
            package,
            registry,
            depth,
        )) is Ok
}

/// A collection has one value per entry of the array of its elements, and each value is
/// the encoding of the entry at its position. The values are there exactly if every
/// entry can be encoded; if not, the failure is that of the first entry that cannot.
pub proof fn lemma_values_follow_items(
    items: ColumnModel,
    element: ElementModel,
    count: nat,
    field: Seq<char>,
    package: Seq<char>,
    registry: Map<MessageKey, Seq<MemberModel>>,
    depth: nat,
)
    ensures
        match items_encoding(items, element, count, field, package, registry, depth) {
            Ok(values) => values.len() == count && forall|k: int|
                0 <= k < count ==> (#[trigger] element_encoding(
                    items,
                    k,
                    element,
                    field,
                    package,
                    registry,
                    depth,
                )) == Ok::<ValueModel, ErrorModel>(values[k]),
            Err(error) => exists|k: int|
                k < count && #[trigger] is_first_failing_item(
                    k,
                    error,
                    items,
                    element,
                    field,
                    package,
                    registry,
                    depth,
                ),
        },
    decreases count,
{
    if count > 0 {
        lemma_values_follow_items(
            items,
            element,
            (count - 1) as nat,
            field,
            package,
            registry,
            depth,
        );
        let shorter = items_encoding(
            items,
            element,
            (count - 1) as nat,
            field,
            package,
            registry,
            depth,
        );
        let last = element_encoding(items, count - 1, element, field, package, registry, depth);
        match shorter {
            Err(error) => {
                let k = choose|k: int|
                    k < count - 1 && #[trigger] is_first_failing_item(
                        k,
                        error,
                        items,
                        element,
                        field,
                        package,
                        registry,
                        depth,
                    );
                assert(k < count);
            },
            Ok(values) => match last {
                Err(error) => {
                    assert(is_first_failing_item(
                        count - 1,
                        error,
                        items,
                        element,
                        field,
                        package,
                        registry,
                        depth,
                    ));
                },
                Ok(value) => {},
            },
        }
    }
}

/// Declared lengths are enforced before any element is looked at: a fixed array of
/// another length than its declared size is refused, and so is a bounded sequence
/// longer than its bound. A collection of an accepted length is encoded element by
/// element.
pub proof fn lemma_lengths_are_enforced(
    items: ColumnModel,
    element: ElementModel,
    limit: nat,
    field: Seq<char>,
    package: Seq<char>,
    registry: Map<MessageKey, Seq<MemberModel>>,
    depth: nat,
)
    ensures
        ({
            let violation = Err::<ValueModel, ErrorModel>(ErrorModel::BoundViolation { field });
            let elements = items_encoding(
                items,
                element,
                items.len(),
                field,
                package,
                registry,
                depth,
            );
            let fixed = fixed_array_encoding(
                items,
                element,
                limit,
                field,
                package,
                registry,
                depth,
            );
            let bounded = bounded_sequence_encoding(
                items,
                element,
                limit,
                field,
                package,
                registry,
                depth,
            );
            &&& items.len() != limit ==> fixed == violation
            &&& items.len() > limit ==> bounded == violation
            &&& items.len() == limit ==> (fixed is Ok <==> elements is Ok) && (fixed matches Ok(
                ValueModel::Array(values),
            ) ==> elements == Ok::<Seq<ValueModel>, ErrorModel>(values))
            &&& items.len() <= limit ==> (bounded is Ok <==> elements is Ok) && (bounded matches Ok(
                ValueModel::Sequence(values),
            ) ==> elements == Ok::<Seq<ValueModel>, ErrorModel>(values))
        }),
{
}

/// A nested message is encoded as a message of its own. The field of a member that
/// refers to a registered message type of the same package is the struct of the fields
/// that the nested struct value has under the referenced descriptor, one level deeper.
pub proof fn lemma_nested_message_is_encoded_alone(
    nested: StructModel,
    row: int,
    member: MemberModel,
    referenced: Seq<char>,
    package: Seq<char>,
    registry: Map<MessageKey, Seq<MemberModel>>,
    depth: nat,
)
    requires
        member.ty == MemberTypeModel::Single(ElementModel::NamedTypeRef(referenced)),
        registry.contains_key((package, referenced)),
        depth > 0,
    ensures
        field_encoding(ColumnModel::Struct(nested), row, member, package, registry, depth)
            == match instance_encoding(
            nested,
            row,
            registry[(package, referenced)],
            package,
            registry,
            (depth - 1) as nat,
        ) {
            Ok(fields) => Ok::<ValueModel, ErrorModel>(ValueModel::Struct(fields)),
            Err(error) => Err(error),
        },
{
    assert(message_encoding(
        ColumnModel::Struct(nested),
        row,
        member.name,
        package,
        referenced,
        registry,
        depth,
    ) == instance_encoding(
        nested,
        row,
        registry[(package, referenced)],
        package,
        registry,
        (depth - 1) as nat,
    ));
}

} // verus!
