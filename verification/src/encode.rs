//! The struct encoder and the leaf encoders it dispatches to.

use crate::columnar::{Column, ColumnEntry, ColumnModel, ColumnarValue, StructModel, StructValue};
use crate::defaults::{default_member, lemma_default_rows, member_default, MAX_NESTING_DEPTH};
use crate::descriptor::{
    members_view, ElementModel, ElementType, MemberDescriptor, MemberModel, MemberType,
    MemberTypeModel, MessageKey, PrimitiveKind, StringKind, TypeInfo, TypeRegistry,
};
use crate::error::{record_outcome, value_outcome, values_outcome, EncodeError, ErrorModel};
use crate::value::{values_model, Record, Value, ValueModel};
use vstd::prelude::*;
use vstd::string::StringExecFns;
use vstd::string::StrSliceExecFns;

verus! {

/// The namespace of message types, the only one that can be encoded.
pub open spec fn message_namespace() -> Seq<char> {
    "msg"@
}

/// The scalar at a row of an array, if the array is of the kind that stores the scalar
/// kind. Characters and bytes are stored as unsigned 8-bit integers.
pub open spec fn scalar_at(column: ColumnModel, row: int, kind: PrimitiveKind) -> Option<
    ValueModel,
> {
    match kind {
        PrimitiveKind::Bool => match column {
            ColumnModel::Bool(values) => Some(ValueModel::Bool(values[row])),
            _ => None,
        },
        PrimitiveKind::Int8 => match column {
            ColumnModel::Int8(values) => Some(ValueModel::Int8(values[row])),
            _ => None,
        },
        PrimitiveKind::Int16 => match column {
            ColumnModel::Int16(values) => Some(ValueModel::Int16(values[row])),
            _ => None,
        },
        PrimitiveKind::Int32 => match column {
            ColumnModel::Int32(values) => Some(ValueModel::Int32(values[row])),
            _ => None,
        },
        PrimitiveKind::Int64 => match column {
            ColumnModel::Int64(values) => Some(ValueModel::Int64(values[row])),
            _ => None,
        },
        PrimitiveKind::UInt8 => match column {
            ColumnModel::UInt8(values) => Some(ValueModel::UInt8(values[row])),
            _ => None,
        },
        PrimitiveKind::UInt16 => match column {
            ColumnModel::UInt16(values) => Some(ValueModel::UInt16(values[row])),
            _ => None,
        },
        PrimitiveKind::UInt32 => match column {
            ColumnModel::UInt32(values) => Some(ValueModel::UInt32(values[row])),
            _ => None,
        },
        PrimitiveKind::UInt64 => match column {
            ColumnModel::UInt64(values) => Some(ValueModel::UInt64(values[row])),
            _ => None,
        },
        PrimitiveKind::Float32 => match column {
            ColumnModel::Float32(values) => Some(ValueModel::Float32(values[row])),
            _ => None,
        },
        PrimitiveKind::Float64 => match column {
            ColumnModel::Float64(values) => Some(ValueModel::Float64(values[row])),
            _ => None,
        },
        PrimitiveKind::Char => match column {
            ColumnModel::UInt8(values) => Some(ValueModel::UInt8(values[row])),
            _ => None,
        },
        PrimitiveKind::Byte => match column {
            ColumnModel::UInt8(values) => Some(ValueModel::UInt8(values[row])),
            _ => None,
        },
    }
}

/// The text at a row of a string array, in whichever of the two representations the
/// array is.
pub open spec fn text_at(column: ColumnModel, row: int) -> Option<Seq<char>> {
    match column {
        ColumnModel::Utf8(texts) => Some(texts[row]),
        ColumnModel::LargeUtf8(texts) => Some(texts[row]),
        _ => None,
    }
}

/// The array at a row of a list array.
pub open spec fn list_at(column: ColumnModel, row: int) -> Option<ColumnModel> {
    match column {
        ColumnModel::List(lists) => Some(lists[row]),
        _ => None,
    }
}

/// Encoding of a scalar member.
pub open spec fn primitive_encoding(
    column: ColumnModel,
    row: int,
    kind: PrimitiveKind,
    field: Seq<char>,
) -> Result<ValueModel, ErrorModel> {
    match scalar_at(column, row, kind) {
        Some(value) => Ok(value),
        None => Err(ErrorModel::TypeMismatch { field }),
    }
}

/// Encoding of a string member. Wide strings are not implemented; a bounded string
/// may have at most as many characters as its bound.
pub open spec fn string_encoding(
    column: ColumnModel,
    row: int,
    kind: StringKind,
    field: Seq<char>,
) -> Result<ValueModel, ErrorModel> {
    match kind {
        StringKind::WString => Err(ErrorModel::NotImplemented { field }),
        StringKind::BoundedWString(_) => Err(ErrorModel::NotImplemented { field }),
        StringKind::String => match text_at(column, row) {
            Some(text) => Ok(ValueModel::Text(text)),
            None => Err(ErrorModel::TypeMismatch { field }),
        },
        StringKind::BoundedString(max_len) => match text_at(column, row) {
            Some(text) => if text.len() > max_len {
                Err(ErrorModel::BoundViolation { field })
            } else {
                Ok(ValueModel::Text(text))
            },
            None => Err(ErrorModel::TypeMismatch { field }),
        },
    }
}

/// Whether a member of the given name is declared.
pub open spec fn declares(members: Seq<MemberModel>, name: Seq<char>) -> bool {
    exists|j: int| 0 <= j < members.len() && (#[trigger] members[j]).name == name
}

/// Position of the first column that no member declares, or the number of columns if
/// every column is declared.
pub open spec fn first_undeclared(columns: Seq<ColumnEntry>, members: Seq<MemberModel>) -> int
    decreases columns.len(),
{
    if columns.len() == 0 {
        0
    } else if !declares(members, columns[0].name) {
        0
    } else {
        1 + first_undeclared(columns.drop_first(), members)
    }
}

/// Encoding of the instance at a row of the array given for a member that refers to a
/// message type: the fields of the nested message.
pub open spec fn message_encoding(
    column: ColumnModel,
    row: int,
    field: Seq<char>,
    package: Seq<char>,
    message_name: Seq<char>,
    registry: Map<MessageKey, Seq<MemberModel>>,
    depth: nat,
) -> Result<Seq<ValueModel>, ErrorModel>
    decreases depth, 0nat, 0nat,
{
    if depth == 0 {
        Err(ErrorModel::CyclicType { package, message_name })
    } else if !registry.contains_key((package, message_name)) {
        Err(ErrorModel::UnknownMessageType { package, message_name })
    } else {
        match column {
            ColumnModel::Struct(value) => instance_encoding(
                value,
                row,
                registry[(package, message_name)],
                package,
                registry,
                (depth - 1) as nat,
            ),
            _ => Err(ErrorModel::TypeMismatch { field }),
        }
    }
}

/// Encoding of one value of a single-valued type: the entry at a row of an array.
pub open spec fn element_encoding(
    column: ColumnModel,
    row: int,
    element: ElementModel,
    field: Seq<char>,
    package: Seq<char>,
    registry: Map<MessageKey, Seq<MemberModel>>,
    depth: nat,
) -> Result<ValueModel, ErrorModel>
    decreases depth, 1nat, 0nat,
{
    match element {
        ElementModel::Primitive(kind) => primitive_encoding(column, row, kind, field),
        ElementModel::GenericString(kind) => string_encoding(column, row, kind, field),
        ElementModel::NamedTypeRef(message_name) => match message_encoding(
            column,
            row,
            field,
            package,
            message_name,
            registry,
            depth,
        ) {
            Ok(fields) => Ok(ValueModel::Struct(fields)),
            Err(error) => Err(error),
        },
        ElementModel::NamespacedTypeRef { package: other, message_name, namespace } => {
            if namespace != message_namespace() {
                Err(ErrorModel::UnsupportedNamespace { field })
            } else {
                match message_encoding(column, row, field, other, message_name, registry, depth) {
                    Ok(fields) => Ok(ValueModel::Struct(fields)),
                    Err(error) => Err(error),
                }
            }
        },
    }
}

/// Encoding of the first `count` entries of an array of elements, in array order, or
/// the failure of the first entry that cannot be encoded.
pub open spec fn items_encoding(
    items: ColumnModel,
    element: ElementModel,
    count: nat,
    field: Seq<char>,
    package: Seq<char>,
    registry: Map<MessageKey, Seq<MemberModel>>,
    depth: nat,
) -> Result<Seq<ValueModel>, ErrorModel>
    decreases depth, 2nat, count,
{
    if count == 0 {
        Ok(Seq::empty())
    } else {
        match items_encoding(items, element, (count - 1) as nat, field, package, registry, depth) {
            Err(error) => Err(error),
            Ok(values) => match element_encoding(
                items,
                count - 1,
                element,
                field,
                package,
                registry,
                depth,
            ) {
                Err(error) => Err(error),
                Ok(value) => Ok(values.push(value)),
            },
        }
    }
}

/// Encoding of a fixed array from the array of its elements: exactly `size` elements,
/// in array order.
pub open spec fn fixed_array_encoding(
    items: ColumnModel,
    element: ElementModel,
    size: nat,
    field: Seq<char>,
    package: Seq<char>,
    registry: Map<MessageKey, Seq<MemberModel>>,
    depth: nat,
) -> Result<ValueModel, ErrorModel>
    decreases depth, 3nat, 0nat,
{
    if items.len() != size {
        Err(ErrorModel::BoundViolation { field })
    } else {
        match items_encoding(items, element, items.len(), field, package, registry, depth) {
            Ok(values) => Ok(ValueModel::Array(values)),
            Err(error) => Err(error),
        }
    }
}

/// Encoding of an unbounded sequence from the array of its elements: all of them, in
/// array order.
pub open spec fn sequence_encoding(
    items: ColumnModel,
    element: ElementModel,
    field: Seq<char>,
    package: Seq<char>,
    registry: Map<MessageKey, Seq<MemberModel>>,
    depth: nat,
) -> Result<ValueModel, ErrorModel>
    decreases depth, 3nat, 0nat,
{
    match items_encoding(items, element, items.len(), field, package, registry, depth) {
        Ok(values) => Ok(ValueModel::Sequence(values)),
        Err(error) => Err(error),
    }
}

/// Encoding of a bounded sequence from the array of its elements: at most `max_len`
/// elements, in array order.
pub open spec fn bounded_sequence_encoding(
    items: ColumnModel,
    element: ElementModel,
    max_len: nat,
    field: Seq<char>,
    package: Seq<char>,
    registry: Map<MessageKey, Seq<MemberModel>>,
    depth: nat,
) -> Result<ValueModel, ErrorModel>
    decreases depth, 3nat, 0nat,
{
    if items.len() > max_len {
        Err(ErrorModel::BoundViolation { field })
    } else {
        match items_encoding(items, element, items.len(), field, package, registry, depth) {
            Ok(values) => Ok(ValueModel::Sequence(values)),
            Err(error) => Err(error),
        }
    }
}

/// Encoding of a member from the array that holds it and the row of the instance. A
/// collection is held in a list array, whose entry at the row is the array of the
/// collection's elements.
pub open spec fn field_encoding(
    column: ColumnModel,
    row: int,
    member: MemberModel,
    package: Seq<char>,
    registry: Map<MessageKey, Seq<MemberModel>>,
    depth: nat,
) -> Result<ValueModel, ErrorModel>
    decreases depth, 4nat, 0nat,
{
    match member.ty {
        MemberTypeModel::Single(element) => element_encoding(
            column,
            row,
            element,
            member.name,
            package,
            registry,
            depth,
        ),
        MemberTypeModel::FixedArray { element_type, size } => match list_at(column, row) {
            None => Err(ErrorModel::TypeMismatch { field: member.name }),
            Some(items) => fixed_array_encoding(
                items,
                element_type,
                size,
                member.name,
                package,
                registry,
                depth,
            ),
        },
        MemberTypeModel::Sequence { element_type } => match list_at(column, row) {
            None => Err(ErrorModel::TypeMismatch { field: member.name }),
            Some(items) => sequence_encoding(
                items,
                element_type,
                member.name,
                package,
                registry,
                depth,
            ),
        },
        MemberTypeModel::BoundedSequence { element_type, max_len } => match list_at(column, row) {
            None => Err(ErrorModel::TypeMismatch { field: member.name }),
            Some(items) => bounded_sequence_encoding(
                items,
                element_type,
                max_len,
                member.name,
                package,
                registry,
                depth,
            ),
        },
    }
}

/// Encoding of a member of the instance at a row of a struct value: from the column of
/// the member's name if there is one, else from a default made for the member.
pub open spec fn member_encoding(
    value: StructModel,
    row: int,
    member: MemberModel,
    package: Seq<char>,
    registry: Map<MessageKey, Seq<MemberModel>>,
    depth: nat,
) -> Result<ValueModel, ErrorModel>
    decreases depth, 5nat, 0nat,
{
    match value.column(member.name) {
        Some(column) => field_encoding(column, row, member, package, registry, depth),
        None => match member_default(member, 1, package, registry, depth) {
            Err(error) => Err(error),
            Ok(column) => field_encoding(column, 0, member, package, registry, depth),
        },
    }
}

/// Encoding of the first `count` members, in declared order, or the failure of the
/// first member that cannot be encoded.
pub open spec fn members_encoding(
    value: StructModel,
    row: int,
    members: Seq<MemberModel>,
    count: nat,
    package: Seq<char>,
    registry: Map<MessageKey, Seq<MemberModel>>,
    depth: nat,
) -> Result<Seq<ValueModel>, ErrorModel>
    decreases depth, 6nat, count,
{
    if count == 0 || count > members.len() {
        Ok(Seq::empty())
    } else {
        match members_encoding(value, row, members, (count - 1) as nat, package, registry, depth) {
            Err(error) => Err(error),
            Ok(fields) => match member_encoding(
                value,
                row,
                members[count - 1],
                package,
                registry,
                depth,
            ) {
                Err(error) => Err(error),
                Ok(field) => Ok(fields.push(field)),
            },
        }
    }
}

/// Encoding of the instance at a row of a struct value under a descriptor: every column
/// must be declared; then each member is encoded, in declared order.
pub open spec fn instance_encoding(
    value: StructModel,
    row: int,
    members: Seq<MemberModel>,
    package: Seq<char>,
    registry: Map<MessageKey, Seq<MemberModel>>,
    depth: nat,
) -> Result<Seq<ValueModel>, ErrorModel>
    decreases depth, 7nat, 0nat,
{
    let at = first_undeclared(value.columns, members);
    if at < value.columns.len() {
        Err(ErrorModel::UnknownField { column: value.columns[at].name })
    } else {
        members_encoding(value, row, members, members.len(), package, registry, depth)
    }
}

/// Encoding of a value as one instance of a message type: the type must be registered,
/// the value must be a struct value of exactly one row, and that row is encoded under
/// the type's descriptor. Below the outermost message, `depth` further levels of nested
/// messages are followed.
pub open spec fn value_encoding(
    column: ColumnModel,
    package: Seq<char>,
    message_name: Seq<char>,
    registry: Map<MessageKey, Seq<MemberModel>>,
    depth: nat,
) -> Result<Seq<ValueModel>, ErrorModel> {
    if !registry.contains_key((package, message_name)) {
        Err(ErrorModel::UnknownMessageType { package, message_name })
    } else {
        match column {
            ColumnModel::Struct(value) => if value.rows == 0 {
                Err(ErrorModel::EmptyInput)
            } else if value.rows > 1 {
                Err(ErrorModel::MultipleInstances { rows: value.rows })
            } else {
                instance_encoding(
                    value,
                    0,
                    registry[(package, message_name)],
                    package,
                    registry,
                    depth,
                )
            },
            _ => Err(ErrorModel::TypeMismatch { field: Seq::empty() }),
        }
    }
}

/// Once an entry cannot be encoded, no longer run of entries can: the failure of the
/// first such entry stands.
pub proof fn lemma_encode_items_failure(
    items: ColumnModel,
    element: ElementModel,
    count: nat,
    longer: nat,
    field: Seq<char>,
    package: Seq<char>,
    registry: Map<MessageKey, Seq<MemberModel>>,
    depth: nat,
)
    requires
        count <= longer,
        items_encoding(items, element, count, field, package, registry, depth) is Err,
    ensures
        items_encoding(items, element, longer, field, package, registry, depth) == items_encoding(
            items,
            element,
            count,
            field,
            package,
            registry,
            depth,
        ),
    decreases longer,
{
    if count < longer {
        lemma_encode_items_failure(
            items,
            element,
            count,
            (longer - 1) as nat,
            field,
            package,
            registry,
            depth,
        );
    }
}

/// Once a member cannot be encoded, no longer list of members can: the failure of the
/// first such member stands.
pub proof fn lemma_encode_members_failure(
    value: StructModel,
    row: int,
    members: Seq<MemberModel>,
    count: nat,
    longer: nat,
    package: Seq<char>,
    registry: Map<MessageKey, Seq<MemberModel>>,
    depth: nat,
)
    requires
        count <= longer <= members.len(),
        members_encoding(value, row, members, count, package, registry, depth) is Err,
    ensures
        members_encoding(value, row, members, longer, package, registry, depth) == members_encoding(
            value,
            row,
            members,
            count,
            package,
            registry,
            depth,
        ),
    decreases longer,
{
    if count < longer {
        lemma_encode_members_failure(
            value,
            row,
            members,
            count,
            (longer - 1) as nat,
            package,
            registry,
            depth,
        );
    }
}

/// Whether the member at a position is the first that cannot be encoded, and `error`
/// is why.
pub open spec fn is_first_failing_member(
    at: int,
    error: ErrorModel,
    value: StructModel,
    row: int,
    members: Seq<MemberModel>,
    package: Seq<char>,
    registry: Map<MessageKey, Seq<MemberModel>>,
    depth: nat,
) -> bool {
    &&& 0 <= at < members.len()
    &&& member_encoding(value, row, members[at], package, registry, depth) == Err::<
        ValueModel,
        ErrorModel,
    >(error)
    &&& forall|j: int|
        0 <= j < at ==> member_encoding(
            value,
            row,
            #[trigger] members[j],
            package,
            registry,
            depth,
        ) is Ok
}

/// A record has one field per member, and each field is the encoding of the member at
/// its position. There is a record exactly if every member can be encoded; if not, the
/// failure is that of the first member that cannot.
pub proof fn lemma_fields_follow_members(
    value: StructModel,
    row: int,
    members: Seq<MemberModel>,
    count: nat,
    package: Seq<char>,
    registry: Map<MessageKey, Seq<MemberModel>>,
    depth: nat,
)
    requires
        count <= members.len(),
    ensures
        match members_encoding(value, row, members, count, package, registry, depth) {
            Ok(fields) => fields.len() == count && forall|k: int|
                0 <= k < count ==> member_encoding(
                    value,
                    row,
                    #[trigger] members[k],
                    package,
                    registry,
                    depth,
                ) == Ok::<ValueModel, ErrorModel>(fields[k]),
            Err(error) => exists|k: int|
                k < count && #[trigger] is_first_failing_member(
                    k,
                    error,
                    value,
                    row,
                    members,
                    package,
                    registry,
                    depth,
                ),
        },
    decreases count,
{
    if count > 0 {
        lemma_fields_follow_members(
            value,
            row,
            members,
            (count - 1) as nat,
            package,
            registry,
            depth,
        );
        let shorter = members_encoding(
            value,
            row,
            members,
            (count - 1) as nat,
            package,
            registry,
            depth,
        );
        let last = member_encoding(value, row, members[count - 1], package, registry, depth);
        match shorter {
            Err(error) => {
                let k = choose|k: int|
                    k < count - 1 && #[trigger] is_first_failing_member(
                        k,
                        error,
                        value,
                        row,
                        members,
                        package,
                        registry,
                        depth,
                    );
                assert(k < count);
            },
            Ok(fields) => match last {
                Err(error) => {
                    assert(is_first_failing_member(
                        count - 1,
                        error,
                        value,
                        row,
                        members,
                        package,
                        registry,
                        depth,
                    ));
                },
                Ok(field) => {},
            },
        }
    }
}

/// Leaf encoder for scalars: the entry at `row`, if the array stores the declared kind.
pub fn encode_primitive(
    column: &ColumnarValue,
    row: usize,
    kind: PrimitiveKind,
    field: &String,
) -> (encoded: Result<Value, EncodeError>)
    requires
        row < column@.len(),
    ensures
        value_outcome(encoded) == primitive_encoding(column@, row as int, kind, field@),
{
    match kind {
        PrimitiveKind::Bool => match column {
            ColumnarValue::Bool(values) => Ok(Value::Bool(values[row])),
            _ => Err(EncodeError::TypeMismatch { field: field.clone() }),
        },
        PrimitiveKind::Int8 => match column {
            ColumnarValue::Int8(values) => Ok(Value::Int8(values[row])),
            _ => Err(EncodeError::TypeMismatch { field: field.clone() }),
        },
        PrimitiveKind::Int16 => match column {
            ColumnarValue::Int16(values) => Ok(Value::Int16(values[row])),
            _ => Err(EncodeError::TypeMismatch { field: field.clone() }),
        },
        PrimitiveKind::Int32 => match column {
            ColumnarValue::Int32(values) => Ok(Value::Int32(values[row])),
            _ => Err(EncodeError::TypeMismatch { field: field.clone() }),
        },
        PrimitiveKind::Int64 => match column {
            ColumnarValue::Int64(values) => Ok(Value::Int64(values[row])),
            _ => Err(EncodeError::TypeMismatch { field: field.clone() }),
        },
        PrimitiveKind::UInt8 => match column {
            ColumnarValue::UInt8(values) => Ok(Value::UInt8(values[row])),
            _ => Err(EncodeError::TypeMismatch { field: field.clone() }),
        },
        PrimitiveKind::UInt16 => match column {
            ColumnarValue::UInt16(values) => Ok(Value::UInt16(values[row])),
            _ => Err(EncodeError::TypeMismatch { field: field.clone() }),
        },
        PrimitiveKind::UInt32 => match column {
            ColumnarValue::UInt32(values) => Ok(Value::UInt32(values[row])),
            _ => Err(EncodeError::TypeMismatch { field: field.clone() }),
        },
        PrimitiveKind::UInt64 => match column {
            ColumnarValue::UInt64(values) => Ok(Value::UInt64(values[row])),
            _ => Err(EncodeError::TypeMismatch { field: field.clone() }),
        },
        PrimitiveKind::Float32 => match column {
            ColumnarValue::Float32(values) => Ok(Value::Float32(values[row])),
            _ => Err(EncodeError::TypeMismatch { field: field.clone() }),
        },
        PrimitiveKind::Float64 => match column {
            ColumnarValue::Float64(values) => Ok(Value::Float64(values[row])),
            _ => Err(EncodeError::TypeMismatch { field: field.clone() }),
        },
        PrimitiveKind::Char => match column {
            ColumnarValue::UInt8(values) => Ok(Value::UInt8(values[row])),
            _ => Err(EncodeError::TypeMismatch { field: field.clone() }),
        },
        PrimitiveKind::Byte => match column {
            ColumnarValue::UInt8(values) => Ok(Value::UInt8(values[row])),
            _ => Err(EncodeError::TypeMismatch { field: field.clone() }),
        },
    }
}

/// Leaf encoder for strings: the text at `row`, taken from a narrow-offset array if the
/// array is one, else from a wide-offset array.
pub fn encode_string(
    column: &ColumnarValue,
    row: usize,
    kind: StringKind,
    field: &String,
) -> (encoded: Result<Value, EncodeError>)
    requires
        row < column@.len(),
    ensures
        value_outcome(encoded) == string_encoding(column@, row as int, kind, field@),
{
    match kind {
        StringKind::WString => {
            return Err(EncodeError::NotImplemented { field: field.clone() });
        },
        StringKind::BoundedWString(_) => {
            return Err(EncodeError::NotImplemented { field: field.clone() });
        },
        _ => {},
    }
    let text = match column {
        ColumnarValue::Utf8(texts) => texts[row].clone(),
        ColumnarValue::LargeUtf8(texts) => texts[row].clone(),
        _ => {
            return Err(EncodeError::TypeMismatch { field: field.clone() });
        },
    };
    match kind {
        StringKind::BoundedString(max_len) => {
            if text.as_str().unicode_len() > max_len {
                return Err(EncodeError::BoundViolation { field: field.clone() });
            }
        },
        _ => {},
    }
    Ok(Value::Text(text))
}

/// Whether a member of the given name is declared.
pub fn is_declared(members: &Vec<MemberDescriptor>, name: &String) -> (declared: bool)
    ensures
        declared == declares(members_view(members@), name@),
{
    let mut j: usize = 0;
    while j < members.len()
        invariant
            j <= members@.len(),
            forall|k: int| 0 <= k < j ==> (#[trigger] members_view(members@)[k]).name != name@,
        decreases members@.len() - j,
    {
        if members[j].name == *name {
            assert(members_view(members@)[j as int].name == name@);
            return true;
        }
        j = j + 1;
    }
    false
}

/// The first column that the descriptor does not declare, if there is one.
pub fn find_undeclared<'a>(
    value: &'a StructValue,
    members: &Vec<MemberDescriptor>,
) -> (found: Option<&'a Column>)
    ensures
        match found {
            Some(column) => {
                let at = first_undeclared(value@.columns, members_view(members@));
                at < value@.columns.len() && value@.columns[at] == column@
            },
            None => first_undeclared(value@.columns, members_view(members@))
                == value@.columns.len(),
        },
{
    let ghost declared = members_view(members@);
    let mut i: usize = 0;
    assert(value@.columns.skip(0) =~= value@.columns);
    while i < value.column_count()
        invariant
            i <= value@.columns.len(),
            declared == members_view(members@),
            first_undeclared(value@.columns, declared) == i + first_undeclared(
                value@.columns.skip(i as int),
                declared,
            ),
        decreases value@.columns.len() - i,
    {
        let column = value.column_at(i);
        proof {
            let rest = value@.columns.skip(i as int);
            assert(rest.drop_first() =~= value@.columns.skip(i + 1));
            assert(rest[0] == column@);
        }
        if !is_declared(members, &column.name) {
            return Some(column);
        }
        i = i + 1;
    }
    None
}

/// Encodes the instance at `row` of the array given for a member that refers to a
/// message type.
pub fn encode_message(
    column: &ColumnarValue,
    row: usize,
    field: &String,
    package: &String,
    message_name: &String,
    registry: &TypeRegistry,
    depth: usize,
) -> (encoded: Result<Vec<Value>, EncodeError>)
    requires
        row < column@.len(),
    ensures
        values_outcome(encoded) == message_encoding(
            column@,
            row as int,
            field@,
            package@,
            message_name@,
            registry@,
            depth as nat,
        ),
    decreases depth, 0nat, 0nat,
{
    if depth == 0 {
        return Err(
            EncodeError::CyclicType {
                package: package.clone(),
                message_name: message_name.clone(),
            },
        );
    }
    match registry.get(package, message_name) {
        None => Err(
            EncodeError::UnknownMessageType {
                package: package.clone(),
                message_name: message_name.clone(),
            },
        ),
        Some(descriptor) => match column {
            ColumnarValue::Struct(value) => encode_instance(
                value,
                row,
                &descriptor.members,
                package,
                registry,
                depth - 1,
            ),
            _ => Err(EncodeError::TypeMismatch { field: field.clone() }),
        },
    }
}

/// Encodes one value of a single-valued type: the entry at `row` of an array.
pub fn encode_element(
    column: &ColumnarValue,
    row: usize,
    element: &ElementType,
    field: &String,
    package: &String,
    registry: &TypeRegistry,
    depth: usize,
) -> (encoded: Result<Value, EncodeError>)
    requires
        row < column@.len(),
    ensures
        value_outcome(encoded) == element_encoding(
            column@,
            row as int,
            element@,
            field@,
            package@,
            registry@,
            depth as nat,
        ),
    decreases depth, 1nat, 0nat,
{
    match element {
        ElementType::Primitive(kind) => encode_primitive(column, row, *kind, field),
        ElementType::GenericString(kind) => encode_string(column, row, *kind, field),
        ElementType::NamedTypeRef(message_name) => {
            match encode_message(column, row, field, package, message_name, registry, depth) {
                Ok(fields) => Ok(Value::Struct(fields)),
                Err(error) => Err(error),
            }
        },
        ElementType::NamespacedTypeRef { package: other, message_name, namespace } => {
            if *namespace != String::from_str("msg") {
                return Err(EncodeError::UnsupportedNamespace { field: field.clone() });
            }
            match encode_message(column, row, field, other, message_name, registry, depth) {
                Ok(fields) => Ok(Value::Struct(fields)),
                Err(error) => Err(error),
            }
        },
    }
}

/// Encodes every entry of an array of elements, in array order.
pub fn encode_items(
    items: &ColumnarValue,
    element: &ElementType,
    field: &String,
    package: &String,
    registry: &TypeRegistry,
    depth: usize,
) -> (encoded: Result<Vec<Value>, EncodeError>)
    ensures
        values_outcome(encoded) == items_encoding(
            items@,
            element@,
            items@.len(),
            field@,
            package@,
            registry@,
            depth as nat,
        ),
    decreases depth, 2nat, 0nat,
{
    let count = items.len();
    let mut values: Vec<Value> = Vec::new();
    let mut i: usize = 0;
    assert(values_model(&values) =~= Seq::empty());
    while i < count
        invariant
            i <= count,
            count == items@.len(),
            items_encoding(items@, element@, i as nat, field@, package@, registry@, depth as nat)
                == Ok::<Seq<ValueModel>, ErrorModel>(values_model(&values)),
        decreases count - i,
    {
        match encode_element(items, i, element, field, package, registry, depth) {
            Err(error) => {
                proof {
                    lemma_encode_items_failure(
                        items@,
                        element@,
                        (i + 1) as nat,
                        count as nat,
                        field@,
                        package@,
                        registry@,
                        depth as nat,
                    );
                }
                return Err(error);
            },
            Ok(value) => {
                let ghost before = values_model(&values);
                let ghost model = value@;
                values.push(value);
                assert(values_model(&values) =~= before.push(model));
            },
        }
        i = i + 1;
    }
    Ok(values)
}

/// Leaf encoder for fixed arrays: the array of elements must have exactly `size`
/// entries, which are encoded in array order.
pub fn encode_fixed_array(
    items: &ColumnarValue,
    element: &ElementType,
    size: usize,
    field: &String,
    package: &String,
    registry: &TypeRegistry,
    depth: usize,
) -> (encoded: Result<Value, EncodeError>)
    ensures
        value_outcome(encoded) == fixed_array_encoding(
            items@,
            element@,
            size as nat,
            field@,
            package@,
            registry@,
            depth as nat,
        ),
    decreases depth, 3nat, 0nat,
{
    if items.len() != size {
        return Err(EncodeError::BoundViolation { field: field.clone() });
    }
    match encode_items(items, element, field, package, registry, depth) {
        Ok(values) => Ok(Value::Array(values)),
        Err(error) => Err(error),
    }
}

/// Leaf encoder for unbounded sequences: every entry of the array of elements, in
/// array order.
pub fn encode_sequence(
    items: &ColumnarValue,
    element: &ElementType,
    field: &String,
    package: &String,
    registry: &TypeRegistry,
    depth: usize,
) -> (encoded: Result<Value, EncodeError>)
    ensures
        value_outcome(encoded) == sequence_encoding(
            items@,
            element@,
            field@,
            package@,
            registry@,
            depth as nat,
        ),
    decreases depth, 3nat, 0nat,
{
    match encode_items(items, element, field, package, registry, depth) {
        Ok(values) => Ok(Value::Sequence(values)),
        Err(error) => Err(error),
    }
}

/// Leaf encoder for bounded sequences: the array of elements may have at most
/// `max_len` entries, which are encoded in array order.
pub fn encode_bounded_sequence(
    items: &ColumnarValue,
    element: &ElementType,
    max_len: usize,
    field: &String,
    package: &String,
    registry: &TypeRegistry,
    depth: usize,
) -> (encoded: Result<Value, EncodeError>)
    ensures
        value_outcome(encoded) == bounded_sequence_encoding(
            items@,
            element@,
            max_len as nat,
            field@,
            package@,
            registry@,
            depth as nat,
        ),
    decreases depth, 3nat, 0nat,
{
    if items.len() > max_len {
        return Err(EncodeError::BoundViolation { field: field.clone() });
    }
    match encode_items(items, element, field, package, registry, depth) {
        Ok(values) => Ok(Value::Sequence(values)),
        Err(error) => Err(error),
    }
}

/// Encodes a member from the array that holds it and the row of the instance: a single
/// value through the leaf encoders or the struct encoder, a collection from the array
/// of elements that the list array holds at the row.
pub fn encode_field(
    column: &ColumnarValue,
    row: usize,
    member: &MemberDescriptor,
    package: &String,
    registry: &TypeRegistry,
    depth: usize,
) -> (encoded: Result<Value, EncodeError>)
    requires
        row < column@.len(),
    ensures
        value_outcome(encoded) == field_encoding(
            column@,
            row as int,
            member@,
            package@,
            registry@,
            depth as nat,
        ),
    decreases depth, 4nat, 0nat,
{
    match &member.ty {
        MemberType::Single(element) => encode_element(
            column,
            row,
            element,
            &member.name,
            package,
            registry,
            depth,
        ),
        MemberType::FixedArray { element_type, size } => match column {
            ColumnarValue::List(lists) => encode_fixed_array(
                &lists[row],
                element_type,
                *size,
                &member.name,
                package,
                registry,
                depth,
            ),
            _ => Err(EncodeError::TypeMismatch { field: member.name.clone() }),
        },
        MemberType::Sequence { element_type } => match column {
            ColumnarValue::List(lists) => encode_sequence(
                &lists[row],
                element_type,
                &member.name,
                package,
                registry,
                depth,
            ),
            _ => Err(EncodeError::TypeMismatch { field: member.name.clone() }),
        },
        MemberType::BoundedSequence { element_type, max_len } => match column {
            ColumnarValue::List(lists) => encode_bounded_sequence(
                &lists[row],
                element_type,
                *max_len,
                &member.name,
                package,
                registry,
                depth,
            ),
            _ => Err(EncodeError::TypeMismatch { field: member.name.clone() }),
        },
    }
}

/// Encodes a member of the instance at `row` of a struct value: from the column of the
/// member's name if the value has one, else from a default made for the member.
pub fn encode_member(
    value: &StructValue,
    row: usize,
    member: &MemberDescriptor,
    package: &String,
    registry: &TypeRegistry,
    depth: usize,
) -> (encoded: Result<Value, EncodeError>)
    requires
        row < value@.rows,
    ensures
        value_outcome(encoded) == member_encoding(
            value@,
            row as int,
            member@,
            package@,
            registry@,
            depth as nat,
        ),
    decreases depth, 5nat, 0nat,
{
    match value.column_by_name(&member.name) {
        Some(column) => encode_field(column, row, member, package, registry, depth),
        None => match default_member(member, 1, package, registry, depth) {
            Err(error) => Err(error),
            Ok(column) => {
                proof {
                    lemma_default_rows(member@, 1, package@, registry@, depth as nat);
                }
                encode_field(&column, 0, member, package, registry, depth)
            },
        },
    }
}

/// Encodes the instance at `row` of a struct value under the members of a descriptor.
pub fn encode_instance(
    value: &StructValue,
    row: usize,
    members: &Vec<MemberDescriptor>,
    package: &String,
    registry: &TypeRegistry,
    depth: usize,
) -> (encoded: Result<Vec<Value>, EncodeError>)
    requires
        row < value@.rows,
    ensures
        values_outcome(encoded) == instance_encoding(
            value@,
            row as int,
            members_view(members@),
            package@,
            registry@,
            depth as nat,
        ),
    decreases depth, 7nat, 0nat,
{
    match find_undeclared(value, members) {
        Some(column) => {
            return Err(EncodeError::UnknownField { column: column.name.clone() });
        },
        None => {},
    }
    let ghost declared = members_view(members@);
    let mut fields: Vec<Value> = Vec::new();
    let mut i: usize = 0;
    assert(values_model(&fields) =~= Seq::empty());
    while i < members.len()
        invariant
            i <= members@.len(),
            row < value@.rows,
            declared == members_view(members@),
            first_undeclared(value@.columns, declared) == value@.columns.len(),
            members_encoding(
                value@,
                row as int,
                declared,
                i as nat,
                package@,
                registry@,
                depth as nat,
            ) == Ok::<Seq<ValueModel>, ErrorModel>(values_model(&fields)),
        decreases members@.len() - i,
    {
        match encode_member(value, row, &members[i], package, registry, depth) {
            Err(error) => {
                proof {
                    lemma_encode_members_failure(
                        value@,
                        row as int,
                        declared,
                        (i + 1) as nat,
                        declared.len(),
                        package@,
                        registry@,
                        depth as nat,
                    );
                }
                return Err(error);
            },
            Ok(field) => {
                let ghost before = values_model(&fields);
                let ghost model = field@;
                fields.push(field);
                assert(values_model(&fields) =~= before.push(model));
            },
        }
        i = i + 1;
    }
    Ok(fields)
}

/// A columnar value together with the message type that governs it.
pub struct TypedValue<'a> {
    pub value: &'a ColumnarValue,
    pub type_info: &'a TypeInfo<'a>,
}

impl<'a> TypedValue<'a> {
    /// Encodes the value as one instance of its message type.
    ///
    /// The result is a record with one field per declared member, in declared order,
    /// whatever the order of the columns. It is the first failure met instead if the
    /// type is not registered, the value is not a struct value of exactly one row, a
    /// column is not declared, or a member cannot be encoded.
    pub fn serialize(&self) -> (encoded: Result<Record, EncodeError>)
        ensures
            encoded matches Ok(record) ==> record@.len() == self.type_info.registry@[(
                self.type_info.package_name@,
                self.type_info.message_name@,
            )].len(),
            record_outcome(encoded) == value_encoding(
                self.value@,
                self.type_info.package_name@,
                self.type_info.message_name@,
                self.type_info.registry@,
                MAX_NESTING_DEPTH as nat,
            ),
    {
        encode(self.value, self.type_info)
    }
}

/// Encodes a columnar value as one instance of the message type that `type_info` names.
///
/// The steps, in this order: the message type is looked up; the value must be a struct
/// value, with exactly one row; every column must be declared by the type; then each
/// member is encoded in declared order, from its column or from a default. Nested
/// messages are followed `MAX_NESTING_DEPTH` levels deep.
pub fn encode(value: &ColumnarValue, type_info: &TypeInfo) -> (encoded: Result<
    Record,
    EncodeError,
>)
    ensures
        encoded matches Ok(record) ==> record@.len() == type_info.registry@[(
            type_info.package_name@,
            type_info.message_name@,
        )].len(),
        record_outcome(encoded) == value_encoding(
            value@,
            type_info.package_name@,
            type_info.message_name@,
            type_info.registry@,
            MAX_NESTING_DEPTH as nat,
        ),
{
    let registry = type_info.registry;
    proof {
        if registry@.contains_key((type_info.package_name@, type_info.message_name@)) {
            let members = registry@[(type_info.package_name@, type_info.message_name@)];
            if let ColumnModel::Struct(instance) = value@ {
                lemma_fields_follow_members(
                    instance,
                    0,
                    members,
                    members.len(),
                    type_info.package_name@,
                    registry@,
                    MAX_NESTING_DEPTH as nat,
                );
            }
        }
    }
    match registry.get(&type_info.package_name, &type_info.message_name) {
        None => Err(
            EncodeError::UnknownMessageType {
                package: type_info.package_name.clone(),
                message_name: type_info.message_name.clone(),
            },
        ),
        Some(descriptor) => match value {
            ColumnarValue::Struct(instance) => {
                let rows = instance.rows();
                if rows == 0 {
                    Err(EncodeError::EmptyInput)
                } else if rows > 1 {
                    Err(EncodeError::MultipleInstances { rows })
                } else {
                    match encode_instance(
                        instance,
                        0,
                        &descriptor.members,
                        &type_info.package_name,
                        registry,
                        MAX_NESTING_DEPTH,
                    ) {
                        Ok(fields) => Ok(Record { fields }),
                        Err(error) => Err(error),
                    }
                }
            },
            _ => Err(EncodeError::TypeMismatch { field: String::new() }),
        },
    }
}

} // verus!
