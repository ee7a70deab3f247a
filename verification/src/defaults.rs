//! Default values for members that an instance leaves out.

use crate::columnar::{
    list_model, texts_view, ColumnEntry, ColumnModel, ColumnarValue, StructModel, StructValue,
};
use crate::descriptor::{
    members_view, ElementModel, ElementType, MemberDescriptor, MemberModel, MemberType,
    MemberTypeModel, MessageKey, PrimitiveKind, StringKind, TypeRegistry,
};
use crate::error::{column_outcome, EncodeError, ErrorModel};
use vstd::prelude::*;

verus! {

/// How many levels of messages may nest below the outermost one. A message type that
/// contains itself has no finite default; it is given up at this depth.
pub const MAX_NESTING_DEPTH: usize = 32;

/// An array of `rows` zeros of a scalar kind: `false` for booleans, the all-zero bit
/// pattern for floating-point numbers. Characters and bytes are stored as unsigned 8-bit
/// integers.
pub open spec fn zero_array(kind: PrimitiveKind, rows: nat) -> ColumnModel {
    match kind {
        PrimitiveKind::Bool => ColumnModel::Bool(Seq::new(rows, |i: int| false)),
        PrimitiveKind::Int8 => ColumnModel::Int8(Seq::new(rows, |i: int| 0i8)),
        PrimitiveKind::Int16 => ColumnModel::Int16(Seq::new(rows, |i: int| 0i16)),
        PrimitiveKind::Int32 => ColumnModel::Int32(Seq::new(rows, |i: int| 0i32)),
        PrimitiveKind::Int64 => ColumnModel::Int64(Seq::new(rows, |i: int| 0i64)),
        PrimitiveKind::UInt8 => ColumnModel::UInt8(Seq::new(rows, |i: int| 0u8)),
        PrimitiveKind::UInt16 => ColumnModel::UInt16(Seq::new(rows, |i: int| 0u16)),
        PrimitiveKind::UInt32 => ColumnModel::UInt32(Seq::new(rows, |i: int| 0u32)),
        PrimitiveKind::UInt64 => ColumnModel::UInt64(Seq::new(rows, |i: int| 0u64)),
        PrimitiveKind::Float32 => ColumnModel::Float32(Seq::new(rows, |i: int| 0u32)),
        PrimitiveKind::Float64 => ColumnModel::Float64(Seq::new(rows, |i: int| 0u64)),
        PrimitiveKind::Char => ColumnModel::UInt8(Seq::new(rows, |i: int| 0u8)),
        PrimitiveKind::Byte => ColumnModel::UInt8(Seq::new(rows, |i: int| 0u8)),
    }
}

/// An array of `rows` empty texts.
pub open spec fn empty_text_array(rows: nat) -> ColumnModel {
    ColumnModel::Utf8(Seq::new(rows, |i: int| Seq::<char>::empty()))
}

/// An array without entries, of the kind that holds elements of the given type.
pub open spec fn empty_element_array(element: ElementModel) -> ColumnModel {
    match element {
        ElementModel::Primitive(kind) => zero_array(kind, 0),
        ElementModel::GenericString(_) => empty_text_array(0),
        ElementModel::NamedTypeRef(_) => ColumnModel::Struct(
            StructModel { rows: 0, columns: Seq::empty() },
        ),
        ElementModel::NamespacedTypeRef { .. } => ColumnModel::Struct(
            StructModel { rows: 0, columns: Seq::empty() },
        ),
    }
}

/// `rows` default instances of a message type: a struct value with one defaulted column
/// per member, in declared order. `field` is the member on whose behalf the default is
/// made.
pub open spec fn struct_default(
    field: Seq<char>,
    package: Seq<char>,
    message_name: Seq<char>,
    rows: nat,
    registry: Map<MessageKey, Seq<MemberModel>>,
    depth: nat,
) -> Result<ColumnModel, ErrorModel>
    decreases depth, 0nat, 0nat,
{
    if depth == 0 {
        Err(ErrorModel::CyclicType { package, message_name })
    } else if !registry.contains_key((package, message_name)) {
        Err(ErrorModel::NoDefaultAvailable { field })
    } else {
        let members = registry[(package, message_name)];
        match columns_default(members, members.len(), rows, package, registry, (depth - 1) as nat) {
            Err(error) => Err(error),
            Ok(columns) => Ok(ColumnModel::Struct(StructModel { rows, columns })),
        }
    }
}

/// `rows` defaults of a single-valued type.
pub open spec fn element_default(
    element: ElementModel,
    field: Seq<char>,
    rows: nat,
    package: Seq<char>,
    registry: Map<MessageKey, Seq<MemberModel>>,
    depth: nat,
) -> Result<ColumnModel, ErrorModel>
    decreases depth, 1nat, 0nat,
{
    match element {
        ElementModel::Primitive(kind) => Ok(zero_array(kind, rows)),
        ElementModel::GenericString(kind) => match kind {
            StringKind::String => Ok(empty_text_array(rows)),
            StringKind::BoundedString(_) => Ok(empty_text_array(rows)),
            StringKind::WString => Err(ErrorModel::NotImplemented { field }),
            StringKind::BoundedWString(_) => Err(ErrorModel::NotImplemented { field }),
        },
        ElementModel::NamedTypeRef(message_name) => struct_default(
            field,
            package,
            message_name,
            rows,
            registry,
            depth,
        ),
        ElementModel::NamespacedTypeRef { package: other, message_name, namespace } => {
            struct_default(field, other, message_name, rows, registry, depth)
        },
    }
}

/// `rows` defaults of a member: zeros, empty texts and default messages for single
/// values, lists of `size` element defaults for fixed arrays, empty lists for sequences.
pub open spec fn member_default(
    member: MemberModel,
    rows: nat,
    package: Seq<char>,
    registry: Map<MessageKey, Seq<MemberModel>>,
    depth: nat,
) -> Result<ColumnModel, ErrorModel>
    decreases depth, 2nat, 0nat,
{
    match member.ty {
        MemberTypeModel::Single(element) => element_default(
            element,
            member.name,
            rows,
            package,
            registry,
            depth,
        ),
        MemberTypeModel::FixedArray { element_type, size } => match element_default(
            element_type,
            member.name,
            size,
            package,
            registry,
            depth,
        ) {
            Err(error) => Err(error),
            Ok(items) => Ok(ColumnModel::List(Seq::new(rows, |i: int| items))),
        },
        MemberTypeModel::Sequence { element_type } => Ok(
            ColumnModel::List(Seq::new(rows, |i: int| empty_element_array(element_type))),
        ),
        MemberTypeModel::BoundedSequence { element_type, max_len } => Ok(
            ColumnModel::List(Seq::new(rows, |i: int| empty_element_array(element_type))),
        ),
    }
}

/// Defaulted columns for the first `count` members, or the failure of the first member
/// that has no default.
pub open spec fn columns_default(
    members: Seq<MemberModel>,
    count: nat,
    rows: nat,
    package: Seq<char>,
    registry: Map<MessageKey, Seq<MemberModel>>,
    depth: nat,
) -> Result<Seq<ColumnEntry>, ErrorModel>
    decreases depth, 3nat, count,
{
    if count == 0 || count > members.len() {
        Ok(Seq::empty())
    } else {
        match columns_default(members, (count - 1) as nat, rows, package, registry, depth) {
            Err(error) => Err(error),
            Ok(columns) => {
                let member = members[count - 1];
                match member_default(member, rows, package, registry, depth) {
                    Err(error) => Err(error),
                    Ok(data) => Ok(columns.push(ColumnEntry { name: member.name, data })),
                }
            },
        }
    }
}

/// A default that can be made has exactly the number of rows asked for.
pub proof fn lemma_default_rows(
    member: MemberModel,
    rows: nat,
    package: Seq<char>,
    registry: Map<MessageKey, Seq<MemberModel>>,
    depth: nat,
)
    ensures
        member_default(member, rows, package, registry, depth) matches Ok(column) ==> column.len()
            == rows,
{
    match member.ty {
        MemberTypeModel::Single(element) => {
            lemma_default_element_rows(element, member.name, rows, package, registry, depth);
        },
        _ => {},
    }
}

/// The same for a single-valued type.
pub proof fn lemma_default_element_rows(
    element: ElementModel,
    field: Seq<char>,
    rows: nat,
    package: Seq<char>,
    registry: Map<MessageKey, Seq<MemberModel>>,
    depth: nat,
)
    ensures
        element_default(element, field, rows, package, registry, depth) matches Ok(column)
            ==> column.len() == rows,
{
}

/// Once a member has no default, no longer list of members has defaulted columns: the
/// failure of the first such member stands.
pub proof fn lemma_default_columns_failure(
    members: Seq<MemberModel>,
    count: nat,
    longer: nat,
    rows: nat,
    package: Seq<char>,
    registry: Map<MessageKey, Seq<MemberModel>>,
    depth: nat,
)
    requires
        count <= longer <= members.len(),
        columns_default(members, count, rows, package, registry, depth) is Err,
    ensures
        columns_default(members, longer, rows, package, registry, depth) == columns_default(
            members,
            count,
            rows,
            package,
            registry,
            depth,
        ),
    decreases longer,
{
    if count < longer {
        lemma_default_columns_failure(
            members,
            count,
            (longer - 1) as nat,
            rows,
            package,
            registry,
            depth,
        );
    }
}

/// A vector that holds `item` `count` times.
fn repeated<T: Copy>(item: T, count: usize) -> (items: Vec<T>)
    ensures
        items@ == Seq::new(count as nat, |i: int| item),
{
    let mut items: Vec<T> = Vec::new();
    let mut i: usize = 0;
    while i < count
        invariant
            i <= count,
            items@ == Seq::new(i as nat, |j: int| item),
        decreases count - i,
    {
        items.push(item);
        i = i + 1;
        assert(items@ =~= Seq::new(i as nat, |j: int| item));
    }
    items
}

/// An array of `rows` zeros of a scalar kind.
pub fn zeros(kind: PrimitiveKind, rows: usize) -> (column: ColumnarValue)
    ensures
        column@ == zero_array(kind, rows as nat),
{
    match kind {
        PrimitiveKind::Bool => ColumnarValue::Bool(repeated(false, rows)),
        PrimitiveKind::Int8 => ColumnarValue::Int8(repeated(0i8, rows)),
        PrimitiveKind::Int16 => ColumnarValue::Int16(repeated(0i16, rows)),
        PrimitiveKind::Int32 => ColumnarValue::Int32(repeated(0i32, rows)),
        PrimitiveKind::Int64 => ColumnarValue::Int64(repeated(0i64, rows)),
        PrimitiveKind::UInt8 => ColumnarValue::UInt8(repeated(0u8, rows)),
        PrimitiveKind::UInt16 => ColumnarValue::UInt16(repeated(0u16, rows)),
        PrimitiveKind::UInt32 => ColumnarValue::UInt32(repeated(0u32, rows)),
        PrimitiveKind::UInt64 => ColumnarValue::UInt64(repeated(0u64, rows)),
        PrimitiveKind::Float32 => ColumnarValue::Float32(repeated(0u32, rows)),
        PrimitiveKind::Float64 => ColumnarValue::Float64(repeated(0u64, rows)),
        PrimitiveKind::Char => ColumnarValue::UInt8(repeated(0u8, rows)),
        PrimitiveKind::Byte => ColumnarValue::UInt8(repeated(0u8, rows)),
    }
}

/// An array of `rows` empty texts, in the narrow representation.
pub fn empty_texts(rows: usize) -> (column: ColumnarValue)
    ensures
        column@ == empty_text_array(rows as nat),
{
    let mut texts: Vec<String> = Vec::new();
    let mut i: usize = 0;
    while i < rows
        invariant
            i <= rows,
            texts@.len() == i,
            forall|j: int| 0 <= j < i ==> (#[trigger] texts@[j])@ == Seq::<char>::empty(),
        decreases rows - i,
    {
        texts.push(String::new());
        i = i + 1;
    }
    assert(texts_view(texts@) =~= Seq::new(rows as nat, |j: int| Seq::<char>::empty()));
    ColumnarValue::Utf8(texts)
}

/// An array without entries for elements of the given type.
pub fn empty_array(element: &ElementType) -> (column: ColumnarValue)
    ensures
        column@ == empty_element_array(element@),
{
    match element {
        ElementType::Primitive(kind) => zeros(*kind, 0),
        ElementType::GenericString(_) => empty_texts(0),
        ElementType::NamedTypeRef(_) => ColumnarValue::Struct(StructValue::new(0)),
        ElementType::NamespacedTypeRef { .. } => ColumnarValue::Struct(StructValue::new(0)),
    }
}

/// Makes `rows` default instances of a message type.
pub fn default_struct(
    field: &String,
    package: &String,
    message_name: &String,
    rows: usize,
    registry: &TypeRegistry,
    depth: usize,
) -> (made: Result<ColumnarValue, EncodeError>)
    ensures
        column_outcome(made) == struct_default(
            field@,
            package@,
            message_name@,
            rows as nat,
            registry@,
            depth as nat,
        ),
    decreases depth, 0nat, 0nat,
{
    if depth == 0 {
        return Err(
            EncodeError::CyclicType {
                package: package.clone(),
                message_name: message_name.clone(),
            },
        );
    }
    match registry.get(package, message_name) {
        None => Err(EncodeError::NoDefaultAvailable { field: field.clone() }),
        Some(descriptor) => {
            let ghost members = members_view(descriptor.members@);
            let mut value = StructValue::new(rows);
            let mut i: usize = 0;
            while i < descriptor.members.len()
                invariant
                    i <= descriptor.members@.len(),
                    depth > 0,
                    members == members_view(descriptor.members@),
                    registry@.contains_key((package@, message_name@)),
                    registry@[(package@, message_name@)] == members,
                    value@.rows == rows,
                    columns_default(
                        members,
                        i as nat,
                        rows as nat,
                        package@,
                        registry@,
                        (depth - 1) as nat,
                    ) == Ok::<Seq<ColumnEntry>, ErrorModel>(value@.columns),
                decreases descriptor.members@.len() - i,
            {
                let member = &descriptor.members[i];
                match default_member(member, rows, package, registry, depth - 1) {
                    Err(error) => {
                        proof {
                            lemma_default_columns_failure(
                                members,
                                (i + 1) as nat,
                                members.len(),
                                rows as nat,
                                package@,
                                registry@,
                                (depth - 1) as nat,
                            );
                        }
                        return Err(error);
                    },
                    Ok(data) => {
                        proof {
                            lemma_default_rows(
                                member@,
                                rows as nat,
                                package@,
                                registry@,
                                (depth - 1) as nat,
                            );
                        }
                        value = value.append_column(member.name.clone(), data);
                    },
                }
                i = i + 1;
            }
            Ok(ColumnarValue::Struct(value))
        },
    }
}

/// Makes `rows` defaults of a single-valued type.
pub fn default_element(
    element: &ElementType,
    field: &String,
    rows: usize,
    package: &String,
    registry: &TypeRegistry,
    depth: usize,
) -> (made: Result<ColumnarValue, EncodeError>)
    ensures
        column_outcome(made) == element_default(
            element@,
            field@,
            rows as nat,
            package@,
            registry@,
            depth as nat,
        ),
    decreases depth, 1nat, 0nat,
{
    match element {
        ElementType::Primitive(kind) => Ok(zeros(*kind, rows)),
        ElementType::GenericString(kind) => match kind {
            StringKind::String => Ok(empty_texts(rows)),
            StringKind::BoundedString(_) => Ok(empty_texts(rows)),
            StringKind::WString => Err(EncodeError::NotImplemented { field: field.clone() }),
            StringKind::BoundedWString(_) => Err(
                EncodeError::NotImplemented { field: field.clone() },
            ),
        },
        ElementType::NamedTypeRef(message_name) => default_struct(
            field,
            package,
            message_name,
            rows,
            registry,
            depth,
        ),
        ElementType::NamespacedTypeRef { package: other, message_name, namespace } => {
            default_struct(field, other, message_name, rows, registry, depth)
        },
    }
}

/// Makes `rows` defaults of a member.
pub fn default_member(
    member: &MemberDescriptor,
    rows: usize,
    package: &String,
    registry: &TypeRegistry,
    depth: usize,
) -> (made: Result<ColumnarValue, EncodeError>)
    ensures
        column_outcome(made) == member_default(
            member@,
            rows as nat,
            package@,
            registry@,
            depth as nat,
        ),
    decreases depth, 2nat, 0nat,
{
    match &member.ty {
        MemberType::Single(element) => default_element(
            element,
            &member.name,
            rows,
            package,
            registry,
            depth,
        ),
        MemberType::FixedArray { element_type, size } => {
            match default_element(element_type, &member.name, *size, package, registry, depth) {
                Err(error) => Err(error),
                Ok(first) => {
                    let ghost items = first@;
                    let mut list: Vec<ColumnarValue> = Vec::new();
                    let mut i: usize = 0;
                    while i < rows
                        invariant
                            i <= rows,
                            list@.len() == i,
                            forall|j: int| 0 <= j < i ==> (#[trigger] list@[j])@ == items,
                            element_default(
                                element_type@,
                                member.name@,
                                *size as nat,
                                package@,
                                registry@,
                                depth as nat,
                            ) == Ok::<ColumnModel, ErrorModel>(items),
                        decreases rows - i,
                    {
                        match default_element(
                            element_type,
                            &member.name,
                            *size,
                            package,
                            registry,
                            depth,
                        ) {
                            Err(error) => {
                                return Err(error);
                            },
                            Ok(again) => {
                                list.push(again);
                            },
                        }
                        i = i + 1;
                    }
                    assert(list_model(&list) =~= Seq::new(rows as nat, |i: int| items));
                    Ok(ColumnarValue::List(list))
                },
            }
        },
        MemberType::Sequence { element_type } => Ok(empty_lists(element_type, rows)),
        MemberType::BoundedSequence { element_type, max_len } => Ok(
            empty_lists(element_type, rows),
        ),
    }
}

/// A list array of `rows` rows, each an empty array of elements.
fn empty_lists(element: &ElementType, rows: usize) -> (column: ColumnarValue)
    ensures
        column@ == ColumnModel::List(Seq::new(rows as nat, |i: int| empty_element_array(element@))),
{
    let mut list: Vec<ColumnarValue> = Vec::new();
    let mut i: usize = 0;
    while i < rows
        invariant
            i <= rows,
            list@.len() == i,
            forall|j: int| 0 <= j < i ==> (#[trigger] list@[j])@ == empty_element_array(element@),
        decreases rows - i,
    {
        list.push(empty_array(element));
        i = i + 1;
    }
    assert(list_model(&list) =~= Seq::new(rows as nat, |i: int| empty_element_array(element@)));
    ColumnarValue::List(list)
}

/// The default value of a member that an instance leaves out: one row, as the encoder
/// makes it for a member of the outermost message.
pub fn synthesize(
    member: &MemberDescriptor,
    owning_package: &String,
    registry: &TypeRegistry,
) -> (made: Result<ColumnarValue, EncodeError>)
    ensures
        column_outcome(made) == member_default(
            member@,
            1,
            owning_package@,
            registry@,
            MAX_NESTING_DEPTH as nat,
        ),
{
    default_member(member, 1, owning_package, registry, MAX_NESTING_DEPTH)
}

} // verus!
