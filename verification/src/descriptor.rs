//! Message descriptors and the registry that holds them.

use vstd::prelude::*;

verus! {

/// Scalar kinds a member can have.
#[derive(Clone, Copy, Debug, PartialEq, Eq, Structural)]
pub enum PrimitiveKind {
    Bool,
    Int8,
    Int16,
    Int32,
    Int64,
    UInt8,
    UInt16,
    UInt32,
    UInt64,
    Float32,
    Float64,
    Char,
    Byte,
}

/// The four string flavours; the bounded ones carry their maximum length in characters.
#[derive(Clone, Copy, Debug, PartialEq, Eq, Structural)]
pub enum StringKind {
    String,
    BoundedString(usize),
    WString,
    BoundedWString(usize),
}

/// The type of a single value: what a plain member holds, and what a collection holds
/// per element.
#[derive(Clone, Debug, PartialEq, Eq)]
pub enum ElementType {
    Primitive(PrimitiveKind),
    GenericString(StringKind),
    /// Another message of the same package.
    NamedTypeRef(String),
    /// A message of another package; only the namespace `msg` can be encoded.
    NamespacedTypeRef { package: String, message_name: String, namespace: String },
}

/// The declared type of a member.
#[derive(Clone, Debug, PartialEq, Eq)]
pub enum MemberType {
    Single(ElementType),
    FixedArray { element_type: ElementType, size: usize },
    Sequence { element_type: ElementType },
    BoundedSequence { element_type: ElementType, max_len: usize },
}

/// A member of a message: its name and its declared type.
#[derive(Clone, Debug, PartialEq, Eq)]
pub struct MemberDescriptor {
    pub name: String,
    pub ty: MemberType,
}

/// One message type: its identity and its members in wire order.
#[derive(Clone, Debug, PartialEq, Eq)]
pub struct MessageDescriptor {
    pub package: String,
    pub name: String,
    pub members: Vec<MemberDescriptor>,
}

/// The view of an [`ElementType`].
pub enum ElementModel {
    Primitive(PrimitiveKind),
    GenericString(StringKind),
    NamedTypeRef(Seq<char>),
    NamespacedTypeRef { package: Seq<char>, message_name: Seq<char>, namespace: Seq<char> },
}

/// The view of a [`MemberType`].
pub enum MemberTypeModel {
    Single(ElementModel),
    FixedArray { element_type: ElementModel, size: nat },
    Sequence { element_type: ElementModel },
    BoundedSequence { element_type: ElementModel, max_len: nat },
}

/// The view of a [`MemberDescriptor`].
pub struct MemberModel {
    pub name: Seq<char>,
    pub ty: MemberTypeModel,
}

/// The view of a [`MessageDescriptor`].
pub struct MessageModel {
    pub package: Seq<char>,
    pub name: Seq<char>,
    pub members: Seq<MemberModel>,
}

/// Registry keys: package name, then message name.
pub type MessageKey = (Seq<char>, Seq<char>);

impl View for ElementType {
    type V = ElementModel;

    open spec fn view(&self) -> ElementModel {
        match self {
            ElementType::Primitive(kind) => ElementModel::Primitive(*kind),
            ElementType::GenericString(kind) => ElementModel::GenericString(*kind),
            ElementType::NamedTypeRef(name) => ElementModel::NamedTypeRef(name@),
            ElementType::NamespacedTypeRef { package, message_name, namespace } => {
                ElementModel::NamespacedTypeRef {
                    package: package@,
                    message_name: message_name@,
                    namespace: namespace@,
                }
            },
        }
    }
}

impl View for MemberType {
    type V = MemberTypeModel;

    open spec fn view(&self) -> MemberTypeModel {
        match self {
            MemberType::Single(element) => MemberTypeModel::Single(element@),
            MemberType::FixedArray { element_type, size } => MemberTypeModel::FixedArray {
                element_type: element_type@,
                size: *size as nat,
            },
            MemberType::Sequence { element_type } => MemberTypeModel::Sequence {
                element_type: element_type@,
            },
            MemberType::BoundedSequence { element_type, max_len } => {
                MemberTypeModel::BoundedSequence {
                    element_type: element_type@,
                    max_len: *max_len as nat,
                }
            },
        }
    }
}

impl View for MemberDescriptor {
    type V = MemberModel;

    open spec fn view(&self) -> MemberModel {
        MemberModel { name: self.name@, ty: self.ty@ }
    }
}

/// The members of a descriptor as a sequence of models, in declared order.
pub open spec fn members_view(members: Seq<MemberDescriptor>) -> Seq<MemberModel> {
    Seq::new(members.len(), |i: int| members[i]@)
}

impl View for MessageDescriptor {
    type V = MessageModel;

    open spec fn view(&self) -> MessageModel {
        MessageModel {
            package: self.package@,
            name: self.name@,
            members: members_view(self.members@),
        }
    }
}

/// The mapping that a list of descriptors stands for: a later descriptor replaces an
/// earlier one with the same package and name.
pub open spec fn registry_map(entries: Seq<MessageModel>) -> Map<MessageKey, Seq<MemberModel>>
    decreases entries.len(),
{
    if entries.len() == 0 {
        Map::empty()
    } else {
        let last = entries.last();
        registry_map(entries.drop_last()).insert((last.package, last.name), last.members)
    }
}

/// All known message types, addressed by package and message name.
pub struct TypeRegistry {
    entries: Vec<MessageDescriptor>,
}

impl View for TypeRegistry {
    type V = Map<MessageKey, Seq<MemberModel>>;

    closed spec fn view(&self) -> Map<MessageKey, Seq<MemberModel>> {
        registry_map(self.models())
    }
}

impl TypeRegistry {
    /// The descriptors in the order in which they were registered.
    spec fn models(&self) -> Seq<MessageModel> {
        Seq::new(self.entries@.len(), |i: int| self.entries@[i]@)
    }

    /// A registry without any message type.
    pub fn new() -> (registry: TypeRegistry)
        ensures
            registry@ == Map::<MessageKey, Seq<MemberModel>>::empty(),
    {
        TypeRegistry { entries: Vec::new() }
    }

    /// Registers a descriptor under its package and name, replacing any descriptor
    /// registered under the same pair before.
    pub fn insert(&mut self, descriptor: MessageDescriptor)
        ensures
            final(self)@ == old(self)@.insert(
                (descriptor@.package, descriptor@.name),
                descriptor@.members,
            ),
    {
        let ghost before = self.models();
        self.entries.push(descriptor);
        proof {
            assert(self.models().drop_last() =~= before);
            assert(self.models().last() == descriptor@);
        }
    }

    /// Looks a message type up. The result is the registered descriptor exactly when
    /// the pair is registered.
    pub fn get(&self, package: &String, name: &String) -> (found: Option<&MessageDescriptor>)
        ensures
            match found {
                Some(descriptor) => self@.contains_key((package@, name@))
                    && self@[(package@, name@)] == descriptor@.members
                    && descriptor@.package == package@
                    && descriptor@.name == name@,
                None => !self@.contains_key((package@, name@)),
            },
    {
        let ghost key = (package@, name@);
        let ghost all = self.models();
        let mut i: usize = self.entries.len();
        assert(all.take(i as int) =~= all);
        while i > 0
            invariant
                i <= self.entries.len(),
                all == self.models(),
                key == (package@, name@),
                registry_map(all).contains_key(key) == registry_map(
                    all.take(i as int),
                ).contains_key(key),
                registry_map(all).contains_key(key) ==> registry_map(all)[key] == registry_map(
                    all.take(i as int),
                )[key],
            decreases i,
        {
            let entry = &self.entries[i - 1];
            proof {
                let prefix = all.take(i as int);
                assert(prefix.drop_last() =~= all.take(i - 1));
                assert(prefix.last() == entry@);
            }
            if entry.package == *package && entry.name == *name {
                return Some(entry);
            }
            i = i - 1;
        }
        None
    }
}

/// Which descriptor governs a value: a message of a package, looked up in a registry.
pub struct TypeInfo<'a> {
    pub package_name: String,
    pub message_name: String,
    pub registry: &'a TypeRegistry,
}

} // verus!
