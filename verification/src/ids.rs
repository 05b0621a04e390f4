//! Ids of the schema's entities. An id holds one more than the index of its entity, so it
//! is never zero, and indices stay at most `2^29 - 1`, which leaves the upper bits of a
//! `u32` free for packing.
use vstd::prelude::*;

verus! {

/// The largest index an id can stand for: `2^29 - 1`.
pub const MAX_ID: usize = 536870911;

/// Identifies an entry of the schema's definitions.
#[derive(Clone, Copy, Debug, PartialEq, Eq, Structural, PartialOrd, Ord, Hash)]
pub struct DefinitionId(u32);

impl DefinitionId {
    #[verifier::type_invariant]
    spec fn never_zero(self) -> bool {
        0 < self.0 <= MAX_ID + 1
    }

    /// The index that the id stands for.
    pub closed spec fn index(self) -> nat {
        (self.0 - 1) as nat
    }

    /// The value the id holds; the derived order compares ids by it.
    pub closed spec fn held(self) -> u32 {
        self.0
    }

    /// An id holds one more than its index, so ids order as the indices they stand for.
    pub proof fn lemma_ordered_as_indices(a: Self, b: Self)
        requires
            a.held() > 0,
            b.held() > 0,
        ensures
            a.held() == a.index() + 1,
            (a.index() < b.index()) == (a.held() < b.held()),
            (a.index() == b.index()) == (a.held() == b.held()),
    {
    }

    /// The id of the entry at `index`; an index above `MAX_ID` (too many definitions) is refused.
    pub fn from_index(index: usize) -> (id: Self)
        requires
            index <= MAX_ID,
        ensures
            id.index() == index,
            id.held() == index + 1,
    {
        DefinitionId((index + 1) as u32)
    }
}

impl From<DefinitionId> for usize {
    fn from(id: DefinitionId) -> (index: usize)
        ensures
            index == id.index(),
            index <= MAX_ID,
    {
        proof {
            use_type_invariant(&id);
        }
        (id.0 - 1) as usize
    }
}

impl vstd::std_specs::convert::FromSpecImpl<DefinitionId> for usize {
    open spec fn obeys_from_spec() -> bool {
        true
    }

    open spec fn from_spec(id: DefinitionId) -> usize {
        id.index() as usize
    }
}

impl From<DefinitionId> for u32 {
    fn from(id: DefinitionId) -> (index: u32)
        ensures
            index == id.index(),
            index <= MAX_ID,
    {
        proof {
            use_type_invariant(&id);
        }
        id.0 - 1
    }
}

impl vstd::std_specs::convert::FromSpecImpl<DefinitionId> for u32 {
    open spec fn obeys_from_spec() -> bool {
        true
    }

    open spec fn from_spec(id: DefinitionId) -> u32 {
        id.index() as u32
    }
}

/// Identifies an entry of the schema's directives.
#[derive(Clone, Copy, Debug, PartialEq, Eq, Structural, PartialOrd, Ord, Hash)]
pub struct DirectiveId(u32);

impl DirectiveId {
    #[verifier::type_invariant]
    spec fn never_zero(self) -> bool {
        0 < self.0 <= MAX_ID + 1
    }

    /// The index that the id stands for.
    pub closed spec fn index(self) -> nat {
        (self.0 - 1) as nat
    }

    /// The value the id holds; the derived order compares ids by it.
    pub closed spec fn held(self) -> u32 {
        self.0
    }

    /// An id holds one more than its index, so ids order as the indices they stand for.
    pub proof fn lemma_ordered_as_indices(a: Self, b: Self)
        requires
            a.held() > 0,
            b.held() > 0,
        ensures
            a.held() == a.index() + 1,
            (a.index() < b.index()) == (a.held() < b.held()),
            (a.index() == b.index()) == (a.held() == b.held()),
    {
    }

    /// The id of the entry at `index`; an index above `MAX_ID` (too many directives) is refused.
    pub fn from_index(index: usize) -> (id: Self)
        requires
            index <= MAX_ID,
        ensures
            id.index() == index,
            id.held() == index + 1,
    {
        DirectiveId((index + 1) as u32)
    }
}

impl From<DirectiveId> for usize {
    fn from(id: DirectiveId) -> (index: usize)
        ensures
            index == id.index(),
            index <= MAX_ID,
    {
        proof {
            use_type_invariant(&id);
        }
        (id.0 - 1) as usize
    }
}

impl vstd::std_specs::convert::FromSpecImpl<DirectiveId> for usize {
    open spec fn obeys_from_spec() -> bool {
        true
    }

    open spec fn from_spec(id: DirectiveId) -> usize {
        id.index() as usize
    }
}

impl From<DirectiveId> for u32 {
    fn from(id: DirectiveId) -> (index: u32)
        ensures
            index == id.index(),
            index <= MAX_ID,
    {
        proof {
            use_type_invariant(&id);
        }
        id.0 - 1
    }
}

impl vstd::std_specs::convert::FromSpecImpl<DirectiveId> for u32 {
    open spec fn obeys_from_spec() -> bool {
        true
    }

    open spec fn from_spec(id: DirectiveId) -> u32 {
        id.index() as u32
    }
}

/// Identifies an entry of the schema's enum values.
#[derive(Clone, Copy, Debug, PartialEq, Eq, Structural, PartialOrd, Ord, Hash)]
pub struct EnumValueId(u32);

impl EnumValueId {
    #[verifier::type_invariant]
    spec fn never_zero(self) -> bool {
        0 < self.0 <= MAX_ID + 1
    }

    /// The index that the id stands for.
    pub closed spec fn index(self) -> nat {
        (self.0 - 1) as nat
    }

    /// The value the id holds; the derived order compares ids by it.
    pub closed spec fn held(self) -> u32 {
        self.0
    }

    /// An id holds one more than its index, so ids order as the indices they stand for.
    pub proof fn lemma_ordered_as_indices(a: Self, b: Self)
        requires
            a.held() > 0,
            b.held() > 0,
        ensures
            a.held() == a.index() + 1,
            (a.index() < b.index()) == (a.held() < b.held()),
            (a.index() == b.index()) == (a.held() == b.held()),
    {
    }

    /// The id of the entry at `index`; an index above `MAX_ID` (too many enum values) is refused.
    pub fn from_index(index: usize) -> (id: Self)
        requires
            index <= MAX_ID,
        ensures
            id.index() == index,
            id.held() == index + 1,
    {
        EnumValueId((index + 1) as u32)
    }
}

impl From<EnumValueId> for usize {
    fn from(id: EnumValueId) -> (index: usize)
        ensures
            index == id.index(),
            index <= MAX_ID,
    {
        proof {
            use_type_invariant(&id);
        }
        (id.0 - 1) as usize
    }
}

impl vstd::std_specs::convert::FromSpecImpl<EnumValueId> for usize {
    open spec fn obeys_from_spec() -> bool {
        true
    }

    open spec fn from_spec(id: EnumValueId) -> usize {
        id.index() as usize
    }
}

impl From<EnumValueId> for u32 {
    fn from(id: EnumValueId) -> (index: u32)
        ensures
            index == id.index(),
            index <= MAX_ID,
    {
        proof {
            use_type_invariant(&id);
        }
        id.0 - 1
    }
}

impl vstd::std_specs::convert::FromSpecImpl<EnumValueId> for u32 {
    open spec fn obeys_from_spec() -> bool {
        true
    }

    open spec fn from_spec(id: EnumValueId) -> u32 {
        id.index() as u32
    }
}

/// Identifies an entry of the schema's enums.
#[derive(Clone, Copy, Debug, PartialEq, Eq, Structural, PartialOrd, Ord, Hash)]
pub struct EnumId(u32);

impl EnumId {
    #[verifier::type_invariant]
    spec fn never_zero(self) -> bool {
        0 < self.0 <= MAX_ID + 1
    }

    /// The index that the id stands for.
    pub closed spec fn index(self) -> nat {
        (self.0 - 1) as nat
    }

    /// The value the id holds; the derived order compares ids by it.
    pub closed spec fn held(self) -> u32 {
        self.0
    }

    /// An id holds one more than its index, so ids order as the indices they stand for.
    pub proof fn lemma_ordered_as_indices(a: Self, b: Self)
        requires
            a.held() > 0,
            b.held() > 0,
        ensures
            a.held() == a.index() + 1,
            (a.index() < b.index()) == (a.held() < b.held()),
            (a.index() == b.index()) == (a.held() == b.held()),
    {
    }

    /// The id of the entry at `index`; an index above `MAX_ID` (too many enums) is refused.
    pub fn from_index(index: usize) -> (id: Self)
        requires
            index <= MAX_ID,
        ensures
            id.index() == index,
            id.held() == index + 1,
    {
        EnumId((index + 1) as u32)
    }
}

impl From<EnumId> for usize {
    fn from(id: EnumId) -> (index: usize)
        ensures
            index == id.index(),
            index <= MAX_ID,
    {
        proof {
            use_type_invariant(&id);
        }
        (id.0 - 1) as usize
    }
}

impl vstd::std_specs::convert::FromSpecImpl<EnumId> for usize {
    open spec fn obeys_from_spec() -> bool {
        true
    }

    open spec fn from_spec(id: EnumId) -> usize {
        id.index() as usize
    }
}

impl From<EnumId> for u32 {
    fn from(id: EnumId) -> (index: u32)
        ensures
            index == id.index(),
            index <= MAX_ID,
    {
        proof {
            use_type_invariant(&id);
        }
        id.0 - 1
    }
}

impl vstd::std_specs::convert::FromSpecImpl<EnumId> for u32 {
    open spec fn obeys_from_spec() -> bool {
        true
    }

    open spec fn from_spec(id: EnumId) -> u32 {
        id.index() as u32
    }
}

/// Identifies an entry of the schema's fields.
#[derive(Clone, Copy, Debug, PartialEq, Eq, Structural, PartialOrd, Ord, Hash)]
pub struct FieldId(u32);

impl FieldId {
    #[verifier::type_invariant]
    spec fn never_zero(self) -> bool {
        0 < self.0 <= MAX_ID + 1
    }

    /// The index that the id stands for.
    pub closed spec fn index(self) -> nat {
        (self.0 - 1) as nat
    }

    /// The value the id holds; the derived order compares ids by it.
    pub closed spec fn held(self) -> u32 {
        self.0
    }

    /// An id holds one more than its index, so ids order as the indices they stand for.
    pub proof fn lemma_ordered_as_indices(a: Self, b: Self)
        requires
            a.held() > 0,
            b.held() > 0,
        ensures
            a.held() == a.index() + 1,
            (a.index() < b.index()) == (a.held() < b.held()),
            (a.index() == b.index()) == (a.held() == b.held()),
    {
    }

    /// The id of the entry at `index`; an index above `MAX_ID` (too many fields) is refused.
    pub fn from_index(index: usize) -> (id: Self)
        requires
            index <= MAX_ID,
        ensures
            id.index() == index,
            id.held() == index + 1,
    {
        FieldId((index + 1) as u32)
    }
}

impl From<FieldId> for usize {
    fn from(id: FieldId) -> (index: usize)
        ensures
            index == id.index(),
            index <= MAX_ID,
    {
        proof {
            use_type_invariant(&id);
        }
        (id.0 - 1) as usize
    }
}

impl vstd::std_specs::convert::FromSpecImpl<FieldId> for usize {
    open spec fn obeys_from_spec() -> bool {
        true
    }

    open spec fn from_spec(id: FieldId) -> usize {
        id.index() as usize
    }
}

impl From<FieldId> for u32 {
    fn from(id: FieldId) -> (index: u32)
        ensures
            index == id.index(),
            index <= MAX_ID,
    {
        proof {
            use_type_invariant(&id);
        }
        id.0 - 1
    }
}

impl vstd::std_specs::convert::FromSpecImpl<FieldId> for u32 {
    open spec fn obeys_from_spec() -> bool {
        true
    }

    open spec fn from_spec(id: FieldId) -> u32 {
        id.index() as u32
    }
}

/// Identifies an entry of the schema's headers.
#[derive(Clone, Copy, Debug, PartialEq, Eq, Structural, PartialOrd, Ord, Hash)]
pub struct HeaderId(u32);

impl HeaderId {
    #[verifier::type_invariant]
    spec fn never_zero(self) -> bool {
        0 < self.0 <= MAX_ID + 1
    }

    /// The index that the id stands for.
    pub closed spec fn index(self) -> nat {
        (self.0 - 1) as nat
    }

    /// The value the id holds; the derived order compares ids by it.
    pub closed spec fn held(self) -> u32 {
        self.0
    }

    /// An id holds one more than its index, so ids order as the indices they stand for.
    pub proof fn lemma_ordered_as_indices(a: Self, b: Self)
        requires
            a.held() > 0,
            b.held() > 0,
        ensures
            a.held() == a.index() + 1,
            (a.index() < b.index()) == (a.held() < b.held()),
            (a.index() == b.index()) == (a.held() == b.held()),
    {
    }

    /// The id of the entry at `index`; an index above `MAX_ID` (too many headers) is refused.
    pub fn from_index(index: usize) -> (id: Self)
        requires
            index <= MAX_ID,
        ensures
            id.index() == index,
            id.held() == index + 1,
    {
        HeaderId((index + 1) as u32)
    }
}

impl From<HeaderId> for usize {
    fn from(id: HeaderId) -> (index: usize)
        ensures
            index == id.index(),
            index <= MAX_ID,
    {
        proof {
            use_type_invariant(&id);
        }
        (id.0 - 1) as usize
    }
}

impl vstd::std_specs::convert::FromSpecImpl<HeaderId> for usize {
    open spec fn obeys_from_spec() -> bool {
        true
    }

    open spec fn from_spec(id: HeaderId) -> usize {
        id.index() as usize
    }
}

impl From<HeaderId> for u32 {
    fn from(id: HeaderId) -> (index: u32)
        ensures
            index == id.index(),
            index <= MAX_ID,
    {
        proof {
            use_type_invariant(&id);
        }
        id.0 - 1
    }
}

impl vstd::std_specs::convert::FromSpecImpl<HeaderId> for u32 {
    open spec fn obeys_from_spec() -> bool {
        true
    }

    open spec fn from_spec(id: HeaderId) -> u32 {
        id.index() as u32
    }
}

/// Identifies an entry of the schema's input objects.
#[derive(Clone, Copy, Debug, PartialEq, Eq, Structural, PartialOrd, Ord, Hash)]
pub struct InputObjectId(u32);

impl InputObjectId {
    #[verifier::type_invariant]
    spec fn never_zero(self) -> bool {
        0 < self.0 <= MAX_ID + 1
    }

    /// The index that the id stands for.
    pub closed spec fn index(self) -> nat {
        (self.0 - 1) as nat
    }

    /// The value the id holds; the derived order compares ids by it.
    pub closed spec fn held(self) -> u32 {
        self.0
    }

    /// An id holds one more than its index, so ids order as the indices they stand for.
    pub proof fn lemma_ordered_as_indices(a: Self, b: Self)
        requires
            a.held() > 0,
            b.held() > 0,
        ensures
            a.held() == a.index() + 1,
            (a.index() < b.index()) == (a.held() < b.held()),
            (a.index() == b.index()) == (a.held() == b.held()),
    {
    }

    /// The id of the entry at `index`; an index above `MAX_ID` (too many input objects) is refused.
    pub fn from_index(index: usize) -> (id: Self)
        requires
            index <= MAX_ID,
        ensures
            id.index() == index,
            id.held() == index + 1,
    {
        InputObjectId((index + 1) as u32)
    }
}

impl From<InputObjectId> for usize {
    fn from(id: InputObjectId) -> (index: usize)
        ensures
            index == id.index(),
            index <= MAX_ID,
    {
        proof {
            use_type_invariant(&id);
        }
        (id.0 - 1) as usize
    }
}

impl vstd::std_specs::convert::FromSpecImpl<InputObjectId> for usize {
    open spec fn obeys_from_spec() -> bool {
        true
    }

    open spec fn from_spec(id: InputObjectId) -> usize {
        id.index() as usize
    }
}

impl From<InputObjectId> for u32 {
    fn from(id: InputObjectId) -> (index: u32)
        ensures
            index == id.index(),
            index <= MAX_ID,
    {
        proof {
            use_type_invariant(&id);
        }
        id.0 - 1
    }
}

impl vstd::std_specs::convert::FromSpecImpl<InputObjectId> for u32 {
    open spec fn obeys_from_spec() -> bool {
        true
    }

    open spec fn from_spec(id: InputObjectId) -> u32 {
        id.index() as u32
    }
}

/// Identifies an entry of the schema's input value definitions.
#[derive(Clone, Copy, Debug, PartialEq, Eq, Structural, PartialOrd, Ord, Hash)]
pub struct InputValueDefinitionId(u32);

impl InputValueDefinitionId {
    #[verifier::type_invariant]
    spec fn never_zero(self) -> bool {
        0 < self.0 <= MAX_ID + 1
    }

    /// The index that the id stands for.
    pub closed spec fn index(self) -> nat {
        (self.0 - 1) as nat
    }

    /// The value the id holds; the derived order compares ids by it.
    pub closed spec fn held(self) -> u32 {
        self.0
    }

    /// An id holds one more than its index, so ids order as the indices they stand for.
    pub proof fn lemma_ordered_as_indices(a: Self, b: Self)
        requires
            a.held() > 0,
            b.held() > 0,
        ensures
            a.held() == a.index() + 1,
            (a.index() < b.index()) == (a.held() < b.held()),
            (a.index() == b.index()) == (a.held() == b.held()),
    {
    }

    /// The id of the entry at `index`; an index above `MAX_ID` (too many input value definitions) is refused.
    pub fn from_index(index: usize) -> (id: Self)
        requires
            index <= MAX_ID,
        ensures
            id.index() == index,
            id.held() == index + 1,
    {
        InputValueDefinitionId((index + 1) as u32)
    }
}

impl From<InputValueDefinitionId> for usize {
    fn from(id: InputValueDefinitionId) -> (index: usize)
        ensures
            index == id.index(),
            index <= MAX_ID,
    {
        proof {
            use_type_invariant(&id);
        }
        (id.0 - 1) as usize
    }
}

impl vstd::std_specs::convert::FromSpecImpl<InputValueDefinitionId> for usize {
    open spec fn obeys_from_spec() -> bool {
        true
    }

    open spec fn from_spec(id: InputValueDefinitionId) -> usize {
        id.index() as usize
    }
}

impl From<InputValueDefinitionId> for u32 {
    fn from(id: InputValueDefinitionId) -> (index: u32)
        ensures
            index == id.index(),
            index <= MAX_ID,
    {
        proof {
            use_type_invariant(&id);
        }
        id.0 - 1
    }
}

impl vstd::std_specs::convert::FromSpecImpl<InputValueDefinitionId> for u32 {
    open spec fn obeys_from_spec() -> bool {
        true
    }

    open spec fn from_spec(id: InputValueDefinitionId) -> u32 {
        id.index() as u32
    }
}

/// Identifies an entry of the schema's interfaces.
#[derive(Clone, Copy, Debug, PartialEq, Eq, Structural, PartialOrd, Ord, Hash)]
pub struct InterfaceId(u32);

impl InterfaceId {
    #[verifier::type_invariant]
    spec fn never_zero(self) -> bool {
        0 < self.0 <= MAX_ID + 1
    }

    /// The index that the id stands for.
    pub closed spec fn index(self) -> nat {
        (self.0 - 1) as nat
    }

    /// The value the id holds; the derived order compares ids by it.
    pub closed spec fn held(self) -> u32 {
        self.0
    }

    /// An id holds one more than its index, so ids order as the indices they stand for.
    pub proof fn lemma_ordered_as_indices(a: Self, b: Self)
        requires
            a.held() > 0,
            b.held() > 0,
        ensures
            a.held() == a.index() + 1,
            (a.index() < b.index()) == (a.held() < b.held()),
            (a.index() == b.index()) == (a.held() == b.held()),
    {
    }

    /// The id of the entry at `index`; an index above `MAX_ID` (too many interfaces) is refused.
    pub fn from_index(index: usize) -> (id: Self)
        requires
            index <= MAX_ID,
        ensures
            id.index() == index,
            id.held() == index + 1,
    {
        InterfaceId((index + 1) as u32)
    }
}

impl From<InterfaceId> for usize {
    fn from(id: InterfaceId) -> (index: usize)
        ensures
            index == id.index(),
            index <= MAX_ID,
    {
        proof {
            use_type_invariant(&id);
        }
        (id.0 - 1) as usize
    }
}

impl vstd::std_specs::convert::FromSpecImpl<InterfaceId> for usize {
    open spec fn obeys_from_spec() -> bool {
        true
    }

    open spec fn from_spec(id: InterfaceId) -> usize {
        id.index() as usize
    }
}

impl From<InterfaceId> for u32 {
    fn from(id: InterfaceId) -> (index: u32)
        ensures
            index == id.index(),
            index <= MAX_ID,
    {
        proof {
            use_type_invariant(&id);
        }
        id.0 - 1
    }
}

impl vstd::std_specs::convert::FromSpecImpl<InterfaceId> for u32 {
    open spec fn obeys_from_spec() -> bool {
        true
    }

    open spec fn from_spec(id: InterfaceId) -> u32 {
        id.index() as u32
    }
}

/// Identifies an entry of the schema's objects.
#[derive(Clone, Copy, Debug, PartialEq, Eq, Structural, PartialOrd, Ord, Hash)]
pub struct ObjectId(u32);

impl ObjectId {
    #[verifier::type_invariant]
    spec fn never_zero(self) -> bool {
        0 < self.0 <= MAX_ID + 1
    }

    /// The index that the id stands for.
    pub closed spec fn index(self) -> nat {
        (self.0 - 1) as nat
    }

    /// The value the id holds; the derived order compares ids by it.
    pub closed spec fn held(self) -> u32 {
        self.0
    }

    /// An id holds one more than its index, so ids order as the indices they stand for.
    pub proof fn lemma_ordered_as_indices(a: Self, b: Self)
        requires
            a.held() > 0,
            b.held() > 0,
        ensures
            a.held() == a.index() + 1,
            (a.index() < b.index()) == (a.held() < b.held()),
            (a.index() == b.index()) == (a.held() == b.held()),
    {
    }

    /// The id of the entry at `index`; an index above `MAX_ID` (too many objects) is refused.
    pub fn from_index(index: usize) -> (id: Self)
        requires
            index <= MAX_ID,
        ensures
            id.index() == index,
            id.held() == index + 1,
    {
        ObjectId((index + 1) as u32)
    }
}

impl From<ObjectId> for usize {
    fn from(id: ObjectId) -> (index: usize)
        ensures
            index == id.index(),
            index <= MAX_ID,
    {
        proof {
            use_type_invariant(&id);
        }
        (id.0 - 1) as usize
    }
}

impl vstd::std_specs::convert::FromSpecImpl<ObjectId> for usize {
    open spec fn obeys_from_spec() -> bool {
        true
    }

    open spec fn from_spec(id: ObjectId) -> usize {
        id.index() as usize
    }
}

impl From<ObjectId> for u32 {
    fn from(id: ObjectId) -> (index: u32)
        ensures
            index == id.index(),
            index <= MAX_ID,
    {
        proof {
            use_type_invariant(&id);
        }
        id.0 - 1
    }
}

impl vstd::std_specs::convert::FromSpecImpl<ObjectId> for u32 {
    open spec fn obeys_from_spec() -> bool {
        true
    }

    open spec fn from_spec(id: ObjectId) -> u32 {
        id.index() as u32
    }
}

/// Identifies an entry of the schema's resolvers.
#[derive(Clone, Copy, Debug, PartialEq, Eq, Structural, PartialOrd, Ord, Hash)]
pub struct ResolverId(u32);

impl ResolverId {
    #[verifier::type_invariant]
    spec fn never_zero(self) -> bool {
        0 < self.0 <= MAX_ID + 1
    }

    /// The index that the id stands for.
    pub closed spec fn index(self) -> nat {
        (self.0 - 1) as nat
    }

    /// The value the id holds; the derived order compares ids by it.
    pub closed spec fn held(self) -> u32 {
        self.0
    }

    /// An id holds one more than its index, so ids order as the indices they stand for.
    pub proof fn lemma_ordered_as_indices(a: Self, b: Self)
        requires
            a.held() > 0,
            b.held() > 0,
        ensures
            a.held() == a.index() + 1,
            (a.index() < b.index()) == (a.held() < b.held()),
            (a.index() == b.index()) == (a.held() == b.held()),
    {
    }

    /// The id of the entry at `index`; an index above `MAX_ID` (too many resolvers) is refused.
    pub fn from_index(index: usize) -> (id: Self)
        requires
            index <= MAX_ID,
        ensures
            id.index() == index,
            id.held() == index + 1,
    {
        ResolverId((index + 1) as u32)
    }
}

impl From<ResolverId> for usize {
    fn from(id: ResolverId) -> (index: usize)
        ensures
            index == id.index(),
            index <= MAX_ID,
    {
        proof {
            use_type_invariant(&id);
        }
        (id.0 - 1) as usize
    }
}

impl vstd::std_specs::convert::FromSpecImpl<ResolverId> for usize {
    open spec fn obeys_from_spec() -> bool {
        true
    }

    open spec fn from_spec(id: ResolverId) -> usize {
        id.index() as usize
    }
}

impl From<ResolverId> for u32 {
    fn from(id: ResolverId) -> (index: u32)
        ensures
            index == id.index(),
            index <= MAX_ID,
    {
        proof {
            use_type_invariant(&id);
        }
        id.0 - 1
    }
}

impl vstd::std_specs::convert::FromSpecImpl<ResolverId> for u32 {
    open spec fn obeys_from_spec() -> bool {
        true
    }

    open spec fn from_spec(id: ResolverId) -> u32 {
        id.index() as u32
    }
}

/// Identifies an entry of the schema's scalars.
#[derive(Clone, Copy, Debug, PartialEq, Eq, Structural, PartialOrd, Ord, Hash)]
pub struct ScalarId(u32);

impl ScalarId {
    #[verifier::type_invariant]
    spec fn never_zero(self) -> bool {
        0 < self.0 <= MAX_ID + 1
    }

    /// The index that the id stands for.
    pub closed spec fn index(self) -> nat {
        (self.0 - 1) as nat
    }

    /// The value the id holds; the derived order compares ids by it.
    pub closed spec fn held(self) -> u32 {
        self.0
    }

    /// An id holds one more than its index, so ids order as the indices they stand for.
    pub proof fn lemma_ordered_as_indices(a: Self, b: Self)
        requires
            a.held() > 0,
            b.held() > 0,
        ensures
            a.held() == a.index() + 1,
            (a.index() < b.index()) == (a.held() < b.held()),
            (a.index() == b.index()) == (a.held() == b.held()),
    {
    }

    /// The id of the entry at `index`; an index above `MAX_ID` (too many scalars) is refused.
    pub fn from_index(index: usize) -> (id: Self)
        requires
            index <= MAX_ID,
        ensures
            id.index() == index,
            id.held() == index + 1,
    {
        ScalarId((index + 1) as u32)
    }
}

impl From<ScalarId> for usize {
    fn from(id: ScalarId) -> (index: usize)
        ensures
            index == id.index(),
            index <= MAX_ID,
    {
        proof {
            use_type_invariant(&id);
        }
        (id.0 - 1) as usize
    }
}

impl vstd::std_specs::convert::FromSpecImpl<ScalarId> for usize {
    open spec fn obeys_from_spec() -> bool {
        true
    }

    open spec fn from_spec(id: ScalarId) -> usize {
        id.index() as usize
    }
}

impl From<ScalarId> for u32 {
    fn from(id: ScalarId) -> (index: u32)
        ensures
            index == id.index(),
            index <= MAX_ID,
    {
        proof {
            use_type_invariant(&id);
        }
        id.0 - 1
    }
}

impl vstd::std_specs::convert::FromSpecImpl<ScalarId> for u32 {
    open spec fn obeys_from_spec() -> bool {
        true
    }

    open spec fn from_spec(id: ScalarId) -> u32 {
        id.index() as u32
    }
}

/// Identifies an entry of the schema's types.
#[derive(Clone, Copy, Debug, PartialEq, Eq, Structural, PartialOrd, Ord, Hash)]
pub struct TypeId(u32);

impl TypeId {
    #[verifier::type_invariant]
    spec fn never_zero(self) -> bool {
        0 < self.0 <= MAX_ID + 1
    }

    /// The index that the id stands for.
    pub closed spec fn index(self) -> nat {
        (self.0 - 1) as nat
    }

    /// The value the id holds; the derived order compares ids by it.
    pub closed spec fn held(self) -> u32 {
        self.0
    }

    /// An id holds one more than its index, so ids order as the indices they stand for.
    pub proof fn lemma_ordered_as_indices(a: Self, b: Self)
        requires
            a.held() > 0,
            b.held() > 0,
        ensures
            a.held() == a.index() + 1,
            (a.index() < b.index()) == (a.held() < b.held()),
            (a.index() == b.index()) == (a.held() == b.held()),
    {
    }

    /// The id of the entry at `index`; an index above `MAX_ID` (too many types) is refused.
    pub fn from_index(index: usize) -> (id: Self)
        requires
            index <= MAX_ID,
        ensures
            id.index() == index,
            id.held() == index + 1,
    {
        TypeId((index + 1) as u32)
    }
}

impl From<TypeId> for usize {
    fn from(id: TypeId) -> (index: usize)
        ensures
            index == id.index(),
            index <= MAX_ID,
    {
        proof {
            use_type_invariant(&id);
        }
        (id.0 - 1) as usize
    }
}

impl vstd::std_specs::convert::FromSpecImpl<TypeId> for usize {
    open spec fn obeys_from_spec() -> bool {
        true
    }

    open spec fn from_spec(id: TypeId) -> usize {
        id.index() as usize
    }
}

impl From<TypeId> for u32 {
    fn from(id: TypeId) -> (index: u32)
        ensures
            index == id.index(),
            index <= MAX_ID,
    {
        proof {
            use_type_invariant(&id);
        }
        id.0 - 1
    }
}

impl vstd::std_specs::convert::FromSpecImpl<TypeId> for u32 {
    open spec fn obeys_from_spec() -> bool {
        true
    }

    open spec fn from_spec(id: TypeId) -> u32 {
        id.index() as u32
    }
}

/// Identifies an entry of the schema's unions.
#[derive(Clone, Copy, Debug, PartialEq, Eq, Structural, PartialOrd, Ord, Hash)]
pub struct UnionId(u32);

impl UnionId {
    #[verifier::type_invariant]
    spec fn never_zero(self) -> bool {
        0 < self.0 <= MAX_ID + 1
    }

    /// The index that the id stands for.
    pub closed spec fn index(self) -> nat {
        (self.0 - 1) as nat
    }

    /// The value the id holds; the derived order compares ids by it.
    pub closed spec fn held(self) -> u32 {
        self.0
    }

    /// An id holds one more than its index, so ids order as the indices they stand for.
    pub proof fn lemma_ordered_as_indices(a: Self, b: Self)
        requires
            a.held() > 0,
            b.held() > 0,
        ensures
            a.held() == a.index() + 1,
            (a.index() < b.index()) == (a.held() < b.held()),
            (a.index() == b.index()) == (a.held() == b.held()),
    {
    }

    /// The id of the entry at `index`; an index above `MAX_ID` (too many unions) is refused.
    pub fn from_index(index: usize) -> (id: Self)
        requires
            index <= MAX_ID,
        ensures
            id.index() == index,
            id.held() == index + 1,
    {
        UnionId((index + 1) as u32)
    }
}

impl From<UnionId> for usize {
    fn from(id: UnionId) -> (index: usize)
        ensures
            index == id.index(),
            index <= MAX_ID,
    {
        proof {
            use_type_invariant(&id);
        }
        (id.0 - 1) as usize
    }
}

impl vstd::std_specs::convert::FromSpecImpl<UnionId> for usize {
    open spec fn obeys_from_spec() -> bool {
        true
    }

    open spec fn from_spec(id: UnionId) -> usize {
        id.index() as usize
    }
}

impl From<UnionId> for u32 {
    fn from(id: UnionId) -> (index: u32)
        ensures
            index == id.index(),
            index <= MAX_ID,
    {
        proof {
            use_type_invariant(&id);
        }
        id.0 - 1
    }
}

impl vstd::std_specs::convert::FromSpecImpl<UnionId> for u32 {
    open spec fn obeys_from_spec() -> bool {
        true
    }

    open spec fn from_spec(id: UnionId) -> u32 {
        id.index() as u32
    }
}

/// Identifies an entry of the schema's urls.
#[derive(Clone, Copy, Debug, PartialEq, Eq, Structural, PartialOrd, Ord, Hash)]
pub struct UrlId(u32);

impl UrlId {
    #[verifier::type_invariant]
    spec fn never_zero(self) -> bool {
        0 < self.0 <= MAX_ID + 1
    }

    /// The index that the id stands for.
    pub closed spec fn index(self) -> nat {
        (self.0 - 1) as nat
    }

    /// The value the id holds; the derived order compares ids by it.
    pub closed spec fn held(self) -> u32 {
        self.0
    }

    /// An id holds one more than its index, so ids order as the indices they stand for.
    pub proof fn lemma_ordered_as_indices(a: Self, b: Self)
        requires
            a.held() > 0,
            b.held() > 0,
        ensures
            a.held() == a.index() + 1,
            (a.index() < b.index()) == (a.held() < b.held()),
            (a.index() == b.index()) == (a.held() == b.held()),
    {
    }

    /// The id of the entry at `index`; an index above `MAX_ID` (too many urls) is refused.
    pub fn from_index(index: usize) -> (id: Self)
        requires
            index <= MAX_ID,
        ensures
            id.index() == index,
            id.held() == index + 1,
    {
        UrlId((index + 1) as u32)
    }
}

impl From<UrlId> for usize {
    fn from(id: UrlId) -> (index: usize)
        ensures
            index == id.index(),
            index <= MAX_ID,
    {
        proof {
            use_type_invariant(&id);
        }
        (id.0 - 1) as usize
    }
}

impl vstd::std_specs::convert::FromSpecImpl<UrlId> for usize {
    open spec fn obeys_from_spec() -> bool {
        true
    }

    open spec fn from_spec(id: UrlId) -> usize {
        id.index() as usize
    }
}

impl From<UrlId> for u32 {
    fn from(id: UrlId) -> (index: u32)
        ensures
            index == id.index(),
            index <= MAX_ID,
    {
        proof {
            use_type_invariant(&id);
        }
        id.0 - 1
    }
}

impl vstd::std_specs::convert::FromSpecImpl<UrlId> for u32 {
    open spec fn obeys_from_spec() -> bool {
        true
    }

    open spec fn from_spec(id: UrlId) -> u32 {
        id.index() as u32
    }
}

/// Identifies an entry of the schema's strings.
#[derive(Clone, Copy, Debug, PartialEq, Eq, Structural, PartialOrd, Ord, Hash)]
pub struct StringId(u32);

impl StringId {
    #[verifier::type_invariant]
    spec fn never_zero(self) -> bool {
        0 < self.0 <= MAX_ID + 1
    }

    /// The index that the id stands for.
    pub closed spec fn index(self) -> nat {
        (self.0 - 1) as nat
    }

    /// The value the id holds; the derived order compares ids by it.
    pub closed spec fn held(self) -> u32 {
        self.0
    }

    /// An id holds one more than its index, so ids order as the indices they stand for.
    pub proof fn lemma_ordered_as_indices(a: Self, b: Self)
        requires
            a.held() > 0,
            b.held() > 0,
        ensures
            a.held() == a.index() + 1,
            (a.index() < b.index()) == (a.held() < b.held()),
            (a.index() == b.index()) == (a.held() == b.held()),
    {
    }

    /// The id of the entry at `index`; an index above `MAX_ID` (too many strings) is refused.
    pub fn from_index(index: usize) -> (id: Self)
        requires
            index <= MAX_ID,
        ensures
            id.index() == index,
            id.held() == index + 1,
    {
        StringId((index + 1) as u32)
    }
}

impl From<StringId> for usize {
    fn from(id: StringId) -> (index: usize)
        ensures
            index == id.index(),
            index <= MAX_ID,
    {
        proof {
            use_type_invariant(&id);
        }
        (id.0 - 1) as usize
    }
}

impl vstd::std_specs::convert::FromSpecImpl<StringId> for usize {
    open spec fn obeys_from_spec() -> bool {
        true
    }

    open spec fn from_spec(id: StringId) -> usize {
        id.index() as usize
    }
}

impl From<StringId> for u32 {
    fn from(id: StringId) -> (index: u32)
        ensures
            index == id.index(),
            index <= MAX_ID,
    {
        proof {
            use_type_invariant(&id);
        }
        id.0 - 1
    }
}

impl vstd::std_specs::convert::FromSpecImpl<StringId> for u32 {
    open spec fn obeys_from_spec() -> bool {
        true
    }

    open spec fn from_spec(id: StringId) -> u32 {
        id.index() as u32
    }
}

/// Identifies an entry of the federation data source's subgraphs.
#[derive(Clone, Copy, Debug, PartialEq, Eq, Structural, PartialOrd, Ord, Hash)]
pub struct SubgraphId(u32);

impl SubgraphId {
    #[verifier::type_invariant]
    spec fn never_zero(self) -> bool {
        0 < self.0 <= MAX_ID + 1
    }

    /// The index that the id stands for.
    pub closed spec fn index(self) -> nat {
        (self.0 - 1) as nat
    }

    /// The value the id holds; the derived order compares ids by it.
    pub closed spec fn held(self) -> u32 {
        self.0
    }

    /// An id holds one more than its index, so ids order as the indices they stand for.
    pub proof fn lemma_ordered_as_indices(a: Self, b: Self)
        requires
            a.held() > 0,
            b.held() > 0,
        ensures
            a.held() == a.index() + 1,
            (a.index() < b.index()) == (a.held() < b.held()),
            (a.index() == b.index()) == (a.held() == b.held()),
    {
    }

    /// The id of the entry at `index`; an index above `MAX_ID` (too many subgraphs) is refused.
    pub fn from_index(index: usize) -> (id: Self)
        requires
            index <= MAX_ID,
        ensures
            id.index() == index,
            id.held() == index + 1,
    {
        SubgraphId((index + 1) as u32)
    }
}

impl From<SubgraphId> for usize {
    fn from(id: SubgraphId) -> (index: usize)
        ensures
            index == id.index(),
            index <= MAX_ID,
    {
        proof {
            use_type_invariant(&id);
        }
        (id.0 - 1) as usize
    }
}

impl vstd::std_specs::convert::FromSpecImpl<SubgraphId> for usize {
    open spec fn obeys_from_spec() -> bool {
        true
    }

    open spec fn from_spec(id: SubgraphId) -> usize {
        id.index() as usize
    }
}

impl From<SubgraphId> for u32 {
    fn from(id: SubgraphId) -> (index: u32)
        ensures
            index == id.index(),
            index <= MAX_ID,
    {
        proof {
            use_type_invariant(&id);
        }
        id.0 - 1
    }
}

impl vstd::std_specs::convert::FromSpecImpl<SubgraphId> for u32 {
    open spec fn obeys_from_spec() -> bool {
        true
    }

    open spec fn from_spec(id: SubgraphId) -> u32 {
        id.index() as u32
    }
}

/// Identifies an entry of the schema's cache configs.
#[derive(Clone, Copy, Debug, PartialEq, Eq, Structural, PartialOrd, Ord, Hash)]
pub struct CacheConfigId(u32);

impl CacheConfigId {
    #[verifier::type_invariant]
    spec fn never_zero(self) -> bool {
        0 < self.0 <= MAX_ID + 1
    }

    /// The index that the id stands for.
    pub closed spec fn index(self) -> nat {
        (self.0 - 1) as nat
    }

    /// The value the id holds; the derived order compares ids by it.
    pub closed spec fn held(self) -> u32 {
        self.0
    }

    /// An id holds one more than its index, so ids order as the indices they stand for.
    pub proof fn lemma_ordered_as_indices(a: Self, b: Self)
        requires
            a.held() > 0,
            b.held() > 0,
        ensures
            a.held() == a.index() + 1,
            (a.index() < b.index()) == (a.held() < b.held()),
            (a.index() == b.index()) == (a.held() == b.held()),
    {
    }

    /// The id of the entry at `index`; an index above `MAX_ID` (too many cache configs) is refused.
    pub fn from_index(index: usize) -> (id: Self)
        requires
            index <= MAX_ID,
        ensures
            id.index() == index,
            id.held() == index + 1,
    {
        CacheConfigId((index + 1) as u32)
    }
}

impl From<CacheConfigId> for usize {
    fn from(id: CacheConfigId) -> (index: usize)
        ensures
            index == id.index(),
            index <= MAX_ID,
    {
        proof {
            use_type_invariant(&id);
        }
        (id.0 - 1) as usize
    }
}

impl vstd::std_specs::convert::FromSpecImpl<CacheConfigId> for usize {
    open spec fn obeys_from_spec() -> bool {
        true
    }

    open spec fn from_spec(id: CacheConfigId) -> usize {
        id.index() as usize
    }
}

impl From<CacheConfigId> for u32 {
    fn from(id: CacheConfigId) -> (index: u32)
        ensures
            index == id.index(),
            index <= MAX_ID,
    {
        proof {
            use_type_invariant(&id);
        }
        id.0 - 1
    }
}

impl vstd::std_specs::convert::FromSpecImpl<CacheConfigId> for u32 {
    open spec fn obeys_from_spec() -> bool {
        true
    }

    open spec fn from_spec(id: CacheConfigId) -> u32 {
        id.index() as u32
    }
}

} // verus!
