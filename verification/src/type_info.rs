//! What reflection tells about a type, held as plain values.
//!
//! Types are numbered: a type is referred to by its index in a [`TypeTable`],
//! and two references denote the same type exactly when the indices are equal.

use vstd::prelude::*;

use crate::text::{str_eq, starts_with};

verus! {

/// A named field of a struct or of a struct-like enum variant.
#[derive(Debug)]
pub struct NamedField {
    pub name: String,
    pub type_path: String,
    /// The field's type, when reflection knows it statically.
    pub type_info: Option<usize>,
    pub docs: Option<String>,
    /// Whether the field is filled in with a default value when it is missing.
    pub has_default: bool,
}

/// A field of a tuple, of a tuple struct or of a tuple-like enum variant.
#[derive(Debug)]
pub struct UnnamedField {
    pub type_path: String,
    /// The field's type, when reflection knows it statically.
    pub type_info: Option<usize>,
}

/// A variant of an enum.
#[derive(Debug)]
#[allow(inconsistent_fields)]
pub enum VariantInfo {
    Unit { name: String },
    Tuple { name: String, fields: Vec<UnnamedField> },
    Struct { name: String, fields: Vec<NamedField> },
}

/// The shape of a type.
#[derive(Debug)]
#[allow(inconsistent_fields)]
pub enum TypeKind {
    Struct { fields: Vec<NamedField> },
    TupleStruct { fields: Vec<UnnamedField> },
    Tuple { fields: Vec<UnnamedField> },
    List { item: Option<usize> },
    Array { item: Option<usize>, capacity: usize },
    SetType,
    MapType { value: Option<usize> },
    Enum { variants: Vec<VariantInfo> },
    Opaque,
}

/// The reflected description of one type.
#[derive(Debug)]
pub struct TypeInfo {
    pub type_path: String,
    pub docs: Option<String>,
    pub kind: TypeKind,
}

/// Every type that a description can reach, numbered by position.
#[derive(Debug)]
pub struct TypeTable {
    pub types: Vec<TypeInfo>,
    /// The entity type, when the table holds it.
    pub entity: Option<usize>,
}

/// What the registry holds of one type.
#[derive(Debug)]
pub struct Registration {
    pub type_id: usize,
    /// Whether the type deserializes through its own `Deserialize` impl.
    pub reflect_deserialize: bool,
    /// Whether the type carries serialization data (it skips some fields).
    pub serialization_data: bool,
}

/// The registered types.
#[derive(Debug)]
pub struct TypeRegistry {
    pub registrations: Vec<Registration>,
}

impl VariantInfo {
    /// The fields of a tuple variant; none for any other variant.
    pub open spec fn tuple_fields(self) -> Seq<UnnamedField> {
        match self {
            VariantInfo::Tuple { fields, .. } => fields@,
            _ => Seq::empty(),
        }
    }

    pub open spec fn name_spec(self) -> Seq<char> {
        match self {
            VariantInfo::Unit { name } => name@,
            VariantInfo::Tuple { name, .. } => name@,
            VariantInfo::Struct { name, .. } => name@,
        }
    }

    /// The variant's name.
    pub fn name(&self) -> (r: &String)
        ensures
            r@ == self.name_spec(),
    {
        match self {
            VariantInfo::Unit { name } => name,
            VariantInfo::Tuple { name, .. } => name,
            VariantInfo::Struct { name, .. } => name,
        }
    }
}

/// The index of the first variant named `name`.
pub open spec fn find_variant(variants: Seq<VariantInfo>, name: Seq<char>) -> Option<int>
    decreases variants.len(),
{
    if variants.len() == 0 {
        None
    } else {
        match find_variant(variants.drop_last(), name) {
            Some(i) => Some(i),
            None => if variants.last().name_spec() == name {
                Some(variants.len() - 1)
            } else {
                None
            },
        }
    }
}

/// The type path that reflection gives every `Option<T>`, up to `T`.
pub open spec fn option_path_prefix() -> Seq<char> {
    "core::option::Option<"@
}

/// The type path of the entity type.
pub open spec fn entity_path() -> Seq<char> {
    "bevy_ecs::entity::Entity"@
}

/// A type reference that stays inside a table of `n` types.
pub open spec fn ref_ok(r: Option<usize>, n: nat) -> bool {
    r matches Some(i) ==> i < n
}

pub open spec fn named_fields_ok(fields: Seq<NamedField>, n: nat) -> bool {
    forall|i: int| 0 <= i < fields.len() ==> ref_ok(#[trigger] fields[i].type_info, n)
}

pub open spec fn unnamed_fields_ok(fields: Seq<UnnamedField>, n: nat) -> bool {
    forall|i: int| 0 <= i < fields.len() ==> ref_ok(#[trigger] fields[i].type_info, n)
}

pub open spec fn variant_ok(v: VariantInfo, n: nat) -> bool {
    match v {
        VariantInfo::Unit { .. } => true,
        VariantInfo::Tuple { fields, .. } => unnamed_fields_ok(fields@, n),
        VariantInfo::Struct { fields, .. } => named_fields_ok(fields@, n),
    }
}

/// Every type that `info` refers to is in a table of `n` types.
pub open spec fn info_refs_ok(info: TypeInfo, n: nat) -> bool {
    match info.kind {
        TypeKind::Struct { fields } => named_fields_ok(fields@, n),
        TypeKind::TupleStruct { fields } => unnamed_fields_ok(fields@, n),
        TypeKind::Tuple { fields } => unnamed_fields_ok(fields@, n),
        TypeKind::List { item } => ref_ok(item, n),
        TypeKind::Array { item, .. } => ref_ok(item, n),
        TypeKind::SetType => true,
        TypeKind::MapType { value } => ref_ok(value, n),
        TypeKind::Enum { variants } => forall|i: int|
            0 <= i < variants@.len() ==> variant_ok(#[trigger] variants@[i], n),
        TypeKind::Opaque => true,
    }
}

impl TypeTable {
    pub open spec fn len_spec(self) -> nat {
        self.types@.len()
    }

    pub open spec fn info(self, id: usize) -> TypeInfo {
        self.types@[id as int]
    }

    /// The `T` of an `Option<T>`; `None` for any other type.
    pub open spec fn option_inner_spec(self, id: usize) -> Option<usize> {
        let info = self.info(id);
        if !option_path_prefix().is_prefix_of(info.type_path@) {
            None
        } else {
            match info.kind {
                TypeKind::Enum { variants } => match find_variant(variants@, "Some"@) {
                    Some(j) => match variants@[j] {
                        VariantInfo::Tuple { fields, .. } => if fields@.len() > 0 {
                            fields@[0].type_info
                        } else {
                            None
                        },
                        _ => None,
                    },
                    None => None,
                },
                _ => None,
            }
        }
    }

    /// Whether unwrapping `Option`s from `id` reaches a type that is no
    /// `Option` within `fuel` steps.
    pub open spec fn option_chain_ends(self, id: usize, fuel: nat) -> bool
        decreases fuel,
    {
        match self.option_inner_spec(id) {
            None => true,
            Some(inner) => fuel > 0 && self.option_chain_ends(inner, (fuel - 1) as nat),
        }
    }

    /// How many `Option`s wrap the type `id`, counting at most `fuel`.
    pub open spec fn option_depth(self, id: usize, fuel: nat) -> nat
        decreases fuel,
    {
        if fuel == 0 {
            0
        } else {
            match self.option_inner_spec(id) {
                None => 0,
                Some(inner) => 1 + self.option_depth(inner, (fuel - 1) as nat),
            }
        }
    }

    /// A table as reflection produces it: every reference stays inside the
    /// table, the entity type is the opaque `Entity`, and no `Option`
    /// contains itself.
    pub open spec fn wf(self) -> bool {
        &&& self.refs_ok()
        &&& self.entity_ok()
        &&& forall|i: usize|
            i < self.types@.len() ==> #[trigger] self.option_chain_ends(i, self.len_spec())
    }

    /// The entity type, where the table holds it, is opaque to reflection and
    /// has the path of `Entity`.
    pub open spec fn entity_ok(self) -> bool {
        self.entity matches Some(e) ==> e < self.types@.len() && self.types@[e as int].kind is Opaque
            && self.types@[e as int].type_path@ == entity_path()
    }

    /// Every reference of the table stays inside it.
    pub open spec fn refs_ok(self) -> bool {
        &&& ref_ok(self.entity, self.len_spec())
        &&& forall|i: int|
            0 <= i < self.types@.len() ==> info_refs_ok(#[trigger] self.types@[i], self.len_spec())
    }

    /// The number of types in the table.
    pub fn len(&self) -> (r: usize)
        ensures
            r == self.len_spec(),
    {
        self.types.len()
    }

    /// The `T` of an `Option<T>`, or `None` if the type isn't an `Option`.
    #[verifier::loop_isolation(false)]
    pub fn option_inner(&self, info: usize) -> (r: Option<usize>)
        requires
            info < self.len_spec(),
        ensures
            r == self.option_inner_spec(info),
    {
        let ty = &self.types[info];
        if !starts_with(ty.type_path.as_str(), "core::option::Option<") {
            return None;
        }
        match &ty.kind {
            TypeKind::Enum { variants } => {
                let mut i: usize = 0;
                while i < variants.len()
                    invariant
                        i <= variants@.len(),
                        find_variant(variants@.take(i as int), "Some"@) == None::<int>,
                    decreases variants@.len() - i,
                {
                    assert(variants@.take(i + 1).drop_last() =~= variants@.take(i as int));
                    if str_eq(variants[i].name().as_str(), "Some") {
                        proof {
                            assert(variants@.take(i + 1).last() == variants@[i as int]);
                            assert(find_variant(variants@.take(i + 1), "Some"@) == Some(i as int));
                            lemma_find_variant_prefix(variants@, i + 1, "Some"@);
                        }
                        return match &variants[i] {
                            VariantInfo::Tuple { fields, .. } => if fields.len() > 0 {
                                fields[0].type_info
                            } else {
                                None
                            },
                            _ => None,
                        };
                    }
                    i += 1;
                }
                assert(variants@.take(variants@.len() as int) =~= variants@);
                None
            },
            _ => None,
        }
    }
}

proof fn lemma_find_variant_prefix(variants: Seq<VariantInfo>, k: int, name: Seq<char>)
    requires
        0 < k <= variants.len(),
        find_variant(variants.take(k), name) == Some(k - 1),
    ensures
        find_variant(variants, name) == Some(k - 1),
    decreases variants.len(),
{
    if variants.len() > k {
        assert(variants.drop_last().take(k) =~= variants.take(k));
        lemma_find_variant_prefix(variants.drop_last(), k, name);
    } else {
        assert(variants.take(k) =~= variants);
    }
}

/// The index of the first registration of `id`.
pub open spec fn find_registration(regs: Seq<Registration>, id: usize) -> Option<int>
    decreases regs.len(),
{
    if regs.len() == 0 {
        None
    } else {
        match find_registration(regs.drop_last(), id) {
            Some(i) => Some(i),
            None => if regs.last().type_id == id {
                Some(regs.len() - 1)
            } else {
                None
            },
        }
    }
}

proof fn lemma_find_registration(regs: Seq<Registration>, id: usize, k: int)
    requires
        0 <= k <= regs.len(),
        forall|j: int| 0 <= j < k ==> regs[j].type_id != id,
    ensures
        k < regs.len() && regs[k].type_id == id ==> find_registration(regs, id) == Some(k),
        k == regs.len() ==> find_registration(regs, id) == None::<int>,
    decreases regs.len(),
{
    if regs.len() > 0 {
        if k < regs.len() {
            lemma_find_registration(regs.drop_last(), id, k);
        } else {
            lemma_find_registration(regs.drop_last(), id, k - 1);
        }
    }
}

impl TypeRegistry {
    /// The registration of `id`, if the type is registered.
    pub open spec fn lookup(self, id: usize) -> Option<Registration> {
        match find_registration(self.registrations@, id) {
            Some(i) => Some(self.registrations@[i]),
            None => None,
        }
    }

    /// Whether `id` is registered as deserializing through its own `Deserialize` impl.
    pub open spec fn deserializes_through_serde(self, id: usize) -> bool {
        self.lookup(id) matches Some(reg) && reg.reflect_deserialize
    }

    /// Whether `id` is registered with serialization data, which it has when it skips fields.
    pub open spec fn has_skipped_fields(self, id: usize) -> bool {
        self.lookup(id) matches Some(reg) && reg.serialization_data
    }

    /// The registration of `type_id`.
    pub fn get(&self, type_id: usize) -> (r: Option<&Registration>)
        ensures
            match r {
                Some(reg) => self.lookup(type_id) == Some(*reg),
                None => self.lookup(type_id) == None::<Registration>,
            },
    {
        let mut i: usize = 0;
        while i < self.registrations.len()
            invariant
                i <= self.registrations@.len(),
                forall|j: int| 0 <= j < i ==> self.registrations@[j].type_id != type_id,
            decreases self.registrations@.len() - i,
        {
            if self.registrations[i].type_id == type_id {
                proof {
                    lemma_find_registration(self.registrations@, type_id, i as int);
                }
                return Some(&self.registrations[i]);
            }
            i += 1;
        }
        proof {
            lemma_find_registration(self.registrations@, type_id, i as int);
        }
        None
    }
}

impl TypeTable {
    /// The single field of a newtype, which reflection serializes as just that field.
    pub open spec fn newtype_field_spec(self, registry: TypeRegistry, id: usize) -> Option<
        UnnamedField,
    > {
        match self.info(id).kind {
            TypeKind::TupleStruct { fields } => if fields@.len() == 1
                && !registry.has_skipped_fields(id) {
                Some(fields@[0])
            } else {
                None
            },
            _ => None,
        }
    }

    /// The variants of an enum type; none for any other type.
    pub open spec fn enum_variants(self, id: usize) -> Seq<VariantInfo> {
        match self.info(id).kind {
            TypeKind::Enum { variants } => variants@,
            _ => Seq::empty(),
        }
    }

    /// The fields of a struct type; none for any other type.
    pub open spec fn struct_fields(self, id: usize) -> Seq<NamedField> {
        match self.info(id).kind {
            TypeKind::Struct { fields } => fields@,
            _ => Seq::empty(),
        }
    }

    /// The fields of a tuple struct type; none for any other type.
    pub open spec fn tuple_struct_fields(self, id: usize) -> Seq<UnnamedField> {
        match self.info(id).kind {
            TypeKind::TupleStruct { fields } => fields@,
            _ => Seq::empty(),
        }
    }

    /// The fields of a tuple type; none for any other type.
    pub open spec fn tuple_type_fields(self, id: usize) -> Seq<UnnamedField> {
        match self.info(id).kind {
            TypeKind::Tuple { fields } => fields@,
            _ => Seq::empty(),
        }
    }

    /// Whether a params type has no fields: a unit struct, an empty tuple struct or `()`.
    pub open spec fn takes_no_params_spec(self, id: usize) -> bool {
        match self.info(id).kind {
            TypeKind::Struct { fields } => fields@.len() == 0,
            TypeKind::TupleStruct { fields } => fields@.len() == 0,
            TypeKind::Tuple { fields } => fields@.len() == 0,
            _ => false,
        }
    }
}

proof fn lemma_option_depth_stable(t: TypeTable, id: usize, f: nat, g: nat)
    requires
        t.option_chain_ends(id, f),
        f <= g,
    ensures
        t.option_depth(id, g) == t.option_depth(id, f),
    decreases f,
{
    if let Some(inner) = t.option_inner_spec(id) {
        lemma_option_depth_stable(t, inner, (f - 1) as nat, (g - 1) as nat);
    }
}

pub proof fn lemma_option_depth_bounded(t: TypeTable, id: usize, f: nat)
    ensures
        t.option_depth(id, f) <= f,
    decreases f,
{
    if f > 0 {
        if let Some(inner) = t.option_inner_spec(id) {
            lemma_option_depth_bounded(t, inner, (f - 1) as nat);
        }
    }
}

/// Unwrapping an `Option` leaves fewer `Option`s around the type.
pub proof fn lemma_option_depth_decreases(t: TypeTable, id: usize, inner: usize)
    requires
        t.wf(),
        id < t.len_spec(),
        t.option_inner_spec(id) == Some(inner),
    ensures
        t.option_depth(inner, t.len_spec()) < t.option_depth(id, t.len_spec()),
{
    let n = t.len_spec();
    assert(t.option_chain_ends(id, n));
    lemma_option_depth_stable(t, inner, (n - 1) as nat, n);
}

} // verus!

verus! {

proof fn lemma_find_variant_in_range(variants: Seq<VariantInfo>, name: Seq<char>)
    ensures
        find_variant(variants, name) matches Some(j) ==> 0 <= j < variants.len(),
    decreases variants.len(),
{
    if variants.len() > 0 {
        lemma_find_variant_in_range(variants.drop_last(), name);
    }
}

/// The `T` of an `Option<T>` is in the table.
pub proof fn lemma_option_inner_in_range(t: TypeTable, id: usize)
    requires
        t.refs_ok(),
        id < t.len_spec(),
    ensures
        ref_ok(t.option_inner_spec(id), t.len_spec()),
{
    let info = t.types@[id as int];
    assert(info_refs_ok(info, t.len_spec()));
    if let TypeKind::Enum { variants } = info.kind {
        lemma_find_variant_in_range(variants@, "Some"@);
        if let Some(j) = find_variant(variants@, "Some"@) {
            assert(variant_ok(variants@[j], t.len_spec()));
        }
    }
}

} // verus!

verus! {

fn ref_in(r: Option<usize>, n: usize) -> (b: bool)
    ensures
        b == ref_ok(r, n as nat),
{
    match r {
        Some(i) => i < n,
        None => true,
    }
}

fn named_fields_in(fields: &Vec<NamedField>, n: usize) -> (b: bool)
    ensures
        b == named_fields_ok(fields@, n as nat),
{
    let mut i: usize = 0;
    while i < fields.len()
        invariant
            i <= fields@.len(),
            forall|j: int| 0 <= j < i ==> ref_ok(#[trigger] fields@[j].type_info, n as nat),
        decreases fields@.len() - i,
    {
        if !ref_in(fields[i].type_info, n) {
            return false;
        }
        i += 1;
    }
    true
}

fn unnamed_fields_in(fields: &Vec<UnnamedField>, n: usize) -> (b: bool)
    ensures
        b == unnamed_fields_ok(fields@, n as nat),
{
    let mut i: usize = 0;
    while i < fields.len()
        invariant
            i <= fields@.len(),
            forall|j: int| 0 <= j < i ==> ref_ok(#[trigger] fields@[j].type_info, n as nat),
        decreases fields@.len() - i,
    {
        if !ref_in(fields[i].type_info, n) {
            return false;
        }
        i += 1;
    }
    true
}

#[verifier::loop_isolation(false)]
fn info_refs_in(info: &TypeInfo, n: usize) -> (b: bool)
    ensures
        b == info_refs_ok(*info, n as nat),
{
    match &info.kind {
        TypeKind::Struct { fields } => named_fields_in(fields, n),
        TypeKind::TupleStruct { fields } => unnamed_fields_in(fields, n),
        TypeKind::Tuple { fields } => unnamed_fields_in(fields, n),
        TypeKind::List { item } => ref_in(*item, n),
        TypeKind::Array { item, .. } => ref_in(*item, n),
        TypeKind::SetType => true,
        TypeKind::MapType { value } => ref_in(*value, n),
        TypeKind::Enum { variants } => {
            let mut i: usize = 0;
            while i < variants.len()
                invariant
                    i <= variants@.len(),
                    forall|j: int| 0 <= j < i ==> variant_ok(#[trigger] variants@[j], n as nat),
                decreases variants@.len() - i,
            {
                let ok = match &variants[i] {
                    VariantInfo::Unit { .. } => true,
                    VariantInfo::Tuple { fields, .. } => unnamed_fields_in(fields, n),
                    VariantInfo::Struct { fields, .. } => named_fields_in(fields, n),
                };
                if !ok {
                    assert(!variant_ok(variants@[i as int], n as nat));
                    return false;
                }
                i += 1;
            }
            true
        },
        TypeKind::Opaque => true,
    }
}

impl TypeTable {
    /// Whether unwrapping `Option`s from `id` ends within `fuel` steps.
    fn chain_ends(&self, id: usize, fuel: usize) -> (b: bool)
        requires
            self.refs_ok(),
            id < self.len_spec(),
        ensures
            b == self.option_chain_ends(id, fuel as nat),
    {
        let mut cur = id;
        let mut left = fuel;
        loop
            invariant
                self.refs_ok(),
                cur < self.len_spec(),
                left <= fuel,
                self.option_chain_ends(id, fuel as nat) == self.option_chain_ends(cur, left as nat),
            decreases left,
        {
            proof {
                lemma_option_inner_in_range(*self, cur);
            }
            match self.option_inner(cur) {
                None => return true,
                Some(inner) => {
                    if left == 0 {
                        return false;
                    }
                    cur = inner;
                    left -= 1;
                },
            }
        }
    }

    /// Whether the table is as reflection produces it: every reference stays
    /// inside the table, the entity type is the opaque `Entity`, and no
    /// `Option` contains itself.
    pub fn is_well_formed(&self) -> (b: bool)
        ensures
            b == self.wf(),
    {
        let n = self.types.len();
        if !ref_in(self.entity, n) {
            return false;
        }
        if let Some(e) = self.entity {
            let ty = &self.types[e];
            let opaque = match &ty.kind {
                TypeKind::Opaque => true,
                _ => false,
            };
            if !opaque || !str_eq(ty.type_path.as_str(), "bevy_ecs::entity::Entity") {
                return false;
            }
        }
        let mut i: usize = 0;
        while i < n
            invariant
                n == self.types@.len(),
                self.entity_ok(),
                i <= n,
                forall|j: int| 0 <= j < i ==> info_refs_ok(#[trigger] self.types@[j], n as nat),
            decreases n - i,
        {
            if !info_refs_in(&self.types[i], n) {
                return false;
            }
            i += 1;
        }
        let mut i: usize = 0;
        while i < n
            invariant
                n == self.types@.len(),
                self.refs_ok(),
                self.entity_ok(),
                i <= n,
                forall|j: usize| j < i ==> #[trigger] self.option_chain_ends(j, n as nat),
            decreases n - i,
        {
            if !self.chain_ends(i, n) {
                return false;
            }
            i += 1;
        }
        true
    }
}

} // verus!
