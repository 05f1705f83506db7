//! The intermediate representation of an API description from which client
//! code is generated: type definitions, their names and derives, and the
//! references between them.
use vstd::prelude::*;
use crate::text::{owned, str_eq};

verus! {

/// A type's name, given by the description or made up by the generator.
pub enum Name {
    Provided(String),
    Generated(String),
}

/// The text of a name.
pub open spec fn name_text(n: Name) -> Seq<char> {
    match n {
        Name::Provided(s) => s@,
        Name::Generated(s) => s@,
    }
}

impl Name {
    /// A provided name (`Name::from(String)`).
    pub fn from_string(s: String) -> (n: Name)
        ensures
            n matches Name::Provided(t) && t@ == s@,
    {
        Name::Provided(s)
    }

    /// The text of the name.
    pub fn as_str(&self) -> (r: &str)
        ensures
            r@ == name_text(*self),
    {
        match self {
            Name::Provided(s) => s.as_str(),
            Name::Generated(s) => s.as_str(),
        }
    }

    /// Replaces the text, keeping whether the name was generated.
    pub fn set_string(&mut self, new_name: String)
        ensures
            name_text(*final(self)) == new_name@,
            (*final(self) is Generated) == (*old(self) is Generated),
    {
        match self {
            Name::Provided(_) => {
                *self = Name::Provided(new_name);
            },
            Name::Generated(_) => {
                *self = Name::Generated(new_name);
            },
        }
    }

    /// Whether the generator made the name up.
    pub fn is_generated(&self) -> (b: bool)
        ensures
            b == (*self is Generated),
    {
        match self {
            Name::Generated(_) => true,
            Name::Provided(_) => false,
        }
    }
}

/// A scalar type.
#[derive(PartialEq, Eq, Structural, Clone, Copy, Debug)]
pub enum PrimitiveType {
    String,
    Integer,
    Number,
    Boolean,
    Date,
    DateTime,
}

/// The type of a field, a parameter or a variant.
pub enum TypeIr {
    /// A named type definition.
    Reference(String),
    Primitive(PrimitiveType),
    Array(Box<TypeIr>),
    /// A map from strings to the inner type.
    MapOf(Box<TypeIr>),
    /// Any JSON value.
    Value,
    /// A named enum definition.
    Enum(String),
}

/// Mathematical view of a `TypeIr`.
pub enum TypeV {
    Reference(Seq<char>),
    Primitive(PrimitiveType),
    Array(Box<TypeV>),
    MapOf(Box<TypeV>),
    Value,
    Enum(Seq<char>),
}

impl TypeIr {
    pub open spec fn to_v(&self) -> TypeV
        decreases self,
    {
        match self {
            TypeIr::Reference(n) => TypeV::Reference(n@),
            TypeIr::Primitive(p) => TypeV::Primitive(*p),
            TypeIr::Array(b) => TypeV::Array(Box::new((**b).to_v())),
            TypeIr::MapOf(b) => TypeV::MapOf(Box::new((**b).to_v())),
            TypeIr::Value => TypeV::Value,
            TypeIr::Enum(n) => TypeV::Enum(n@),
        }
    }
}

impl View for TypeIr {
    type V = TypeV;

    open spec fn view(&self) -> TypeV {
        self.to_v()
    }
}

/// The views of a list of renames `(old, new)`.
pub open spec fn renames_view(rn: Seq<(String, String)>) -> Seq<(Seq<char>, Seq<char>)> {
    rn.map_values(|p: (String, String)| (p.0@, p.1@))
}

/// The new name of `n` under `rn` (the first rename of `n`), if any.
pub open spec fn rename_of(rn: Seq<(Seq<char>, Seq<char>)>, n: Seq<char>) -> Option<Seq<char>>
    decreases rn.len(),
{
    if rn.len() == 0 {
        None
    } else if rn[0].0 == n {
        Some(rn[0].1)
    } else {
        rename_of(rn.drop_first(), n)
    }
}

/// `n` renamed under `rn`, or unchanged.
pub open spec fn renamed_name(rn: Seq<(Seq<char>, Seq<char>)>, n: Seq<char>) -> Seq<char> {
    match rename_of(rn, n) {
        Some(m) => m,
        None => n,
    }
}

/// A type with every referenced name renamed under `rn`.
pub open spec fn renamed(t: TypeV, rn: Seq<(Seq<char>, Seq<char>)>) -> TypeV
    decreases t,
{
    match t {
        TypeV::Reference(n) => TypeV::Reference(renamed_name(rn, n)),
        TypeV::Enum(n) => TypeV::Enum(renamed_name(rn, n)),
        TypeV::Array(b) => TypeV::Array(Box::new(renamed(*b, rn))),
        TypeV::MapOf(b) => TypeV::MapOf(Box::new(renamed(*b, rn))),
        TypeV::Primitive(p) => TypeV::Primitive(p),
        TypeV::Value => TypeV::Value,
    }
}

fn rename_name(n: &String, renames: &Vec<(String, String)>) -> (r: String)
    ensures
        r@ == renamed_name(renames_view(renames@), n@),
{
    let ghost rv = renames_view(renames@);
    proof {
        assert(rv.skip(0) =~= rv);
    }
    for i in 0..renames.len()
        invariant
            rv == renames_view(renames@),
            rename_of(rv, n@) == rename_of(rv.skip(i as int), n@),
    {
        proof {
            assert(rv.skip(i as int).drop_first() =~= rv.skip(i + 1));
            assert(rv.skip(i as int)[0] == (renames@[i as int].0@, renames@[i as int].1@));
        }
        if str_eq(renames[i].0.as_str(), n.as_str()) {
            return owned(renames[i].1.as_str());
        }
    }
    proof {
        assert(rv.skip(renames@.len() as int) =~= Seq::<(Seq<char>, Seq<char>)>::empty());
    }
    owned(n.as_str())
}

fn renamed_type(t: &TypeIr, renames: &Vec<(String, String)>) -> (r: TypeIr)
    ensures
        r@ == renamed(t@, renames_view(renames@)),
    decreases t,
{
    match t {
        TypeIr::Reference(n) => TypeIr::Reference(rename_name(n, renames)),
        TypeIr::Enum(n) => TypeIr::Enum(rename_name(n, renames)),
        TypeIr::Array(b) => TypeIr::Array(Box::new(renamed_type(&**b, renames))),
        TypeIr::MapOf(b) => TypeIr::MapOf(Box::new(renamed_type(&**b, renames))),
        TypeIr::Primitive(p) => TypeIr::Primitive(*p),
        TypeIr::Value => TypeIr::Value,
    }
}

impl TypeIr {
    /// Whether a value of the type has a `Default` (every type does).
    pub fn can_derive_default(&self) -> (b: bool)
        ensures
            b,
    {
        match self {
            TypeIr::Reference(_) | TypeIr::Enum(_) | TypeIr::Primitive(_) | TypeIr::Array(_) | TypeIr::MapOf(
                _,
            ) | TypeIr::Value => true,
        }
    }

    /// Renames every referenced type definition found in `renames`.
    pub fn update_reference(&mut self, renames: &Vec<(String, String)>)
        ensures
            final(self)@ == renamed(old(self)@, renames_view(renames@)),
    {
        let r = renamed_type(self, renames);
        *self = r;
    }

    /// A primitive type (`TypeIr::from(PrimitiveType)`).
    pub fn from_primitive(p: PrimitiveType) -> (t: TypeIr)
        ensures
            t@ == TypeV::Primitive(p),
    {
        TypeIr::Primitive(p)
    }
}

/// A validation rule on a field. Bounds of a float range are kept as the
/// bit patterns of their `f64` values (`f64::to_bits`).
#[derive(PartialEq, Eq, Structural, Clone, Copy, Debug)]
pub enum ValidationIr {
    Length { min: Option<u64>, max: Option<u64> },
    FloatRange { min: Option<u64>, max: Option<u64> },
    IntRange { min: Option<i64>, max: Option<i64> },
}

/// A field of a struct.
pub struct FieldIr {
    /// The name in JSON.
    pub name: String,
    /// The snake-case identifier.
    pub rust_name: String,
    pub type_info: TypeIr,
    pub required: bool,
    pub validation: Vec<ValidationIr>,
    pub serde_rename: Option<String>,
    pub description: Option<String>,
}

/// The snake-case form of a name, as `heck::ToSnakeCase` produces it.
pub uninterp spec fn snake_case(s: Seq<char>) -> Seq<char>;

/// Calls `heck::ToSnakeCase::to_snake_case`; its result is named `snake_case`.
#[verifier::external_body]
fn to_snake_case(s: &str) -> (r: String)
    ensures
        r@ == snake_case(s@),
{
    heck::ToSnakeCase::to_snake_case(s)
}

impl FieldIr {
    /// A field named `name` in JSON: its identifier is the snake-case form,
    /// and it is renamed for serde when that differs from `name`.
    pub fn new(
        name: &str,
        type_info: TypeIr,
        required: bool,
        validation: Vec<ValidationIr>,
        description: Option<String>,
    ) -> (f: FieldIr)
        ensures
            f.name@ == name@,
            f.rust_name@ == snake_case(name@),
            snake_case(name@) == name@ ==> f.serde_rename is None,
            snake_case(name@) != name@ ==> (f.serde_rename matches Some(r) && r@ == name@),
            f.type_info == type_info,
            f.required == required,
            f.validation == validation,
            f.description == description,
    {
        let rust_name = to_snake_case(name);
        FieldIr::from_names(name, rust_name, type_info, required, validation, description)
    }

    /// A field named `name` in JSON with the identifier `rust_name`; it is
    /// renamed for serde when the two differ.
    pub fn from_names(
        name: &str,
        rust_name: String,
        type_info: TypeIr,
        required: bool,
        validation: Vec<ValidationIr>,
        description: Option<String>,
    ) -> (f: FieldIr)
        ensures
            f.name@ == name@,
            f.rust_name == rust_name,
            rust_name@ == name@ ==> f.serde_rename is None,
            rust_name@ != name@ ==> (f.serde_rename matches Some(r) && r@ == name@),
            f.type_info == type_info,
            f.required == required,
            f.validation == validation,
            f.description == description,
    {
        let serde_rename = if str_eq(name, rust_name.as_str()) {
            None
        } else {
            Some(owned(name))
        };
        FieldIr { name: owned(name), serde_rename, rust_name, type_info, required, validation, description }
    }
}

/// A variant of a string enum.
pub struct EnumVariantIr {
    pub name: String,
    pub rust_name: String,
    pub value: String,
    pub description: Option<String>,
}

/// A variant of an `anyOf` union.
pub struct VariantIr {
    pub name: String,
    pub type_info: TypeIr,
}

/// A struct definition.
pub struct StructIr {
    pub name: Name,
    pub fields: Vec<FieldIr>,
    pub derives: Vec<String>,
    pub description: Option<String>,
    pub additional_properties_type: Option<TypeIr>,
}

/// A string enum definition.
pub struct EnumIr {
    pub name: Name,
    pub variants: Vec<EnumVariantIr>,
    pub derives: Vec<String>,
    pub rename_all: Option<String>,
    pub description: Option<String>,
}

/// A newtype around another type.
pub struct NewtypeIr {
    pub name: Name,
    pub target: TypeIr,
    pub derives: Vec<String>,
    pub description: Option<String>,
}

/// A type alias.
pub struct AliasIr {
    pub name: Name,
    pub target: TypeIr,
    pub description: Option<String>,
    pub derives: Vec<String>,
}

/// An `anyOf` union.
pub struct AnyOfIr {
    pub name: Name,
    pub variants: Vec<VariantIr>,
    pub derives: Vec<String>,
    pub description: Option<String>,
}

/// A type definition of any kind.
pub enum TypeDefinitionIr {
    Struct(StructIr),
    Enum(EnumIr),
    Alias(AliasIr),
    AnyOf(AnyOfIr),
    Newtype(NewtypeIr),
}

/// Where a parameter is sent.
#[derive(PartialEq, Eq, Structural, Clone, Copy, Debug)]
pub enum ParameterLocation {
    Path,
    Query,
    Header,
    Cookie,
}

/// A parameter of an operation.
pub struct ParameterIr {
    pub name: String,
    pub location: ParameterLocation,
    pub required: bool,
    pub type_info: TypeIr,
    pub description: Option<String>,
}

/// Where an API key is sent.
#[derive(PartialEq, Eq, Structural, Clone, Copy, Debug)]
pub enum ApiKeyLocation {
    Query,
    Header,
    Cookie,
}

/// An authentication scheme of the API.
pub enum SecuritySchemeIr {
    HttpBearer,
    HttpBasic,
    ApiKey { location: ApiKeyLocation, field_name: String },
    OAuth2,
    OpenIdConnect,
}

/// A field with its type renamed and all else kept.
pub open spec fn field_renamed(f: FieldIr, g: FieldIr, rn: Seq<(Seq<char>, Seq<char>)>) -> bool {
    &&& f.type_info@ == renamed(g.type_info@, rn)
    &&& f.name == g.name
    &&& f.rust_name == g.rust_name
    &&& f.required == g.required
    &&& f.validation == g.validation
    &&& f.serde_rename == g.serde_rename
    &&& f.description == g.description
}

/// Whether every required field's type can derive `Default` (every type
/// can, so this always holds).
pub open spec fn fields_defaultable(fields: Seq<FieldIr>) -> bool {
    forall|i: int| 0 <= i < fields.len() ==> true || !(#[trigger] fields[i]).required
}

fn rename_fields(fields: &mut Vec<FieldIr>, renames: &Vec<(String, String)>)
    ensures
        final(fields)@.len() == old(fields)@.len(),
        forall|i: int|
            0 <= i < old(fields)@.len() ==> field_renamed(
                #[trigger] final(fields)@[i],
                old(fields)@[i],
                renames_view(renames@),
            ),
{
    let ghost of = fields@;
    let mut rest: Vec<FieldIr> = Vec::new();
    std::mem::swap(&mut rest, fields);
    let n = rest.len();
    let mut i: usize = 0;
    while rest.len() > 0
        invariant
            n == of.len(),
            i + rest@.len() == n,
            fields@.len() == i,
            forall|j: int| 0 <= j < rest@.len() ==> #[trigger] rest@[j] == of[i + j],
            forall|j: int| 0 <= j < i ==> field_renamed(#[trigger] fields@[j], of[j], renames_view(renames@)),
        decreases rest@.len(),
    {
        let mut f = rest.remove(0);
        assert(f == of[i as int]);
        let t = renamed_type(&f.type_info, renames);
        f.type_info = t;
        fields.push(f);
        i = i + 1;
    }
}

fn rename_variants(variants: &mut Vec<VariantIr>, renames: &Vec<(String, String)>)
    ensures
        final(variants)@.len() == old(variants)@.len(),
        forall|i: int|
            0 <= i < old(variants)@.len() ==> (#[trigger] final(variants)@[i]).name == old(variants)@[i].name
                && final(variants)@[i].type_info@ == renamed(old(variants)@[i].type_info@, renames_view(renames@)),
{
    let ghost ov = variants@;
    let mut rest: Vec<VariantIr> = Vec::new();
    std::mem::swap(&mut rest, variants);
    let n = rest.len();
    let mut i: usize = 0;
    while rest.len() > 0
        invariant
            n == ov.len(),
            i + rest@.len() == n,
            variants@.len() == i,
            forall|j: int| 0 <= j < rest@.len() ==> #[trigger] rest@[j] == ov[i + j],
            forall|j: int|
                0 <= j < i ==> (#[trigger] variants@[j]).name == ov[j].name && variants@[j].type_info@ == renamed(
                    ov[j].type_info@,
                    renames_view(renames@),
                ),
        decreases rest@.len(),
    {
        let mut v = rest.remove(0);
        assert(v == ov[i as int]);
        let t = renamed_type(&v.type_info, renames);
        v.type_info = t;
        variants.push(v);
        i = i + 1;
    }
}

impl StructIr {
    fn can_derive_default_fields(&self) -> (b: bool)
        ensures
            b == fields_defaultable(self.fields@),
    {
        let mut all = true;
        for i in 0..self.fields.len()
            invariant
                all == (forall|j: int| 0 <= j < i ==> true || !(#[trigger] self.fields@[j]).required),
        {
            let ok = self.fields[i].type_info.can_derive_default() || !self.fields[i].required;
            all = all && ok;
        }
        all
    }

    /// Whether any field carries a validation rule.
    pub fn has_validation(&self) -> (b: bool)
        ensures
            b == exists|i: int| 0 <= i < self.fields@.len() && (#[trigger] self.fields@[i]).validation@.len() > 0,
    {
        for i in 0..self.fields.len()
            invariant
                forall|j: int| 0 <= j < i ==> (#[trigger] self.fields@[j]).validation@.len() == 0,
        {
            if self.fields[i].validation.len() > 0 {
                return true;
            }
        }
        false
    }

    /// Whether building the struct cannot fail: no validation and no
    /// required field.
    pub fn is_infallible(&self) -> (b: bool)
        ensures
            b == (!(exists|i: int| 0 <= i < self.fields@.len() && (#[trigger] self.fields@[i]).validation@.len() > 0)
                && forall|i: int| 0 <= i < self.fields@.len() ==> !(#[trigger] self.fields@[i]).required),
    {
        if self.has_validation() {
            return false;
        }
        for i in 0..self.fields.len()
            invariant
                forall|j: int| 0 <= j < i ==> !(#[trigger] self.fields@[j]).required,
        {
            if self.fields[i].required {
                return false;
            }
        }
        true
    }
}

/// The texts of `v` without `t`.
pub open spec fn without(v: Seq<Seq<char>>, t: Seq<char>) -> Seq<Seq<char>> {
    v.filter(|d: Seq<char>| d != t)
}

/// Whether a type would take a derive of `t` by default: `Default` only
/// when the type can derive it and has no custom default; anything else.
pub open spec fn default_wanted(t: Seq<char>, can_default: bool, custom_default: bool) -> bool {
    if t == "Default"@ {
        can_default && !custom_default
    } else {
        true
    }
}

fn derive_list_has(derives: &Vec<String>, t: &str) -> (b: bool)
    ensures
        b == crate::text::views(derives@).contains(t@),
{
    let ghost dv = crate::text::views(derives@);
    for i in 0..derives.len()
        invariant
            dv == crate::text::views(derives@),
            forall|j: int| 0 <= j < i ==> dv[j] != t@,
    {
        if str_eq(derives[i].as_str(), t) {
            proof {
                assert(dv[i as int] == t@);
            }
            return true;
        }
    }
    false
}

fn derive_list_add(derives: &mut Vec<String>, t: String)
    ensures
        crate::text::views(final(derives)@) == if crate::text::views(old(derives)@).contains(t@) {
            crate::text::views(old(derives)@)
        } else {
            crate::text::views(old(derives)@).push(t@)
        },
{
    if !derive_list_has(derives, t.as_str()) {
        let ghost before = crate::text::views(derives@);
        let ghost tv = t@;
        derives.push(t);
        proof {
            assert(crate::text::views(derives@) =~= before.push(tv));
        }
    }
}

fn derive_list_remove(derives: &mut Vec<String>, t: &str)
    ensures
        crate::text::views(final(derives)@) == without(crate::text::views(old(derives)@), t@),
{
    let ghost ov = crate::text::views(derives@);
    let mut rest: Vec<String> = Vec::new();
    std::mem::swap(&mut rest, derives);
    let n = rest.len();
    proof {
        reveal(Seq::filter);
        assert(ov.take(0) =~= Seq::<Seq<char>>::empty());
        assert(crate::text::views(derives@) =~= Seq::<Seq<char>>::empty());
        assert(rest@.skip(0) =~= rest@);
    }
    let mut i: usize = 0;
    while rest.len() > 0
        invariant
            ov == crate::text::views(old(derives)@),
            n == ov.len(),
            i + rest@.len() == n,
            forall|j: int| 0 <= j < rest@.len() ==> (#[trigger] rest@[j])@ == ov[i + j],
            crate::text::views(derives@) == without(ov.take(i as int), t@),
        decreases rest@.len(),
    {
        let d = rest.remove(0);
        proof {
            assert(d@ == ov[i as int]);
            assert(ov.take(i + 1) =~= ov.take(i as int).push(d@));
            ov.take(i as int).lemma_filter_push(d@, |x: Seq<char>| x != t@);
        }
        if !str_eq(d.as_str(), t) {
            let ghost before = crate::text::views(derives@);
            let ghost dv = d@;
            derives.push(d);
            proof {
                assert(crate::text::views(derives@) =~= before.push(dv));
            }
        }
        i = i + 1;
    }
    proof {
        assert(ov.take(n as int) =~= ov);
    }
}

/// What every type definition offers: its name, description and derives,
/// renaming the definitions it refers to, and which traits to derive.
pub trait IrType {
    /// The name's text.
    spec fn name_view(&self) -> Seq<char>;

    /// Whether the name was made up.
    spec fn generated(&self) -> bool;

    /// The description.
    spec fn description_view(&self) -> Option<Seq<char>>;

    /// The derives, in order.
    spec fn derive_view(&self) -> Seq<Seq<char>>;

    /// Whether `Default` can be derived.
    spec fn default_derivable(&self) -> bool;

    /// Whether the type writes its own `Default`.
    spec fn custom_default(&self) -> bool;

    /// Whether a derive of `t` is wanted.
    spec fn derive_wanted(&self, t: Seq<char>) -> bool;

    fn name(&self) -> (r: &str)
        ensures
            r@ == self.name_view(),
    ;

    fn set_name(&mut self, name: String)
        ensures
            final(self).name_view() == name@,
            final(self).generated() == old(self).generated(),
            final(self).derive_view() == old(self).derive_view(),
    ;

    fn is_generated(&self) -> (b: bool)
        ensures
            b == self.generated(),
    ;

    fn description(&self) -> (r: Option<&str>)
        ensures
            match r {
                Some(d) => self.description_view() == Some(d@),
                None => self.description_view() is None,
            },
    ;

    /// Renames the definitions this type refers to.
    fn update_references(&mut self, renames: &Vec<(String, String)>)
        ensures
            final(self).name_view() == old(self).name_view(),
            final(self).derive_view() == old(self).derive_view(),
    ;

    fn derives(&self) -> (r: &[String])
        ensures
            crate::text::views(r@) == self.derive_view(),
    ;

    /// The derive list, to change in place.
    fn derives_mut(&mut self) -> (r: &mut Vec<String>)
        ensures
            crate::text::views(r@) == old(self).derive_view(),
            final(self).derive_view() == crate::text::views(final(r)@),
            final(self).name_view() == old(self).name_view(),
    ;

    /// Adds a derive unless it is there already.
    fn add_derive(&mut self, trait_name: String)
        ensures
            final(self).derive_view() == if old(self).derive_view().contains(trait_name@) {
                old(self).derive_view()
            } else {
                old(self).derive_view().push(trait_name@)
            },
            final(self).name_view() == old(self).name_view(),
    ;

    fn has_derive(&self, trait_name: &str) -> (b: bool)
        ensures
            b == self.derive_view().contains(trait_name@),
    ;

    /// Removes every derive named `trait_name`.
    fn remove_derive(&mut self, trait_name: &str)
        ensures
            final(self).derive_view() == without(old(self).derive_view(), trait_name@),
            final(self).name_view() == old(self).name_view(),
    ;

    fn can_derive_default(&self) -> (b: bool)
        ensures
            b == self.default_derivable(),
    ;

    fn has_custom_default(&self) -> (b: bool)
        ensures
            b == self.custom_default(),
    ;

    /// Whether `Default` should be derived: it can be, and the type has no
    /// custom default.
    fn should_derive_default(&self) -> (b: bool)
        ensures
            b == (self.default_derivable() && !self.custom_default()),
    {
        self.can_derive_default() && !self.has_custom_default()
    }

    fn should_derive(&self, trait_name: &str) -> (b: bool)
        ensures
            b == self.derive_wanted(trait_name@),
    ;
}

impl IrType for StructIr {
    open spec fn name_view(&self) -> Seq<char> {
        name_text(self.name)
    }

    open spec fn generated(&self) -> bool {
        self.name is Generated
    }

    open spec fn description_view(&self) -> Option<Seq<char>> {
        match self.description {
            Some(d) => Some(d@),
            None => None,
        }
    }

    open spec fn derive_view(&self) -> Seq<Seq<char>> {
        crate::text::views(self.derives@)
    }

    open spec fn default_derivable(&self) -> bool {
        fields_defaultable(self.fields@)
    }

    open spec fn custom_default(&self) -> bool {
        false
    }

    open spec fn derive_wanted(&self, t: Seq<char>) -> bool {
        default_wanted(t, self.default_derivable(), self.custom_default())
    }

    fn name(&self) -> (r: &str) {
        self.name.as_str()
    }

    fn set_name(&mut self, name: String) {
        self.name.set_string(name);
    }

    fn is_generated(&self) -> (b: bool) {
        self.name.is_generated()
    }

    fn description(&self) -> (r: Option<&str>) {
        match &self.description {
            Some(d) => Some(d.as_str()),
            None => None,
        }
    }

    fn update_references(&mut self, renames: &Vec<(String, String)>)
        ensures
            final(self).fields@.len() == old(self).fields@.len(),
            forall|i: int|
                0 <= i < old(self).fields@.len() ==> field_renamed(
                    #[trigger] final(self).fields@[i],
                    old(self).fields@[i],
                    renames_view(renames@),
                ),
            match (final(self).additional_properties_type, old(self).additional_properties_type) {
                (Some(a), Some(b)) => a@ == renamed(b@, renames_view(renames@)),
                (None, None) => true,
                _ => false,
            },
    {
        rename_fields(&mut self.fields, renames);
        match &mut self.additional_properties_type {
            Some(t) => {
                t.update_reference(renames);
            },
            None => {},
        }
    }

    fn derives(&self) -> (r: &[String]) {
        self.derives.as_slice()
    }

    fn derives_mut(&mut self) -> (r: &mut Vec<String>) {
        &mut self.derives
    }

    fn add_derive(&mut self, trait_name: String) {
        derive_list_add(&mut self.derives, trait_name);
    }

    fn has_derive(&self, trait_name: &str) -> (b: bool) {
        derive_list_has(&self.derives, trait_name)
    }

    fn remove_derive(&mut self, trait_name: &str) {
        derive_list_remove(&mut self.derives, trait_name);
    }

    fn can_derive_default(&self) -> (b: bool) {
        self.can_derive_default_fields()
    }

    fn has_custom_default(&self) -> (b: bool) {
        false
    }

    fn should_derive(&self, trait_name: &str) -> (b: bool) {
        if str_eq(trait_name, "Default") {
            self.can_derive_default() && !self.has_custom_default()
        } else {
            true
        }
    }
}

impl IrType for EnumIr {
    open spec fn name_view(&self) -> Seq<char> {
        name_text(self.name)
    }

    open spec fn generated(&self) -> bool {
        self.name is Generated
    }

    open spec fn description_view(&self) -> Option<Seq<char>> {
        match self.description {
            Some(d) => Some(d@),
            None => None,
        }
    }

    open spec fn derive_view(&self) -> Seq<Seq<char>> {
        crate::text::views(self.derives@)
    }

    open spec fn default_derivable(&self) -> bool {
        true
    }

    open spec fn custom_default(&self) -> bool {
        false
    }

    open spec fn derive_wanted(&self, t: Seq<char>) -> bool {
        default_wanted(t, self.default_derivable(), self.custom_default())
    }

    fn name(&self) -> (r: &str) {
        self.name.as_str()
    }

    fn set_name(&mut self, name: String) {
        self.name.set_string(name);
    }

    fn is_generated(&self) -> (b: bool) {
        self.name.is_generated()
    }

    fn description(&self) -> (r: Option<&str>) {
        match &self.description {
            Some(d) => Some(d.as_str()),
            None => None,
        }
    }

    fn update_references(&mut self, renames: &Vec<(String, String)>)
        ensures
            final(self).variants == old(self).variants,
    {

    }

    fn derives(&self) -> (r: &[String]) {
        self.derives.as_slice()
    }

    fn derives_mut(&mut self) -> (r: &mut Vec<String>) {
        &mut self.derives
    }

    fn add_derive(&mut self, trait_name: String) {
        derive_list_add(&mut self.derives, trait_name);
    }

    fn has_derive(&self, trait_name: &str) -> (b: bool) {
        derive_list_has(&self.derives, trait_name)
    }

    fn remove_derive(&mut self, trait_name: &str) {
        derive_list_remove(&mut self.derives, trait_name);
    }

    fn can_derive_default(&self) -> (b: bool) {
        true
    }

    fn has_custom_default(&self) -> (b: bool) {
        false
    }

    fn should_derive(&self, trait_name: &str) -> (b: bool) {
        if str_eq(trait_name, "Default") {
            self.can_derive_default() && !self.has_custom_default()
        } else {
            true
        }
    }
}

impl IrType for NewtypeIr {
    open spec fn name_view(&self) -> Seq<char> {
        name_text(self.name)
    }

    open spec fn generated(&self) -> bool {
        self.name is Generated
    }

    open spec fn description_view(&self) -> Option<Seq<char>> {
        match self.description {
            Some(d) => Some(d@),
            None => None,
        }
    }

    open spec fn derive_view(&self) -> Seq<Seq<char>> {
        crate::text::views(self.derives@)
    }

    open spec fn default_derivable(&self) -> bool {
        true
    }

    open spec fn custom_default(&self) -> bool {
        false
    }

    open spec fn derive_wanted(&self, t: Seq<char>) -> bool {
        default_wanted(t, self.default_derivable(), self.custom_default())
    }

    fn name(&self) -> (r: &str) {
        self.name.as_str()
    }

    fn set_name(&mut self, name: String) {
        self.name.set_string(name);
    }

    fn is_generated(&self) -> (b: bool) {
        self.name.is_generated()
    }

    fn description(&self) -> (r: Option<&str>) {
        match &self.description {
            Some(d) => Some(d.as_str()),
            None => None,
        }
    }

    fn update_references(&mut self, renames: &Vec<(String, String)>)
        ensures
            final(self).target@ == renamed(old(self).target@, renames_view(renames@)),
    {
        self.target.update_reference(renames);
    }

    fn derives(&self) -> (r: &[String]) {
        self.derives.as_slice()
    }

    fn derives_mut(&mut self) -> (r: &mut Vec<String>) {
        &mut self.derives
    }

    fn add_derive(&mut self, trait_name: String) {
        derive_list_add(&mut self.derives, trait_name);
    }

    fn has_derive(&self, trait_name: &str) -> (b: bool) {
        derive_list_has(&self.derives, trait_name)
    }

    fn remove_derive(&mut self, trait_name: &str) {
        derive_list_remove(&mut self.derives, trait_name);
    }

    fn can_derive_default(&self) -> (b: bool) {
        self.target.can_derive_default()
    }

    fn has_custom_default(&self) -> (b: bool) {
        false
    }

    fn should_derive(&self, trait_name: &str) -> (b: bool) {
        if str_eq(trait_name, "Default") {
            self.can_derive_default() && !self.has_custom_default()
        } else {
            true
        }
    }
}

impl IrType for AliasIr {
    open spec fn name_view(&self) -> Seq<char> {
        name_text(self.name)
    }

    open spec fn generated(&self) -> bool {
        self.name is Generated
    }

    open spec fn description_view(&self) -> Option<Seq<char>> {
        match self.description {
            Some(d) => Some(d@),
            None => None,
        }
    }

    open spec fn derive_view(&self) -> Seq<Seq<char>> {
        crate::text::views(self.derives@)
    }

    open spec fn default_derivable(&self) -> bool {
        true
    }

    open spec fn custom_default(&self) -> bool {
        false
    }

    open spec fn derive_wanted(&self, t: Seq<char>) -> bool {
        default_wanted(t, self.default_derivable(), self.custom_default())
    }

    fn name(&self) -> (r: &str) {
        self.name.as_str()
    }

    fn set_name(&mut self, name: String) {
        self.name.set_string(name);
    }

    fn is_generated(&self) -> (b: bool) {
        self.name.is_generated()
    }

    fn description(&self) -> (r: Option<&str>) {
        match &self.description {
            Some(d) => Some(d.as_str()),
            None => None,
        }
    }

    fn update_references(&mut self, renames: &Vec<(String, String)>)
        ensures
            final(self).target@ == renamed(old(self).target@, renames_view(renames@)),
    {
        self.target.update_reference(renames);
    }

    fn derives(&self) -> (r: &[String]) {
        self.derives.as_slice()
    }

    fn derives_mut(&mut self) -> (r: &mut Vec<String>) {
        &mut self.derives
    }

    fn add_derive(&mut self, trait_name: String) {
        derive_list_add(&mut self.derives, trait_name);
    }

    fn has_derive(&self, trait_name: &str) -> (b: bool) {
        derive_list_has(&self.derives, trait_name)
    }

    fn remove_derive(&mut self, trait_name: &str) {
        derive_list_remove(&mut self.derives, trait_name);
    }

    fn can_derive_default(&self) -> (b: bool) {
        true
    }

    fn has_custom_default(&self) -> (b: bool) {
        false
    }

    fn should_derive(&self, trait_name: &str) -> (b: bool) {
        if str_eq(trait_name, "Default") {
            self.can_derive_default() && !self.has_custom_default()
        } else {
            true
        }
    }
}

impl IrType for AnyOfIr {
    open spec fn name_view(&self) -> Seq<char> {
        name_text(self.name)
    }

    open spec fn generated(&self) -> bool {
        self.name is Generated
    }

    open spec fn description_view(&self) -> Option<Seq<char>> {
        match self.description {
            Some(d) => Some(d@),
            None => None,
        }
    }

    open spec fn derive_view(&self) -> Seq<Seq<char>> {
        crate::text::views(self.derives@)
    }

    open spec fn default_derivable(&self) -> bool {
        true
    }

    open spec fn custom_default(&self) -> bool {
        true
    }

    open spec fn derive_wanted(&self, t: Seq<char>) -> bool {
        !(t == "Default"@ || t == "derive_more::From"@)
    }

    fn name(&self) -> (r: &str) {
        self.name.as_str()
    }

    fn set_name(&mut self, name: String) {
        self.name.set_string(name);
    }

    fn is_generated(&self) -> (b: bool) {
        self.name.is_generated()
    }

    fn description(&self) -> (r: Option<&str>) {
        match &self.description {
            Some(d) => Some(d.as_str()),
            None => None,
        }
    }

    fn update_references(&mut self, renames: &Vec<(String, String)>)
        ensures
            final(self).variants@.len() == old(self).variants@.len(),
            forall|i: int|
                0 <= i < old(self).variants@.len() ==> (#[trigger] final(self).variants@[i]).name == old(self).variants@[i].name
                    && final(self).variants@[i].type_info@ == renamed(old(self).variants@[i].type_info@, renames_view(renames@)),
    {
        rename_variants(&mut self.variants, renames);
    }

    fn derives(&self) -> (r: &[String]) {
        self.derives.as_slice()
    }

    fn derives_mut(&mut self) -> (r: &mut Vec<String>) {
        &mut self.derives
    }

    fn add_derive(&mut self, trait_name: String) {
        derive_list_add(&mut self.derives, trait_name);
    }

    fn has_derive(&self, trait_name: &str) -> (b: bool) {
        derive_list_has(&self.derives, trait_name)
    }

    fn remove_derive(&mut self, trait_name: &str) {
        derive_list_remove(&mut self.derives, trait_name);
    }

    fn can_derive_default(&self) -> (b: bool) {
        true
    }

    fn has_custom_default(&self) -> (b: bool) {
        true
    }

    fn should_derive(&self, trait_name: &str) -> (b: bool) {
        !(str_eq(trait_name, "Default") || str_eq(trait_name, "derive_more::From"))
    }
}

impl IrType for TypeDefinitionIr {
    open spec fn name_view(&self) -> Seq<char> {
        match self {
            TypeDefinitionIr::Struct(x) => x.name_view(),
            TypeDefinitionIr::Enum(x) => x.name_view(),
            TypeDefinitionIr::Alias(x) => x.name_view(),
            TypeDefinitionIr::AnyOf(x) => x.name_view(),
            TypeDefinitionIr::Newtype(x) => x.name_view(),
        }
    }

    open spec fn generated(&self) -> bool {
        match self {
            TypeDefinitionIr::Struct(x) => x.generated(),
            TypeDefinitionIr::Enum(x) => x.generated(),
            TypeDefinitionIr::Alias(x) => x.generated(),
            TypeDefinitionIr::AnyOf(x) => x.generated(),
            TypeDefinitionIr::Newtype(x) => x.generated(),
        }
    }

    open spec fn description_view(&self) -> Option<Seq<char>> {
        match self {
            TypeDefinitionIr::Struct(x) => x.description_view(),
            TypeDefinitionIr::Enum(x) => x.description_view(),
            TypeDefinitionIr::Alias(x) => x.description_view(),
            TypeDefinitionIr::AnyOf(x) => x.description_view(),
            TypeDefinitionIr::Newtype(x) => x.description_view(),
        }
    }

    open spec fn derive_view(&self) -> Seq<Seq<char>> {
        match self {
            TypeDefinitionIr::Struct(x) => x.derive_view(),
            TypeDefinitionIr::Enum(x) => x.derive_view(),
            TypeDefinitionIr::Alias(x) => x.derive_view(),
            TypeDefinitionIr::AnyOf(x) => x.derive_view(),
            TypeDefinitionIr::Newtype(x) => x.derive_view(),
        }
    }

    open spec fn default_derivable(&self) -> bool {
        match self {
            TypeDefinitionIr::Struct(x) => x.default_derivable(),
            TypeDefinitionIr::Enum(x) => x.default_derivable(),
            TypeDefinitionIr::Alias(x) => x.default_derivable(),
            TypeDefinitionIr::AnyOf(x) => x.default_derivable(),
            TypeDefinitionIr::Newtype(x) => x.default_derivable(),
        }
    }

    open spec fn custom_default(&self) -> bool {
        match self {
            TypeDefinitionIr::Struct(x) => x.custom_default(),
            TypeDefinitionIr::Enum(x) => x.custom_default(),
            TypeDefinitionIr::Alias(x) => x.custom_default(),
            TypeDefinitionIr::AnyOf(x) => x.custom_default(),
            TypeDefinitionIr::Newtype(x) => x.custom_default(),
        }
    }

    open spec fn derive_wanted(&self, t: Seq<char>) -> bool {
        match self {
            TypeDefinitionIr::Struct(x) => x.derive_wanted(t),
            TypeDefinitionIr::Enum(x) => x.derive_wanted(t),
            TypeDefinitionIr::Alias(x) => x.derive_wanted(t),
            TypeDefinitionIr::AnyOf(x) => x.derive_wanted(t),
            TypeDefinitionIr::Newtype(x) => x.derive_wanted(t),
        }
    }

    fn name(&self) -> (r: &str) {
        match self {
            TypeDefinitionIr::Struct(x) => x.name(),
            TypeDefinitionIr::Enum(x) => x.name(),
            TypeDefinitionIr::Alias(x) => x.name(),
            TypeDefinitionIr::AnyOf(x) => x.name(),
            TypeDefinitionIr::Newtype(x) => x.name(),
        }
    }

    fn set_name(&mut self, name: String) {
        match self {
            TypeDefinitionIr::Struct(x) => x.set_name(name),
            TypeDefinitionIr::Enum(x) => x.set_name(name),
            TypeDefinitionIr::Alias(x) => x.set_name(name),
            TypeDefinitionIr::AnyOf(x) => x.set_name(name),
            TypeDefinitionIr::Newtype(x) => x.set_name(name),
        }
    }

    fn is_generated(&self) -> (b: bool) {
        match self {
            TypeDefinitionIr::Struct(x) => x.is_generated(),
            TypeDefinitionIr::Enum(x) => x.is_generated(),
            TypeDefinitionIr::Alias(x) => x.is_generated(),
            TypeDefinitionIr::AnyOf(x) => x.is_generated(),
            TypeDefinitionIr::Newtype(x) => x.is_generated(),
        }
    }

    fn description(&self) -> (r: Option<&str>) {
        match self {
            TypeDefinitionIr::Struct(x) => x.description(),
            TypeDefinitionIr::Enum(x) => x.description(),
            TypeDefinitionIr::Alias(x) => x.description(),
            TypeDefinitionIr::AnyOf(x) => x.description(),
            TypeDefinitionIr::Newtype(x) => x.description(),
        }
    }

    fn update_references(&mut self, renames: &Vec<(String, String)>)
        ensures
            match (*final(self), *old(self)) {
                (TypeDefinitionIr::Struct(a), TypeDefinitionIr::Struct(b)) => {
                    &&& a.fields@.len() == b.fields@.len()
                    &&& forall|i: int|
                        0 <= i < b.fields@.len() ==> field_renamed(
                            #[trigger] a.fields@[i],
                            b.fields@[i],
                            renames_view(renames@),
                        )
                    &&& match (a.additional_properties_type, b.additional_properties_type) {
                        (Some(x), Some(y)) => x@ == renamed(y@, renames_view(renames@)),
                        (None, None) => true,
                        _ => false,
                    }
                },
                (TypeDefinitionIr::Enum(a), TypeDefinitionIr::Enum(b)) => a.variants == b.variants,
                (TypeDefinitionIr::Alias(a), TypeDefinitionIr::Alias(b)) => a.target@ == renamed(
                    b.target@,
                    renames_view(renames@),
                ),
                (TypeDefinitionIr::AnyOf(a), TypeDefinitionIr::AnyOf(b)) => {
                    &&& a.variants@.len() == b.variants@.len()
                    &&& forall|i: int|
                        0 <= i < b.variants@.len() ==> (#[trigger] a.variants@[i]).name == b.variants@[i].name
                            && a.variants@[i].type_info@ == renamed(b.variants@[i].type_info@, renames_view(renames@))
                },
                (TypeDefinitionIr::Newtype(a), TypeDefinitionIr::Newtype(b)) => a.target@ == renamed(
                    b.target@,
                    renames_view(renames@),
                ),
                _ => false,
            },
    {
        match self {
            TypeDefinitionIr::Struct(x) => x.update_references(renames),
            TypeDefinitionIr::Enum(x) => x.update_references(renames),
            TypeDefinitionIr::Alias(x) => x.update_references(renames),
            TypeDefinitionIr::AnyOf(x) => x.update_references(renames),
            TypeDefinitionIr::Newtype(x) => x.update_references(renames),
        }
    }

    fn derives(&self) -> (r: &[String]) {
        match self {
            TypeDefinitionIr::Struct(x) => x.derives(),
            TypeDefinitionIr::Enum(x) => x.derives(),
            TypeDefinitionIr::Alias(x) => x.derives(),
            TypeDefinitionIr::AnyOf(x) => x.derives(),
            TypeDefinitionIr::Newtype(x) => x.derives(),
        }
    }

    fn derives_mut(&mut self) -> (r: &mut Vec<String>) {
        match self {
            TypeDefinitionIr::Struct(x) => x.derives_mut(),
            TypeDefinitionIr::Enum(x) => x.derives_mut(),
            TypeDefinitionIr::Alias(x) => x.derives_mut(),
            TypeDefinitionIr::AnyOf(x) => x.derives_mut(),
            TypeDefinitionIr::Newtype(x) => x.derives_mut(),
        }
    }

    fn add_derive(&mut self, trait_name: String) {
        match self {
            TypeDefinitionIr::Struct(x) => x.add_derive(trait_name),
            TypeDefinitionIr::Enum(x) => x.add_derive(trait_name),
            TypeDefinitionIr::Alias(x) => x.add_derive(trait_name),
            TypeDefinitionIr::AnyOf(x) => x.add_derive(trait_name),
            TypeDefinitionIr::Newtype(x) => x.add_derive(trait_name),
        }
    }

    fn has_derive(&self, trait_name: &str) -> (b: bool) {
        match self {
            TypeDefinitionIr::Struct(x) => x.has_derive(trait_name),
            TypeDefinitionIr::Enum(x) => x.has_derive(trait_name),
            TypeDefinitionIr::Alias(x) => x.has_derive(trait_name),
            TypeDefinitionIr::AnyOf(x) => x.has_derive(trait_name),
            TypeDefinitionIr::Newtype(x) => x.has_derive(trait_name),
        }
    }

    fn remove_derive(&mut self, trait_name: &str) {
        match self {
            TypeDefinitionIr::Struct(x) => x.remove_derive(trait_name),
            TypeDefinitionIr::Enum(x) => x.remove_derive(trait_name),
            TypeDefinitionIr::Alias(x) => x.remove_derive(trait_name),
            TypeDefinitionIr::AnyOf(x) => x.remove_derive(trait_name),
            TypeDefinitionIr::Newtype(x) => x.remove_derive(trait_name),
        }
    }

    fn can_derive_default(&self) -> (b: bool) {
        match self {
            TypeDefinitionIr::Struct(x) => x.can_derive_default(),
            TypeDefinitionIr::Enum(x) => x.can_derive_default(),
            TypeDefinitionIr::Alias(x) => x.can_derive_default(),
            TypeDefinitionIr::AnyOf(x) => x.can_derive_default(),
            TypeDefinitionIr::Newtype(x) => x.can_derive_default(),
        }
    }

    fn has_custom_default(&self) -> (b: bool) {
        match self {
            TypeDefinitionIr::Struct(x) => x.has_custom_default(),
            TypeDefinitionIr::Enum(x) => x.has_custom_default(),
            TypeDefinitionIr::Alias(x) => x.has_custom_default(),
            TypeDefinitionIr::AnyOf(x) => x.has_custom_default(),
            TypeDefinitionIr::Newtype(x) => x.has_custom_default(),
        }
    }

    fn should_derive(&self, trait_name: &str) -> (b: bool) {
        match self {
            TypeDefinitionIr::Struct(x) => x.should_derive(trait_name),
            TypeDefinitionIr::Enum(x) => x.should_derive(trait_name),
            TypeDefinitionIr::Alias(x) => x.should_derive(trait_name),
            TypeDefinitionIr::AnyOf(x) => x.should_derive(trait_name),
            TypeDefinitionIr::Newtype(x) => x.should_derive(trait_name),
        }
    }
}

} // verus!
