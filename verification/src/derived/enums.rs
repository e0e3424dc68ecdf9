//! Enums, written as the quoted name of their variant.
use vstd::prelude::*;

use crate::serde::IntoSerializer;
use crate::std_impl::{quoted_size, StringSerializer};
use crate::text::{json_string, law_json_string_injective};

verus! {

/// A colour, written as its lowercase name.
pub enum Color {
    Red,
    Green,
    Blue,
}

impl Color {
    /// The name the value is written as.
    pub open spec fn variant_name(&self) -> Seq<char> {
        match self {
            Color::Red => "red"@,
            Color::Green => "green"@,
            Color::Blue => "blue"@,
        }
    }

    fn variant_str(&self) -> (s: &'static str)
        ensures
            s@ == self.variant_name(),
    {
        match self {
            Color::Red => "red",
            Color::Green => "green",
            Color::Blue => "blue",
        }
    }
}

/// Law: a `Color` is written as the quoted name of its variant: `Red` as "red", `Green` as "green", `Blue` as "blue".
pub proof fn law_color_text(v: Color)
    ensures
        v is Red ==> v.json() == json_string("red"@),
        v is Green ==> v.json() == json_string("green"@),
        v is Blue ==> v.json() == json_string("blue"@),
{
}

/// Law: different variants of a `Color` are written differently.
pub proof fn law_color_variants_distinct(a: Color, b: Color)
    requires
        a.json() == b.json(),
    ensures
        (a is Red) == (b is Red),
        (a is Green) == (b is Green),
        (a is Blue) == (b is Blue),
{
    law_json_string_injective(a.variant_name(), b.variant_name());
    reveal_strlit("red");
    reveal_strlit("green");
    reveal_strlit("blue");
}

impl IntoSerializer for Color {
    type S = StringSerializer;

    open spec fn size_unknown(&self) -> bool {
        false
    }

    open spec fn json(&self) -> Seq<u8> {
        json_string(self.variant_name())
    }

    open spec fn json_fails(&self) -> bool {
        false
    }

    open spec fn size_known(&self) -> bool {
        true
    }

    open spec fn json_may_pend(&self) -> bool {
        false
    }

    fn into_serializer(self) -> (s: Self::S) {
        StringSerializer::new(self.variant_str().to_owned())
    }

    fn size(&self) -> (r: Option<usize>) {
        quoted_size(self.variant_str())
    }
}

/// A status; the data of a variant is not written.
pub enum Status {
    Active,
    Inactive(bool),
}

impl Status {
    /// The name the value is written as.
    pub open spec fn variant_name(&self) -> Seq<char> {
        match self {
            Status::Active => "active"@,
            Status::Inactive(..) => "inactive"@,
        }
    }

    fn variant_str(&self) -> (s: &'static str)
        ensures
            s@ == self.variant_name(),
    {
        match self {
            Status::Active => "active",
            Status::Inactive(..) => "inactive",
        }
    }
}

/// Law: a `Status` is written as the quoted name of its variant: `Active` as "active", `Inactive` as "inactive".
pub proof fn law_status_text(v: Status)
    ensures
        v is Active ==> v.json() == json_string("active"@),
        v is Inactive ==> v.json() == json_string("inactive"@),
{
}

/// Law: different variants of a `Status` are written differently.
pub proof fn law_status_variants_distinct(a: Status, b: Status)
    requires
        a.json() == b.json(),
    ensures
        (a is Active) == (b is Active),
        (a is Inactive) == (b is Inactive),
{
    law_json_string_injective(a.variant_name(), b.variant_name());
    reveal_strlit("active");
    reveal_strlit("inactive");
}

impl IntoSerializer for Status {
    type S = StringSerializer;

    open spec fn size_unknown(&self) -> bool {
        false
    }

    open spec fn json(&self) -> Seq<u8> {
        json_string(self.variant_name())
    }

    open spec fn json_fails(&self) -> bool {
        false
    }

    open spec fn size_known(&self) -> bool {
        true
    }

    open spec fn json_may_pend(&self) -> bool {
        false
    }

    fn into_serializer(self) -> (s: Self::S) {
        StringSerializer::new(self.variant_str().to_owned())
    }

    fn size(&self) -> (r: Option<usize>) {
        quoted_size(self.variant_str())
    }
}

/// Unit, tuple and struct variants.
pub enum MixedEnum {
    Unit,
    Tuple(i32, i32),
    Named { x: i32, y: i32 },
}

impl MixedEnum {
    /// The name the value is written as.
    pub open spec fn variant_name(&self) -> Seq<char> {
        match self {
            MixedEnum::Unit => "unit"@,
            MixedEnum::Tuple(..) => "tuple"@,
            MixedEnum::Named { .. } => "named"@,
        }
    }

    fn variant_str(&self) -> (s: &'static str)
        ensures
            s@ == self.variant_name(),
    {
        match self {
            MixedEnum::Unit => "unit",
            MixedEnum::Tuple(..) => "tuple",
            MixedEnum::Named { .. } => "named",
        }
    }
}

/// Law: a `MixedEnum` is written as the quoted name of its variant: `Unit` as "unit", `Tuple` as "tuple", `Named` as "named".
pub proof fn law_mixed_enum_text(v: MixedEnum)
    ensures
        v is Unit ==> v.json() == json_string("unit"@),
        v is Tuple ==> v.json() == json_string("tuple"@),
        v is Named ==> v.json() == json_string("named"@),
{
}

/// Law: different variants of a `MixedEnum` are written differently.
pub proof fn law_mixed_enum_variants_distinct(a: MixedEnum, b: MixedEnum)
    requires
        a.json() == b.json(),
    ensures
        (a is Unit) == (b is Unit),
        (a is Tuple) == (b is Tuple),
        (a is Named) == (b is Named),
{
    law_json_string_injective(a.variant_name(), b.variant_name());
    reveal_strlit("unit");
    reveal_strlit("tuple");
    reveal_strlit("named");
    assert("tuple"@[0] != "named"@[0]);
}

impl IntoSerializer for MixedEnum {
    type S = StringSerializer;

    open spec fn size_unknown(&self) -> bool {
        false
    }

    open spec fn json(&self) -> Seq<u8> {
        json_string(self.variant_name())
    }

    open spec fn json_fails(&self) -> bool {
        false
    }

    open spec fn size_known(&self) -> bool {
        true
    }

    open spec fn json_may_pend(&self) -> bool {
        false
    }

    fn into_serializer(self) -> (s: Self::S) {
        StringSerializer::new(self.variant_str().to_owned())
    }

    fn size(&self) -> (r: Option<usize>) {
        quoted_size(self.variant_str())
    }
}

/// Variants written under other names.
pub enum RenamedEnum {
    Unit,
    Tuple(i32),
    Named { value: i32 },
}

impl RenamedEnum {
    /// The name the value is written as.
    pub open spec fn variant_name(&self) -> Seq<char> {
        match self {
            RenamedEnum::Unit => "unit_variant"@,
            RenamedEnum::Tuple(..) => "tuple_variant"@,
            RenamedEnum::Named { .. } => "named_variant"@,
        }
    }

    fn variant_str(&self) -> (s: &'static str)
        ensures
            s@ == self.variant_name(),
    {
        match self {
            RenamedEnum::Unit => "unit_variant",
            RenamedEnum::Tuple(..) => "tuple_variant",
            RenamedEnum::Named { .. } => "named_variant",
        }
    }
}

/// Law: a `RenamedEnum` is written as the quoted name of its variant: `Unit` as "unit_variant", `Tuple` as "tuple_variant", `Named` as "named_variant".
pub proof fn law_renamed_enum_text(v: RenamedEnum)
    ensures
        v is Unit ==> v.json() == json_string("unit_variant"@),
        v is Tuple ==> v.json() == json_string("tuple_variant"@),
        v is Named ==> v.json() == json_string("named_variant"@),
{
}

/// Law: different variants of a `RenamedEnum` are written differently.
pub proof fn law_renamed_enum_variants_distinct(a: RenamedEnum, b: RenamedEnum)
    requires
        a.json() == b.json(),
    ensures
        (a is Unit) == (b is Unit),
        (a is Tuple) == (b is Tuple),
        (a is Named) == (b is Named),
{
    law_json_string_injective(a.variant_name(), b.variant_name());
    reveal_strlit("unit_variant");
    reveal_strlit("tuple_variant");
    reveal_strlit("named_variant");
    assert("tuple_variant"@[0] != "named_variant"@[0]);
}

impl IntoSerializer for RenamedEnum {
    type S = StringSerializer;

    open spec fn size_unknown(&self) -> bool {
        false
    }

    open spec fn json(&self) -> Seq<u8> {
        json_string(self.variant_name())
    }

    open spec fn json_fails(&self) -> bool {
        false
    }

    open spec fn size_known(&self) -> bool {
        true
    }

    open spec fn json_may_pend(&self) -> bool {
        false
    }

    fn into_serializer(self) -> (s: Self::S) {
        StringSerializer::new(self.variant_str().to_owned())
    }

    fn size(&self) -> (r: Option<usize>) {
        quoted_size(self.variant_str())
    }
}

/// Variants of every shape, written as their snake-case names.
pub enum ComplexEnum {
    Empty {},
    SingleUnnamed(String),
    MultipleUnnamed(String, i32, bool),
    SingleNamed { name: String },
    MultipleNamed { name: String, age: i32, active: bool },
}

impl ComplexEnum {
    /// The name the value is written as.
    pub open spec fn variant_name(&self) -> Seq<char> {
        match self {
            ComplexEnum::Empty { .. } => "empty"@,
            ComplexEnum::SingleUnnamed(..) => "single_unnamed"@,
            ComplexEnum::MultipleUnnamed(..) => "multiple_unnamed"@,
            ComplexEnum::SingleNamed { .. } => "single_named"@,
            ComplexEnum::MultipleNamed { .. } => "multiple_named"@,
        }
    }

    fn variant_str(&self) -> (s: &'static str)
        ensures
            s@ == self.variant_name(),
    {
        match self {
            ComplexEnum::Empty { .. } => "empty",
            ComplexEnum::SingleUnnamed(..) => "single_unnamed",
            ComplexEnum::MultipleUnnamed(..) => "multiple_unnamed",
            ComplexEnum::SingleNamed { .. } => "single_named",
            ComplexEnum::MultipleNamed { .. } => "multiple_named",
        }
    }
}

/// Law: a `ComplexEnum` is written as the quoted name of its variant: `Empty` as "empty", `SingleUnnamed` as "single_unnamed", `MultipleUnnamed` as "multiple_unnamed", `SingleNamed` as "single_named", `MultipleNamed` as "multiple_named".
pub proof fn law_complex_enum_text(v: ComplexEnum)
    ensures
        v is Empty ==> v.json() == json_string("empty"@),
        v is SingleUnnamed ==> v.json() == json_string("single_unnamed"@),
        v is MultipleUnnamed ==> v.json() == json_string("multiple_unnamed"@),
        v is SingleNamed ==> v.json() == json_string("single_named"@),
        v is MultipleNamed ==> v.json() == json_string("multiple_named"@),
{
}

/// Law: different variants of a `ComplexEnum` are written differently.
pub proof fn law_complex_enum_variants_distinct(a: ComplexEnum, b: ComplexEnum)
    requires
        a.json() == b.json(),
    ensures
        (a is Empty) == (b is Empty),
        (a is SingleUnnamed) == (b is SingleUnnamed),
        (a is MultipleUnnamed) == (b is MultipleUnnamed),
        (a is SingleNamed) == (b is SingleNamed),
        (a is MultipleNamed) == (b is MultipleNamed),
{
    law_json_string_injective(a.variant_name(), b.variant_name());
    reveal_strlit("empty");
    reveal_strlit("single_unnamed");
    reveal_strlit("multiple_unnamed");
    reveal_strlit("single_named");
    reveal_strlit("multiple_named");
    assert("single_unnamed"@[0] != "multiple_named"@[0]);
}

impl IntoSerializer for ComplexEnum {
    type S = StringSerializer;

    open spec fn size_unknown(&self) -> bool {
        false
    }

    open spec fn json(&self) -> Seq<u8> {
        json_string(self.variant_name())
    }

    open spec fn json_fails(&self) -> bool {
        false
    }

    open spec fn size_known(&self) -> bool {
        true
    }

    open spec fn json_may_pend(&self) -> bool {
        false
    }

    fn into_serializer(self) -> (s: Self::S) {
        StringSerializer::new(self.variant_str().to_owned())
    }

    fn size(&self) -> (r: Option<usize>) {
        quoted_size(self.variant_str())
    }
}

/// A struct variant with a renamed field.
pub enum EnumWithRenamedFields {
    Named { field: i32 },
}

impl EnumWithRenamedFields {
    /// The name the value is written as.
    pub open spec fn variant_name(&self) -> Seq<char> {
        match self {
            EnumWithRenamedFields::Named { .. } => "named"@,
        }
    }

    fn variant_str(&self) -> (s: &'static str)
        ensures
            s@ == self.variant_name(),
    {
        match self {
            EnumWithRenamedFields::Named { .. } => "named",
        }
    }
}

/// Law: a `EnumWithRenamedFields` is written as the quoted name of its variant: `Named` as "named".
pub proof fn law_enum_with_renamed_fields_text(v: EnumWithRenamedFields)
    ensures
        v is Named ==> v.json() == json_string("named"@),
{
}

impl IntoSerializer for EnumWithRenamedFields {
    type S = StringSerializer;

    open spec fn size_unknown(&self) -> bool {
        false
    }

    open spec fn json(&self) -> Seq<u8> {
        json_string(self.variant_name())
    }

    open spec fn json_fails(&self) -> bool {
        false
    }

    open spec fn size_known(&self) -> bool {
        true
    }

    open spec fn json_may_pend(&self) -> bool {
        false
    }

    fn into_serializer(self) -> (s: Self::S) {
        StringSerializer::new(self.variant_str().to_owned())
    }

    fn size(&self) -> (r: Option<usize>) {
        quoted_size(self.variant_str())
    }
}

/// Three unit variants.
pub enum ThreeElements {
    First,
    Second,
    Third,
}

impl ThreeElements {
    /// The name the value is written as.
    pub open spec fn variant_name(&self) -> Seq<char> {
        match self {
            ThreeElements::First => "first"@,
            ThreeElements::Second => "second"@,
            ThreeElements::Third => "third"@,
        }
    }

    fn variant_str(&self) -> (s: &'static str)
        ensures
            s@ == self.variant_name(),
    {
        match self {
            ThreeElements::First => "first",
            ThreeElements::Second => "second",
            ThreeElements::Third => "third",
        }
    }
}

/// Law: a `ThreeElements` is written as the quoted name of its variant: `First` as "first", `Second` as "second", `Third` as "third".
pub proof fn law_three_elements_text(v: ThreeElements)
    ensures
        v is First ==> v.json() == json_string("first"@),
        v is Second ==> v.json() == json_string("second"@),
        v is Third ==> v.json() == json_string("third"@),
{
}

/// Law: different variants of a `ThreeElements` are written differently.
pub proof fn law_three_elements_variants_distinct(a: ThreeElements, b: ThreeElements)
    requires
        a.json() == b.json(),
    ensures
        (a is First) == (b is First),
        (a is Second) == (b is Second),
        (a is Third) == (b is Third),
{
    law_json_string_injective(a.variant_name(), b.variant_name());
    reveal_strlit("first");
    reveal_strlit("second");
    reveal_strlit("third");
    assert("first"@[0] != "third"@[0]);
}

impl IntoSerializer for ThreeElements {
    type S = StringSerializer;

    open spec fn size_unknown(&self) -> bool {
        false
    }

    open spec fn json(&self) -> Seq<u8> {
        json_string(self.variant_name())
    }

    open spec fn json_fails(&self) -> bool {
        false
    }

    open spec fn size_known(&self) -> bool {
        true
    }

    open spec fn json_may_pend(&self) -> bool {
        false
    }

    fn into_serializer(self) -> (s: Self::S) {
        StringSerializer::new(self.variant_str().to_owned())
    }

    fn size(&self) -> (r: Option<usize>) {
        quoted_size(self.variant_str())
    }
}

/// A single struct variant.
pub enum SingleVariantEnum {
    Only { value: i32 },
}

impl SingleVariantEnum {
    /// The name the value is written as.
    pub open spec fn variant_name(&self) -> Seq<char> {
        match self {
            SingleVariantEnum::Only { .. } => "only"@,
        }
    }

    fn variant_str(&self) -> (s: &'static str)
        ensures
            s@ == self.variant_name(),
    {
        match self {
            SingleVariantEnum::Only { .. } => "only",
        }
    }
}

/// Law: a `SingleVariantEnum` is written as the quoted name of its variant: `Only` as "only".
pub proof fn law_single_variant_enum_text(v: SingleVariantEnum)
    ensures
        v is Only ==> v.json() == json_string("only"@),
{
}

impl IntoSerializer for SingleVariantEnum {
    type S = StringSerializer;

    open spec fn size_unknown(&self) -> bool {
        false
    }

    open spec fn json(&self) -> Seq<u8> {
        json_string(self.variant_name())
    }

    open spec fn json_fails(&self) -> bool {
        false
    }

    open spec fn size_known(&self) -> bool {
        true
    }

    open spec fn json_may_pend(&self) -> bool {
        false
    }

    fn into_serializer(self) -> (s: Self::S) {
        StringSerializer::new(self.variant_str().to_owned())
    }

    fn size(&self) -> (r: Option<usize>) {
        quoted_size(self.variant_str())
    }
}

/// A renamed struct variant.
pub enum EnumVariantWithRenameAndSkip {
    Named { value: i32 },
}

impl EnumVariantWithRenameAndSkip {
    /// The name the value is written as.
    pub open spec fn variant_name(&self) -> Seq<char> {
        match self {
            EnumVariantWithRenameAndSkip::Named { .. } => "renamed_variant"@,
        }
    }

    fn variant_str(&self) -> (s: &'static str)
        ensures
            s@ == self.variant_name(),
    {
        match self {
            EnumVariantWithRenameAndSkip::Named { .. } => "renamed_variant",
        }
    }
}

/// Law: a `EnumVariantWithRenameAndSkip` is written as the quoted name of its variant: `Named` as "renamed_variant".
pub proof fn law_enum_variant_with_rename_and_skip_text(v: EnumVariantWithRenameAndSkip)
    ensures
        v is Named ==> v.json() == json_string("renamed_variant"@),
{
}

impl IntoSerializer for EnumVariantWithRenameAndSkip {
    type S = StringSerializer;

    open spec fn size_unknown(&self) -> bool {
        false
    }

    open spec fn json(&self) -> Seq<u8> {
        json_string(self.variant_name())
    }

    open spec fn json_fails(&self) -> bool {
        false
    }

    open spec fn size_known(&self) -> bool {
        true
    }

    open spec fn json_may_pend(&self) -> bool {
        false
    }

    fn into_serializer(self) -> (s: Self::S) {
        StringSerializer::new(self.variant_str().to_owned())
    }

    fn size(&self) -> (r: Option<usize>) {
        quoted_size(self.variant_str())
    }
}

/// A variant renamed to a name that needs escaping.
pub enum EnumVariantWithEscapedRename {
    Value,
}

impl EnumVariantWithEscapedRename {
    /// The name the value is written as.
    pub open spec fn variant_name(&self) -> Seq<char> {
        match self {
            EnumVariantWithEscapedRename::Value => "key\"with\\slashes\n"@,
        }
    }

    fn variant_str(&self) -> (s: &'static str)
        ensures
            s@ == self.variant_name(),
    {
        match self {
            EnumVariantWithEscapedRename::Value => "key\"with\\slashes\n",
        }
    }
}

/// Law: a `EnumVariantWithEscapedRename` is written as the quoted name of its variant: `Value` as "key\"with\\slashes\n".
pub proof fn law_enum_variant_with_escaped_rename_text(v: EnumVariantWithEscapedRename)
    ensures
        v is Value ==> v.json() == json_string("key\"with\\slashes\n"@),
{
}

impl IntoSerializer for EnumVariantWithEscapedRename {
    type S = StringSerializer;

    open spec fn size_unknown(&self) -> bool {
        false
    }

    open spec fn json(&self) -> Seq<u8> {
        json_string(self.variant_name())
    }

    open spec fn json_fails(&self) -> bool {
        false
    }

    open spec fn size_known(&self) -> bool {
        true
    }

    open spec fn json_may_pend(&self) -> bool {
        false
    }

    fn into_serializer(self) -> (s: Self::S) {
        StringSerializer::new(self.variant_str().to_owned())
    }

    fn size(&self) -> (r: Option<usize>) {
        quoted_size(self.variant_str())
    }
}
} // verus!
