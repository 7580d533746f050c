//! One plan per field: what the constructor takes for it and how that
//! becomes the field's value.

use vstd::prelude::*;
use crate::config::{block_config, ConfigView, UserConfig};
use crate::error::{Diagnostic, DiagnosticView, ErrorView, GenerateError};
use crate::syntax::{pair_view, text_view};
use crate::text::{decimal, decimal_text, text_eq};

verus! {

/// One argument between the angle brackets of a type's name.
#[derive(Clone, Debug, PartialEq, Eq)]
pub enum TypeArgument {
    /// A type, with its source text.
    Type(String),
    /// A lifetime, a constant, a binding or a constraint.
    Other,
}

/// What follows the name of a type.
#[derive(Clone, Debug, PartialEq, Eq)]
pub enum TypeArguments {
    /// Nothing, as in `String`.
    Empty,
    /// Arguments in angle brackets, as in `Vec<u8>`.
    AngleBracketed(Vec<TypeArgument>),
    /// Arguments in round brackets, as in `Fn(u8) -> u8`.
    Parenthesized,
}

/// One segment of a path: a name and what follows it.
#[derive(Clone, Debug, PartialEq, Eq)]
pub struct TypeName {
    pub ident: String,
    pub arguments: TypeArguments,
}

/// A type written as a path, such as `std::vec::Vec<u8>`.
#[derive(Clone, Debug, PartialEq, Eq)]
pub struct TypePath {
    /// Whether a qualified self type stands before it, as in
    /// `<T as Trait>::Output`.
    pub qualified: bool,
    /// Whether it begins with `::`.
    pub global: bool,
    pub segments: Vec<TypeName>,
}

/// The declared type of a field.
#[derive(Clone, Debug, PartialEq, Eq)]
pub struct FieldType {
    /// The type's source text.
    pub text: String,
    /// Its path where it is written as one; `None` for references, tuples,
    /// arrays and every other form of type.
    pub path: Option<TypePath>,
}

/// An attribute on a field, such as `#[generic_new(ignore)]`.
#[derive(Clone, Debug, PartialEq, Eq)]
pub struct Attribute {
    /// The first segment of the attribute's path; `None` where the path is
    /// empty.
    pub name: Option<String>,
    /// The text between the brackets that follow the path; `None` where the
    /// path is not followed by exactly one bracketed group.
    pub arguments: Option<String>,
}

/// A field as it is declared.
#[derive(Clone, Debug, PartialEq, Eq)]
pub struct FieldDeclaration {
    /// `None` in a tuple struct.
    pub name: Option<String>,
    pub ty: FieldType,
    /// Every attribute on the field, in order, whomever it is for.
    pub attributes: Vec<Attribute>,
}

/// A description of how this field should be handled when generating `new`.
#[derive(Clone, Debug, PartialEq, Eq)]
pub struct FieldConfig {
    /// Argument type in `new`.
    pub input_type: String,
    /// Argument name in `new`.
    pub input_name: String,
    /// Name of this field in the struct; `None` for tuple structs.
    pub struct_name: Option<String>,
    /// Transform to apply in the body of `new`.
    pub transform: String,
}

/// A `FieldConfig` with its texts as sequences of characters.
pub struct Plan {
    pub input_type: Seq<char>,
    pub input_name: Seq<char>,
    pub struct_name: Option<Seq<char>>,
    pub transform: Seq<char>,
}

impl View for FieldConfig {
    type V = Plan;

    open spec fn view(&self) -> Plan {
        Plan {
            input_type: self.input_type@,
            input_name: self.input_name@,
            struct_name: text_view(self.struct_name),
            transform: self.transform@,
        }
    }
}

/// The declaration of one constructor argument.
pub open spec fn input_text(plan: Plan) -> Seq<char> {
    plan.input_name + ": "@ + plan.input_type
}

/// The statement that rebinds an argument to its transformed value.
pub open spec fn transform_text(plan: Plan) -> Seq<char> {
    "let "@ + plan.input_name + " = ("@ + plan.transform + ")("@ + plan.input_name + ")"@
}

/// The field's place in the struct expression.
pub open spec fn output_text(plan: Plan) -> Seq<char> {
    match plan.struct_name {
        Some(name) => name + ": "@ + plan.input_name,
        None => plan.input_name,
    }
}

impl FieldConfig {
    /// Argument to `new`.
    pub fn input(&self) -> (t: String)
        ensures
            t@ == input_text(self@),
    {
        self.input_name.clone().concat(": ").concat(self.input_type.as_str())
    }

    /// Body inside `new`.
    pub fn transform(&self) -> (t: String)
        ensures
            t@ == transform_text(self@),
    {
        String::from_str("let ").concat(self.input_name.as_str()).concat(" = (").concat(
            self.transform.as_str(),
        ).concat(")(").concat(self.input_name.as_str()).concat(")")
    }

    /// Argument to constructor.
    pub fn output(&self) -> (t: String)
        ensures
            t@ == output_text(self@),
    {
        match &self.struct_name {
            Some(name) => name.clone().concat(": ").concat(self.input_name.as_str()),
            None => self.input_name.clone(),
        }
    }
}

/// The built-in conversion for a type's name, as the type to take and the
/// transform to apply; `None` where no rule matches. The first rule that
/// matches decides.
///
/// `String` without arguments takes anything that refers to a `str`;
/// `Vec` with exactly one argument, a type, takes anything that iterates
/// over that type; `PathBuf` takes anything that refers to a `Path`.
pub open spec fn rule_for(name: TypeName) -> Option<(Seq<char>, Seq<char>)> {
    if name.ident@ == "String"@ && name.arguments is Empty {
        Some(
            (
                "impl ::std::convert::AsRef<::std::primitive::str>"@,
                "|s| ::std::string::String::from(::std::convert::AsRef::<::std::primitive::str>::as_ref(&s))"@,
            ),
        )
    } else if name.ident@ == "Vec"@ {
        match name.arguments {
            TypeArguments::AngleBracketed(arguments) => if arguments@.len() == 1 {
                match arguments@[0] {
                    TypeArgument::Type(item) => Some(
                        (
                            "impl ::std::iter::IntoIterator<Item = "@ + item@ + ">"@,
                            "|i| { let mut v = std::vec::Vec::new(); for item in i { v.push(item) } v }"@,
                        ),
                    ),
                    TypeArgument::Other => None,
                }
            } else {
                None
            },
            _ => None,
        }
    } else if name.ident@ == "PathBuf"@ {
        Some(
            (
                "impl ::std::convert::AsRef<::std::path::Path>"@,
                "|s| ::std::path::PathBuf::from(::std::convert::AsRef::<::std::path::Path>::as_ref(&s))"@,
            ),
        )
    } else {
        None
    }
}

/// The name of a type that is written as a single name: a path of one
/// segment, without a qualified self type and without a leading `::`.
pub open spec fn plain_name(ty: FieldType) -> Option<TypeName> {
    match ty.path {
        Some(path) => if !path.qualified && !path.global && path.segments@.len() == 1 {
            Some(path.segments@[0])
        } else {
            None
        },
        None => None,
    }
}

/// The built-in conversion for a declared type. Only a type written as a
/// single name has one: nothing is looked up, and no alias is followed.
pub open spec fn magic_conversion(ty: FieldType) -> Option<(Seq<char>, Seq<char>)> {
    match plain_name(ty) {
        Some(name) => rule_for(name),
        None => None,
    }
}

/// The name of the constructor's argument for a field: the field's own
/// name, or `arg` and the field's position where it has none.
pub open spec fn input_name_of(field: FieldDeclaration, index: nat) -> Seq<char> {
    match field.name {
        Some(name) => name@,
        None => "arg"@ + decimal(index),
    }
}

/// The plan that leaves a field as declared: the declared type is taken and
/// handed on unchanged.
pub open spec fn fallback_plan(field: FieldDeclaration, index: nat) -> Plan {
    Plan {
        input_type: field.ty.text@,
        input_name: input_name_of(field, index),
        struct_name: text_view(field.name),
        transform: "|i| i"@,
    }
}

/// The plan of the built-in conversion for the field's type, under the given
/// argument name.
pub open spec fn magic_plan(field: FieldDeclaration, input_name: Seq<char>) -> Option<Plan> {
    match magic_conversion(field.ty) {
        Some((input_type, transform)) => Some(
            Plan { input_type, input_name, struct_name: text_view(field.name), transform },
        ),
        None => None,
    }
}

/// The plan for a field, given what its block asks for (`None` where it has
/// no block). `ignore` leaves the field as declared; an override is taken as
/// given; a field without a block, or with an empty one, gets the built-in
/// conversion for its type where there is one, and is left as declared where
/// there is none.
pub open spec fn plan_for(field: FieldDeclaration, index: nat, config: Option<ConfigView>) -> Plan {
    match config {
        Some(ConfigView::Ignore) => fallback_plan(field, index),
        Some(ConfigView::Custom(input_type, transform)) => Plan {
            input_type,
            input_name: input_name_of(field, index),
            struct_name: text_view(field.name),
            transform,
        },
        _ => match magic_plan(field, input_name_of(field, index)) {
            Some(plan) => plan,
            None => fallback_plan(field, index),
        },
    }
}

/// Whether an attribute is a `generic_new` block: its path begins with
/// `generic_new`.
pub open spec fn is_block(attribute: Attribute) -> bool {
    attribute.name matches Some(name) && name@ == "generic_new"@
}

/// The arguments of the `generic_new` blocks among the attributes, in order.
pub open spec fn blocks_among(attributes: Seq<Attribute>) -> Seq<Option<Seq<char>>>
    decreases attributes.len(),
{
    if attributes.len() == 0 {
        Seq::empty()
    } else if is_block(attributes.last()) {
        blocks_among(attributes.drop_last()).push(text_view(attributes.last().arguments))
    } else {
        blocks_among(attributes.drop_last())
    }
}

/// The `generic_new` blocks of a field.
pub open spec fn blocks_of(field: FieldDeclaration) -> Seq<Option<Seq<char>>> {
    blocks_among(field.attributes@)
}

/// What the field's block asks for: nothing where there is no block, an
/// error where there is more than one or where the one has no bracketed
/// arguments.
pub open spec fn annotation_config(field: FieldDeclaration) -> Result<Option<ConfigView>, ErrorView> {
    let blocks = blocks_of(field);
    if blocks.len() == 0 {
        Ok(None)
    } else if blocks.len() == 1 {
        match blocks[0] {
            None => Err(ErrorView::MalformedDirective),
            Some(arguments) => match block_config(arguments) {
                Ok(config) => Ok(Some(config)),
                Err(e) => Err(e),
            },
        }
    } else {
        Err(ErrorView::DuplicateAnnotation)
    }
}

/// The plan for the field at position `index`, or why there is none.
pub open spec fn resolved(field: FieldDeclaration, index: nat) -> Result<Plan, ErrorView> {
    match annotation_config(field) {
        Ok(config) => Ok(plan_for(field, index, config)),
        Err(e) => Err(e),
    }
}

/// The plans for the fields in order, or the finding at the first field that
/// has none.
pub open spec fn resolved_fields(fields: Seq<FieldDeclaration>) -> Result<Seq<Plan>, DiagnosticView>
    decreases fields.len(),
{
    if fields.len() == 0 {
        Ok(Seq::empty())
    } else {
        match resolved_fields(fields.drop_last()) {
            Err(d) => Err(d),
            Ok(plans) => match resolved(fields.last(), (fields.len() - 1) as nat) {
                Ok(plan) => Ok(plans.push(plan)),
                Err(e) => Err(DiagnosticView { field: Some((fields.len() - 1) as usize), error: e }),
            },
        }
    }
}

/// The plans of a list, each by its view.
pub open spec fn plans_of(configs: Seq<FieldConfig>) -> Seq<Plan> {
    configs.map_values(|c: FieldConfig| c@)
}

/// The views of an optional plan.
pub open spec fn plan_view(c: Option<FieldConfig>) -> Option<Plan> {
    match c {
        Some(config) => Some(config@),
        None => None,
    }
}

/// The views of an optional configuration.
pub open spec fn config_view(c: Option<UserConfig>) -> Option<ConfigView> {
    match c {
        Some(config) => Some(config@),
        None => None,
    }
}

fn copy_text(name: &Option<String>) -> (copy: Option<String>)
    ensures
        text_view(copy) == text_view(*name),
{
    match name {
        Some(n) => Some(n.clone()),
        None => None,
    }
}

/// The argument name for the field at position `n`.
pub fn input_name(field: &FieldDeclaration, n: usize) -> (name: String)
    ensures
        name@ == input_name_of(*field, n as nat),
{
    match &field.name {
        Some(name) => name.clone(),
        None => String::from_str("arg").concat(decimal_text(n).as_str()),
    }
}

/// Looks a type's name up in the built-in conversions.
pub fn magic_rule(name: &TypeName) -> (r: Option<(String, String)>)
    ensures
        pair_view(r) == rule_for(*name),
{
    if text_eq(&name.ident, "String") && matches!(name.arguments, TypeArguments::Empty) {
        Some(
            (
                String::from_str("impl ::std::convert::AsRef<::std::primitive::str>"),
                String::from_str(
                    "|s| ::std::string::String::from(::std::convert::AsRef::<::std::primitive::str>::as_ref(&s))",
                ),
            ),
        )
    } else if text_eq(&name.ident, "Vec") {
        match &name.arguments {
            TypeArguments::AngleBracketed(arguments) => {
                if arguments.len() == 1 {
                    match &arguments[0] {
                        TypeArgument::Type(item) => Some(
                            (
                                String::from_str("impl ::std::iter::IntoIterator<Item = ").concat(
                                    item.as_str(),
                                ).concat(">"),
                                String::from_str(
                                    "|i| { let mut v = std::vec::Vec::new(); for item in i { v.push(item) } v }",
                                ),
                            ),
                        ),
                        TypeArgument::Other => None,
                    }
                } else {
                    None
                }
            },
            _ => None,
        }
    } else if text_eq(&name.ident, "PathBuf") {
        Some(
            (
                String::from_str("impl ::std::convert::AsRef<::std::path::Path>"),
                String::from_str(
                    "|s| ::std::path::PathBuf::from(::std::convert::AsRef::<::std::path::Path>::as_ref(&s))",
                ),
            ),
        )
    } else {
        None
    }
}

/// Makes the plan of the built-in conversion for the field's type, if there
/// is one, under the given argument name.
pub fn magic_field_config(field: &FieldDeclaration, input_name: String) -> (r: Option<FieldConfig>)
    ensures
        plan_view(r) == magic_plan(*field, input_name@),
{
    match &field.ty.path {
        None => None,
        Some(path) => {
            if !path.qualified && !path.global && path.segments.len() == 1 {
                match magic_rule(&path.segments[0]) {
                    Some((input_type, transform)) => Some(
                        FieldConfig {
                            input_type,
                            input_name,
                            struct_name: copy_text(&field.name),
                            transform,
                        },
                    ),
                    None => None,
                }
            } else {
                None
            }
        },
    }
}

/// Settles the plan for the field at position `n`, given what its block asks
/// for (`None` where it has no block).
pub fn plan_field(field: &FieldDeclaration, n: usize, user_config: Option<UserConfig>) -> (c:
    FieldConfig)
    ensures
        c@ == plan_for(*field, n as nat, config_view(user_config)),
{
    let input_name = input_name(field, n);
    match user_config {
        Some(UserConfig::Ignore) => FieldConfig {
            input_type: field.ty.text.clone(),
            input_name,
            struct_name: copy_text(&field.name),
            transform: String::from_str("|i| i"),
        },
        Some(UserConfig::Custom(ty, converter)) => FieldConfig {
            input_type: ty,
            input_name,
            struct_name: copy_text(&field.name),
            transform: converter,
        },
        _ => {
            let fallback_name = input_name.clone();
            match magic_field_config(field, input_name) {
                Some(config) => config,
                None => FieldConfig {
                    input_type: field.ty.text.clone(),
                    input_name: fallback_name,
                    struct_name: copy_text(&field.name),
                    transform: String::from_str("|i| i"),
                },
            }
        },
    }
}

/// The views of what a field's block was found to ask for.
pub open spec fn annotation_view(r: Result<Option<UserConfig>, GenerateError>) -> Result<
    Option<ConfigView>,
    ErrorView,
> {
    match r {
        Ok(config) => Ok(config_view(config)),
        Err(e) => Err(e@),
    }
}

/// The views of a list of blocks.
pub open spec fn blocks_view(blocks: Seq<Option<String>>) -> Seq<Option<Seq<char>>> {
    blocks.map_values(|b: Option<String>| text_view(b))
}

/// Picks the `generic_new` blocks out of a field's attributes.
pub fn generic_new_blocks(field: &FieldDeclaration) -> (blocks: Vec<Option<String>>)
    ensures
        blocks_view(blocks@) == blocks_of(*field),
{
    let mut blocks: Vec<Option<String>> = Vec::new();
    let mut i: usize = 0;
    assert(blocks_view(blocks@) =~= Seq::empty());
    assert(field.attributes@.take(0) =~= Seq::empty());
    while i < field.attributes.len()
        invariant
            i <= field.attributes@.len(),
            blocks_view(blocks@) == blocks_among(field.attributes@.take(i as int)),
        decreases field.attributes@.len() - i,
    {
        proof {
            assert(field.attributes@.take(i + 1).drop_last() =~= field.attributes@.take(i as int));
            assert(field.attributes@.take(i + 1).last() == field.attributes@[i as int]);
        }
        let attribute = &field.attributes[i];
        let own = match &attribute.name {
            Some(name) => text_eq(name, "generic_new"),
            None => false,
        };
        if own {
            let ghost before = blocks_view(blocks@);
            let arguments = copy_text(&attribute.arguments);
            blocks.push(arguments);
            assert(blocks_view(blocks@) =~= before.push(text_view(attribute.arguments)));
        }
        i = i + 1;
    }
    assert(field.attributes@.take(i as int) =~= field.attributes@);
    blocks
}

/// Finds the field's block, if it has one, and reads it.
pub fn user_config(field: &FieldDeclaration) -> (r: Result<Option<UserConfig>, GenerateError>)
    ensures
        annotation_view(r) == annotation_config(*field),
{
    let blocks = generic_new_blocks(field);
    if blocks.len() == 0 {
        Ok(None)
    } else if blocks.len() == 1 {
        match &blocks[0] {
            None => Err(GenerateError::MalformedDirective),
            Some(arguments) => match UserConfig::parse(arguments.as_str()) {
                Ok(config) => Ok(Some(config)),
                Err(e) => Err(e),
            },
        }
    } else {
        Err(GenerateError::DuplicateAnnotation)
    }
}

/// The views of the plans made for a list of fields.
pub open spec fn configs_view(r: Result<Vec<FieldConfig>, Diagnostic>) -> Result<
    Seq<Plan>,
    DiagnosticView,
> {
    match r {
        Ok(configs) => Ok(plans_of(configs@)),
        Err(d) => Err(d@),
    }
}

/// Makes the plan for every field, in declaration order. Stops at the first
/// field that has none, and says which one it is.
pub fn make_field_configs(fields: &Vec<FieldDeclaration>) -> (r: Result<Vec<FieldConfig>, Diagnostic>)
    ensures
        configs_view(r) == resolved_fields(fields@),
{
    let mut configs: Vec<FieldConfig> = Vec::new();
    let mut n: usize = 0;
    assert(plans_of(configs@) =~= Seq::empty());
    assert(fields@.take(0) =~= Seq::empty());
    while n < fields.len()
        invariant
            n <= fields@.len(),
            resolved_fields(fields@.take(n as int)) == Ok::<Seq<Plan>, DiagnosticView>(
                plans_of(configs@),
            ),
        decreases fields@.len() - n,
    {
        proof {
            assert(fields@.take(n + 1).drop_last() =~= fields@.take(n as int));
            assert(fields@.take(n + 1).last() == fields@[n as int]);
        }
        let field = &fields[n];
        match user_config(field) {
            Err(error) => {
                proof {
                    lemma_first_failure_stands(fields@, n + 1);
                }
                return Err(Diagnostic { field: Some(n), error });
            },
            Ok(config) => {
                let ghost before = plans_of(configs@);
                let plan = plan_field(field, n, config);
                configs.push(plan);
                assert(plans_of(configs@) =~= before.push(plan@));
            },
        }
        n = n + 1;
    }
    assert(fields@.take(n as int) =~= fields@);
    Ok(configs)
}

/// Once the fields up to some position have no plans, the whole list has
/// none, with the same finding.
pub proof fn lemma_first_failure_stands(fields: Seq<FieldDeclaration>, n: int)
    requires
        0 <= n <= fields.len(),
        resolved_fields(fields.take(n)) is Err,
    ensures
        resolved_fields(fields) == resolved_fields(fields.take(n)),
    decreases fields.len() - n,
{
    if n == fields.len() {
        assert(fields.take(n) =~= fields);
    } else {
        assert(fields.take(n + 1).drop_last() =~= fields.take(n));
        lemma_first_failure_stands(fields, n + 1);
    }
}

/// Where every field before position `k` has a plan and the field at `k`
/// has none, the finding is the one made at `k`.
pub proof fn lemma_first_failure_is_reported(fields: Seq<FieldDeclaration>, k: int)
    requires
        0 <= k < fields.len(),
        forall|j: int| 0 <= j < k ==> (#[trigger] resolved(fields[j], j as nat)) is Ok,
        resolved(fields[k], k as nat) is Err,
    ensures
        resolved_fields(fields) == Err::<Seq<Plan>, DiagnosticView>(
            DiagnosticView { field: Some(k as usize), error: resolved(fields[k], k as nat)->Err_0 },
        ),
{
    lemma_all_planned(fields.take(k));
    assert(fields.take(k + 1).drop_last() =~= fields.take(k));
    assert(fields.take(k + 1).last() == fields[k]);
    lemma_first_failure_stands(fields, k + 1);
}

/// Where every field has a plan, the plans come one per field, in
/// declaration order.
pub proof fn lemma_all_planned(fields: Seq<FieldDeclaration>)
    requires
        forall|j: int| 0 <= j < fields.len() ==> (#[trigger] resolved(fields[j], j as nat)) is Ok,
    ensures
        resolved_fields(fields) is Ok,
        resolved_fields(fields)->Ok_0.len() == fields.len(),
        forall|j: int|
            0 <= j < fields.len() ==> Ok::<Plan, ErrorView>(
                #[trigger] resolved_fields(fields)->Ok_0[j],
            ) == resolved(fields[j], j as nat),
    decreases fields.len(),
{
    if fields.len() > 0 {
        let front = fields.drop_last();
        assert forall|j: int| 0 <= j < front.len() implies (#[trigger] resolved(
            front[j],
            j as nat,
        )) is Ok by {
            assert(front[j] == fields[j]);
            assert(resolved(fields[j], j as nat) is Ok);
        }
        lemma_all_planned(front);
        assert(resolved(fields[fields.len() - 1], (fields.len() - 1) as nat) is Ok);
        let plans = resolved_fields(fields)->Ok_0;
        assert forall|j: int| 0 <= j < fields.len() implies Ok::<Plan, ErrorView>(
            #[trigger] plans[j],
        ) == resolved(fields[j], j as nat) by {
            if j < front.len() {
                assert(front[j] == fields[j]);
                assert(plans[j] == resolved_fields(front)->Ok_0[j]);
            }
        }
    }
}

/// A field without a block, of a type that no built-in conversion matches,
/// is taken as declared and handed on unchanged.
pub proof fn lemma_plain_field_is_unchanged(field: FieldDeclaration, index: nat)
    requires
        blocks_of(field).len() == 0,
        magic_conversion(field.ty) is None,
    ensures
        resolved(field, index) == Ok::<Plan, ErrorView>(fallback_plan(field, index)),
        fallback_plan(field, index).input_type == field.ty.text@,
        fallback_plan(field, index).transform == "|i| i"@,
{
}

/// A `String` field without a block takes anything that refers to a `str`
/// and is built from it with `String::from`.
pub proof fn lemma_string_field_takes_text(field: FieldDeclaration, index: nat)
    requires
        blocks_of(field).len() == 0,
        plain_name(field.ty) matches Some(name) && name.ident@ == "String"@
            && name.arguments is Empty,
    ensures
        resolved(field, index) matches Ok(plan) && plan.input_type
            == "impl ::std::convert::AsRef<::std::primitive::str>"@ && plan.transform
            == "|s| ::std::string::String::from(::std::convert::AsRef::<::std::primitive::str>::as_ref(&s))"@
            && plan.input_name == input_name_of(field, index) && plan.struct_name == text_view(
            field.name,
        ),
{
}

/// A `Vec<T>` field without a block takes anything that iterates over `T`
/// and is filled from it item by item, in order.
pub proof fn lemma_vec_field_takes_iterable(field: FieldDeclaration, index: nat, item: String)
    requires
        blocks_of(field).len() == 0,
        plain_name(field.ty) matches Some(name) && name.ident@ == "Vec"@ && (name.arguments matches TypeArguments::AngleBracketed(
            arguments,
        ) && arguments@.len() == 1 && arguments@[0] == TypeArgument::Type(item)),
    ensures
        resolved(field, index) matches Ok(plan) && plan.input_type
            == "impl ::std::iter::IntoIterator<Item = "@ + item@ + ">"@ && plan.transform
            == "|i| { let mut v = std::vec::Vec::new(); for item in i { v.push(item) } v }"@
            && plan.input_name == input_name_of(field, index) && plan.struct_name == text_view(
            field.name,
        ),
{
    reveal_strlit("Vec");
    reveal_strlit("String");
    assert("Vec"@.len() == 3);
    assert("String"@.len() == 6);
}

/// A field whose block says `ignore` gets the plan that a plain field gets,
/// whatever its declared type.
pub proof fn lemma_ignored_field_is_unchanged(field: FieldDeclaration, index: nat)
    ensures
        plan_for(field, index, Some(ConfigView::Ignore)) == fallback_plan(field, index),
        annotation_config(field) == Ok::<Option<ConfigView>, ErrorView>(Some(ConfigView::Ignore))
            ==> resolved(field, index) == Ok::<Plan, ErrorView>(fallback_plan(field, index)),
        fallback_plan(field, index).input_type == field.ty.text@,
        fallback_plan(field, index).transform == "|i| i"@,
{
}

/// A field whose block gives a type and a converter takes exactly that type
/// and applies exactly that converter, whatever its declared type.
pub proof fn lemma_custom_field_is_as_asked(
    field: FieldDeclaration,
    index: nat,
    ty: Seq<char>,
    converter: Seq<char>,
)
    ensures
        plan_for(field, index, Some(ConfigView::Custom(ty, converter))) == (Plan {
            input_type: ty,
            input_name: input_name_of(field, index),
            struct_name: text_view(field.name),
            transform: converter,
        }),
        annotation_config(field) == Ok::<Option<ConfigView>, ErrorView>(
            Some(ConfigView::Custom(ty, converter)),
        ) ==> resolved(field, index) == Ok::<Plan, ErrorView>(
            plan_for(field, index, Some(ConfigView::Custom(ty, converter))),
        ),
{
}

/// A field with more than one block has no plan.
pub proof fn lemma_second_block_is_duplicate(field: FieldDeclaration, index: nat)
    requires
        blocks_of(field).len() >= 2,
    ensures
        resolved(field, index) == Err::<Plan, ErrorView>(ErrorView::DuplicateAnnotation),
{
}

} // verus!
