//! From a declaration to the source text of its constructor.

use vstd::prelude::*;
use crate::error::{Diagnostic, DiagnosticView, ErrorView, GenerateError, ShapeKind};
use crate::field::{
    blocks_of, input_text, lemma_all_planned, lemma_first_failure_is_reported, make_field_configs,
    output_text, plans_of, resolved, resolved_fields, transform_text, FieldConfig,
    FieldDeclaration, Plan,
};
use crate::text::{result_view, terminated};

verus! {

/// How the fields of a struct are addressed.
#[derive(Clone, Copy, Debug, PartialEq, Eq, Structural)]
pub enum Layout {
    /// By name, between braces.
    Named,
    /// By position, between round brackets.
    Positional,
}

/// What kind of type a declaration declares.
#[derive(Clone, Debug, PartialEq, Eq)]
pub enum DeclarationBody {
    /// A struct with its fields in declaration order; a unit struct has none.
    Struct(Layout, Vec<FieldDeclaration>),
    Enum,
    Union,
}

/// A type declaration: its name and what it declares.
#[derive(Clone, Debug, PartialEq, Eq)]
pub struct Declaration {
    pub ident: String,
    pub body: DeclarationBody,
}

/// The arguments of `new`, each with a comma after it.
pub open spec fn inputs_text(plans: Seq<Plan>) -> Seq<char> {
    terminated(plans.map_values(|p: Plan| input_text(p)), ", "@)
}

/// The statements of `new`, in field order, each with a semicolon after it.
pub open spec fn transforms_text(plans: Seq<Plan>) -> Seq<char> {
    terminated(plans.map_values(|p: Plan| transform_text(p)), "; "@)
}

/// The fields of the struct expression, each with a comma after it.
pub open spec fn outputs_text(plans: Seq<Plan>) -> Seq<char> {
    terminated(plans.map_values(|p: Plan| output_text(p)), ", "@)
}

/// The expression that builds the value: braces for named fields, round
/// brackets for positional ones.
pub open spec fn construction_text(layout: Layout, plans: Seq<Plan>) -> Seq<char> {
    match layout {
        Layout::Named => "Self { "@ + outputs_text(plans) + "}"@,
        Layout::Positional => "Self("@ + outputs_text(plans) + ")"@,
    }
}

/// The `impl` block that holds the constructor.
pub open spec fn constructor_text(ident: Seq<char>, layout: Layout, plans: Seq<Plan>) -> Seq<char> {
    "impl "@ + ident + " { pub fn new("@ + inputs_text(plans) + ") -> Self { "@ + transforms_text(
        plans,
    ) + construction_text(layout, plans) + " } }"@
}

/// The constructor for a struct with the given plans; none is written for a
/// struct without fields.
pub open spec fn emitted(ident: Seq<char>, layout: Layout, plans: Seq<Plan>) -> Result<
    Seq<char>,
    ErrorView,
> {
    if plans.len() == 0 {
        Err(ErrorView::UnsupportedShape(ShapeKind::NoFields))
    } else {
        Ok(constructor_text(ident, layout, plans))
    }
}

/// A finding that belongs to no field.
pub open spec fn unlocated(error: ErrorView) -> DiagnosticView {
    DiagnosticView { field: None, error }
}

/// What generation yields for a declaration: the constructor's text, or the
/// first finding. Enums and unions are turned down before any field is
/// looked at; a struct's fields are planned in order, and one finding ends
/// it; a struct without fields is turned down.
pub open spec fn generated(declaration: Declaration) -> Result<Seq<char>, DiagnosticView> {
    match declaration.body {
        DeclarationBody::Enum => Err(unlocated(ErrorView::UnsupportedShape(ShapeKind::Enum))),
        DeclarationBody::Union => Err(unlocated(ErrorView::UnsupportedShape(ShapeKind::Union))),
        DeclarationBody::Struct(layout, fields) => match resolved_fields(fields@) {
            Err(d) => Err(d),
            Ok(plans) => match emitted(declaration.ident@, layout, plans) {
                Ok(text) => Ok(text),
                Err(e) => Err(unlocated(e)),
            },
        },
    }
}

/// Which of a plan's three texts to write.
#[derive(Clone, Copy, Debug, PartialEq, Eq, Structural)]
pub enum Part {
    Input,
    Transform,
    Output,
}

/// The text of one part of a plan.
pub open spec fn part_text(part: Part, plan: Plan) -> Seq<char> {
    match part {
        Part::Input => input_text(plan),
        Part::Transform => transform_text(plan),
        Part::Output => output_text(plan),
    }
}

/// One part of every plan in order, each followed by `end`.
pub open spec fn parts_text(part: Part, plans: Seq<Plan>, end: Seq<char>) -> Seq<char> {
    terminated(plans.map_values(|p: Plan| part_text(part, p)), end)
}

/// Writes one part of every plan in order, each followed by `end`.
pub fn write_parts(part: Part, configs: &Vec<FieldConfig>, end: &str) -> (t: String)
    ensures
        t@ == parts_text(part, plans_of(configs@), end@),
{
    let mut text = String::new();
    let ghost parts = plans_of(configs@).map_values(|p: Plan| part_text(part, p));
    let mut i: usize = 0;
    assert(parts.take(0) =~= Seq::empty());
    while i < configs.len()
        invariant
            i <= configs@.len(),
            parts == plans_of(configs@).map_values(|p: Plan| part_text(part, p)),
            text@ == terminated(parts.take(i as int), end@),
        decreases configs@.len() - i,
    {
        proof {
            assert(parts.take(i + 1).drop_last() =~= parts.take(i as int));
            assert(parts.take(i + 1).last() == part_text(part, configs@[i as int]@));
        }
        let piece = match part {
            Part::Input => configs[i].input(),
            Part::Transform => configs[i].transform(),
            Part::Output => configs[i].output(),
        };
        text.append(piece.as_str());
        text.append(end);
        i = i + 1;
    }
    assert(parts.take(i as int) =~= parts);
    text
}

/// Writes the constructor for a struct named `ident` from the plans of its
/// fields. Fails with `UnsupportedShape` where there is no field.
pub fn emit_constructor(ident: &str, layout: Layout, configs: &Vec<FieldConfig>) -> (r: Result<
    String,
    GenerateError,
>)
    ensures
        result_view(r) == emitted(ident@, layout, plans_of(configs@)),
{
    if configs.len() == 0 {
        return Err(GenerateError::UnsupportedShape(ShapeKind::NoFields));
    }
    let ghost plans = plans_of(configs@);
    let inputs = write_parts(Part::Input, configs, ", ");
    let transforms = write_parts(Part::Transform, configs, "; ");
    let outputs = write_parts(Part::Output, configs, ", ");
    proof {
        assert(plans.map_values(|p: Plan| part_text(Part::Input, p)) =~= plans.map_values(
            |p: Plan| input_text(p),
        ));
        assert(plans.map_values(|p: Plan| part_text(Part::Transform, p)) =~= plans.map_values(
            |p: Plan| transform_text(p),
        ));
        assert(plans.map_values(|p: Plan| part_text(Part::Output, p)) =~= plans.map_values(
            |p: Plan| output_text(p),
        ));
    }
    let construction = match layout {
        Layout::Named => String::from_str("Self { ").concat(outputs.as_str()).concat("}"),
        Layout::Positional => String::from_str("Self(").concat(outputs.as_str()).concat(")"),
    };
    Ok(
        String::from_str("impl ").concat(ident).concat(" { pub fn new(").concat(
            inputs.as_str(),
        ).concat(") -> Self { ").concat(transforms.as_str()).concat(construction.as_str()).concat(
            " } }",
        ),
    )
}

/// Generates the source text of `new` for a declaration.
pub fn derive_generic_new(declaration: &Declaration) -> (r: Result<String, Diagnostic>)
    ensures
        result_view(r) == generated(*declaration),
{
    match &declaration.body {
        DeclarationBody::Enum => Err(
            Diagnostic { field: None, error: GenerateError::UnsupportedShape(ShapeKind::Enum) },
        ),
        DeclarationBody::Union => Err(
            Diagnostic { field: None, error: GenerateError::UnsupportedShape(ShapeKind::Union) },
        ),
        DeclarationBody::Struct(layout, fields) => match make_field_configs(fields) {
            Err(d) => Err(d),
            Ok(configs) => match emit_constructor(declaration.ident.as_str(), *layout, &configs) {
                Ok(text) => Ok(text),
                Err(error) => Err(Diagnostic { field: None, error }),
            },
        },
    }
}

/// No constructor is written for an enum, for a union, or for a struct
/// without fields: each is turned down as a whole, with its own kind.
pub proof fn lemma_unsupported_shapes(declaration: Declaration)
    ensures
        declaration.body is Enum ==> generated(declaration) == Err::<Seq<char>, DiagnosticView>(
            unlocated(ErrorView::UnsupportedShape(ShapeKind::Enum)),
        ),
        declaration.body is Union ==> generated(declaration) == Err::<Seq<char>, DiagnosticView>(
            unlocated(ErrorView::UnsupportedShape(ShapeKind::Union)),
        ),
        (declaration.body matches DeclarationBody::Struct(_, fields) && fields@.len() == 0)
            ==> generated(declaration) == Err::<Seq<char>, DiagnosticView>(
            unlocated(ErrorView::UnsupportedShape(ShapeKind::NoFields)),
        ),
{
}

/// A struct with a field that has more than one block, and whose earlier
/// fields all have plans, is turned down at that field with
/// `DuplicateAnnotation`.
pub proof fn lemma_second_block_ends_generation(declaration: Declaration, k: int)
    requires
        declaration.body matches DeclarationBody::Struct(_, fields) && 0 <= k < fields@.len()
            && blocks_of(fields@[k]).len() >= 2 && forall|j: int|
            0 <= j < k ==> (#[trigger] resolved(fields@[j], j as nat)) is Ok,
    ensures
        generated(declaration) == Err::<Seq<char>, DiagnosticView>(
            DiagnosticView { field: Some(k as usize), error: ErrorView::DuplicateAnnotation },
        ),
{
    match declaration.body {
        DeclarationBody::Struct(_, fields) => {
            lemma_first_failure_is_reported(fields@, k);
        },
        _ => {},
    }
}

/// A struct with at least one field, every one of which has a plan, gets a
/// constructor written from exactly those plans, one per field in order.
pub proof fn lemma_planned_struct_is_generated(declaration: Declaration)
    requires
        declaration.body matches DeclarationBody::Struct(_, fields) && fields@.len() > 0
            && forall|j: int|
            0 <= j < fields@.len() ==> (#[trigger] resolved(fields@[j], j as nat)) is Ok,
    ensures
        declaration.body matches DeclarationBody::Struct(layout, fields) && resolved_fields(
            fields@,
        ) matches Ok(plans) && plans.len() == fields@.len() && generated(declaration) == Ok::<
            Seq<char>,
            DiagnosticView,
        >(constructor_text(declaration.ident@, layout, plans)),
{
    match declaration.body {
        DeclarationBody::Struct(_, fields) => {
            lemma_all_planned(fields@);
        },
        _ => {},
    }
}

} // verus!
