//! What the directives of one block ask for, taken together.

use vstd::prelude::*;
use crate::attributes::{directive_at_front, Directive, UserAttribute};
use crate::error::{DirectiveKind, ErrorView, GenerateError};
use crate::syntax::{after_comma, is_blank, no_tokens, skip_comma, text_view};
use crate::text::result_view;

verus! {

/// Config added by the user.
#[derive(Clone, Debug, PartialEq, Eq)]
pub enum UserConfig {
    /// The block holds no directive.
    Nothing,
    /// Leave the field as declared.
    Ignore,
    /// Take this type, and apply this expression to it.
    Custom(String, String),
}

/// A `UserConfig` with its texts as sequences of characters.
pub enum ConfigView {
    Nothing,
    Ignore,
    Custom(Seq<char>, Seq<char>),
}

impl View for UserConfig {
    type V = ConfigView;

    open spec fn view(&self) -> ConfigView {
        match *self {
            UserConfig::Nothing => ConfigView::Nothing,
            UserConfig::Ignore => ConfigView::Ignore,
            UserConfig::Custom(ty, converter) => ConfigView::Custom(ty@, converter@),
        }
    }
}

impl Default for UserConfig {
    /// A field without directives.
    fn default() -> (config: UserConfig)
        ensures
            config == UserConfig::Nothing,
    {
        UserConfig::Nothing
    }
}

/// The three things a block can say, each at most once.
pub struct Slots {
    pub ignore: bool,
    pub input_type: Option<Seq<char>>,
    pub converter: Option<Seq<char>>,
}

/// Nothing said yet.
pub open spec fn no_slots() -> Slots {
    Slots { ignore: false, input_type: None, converter: None }
}

/// `slots` after one more directive; an error where its kind was there already.
pub open spec fn note(slots: Slots, directive: Directive) -> Result<Slots, ErrorView> {
    match directive {
        Directive::Ignore => if slots.ignore {
            Err(ErrorView::DuplicateDirective(DirectiveKind::Ignore))
        } else {
            Ok(Slots { ignore: true, ..slots })
        },
        Directive::InputType(ty) => if slots.input_type.is_some() {
            Err(ErrorView::DuplicateDirective(DirectiveKind::InputType))
        } else {
            Ok(Slots { input_type: Some(ty), ..slots })
        },
        Directive::Converter(expr) => if slots.converter.is_some() {
            Err(ErrorView::DuplicateDirective(DirectiveKind::Converter))
        } else {
            Ok(Slots { converter: Some(expr), ..slots })
        },
    }
}

/// The slots filled by `directives` from first to last; the error of the
/// first directive that repeats a kind.
pub open spec fn fill(directives: Seq<Directive>) -> Result<Slots, ErrorView>
    decreases directives.len(),
{
    if directives.len() == 0 {
        Ok(no_slots())
    } else {
        match fill(directives.drop_last()) {
            Ok(slots) => note(slots, directives.last()),
            Err(e) => Err(e),
        }
    }
}

/// What filled slots amount to: `ignore` stands alone, and an override needs
/// both its type and its converter.
pub open spec fn classify(slots: Slots) -> Result<ConfigView, ErrorView> {
    if slots.ignore {
        if slots.input_type.is_none() && slots.converter.is_none() {
            Ok(ConfigView::Ignore)
        } else {
            Err(ErrorView::ConflictingDirectives)
        }
    } else {
        match (slots.input_type, slots.converter) {
            (None, None) => Ok(ConfigView::Nothing),
            (Some(ty), Some(expr)) => Ok(ConfigView::Custom(ty, expr)),
            _ => Err(ErrorView::IncompleteOverride),
        }
    }
}

/// The configuration that a list of directives asks for.
pub open spec fn config_of(directives: Seq<Directive>) -> Result<ConfigView, ErrorView> {
    match fill(directives) {
        Ok(slots) => classify(slots),
        Err(e) => Err(e),
    }
}

/// The directives of a list, each by its view.
pub open spec fn directives_of(attributes: Seq<UserAttribute>) -> Seq<Directive> {
    attributes.map_values(|a: UserAttribute| a@)
}

/// `first` put before a list that was read, or the error of reading it.
pub open spec fn after_first(first: Seq<Directive>, read: Result<Seq<Directive>, ErrorView>) -> Result<
    Seq<Directive>,
    ErrorView,
> {
    match read {
        Ok(more) => Ok(first + more),
        Err(e) => Err(e),
    }
}

/// The directives of a block: none where it holds no token, else directives
/// parted by commas, with or without a comma after the last.
///
/// `rounds` bounds how many directives are read. A block of `n` characters
/// holds fewer than `n + 1` of them, so with `rounds` at the block's length
/// the bound is never what ends the reading.
pub open spec fn block_directives(src: Seq<char>, rounds: nat) -> Result<Seq<Directive>, ErrorView>
    decreases rounds,
{
    if no_tokens(src) {
        Ok(Seq::empty())
    } else if rounds == 0 {
        Err(ErrorView::MalformedDirective)
    } else {
        match directive_at_front(src) {
            Err(e) => Err(e),
            Ok((directive, rest)) => if no_tokens(rest) {
                Ok(seq![directive])
            } else {
                match after_comma(rest) {
                    None => Err(ErrorView::MalformedDirective),
                    Some(next) => after_first(seq![directive], block_directives(next, (rounds - 1) as nat)),
                }
            },
        }
    }
}

/// The configuration that a block asks for. Errors of reading the block come
/// before errors of what it says.
pub open spec fn block_config(src: Seq<char>) -> Result<ConfigView, ErrorView> {
    match block_directives(src, src.len()) {
        Ok(directives) => config_of(directives),
        Err(e) => Err(e),
    }
}

/// The views of a list of directives that was read.
pub open spec fn attributes_view(r: Result<Vec<UserAttribute>, GenerateError>) -> Result<
    Seq<Directive>,
    ErrorView,
> {
    match r {
        Ok(attributes) => Ok(directives_of(attributes@)),
        Err(e) => Err(e@),
    }
}

/// Reads the directives of a block, in the order they stand in: directives
/// parted by commas, with or without a comma after the last. Reads at most
/// as many directives as the block has characters, which is more than any
/// block holds.
pub fn parse_terminated(src: &str) -> (r: Result<Vec<UserAttribute>, GenerateError>)
    ensures
        attributes_view(r) == block_directives(src@, src@.len()),
{
    let mut found: Vec<UserAttribute> = Vec::new();
    let mut rest: String = String::from_str(src);
    let mut rounds: usize = src.unicode_len();
    let ghost whole = block_directives(src@, src@.len());
    assert(directives_of(found@) =~= Seq::empty());
    loop
        invariant
            whole == block_directives(src@, src@.len()),
            whole == after_first(directives_of(found@), block_directives(rest@, rounds as nat)),
        decreases rounds,
    {
        if is_blank(rest.as_str()) {
            assert(directives_of(found@) + Seq::<Directive>::empty() =~= directives_of(found@));
            return Ok(found);
        }
        if rounds == 0 {
            return Err(GenerateError::MalformedDirective);
        }
        match UserAttribute::parse(rest.as_str()) {
            Err(e) => {
                return Err(e);
            },
            Ok((attribute, left)) => {
                let ghost before = directives_of(found@);
                found.push(attribute);
                assert(directives_of(found@) =~= before + seq![attribute@]);
                if is_blank(left.as_str()) {
                    return Ok(found);
                }
                match skip_comma(left.as_str()) {
                    None => {
                        return Err(GenerateError::MalformedDirective);
                    },
                    Some(next) => {
                        proof {
                            let read = block_directives(next@, (rounds - 1) as nat);
                            match read {
                                Ok(more) => {
                                    assert(before + (seq![attribute@] + more) =~= (before + seq![
                                        attribute@,
                                    ]) + more);
                                },
                                Err(_) => {},
                            }
                        }
                        rest = next;
                        rounds = rounds - 1;
                    },
                }
            },
        }
    }
}

impl UserConfig {
    /// Settles what a list of directives asks for.
    ///
    /// Fails with `DuplicateDirective` at the first directive whose kind came
    /// before; else with `ConflictingDirectives` where `ignore` stands beside
    /// an override, and with `IncompleteOverride` where only one of `ty` and
    /// `converter` is given.
    pub fn from_attributes(attributes: &Vec<UserAttribute>) -> (r: Result<UserConfig, GenerateError>)
        ensures
            result_view(r) == config_of(directives_of(attributes@)),
    {
        let mut ignore = false;
        let mut input_type: Option<String> = None;
        let mut converter: Option<String> = None;
        let ghost all = directives_of(attributes@);
        let mut i: usize = 0;
        while i < attributes.len()
            invariant
                i <= attributes@.len(),
                all == directives_of(attributes@),
                fill(all.take(i as int)) == Ok::<Slots, ErrorView>(
                    Slots {
                        ignore,
                        input_type: text_view(input_type),
                        converter: text_view(converter),
                    },
                ),
            decreases attributes@.len() - i,
        {
            proof {
                assert(all.take(i + 1).drop_last() =~= all.take(i as int));
                assert(all.take(i + 1).last() == attributes@[i as int]@);
            }
            match &attributes[i] {
                UserAttribute::Ignore => {
                    if ignore {
                        proof {
                            lemma_fill_fails_on(all, i + 1);
                        }
                        return Err(GenerateError::DuplicateDirective(DirectiveKind::Ignore));
                    }
                    ignore = true;
                },
                UserAttribute::InputType(ty) => {
                    if input_type.is_some() {
                        proof {
                            lemma_fill_fails_on(all, i + 1);
                        }
                        return Err(GenerateError::DuplicateDirective(DirectiveKind::InputType));
                    }
                    input_type = Some(ty.clone());
                },
                UserAttribute::Converter(expr) => {
                    if converter.is_some() {
                        proof {
                            lemma_fill_fails_on(all, i + 1);
                        }
                        return Err(GenerateError::DuplicateDirective(DirectiveKind::Converter));
                    }
                    converter = Some(expr.clone());
                },
            }
            i = i + 1;
        }
        assert(all.take(i as int) =~= all);
        if ignore {
            if input_type.is_none() && converter.is_none() {
                Ok(UserConfig::Ignore)
            } else {
                Err(GenerateError::ConflictingDirectives)
            }
        } else {
            match (input_type, converter) {
                (None, None) => Ok(UserConfig::Nothing),
                (Some(ty), Some(expr)) => Ok(UserConfig::Custom(ty, expr)),
                _ => Err(GenerateError::IncompleteOverride),
            }
        }
    }

    /// Reads a block and settles what it asks for.
    pub fn parse(src: &str) -> (r: Result<UserConfig, GenerateError>)
        ensures
            result_view(r) == block_config(src@),
    {
        match parse_terminated(src) {
            Ok(attributes) => UserConfig::from_attributes(&attributes),
            Err(e) => Err(e),
        }
    }
}

/// Once a beginning of a list fails to fill the slots, the whole list fails
/// in the same way.
pub proof fn lemma_fill_fails_on(directives: Seq<Directive>, n: int)
    requires
        0 <= n <= directives.len(),
        fill(directives.take(n)) is Err,
    ensures
        fill(directives) == fill(directives.take(n)),
    decreases directives.len() - n,
{
    if n == directives.len() {
        assert(directives.take(n) =~= directives);
    } else {
        assert(directives.take(n + 1).drop_last() =~= directives.take(n));
        lemma_fill_fails_on(directives, n + 1);
    }
}

/// The kind of a directive.
pub open spec fn kind_of(directive: Directive) -> DirectiveKind {
    match directive {
        Directive::Ignore => DirectiveKind::Ignore,
        Directive::InputType(_) => DirectiveKind::InputType,
        Directive::Converter(_) => DirectiveKind::Converter,
    }
}

/// Whether a directive of the given kind stands in the list.
pub open spec fn has_kind(directives: Seq<Directive>, kind: DirectiveKind) -> bool {
    exists|i: int| 0 <= i < directives.len() && kind_of(#[trigger] directives[i]) == kind
}

/// Whether no two directives of the list are of one kind.
pub open spec fn no_kind_repeated(directives: Seq<Directive>) -> bool {
    forall|i: int, j: int|
        0 <= i < j < directives.len() ==> kind_of(#[trigger] directives[i]) != kind_of(
            #[trigger] directives[j],
        )
}

/// Whether the slot for the given kind is filled.
pub open spec fn slot_filled(slots: Slots, kind: DirectiveKind) -> bool {
    match kind {
        DirectiveKind::Ignore => slots.ignore,
        DirectiveKind::InputType => slots.input_type.is_some(),
        DirectiveKind::Converter => slots.converter.is_some(),
    }
}

/// Whether the slot of the directive's kind holds what the directive says.
pub open spec fn slot_holds(slots: Slots, directive: Directive) -> bool {
    match directive {
        Directive::Ignore => slots.ignore,
        Directive::InputType(ty) => slots.input_type == Some(ty),
        Directive::Converter(expr) => slots.converter == Some(expr),
    }
}

/// A list in which no kind is repeated fills the slots: each directive is
/// found in its slot, and no slot is filled without a directive of its kind.
pub proof fn lemma_fill_distinct(directives: Seq<Directive>)
    requires
        no_kind_repeated(directives),
    ensures
        fill(directives) is Ok,
        forall|i: int|
            0 <= i < directives.len() ==> slot_holds(fill(directives)->Ok_0, #[trigger] directives[i]),
        forall|kind: DirectiveKind|
            slot_filled(fill(directives)->Ok_0, kind) ==> has_kind(directives, kind),
    decreases directives.len(),
{
    if directives.len() > 0 {
        let front = directives.drop_last();
        let last = directives.last();
        assert forall|i: int, j: int| 0 <= i < j < front.len() implies kind_of(
            #[trigger] front[i],
        ) != kind_of(#[trigger] front[j]) by {
            assert(front[i] == directives[i] && front[j] == directives[j]);
        }
        lemma_fill_distinct(front);
        let slots = fill(front)->Ok_0;
        if slot_filled(slots, kind_of(last)) {
            assert(has_kind(front, kind_of(last)));
            let i = choose|i: int| 0 <= i < front.len() && kind_of(#[trigger] front[i]) == kind_of(last);
            assert(front[i] == directives[i]);
            assert(kind_of(directives[i]) == kind_of(directives[directives.len() - 1]));
            assert(false);
        }
        let after = fill(directives)->Ok_0;
        assert(note(slots, last) == Ok::<Slots, ErrorView>(after));
        assert forall|i: int| 0 <= i < directives.len() implies slot_holds(
            after,
            #[trigger] directives[i],
        ) by {
            if i < front.len() {
                assert(front[i] == directives[i]);
                assert(slot_holds(slots, front[i]));
                assert(kind_of(directives[i]) != kind_of(directives[directives.len() - 1]));
            }
        }
        assert forall|kind: DirectiveKind| slot_filled(after, kind) implies has_kind(
            directives,
            kind,
        ) by {
            if kind == kind_of(last) {
                assert(kind_of(directives[directives.len() - 1]) == kind);
            } else {
                assert(slot_filled(slots, kind));
                assert(has_kind(front, kind));
                let i = choose|i: int| 0 <= i < front.len() && kind_of(#[trigger] front[i]) == kind;
                assert(front[i] == directives[i]);
            }
        }
    }
}

/// A list fills the slots only if no kind is repeated in it, and fails with
/// nothing but `DuplicateDirective`.
pub proof fn lemma_fill_repeated(directives: Seq<Directive>)
    requires
        !no_kind_repeated(directives),
    ensures
        fill(directives) matches Err(ErrorView::DuplicateDirective(_)),
    decreases directives.len(),
{
    let front = directives.drop_last();
    let last = directives.last();
    if no_kind_repeated(front) {
        lemma_fill_distinct(front);
        let slots = fill(front)->Ok_0;
        let (i, j) = choose|i: int, j: int|
            0 <= i < j < directives.len() && kind_of(#[trigger] directives[i]) == kind_of(
                #[trigger] directives[j],
            );
        if j < front.len() {
            assert(front[i] == directives[i] && front[j] == directives[j]);
            assert(false);
        }
        assert(front[i] == directives[i]);
        assert(slot_holds(slots, front[i]));
    } else {
        lemma_fill_repeated(front);
    }
}

/// An empty list asks for nothing.
pub proof fn lemma_no_directive_asks_nothing()
    ensures
        config_of(Seq::empty()) == Ok::<ConfigView, ErrorView>(ConfigView::Nothing),
{
}

/// `ignore` with nothing beside it asks to leave the field as declared.
pub proof fn lemma_ignore_alone(directives: Seq<Directive>)
    requires
        directives.len() == 1,
        directives[0] == Directive::Ignore,
    ensures
        config_of(directives) == Ok::<ConfigView, ErrorView>(ConfigView::Ignore),
{
    assert(no_kind_repeated(directives));
    lemma_fill_distinct(directives);
    let slots = fill(directives)->Ok_0;
    assert(slot_holds(slots, directives[0]));
    if slots.input_type.is_some() {
        assert(slot_filled(slots, DirectiveKind::InputType));
        assert(has_kind(directives, DirectiveKind::InputType));
    }
    if slots.converter.is_some() {
        assert(slot_filled(slots, DirectiveKind::Converter));
        assert(has_kind(directives, DirectiveKind::Converter));
    }
}

/// A type and a converter, in either order and without `ignore`, ask for
/// exactly that type and that converter.
pub proof fn lemma_both_overrides_are_custom(
    directives: Seq<Directive>,
    ty: Seq<char>,
    converter: Seq<char>,
)
    requires
        no_kind_repeated(directives),
        !has_kind(directives, DirectiveKind::Ignore),
        directives.contains(Directive::InputType(ty)),
        directives.contains(Directive::Converter(converter)),
    ensures
        config_of(directives) == Ok::<ConfigView, ErrorView>(ConfigView::Custom(ty, converter)),
{
    lemma_fill_distinct(directives);
    let slots = fill(directives)->Ok_0;
    let i = choose|i: int| 0 <= i < directives.len() && directives[i] == Directive::InputType(ty);
    let j = choose|j: int|
        0 <= j < directives.len() && directives[j] == Directive::Converter(converter);
    assert(slot_holds(slots, directives[i]));
    assert(slot_holds(slots, directives[j]));
    if slots.ignore {
        assert(slot_filled(slots, DirectiveKind::Ignore));
    }
}

/// `ignore` beside a type or a converter is a conflict, wherever no kind is
/// repeated.
pub proof fn lemma_ignore_conflicts_with_overrides(directives: Seq<Directive>)
    requires
        no_kind_repeated(directives),
        has_kind(directives, DirectiveKind::Ignore),
        has_kind(directives, DirectiveKind::InputType) || has_kind(
            directives,
            DirectiveKind::Converter,
        ),
    ensures
        config_of(directives) == Err::<ConfigView, ErrorView>(ErrorView::ConflictingDirectives),
{
    lemma_fill_distinct(directives);
    let slots = fill(directives)->Ok_0;
    let i = choose|i: int|
        0 <= i < directives.len() && kind_of(#[trigger] directives[i]) == DirectiveKind::Ignore;
    assert(slot_holds(slots, directives[i]));
    if has_kind(directives, DirectiveKind::InputType) {
        let j = choose|j: int|
            0 <= j < directives.len() && kind_of(#[trigger] directives[j])
                == DirectiveKind::InputType;
        assert(slot_holds(slots, directives[j]));
    } else {
        let j = choose|j: int|
            0 <= j < directives.len() && kind_of(#[trigger] directives[j])
                == DirectiveKind::Converter;
        assert(slot_holds(slots, directives[j]));
    }
}

/// A type without a converter, or a converter without a type, is incomplete,
/// wherever there is no `ignore` and no kind is repeated.
pub proof fn lemma_lone_override_is_incomplete(directives: Seq<Directive>)
    requires
        no_kind_repeated(directives),
        !has_kind(directives, DirectiveKind::Ignore),
        has_kind(directives, DirectiveKind::InputType) != has_kind(
            directives,
            DirectiveKind::Converter,
        ),
    ensures
        config_of(directives) == Err::<ConfigView, ErrorView>(ErrorView::IncompleteOverride),
{
    lemma_fill_distinct(directives);
    let slots = fill(directives)->Ok_0;
    if slots.ignore {
        assert(slot_filled(slots, DirectiveKind::Ignore));
    }
    if has_kind(directives, DirectiveKind::InputType) {
        let j = choose|j: int|
            0 <= j < directives.len() && kind_of(#[trigger] directives[j])
                == DirectiveKind::InputType;
        assert(slot_holds(slots, directives[j]));
        if slots.converter.is_some() {
            assert(slot_filled(slots, DirectiveKind::Converter));
        }
    } else {
        let j = choose|j: int|
            0 <= j < directives.len() && kind_of(#[trigger] directives[j])
                == DirectiveKind::Converter;
        assert(slot_holds(slots, directives[j]));
        if slots.input_type.is_some() {
            assert(slot_filled(slots, DirectiveKind::InputType));
        }
    }
}

/// A list that holds two directives of one kind is turned down with
/// `DuplicateDirective`, whatever else it holds.
pub proof fn lemma_repeated_kind_is_duplicate(directives: Seq<Directive>, i: int, j: int)
    requires
        0 <= i < j < directives.len(),
        kind_of(directives[i]) == kind_of(directives[j]),
    ensures
        config_of(directives) matches Err(ErrorView::DuplicateDirective(_)),
{
    lemma_fill_repeated(directives);
}

/// A block asks for what its directives ask for together; a block that
/// cannot be read asks for nothing, and the error of reading it stands.
pub proof fn lemma_block_asks_what_its_directives_ask(src: Seq<char>)
    ensures
        match block_directives(src, src.len()) {
            Ok(directives) => block_config(src) == config_of(directives),
            Err(e) => block_config(src) == Err::<ConfigView, ErrorView>(e),
        },
{
}

} // verus!
