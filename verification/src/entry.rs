//! Entries: the atomic configurable unit of the mapping — a target name,
//! a value slot, and a default policy — together with the error taxonomy
//! and the fill → conform → serialize pipeline.

use vstd::prelude::*;

use crate::argument::{arg_tokens, fill_arg, Argument, ArgV, Value, ValueV};
use crate::name::{name_tokens, Name, NameV};

verus! {

/// How the source value is prepared before it fills an entry.
#[derive(Clone, Copy, Debug)]
pub enum SourceFormatter {
    /// No formatting.
    Default,
    /// Filter in only certain elements; a placeholder for now.
    Filter,
}

/// What happens to an entry whose value is still absent when the command
/// line is built.
#[derive(Clone, Debug)]
pub enum DefaultValue {
    /// Absence is a fatal configuration error.
    Mandatory,
    /// Absence silently produces no tokens.
    Skip,
    /// Absence is replaced by this constant fallback value, which must be
    /// of the entry's own kind.
    Default(Argument),
}

/// Mathematical model of a [`DefaultValue`].
pub enum DefaultV {
    /// Model of [`DefaultValue::Mandatory`].
    Mandatory,
    /// Model of [`DefaultValue::Skip`].
    Skip,
    /// Model of [`DefaultValue::Default`].
    Default(ArgV),
}

impl View for DefaultValue {
    type V = DefaultV;

    open spec fn view(&self) -> DefaultV {
        match self {
            DefaultValue::Mandatory => DefaultV::Mandatory,
            DefaultValue::Skip => DefaultV::Skip,
            DefaultValue::Default(a) => DefaultV::Default(a@),
        }
    }
}

impl DeepView for DefaultValue {
    type V = DefaultV;

    open spec fn deep_view(&self) -> DefaultV {
        self.view()
    }
}

impl DefaultValue {
    /// A copy of this policy with the same model.
    pub fn duplicate(&self) -> (r: DefaultValue)
        ensures
            r@ == self@,
    {
        match self {
            DefaultValue::Mandatory => DefaultValue::Mandatory,
            DefaultValue::Skip => DefaultValue::Skip,
            DefaultValue::Default(a) => DefaultValue::Default(a.duplicate()),
        }
    }
}

/// One configurable slot in a command's schema: a name, a value slot of a
/// fixed kind, and a default policy, plus the tag of the upstream source
/// that supplies its value.
#[derive(Clone, Debug)]
pub struct Entry {
    /// The policy applied when no value was supplied.
    pub defaults_to: DefaultValue,
    /// How the source value is prepared; not interpreted by the mapping
    /// framework itself.
    pub source: SourceFormatter,
    /// The entry's role in the target command line.
    pub target_name: Name,
    /// The entry's value slot.
    pub target_type: Argument,
}

/// Mathematical model of an [`Entry`].
pub struct EntryV {
    /// Model of the default policy.
    pub defaults_to: DefaultV,
    /// The source formatter, carried through unchanged.
    pub source: SourceFormatter,
    /// Model of the name.
    pub target_name: NameV,
    /// Model of the value slot.
    pub target_type: ArgV,
}

impl View for Entry {
    type V = EntryV;

    open spec fn view(&self) -> EntryV {
        EntryV {
            defaults_to: self.defaults_to@,
            source: self.source,
            target_name: self.target_name@,
            target_type: self.target_type@,
        }
    }
}

impl DeepView for Entry {
    type V = EntryV;

    open spec fn deep_view(&self) -> EntryV {
        self.view()
    }
}

impl Entry {
    /// A copy of this entry with the same model.
    pub fn duplicate(&self) -> (r: Entry)
        ensures
            r@ == self@,
    {
        Entry {
            defaults_to: self.defaults_to.duplicate(),
            source: self.source,
            target_name: self.target_name.duplicate(),
            target_type: self.target_type.duplicate(),
        }
    }

    /// An inert entry: undefined name, skipped on absence, no value.
    pub fn ignore() -> (r: Entry)
        ensures
            r@ == (EntryV {
                defaults_to: DefaultV::Skip,
                source: SourceFormatter::Default,
                target_name: NameV::Undefined,
                target_type: ArgV::BooleanFlag(None),
            }),
    {
        Entry {
            defaults_to: DefaultValue::Skip,
            source: SourceFormatter::Default,
            target_name: Name::Undefined,
            target_type: Argument::BooleanFlag(None),
        }
    }
}

impl Entry {
    /// Two entries stand for the same slot exactly when their names are
    /// equal; entries are expected to differ. Only valid names compare.
    pub fn same_name(&self, other: &Entry) -> (r: bool)
        requires
            crate::name::name_valid(self@.target_name),
            crate::name::name_valid(other@.target_name),
        ensures
            r == crate::name::name_eq(self@.target_name, other@.target_name),
    {
        self.target_name.same(&other.target_name)
    }

    /// The conventional order: `command <blanks> -<shorts> --<longs>`,
    /// blanks by index, shorts by character, longs lexicographically.
    /// Only valid names compare.
    pub fn precedes(&self, other: &Entry) -> (r: bool)
        requires
            crate::name::name_valid(self@.target_name),
            crate::name::name_valid(other@.target_name),
        ensures
            r == crate::name::name_lt(self@.target_name, other@.target_name),
    {
        self.target_name.lt(&other.target_name)
    }
}

/// What went wrong while building a command line.
#[derive(Clone, Debug)]
pub enum ErrorKind {
    /// A fill operation received a value whose shape does not match the
    /// target entry's kind: a schema or binding authoring bug.
    TypeMismatch,
    /// A mandatory entry had no value after fill and no default; the name
    /// tells the user which required argument was omitted.
    MissingMandatory(Name),
    /// Two entries in one schema resolved to an equal name: a
    /// schema-authoring defect.
    DuplicateName(Name),
    /// A schema descriptor string does not match the expected grammar.
    UnparsableSchemaDescriptor,
}

/// A fatal error of the mapping framework.
#[derive(Clone, Debug)]
pub struct Error {
    /// What went wrong.
    pub kind: ErrorKind,
}

/// Mathematical model of an [`Error`].
pub enum ErrorV {
    /// Model of [`ErrorKind::TypeMismatch`].
    TypeMismatch,
    /// Model of [`ErrorKind::MissingMandatory`].
    MissingMandatory(NameV),
    /// Model of [`ErrorKind::DuplicateName`].
    DuplicateName(NameV),
    /// Model of [`ErrorKind::UnparsableSchemaDescriptor`].
    UnparsableSchemaDescriptor,
}

impl View for ErrorKind {
    type V = ErrorV;

    open spec fn view(&self) -> ErrorV {
        match self {
            ErrorKind::TypeMismatch => ErrorV::TypeMismatch,
            ErrorKind::MissingMandatory(n) => ErrorV::MissingMandatory(n@),
            ErrorKind::DuplicateName(n) => ErrorV::DuplicateName(n@),
            ErrorKind::UnparsableSchemaDescriptor => ErrorV::UnparsableSchemaDescriptor,
        }
    }
}

impl View for Error {
    type V = ErrorV;

    open spec fn view(&self) -> ErrorV {
        self.kind@
    }
}

impl DeepView for Error {
    type V = ErrorV;

    open spec fn deep_view(&self) -> ErrorV {
        self.view()
    }
}

/// The model of an executable token-sequence result.
pub open spec fn tokens_result(r: Result<Vec<String>, Error>) -> Result<Seq<Seq<char>>, ErrorV> {
    match r {
        Ok(v) => Ok(v.deep_view()),
        Err(e) => Err(e@),
    }
}

/// The result of filling an entry from a typed input value: the payload is
/// replaced when the shapes match, nothing changes on a mismatch.
pub open spec fn fill_entry(e: EntryV, v: ValueV) -> Option<EntryV> {
    match fill_arg(e.target_type, v) {
        Some(a) => Some(EntryV { target_type: a, ..e }),
        None => None,
    }
}

/// Default resolution: a non-empty serialization of the current payload
/// always wins; an empty one falls back to the entry's policy.
pub open spec fn spec_conform(e: EntryV) -> Result<Seq<Seq<char>>, ErrorV> {
    let t = arg_tokens(e.target_type);
    if t.len() > 0 {
        Ok(t)
    } else {
        match e.defaults_to {
            DefaultV::Skip => Ok(t),
            DefaultV::Mandatory => Err(ErrorV::MissingMandatory(e.target_name)),
            DefaultV::Default(v) => Ok(arg_tokens(v)),
        }
    }
}

/// The tokens a filled entry contributes to the command line: its
/// conformed value tokens under its name's own rendering.
pub open spec fn entry_tokens(e: EntryV) -> Result<Seq<Seq<char>>, ErrorV> {
    match spec_conform(e) {
        Ok(t) => Ok(name_tokens(e.target_name, t)),
        Err(x) => Err(x),
    }
}

/// The full pipeline of one entry: fill, conform, render under the name.
pub open spec fn spec_transform(e: EntryV, v: ValueV) -> Result<Seq<Seq<char>>, ErrorV> {
    match fill_entry(e, v) {
        Some(f) => entry_tokens(f),
        None => Err(ErrorV::TypeMismatch),
    }
}

/// Law: default resolution never overrides an explicitly supplied value.
/// An entry whose payload serializes to at least one token — every filled
/// entry of scalar kind, and every filled collection holding at least one
/// element — conforms to exactly that serialization, whatever its default
/// policy; in particular a mandatory entry that was filled never reports
/// a missing value.
pub proof fn lemma_conform_filled_wins(e: EntryV)
    requires
        arg_tokens(e.target_type).len() > 0,
    ensures
        spec_conform(e) == Ok::<Seq<Seq<char>>, ErrorV>(arg_tokens(e.target_type)),
        !(spec_conform(e) is Err),
{
}

/// Law: a filled entry of scalar kind — text, path or boolean — always
/// serializes to one token, so conform returns exactly that token whatever
/// the default policy says; only a collection filled with the empty list
/// still counts as unsupplied.
pub proof fn lemma_conform_filled_scalar(e: EntryV)
    requires
        crate::argument::arg_present(e.target_type),
        crate::argument::arg_scalar(e.target_type),
    ensures
        spec_conform(e) == Ok::<Seq<Seq<char>>, ErrorV>(arg_tokens(e.target_type)),
        !(spec_conform(e) is Err),
{
}

/// Law: an unfilled entry under the `Skip` policy yields an empty token
/// contribution, before and after name rendering.
pub proof fn lemma_conform_skip(e: EntryV)
    requires
        arg_tokens(e.target_type).len() == 0,
        e.defaults_to is Skip,
    ensures
        spec_conform(e) == Ok::<Seq<Seq<char>>, ErrorV>(Seq::<Seq<char>>::empty()),
        entry_tokens(e) == Ok::<Seq<Seq<char>>, ErrorV>(Seq::<Seq<char>>::empty()),
{
    assert(arg_tokens(e.target_type) =~= Seq::<Seq<char>>::empty());
    assert(name_tokens(e.target_name, Seq::<Seq<char>>::empty()) =~= Seq::<Seq<char>>::empty());
}

/// Law: an unfilled entry under the `Mandatory` policy always fails,
/// identifying that entry's name.
pub proof fn lemma_conform_mandatory(e: EntryV)
    requires
        arg_tokens(e.target_type).len() == 0,
        e.defaults_to is Mandatory,
    ensures
        spec_conform(e) == Err::<Seq<Seq<char>>, ErrorV>(ErrorV::MissingMandatory(e.target_name)),
        entry_tokens(e) == Err::<Seq<Seq<char>>, ErrorV>(ErrorV::MissingMandatory(e.target_name)),
{
}

/// Law: an unfilled entry under a constant-default policy yields exactly
/// the serialization of that constant.
pub proof fn lemma_conform_default(e: EntryV, v: ArgV)
    requires
        arg_tokens(e.target_type).len() == 0,
        e.defaults_to == DefaultV::Default(v),
    ensures
        spec_conform(e) == Ok::<Seq<Seq<char>>, ErrorV>(arg_tokens(v)),
{
}

/// The fill → conform → serialize pipeline of a single entry.
pub trait Transformable: View<V = EntryV> + Sized {
    /// Takes an entry and fills its value slot from a typed input value,
    /// reporting a type mismatch when the shapes disagree.
    fn fill(&mut self, with: &Value) -> (r: Result<(), Error>)
        ensures
            match fill_entry(old(self)@, with@) {
                Some(m) => r is Ok && final(self)@ == m,
                None => r is Err && r->Err_0@ == ErrorV::TypeMismatch && final(self)@ == old(
                    self,
                )@,
            },
    ;

    /// Serializes the entry's current payload to its value tokens.
    fn generate(self) -> (r: Vec<String>)
        ensures
            r.deep_view() == arg_tokens(self@.target_type),
    ;

    /// Makes conformity checks: serializes the current payload, falling
    /// back to the default policy when it yields no tokens.
    fn conform(self) -> (r: Result<Vec<String>, Error>)
        ensures
            tokens_result(r) == spec_conform(self@),
    ;

    /// The full transform of one entry: fill, conform, and render the
    /// result under the entry's name.
    fn transform(self, with: &Value) -> (r: Result<Vec<String>, Error>)
        ensures
            tokens_result(r) == spec_transform(self@, with@),
    ;
}

impl Transformable for Entry {
    fn fill(&mut self, with: &Value) -> (r: Result<(), Error>) {
        let ok = self.target_type.transform(with);
        if ok {
            Ok(())
        } else {
            Err(Error { kind: ErrorKind::TypeMismatch })
        }
    }

    fn generate(self) -> (r: Vec<String>) {
        self.target_type.generate()
    }

    fn conform(self) -> (r: Result<Vec<String>, Error>) {
        let Entry { defaults_to, source: _, target_name, target_type } = self;
        let toks = target_type.generate();
        if toks.len() > 0 {
            Ok(toks)
        } else {
            match defaults_to {
                DefaultValue::Skip => Ok(toks),
                DefaultValue::Mandatory => Err(
                    Error { kind: ErrorKind::MissingMandatory(target_name) },
                ),
                DefaultValue::Default(v) => Ok(v.generate()),
            }
        }
    }

    fn transform(self, with: &Value) -> (r: Result<Vec<String>, Error>) {
        let mut filled = self;
        match filled.fill(with) {
            Err(e) => Err(e),
            Ok(_) => {
                let n = filled.target_name.duplicate();
                match filled.conform() {
                    Err(e) => Err(e),
                    Ok(q) => Ok(n.name(q)),
                }
            },
        }
    }
}

} // verus!
