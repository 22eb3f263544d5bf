//! The value model of an entry: a closed set of value kinds, each
//! optionally holding a value, with filling and token serialization.
//!
//! Paths are carried in their textual (display) form, so the whole model
//! works on plain strings.

use vstd::prelude::*;

verus! {

/// The value slot of an entry: a kind, fixed for the entry's lifetime,
/// and an optional payload.
#[derive(Clone, Debug)]
pub enum Argument {
    /// An ordered list of plain strings.
    CollectionText(Option<Vec<String>>),
    /// A string designating a file, in its display form.
    PathPattern(Option<String>),
    /// An ordered list of file designators, each in its display form.
    CollectionPathPattern(Option<Vec<String>>),
    /// A plain string.
    Text(Option<String>),
    /// A flag value: either there or not.
    BooleanFlag(Option<bool>),
}

/// Mathematical model of an [`Argument`].
pub enum ArgV {
    /// Model of [`Argument::CollectionText`].
    CollectionText(Option<Seq<Seq<char>>>),
    /// Model of [`Argument::PathPattern`].
    PathPattern(Option<Seq<char>>),
    /// Model of [`Argument::CollectionPathPattern`].
    CollectionPathPattern(Option<Seq<Seq<char>>>),
    /// Model of [`Argument::Text`].
    Text(Option<Seq<char>>),
    /// Model of [`Argument::BooleanFlag`].
    BooleanFlag(Option<bool>),
}

impl View for Argument {
    type V = ArgV;

    open spec fn view(&self) -> ArgV {
        match self {
            Argument::CollectionText(x) => ArgV::CollectionText(x.deep_view()),
            Argument::PathPattern(x) => ArgV::PathPattern(x.deep_view()),
            Argument::CollectionPathPattern(x) => ArgV::CollectionPathPattern(x.deep_view()),
            Argument::Text(x) => ArgV::Text(x.deep_view()),
            Argument::BooleanFlag(x) => ArgV::BooleanFlag(*x),
        }
    }
}

impl DeepView for Argument {
    type V = ArgV;

    open spec fn deep_view(&self) -> ArgV {
        self.view()
    }
}

/// A typed input value handed to a fill operation. Its shape must match
/// the target entry's kind; a path may also fill a text target through its
/// display form, never the other way round.
#[derive(Clone, Debug)]
pub enum Value {
    /// A plain string.
    Text(String),
    /// A path, in its textual (display) form.
    Path(String),
    /// A boolean.
    Bool(bool),
    /// An ordered list of plain strings.
    TextList(Vec<String>),
    /// An ordered list of paths, each in its textual (display) form.
    PathList(Vec<String>),
}

/// Mathematical model of a [`Value`].
pub enum ValueV {
    /// Model of [`Value::Text`].
    Text(Seq<char>),
    /// Model of [`Value::Path`].
    Path(Seq<char>),
    /// Model of [`Value::Bool`].
    Bool(bool),
    /// Model of [`Value::TextList`].
    TextList(Seq<Seq<char>>),
    /// Model of [`Value::PathList`].
    PathList(Seq<Seq<char>>),
}

impl View for Value {
    type V = ValueV;

    open spec fn view(&self) -> ValueV {
        match self {
            Value::Text(s) => ValueV::Text(s@),
            Value::Path(s) => ValueV::Path(s@),
            Value::Bool(b) => ValueV::Bool(*b),
            Value::TextList(v) => ValueV::TextList(v.deep_view()),
            Value::PathList(v) => ValueV::PathList(v.deep_view()),
        }
    }
}

impl DeepView for Value {
    type V = ValueV;

    open spec fn deep_view(&self) -> ValueV {
        self.view()
    }
}

/// The textual form of a boolean: lowercase `true` or `false`.
pub open spec fn spec_bool_str(b: bool) -> Seq<char> {
    if b {
        seq!['t', 'r', 'u', 'e']
    } else {
        seq!['f', 'a', 'l', 's', 'e']
    }
}

/// The token sequence an argument serializes to: a present scalar value
/// yields one token, a present collection one token per element in list
/// order, and an absent payload yields no tokens.
pub open spec fn arg_tokens(a: ArgV) -> Seq<Seq<char>> {
    match a {
        ArgV::Text(Some(s)) => seq![s],
        ArgV::Text(None) => seq![],
        ArgV::PathPattern(Some(p)) => seq![p],
        ArgV::PathPattern(None) => seq![],
        ArgV::BooleanFlag(Some(b)) => seq![spec_bool_str(b)],
        ArgV::BooleanFlag(None) => seq![],
        ArgV::CollectionText(Some(v)) => v,
        ArgV::CollectionText(None) => seq![],
        ArgV::CollectionPathPattern(Some(v)) => v,
        ArgV::CollectionPathPattern(None) => seq![],
    }
}

/// The payload was supplied (or defaulted): the argument holds a value.
pub open spec fn arg_present(a: ArgV) -> bool {
    match a {
        ArgV::Text(x) => x is Some,
        ArgV::PathPattern(x) => x is Some,
        ArgV::BooleanFlag(x) => x is Some,
        ArgV::CollectionText(x) => x is Some,
        ArgV::CollectionPathPattern(x) => x is Some,
    }
}

/// The argument holds a single value, not a collection.
pub open spec fn arg_scalar(a: ArgV) -> bool {
    a is Text || a is PathPattern || a is BooleanFlag
}

/// The result of filling an argument with a typed input value: the same
/// kind with the new payload when the shapes match, nothing on a mismatch.
pub open spec fn fill_arg(a: ArgV, v: ValueV) -> Option<ArgV> {
    match (a, v) {
        (ArgV::Text(_), ValueV::Text(s)) => Some(ArgV::Text(Some(s))),
        (ArgV::Text(_), ValueV::Path(p)) => Some(ArgV::Text(Some(p))),
        (ArgV::Text(_), ValueV::Bool(b)) => Some(ArgV::Text(Some(spec_bool_str(b)))),
        (ArgV::PathPattern(_), ValueV::Path(p)) => Some(ArgV::PathPattern(Some(p))),
        (ArgV::BooleanFlag(_), ValueV::Bool(b)) => Some(ArgV::BooleanFlag(Some(b))),
        (ArgV::CollectionText(_), ValueV::TextList(v)) => Some(ArgV::CollectionText(Some(v))),
        (ArgV::CollectionPathPattern(_), ValueV::PathList(v)) => Some(
            ArgV::CollectionPathPattern(Some(v)),
        ),
        _ => None,
    }
}

/// Law: collection serialization preserves input order and flattens one
/// token per element.
pub proof fn lemma_collection_tokens(v: Seq<Seq<char>>)
    ensures
        arg_tokens(ArgV::CollectionText(Some(v))) == v,
        arg_tokens(ArgV::CollectionPathPattern(Some(v))) == v,
        arg_tokens(ArgV::CollectionPathPattern(Some(v))).len() == v.len(),
        forall|i: int|
            0 <= i < v.len() ==> arg_tokens(ArgV::CollectionPathPattern(Some(v)))[i] == v[i],
{
}

/// The textual form of a boolean as a string.
pub fn bool_token(b: bool) -> (r: String)
    ensures
        r@ == spec_bool_str(b),
{
    if b {
        let r = String::from_str("true");
        proof {
            reveal_strlit("true");
            assert(r@ =~= spec_bool_str(b));
        }
        r
    } else {
        let r = String::from_str("false");
        proof {
            reveal_strlit("false");
            assert(r@ =~= spec_bool_str(b));
        }
        r
    }
}

/// A copy of a token list with the same model.
pub fn clone_tokens(v: &Vec<String>) -> (r: Vec<String>)
    ensures
        r.deep_view() == v.deep_view(),
{
    let r = v.clone();
    proof {
        assert forall|i: int| 0 <= i < v@.len() implies r.deep_view()[i] == v.deep_view()[i] by {
            assert(cloned::<String>(v@[i], r@[i]));
        }
        assert(r.deep_view() =~~= v.deep_view());
    }
    r
}

impl Argument {
    /// Fills the payload from a typed input value of matching shape,
    /// replacing any prior payload; a mismatched shape leaves the argument
    /// unchanged and reports the mismatch.
    pub fn transform(&mut self, with: &Value) -> (r: bool)
        ensures
            match fill_arg(old(self)@, with@) {
                Some(m) => r && final(self)@ == m,
                None => !r && final(self)@ == old(self)@,
            },
    {
        let filled: Option<Argument> = match (&*self, with) {
            (Argument::Text(_), Value::Text(s)) => Some(Argument::Text(Some(s.clone()))),
            (Argument::Text(_), Value::Path(p)) => Some(Argument::Text(Some(p.clone()))),
            (Argument::Text(_), Value::Bool(b)) => Some(Argument::Text(Some(bool_token(*b)))),
            (Argument::PathPattern(_), Value::Path(p)) => Some(
                Argument::PathPattern(Some(p.clone())),
            ),
            (Argument::BooleanFlag(_), Value::Bool(b)) => Some(Argument::BooleanFlag(Some(*b))),
            (Argument::CollectionText(_), Value::TextList(v)) => Some(
                Argument::CollectionText(Some(clone_tokens(v))),
            ),
            (Argument::CollectionPathPattern(_), Value::PathList(v)) => Some(
                Argument::CollectionPathPattern(Some(clone_tokens(v))),
            ),
            _ => None,
        };
        match filled {
            Some(a) => {
                *self = a;
                true
            },
            None => false,
        }
    }

    /// A copy of this argument with the same model.
    pub fn duplicate(&self) -> (r: Argument)
        ensures
            r@ == self@,
    {
        let r = match self {
            Argument::CollectionText(x) => Argument::CollectionText(
                match x {
                    Some(v) => Some(clone_tokens(v)),
                    None => None,
                },
            ),
            Argument::PathPattern(x) => Argument::PathPattern(
                match x {
                    Some(s) => Some(s.clone()),
                    None => None,
                },
            ),
            Argument::CollectionPathPattern(x) => Argument::CollectionPathPattern(
                match x {
                    Some(v) => Some(clone_tokens(v)),
                    None => None,
                },
            ),
            Argument::Text(x) => Argument::Text(
                match x {
                    Some(s) => Some(s.clone()),
                    None => None,
                },
            ),
            Argument::BooleanFlag(x) => Argument::BooleanFlag(*x),
        };
        r
    }

    /// Serializes the payload to its token sequence.
    pub fn generate(self) -> (r: Vec<String>)
        ensures
            r.deep_view() == arg_tokens(self@),
    {
        let ghost m = self@;
        let r = match self {
            Argument::Text(x) => optional_vectorization(x),
            Argument::PathPattern(x) => optional_vectorization(x),
            Argument::BooleanFlag(x) => optional_vectorization(x),
            Argument::CollectionText(x) => {
                proof {
                    if let Some(v) = &x {
                        lemma_tokens_of_string_list(v@);
                    }
                }
                optional_vectorization(x)
            },
            Argument::CollectionPathPattern(x) => {
                proof {
                    if let Some(v) = &x {
                        lemma_tokens_of_string_list(v@);
                    }
                }
                optional_vectorization(x)
            },
        };
        proof {
            assert(r.deep_view() =~~= arg_tokens(m));
        }
        r
    }
}

impl From<String> for Argument {
    /// A text argument already holding the given string.
    fn from(value: String) -> (r: Argument) {
        Argument::Text(Some(value))
    }
}

impl vstd::std_specs::convert::FromSpecImpl<String> for Argument {
    open spec fn obeys_from_spec() -> bool {
        true
    }

    open spec fn from_spec(value: String) -> Argument {
        Argument::Text(Some(value))
    }
}

/// A single value's own token serialization: one token per scalar.
pub trait Vectorize: Sized {
    /// The tokens this value serializes to.
    spec fn spec_vec(self) -> Seq<Seq<char>>;

    /// Serializes this value to its tokens.
    fn vec(self) -> (r: Vec<String>)
        ensures
            r.deep_view() == self.spec_vec(),
    ;
}

impl Vectorize for String {
    open spec fn spec_vec(self) -> Seq<Seq<char>> {
        seq![self@]
    }

    fn vec(self) -> (r: Vec<String>)
        ensures
            r.deep_view() == self.spec_vec(),
    {
        let mut r: Vec<String> = Vec::new();
        r.push(self);
        proof {
            assert(r.deep_view() =~~= seq![self@]);
        }
        r
    }
}

impl Vectorize for bool {
    open spec fn spec_vec(self) -> Seq<Seq<char>> {
        seq![spec_bool_str(self)]
    }

    fn vec(self) -> (r: Vec<String>)
        ensures
            r.deep_view() == self.spec_vec(),
    {
        let mut r: Vec<String> = Vec::new();
        r.push(bool_token(self));
        proof {
            assert(r.deep_view() =~~= seq![spec_bool_str(self)]);
        }
        r
    }
}

/// The concatenated tokens of a list of values, in list order.
pub open spec fn tokens_of_list<T: Vectorize>(s: Seq<T>) -> Seq<Seq<char>>
    decreases s.len(),
{
    if s.len() == 0 {
        seq![]
    } else {
        s[0].spec_vec() + tokens_of_list(s.drop_first())
    }
}

/// For a list of strings, the concatenated tokens are the strings
/// themselves, one token per element, in list order.
pub proof fn lemma_tokens_of_string_list(s: Seq<String>)
    ensures
        tokens_of_list(s) == s.map_values(|x: String| x@),
    decreases s.len(),
{
    if s.len() == 0 {
        assert(tokens_of_list(s) =~= s.map_values(|x: String| x@));
    } else {
        lemma_tokens_of_string_list(s.drop_first());
        assert(tokens_of_list(s) =~= s.map_values(|x: String| x@));
    }
}

impl<T: Vectorize> Vectorize for Vec<T> {
    open spec fn spec_vec(self) -> Seq<Seq<char>> {
        tokens_of_list(self@)
    }

    fn vec(self) -> (r: Vec<String>)
        ensures
            r.deep_view() == self.spec_vec(),
    {
        let ghost whole = self@;
        let mut rest = self;
        let mut r: Vec<String> = Vec::new();
        proof {
            assert(r.deep_view() =~~= Seq::<Seq<char>>::empty());
        }
        while rest.len() > 0
            invariant
                r.deep_view() + tokens_of_list(rest@) == tokens_of_list(whole),
            decreases rest.len(),
        {
            let x = rest.remove(0);
            let mut t = x.vec();
            let ghost before = r.deep_view();
            r.append(&mut t);
            proof {
                assert(r.deep_view() =~~= before + x.spec_vec());
                assert(r.deep_view() + tokens_of_list(rest@) =~~= tokens_of_list(whole));
            }
        }
        proof {
            assert(r.deep_view() =~~= tokens_of_list(whole));
        }
        r
    }
}

/// The tokens of an optional value: the value's own serialization when
/// present, no tokens when absent.
pub fn optional_vectorization<T: Vectorize>(v: Option<T>) -> (r: Vec<String>)
    ensures
        r.deep_view() == match v {
            Some(n) => n.spec_vec(),
            None => Seq::<Seq<char>>::empty(),
        },
{
    match v {
        Some(n) => n.vec(),
        None => {
            let r: Vec<String> = Vec::new();
            proof {
                assert(r.deep_view() =~~= Seq::<Seq<char>>::empty());
            }
            r
        },
    }
}

} // verus!
