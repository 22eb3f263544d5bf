//! Names of command-line entries and their total order.
//!
//! A `Name` identifies an entry's role in the target command line:
//! positional with an explicit order index (`Blank`), short flag (`Short`),
//! long flag (`Long`), or `Undefined` for entries that are excluded from
//! serialization and ordering altogether.

use vstd::prelude::*;

verus! {

/// A name of the form `-<short>` or `--<long>`, or a positional slot.
///
/// Short and long flags are mutually exclusive here; a `Blank` name is
/// positional, its index only meaningful relative to other `Blank` names.
#[derive(Clone, Debug)]
pub enum Name {
    /// A short name, rendered `-<short>`, e.g. `-j`.
    Short(char),
    /// A long name, rendered `--<long>`, e.g. `--exclude`.
    Long(String),
    /// A blank (positional) name; the index orders it among other blanks.
    Blank(u8),
    /// Skip this entry: excluded from serialization and ordering.
    Undefined,
}

/// Mathematical model of a [`Name`].
pub enum NameV {
    /// Model of [`Name::Short`].
    Short(char),
    /// Model of [`Name::Long`].
    Long(Seq<char>),
    /// Model of [`Name::Blank`].
    Blank(int),
    /// Model of [`Name::Undefined`].
    Undefined,
}

impl Default for Name {
    /// The blank default: a name that stands for no command-line role.
    fn default() -> (r: Self)
        ensures
            r@ == NameV::Undefined,
    {
        Name::Undefined
    }
}

impl View for Name {
    type V = NameV;

    open spec fn view(&self) -> NameV {
        match self {
            Name::Short(c) => NameV::Short(*c),
            Name::Long(s) => NameV::Long(s@),
            Name::Blank(i) => NameV::Blank(*i as int),
            Name::Undefined => NameV::Undefined,
        }
    }
}

impl DeepView for Name {
    type V = NameV;

    open spec fn deep_view(&self) -> NameV {
        self.view()
    }
}

/// A name may take part in ordering and comparison: `Undefined` may not.
pub open spec fn name_valid(n: NameV) -> bool {
    !(n is Undefined)
}

/// Strict lexicographic order on character sequences, starting at offset `i`.
pub open spec fn lex_lt_from(s: Seq<char>, t: Seq<char>, i: int) -> bool
    decreases t.len() - i,
{
    if i >= t.len() {
        false
    } else if i >= s.len() {
        true
    } else if s[i] != t[i] {
        s[i] < t[i]
    } else {
        lex_lt_from(s, t, i + 1)
    }
}

/// Strict lexicographic order on character sequences.
pub open spec fn lex_lt(s: Seq<char>, t: Seq<char>) -> bool {
    lex_lt_from(s, t, 0)
}

/// The strict total order on valid names: positionals (by index) before
/// short flags (by character) before long flags (lexicographic).
pub open spec fn name_lt(a: NameV, b: NameV) -> bool {
    match (a, b) {
        (NameV::Blank(i), NameV::Blank(j)) => i < j,
        (NameV::Blank(_), NameV::Short(_)) => true,
        (NameV::Blank(_), NameV::Long(_)) => true,
        (NameV::Short(c), NameV::Short(d)) => c < d,
        (NameV::Short(_), NameV::Long(_)) => true,
        (NameV::Long(s), NameV::Long(t)) => lex_lt(s, t),
        _ => false,
    }
}

/// Equality of names at the model level, defined only between valid names.
pub open spec fn name_eq(a: NameV, b: NameV) -> bool {
    match (a, b) {
        (NameV::Blank(i), NameV::Blank(j)) => i == j,
        (NameV::Short(c), NameV::Short(d)) => c == d,
        (NameV::Long(s), NameV::Long(t)) => s == t,
        _ => false,
    }
}

/// The tokens an entry contributes once its value tokens `v` are known:
/// a positional name passes them through, a flag name prepends its own
/// rendered token (`-c` or `--long`) to a non-empty value, and an
/// `Undefined` name is excluded from serialization entirely.
///
/// A flag with no value tokens contributes nothing: a bare flag token with
/// no value would not be a faithful rendering of the entry.
pub open spec fn name_tokens(n: NameV, v: Seq<Seq<char>>) -> Seq<Seq<char>> {
    match n {
        NameV::Blank(_) => v,
        NameV::Undefined => seq![],
        NameV::Short(c) => if v.len() == 0 {
            seq![]
        } else {
            seq![seq!['-', c]] + v
        },
        NameV::Long(s) => if v.len() == 0 {
            seq![]
        } else {
            seq![seq!['-', '-'] + s] + v
        },
    }
}

/// A fresh string holding a single dash, the first character of every
/// rendered flag name.
fn new_strlit_dash() -> (r: String)
    ensures
        r@ == seq!['-'],
{
    let r = String::from_str("-");
    proof {
        reveal_strlit("-");
        assert(r@ =~= seq!['-']);
    }
    r
}

/// Relies on `String::push`: appends exactly the given character at the end.
#[verifier::external_body]
fn push_char(s: &mut String, c: char)
    ensures
        final(s)@ == old(s)@.push(c),
{
    s.push(c);
}

proof fn lemma_lex_from_irreflexive(s: Seq<char>, i: int)
    ensures
        !lex_lt_from(s, s, i),
    decreases s.len() - i,
{
    if i < s.len() {
        lemma_lex_from_irreflexive(s, i + 1);
    }
}

proof fn lemma_lex_from_antisymmetric(s: Seq<char>, t: Seq<char>, i: int)
    ensures
        !(lex_lt_from(s, t, i) && lex_lt_from(t, s, i)),
    decreases t.len() - i,
{
    if i < t.len() && i < s.len() && s[i] == t[i] {
        lemma_lex_from_antisymmetric(s, t, i + 1);
    }
}

proof fn lemma_lex_from_transitive(s: Seq<char>, t: Seq<char>, u: Seq<char>, i: int)
    requires
        lex_lt_from(s, t, i),
        lex_lt_from(t, u, i),
    ensures
        lex_lt_from(s, u, i),
    decreases u.len() - i,
{
    if i < t.len() && i < u.len() && i < s.len() && s[i] == t[i] && t[i] == u[i] {
        lemma_lex_from_transitive(s, t, u, i + 1);
    }
}

proof fn lemma_lex_from_total(s: Seq<char>, t: Seq<char>, i: int)
    requires
        0 <= i <= s.len(),
        i <= t.len(),
        !lex_lt_from(s, t, i),
        !lex_lt_from(t, s, i),
    ensures
        s.len() == t.len(),
        forall|j: int| i <= j < s.len() ==> s[j] == t[j],
    decreases s.len() - i,
{
    if i < s.len() && i < t.len() {
        lemma_lex_from_total(s, t, i + 1);
    }
}

/// Law: the name order is irreflexive — no valid name sorts before itself.
pub proof fn lemma_name_order_irreflexive(a: NameV)
    requires
        name_valid(a),
    ensures
        !name_lt(a, a),
{
    if let NameV::Long(s) = a {
        lemma_lex_from_irreflexive(s, 0);
    }
}

/// Law: the name order is antisymmetric — two valid names never each sort
/// before the other.
pub proof fn lemma_name_order_antisymmetric(a: NameV, b: NameV)
    requires
        name_valid(a),
        name_valid(b),
    ensures
        !(name_lt(a, b) && name_lt(b, a)),
{
    if let (NameV::Long(s), NameV::Long(t)) = (a, b) {
        lemma_lex_from_antisymmetric(s, t, 0);
    }
}

/// Law: the name order is transitive.
pub proof fn lemma_name_order_transitive(a: NameV, b: NameV, c: NameV)
    requires
        name_valid(a),
        name_valid(b),
        name_valid(c),
        name_lt(a, b),
        name_lt(b, c),
    ensures
        name_lt(a, c),
{
    if let (NameV::Long(s), NameV::Long(t), NameV::Long(u)) = (a, b, c) {
        lemma_lex_from_transitive(s, t, u, 0);
    }
}

/// Law: the name order is total on valid names — of two valid names, either
/// one sorts strictly before the other, or they are the same name.
pub proof fn lemma_name_order_total(a: NameV, b: NameV)
    requires
        name_valid(a),
        name_valid(b),
    ensures
        name_lt(a, b) || name_lt(b, a) || a == b,
{
    if let (NameV::Long(s), NameV::Long(t)) = (a, b) {
        if !lex_lt(s, t) && !lex_lt(t, s) {
            lemma_lex_from_total(s, t, 0);
            assert(s =~= t);
        }
    }
}

/// Law: on valid names, model equality coincides with name equality.
pub proof fn lemma_name_eq_is_eq(a: NameV, b: NameV)
    requires
        name_valid(a),
        name_valid(b),
    ensures
        name_eq(a, b) <==> a == b,
{
}

impl Name {
    /// Decides the strict lexicographic order between two strings.
    fn lex_lt_exec(a: &str, b: &str) -> (r: bool)
        ensures
            r == lex_lt(a@, b@),
    {
        let alen = a.unicode_len();
        let blen = b.unicode_len();
        let mut i: usize = 0;
        loop
            invariant
                i <= alen,
                i <= blen,
                alen == a@.len(),
                blen == b@.len(),
                lex_lt(a@, b@) == lex_lt_from(a@, b@, i as int),
            decreases blen - i,
        {
            if i >= blen {
                return false;
            }
            if i >= alen {
                return true;
            }
            let ca = a.get_char(i);
            let cb = b.get_char(i);
            if ca != cb {
                return ca < cb;
            }
            i = i + 1;
        }
    }

    /// Decides the strict name order between two valid names.
    pub fn lt(&self, other: &Name) -> (r: bool)
        requires
            name_valid(self@),
            name_valid(other@),
        ensures
            r == name_lt(self@, other@),
    {
        match (self, other) {
            (Name::Blank(i), Name::Blank(j)) => i < j,
            (Name::Blank(_), Name::Short(_)) => true,
            (Name::Blank(_), Name::Long(_)) => true,
            (Name::Short(c), Name::Short(d)) => c < d,
            (Name::Short(_), Name::Long(_)) => true,
            (Name::Long(s), Name::Long(t)) => Self::lex_lt_exec(s.as_str(), t.as_str()),
            _ => false,
        }
    }

    /// Prefixes the given value tokens with this name's own rendering:
    /// `-c` for a short flag, `--long` for a long flag, nothing for a
    /// positional; an `Undefined` name yields no tokens at all.
    pub fn name(&self, v: Vec<String>) -> (r: Vec<String>)
        ensures
            r.deep_view() == name_tokens(self@, v.deep_view()),
    {
        match self {
            Name::Blank(_) => v,
            Name::Undefined => {
                let r: Vec<String> = Vec::new();
                assert(r.deep_view() =~~= name_tokens(self@, v.deep_view()));
                r
            },
            Name::Short(c) => {
                if v.len() == 0 {
                    let r: Vec<String> = Vec::new();
                    assert(r.deep_view() =~~= name_tokens(self@, v.deep_view()));
                    r
                } else {
                    let mut flag = new_strlit_dash();
                    push_char(&mut flag, *c);
                    let mut r: Vec<String> = Vec::new();
                    r.push(flag);
                    let mut rest = v;
                    r.append(&mut rest);
                    assert(r.deep_view() =~~= name_tokens(self@, v.deep_view()));
                    r
                }
            },
            Name::Long(s) => {
                if v.len() == 0 {
                    let r: Vec<String> = Vec::new();
                    assert(r.deep_view() =~~= name_tokens(self@, v.deep_view()));
                    r
                } else {
                    let mut flag = new_strlit_dash();
                    push_char(&mut flag, '-');
                    flag.append(s.as_str());
                    let mut r: Vec<String> = Vec::new();
                    r.push(flag);
                    let mut rest = v;
                    r.append(&mut rest);
                    assert(r.deep_view() =~~= name_tokens(self@, v.deep_view()));
                    r
                }
            },
        }
    }

    /// A copy of this name with the same model.
    pub fn duplicate(&self) -> (r: Name)
        ensures
            r@ == self@,
    {
        match self {
            Name::Short(c) => Name::Short(*c),
            Name::Long(s) => Name::Long(s.clone()),
            Name::Blank(i) => Name::Blank(*i),
            Name::Undefined => Name::Undefined,
        }
    }

    /// Decides model-level name equality between two valid names.
    pub fn same(&self, other: &Name) -> (r: bool)
        requires
            name_valid(self@),
            name_valid(other@),
        ensures
            r == name_eq(self@, other@),
    {
        match (self, other) {
            (Name::Blank(i), Name::Blank(j)) => i == j,
            (Name::Short(c), Name::Short(d)) => c == d,
            (Name::Long(s), Name::Long(t)) => s.eq(t),
            _ => false,
        }
    }
}

} // verus!
