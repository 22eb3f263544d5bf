//! The textual mini-language for authoring entries from a compact
//! descriptor string.
//!
//! A descriptor has the form `ndst`, all four parts in that order:
//!
//! - `n`, the target name: `#` followed by one to three decimal digits (a
//!   positional index, at most 255), or `-` followed by one ASCII letter
//!   (a short flag), or `--` followed by one or more ASCII letters (a
//!   long flag);
//! - `d`, the default policy: `!` for mandatory, `<c>` where `c` is a
//!   possibly empty run of ASCII letters and `-` for a constant default
//!   of the entry's own kind, or nothing for skip — a boolean entry's
//!   constant must be `true` or `false`;
//! - `s`, the source tag: `{` followed by one or more ASCII letters and
//!   `}`, naming the upstream field that supplies the value;
//! - `t`, the target kind: `[str]` for text, `[path]` for a path, or
//!   nothing for a boolean flag.
//!
//! Examples: `#0!{pattern}[str]`, `#1<->{path}[path]`, `-i{casei}`.
//!
//! A string that does not match this grammar in its entirety is an
//! unparsable-descriptor error.

use vstd::prelude::*;

use crate::argument::{spec_bool_str, ArgV, Argument};
use crate::entry::{DefaultV, DefaultValue, Entry, EntryV, Error, ErrorKind, ErrorV,
    SourceFormatter};
use crate::name::{Name, NameV};

verus! {

/// A character is an ASCII letter.
pub open spec fn spec_is_letter(c: char) -> bool {
    ('a' <= c && c <= 'z') || ('A' <= c && c <= 'Z')
}

/// A character is an ASCII decimal digit.
pub open spec fn spec_is_digit(c: char) -> bool {
    '0' <= c && c <= '9'
}

/// The end of the maximal run of ASCII letters starting at `i`.
pub open spec fn letters_end(s: Seq<char>, i: int) -> int
    decreases s.len() - i,
{
    if 0 <= i < s.len() && spec_is_letter(s[i]) {
        letters_end(s, i + 1)
    } else {
        i
    }
}

/// The end of the maximal run of decimal digits starting at `i`.
pub open spec fn digits_end(s: Seq<char>, i: int) -> int
    decreases s.len() - i,
{
    if 0 <= i < s.len() && spec_is_digit(s[i]) {
        digits_end(s, i + 1)
    } else {
        i
    }
}

/// A character may stand in a constant default's content.
pub open spec fn spec_is_content(c: char) -> bool {
    spec_is_letter(c) || c == '-'
}

/// The end of the maximal run of default-content characters starting at
/// `i`.
pub open spec fn content_end(s: Seq<char>, i: int) -> int
    decreases s.len() - i,
{
    if 0 <= i < s.len() && spec_is_content(s[i]) {
        content_end(s, i + 1)
    } else {
        i
    }
}

/// The value of the decimal digits `s[i..j]`, most significant first.
pub open spec fn digits_val(s: Seq<char>, i: int, j: int) -> int
    decreases j - i,
{
    if i >= j {
        0
    } else {
        digits_val(s, i, j - 1) * 10 + (s[j - 1] as int - '0' as int)
    }
}

/// The name part of a descriptor: the parsed name and the position of
/// what follows it.
pub open spec fn parse_name_part(s: Seq<char>) -> Option<(NameV, int)> {
    if s.len() >= 1 && s[0] == '#' {
        let de = digits_end(s, 1);
        if 2 <= de <= 4 && digits_val(s, 1, de) <= 255 {
            Some((NameV::Blank(digits_val(s, 1, de)), de))
        } else {
            None
        }
    } else if s.len() >= 2 && s[0] == '-' && s[1] == '-' {
        let le = letters_end(s, 2);
        if le > 2 {
            Some((NameV::Long(s.subrange(2, le)), le))
        } else {
            None
        }
    } else if s.len() >= 2 && s[0] == '-' && spec_is_letter(s[1]) {
        Some((NameV::Short(s[1]), 2))
    } else {
        None
    }
}

/// The default-policy part of a descriptor, before its kind is known:
/// mandatory, skip, or a constant's raw content.
pub enum DefaultToken {
    /// The `!` form.
    Mandatory,
    /// The empty form.
    Skip,
    /// The `<c>` form, holding the raw content `c`.
    Content(Seq<char>),
}

/// The default part of a descriptor starting at `i`: the parsed policy
/// token and the position of what follows it.
pub open spec fn parse_default_part(s: Seq<char>, i: int) -> Option<(DefaultToken, int)> {
    if 0 <= i < s.len() && s[i] == '!' {
        Some((DefaultToken::Mandatory, i + 1))
    } else if 0 <= i < s.len() && s[i] == '<' {
        let ce = content_end(s, i + 1);
        if ce < s.len() && s[ce] == '>' {
            Some((DefaultToken::Content(s.subrange(i + 1, ce)), ce + 1))
        } else {
            None
        }
    } else {
        Some((DefaultToken::Skip, i))
    }
}

/// The source part of a descriptor starting at `i`: the tag between the
/// braces and the position of what follows it.
pub open spec fn parse_source_part(s: Seq<char>, i: int) -> Option<(Seq<char>, int)> {
    if 0 <= i < s.len() && s[i] == '{' {
        let le = letters_end(s, i + 1);
        if le > i + 1 && le < s.len() && s[le] == '}' {
            Some((s.subrange(i + 1, le), le + 1))
        } else {
            None
        }
    } else {
        None
    }
}

/// The kind part of a descriptor starting at `i`, which must reach the
/// end of the string: the entry's empty value slot.
pub open spec fn parse_kind_part(s: Seq<char>, i: int) -> Option<ArgV> {
    if i == s.len() {
        Some(ArgV::BooleanFlag(None))
    } else if 0 <= i < s.len() && s[i] == '[' {
        let le = letters_end(s, i + 1);
        if le > i + 1 && le + 1 == s.len() && s[le] == ']' {
            let w = s.subrange(i + 1, le);
            if w == seq!['s', 't', 'r'] {
                Some(ArgV::Text(None))
            } else if w == seq!['p', 'a', 't', 'h'] {
                Some(ArgV::PathPattern(None))
            } else {
                None
            }
        } else {
            None
        }
    } else {
        None
    }
}

/// The default policy a token denotes for an entry of the given kind: a
/// constant's content becomes a value of that kind, a boolean constant
/// admitting only `true` and `false`.
pub open spec fn default_of(d: DefaultToken, kind: ArgV) -> Option<DefaultV> {
    match d {
        DefaultToken::Mandatory => Some(DefaultV::Mandatory),
        DefaultToken::Skip => Some(DefaultV::Skip),
        DefaultToken::Content(c) => match kind {
            ArgV::Text(_) => Some(DefaultV::Default(ArgV::Text(Some(c)))),
            ArgV::PathPattern(_) => Some(DefaultV::Default(ArgV::PathPattern(Some(c)))),
            ArgV::BooleanFlag(_) => if c == spec_bool_str(true) {
                Some(DefaultV::Default(ArgV::BooleanFlag(Some(true))))
            } else if c == spec_bool_str(false) {
                Some(DefaultV::Default(ArgV::BooleanFlag(Some(false))))
            } else {
                None
            },
            _ => None,
        },
    }
}

/// What a whole descriptor string denotes: an entry with an empty value
/// slot, and the source tag naming the upstream field that fills it —
/// or nothing, when the string does not match the grammar.
pub open spec fn descriptor_model(s: Seq<char>) -> Option<(EntryV, Seq<char>)> {
    match parse_name_part(s) {
        None => None,
        Some((n, i)) => match parse_default_part(s, i) {
            None => None,
            Some((d, j)) => match parse_source_part(s, j) {
                None => None,
                Some((tag, k)) => match parse_kind_part(s, k) {
                    None => None,
                    Some(kind) => match default_of(d, kind) {
                        None => None,
                        Some(dv) => Some(
                            (
                                EntryV {
                                    defaults_to: dv,
                                    source: SourceFormatter::Default,
                                    target_name: n,
                                    target_type: kind,
                                },
                                tag,
                            ),
                        ),
                    },
                },
            },
        },
    }
}

/// Decides whether a character is an ASCII letter.
fn is_letter(c: char) -> (r: bool)
    ensures
        r == spec_is_letter(c),
{
    ('a' <= c && c <= 'z') || ('A' <= c && c <= 'Z')
}

/// Decides whether a character is a decimal digit.
fn is_digit(c: char) -> (r: bool)
    ensures
        r == spec_is_digit(c),
{
    '0' <= c && c <= '9'
}

/// Decides whether a character may stand in a constant default's content.
fn is_content(c: char) -> (r: bool)
    ensures
        r == spec_is_content(c),
{
    is_letter(c) || c == '-'
}

/// Finds the end of the maximal run of ASCII letters starting at `i`.
fn letters_end_exec(s: &str, i: usize) -> (r: usize)
    requires
        i <= s@.len(),
    ensures
        r == letters_end(s@, i as int),
        i <= r <= s@.len(),
{
    let n = s.unicode_len();
    let mut j = i;
    loop
        invariant
            i <= j <= n,
            n == s@.len(),
            letters_end(s@, i as int) == letters_end(s@, j as int),
        ensures
            i <= j <= n,
            j == letters_end(s@, i as int),
        decreases n - j,
    {
        if j >= n {
            break ;
        }
        if !is_letter(s.get_char(j)) {
            break ;
        }
        j = j + 1;
    }
    j
}

/// Finds the end of the maximal run of decimal digits starting at `i`.
fn digits_end_exec(s: &str, i: usize) -> (r: usize)
    requires
        i <= s@.len(),
    ensures
        r == digits_end(s@, i as int),
        i <= r <= s@.len(),
{
    let n = s.unicode_len();
    let mut j = i;
    loop
        invariant
            i <= j <= n,
            n == s@.len(),
            digits_end(s@, i as int) == digits_end(s@, j as int),
        ensures
            i <= j <= n,
            j == digits_end(s@, i as int),
        decreases n - j,
    {
        if j >= n {
            break ;
        }
        if !is_digit(s.get_char(j)) {
            break ;
        }
        j = j + 1;
    }
    j
}

/// Finds the end of the maximal run of default-content characters
/// starting at `i`.
fn content_end_exec(s: &str, i: usize) -> (r: usize)
    requires
        i <= s@.len(),
    ensures
        r == content_end(s@, i as int),
        i <= r <= s@.len(),
{
    let n = s.unicode_len();
    let mut j = i;
    loop
        invariant
            i <= j <= n,
            n == s@.len(),
            content_end(s@, i as int) == content_end(s@, j as int),
        ensures
            i <= j <= n,
            j == content_end(s@, i as int),
        decreases n - j,
    {
        if j >= n {
            break ;
        }
        if !is_content(s.get_char(j)) {
            break ;
        }
        j = j + 1;
    }
    j
}

/// Reads the value of the decimal digits `s[i..j]`.
fn digits_val_exec(s: &str, i: usize, j: usize) -> (r: u32)
    requires
        i <= j <= s@.len(),
        j - i <= 3,
        forall|k: int| i <= k < j ==> spec_is_digit(s@[k]),
    ensures
        r == digits_val(s@, i as int, j as int),
        r <= 999,
{
    let mut val: u32 = 0;
    let mut k = i;
    proof {
        lemma_digits_val_bound(s@, i as int, i as int);
    }
    while k < j
        invariant
            i <= k <= j <= s@.len(),
            j - i <= 3,
            forall|m: int| i <= m < j ==> spec_is_digit(s@[m]),
            val == digits_val(s@, i as int, k as int),
            val <= 999,
        decreases j - k,
    {
        let c = s.get_char(k);
        let d: u32 = (c as u32) - 48;
        proof {
            assert(spec_is_digit(s@[k as int]));
            lemma_digits_val_bound(s@, i as int, k + 1 as int);
        }
        val = val * 10 + d;
        k = k + 1;
    }
    val
}

/// A run of at most three digits has a value below a thousand.
proof fn lemma_digits_val_bound(s: Seq<char>, i: int, j: int)
    requires
        forall|k: int| i <= k < j ==> spec_is_digit(#[trigger] s[k]),
    ensures
        j - i <= 0 ==> digits_val(s, i, j) == 0,
        j - i == 1 ==> digits_val(s, i, j) <= 9,
        j - i == 2 ==> digits_val(s, i, j) <= 99,
        j - i == 3 ==> digits_val(s, i, j) <= 999,
        digits_val(s, i, j) >= 0,
    decreases j - i,
{
    if i < j {
        lemma_digits_val_bound(s, i, j - 1);
    }
}

impl Name {
    /// Parses the name part at the head of a descriptor string: the name
    /// and the position of what follows it, or nothing when the head
    /// matches no name form.
    pub fn parse(s: &str) -> (r: Option<(Name, usize)>)
        ensures
            (match parse_name_part(s@) {
                Some((n, i)) => r is Some && r->Some_0.0@ == n && r->Some_0.1 == i,
                None => r is None,
            }),
    {
        let n = s.unicode_len();
        if n >= 1 && s.get_char(0) == '#' {
            let de = digits_end_exec(s, 1);
            proof {
                lemma_digits_end_digits(s@, 1, de as int);
            }
            if 2 <= de && de <= 4 {
                let val = digits_val_exec(s, 1, de);
                if val <= 255 {
                    Some((Name::Blank(val as u8), de))
                } else {
                    None
                }
            } else {
                None
            }
        } else if n >= 2 && s.get_char(0) == '-' && s.get_char(1) == '-' {
            let le = letters_end_exec(s, 2);
            if le > 2 {
                let w = s.substring_char(2, le);
                Some((Name::Long(String::from_str(w)), le))
            } else {
                None
            }
        } else if n >= 2 && s.get_char(0) == '-' && is_letter(s.get_char(1)) {
            Some((Name::Short(s.get_char(1)), 2))
        } else {
            None
        }
    }
}

/// Every position of a maximal digit run holds a digit.
proof fn lemma_digits_end_digits(s: Seq<char>, i: int, e: int)
    requires
        0 <= i,
        e == digits_end(s, i),
    ensures
        forall|k: int| i <= k < e ==> spec_is_digit(#[trigger] s[k]),
    decreases s.len() - i,
{
    if 0 <= i < s.len() && spec_is_digit(s[i]) {
        lemma_digits_end_digits(s, i + 1, e);
    }
}

/// Decides whether two strings hold the same characters.
fn str_eq(a: &str, b: &str) -> (r: bool)
    ensures
        r == (a@ == b@),
{
    let an = a.unicode_len();
    let bn = b.unicode_len();
    if an != bn {
        return false;
    }
    let mut i: usize = 0;
    loop
        invariant
            i <= an,
            an == a@.len(),
            an == b@.len(),
            forall|k: int| 0 <= k < i ==> a@[k] == b@[k],
        ensures
            i <= an,
            forall|k: int| 0 <= k < i ==> a@[k] == b@[k],
            i < an ==> a@[i as int] != b@[i as int],
        decreases an - i,
    {
        if i >= an {
            break ;
        }
        if a.get_char(i) != b.get_char(i) {
            break ;
        }
        i = i + 1;
    }
    if i < an {
        false
    } else {
        proof {
            assert(a@ =~= b@);
        }
        true
    }
}

impl Entry {
    /// Parses a whole descriptor string into an entry with an empty value
    /// slot and the tag of the upstream source field that fills it; a
    /// string that does not match the grammar in its entirety is an
    /// unparsable-descriptor error.
    pub fn parse(descriptor: &str) -> (r: Result<(Entry, String), Error>)
        ensures
            (match descriptor_model(descriptor@) {
                Some((e, tag)) => r is Ok && r->Ok_0.0@ == e && r->Ok_0.1@ == tag,
                None => r is Err && r->Err_0@ == ErrorV::UnparsableSchemaDescriptor,
            }),
    {
        let s = descriptor;
        let n = s.unicode_len();
        let refusal = Error { kind: ErrorKind::UnparsableSchemaDescriptor };
        let name_part = Name::parse(s);
        let (name, i) = match name_part {
            Some(p) => p,
            None => {
                return Err(refusal);
            },
        };
        proof {
            lemma_name_part_bounds(s@);
        }
        // the default part
        let mandatory = i < n && s.get_char(i) == '!';
        let constant = !mandatory && i < n && s.get_char(i) == '<';
        let mut content: Option<String> = None;
        let mut j = i;
        if mandatory {
            j = i + 1;
        } else if constant {
            let ce = content_end_exec(s, i + 1);
            if ce < n && s.get_char(ce) == '>' {
                content = Some(String::from_str(s.substring_char(i + 1, ce)));
                j = ce + 1;
            } else {
                return Err(refusal);
            }
        }
        // the source part
        if !(j < n && s.get_char(j) == '{') {
            return Err(refusal);
        }
        let le = letters_end_exec(s, j + 1);
        if !(le > j + 1 && le < n && s.get_char(le) == '}') {
            return Err(refusal);
        }
        let tag = String::from_str(s.substring_char(j + 1, le));
        let k = le + 1;
        // the kind part
        let kind: Argument;
        if k == n {
            kind = Argument::BooleanFlag(None);
        } else if s.get_char(k) == '[' {
            let we = letters_end_exec(s, k + 1);
            if !(we > k + 1 && we == n - 1 && s.get_char(we) == ']') {
                return Err(refusal);
            }
            let w = s.substring_char(k + 1, we);
            if str_eq(w, "str") {
                proof {
                    reveal_strlit("str");
                    assert("str"@ =~= seq!['s', 't', 'r']);
                }
                kind = Argument::Text(None);
            } else if str_eq(w, "path") {
                proof {
                    reveal_strlit("str");
                    reveal_strlit("path");
                    assert("str"@ =~= seq!['s', 't', 'r']);
                    assert("path"@ =~= seq!['p', 'a', 't', 'h']);
                }
                kind = Argument::PathPattern(None);
            } else {
                proof {
                    reveal_strlit("str");
                    reveal_strlit("path");
                    assert("str"@ =~= seq!['s', 't', 'r']);
                    assert("path"@ =~= seq!['p', 'a', 't', 'h']);
                }
                return Err(refusal);
            }
        } else {
            return Err(refusal);
        }
        // the default policy against the kind
        let defaults_to: DefaultValue;
        if mandatory {
            defaults_to = DefaultValue::Mandatory;
        } else if constant {
            let c = match content {
                Some(c) => c,
                None => {
                    return Err(refusal);
                },
            };
            match &kind {
                Argument::Text(_) => {
                    defaults_to = DefaultValue::Default(Argument::Text(Some(c)));
                },
                Argument::PathPattern(_) => {
                    defaults_to = DefaultValue::Default(Argument::PathPattern(Some(c)));
                },
                Argument::BooleanFlag(_) => {
                    if str_eq(c.as_str(), "true") {
                        proof {
                            reveal_strlit("true");
                            assert("true"@ =~= spec_bool_str(true));
                        }
                        defaults_to = DefaultValue::Default(Argument::BooleanFlag(Some(true)));
                    } else if str_eq(c.as_str(), "false") {
                        proof {
                            reveal_strlit("true");
                            reveal_strlit("false");
                            assert("true"@ =~= spec_bool_str(true));
                            assert("false"@ =~= spec_bool_str(false));
                        }
                        defaults_to = DefaultValue::Default(Argument::BooleanFlag(Some(false)));
                    } else {
                        proof {
                            reveal_strlit("true");
                            reveal_strlit("false");
                            assert("true"@ =~= spec_bool_str(true));
                            assert("false"@ =~= spec_bool_str(false));
                        }
                        return Err(refusal);
                    }
                },
                _ => {
                    return Err(refusal);
                },
            }
        } else {
            defaults_to = DefaultValue::Skip;
        }
        let entry = Entry {
            defaults_to,
            source: SourceFormatter::Default,
            target_name: name,
            target_type: kind,
        };
        Ok((entry, tag))
    }
}

/// A parsed name part never reaches past the end of the string.
proof fn lemma_name_part_bounds(s: Seq<char>)
    ensures
        (match parse_name_part(s) {
            Some((n, i)) => 0 <= i <= s.len(),
            None => true,
        }),
{
    if s.len() >= 1 && s[0] == '#' {
        lemma_run_end_bounds(s, 1);
    } else if s.len() >= 2 && s[0] == '-' && s[1] == '-' {
        lemma_run_end_bounds(s, 2);
    }
}

/// A maximal run starting inside the string ends inside it.
proof fn lemma_run_end_bounds(s: Seq<char>, i: int)
    requires
        0 <= i <= s.len(),
    ensures
        i <= letters_end(s, i) <= s.len(),
        i <= digits_end(s, i) <= s.len(),
        i <= content_end(s, i) <= s.len(),
    decreases s.len() - i,
{
    if i < s.len() {
        lemma_run_end_bounds(s, i + 1);
    }
}

} // verus!
