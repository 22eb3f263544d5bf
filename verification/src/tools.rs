//! The schema for a grep-style search tool: one mandatory positional
//! pattern, one optional positional path, one optional short
//! case-insensitivity flag, and the mapper that turns a caller's typed
//! input into the tool's argument vector.

use vstd::prelude::*;

use crate::argument::{ArgV, Argument, Value, ValueV};
use crate::entry::{fill_entry, DefaultV, DefaultValue, Entry, EntryV, Error, ErrorV,
    SourceFormatter, Transformable};
use crate::name::{name_valid, Name, NameV};
use crate::order::{spec_insert, Convertible, OrderedEntries};

verus! {

/// The caller's typed input for one grep-style invocation, as the
/// option parser hands it over: paths carried in their display form.
pub struct Args {
    /// The regular expression used for searching.
    pub regex_pattern: String,
    /// The file or directory to search, when one was given.
    pub file: Option<String>,
    /// Case insensitive mode, when the flag was given.
    pub casei: Option<bool>,
}

/// Mathematical model of [`Args`].
pub struct ArgsV {
    /// Model of the search pattern.
    pub regex_pattern: Seq<char>,
    /// Model of the optional search path.
    pub file: Option<Seq<char>>,
    /// Model of the optional case-insensitivity flag.
    pub casei: Option<bool>,
}

impl View for Args {
    type V = ArgsV;

    open spec fn view(&self) -> ArgsV {
        ArgsV {
            regex_pattern: self.regex_pattern@,
            file: self.file.deep_view(),
            casei: self.casei,
        }
    }
}

/// The schema of a grep-style tool: its three configurable entries.
#[derive(Clone)]
pub struct Grepper {
    /// The regular expression used for searching.
    pub regex_pattern: Entry,
    /// The file or directory to search; directories may be searched
    /// recursively by the wrapped tool.
    pub file: Entry,
    /// The case sensitivity flag.
    pub casei: Entry,
}

/// Mathematical model of a [`Grepper`].
pub struct GrepperV {
    /// Model of the pattern entry.
    pub regex_pattern: EntryV,
    /// Model of the path entry.
    pub file: EntryV,
    /// Model of the flag entry.
    pub casei: EntryV,
}

impl View for Grepper {
    type V = GrepperV;

    open spec fn view(&self) -> GrepperV {
        GrepperV {
            regex_pattern: self.regex_pattern@,
            file: self.file@,
            casei: self.casei@,
        }
    }
}

/// The stock grep schema: a mandatory positional text pattern, an
/// optional positional path that contributes nothing when absent, and an
/// optional short boolean flag for case insensitivity.
pub open spec fn grep_schema() -> GrepperV {
    GrepperV {
        regex_pattern: EntryV {
            defaults_to: DefaultV::Mandatory,
            source: SourceFormatter::Default,
            target_name: NameV::Blank(0),
            target_type: ArgV::Text(None),
        },
        file: EntryV {
            defaults_to: DefaultV::Skip,
            source: SourceFormatter::Default,
            target_name: NameV::Blank(1),
            target_type: ArgV::PathPattern(None),
        },
        casei: EntryV {
            defaults_to: DefaultV::Skip,
            source: SourceFormatter::Default,
            target_name: NameV::Short('i'),
            target_type: ArgV::BooleanFlag(None),
        },
    }
}

impl Grepper {
    /// The stock grep schema, as [`grep_schema`] describes it.
    pub fn new() -> (r: Grepper)
        ensures
            r@ == grep_schema(),
    {
        Grepper {
            regex_pattern: Entry {
                defaults_to: DefaultValue::Mandatory,
                source: SourceFormatter::Default,
                target_name: Name::Blank(0),
                target_type: Argument::Text(None),
            },
            file: Entry {
                defaults_to: DefaultValue::Skip,
                source: SourceFormatter::Default,
                target_name: Name::Blank(1),
                target_type: Argument::PathPattern(None),
            },
            casei: Entry {
                defaults_to: DefaultValue::Skip,
                source: SourceFormatter::Default,
                target_name: Name::Short('i'),
                target_type: Argument::BooleanFlag(None),
            },
        }
    }
}

/// The three schema entries once the input has filled them: the pattern
/// from the pattern field, the path and the flag only when the input
/// supplies one; nothing on a shape mismatch.
pub open spec fn grep_fill(g: GrepperV, a: ArgsV) -> Option<(EntryV, EntryV, EntryV)> {
    match fill_entry(g.regex_pattern, ValueV::Text(a.regex_pattern)) {
        None => None,
        Some(e0) => {
            let f1 = match a.file {
                Some(p) => fill_entry(g.file, ValueV::Path(p)),
                None => Some(g.file),
            };
            match f1 {
                None => None,
                Some(e1) => {
                    let f2 = match a.casei {
                        Some(b) => fill_entry(g.casei, ValueV::Bool(b)),
                        None => Some(g.casei),
                    };
                    match f2 {
                        None => None,
                        Some(e2) => Some((e0, e1, e2)),
                    }
                },
            }
        },
    }
}

/// One step of populating the ordered set: an entry with an `Undefined`
/// name is dropped, any other is inserted, a name collision failing the
/// population.
pub open spec fn ins_step(acc: Result<Seq<EntryV>, ErrorV>, e: EntryV) -> Result<
    Seq<EntryV>,
    ErrorV,
> {
    match acc {
        Err(x) => Err(x),
        Ok(s) => if !name_valid(e.target_name) {
            Ok(s)
        } else {
            match spec_insert(s, e) {
                Some(r) => Ok(r),
                None => Err(ErrorV::DuplicateName(e.target_name)),
            }
        },
    }
}

/// The ordered, filled entry set a grep invocation works from: each entry
/// filled from its input field, then inserted in name order.
pub open spec fn grep_populate(g: GrepperV, a: ArgsV) -> Result<Seq<EntryV>, ErrorV> {
    match grep_fill(g, a) {
        None => Err(ErrorV::TypeMismatch),
        Some((e0, e1, e2)) => ins_step(ins_step(ins_step(Ok(seq![]), e0), e1), e2),
    }
}

impl Grepper {
    /// Inserts one filled entry into the bundle unless its name is
    /// `Undefined`, which excludes it from the invocation.
    fn place(r: &mut OrderedEntries, e: Entry) -> (res: Result<(), Error>)
        requires
            old(r).wf(),
        ensures
            final(r).wf(),
            (match ins_step(Ok(old(r)@), e@) {
                Ok(s) => res is Ok && final(r)@ == s,
                Err(x) => res is Err && res->Err_0@ == x && final(r)@ == old(r)@,
            }),
    {
        match e.target_name {
            Name::Undefined => Ok(()),
            _ => r.insert(e),
        }
    }
}

impl Convertible<Args> for Grepper {
    open spec fn spec_populate(&self, with: ArgsV) -> Result<Seq<EntryV>, ErrorV> {
        grep_populate(self@, with)
    }

    fn populate(&self, with: &Args) -> (r: Result<OrderedEntries, Error>) {
        let mut pattern = self.regex_pattern.duplicate();
        if let Err(e) = pattern.fill(&Value::Text(with.regex_pattern.clone())) {
            return Err(e);
        }
        let mut file = self.file.duplicate();
        if let Some(p) = &with.file {
            if let Err(e) = file.fill(&Value::Path(p.clone())) {
                return Err(e);
            }
        }
        let mut casei = self.casei.duplicate();
        if let Some(b) = &with.casei {
            if let Err(e) = casei.fill(&Value::Bool(*b)) {
                return Err(e);
            }
        }
        let mut bundle = OrderedEntries::new();
        if let Err(e) = Self::place(&mut bundle, pattern) {
            return Err(e);
        }
        if let Err(e) = Self::place(&mut bundle, file) {
            return Err(e);
        }
        if let Err(e) = Self::place(&mut bundle, casei) {
            return Err(e);
        }
        Ok(bundle)
    }

    fn generate(&self, with: &Args) -> (r: Result<Vec<String>, Error>) {
        match self.populate(with) {
            Err(e) => Err(e),
            Ok(bundle) => bundle.conform_all(),
        }
    }
}

} // verus!
