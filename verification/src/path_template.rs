//! Where a resolved write destination is rooted, and the config field that
//! names one.
//!
//! A destination travels as a pair: the dotted path, which the audit trail
//! records, and its pre-split parts, which the tree walkers take. The two
//! are computed together so they can never disagree about where a value
//! went. A destination that folds to a constant when it is compiled has its
//! pair computed once, then; only one that reads the message is split per
//! write.

use vstd::prelude::*;
use std::marker::PhantomData;
use crate::compiler::{LogicCompiler, compiles_json, fails_with_label};
use crate::error::DataflowError;
use crate::json::Json;
use crate::logic::{LogicEngine, fold_of, plain_text, plain_view};
use crate::paths::{compute_data_path, path_parts, split_dots, split_path};
use crate::template::{Template, literal_text, not_compiled_message};
use crate::text::owned;

verus! {

/// The views of a list of parts.
pub open spec fn parts_of(parts: Seq<String>) -> Seq<Seq<char>> {
    parts.map_values(|p: String| p@)
}

/// How a resolved path string is rooted, fixed by the type of the config
/// field that holds it.
pub trait PathRoot: Sized {
    /// The `(dotted, parts)` pair of a path string, rooted as this type
    /// roots it.
    spec fn rooted(path: Seq<char>) -> (Seq<char>, Seq<Seq<char>>);

    /// The `(dotted, parts)` pair for a resolved path string. Parts keep any
    /// `#` prefix; it is stripped at lookup.
    fn compute(path: &str) -> (r: (String, Vec<String>))
        ensures
            (r.0@, parts_of(r.1@)) == Self::rooted(path@),
    ;
}

/// Rooted at the whole context: the path names its own root, as in
/// `data.user.name` or `temp_data.i`.
#[derive(Debug, Clone, Copy, Default)]
pub struct ContextRoot;

/// Rooted inside `data`: the authored `"orders"` means `data.orders`.
#[derive(Debug, Clone, Copy, Default)]
pub struct DataRoot;

impl PathRoot for ContextRoot {
    open spec fn rooted(path: Seq<char>) -> (Seq<char>, Seq<Seq<char>>) {
        (path, split_dots(path))
    }

    fn compute(path: &str) -> (r: (String, Vec<String>)) {
        (owned(path), split_path(path))
    }
}

impl PathRoot for DataRoot {
    open spec fn rooted(path: Seq<char>) -> (Seq<char>, Seq<Seq<char>>) {
        ("data."@ + path, path_parts("data"@, path))
    }

    fn compute(path: &str) -> (r: (String, Vec<String>)) {
        compute_data_path(path)
    }
}

/// A fresh copy of a list of parts.
fn copy_parts(parts: &Vec<String>) -> (r: Vec<String>)
    ensures
        parts_of(r@) == parts_of(parts@),
{
    let mut out: Vec<String> = Vec::new();
    let mut i: usize = 0;
    while i < parts.len()
        invariant
            i <= parts@.len(),
            out@.len() == i,
            forall|k: int| 0 <= k < i ==> (#[trigger] out@[k])@ == parts@[k]@,
        decreases parts@.len() - i,
    {
        out.push(owned(parts[i].as_str()));
        i = i + 1;
    }
    assert(parts_of(out@) =~= parts_of(parts@));
    out
}

/// A config field naming a write destination, expressed as JSONLogic; `R`
/// fixes how the resolved path is rooted.
#[derive(Debug)]
pub struct PathTemplate<R: PathRoot> {
    template: Template,
    /// The pair of a destination that folded to a constant.
    precomputed: Option<(String, Vec<String>)>,
    root: PhantomData<R>,
}

impl<R: PathRoot> PathTemplate<R> {
    /// The expression, as a template.
    pub closed spec fn template(&self) -> Template {
        self.template
    }

    /// The precomputed destination, when there is one.
    pub closed spec fn destination(&self) -> Option<(Seq<char>, Seq<Seq<char>>)> {
        match self.precomputed {
            Some(p) => Some((p.0@, parts_of(p.1@))),
            None => None,
        }
    }

    /// An uncompiled destination over `raw`.
    pub fn new(raw: Json) -> (r: PathTemplate<R>)
        ensures
            r.template().raw() == raw,
            !r.template().compiled(),
            r.destination() is None,
    {
        PathTemplate { template: Template::new(raw), precomputed: None, root: PhantomData }
    }

    /// Compile the expression and, when it folded to a constant, compute
    /// that destination's pair once; a failure carries `label` and leaves
    /// the field as it was.
    pub fn compile(&mut self, compiler: &LogicCompiler, label: &str) -> (r: Result<(), DataflowError>)
        ensures
            final(self).template().raw() == old(self).template().raw(),
            r is Ok <==> compiles_json(old(self).template().raw()),
            match r {
                Ok(()) => final(self).template().compiled() && final(self).destination()
                    == match final(self).template().constant() {
                    Some(c) => Some(R::rooted(plain_text(c))),
                    None => None,
                } && final(self).destination() == match fold_of(old(self).template().raw().view_json()) {
                    Some(v) => Some(R::rooted(plain_view(v))),
                    None => None,
                },
                Err(e) => fails_with_label(e, label@) && final(self).template().compiled() == old(
                    self,
                ).template().compiled() && final(self).destination() == old(self).destination(),
            },
    {
        match self.template.compile(compiler, label) {
            Ok(()) => {},
            Err(e) => {
                return Err(e);
            },
        }
        self.precomputed = match self.template.constant_string() {
            Some(s) => Some(R::compute(s.as_str())),
            None => None,
        };
        Ok(())
    }

    /// The destination for `context` as `(dotted path, split parts)`: the
    /// precomputed pair of a constant; for one never compiled, the rooting
    /// of its literal text (a non-scalar is an error); otherwise the
    /// rooting of what the expression resolves to.
    pub fn resolve(&self, engine: &LogicEngine, context: &Json) -> (r: Result<
        (String, Vec<String>),
        DataflowError,
    >)
        ensures
            match self.destination() {
                Some(p) => r matches Ok(pair) && (pair.0@, parts_of(pair.1@)) == p,
                None => if !self.template().compiled() {
                    match literal_text(self.template().raw()) {
                        Some(t) => r matches Ok(pair) && (pair.0@, parts_of(pair.1@)) == R::rooted(
                            t,
                        ),
                        None => r matches Err(DataflowError::LogicEvaluation(m)) && m@
                            == not_compiled_message(),
                    }
                } else {
                    &&& r matches Ok(pair) ==> exists|t: Seq<char>|
                        (pair.0@, parts_of(pair.1@)) == R::rooted(t)
                    &&& r matches Err(e) ==> e is LogicEvaluation
                },
            },
    {
        match &self.precomputed {
            Some(p) => Ok((owned(p.0.as_str()), copy_parts(&p.1))),
            None => match self.template.resolve_string(engine, context) {
                Ok(s) => Ok(R::compute(s.as_str())),
                Err(e) => Err(e),
            },
        }
    }

    /// The authored JSON, unchanged.
    pub fn as_json(&self) -> (r: &Json)
        ensures
            *r == self.template().raw(),
    {
        self.template.as_json()
    }

    /// Whether the destination folded to a constant, so that
    /// [`PathTemplate::resolve`] hands back its precomputed pair.
    pub fn is_constant(&self) -> (r: bool)
        ensures
            r == self.destination() is Some,
    {
        self.precomputed.is_some()
    }

    /// The constant destination as a dotted string, when it folded to one.
    pub fn constant_path(&self) -> (r: Option<&str>)
        ensures
            match self.destination() {
                Some(p) => r matches Some(s) && s@ == p.0,
                None => r is None,
            },
    {
        match &self.precomputed {
            Some(p) => Some(p.0.as_str()),
            None => None,
        }
    }
}

} // verus!
