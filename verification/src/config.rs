//! The built-in function vocabulary: which names the engine special-cases,
//! how each reaches an implementation, and which names a registry of
//! handlers will actually dispatch.

use vstd::prelude::*;
use crate::json::Json;
use crate::text::{owned, str_eq};

verus! {

/// The name a `map` task is authored under (the variant is `Mapping`,
/// since `Map` names the specification map type).
#[derive(Debug, Clone, Copy, PartialEq, Eq, Structural)]
pub enum MapName {
    Mapping,
}

/// The two names a validation task may be authored under.
#[derive(Debug, Clone, Copy, PartialEq, Eq, Structural)]
pub enum ValidationName {
    Validation,
    Validate,
}

/// The name a `parse_json` task is authored under.
#[derive(Debug, Clone, Copy, PartialEq, Eq, Structural)]
pub enum ParseJsonName {
    ParseJson,
}

/// The name a `parse_xml` task is authored under.
#[derive(Debug, Clone, Copy, PartialEq, Eq, Structural)]
pub enum ParseXmlName {
    ParseXml,
}

/// The name a `publish_json` task is authored under.
#[derive(Debug, Clone, Copy, PartialEq, Eq, Structural)]
pub enum PublishJsonName {
    PublishJson,
}

/// The name a `publish_xml` task is authored under.
#[derive(Debug, Clone, Copy, PartialEq, Eq, Structural)]
pub enum PublishXmlName {
    PublishXml,
}

/// The name a `filter` task is authored under.
#[derive(Debug, Clone, Copy, PartialEq, Eq, Structural)]
pub enum FilterName {
    Filter,
}

/// The name a `log` task is authored under.
#[derive(Debug, Clone, Copy, PartialEq, Eq, Structural)]
pub enum LogName {
    Log,
}

/// The name an `http_call` task is authored under.
#[derive(Debug, Clone, Copy, PartialEq, Eq, Structural)]
pub enum HttpCallName {
    HttpCall,
}

/// The name an `enrich` task is authored under.
#[derive(Debug, Clone, Copy, PartialEq, Eq, Structural)]
pub enum EnrichName {
    Enrich,
}

/// The name a `publish_kafka` task is authored under.
#[derive(Debug, Clone, Copy, PartialEq, Eq, Structural)]
pub enum PublishKafkaName {
    PublishKafka,
}

/// Every function name that resolves to a typed built-in rather than to a
/// custom handler. Ordering is not meaningful; `validation` and `validate`
/// are both present and name the same function.
pub const BUILTIN_FUNCTION_NAMES: [&'static str; 12] = [
    "map",
    "validation",
    "validate",
    "parse_json",
    "parse_xml",
    "publish_json",
    "publish_xml",
    "filter",
    "log",
    "http_call",
    "enrich",
    "publish_kafka",
];

/// How a built-in function reaches an implementation.
#[derive(Debug, Clone, Copy, PartialEq, Eq, Structural)]
pub enum BuiltinKind {
    /// Executed by the engine itself. Needs no registration.
    SelfContained,
    /// A typed config schema only: dispatches to a handler registered under
    /// the same name, and fails on the first message if none is.
    RequiresHandler,
}

/// The built-in names, in the order of [`BUILTIN_FUNCTION_NAMES`].
pub open spec fn builtin_names() -> Seq<Seq<char>> {
    seq![
        "map"@,
        "validation"@,
        "validate"@,
        "parse_json"@,
        "parse_xml"@,
        "publish_json"@,
        "publish_xml"@,
        "filter"@,
        "log"@,
        "http_call"@,
        "enrich"@,
        "publish_kafka"@,
    ]
}

/// The classification of `name` as a built-in, by exact match.
pub open spec fn builtin_kind(name: Seq<char>) -> Option<BuiltinKind> {
    if name == "map"@ || name == "validation"@ || name == "validate"@ || name == "parse_json"@
        || name == "parse_xml"@ || name == "publish_json"@ || name == "publish_xml"@ || name
        == "filter"@ || name == "log"@ {
        Some(BuiltinKind::SelfContained)
    } else if name == "http_call"@ || name == "enrich"@ || name == "publish_kafka"@ {
        Some(BuiltinKind::RequiresHandler)
    } else {
        None
    }
}

/// The canonical spelling of a built-in name: `validation` is an alias of
/// `validate`, every other name is its own.
pub open spec fn canonical_name(name: Seq<char>) -> Seq<char> {
    if name == "validation"@ {
        "validate"@
    } else {
        name
    }
}

/// The other accepted spellings of a canonical name.
pub open spec fn aliases_of(canonical: Seq<char>) -> Seq<Seq<char>> {
    if canonical == "validate"@ {
        seq!["validation"@]
    } else {
        Seq::empty()
    }
}

/// Classify `name` as a built-in function. `None` means it is not one and
/// needs a registered handler. Matching is exact.
pub fn builtin_function_kind(name: &str) -> (r: Option<BuiltinKind>)
    ensures
        r == builtin_kind(name@),
{
    if str_eq(name, "map") || str_eq(name, "validation") || str_eq(name, "validate") || str_eq(
        name,
        "parse_json",
    ) || str_eq(name, "parse_xml") || str_eq(name, "publish_json") || str_eq(name, "publish_xml")
        || str_eq(name, "filter") || str_eq(name, "log") {
        Some(BuiltinKind::SelfContained)
    } else if str_eq(name, "http_call") || str_eq(name, "enrich") || str_eq(name, "publish_kafka") {
        Some(BuiltinKind::RequiresHandler)
    } else {
        None
    }
}

/// Whether `name` resolves to a typed built-in at all.
pub fn is_builtin_function(name: &str) -> (r: bool)
    ensures
        r == (builtin_kind(name@) is Some),
{
    builtin_function_kind(name).is_some()
}

/// Map a built-in spelling to the canonical one for its function.
pub fn canonical_builtin_name(name: &str) -> (r: &str)
    ensures
        r@ == canonical_name(name@),
{
    if str_eq(name, "validation") {
        "validate"
    } else {
        name
    }
}

/// The alternative spellings of a canonical built-in name.
pub fn builtin_aliases(canonical: &str) -> (r: Vec<&'static str>)
    ensures
        r@.map_values(|a: &str| a@) == aliases_of(canonical@),
{
    let mut r: Vec<&'static str> = Vec::new();
    if str_eq(canonical, "validate") {
        r.push("validation");
    }
    assert(r@.map_values(|a: &str| a@) =~= aliases_of(canonical@));
    r
}

/// The names a handler is registered under. Like a map's keys, each name
/// occurs once.
pub struct Registry {
    names: Vec<String>,
}

impl Registry {
    /// The registered names, each once.
    pub closed spec fn names_view(&self) -> Seq<Seq<char>> {
        self.names@.map_values(|n: String| n@)
    }

    /// The registry's invariant: no name occurs twice.
    #[verifier::type_invariant]
    pub closed spec fn wf(&self) -> bool {
        self.names_view().no_duplicates()
    }

    /// An empty registry.
    pub fn new() -> (r: Registry)
        ensures
            r.wf(),
            r.names_view() == Seq::<Seq<char>>::empty(),
    {
        let r = Registry { names: Vec::new() };
        assert(r.names_view() =~= Seq::<Seq<char>>::empty());
        r
    }

    /// Whether a handler is registered under `name`.
    pub fn contains_key(&self, name: &str) -> (r: bool)
        ensures
            r == self.names_view().contains(name@),
    {
        let mut i: usize = 0;
        while i < self.names.len()
            invariant
                i <= self.names@.len(),
                forall|j: int| 0 <= j < i ==> self.names@[j]@ != name@,
            decreases self.names@.len() - i,
        {
            if str_eq(self.names[i].as_str(), name) {
                assert(self.names_view()[i as int] == name@);
                return true;
            }
            i = i + 1;
        }
        assert(!self.names_view().contains(name@)) by {
            if self.names_view().contains(name@) {
                let j = choose|j: int| 0 <= j < self.names_view().len() && self.names_view()[j] == name@;
                assert(self.names@[j]@ == name@);
            }
        }
        false
    }

    /// Register `name`. Registering a name twice keeps it once.
    pub fn insert(&mut self, name: &str)
        ensures
            final(self).wf(),
            old(self).names_view().contains(name@) ==> final(self).names_view() == old(self).names_view(),
            !old(self).names_view().contains(name@) ==> final(self).names_view() == old(self).names_view().push(name@),
    {
        proof {
            use_type_invariant(&*self);
        }
        if self.contains_key(name) {
            return;
        }
        let ghost before = self.names_view();
        let mut names: Vec<String> = Vec::new();
        std::mem::swap(&mut names, &mut self.names);
        assert(names@.map_values(|n: String| n@) == before);
        names.push(owned(name));
        let ghost after = names@.map_values(|n: String| n@);
        assert(after =~= before.push(name@));
        assert(after.no_duplicates()) by {
            assert forall|i: int, j: int|
                0 <= i < after.len() && 0 <= j < after.len() && i != j
                implies after[i] != after[j] by {
                if i < before.len() && j < before.len() {
                } else if i == before.len() {
                    assert(before[j] == after[j]);
                } else {
                    assert(before[i] == after[i]);
                }
            }
        }
        self.names = names;
    }

    /// The registered names.
    pub fn keys(&self) -> (r: &Vec<String>)
        ensures
            r@.map_values(|n: String| n@) == self.names_view(),
    {
        &self.names
    }
}

/// Whether a registry with these names dispatches `name`: a self-contained
/// built-in always, anything else only when a handler is registered.
pub open spec fn dispatches(registry: Seq<Seq<char>>, name: Seq<char>) -> bool {
    builtin_kind(name) == Some(BuiltinKind::SelfContained) || registry.contains(name)
}

/// Whether a registry with these names will dispatch `name`.
pub fn can_dispatch_in(registry: &Registry, name: &str) -> (r: bool)
    ensures
        r == dispatches(registry.names_view(), name@),
{
    match builtin_function_kind(name) {
        Some(BuiltinKind::SelfContained) => true,
        _ => registry.contains_key(name),
    }
}

/// One function an engine will actually dispatch.
#[derive(Debug, Clone, PartialEq, Eq)]
pub struct DispatchableFunction<'a> {
    /// The canonical name.
    pub name: &'a str,
    /// `Some(..)` for a built-in; `None` for a name backed only by a
    /// registered custom handler.
    pub kind: Option<BuiltinKind>,
    /// Other accepted spellings of this same function.
    pub aliases: Vec<&'static str>,
}

/// An enumerated function as plain values: name, kind, aliases.
pub type FunctionView = (Seq<char>, Option<BuiltinKind>, Seq<Seq<char>>);

impl<'a> DispatchableFunction<'a> {
    pub open spec fn view_fn(self) -> FunctionView {
        (self.name@, self.kind, self.aliases@.map_values(|a: &str| a@))
    }
}

/// Whether a built-in spelling is enumerated for a registry: canonical, and
/// either self-contained or backed by a registration.
pub open spec fn enumerated_builtin(name: Seq<char>, registry: Seq<Seq<char>>) -> bool {
    canonical_name(name) == name && (builtin_kind(name) == Some(BuiltinKind::SelfContained) || (
    builtin_kind(name) == Some(BuiltinKind::RequiresHandler) && registry.contains(name)))
}

/// The built-in entries enumerated from `names`, in order.
pub open spec fn builtin_entries(names: Seq<Seq<char>>, registry: Seq<Seq<char>>) -> Seq<
    FunctionView,
>
    decreases names.len(),
{
    if names.len() == 0 {
        Seq::empty()
    } else {
        let n = names.last();
        let rest = builtin_entries(names.drop_last(), registry);
        if enumerated_builtin(n, registry) {
            rest.push((n, builtin_kind(n), aliases_of(n)))
        } else {
            rest
        }
    }
}

/// The custom entries enumerated from the registered `names`, in order: the
/// names that are not built-ins.
pub open spec fn custom_entries(names: Seq<Seq<char>>) -> Seq<FunctionView>
    decreases names.len(),
{
    if names.len() == 0 {
        Seq::empty()
    } else {
        let n = names.last();
        let rest = custom_entries(names.drop_last());
        if builtin_kind(n) is None {
            rest.push((n, None, Seq::empty()))
        } else {
            rest
        }
    }
}

/// Every function a registry with these names dispatches: built-ins under
/// their canonical names, then the registered custom names.
pub open spec fn dispatchable(registry: Seq<Seq<char>>) -> Seq<FunctionView> {
    builtin_entries(builtin_names(), registry) + custom_entries(registry)
}

/// The views of an enumeration.
pub open spec fn functions_view<'a>(fs: Seq<DispatchableFunction<'a>>) -> Seq<FunctionView> {
    fs.map_values(|f: DispatchableFunction<'a>| f.view_fn())
}

pub(crate) proof fn lemma_builtin_array()
    ensures
        BUILTIN_FUNCTION_NAMES@.len() == 12,
        forall|i: int| 0 <= i < 12 ==> BUILTIN_FUNCTION_NAMES@[i]@ == builtin_names()[i],
{
    assert(BUILTIN_FUNCTION_NAMES@.map_values(|s: &str| s@) =~= builtin_names());
    assert forall|i: int| 0 <= i < 12 implies BUILTIN_FUNCTION_NAMES@[i]@ == builtin_names()[i] by {
        assert(BUILTIN_FUNCTION_NAMES@.map_values(|s: &str| s@)[i] == BUILTIN_FUNCTION_NAMES@[i]@);
    }
}

/// Every function a registry with these names will dispatch.
///
/// Built-ins come first, each under its canonical name with its aliases
/// (`validate` carries `validation`); a config-only built-in appears only
/// when a handler backs it. The registered names that are not built-ins
/// follow, in registry order, with no kind and no aliases.
pub fn dispatchable_functions_in(registry: &Registry) -> (r: Vec<DispatchableFunction<'_>>)
    ensures
        functions_view(r@) == dispatchable(registry.names_view()),
        registry.wf(),
{
    proof {
        lemma_builtin_array();
        use_type_invariant(registry);
    }
    let ghost reg = registry.names_view();
    let mut out: Vec<DispatchableFunction<'_>> = Vec::new();
    let mut i: usize = 0;
    while i < 12
        invariant
            i <= 12,
            reg == registry.names_view(),
            BUILTIN_FUNCTION_NAMES@.len() == 12,
            forall|j: int| 0 <= j < 12 ==> BUILTIN_FUNCTION_NAMES@[j]@ == builtin_names()[j],
            functions_view(out@) == builtin_entries(builtin_names().take(i as int), reg),
        decreases 12 - i,
    {
        let name: &'static str = BUILTIN_FUNCTION_NAMES[i];
        let ghost before = out@;
        assert(builtin_names().take(i + 1).drop_last() =~= builtin_names().take(i as int));
        assert(builtin_names().take(i + 1).last() == name@);
        let canonical = str_eq(canonical_builtin_name(name), name);
        let kind = builtin_function_kind(name);
        let keep = canonical && match kind {
            Some(BuiltinKind::SelfContained) => true,
            Some(BuiltinKind::RequiresHandler) => registry.contains_key(name),
            None => false,
        };
        if keep {
            let f = DispatchableFunction { name, kind, aliases: builtin_aliases(name) };
            out.push(f);
            assert(functions_view(out@) =~= functions_view(before).push(f.view_fn()));
        }
        i = i + 1;
    }
    assert(builtin_names().take(12) =~= builtin_names());
    let keys = registry.keys();
    let ghost builtins = out@;
    let mut k: usize = 0;
    while k < keys.len()
        invariant
            k <= keys@.len(),
            keys@.map_values(|n: String| n@) == reg,
            functions_view(builtins) == builtin_entries(builtin_names(), reg),
            functions_view(out@) == functions_view(builtins) + custom_entries(reg.take(k as int)),
        decreases keys@.len() - k,
    {
        let name: &str = keys[k].as_str();
        let ghost before = out@;
        assert(reg.take(k + 1).drop_last() =~= reg.take(k as int));
        assert(reg.take(k + 1).last() == name@);
        if builtin_function_kind(name).is_none() {
            let f = DispatchableFunction { name, kind: None, aliases: Vec::new() };
            out.push(f);
            assert(f.view_fn().2 =~= Seq::<Seq<char>>::empty());
            assert(functions_view(out@) =~= functions_view(before).push(f.view_fn()));
        }
        k = k + 1;
    }
    assert(reg.take(keys@.len() as int) =~= reg);
    out
}

proof fn lemma_builtin_entries_dispatch(names: Seq<Seq<char>>, registry: Seq<Seq<char>>)
    ensures
        forall|i: int|
            0 <= i < builtin_entries(names, registry).len() ==> enumerated_builtin(
                #[trigger] builtin_entries(names, registry)[i].0,
                registry,
            ) && builtin_entries(names, registry)[i].2 == aliases_of(
                builtin_entries(names, registry)[i].0,
            ),
    decreases names.len(),
{
    if names.len() > 0 {
        let init = names.drop_last();
        lemma_builtin_entries_dispatch(init, registry);
        let all = builtin_entries(names, registry);
        let rest = builtin_entries(init, registry);
        assert forall|i: int| 0 <= i < all.len() implies enumerated_builtin(
            #[trigger] all[i].0,
            registry,
        ) && all[i].2 == aliases_of(all[i].0) by {
            if i < rest.len() {
                assert(all[i] == rest[i]);
            }
        }
    }
}

proof fn lemma_custom_entries_registered(names: Seq<Seq<char>>)
    ensures
        forall|i: int|
            0 <= i < custom_entries(names).len() ==> names.contains(
                #[trigger] custom_entries(names)[i].0,
            ) && custom_entries(names)[i].2 == Seq::<Seq<char>>::empty(),
    decreases names.len(),
{
    if names.len() > 0 {
        let init = names.drop_last();
        lemma_custom_entries_registered(init);
        assert forall|i: int| 0 <= i < custom_entries(names).len() implies names.contains(
            #[trigger] custom_entries(names)[i].0,
        ) && custom_entries(names)[i].2 == Seq::<Seq<char>>::empty() by {
            if i < custom_entries(init).len() {
                let x = custom_entries(init)[i].0;
                let k = choose|k: int| 0 <= k < init.len() && init[k] == x;
                assert(names[k] == x);
            } else {
                assert(names[names.len() - 1] == names.last());
            }
        }
    }
}

/// Every function the enumeration yields is one the registry dispatches,
/// and so is every alias it lists: the enumeration and the predicate
/// describe the same set, the predicate also accepting aliases.
pub proof fn lemma_every_enumerated_name_dispatches(registry: Seq<Seq<char>>)
    ensures
        forall|i: int|
            0 <= i < dispatchable(registry).len() ==> dispatches(
                registry,
                #[trigger] dispatchable(registry)[i].0,
            ),
        forall|i: int, j: int|
            0 <= i < dispatchable(registry).len() && 0 <= j < dispatchable(registry)[i].2.len()
                ==> dispatches(registry, #[trigger] dispatchable(registry)[i].2[j]),
{
    let b = builtin_entries(builtin_names(), registry);
    let c = custom_entries(registry);
    lemma_builtin_entries_dispatch(builtin_names(), registry);
    lemma_custom_entries_registered(registry);
    assert forall|i: int| 0 <= i < dispatchable(registry).len() implies dispatches(
        registry,
        #[trigger] dispatchable(registry)[i].0,
    ) by {
        if i < b.len() {
            assert(dispatchable(registry)[i] == b[i]);
        } else {
            assert(dispatchable(registry)[i] == c[i - b.len()]);
        }
    }
    assert forall|i: int, j: int|
        0 <= i < dispatchable(registry).len() && 0 <= j < dispatchable(registry)[i].2.len()
        implies dispatches(registry, #[trigger] dispatchable(registry)[i].2[j]) by {
        if i < b.len() {
            assert(dispatchable(registry)[i] == b[i]);
            let n = b[i].0;
            assert(b[i].2 == aliases_of(n));
            if n == "validate"@ {
                assert(aliases_of(n)[j] == "validation"@);
                assert(builtin_kind("validation"@) == Some(BuiltinKind::SelfContained));
            } else {
                assert(aliases_of(n).len() == 0);
            }
            assert(dispatchable(registry)[i].2[j] == "validation"@);
        } else {
            let k = i - b.len();
            assert(dispatchable(registry)[i] == c[k]);
            assert(registry.contains(c[k].0));
            assert(c[k].2.len() == 0);
        }
    }
}

/// The alias relation agrees with the built-in name list: every built-in
/// spelling resolves to a canonical name that is itself canonical, is an
/// accepted spelling, and classifies alike; each spelling is canonical
/// exactly when no canonical name lists it as an alias; and every listed
/// alias resolves back to the name that lists it.
pub proof fn lemma_aliases_and_canonical_names_agree()
    ensures
        forall|i: int|
            0 <= i < builtin_names().len() ==> {
                let n = #[trigger] builtin_names()[i];
                &&& canonical_name(canonical_name(n)) == canonical_name(n)
                &&& builtin_names().contains(canonical_name(n))
                &&& builtin_kind(n) == builtin_kind(canonical_name(n))
                &&& (canonical_name(n) == n) == (forall|c: int|
                    0 <= c < builtin_names().len() ==> !aliases_of(
                        #[trigger] builtin_names()[c],
                    ).contains(n))
            },
        forall|c: Seq<char>, a: Seq<char>|
            builtin_names().contains(c) && #[trigger] aliases_of(c).contains(a) ==> canonical_name(
                a,
            ) == c,
{
    reveal_strlit("map");
    reveal_strlit("validation");
    reveal_strlit("validate");
    reveal_strlit("parse_json");
    reveal_strlit("parse_xml");
    reveal_strlit("publish_json");
    reveal_strlit("publish_xml");
    reveal_strlit("filter");
    reveal_strlit("log");
    reveal_strlit("http_call");
    reveal_strlit("enrich");
    reveal_strlit("publish_kafka");
    let names = builtin_names();
    assert(names[2] == "validate"@);
    assert(names[1] == "validation"@);
    assert(aliases_of("validate"@) =~= seq!["validation"@]);
    assert forall|i: int| 0 <= i < names.len() implies {
        let n = #[trigger] names[i];
        &&& canonical_name(canonical_name(n)) == canonical_name(n)
        &&& names.contains(canonical_name(n))
        &&& builtin_kind(n) == builtin_kind(canonical_name(n))
        &&& (canonical_name(n) == n) == (forall|c: int|
            0 <= c < names.len() ==> !aliases_of(#[trigger] names[c]).contains(n))
    } by {
        let n = names[i];
        if n == "validation"@ {
            assert(aliases_of(names[2]).contains(n)) by {
                assert(aliases_of(names[2])[0] == n);
            }
        } else {
            assert forall|c: int| 0 <= c < names.len() implies !aliases_of(
                #[trigger] names[c],
            ).contains(n) by {
                if names[c] == "validate"@ {
                    assert(aliases_of(names[c]) =~= seq!["validation"@]);
                }
            }
        }
        assert(names.contains(canonical_name(n))) by {
            if n == "validation"@ {
                assert(names[2] == canonical_name(n));
            } else {
                assert(names[i] == canonical_name(n));
            }
        }
    }
    assert forall|c: Seq<char>, a: Seq<char>|
        names.contains(c) && #[trigger] aliases_of(c).contains(a) implies canonical_name(a) == c by {
        if c == "validate"@ {
            assert(aliases_of(c) =~= seq!["validation"@]);
        }
    }
}

/// How a task names its connector: a literal the host can read without a
/// message, or an expression that only resolves per message.
#[derive(Debug, Clone, Copy, PartialEq)]
pub enum ConnectorName<'a> {
    /// Authored as a literal string.
    Static(&'a str),
    /// Authored as an expression, carrying the authored JSON.
    Computed(&'a Json),
}

impl<'a> ConnectorName<'a> {
    /// Classify an authored `connector` parameter: a string is static,
    /// anything else is computed.
    pub fn of(authored: &'a Json) -> (r: ConnectorName<'a>)
        ensures
            match authored {
                Json::Str(s) => r matches ConnectorName::Static(t) && t@ == s@,
                _ => r == ConnectorName::Computed(authored),
            },
    {
        match authored {
            Json::Str(s) => ConnectorName::Static(s.as_str()),
            other => ConnectorName::Computed(other),
        }
    }

    /// The literal name, or `None` when the connector is computed.
    pub fn as_static(&self) -> (r: Option<&'a str>)
        ensures
            match *self {
                ConnectorName::Static(s) => r == Some(s),
                ConnectorName::Computed(_) => r is None,
            },
    {
        match self {
            ConnectorName::Static(s) => Some(*s),
            ConnectorName::Computed(_) => None,
        }
    }
}

/// Every enumerated built-in among `names` has an entry.
proof fn lemma_builtin_entries_complete(names: Seq<Seq<char>>, registry: Seq<Seq<char>>, n: Seq<char>)
    requires
        names.contains(n),
        enumerated_builtin(n, registry),
    ensures
        exists|i: int|
            0 <= i < builtin_entries(names, registry).len() && (#[trigger] builtin_entries(
                names,
                registry,
            )[i]).0 == n,
    decreases names.len(),
{
    let init = names.drop_last();
    let all = builtin_entries(names, registry);
    let rest = builtin_entries(init, registry);
    if names.last() == n {
        assert(all[rest.len() as int].0 == n);
    } else {
        let k = choose|k: int| 0 <= k < names.len() && names[k] == n;
        assert(k < names.len() - 1);
        assert(init[k] == n);
        lemma_builtin_entries_complete(init, registry, n);
        let i = choose|i: int| 0 <= i < rest.len() && (#[trigger] rest[i]).0 == n;
        assert(all[i] == rest[i]);
    }
}

/// Every registered name that is not a built-in has an entry.
proof fn lemma_custom_entries_complete(names: Seq<Seq<char>>, n: Seq<char>)
    requires
        names.contains(n),
        builtin_kind(n) is None,
    ensures
        exists|i: int|
            0 <= i < custom_entries(names).len() && (#[trigger] custom_entries(names)[i]).0 == n,
    decreases names.len(),
{
    let init = names.drop_last();
    let all = custom_entries(names);
    let rest = custom_entries(init);
    if names.last() == n {
        assert(all[rest.len() as int].0 == n);
    } else {
        let k = choose|k: int| 0 <= k < names.len() && names[k] == n;
        assert(k < names.len() - 1);
        assert(init[k] == n);
        lemma_custom_entries_complete(init, n);
        let i = choose|i: int| 0 <= i < rest.len() && (#[trigger] rest[i]).0 == n;
        assert(all[i] == rest[i]);
    }
}

/// Every name a registry dispatches is enumerated, under its own name or
/// as an alias of one: with the converse above, the enumeration and the
/// dispatch predicate describe the same set.
pub proof fn lemma_every_dispatched_name_is_enumerated(registry: Seq<Seq<char>>, name: Seq<char>)
    requires
        dispatches(registry, name),
    ensures
        (exists|i: int|
            0 <= i < dispatchable(registry).len() && (#[trigger] dispatchable(registry)[i]).0 == name)
            || (exists|i: int, j: int|
            0 <= i < dispatchable(registry).len() && 0 <= j < dispatchable(registry)[i].2.len()
                && #[trigger] dispatchable(registry)[i].2[j] == name),
{
    reveal_strlit("validation");
    reveal_strlit("validate");
    reveal_strlit("map");
    reveal_strlit("parse_json");
    reveal_strlit("parse_xml");
    reveal_strlit("publish_json");
    reveal_strlit("publish_xml");
    reveal_strlit("filter");
    reveal_strlit("log");
    reveal_strlit("http_call");
    reveal_strlit("enrich");
    reveal_strlit("publish_kafka");
    let names = builtin_names();
    let b = builtin_entries(names, registry);
    let d = dispatchable(registry);
    if builtin_kind(name) is Some {
        let target = canonical_name(name);
        assert(builtin_kind(target) is Some);
        assert(canonical_name(target) == target);
        assert(names.contains(target)) by {
            if target == "map"@ { assert(names[0] == target); }
            else if target == "validate"@ { assert(names[2] == target); }
            else if target == "parse_json"@ { assert(names[3] == target); }
            else if target == "parse_xml"@ { assert(names[4] == target); }
            else if target == "publish_json"@ { assert(names[5] == target); }
            else if target == "publish_xml"@ { assert(names[6] == target); }
            else if target == "filter"@ { assert(names[7] == target); }
            else if target == "log"@ { assert(names[8] == target); }
            else if target == "http_call"@ { assert(names[9] == target); }
            else if target == "enrich"@ { assert(names[10] == target); }
            else { assert(names[11] == target); }
        }
        assert(enumerated_builtin(target, registry));
        lemma_builtin_entries_complete(names, registry, target);
        lemma_builtin_entries_dispatch(names, registry);
        let i = choose|i: int| 0 <= i < b.len() && (#[trigger] b[i]).0 == target;
        assert(d[i] == b[i]);
        if name != target {
            assert(name == "validation"@);
            assert(b[i].2 == aliases_of(target));
            assert(d[i].2[0] == name);
        }
    } else {
        assert(registry.contains(name));
        lemma_custom_entries_complete(registry, name);
        let c = custom_entries(registry);
        let k = choose|k: int| 0 <= k < c.len() && (#[trigger] c[k]).0 == name;
        assert(d[b.len() + k] == c[k]);
    }
}

} // verus!
