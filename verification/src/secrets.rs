//! Values a workflow may read but the engine must never record.
//!
//! Secrets do not live in a message's context. They live in a [`Secrets`]
//! store held by the engine and are reached through one door: the reserved
//! operator `{"secret": "name"}`.

use vstd::prelude::*;
use crate::error::DataflowError;
use crate::json::Json;
use crate::paths::{get_nested_value, nested};
use crate::text::{joined_with, lemma_joined_with_push, owned, push_str};

verus! {

/// The reserved operator name.
pub const SECRET_OPERATOR: &'static str = "secret";

/// The message a non-object store is refused with.
pub open spec fn store_refusal() -> Seq<char> {
    "secrets must be a JSON object of name -> value"@
}

/// The keys of a list of object entries, in order.
pub open spec fn entry_keys(entries: Seq<(String, Json)>) -> Seq<Seq<char>> {
    entries.map_values(|e: (String, Json)| e.0@)
}

/// An engine-scoped store of values readable through `{"secret": "name"}`.
///
/// Always an object; nested objects let a host namespace its names
/// (`{"secret": "partner.hmac"}`).
pub struct Secrets {
    root: Json,
}

impl Secrets {
    /// The whole store, an object.
    pub closed spec fn root(&self) -> Json {
        self.root
    }

    /// The store's invariant: its root is an object.
    pub closed spec fn wf(&self) -> bool {
        self.root is Object
    }

    /// What a dotted path reads: nothing for the empty path, never the whole
    /// store.
    pub open spec fn lookup_path(&self, path: Seq<char>) -> Option<Json> {
        if path.len() == 0 {
            None
        } else {
            nested(self.root(), path)
        }
    }

    /// A store with nothing in it: every lookup fails.
    pub fn empty() -> (s: Secrets)
        ensures
            s.wf(),
            s.root() matches Json::Object(entries) && entries@.len() == 0,
    {
        Secrets { root: Json::Object(Vec::new()) }
    }

    /// Wrap a host-supplied value, which must be an object.
    pub fn new(root: Json) -> (r: Result<Secrets, DataflowError>)
        ensures
            match r {
                Ok(s) => s.wf() && s.root() == root && root is Object,
                Err(e) => !(root is Object) && (e matches DataflowError::Validation(m) && m@
                    == store_refusal()),
            },
    {
        if !root.is_object() {
            return Err(DataflowError::Validation(owned("secrets must be a JSON object of name -> value")));
        }
        Ok(Secrets { root })
    }

    /// Look up a dotted path. The empty path is `None`, never the whole
    /// store.
    pub fn get(&self, path: &str) -> (r: Option<&Json>)
        ensures
            match r {
                Some(v) => self.lookup_path(path@) == Some(*v),
                None => self.lookup_path(path@) is None,
            },
    {
        if path.unicode_len() == 0 {
            return None;
        }
        get_nested_value(&self.root, path)
    }

    /// The top-level names, never the values.
    pub fn names(&self) -> (r: Vec<&str>)
        requires
            self.wf(),
        ensures
            self.root() matches Json::Object(entries) && r@.map_values(|n: &str| n@) == entry_keys(
                entries@,
            ),
    {
        let mut out: Vec<&str> = Vec::new();
        match &self.root {
            Json::Object(entries) => {
                let mut i: usize = 0;
                while i < entries.len()
                    invariant
                        i <= entries@.len(),
                        out@.len() == i,
                        forall|j: int| 0 <= j < i ==> #[trigger] out@[j]@ == entries@[j].0@,
                    decreases entries@.len() - i,
                {
                    out.push(entries[i].0.as_str());
                    i = i + 1;
                }
                assert(out@.map_values(|n: &str| n@) =~= entry_keys(entries@));
            },
            _ => {},
        }
        out
    }
}

/// The rendered fields of a store's debug text: each name with its value
/// masked.
pub open spec fn masked_fields(names: Seq<Seq<char>>) -> Seq<char>
    decreases names.len(),
{
    if names.len() == 0 {
        Seq::empty()
    } else {
        let before = masked_fields(names.drop_last());
        let sep = if names.len() > 1 {
            ", "@
        } else {
            Seq::<char>::empty()
        };
        before + sep + names.last() + ": \"******\""@
    }
}

/// A store's debug text: its top-level names, every value masked.
pub open spec fn masked_text(names: Seq<Seq<char>>) -> Seq<char> {
    if names.len() == 0 {
        "Secrets"@
    } else {
        "Secrets { "@ + masked_fields(names) + " }"@
    }
}

impl Secrets {
    /// The store as a debug line prints it: the top-level names, each value
    /// shown as `"******"`.
    pub fn debug_text(&self) -> (r: String)
        requires
            self.wf(),
        ensures
            self.root() matches Json::Object(entries) && r@ == masked_text(entry_keys(entries@)),
    {
        let names = self.names();
        let ghost keys = names@.map_values(|n: &str| n@);
        if names.len() == 0 {
            return owned("Secrets");
        }
        let mut out = owned("Secrets { ");
        let mut i: usize = 0;
        assert(keys.take(0) =~= Seq::<Seq<char>>::empty());
        while i < names.len()
            invariant
                i <= names@.len(),
                keys == names@.map_values(|n: &str| n@),
                out@ == "Secrets { "@ + masked_fields(keys.take(i as int)),
            decreases names@.len() - i,
        {
            if i > 0 {
                push_str(&mut out, ", ");
            }
            push_str(&mut out, names[i]);
            push_str(&mut out, ": \"******\"");
            assert(keys.take(i + 1).drop_last() =~= keys.take(i as int));
            assert(keys.take(i + 1).last() == names@[i as int]@);
            i = i + 1;
        }
        push_str(&mut out, " }");
        assert(keys.take(names@.len() as int) =~= keys);
        out
    }
}

/// Why a `secret` lookup failed. The text names the key, never a value.
#[derive(Debug)]
pub enum SecretError {
    /// The operator was given the wrong arguments.
    InvalidArguments(String),
    /// The key names no secret in the store.
    VariableNotFound(String),
}

/// The `secret` operator: one non-empty string argument, a dotted path into
/// the store.
pub struct SecretOperator(pub Secrets);

/// What the `secret` operator answers for these evaluated arguments: the
/// value at the key, or why not.
pub open spec fn secret_answer(store: Secrets, args: Seq<Json>) -> Result<Json, (bool, Seq<char>)> {
    if args.len() != 1 {
        Err((true, "secret: takes exactly one argument, got "@ + crate::text::decimal(args.len())))
    } else {
        match args[0] {
            Json::Str(key) => if key@.len() == 0 {
                Err((true, "secret: the key must not be empty"@))
            } else {
                match store.lookup_path(key@) {
                    Some(v) => Ok(v),
                    None => Err((false, "secret '"@ + key@ + "' is not declared"@)),
                }
            },
            _ => Err((true, "secret: the key must be a string"@)),
        }
    }
}

impl SecretOperator {
    /// Evaluate `{"secret": key}` on its already-evaluated arguments.
    pub fn evaluate<'a>(&'a self, args: &Vec<Json>) -> (r: Result<&'a Json, SecretError>)
        requires
            self.0.wf(),
        ensures
            match r {
                Ok(v) => secret_answer(self.0, args@) == Ok::<Json, (bool, Seq<char>)>(*v),
                Err(SecretError::InvalidArguments(m)) => secret_answer(self.0, args@) == Err::<
                    Json,
                    (bool, Seq<char>),
                >((true, m@)),
                Err(SecretError::VariableNotFound(m)) => secret_answer(self.0, args@) == Err::<
                    Json,
                    (bool, Seq<char>),
                >((false, m@)),
            },
    {
        if args.len() != 1 {
            let mut m = owned("secret: takes exactly one argument, got ");
            crate::text::push_decimal(&mut m, args.len() as u64);
            return Err(SecretError::InvalidArguments(m));
        }
        match &args[0] {
            Json::Str(key) => {
                if key.as_str().unicode_len() == 0 {
                    return Err(SecretError::InvalidArguments(owned("secret: the key must not be empty")));
                }
                match self.0.get(key.as_str()) {
                    Some(v) => Ok(v),
                    None => {
                        let mut m = owned("secret '");
                        push_str(&mut m, key.as_str());
                        push_str(&mut m, "' is not declared");
                        Err(SecretError::VariableNotFound(m))
                    },
                }
            },
            _ => Err(SecretError::InvalidArguments(owned("secret: the key must be a string"))),
        }
    }
}

/// Each name with its value masked, `name: "******"`.
pub open spec fn masked_names(names: Seq<Seq<char>>) -> Seq<Seq<char>> {
    names.map_values(|n: Seq<char>| n + ": \"******\""@)
}

proof fn lemma_masked_fields_joined(names: Seq<Seq<char>>)
    ensures
        masked_fields(names) == joined_with(masked_names(names), ", "@),
    decreases names.len(),
{
    if names.len() > 0 {
        let prefix = names.drop_last();
        let t = names.last() + ": \"******\""@;
        lemma_masked_fields_joined(prefix);
        assert(masked_names(names) =~= masked_names(prefix).push(t));
        lemma_joined_with_push(masked_names(prefix), ", "@, t);
        if names.len() == 1 {
            assert(masked_fields(prefix) == Seq::<char>::empty());
            assert(masked_fields(names) =~= t);
        } else {
            assert(masked_fields(names) =~= joined_with(masked_names(prefix), ", "@) + ", "@ + t);
        }
    } else {
        assert(masked_names(names) =~= Seq::<Seq<char>>::empty());
    }
}

/// A store's debug text shows its names and never a value: `Secrets` when it
/// has none, else `Secrets { ` then each name as `name: "******"`, separated
/// by `, `, then ` }`.
pub proof fn lemma_masked_text_shape(names: Seq<Seq<char>>)
    ensures
        names.len() == 0 ==> masked_text(names) == "Secrets"@,
        names.len() > 0 ==> masked_text(names) == "Secrets { "@ + joined_with(
            masked_names(names),
            ", "@,
        ) + " }"@,
{
    lemma_masked_fields_joined(names);
}

} // verus!
