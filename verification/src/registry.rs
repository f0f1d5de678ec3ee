//! The registry: the whole compiled program as a mapping from qualified
//! name to chunk, plus the atomically swappable handle that lets a
//! recompilation replace the entire registry without disturbing runs
//! already under way.

use vstd::prelude::*;

verus! {

use crate::ast_compiler::Parameter;
use crate::chunk::{Chunk, ChunkV};
use crate::text::str_eq;
use crate::value::clone_values;

/// The first value filed under a key in an association sequence.
pub open spec fn spec_assoc<T>(s: Seq<(Seq<char>, T)>, key: Seq<char>) -> Option<T>
    decreases s.len(),
{
    if s.len() == 0 {
        None
    } else if s[0].0 == key {
        Some(s[0].1)
    } else {
        spec_assoc(s.drop_first(), key)
    }
}

/// An association sequence with `key` now filed as `value`: the first
/// entry under the key is replaced, or a new entry appended.
pub open spec fn spec_assoc_put<T>(s: Seq<(Seq<char>, T)>, key: Seq<char>, value: T) -> Seq<
    (Seq<char>, T),
>
    decreases s.len(),
{
    if s.len() == 0 {
        seq![(key, value)]
    } else if s[0].0 == key {
        seq![(key, value)] + s.drop_first()
    } else {
        seq![s[0]] + spec_assoc_put(s.drop_first(), key, value)
    }
}

/// Looking up the key just put finds the value put.
pub broadcast proof fn lemma_assoc_put_same<T>(s: Seq<(Seq<char>, T)>, key: Seq<char>, value: T)
    ensures
        spec_assoc(#[trigger] spec_assoc_put(s, key, value), key) == Some(value),
    decreases s.len(),
{
    if s.len() > 0 && s[0].0 != key {
        lemma_assoc_put_same(s.drop_first(), key, value);
        assert(spec_assoc_put(s, key, value).drop_first() =~= spec_assoc_put(
            s.drop_first(),
            key,
            value,
        ));
    }
}

/// Filing anything preserves every key already filed.
pub broadcast proof fn lemma_assoc_put_extends<T>(s: Seq<(Seq<char>, T)>, key: Seq<char>, value: T, other: Seq<char>)
    requires
        spec_assoc(s, other) is Some,
    ensures
        #[trigger] spec_assoc(spec_assoc_put(s, key, value), other) is Some,
    decreases s.len(),
{
    if s.len() > 0 {
        if s[0].0 == key {
            assert(spec_assoc_put(s, key, value).drop_first() =~= s.drop_first());
        } else {
            if s[0].0 != other {
                lemma_assoc_put_extends(s.drop_first(), key, value, other);
            }
            assert(spec_assoc_put(s, key, value).drop_first() =~= spec_assoc_put(
                s.drop_first(),
                key,
                value,
            ));
        }
    }
}

impl Clone for Chunk {
    /// A deep copy with the same shape.
    #[verifier::loop_isolation(false)]
    #[verifier::rlimit(60)]
    fn clone(&self) -> (r: Chunk)
        ensures
            r@ == self@,
    {
        let mut code: Vec<u16> = Vec::new();
        let mut i: usize = 0;
        let n = self.code.len();
        while i < n
            invariant
                n == self.code@.len(),
                i <= n,
                code@ =~= self.code@.take(i as int),
            decreases n - i,
        {
            code.push(self.code[i]);
            proof {
                assert(code@ =~= self.code@.take(i + 1));
            }
            i = i + 1;
        }
        proof {
            assert(self.code@.take(n as int) =~= self.code@);
        }
        let mut lines: Vec<usize> = Vec::new();
        let mut i: usize = 0;
        let n = self.lines.len();
        while i < n
            invariant
                n == self.lines@.len(),
                i <= n,
                lines@ =~= self.lines@.take(i as int),
            decreases n - i,
        {
            lines.push(self.lines[i]);
            proof {
                assert(lines@ =~= self.lines@.take(i + 1));
            }
            i = i + 1;
        }
        proof {
            assert(self.lines@.take(n as int) =~= self.lines@);
        }
        let mut object_defs: Vec<(String, Vec<String>)> = Vec::new();
        let mut i: usize = 0;
        let n = self.object_defs.len();
        while i < n
            invariant
                n == self.object_defs@.len(),
                i <= n,
                crate::chunk::defs_view(object_defs@) =~= crate::chunk::defs_view(
                    self.object_defs@,
                ).take(i as int),
            decreases n - i,
        {
            let name = self.object_defs[i].0.clone();
            let mut fields: Vec<String> = Vec::new();
            let mut k: usize = 0;
            let nf = self.object_defs[i].1.len();
            while k < nf
                invariant
                    0 <= i < self.object_defs@.len(),
                    nf == self.object_defs@[i as int].1@.len(),
                    k <= nf,
                    crate::chunk::names_view(fields@) =~= crate::chunk::names_view(
                        self.object_defs@[i as int].1@,
                    ).take(k as int),
                decreases nf - k,
            {
                fields.push(self.object_defs[i].1[k].clone());
                proof {
                    assert(crate::chunk::names_view(fields@) =~= crate::chunk::names_view(
                        self.object_defs@[i as int].1@,
                    ).take(k + 1));
                }
                k = k + 1;
            }
            proof {
                assert(crate::chunk::names_view(self.object_defs@[i as int].1@).take(nf as int)
                    =~= crate::chunk::names_view(self.object_defs@[i as int].1@));
            }
            object_defs.push((name, fields));
            proof {
                assert(crate::chunk::defs_view(object_defs@) =~= crate::chunk::defs_view(
                    self.object_defs@,
                ).take(i + 1));
            }
            i = i + 1;
        }
        proof {
            assert(crate::chunk::defs_view(self.object_defs@).take(n as int)
                =~= crate::chunk::defs_view(self.object_defs@));
        }
        let mut function_parameters: Vec<Parameter> = Vec::new();
        let mut i: usize = 0;
        let n = self.function_parameters.len();
        while i < n
            invariant
                n == self.function_parameters@.len(),
                i <= n,
            decreases n - i,
        {
            function_parameters.push(self.function_parameters[i].clone());
            i = i + 1;
        }
        let mut vars: Vec<(crate::tokens::TokenType, String)> = Vec::new();
        let mut i: usize = 0;
        let n = self.vars.len();
        while i < n
            invariant
                n == self.vars@.len(),
                i <= n,
                crate::chunk::vars_view(vars@) =~= crate::chunk::vars_view(self.vars@).take(
                    i as int,
                ),
            decreases n - i,
        {
            let t = self.vars[i].0;
            vars.push((t, self.vars[i].1.clone()));
            proof {
                assert(crate::chunk::vars_view(vars@) =~= crate::chunk::vars_view(
                    self.vars@,
                ).take(i + 1));
            }
            i = i + 1;
        }
        proof {
            assert(crate::chunk::vars_view(self.vars@).take(n as int) =~= crate::chunk::vars_view(
                self.vars@,
            ));
        }
        let r = Chunk {
            name: self.name.clone(),
            code,
            constants: clone_values(&self.constants),
            lines,
            object_defs,
            function_parameters,
            vars,
        };
        proof {
            assert(r@ =~~= self@);
        }
        r
    }
}

/// The whole compiled program: qualified names to chunks, the first
/// entry under a name winning lookups.
#[derive(Debug)]
pub struct Registry {
    pub entries: Vec<(String, Chunk)>,
}

/// The shapes of a registry's entries.
pub open spec fn registry_view(s: Seq<(String, Chunk)>) -> Seq<(Seq<char>, ChunkV)> {
    Seq::new(s.len(), |i: int| (s[i].0@, s[i].1@))
}

impl View for Registry {
    type V = Seq<(Seq<char>, ChunkV)>;

    open spec fn view(&self) -> Seq<(Seq<char>, ChunkV)> {
        registry_view(self.entries@)
    }
}

impl Registry {
    /// An empty registry.
    pub fn new() -> (r: Registry)
        ensures
            r@.len() == 0,
    {
        let r = Registry { entries: Vec::new() };
        proof {
            assert(r@ =~= Seq::<(Seq<char>, ChunkV)>::empty());
        }
        r
    }

    /// The chunk filed under a qualified name, copied out.
    #[verifier::loop_isolation(false)]
    #[verifier::rlimit(60)]
    pub fn get_cloned(&self, name: &str) -> (r: Option<Chunk>)
        ensures
            match r {
                Some(c) => spec_assoc(self@, name@) == Some(c@),
                None => spec_assoc(self@, name@) is None,
            },
    {
        proof {
            lemma_assoc_first_match(self@, name@);
        }
        let n = self.entries.len();
        let mut i: usize = 0;
        while i < n
            invariant
                n == self.entries@.len(),
                i <= n,
                forall|j: int| 0 <= j < i ==> self@[j].0 != name@,
            decreases n - i,
        {
            if str_eq(self.entries[i].0.as_str(), name) {
                proof {
                    assert(self@[i as int].0 == name@);
                    assert(spec_assoc(self@, name@) == Some(self@[i as int].1));
                }
                return Some(self.entries[i].1.clone());
            }
            i = i + 1;
        }
        None
    }

    /// Whether a qualified name is filed.
    pub fn contains(&self, name: &str) -> (r: bool)
        ensures
            r == (spec_assoc(self@, name@) is Some),
    {
        match self.get_cloned(name) {
            Some(_) => true,
            None => false,
        }
    }

    /// File a chunk under a qualified name, replacing what was there.
    #[verifier::loop_isolation(false)]
    #[verifier::rlimit(60)]
    pub fn insert(&mut self, name: &str, chunk: Chunk)
        ensures
            final(self)@ == spec_assoc_put(old(self)@, name@, chunk@),
    {
        let n = self.entries.len();
        let mut i: usize = 0;
        while i < n
            invariant
                self == old(self),
                n == self.entries@.len(),
                i <= n,
                forall|j: int| 0 <= j < i ==> self@[j].0 != name@,
            decreases n - i,
        {
            if str_eq(self.entries[i].0.as_str(), name) {
                self.entries.set(i, (name.to_owned(), chunk));
                proof {
                    lemma_assoc_put_at(old(self)@, name@, chunk@, i as int);
                    assert(final(self)@ =~= spec_assoc_put(old(self)@, name@, chunk@));
                }
                return ;
            }
            i = i + 1;
        }
        self.entries.push((name.to_owned(), chunk));
        proof {
            lemma_assoc_put_missing(old(self)@, name@, chunk@);
            assert(final(self)@ =~= old(self)@.push((name@, chunk@)));
        }
    }

    /// The number of chunks filed.
    pub fn len(&self) -> (r: usize)
        ensures
            r == self@.len(),
    {
        self.entries.len()
    }
}

/// A first-match scan agrees with the recursive lookup.
#[verifier::rlimit(60)]
pub proof fn lemma_assoc_first_match<T>(s: Seq<(Seq<char>, T)>, key: Seq<char>)
    ensures
        forall|i: int|
            0 <= i < s.len() && s[i].0 == key && (forall|j: int| 0 <= j < i ==> s[j].0 != key)
                ==> spec_assoc(s, key) == Some(s[i].1),
        (forall|j: int| 0 <= j < s.len() ==> s[j].0 != key) ==> spec_assoc(s, key) is None,
    decreases s.len(),
{
    if s.len() > 0 {
        lemma_assoc_first_match(s.drop_first(), key);
        assert(forall|i: int| 1 <= i < s.len() ==> s.drop_first()[i - 1] == s[i]);
    }
}

/// Replacing the first entry under a key in place is the put operation.
pub proof fn lemma_assoc_put_at<T>(s: Seq<(Seq<char>, T)>, key: Seq<char>, value: T, i: int)
    requires
        0 <= i < s.len(),
        s[i].0 == key,
        forall|j: int| 0 <= j < i ==> s[j].0 != key,
    ensures
        spec_assoc_put(s, key, value) == s.update(i, (key, value)),
    decreases s.len(),
{
    if i == 0 {
        assert(spec_assoc_put(s, key, value) =~= s.update(0, (key, value)));
    } else {
        lemma_assoc_put_at(s.drop_first(), key, value, i - 1);
        assert(forall|j: int| 1 <= j < s.len() ==> s.drop_first()[j - 1] == s[j]);
        assert(spec_assoc_put(s, key, value) =~= s.update(i, (key, value)));
    }
}

/// Appending a fresh key is the put operation.
pub proof fn lemma_assoc_put_missing<T>(s: Seq<(Seq<char>, T)>, key: Seq<char>, value: T)
    requires
        forall|j: int| 0 <= j < s.len() ==> s[j].0 != key,
    ensures
        spec_assoc_put(s, key, value) == s.push((key, value)),
    decreases s.len(),
{
    if s.len() == 0 {
        assert(spec_assoc_put(s, key, value) =~= s.push((key, value)));
    } else {
        lemma_assoc_put_missing(s.drop_first(), key, value);
        assert(forall|j: int| 1 <= j < s.len() ==> s.drop_first()[j - 1] == s[j]);
        assert(spec_assoc_put(s, key, value) =~= s.push((key, value)));
    }
}

/// An atomically swappable snapshot holder for the registry: readers take
/// one consistent snapshot per run, a recompilation publishes a whole new
/// registry with one swap.
#[verifier::external_body]
pub struct SharedRegistry {
    inner: arc_swap::ArcSwap<Registry>,
}

impl SharedRegistry {
    /// Relies on `arc_swap::ArcSwap::from_pointee`: wraps the registry as
    /// the handle's first snapshot.
    #[verifier::external_body]
    pub fn new(registry: Registry) -> SharedRegistry {
        SharedRegistry { inner: arc_swap::ArcSwap::from_pointee(registry) }
    }

    /// Relies on `arc_swap::ArcSwapAny::load_full`: returns one of the
    /// snapshots that was stored in the handle, atomically.
    #[verifier::external_body]
    pub fn load(&self) -> std::sync::Arc<Registry> {
        self.inner.load_full()
    }

    /// Relies on `arc_swap::ArcSwapAny::store`: publishes a new snapshot;
    /// runs already started keep the snapshot they loaded.
    #[verifier::external_body]
    pub fn store(&self, registry: Registry) {
        self.inner.store(std::sync::Arc::new(registry));
    }
}

} // verus!
