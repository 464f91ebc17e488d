//! Module resolution: the service the engine consults to satisfy an `import`
//! statement. Three strategies are provided: a fixed in-memory table, an
//! ordered chain of resolvers where the first success wins, and a caching
//! filesystem-backed resolver whose file reads are handed in by the host.

use vstd::prelude::*;
use vstd::string::StringExecFns;

use crate::ast::program_wf;
use crate::error::ParseError;
use crate::module::Module;
use crate::position::Position;
use crate::render::str_eq;

verus! {

/// Why a module path failed to resolve.
#[derive(Debug, PartialEq)]
pub enum ResolveErrorKind {
    /// The path is not known to the resolver.
    NotFound,
    /// The script file backing the path could not be read.
    ReadFailure,
    /// The script was read but failed to compile; the nested parse error is
    /// kept so the root cause stays attributable.
    FailedToParse(ParseError),
}

/// A resolution failure, tagged with the requested path and the position of
/// the `import` that asked for it.
#[derive(Debug, PartialEq)]
pub struct ResolveError {
    pub path: String,
    pub pos: Position,
    pub kind: ResolveErrorKind,
}

/// Trait that encapsulates a module resolution service. Implementations must
/// answer exactly as their declared mapping (`spec_resolve`) says, and tag
/// every failure with the requested path and position.
pub trait ModuleResolver {
    /// The module this resolver associates with a path, if any.
    spec fn spec_resolve(&self, path: Seq<char>) -> Option<Module>;

    /// Resolve a module based on a path string.
    fn resolve<'a>(&'a self, path: &str, pos: Position) -> (r: Result<&'a Module, ResolveError>)
        ensures
            match r {
                Ok(m) => self.spec_resolve(path@) == Some(*m),
                Err(e) => self.spec_resolve(path@) is None && e.path@ == path@ && e.pos == pos,
            },
    ;
}

/// Lookup in an association table; a later entry for the same path shadows an
/// earlier one.
pub open spec fn table_lookup(s: Seq<(String, Module)>, path: Seq<char>) -> Option<Module>
    decreases s.len(),
{
    if s.len() == 0 {
        None
    } else if s.last().0@ == path {
        Some(s.last().1)
    } else {
        table_lookup(s.drop_last(), path)
    }
}

/// A fixed mapping from path strings to pre-built modules.
#[derive(Debug)]
pub struct StaticModuleResolver {
    pub entries: Vec<(String, Module)>,
}

impl StaticModuleResolver {
    /// An empty table.
    pub fn new() -> (r: StaticModuleResolver)
        ensures
            r.entries@.len() == 0,
    {
        StaticModuleResolver { entries: Vec::new() }
    }

    /// Register a module under a path; a repeated path shadows the earlier
    /// entry.
    pub fn insert(&mut self, path: String, module: Module)
        ensures
            final(self).entries@ == old(self).entries@.push((path, module)),
            forall|p: Seq<char>| #[trigger] table_lookup(final(self).entries@, p) == (if p
                == path@ {
                Some(module)
            } else {
                table_lookup(old(self).entries@, p)
            }),
    {
        let ghost e0 = self.entries@;
        self.entries.push((path, module));
        proof {
            assert forall|p: Seq<char>| #[trigger] table_lookup(self.entries@, p) == (if p
                == e0.push((path, module)).last().0@ {
                Some(module)
            } else {
                table_lookup(e0, p)
            }) by {
                assert(self.entries@.last() == e0.push((path, module)).last());
                assert(self.entries@.drop_last() =~= e0);
            }
        }
    }
}

impl ModuleResolver for StaticModuleResolver {
    open spec fn spec_resolve(&self, path: Seq<char>) -> Option<Module> {
        table_lookup(self.entries@, path)
    }

    fn resolve<'a>(&'a self, path: &str, pos: Position) -> (r: Result<&'a Module, ResolveError>) {
        proof {
            assert(self.entries@.subrange(0, self.entries@.len() as int) =~= self.entries@);
        }
        let mut k = self.entries.len();
        while k > 0
            invariant
                k <= self.entries@.len(),
                table_lookup(self.entries@, path@) == table_lookup(
                    self.entries@.subrange(0, k as int),
                    path@,
                ),
            decreases k,
        {
            k -= 1;
            proof {
                assert(self.entries@.subrange(0, k as int + 1).last() == self.entries@[k as int]);
                assert(self.entries@.subrange(0, k as int + 1).drop_last() =~= self.entries@
                    .subrange(0, k as int));
            }
            let entry = &self.entries[k];
            if str_eq(entry.0.as_str(), path) {
                return Ok(&entry.1);
            }
        }
        Err(ResolveError { path: path.to_owned(), pos, kind: ResolveErrorKind::NotFound })
    }
}

/// Lookup through an ordered chain of resolvers: the first that knows the
/// path wins.
pub open spec fn chain_lookup<R: ModuleResolver>(s: Seq<R>, path: Seq<char>) -> Option<Module>
    decreases s.len(),
{
    if s.len() == 0 {
        None
    } else {
        match s.first().spec_resolve(path) {
            Some(m) => Some(m),
            None => chain_lookup(s.drop_first(), path),
        }
    }
}

/// An ordered sequence of resolvers, tried strictly in registration order;
/// the first success short-circuits the remaining ones, and when all fail the
/// last failure is returned.
pub struct ModuleResolversCollection<R: ModuleResolver> {
    pub resolvers: Vec<R>,
}

impl<R: ModuleResolver> ModuleResolversCollection<R> {
    /// An empty chain.
    pub fn new() -> (r: ModuleResolversCollection<R>)
        ensures
            r.resolvers@.len() == 0,
    {
        ModuleResolversCollection { resolvers: Vec::new() }
    }

    /// Append a resolver at the end of the chain.
    pub fn push(&mut self, resolver: R)
        ensures
            final(self).resolvers@ == old(self).resolvers@.push(resolver),
    {
        self.resolvers.push(resolver);
    }
}

impl<R: ModuleResolver> ModuleResolver for ModuleResolversCollection<R> {
    open spec fn spec_resolve(&self, path: Seq<char>) -> Option<Module> {
        chain_lookup(self.resolvers@, path)
    }

    fn resolve<'a>(&'a self, path: &str, pos: Position) -> (r: Result<&'a Module, ResolveError>) {
        let n = self.resolvers.len();
        proof {
            assert(self.resolvers@.subrange(0, n as int) =~= self.resolvers@);
        }
        let mut k: usize = 0;
        while k < n
            invariant
                k <= n,
                n == self.resolvers@.len(),
                chain_lookup(self.resolvers@, path@) == chain_lookup(
                    self.resolvers@.subrange(k as int, n as int),
                    path@,
                ),
            decreases n - k,
        {
            proof {
                let sub = self.resolvers@.subrange(k as int, n as int);
                assert(sub.first() == self.resolvers@[k as int]);
                assert(sub.drop_first() =~= self.resolvers@.subrange(k as int + 1, n as int));
            }
            let inner = &self.resolvers[k];
            match inner.resolve(path, pos) {
                Ok(m) => {
                    return Ok(m);
                },
                Err(e) => {
                    proof {
                        let sub = self.resolvers@.subrange(k as int, n as int);
                        assert(sub.first().spec_resolve(path@) is None);
                        assert(chain_lookup(sub, path@) == chain_lookup(
                            sub.drop_first(),
                            path@,
                        ));
                        assert(sub.drop_first() =~= self.resolvers@.subrange(
                            k as int + 1,
                            n as int,
                        ));
                    }
                    if k + 1 == n {
                        proof {
                            assert(self.resolvers@.subrange(n as int, n as int).len() == 0);
                        }
                        return Err(e);
                    }
                },
            }
            k += 1;
        }
        Err(ResolveError { path: path.to_owned(), pos, kind: ResolveErrorKind::NotFound })
    }
}

/// Ordering law for resolver chains: with resolvers `a` and `b` where `a`
/// fails on `path` and `b` resolves it to `m`, the chain `[a, b]` resolves
/// the path to `m`; so does the chain `[b, a]`, whose first attempt already
/// succeeds, short-circuiting `a` entirely.
pub proof fn lemma_collection_ordering<R: ModuleResolver>(a: R, b: R, path: Seq<char>, m: Module)
    requires
        a.spec_resolve(path) is None,
        b.spec_resolve(path) == Some(m),
    ensures
        chain_lookup(seq![a, b], path) == Some(m),
        chain_lookup(seq![b, a], path) == Some(m),
{
    let s1 = seq![a, b];
    assert(s1.len() == 2);
    assert(s1[0] == a);
    assert(s1[1] == b);
    assert(s1.first() == a);
    assert(s1.drop_first() =~= seq![b]);
    assert(seq![b].first() == b);
    assert(chain_lookup(seq![b], path) == Some(m));
    let s2 = seq![b, a];
    assert(s2.len() == 2);
    assert(s2[0] == b);
    assert(s2.first() == b);
}

/// The first resolver's success is the whole chain's answer, whatever stands
/// behind it in the chain.
pub proof fn lemma_chain_first_success<R: ModuleResolver>(s: Seq<R>, path: Seq<char>, m: Module)
    requires
        s.len() > 0,
        s.first().spec_resolve(path) == Some(m),
    ensures
        chain_lookup(s, path) == Some(m),
{
}

/// A filesystem-backed resolver: maps a module path to a file under a base
/// directory and caches each compiled module by path for the resolver's
/// whole lifetime, so repeated imports reuse the compiled module instead of
/// re-reading and re-parsing the file. The host performs the actual file
/// read and hands the text in; this type owns the mapping, the compilation
/// and the cache.
///
/// Both the script-local and the process-wide flavors are this type under a
/// different base directory: the host picks the importing script's own
/// directory, or one global base, when it creates the resolver. The cache is
/// only reachable through an exclusive reference, so a torn or partially
/// inserted entry is impossible by construction; a host that shares one
/// resolver across threads puts it behind a mutual-exclusion lock.
#[derive(Debug)]
pub struct FileModuleResolver {
    /// The directory under which module paths are resolved.
    pub base_path: String,
    /// The file extension appended to a module path.
    pub extension: String,
    /// Compiled modules, keyed by the path they were requested under.
    pub cache: Vec<(String, Module)>,
}

impl FileModuleResolver {
    /// A resolver over a base directory, with the default script extension.
    pub fn new(base_path: String) -> (r: FileModuleResolver)
        ensures
            r.base_path == base_path,
            r.extension@ == ".rhai"@,
            r.cache@.len() == 0,
    {
        FileModuleResolver {
            base_path,
            extension: String::from_str(".rhai"),
            cache: Vec::new(),
        }
    }

    /// The file path a module path maps to: base directory, separator, the
    /// path, then the extension.
    pub fn file_path(&self, path: &str) -> (r: String)
        ensures
            r@ == self.base_path@ + "/"@ + path@ + self.extension@,
    {
        let mut s = self.base_path.clone();
        s.append("/");
        s.append(path);
        s.append(self.extension.as_str());
        s
    }

    /// Position of the cached entry for `path`, if one exists.
    pub fn cached_index(&self, path: &str) -> (r: Option<usize>)
        ensures
            match r {
                Some(k) => k < self.cache@.len() && self.cache@[k as int].0@ == path@
                    && table_lookup(self.cache@, path@) == Some(self.cache@[k as int].1),
                None => table_lookup(self.cache@, path@) is None,
            },
    {
        proof {
            assert(self.cache@.subrange(0, self.cache@.len() as int) =~= self.cache@);
        }
        let mut k = self.cache.len();
        while k > 0
            invariant
                k <= self.cache@.len(),
                table_lookup(self.cache@, path@) == table_lookup(
                    self.cache@.subrange(0, k as int),
                    path@,
                ),
            decreases k,
        {
            k -= 1;
            proof {
                assert(self.cache@.subrange(0, k as int + 1).last() == self.cache@[k as int]);
                assert(self.cache@.subrange(0, k as int + 1).drop_last() =~= self.cache@.subrange(
                    0,
                    k as int,
                ));
            }
            let entry = &self.cache[k];
            if str_eq(entry.0.as_str(), path) {
                return Some(k);
            }
        }
        None
    }

    /// Shared read-only access to a cached module.
    pub fn module_at(&self, k: usize) -> (m: &Module)
        requires
            k < self.cache@.len(),
        ensures
            *m == self.cache@[k as int].1,
    {
        let entry = &self.cache[k];
        &entry.1
    }

    /// Resolve `path`, reusing the cache. A cache hit returns the index of
    /// the cached module and leaves the resolver untouched: the handed
    /// source is ignored, nothing is re-read or re-parsed, and the same
    /// module is returned on every later call. On a miss the handed source
    /// text (the content of the file the host read) is compiled: success
    /// caches exactly one new module; a missing source or a compilation
    /// failure changes nothing and is tagged with the path and the import's
    /// position.
    pub fn resolve_source(&mut self, path: &str, source: Option<&str>, pos: Position) -> (r:
        Result<usize, ResolveError>)
        requires
            source matches Some(text) ==> text@.len() < 0xFFFF_0000,
        ensures
            final(self).base_path == old(self).base_path,
            final(self).extension == old(self).extension,
            match r {
                Ok(k) => {
                    &&& k < final(self).cache@.len()
                    &&& final(self).cache@[k as int].0@ == path@
                    &&& table_lookup(final(self).cache@, path@) == Some(
                        final(self).cache@[k as int].1,
                    )
                    &&& (table_lookup(old(self).cache@, path@) matches Some(m) ==> *final(self)
                        == *old(self) && final(self).cache@[k as int].1 == m)
                    &&& (table_lookup(old(self).cache@, path@) is None ==> final(self).cache@
                        == old(self).cache@.push(
                        (final(self).cache@[k as int].0, final(self).cache@[k as int].1),
                    ) && k == old(self).cache@.len() && program_wf(
                        final(self).cache@[k as int].1.ast,
                    ))
                },
                Err(e) => {
                    &&& *final(self) == *old(self)
                    &&& e.path@ == path@
                    &&& e.pos == pos
                    &&& table_lookup(old(self).cache@, path@) is None
                    &&& (source is None ==> e.kind is ReadFailure)
                    &&& (source matches Some(_) ==> e.kind is FailedToParse)
                },
            },
            (table_lookup(old(self).cache@, path@) is None && (source matches Some(text) && (
            forall|t: int|
                0 <= t < text@.len() ==> crate::lexer::is_space(#[trigger] text@[t])))) ==> (
            r matches Ok(k) && k < final(self).cache@.len()
                && final(self).cache@[k as int].1.ast.statements@.len() == 0
                && final(self).cache@[k as int].1.ast.functions@.len() == 0),
    {
        match self.cached_index(path) {
            Some(k) => Ok(k),
            None => match source {
                None => Err(
                    ResolveError { path: path.to_owned(), pos, kind: ResolveErrorKind::ReadFailure },
                ),
                Some(text) => match crate::parser::compile_str(text) {
                    Ok(prog) => {
                        let ghost c0 = self.cache@;
                        let k = self.cache.len();
                        self.cache.push((path.to_owned(), Module::new(prog)));
                        proof {
                            assert(self.cache@.last() == self.cache@[k as int]);
                            assert(self.cache@[k as int].0@ == path@);
                            assert(self.cache@ == c0.push(
                                (self.cache@[k as int].0, self.cache@[k as int].1),
                            ));
                        }
                        Ok(k)
                    },
                    Err(pe) => Err(
                        ResolveError {
                            path: path.to_owned(),
                            pos,
                            kind: ResolveErrorKind::FailedToParse(pe),
                        },
                    ),
                },
            },
        }
    }
}

} // verus!
