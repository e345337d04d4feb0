//! Serving an embedded tree to `require`.
//!
//! A searcher pairs the modules of a tree with an environment of one engine.
//! Asked for a module by name, it answers "not found" for a name it does not
//! hold, so that `require` goes on to the next searcher. For a name it holds
//! it has the engine compile the source text, without running it, under a
//! chunk name that marks it as embedded, with the searcher's environment for
//! its global names. What the engine reports while doing so is handed on as
//! it is.

use vstd::prelude::*;
use crate::engine;
use crate::modules::{chunk_name, LoadRequest, LuaModules, Registry};

verus! {

/// A module compiled and not yet run.
pub struct LoadUnit<'lua> {
    /// The compiled chunk, bound to the environment of its searcher.
    pub function: rlua::Function<'lua>,
    /// The name of the chunk in diagnostics.
    pub chunk_name: String,
}

/// What a searcher answers.
pub enum Resolution<'lua> {
    /// The searcher holds no module of that name.
    NotFound,
    /// The module, ready to run.
    Loaded(LoadUnit<'lua>),
}

/// Why a tree could not be added to the searchers of an engine.
#[derive(Debug)]
pub enum InstallError {
    /// The engine reported an error.
    Engine(rlua::Error),
    /// The list of searchers has no place left after its last one.
    ListFull,
}

/// A searcher for `require`: the modules of one embedded tree, and the
/// environment that the modules loaded from it run in.
pub struct Searcher {
    modules: LuaModules,
    environment: rlua::RegistryKey,
}

/// The place after the last one of a list of `len` places, counted from one.
pub open spec fn place_after(len: int) -> Option<i64> {
    if len < i64::MAX {
        Some((len + 1) as i64)
    } else {
        None
    }
}

/// The place at which a searcher is appended to a list that `len` gives as
/// its length.
pub fn next_place(len: i64) -> (r: Option<i64>)
    ensures
        r == place_after(len as int),
{
    if len < i64::MAX {
        Some(len + 1)
    } else {
        None
    }
}

impl<'a> LoadRequest<'a> {
    /// The answer of a searcher once the engine has compiled the requested
    /// source, or failed to: the compiled chunk under the requested name, or
    /// the engine's error.
    pub fn answer<'lua>(self, compiled: Result<rlua::Function<'lua>, rlua::Error>) -> (r: Result<
        Resolution<'lua>,
        rlua::Error,
    >)
        ensures
            r == match compiled {
                Ok(function) => Ok(
                    Resolution::Loaded(LoadUnit { function, chunk_name: self.chunk_name }),
                ),
                Err(error) => Err(error),
            },
    {
        match compiled {
            Ok(function) => Ok(
                Resolution::Loaded(LoadUnit { function, chunk_name: self.chunk_name }),
            ),
            Err(error) => Err(error),
        }
    }

    /// Has the engine compile the requested source under the requested name,
    /// with the table behind `environment` for its global names.
    fn compile<'lua>(&self, ctx: rlua::Context<'lua>, environment: &rlua::RegistryKey) -> (r:
        Result<rlua::Function<'lua>, rlua::Error>)
        ensures
            self.chunk_name@.contains('\0') ==> r is Err,
    {
        let chunk = engine::load(ctx, self.source);
        let chunk = match engine::set_name(chunk, self.chunk_name.as_str()) {
            Ok(chunk) => chunk,
            Err(error) => {
                return Err(error);
            },
        };
        let table = match engine::registry_table(ctx, environment) {
            Ok(table) => table,
            Err(error) => {
                return Err(error);
            },
        };
        let chunk = match engine::set_environment(chunk, table) {
            Ok(chunk) => chunk,
            Err(error) => {
                return Err(error);
            },
        };
        engine::into_function(chunk)
    }
}

impl Searcher {
    /// The searcher for `modules` whose modules run in the environment behind
    /// `environment`.
    pub fn new(modules: LuaModules, environment: rlua::RegistryKey) -> (r: Searcher)
        ensures
            r.modules() == modules@,
            r.environment() == environment,
    {
        Searcher { modules, environment }
    }

    /// The tree that this searcher serves.
    pub closed spec fn modules(&self) -> Registry {
        self.modules@
    }

    /// The key to the environment of this searcher.
    pub closed spec fn environment(&self) -> rlua::RegistryKey {
        self.environment
    }

    /// Looks for the module `name`. A name that the tree does not hold is
    /// not found, and that is no error. A name that it holds is never "not
    /// found": either the module comes back compiled, under the chunk name of
    /// its file, or the engine's error does.
    pub fn resolve<'lua>(&self, ctx: rlua::Context<'lua>, name: &str) -> (r: Result<
        Resolution<'lua>,
        rlua::Error,
    >)
        ensures
            !self.modules().modules.contains_key(name@) ==> r matches Ok(Resolution::NotFound),
            self.modules().modules.contains_key(name@) ==> match r {
                Ok(Resolution::Loaded(unit)) => {
                    &&& unit.chunk_name@ == chunk_name(
                        self.modules().prefix,
                        self.modules().modules[name@].1,
                    )
                    &&& !unit.chunk_name@.contains('\0')
                },
                Ok(Resolution::NotFound) => false,
                Err(_) => true,
            },
    {
        match self.modules.request(name) {
            None => Ok(Resolution::NotFound),
            Some(request) => {
                let compiled = request.compile(ctx, &self.environment);
                request.answer(compiled)
            },
        }
    }

    /// What the engine gets when it calls this searcher with `name`: the
    /// compiled module, or nothing for a name that is not found.
    pub fn call<'lua>(&self, ctx: rlua::Context<'lua>, name: &str) -> (r: Result<
        Option<rlua::Function<'lua>>,
        rlua::Error,
    >)
        ensures
            !self.modules().modules.contains_key(name@) ==> r matches Ok(None),
            self.modules().modules.contains_key(name@) ==> !(r matches Ok(None)),
    {
        match self.resolve(ctx, name) {
            Ok(Resolution::NotFound) => Ok(None),
            Ok(Resolution::Loaded(unit)) => Ok(Some(unit.function)),
            Err(error) => Err(error),
        }
    }
}

/// Appends a searcher for the tree to `searchers`, the engine's list of
/// searchers, which `len` gives as its length. The modules of the tree run in
/// `environment`. Where the list has no place after its last one, nothing is
/// handed to the engine and the list is reported full; any other error is the
/// engine's own.
pub fn install_after<'a>(
    ctx: rlua::Context<'a>,
    searchers: &rlua::Table<'a>,
    len: i64,
    modules: LuaModules,
    environment: rlua::Table<'a>,
) -> (r: Result<(), InstallError>)
    ensures
        r matches Err(InstallError::ListFull) <==> place_after(len as int) is None,
{
    let place = match next_place(len) {
        Some(place) => place,
        None => {
            return Err(InstallError::ListFull);
        },
    };
    let searcher = match ctx.make_searcher_with_env(modules, environment) {
        Ok(searcher) => searcher,
        Err(error) => {
            return Err(InstallError::Engine(error));
        },
    };
    let function = match engine::create_function(ctx, searcher) {
        Ok(function) => function,
        Err(error) => {
            return Err(InstallError::Engine(error));
        },
    };
    match engine::set_function(searchers, place, function) {
        Ok(()) => Ok(()),
        Err(error) => Err(InstallError::Engine(error)),
    }
}

/// What a context of the engine can do with an embedded tree.
pub trait ContextExt<'a> {
    /// Makes the modules of the tree available to `require` in this engine.
    /// They run in the engine's global environment.
    fn add_modules(&self, modules: LuaModules) -> Result<(), InstallError>;

    /// Makes the modules of the tree available to `require` in this engine.
    /// They run in `environment`. The list of searchers and its length are
    /// asked of the engine; `install_after` does the rest.
    fn add_modules_with_env(&self, modules: LuaModules, environment: rlua::Table<'a>) -> Result<
        (),
        InstallError,
    >;

    /// A searcher for the tree whose modules run in the engine's global
    /// environment.
    fn make_searcher(&self, modules: LuaModules) -> (r: Result<Searcher, rlua::Error>)
        ensures
            r matches Ok(searcher) ==> searcher.modules() == modules@,
    ;

    /// A searcher for the tree whose modules run in `environment`.
    fn make_searcher_with_env(&self, modules: LuaModules, environment: rlua::Table<'a>) -> (r:
        Result<Searcher, rlua::Error>)
        ensures
            r matches Ok(searcher) ==> searcher.modules() == modules@,
    ;
}

impl<'a> ContextExt<'a> for rlua::Context<'a> {
    fn add_modules(&self, modules: LuaModules) -> Result<(), InstallError> {
        self.add_modules_with_env(modules, engine::globals(*self))
    }

    fn add_modules_with_env(&self, modules: LuaModules, environment: rlua::Table<'a>) -> Result<
        (),
        InstallError,
    > {
        let package = match engine::get_table(&engine::globals(*self), "package") {
            Ok(package) => package,
            Err(error) => {
                return Err(InstallError::Engine(error));
            },
        };
        let searchers = match engine::get_table(&package, "searchers") {
            Ok(searchers) => searchers,
            Err(error) => {
                return Err(InstallError::Engine(error));
            },
        };
        let len = match engine::len(&searchers) {
            Ok(len) => len,
            Err(error) => {
                return Err(InstallError::Engine(error));
            },
        };
        install_after(*self, &searchers, len, modules, environment)
    }

    fn make_searcher(&self, modules: LuaModules) -> (r: Result<Searcher, rlua::Error>) {
        self.make_searcher_with_env(modules, engine::globals(*self))
    }

    fn make_searcher_with_env(&self, modules: LuaModules, environment: rlua::Table<'a>) -> (r:
        Result<Searcher, rlua::Error>) {
        match engine::create_registry_value(*self, environment) {
            Ok(key) => Ok(Searcher::new(modules, key)),
            Err(error) => Err(error),
        }
    }
}

} // verus!
