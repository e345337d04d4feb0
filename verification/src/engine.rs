//! The calls into the Lua engine. Nothing in this file is proved: each
//! function hands its arguments to one function of `rlua`, and its contract,
//! where it has one, is taken from that function's source.

use vstd::prelude::*;
use crate::searcher::Searcher;

verus! {

/// `rlua::Context`: a handle to the engine, good for one call into it.
#[verifier::external_type_specification]
#[verifier::external_body]
pub struct ExContext<'lua>(rlua::Context<'lua>);

/// `rlua::Chunk`: source text on its way to being compiled.
#[verifier::external_type_specification]
#[verifier::external_body]
pub struct ExChunk<'lua, 'a>(rlua::Chunk<'lua, 'a>);

/// `rlua::Table`: a handle to a table of the engine.
#[verifier::external_type_specification]
#[verifier::external_body]
pub struct ExTable<'lua>(rlua::Table<'lua>);

/// `rlua::Function`: a handle to a function of the engine.
#[verifier::external_type_specification]
#[verifier::external_body]
pub struct ExFunction<'lua>(rlua::Function<'lua>);

/// `rlua::RegistryKey`: a handle to a value that the engine keeps alive in its
/// registry.
#[verifier::external_type_specification]
#[verifier::external_body]
pub struct ExRegistryKey(rlua::RegistryKey);

/// `rlua::Error`: what the engine reports when a call into it fails.
#[verifier::external_type_specification]
#[verifier::external_body]
pub struct ExError(rlua::Error);

/// `Context::load`: wraps source text for loading. Nothing is parsed yet.
#[verifier::external_body]
pub(crate) fn load<'lua, 'a>(ctx: rlua::Context<'lua>, source: &'a str) -> rlua::Chunk<'lua, 'a> {
    ctx.load(source)
}

/// `Chunk::set_name`: gives the chunk its name in diagnostics. The name is
/// turned into a C string, which fails exactly when it holds a NUL character;
/// otherwise the chunk comes back.
#[verifier::external_body]
pub(crate) fn set_name<'lua, 'a>(chunk: rlua::Chunk<'lua, 'a>, name: &str) -> (r: Result<
    rlua::Chunk<'lua, 'a>,
    rlua::Error,
>)
    ensures
        r is Ok <==> !name@.contains('\0'),
{
    chunk.set_name(name)
}

/// `Context::registry_value`, asked for a table: the table that the key
/// stands for. It fails where the key belongs to another engine, or stands
/// for something that is no table.
#[verifier::external_body]
pub(crate) fn registry_table<'lua>(ctx: rlua::Context<'lua>, key: &rlua::RegistryKey) -> Result<
    rlua::Table<'lua>,
    rlua::Error,
> {
    ctx.registry_value::<rlua::Table>(key)
}

/// `Chunk::set_environment`, given a table: makes the table the environment
/// in which the chunk's global names are looked up.
#[verifier::external_body]
pub(crate) fn set_environment<'lua, 'a>(
    chunk: rlua::Chunk<'lua, 'a>,
    environment: rlua::Table<'lua>,
) -> Result<rlua::Chunk<'lua, 'a>, rlua::Error> {
    chunk.set_environment(environment)
}

/// `Chunk::into_function`: compiles the chunk without running it. A syntax
/// error in the source comes back as an error.
#[verifier::external_body]
pub(crate) fn into_function<'lua, 'a>(chunk: rlua::Chunk<'lua, 'a>) -> Result<
    rlua::Function<'lua>,
    rlua::Error,
> {
    chunk.into_function()
}

/// `Context::globals`: the table of the engine's global names.
#[verifier::external_body]
pub(crate) fn globals<'lua>(ctx: rlua::Context<'lua>) -> rlua::Table<'lua> {
    ctx.globals()
}

/// `Context::create_registry_value`, given a table: puts the table into the
/// engine's registry, which keeps it alive, and hands back the key to it.
#[verifier::external_body]
pub(crate) fn create_registry_value<'lua>(
    ctx: rlua::Context<'lua>,
    table: rlua::Table<'lua>,
) -> Result<rlua::RegistryKey, rlua::Error> {
    ctx.create_registry_value(table)
}

/// `Table::get`, asked for a table under a string key. It fails where the
/// value under the key is no table.
#[verifier::external_body]
pub(crate) fn get_table<'lua>(table: &rlua::Table<'lua>, key: &str) -> Result<
    rlua::Table<'lua>,
    rlua::Error,
> {
    table.get::<_, rlua::Table>(key)
}

/// `Table::len`: what Lua's length operator gives for the table.
#[verifier::external_body]
pub(crate) fn len<'lua>(table: &rlua::Table<'lua>) -> Result<i64, rlua::Error> {
    table.len()
}

/// `Table::set`, with an integer key and a function as value.
#[verifier::external_body]
pub(crate) fn set_function<'lua>(
    table: &rlua::Table<'lua>,
    index: i64,
    function: rlua::Function<'lua>,
) -> Result<(), rlua::Error> {
    table.set(index, function)
}

/// `Context::create_function`: a function of the engine that, called with a
/// string, hands it to `Searcher::call` and gives back what that returns.
#[verifier::external_body]
pub(crate) fn create_function<'lua>(ctx: rlua::Context<'lua>, searcher: Searcher) -> Result<
    rlua::Function<'lua>,
    rlua::Error,
> {
    ctx.create_function(move |ctx, name: String| searcher.call(ctx, name.as_str()))
}

} // verus!
