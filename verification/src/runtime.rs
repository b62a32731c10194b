//! Wasm execution with fuel metering and no host imports: no WASI, files,
//! network, environment or clock is reachable from a workload.
use vstd::prelude::*;
use crate::CommonsError;

verus! {

#[verifier::external_type_specification]
#[verifier::external_body]
pub struct ExEngine(wasmtime::Engine);

/// The number of imports a Wasm module (binary or text) declares.
pub uninterp spec fn wasm_import_count_of(module: Seq<u8>) -> nat;

/// The outputs that Wasm semantics allows for calling export `entrypoint`
/// of `module` as `i32 -> i32` on `input` within `fuel`: a set, since
/// floating-point NaN bit patterns inside a computation may differ between
/// machines.
pub uninterp spec fn wasm_outputs_of(module: Seq<u8>, entrypoint: Seq<char>, input: i32, fuel: nat) -> Set<i32>;

/// Whether an engine was configured to meter fuel (`Config::consume_fuel`),
/// a setting that the engine keeps for its life.
pub uninterp spec fn engine_meters_fuel(engine: wasmtime::Engine) -> bool;

/// Calls `wasmtime::Config::new`, `Config::consume_fuel` with the given
/// setting and `wasmtime::Engine::new`; an error is handed back as its
/// message. An engine that is built meters fuel exactly when
/// `consume_fuel` asks it to; whether it is built depends on the machine
/// and is not stated.
#[verifier::external_body]
fn configured_engine(consume_fuel: bool) -> (r: Result<wasmtime::Engine, String>)
    ensures
        r matches Ok(engine) ==> engine_meters_fuel(engine) == consume_fuel,
{
    let mut config = wasmtime::Config::new();
    config.consume_fuel(consume_fuel);
    match wasmtime::Engine::new(&config) {
        Ok(engine) => Ok(engine),
        Err(e) => Err(e.to_string()),
    }
}

/// Calls `wasmtime::Module::new` and counts the compiled module's imports
/// (`Module::imports`). The count is named, a function of the module bytes;
/// whether compilation succeeds is not stated.
#[verifier::external_body]
fn count_imports(engine: &wasmtime::Engine, bytes: &[u8]) -> (r: Result<usize, String>)
    ensures
        r matches Ok(count) ==> count == wasm_import_count_of(bytes@),
{
    match wasmtime::Module::new(engine, bytes) {
        Ok(module) => Ok(module.imports().len()),
        Err(e) => Err(e.to_string()),
    }
}

/// Compiles the module (`wasmtime::Module::new`), makes a store with no host
/// state holding `fuel` (`Store::new`, `Store::set_fuel`), instantiates it
/// through an empty `wasmtime::Linker` so that no host function can be
/// linked, and calls the named export as `i32 -> i32`
/// (`Instance::get_typed_func`, `TypedFunc::call`). An output is one that
/// Wasm semantics allows for these arguments; an error, a trap or exhausted
/// fuel is handed back as its message, and when one comes is not stated.
#[verifier::external_body]
fn run_module(engine: &wasmtime::Engine, bytes: &[u8], entrypoint: &str, input: i32, fuel: u64) -> (r: Result<i32, String>)
    ensures
        r matches Ok(output) ==> wasm_outputs_of(bytes@, entrypoint@, input, fuel as nat).contains(output),
{
    let module = match wasmtime::Module::new(engine, bytes) { Ok(m) => m, Err(e) => return Err(e.to_string()) };
    let mut store = wasmtime::Store::new(engine, ());
    if let Err(e) = store.set_fuel(fuel) { return Err(e.to_string()); }
    let instance = match wasmtime::Linker::new(engine).instantiate(&mut store, &module) { Ok(i) => i, Err(e) => return Err(e.to_string()) };
    let f = match instance.get_typed_func(&mut store, entrypoint) { Ok(f) => f, Err(e) => return Err(e.to_string()) };
    match f.call(&mut store, input) { Ok(output) => Ok(output), Err(e) => Err(e.to_string()) }
}

/// What a run produced, and how many host imports the module was given.
#[derive(Clone, Debug, PartialEq, Eq)]
pub struct ExecutionOutcome {
    pub output: i32,
    pub module_imports: usize,
}

/// A Wasm engine with fuel metering.
pub struct WasmRuntime {
    engine: wasmtime::Engine,
}

impl WasmRuntime {
    /// Whether the runtime's engine meters fuel.
    pub closed spec fn meters_fuel(self) -> bool {
        engine_meters_fuel(self.engine)
    }
}

/// A module that declares any import is refused with `Unsupported`.
pub fn check_no_imports(import_count: usize) -> (r: Result<(), CommonsError>)
    ensures
        r is Ok <==> import_count == 0,
        r is Err ==> r == Err::<(), CommonsError>(CommonsError::Unsupported),
{
    if import_count != 0 {
        return Err(CommonsError::Unsupported);
    }
    Ok(())
}

impl WasmRuntime {
    /// A runtime whose engine meters fuel; an engine error is `Runtime`.
    pub fn new() -> (r: Result<Self, CommonsError>)
        ensures
            r matches Ok(runtime) ==> runtime.meters_fuel(),
            r matches Err(e) ==> e is Runtime,
    {
        match configured_engine(true) {
            Ok(engine) => Ok(WasmRuntime { engine }),
            Err(message) => Err(CommonsError::Runtime(message)),
        }
    }

    /// Runs `entrypoint` of a module on `input` with `fuel` and hands back its
    /// output, one that Wasm semantics allows for these arguments. A module
    /// that declares imports never runs (`Unsupported`); compile,
    /// instantiation, trap and fuel errors are `Runtime`. A run reports no
    /// host imports.
    pub fn execute(&self, module: &[u8], entrypoint: &str, input: i32, fuel: u64) -> (r: Result<
        ExecutionOutcome,
        CommonsError,
    >)
        ensures
            r matches Ok(outcome) ==> outcome.module_imports == 0 && wasm_import_count_of(module@) == 0
                && wasm_outputs_of(module@, entrypoint@, input, fuel as nat).contains(outcome.output),
            r matches Err(e) ==> e is Runtime || (e is Unsupported && wasm_import_count_of(module@) != 0),
    {
        let import_count = match count_imports(&self.engine, module) {
            Ok(count) => count,
            Err(message) => return Err(CommonsError::Runtime(message)),
        };
        match check_no_imports(import_count) {
            Err(e) => return Err(e),
            Ok(()) => {},
        }
        let output = match run_module(&self.engine, module, entrypoint, input, fuel) {
            Ok(output) => output,
            Err(message) => return Err(CommonsError::Runtime(message)),
        };
        Ok(ExecutionOutcome { output, module_imports: 0 })
    }
}

} // verus!
