//! Guest modules: the handle that processes are spawned from, the
//! intermediate representation of a module, and the passes that rewrite it
//! before it is compiled.

pub mod ir;
pub mod normalisation;

use vstd::prelude::*;
use wasmtime::Engine;

verus! {

/// `wasmtime::Engine`, carried through as an opaque value.
#[verifier::external_type_specification]
#[verifier::external_body]
pub struct ExEngine(wasmtime::Engine);

/// `wasmtime::Module`, carried through as an opaque value.
#[verifier::external_type_specification]
#[verifier::external_body]
pub struct ExModule(wasmtime::Module);

/// `wasmtime::Error`, carried through as an opaque value.
#[verifier::external_type_specification]
#[verifier::external_body]
pub struct ExError(wasmtime::Error);

/// `Clone` of `wasmtime::Module`: another handle to the compiled program.
/// Nothing is claimed of the handle.
pub assume_specification[ <wasmtime::Module as Clone>::clone ](this: &wasmtime::Module) -> (copy:
    wasmtime::Module)
;

/// `wasmtime::Module::new`: decodes, validates and compiles the program
/// `wasm` for `engine`, or says why it cannot. Nothing is claimed of the
/// outcome.
#[verifier::external_body]
fn compile(engine: &Engine, wasm: &[u8]) -> (compiled: Result<wasmtime::Module, wasmtime::Error>) {
    wasmtime::Module::new(engine, wasm)
}

/// The `Display` text of a `wasmtime::Error`. Nothing is claimed of the
/// text.
#[verifier::external_body]
fn error_text(error: &wasmtime::Error) -> (text: String) {
    format!("{}", error)
}

/// Why a guest program did not become a module.
#[derive(Clone, Debug, PartialEq, Eq)]
pub enum ModuleError {
    /// The engine rejected the program; the text says why.
    Compile(String),
}

/// A compiled guest program together with the bounds of its memory, in Wasm
/// pages of 64KiB. It is made once and then only read, so that every process
/// spawned from the same program can share it.
#[derive(Clone)]
pub struct LunaticModule {
    module: wasmtime::Module,
    min_memory: u32,
    max_memory: Option<u32>,
}

/// The mathematical content of a [`LunaticModule`].
pub struct LunaticModuleView {
    pub module: wasmtime::Module,
    pub min_memory: u32,
    pub max_memory: Option<u32>,
}

impl View for LunaticModule {
    type V = LunaticModuleView;

    closed spec fn view(&self) -> LunaticModuleView {
        LunaticModuleView {
            module: self.module,
            min_memory: self.min_memory,
            max_memory: self.max_memory,
        }
    }
}

impl LunaticModule {
    /// Compiles the program `wasm` for `engine` into a module whose memory
    /// starts at `min_memory` pages and may grow to `max_memory` pages,
    /// without bound where there is none. Whether the program compiles is
    /// for the engine to say.
    pub fn new(
        engine: &Engine,
        wasm: &[u8],
        min_memory: u32,
        max_memory: Option<u32>,
    ) -> (made: Result<Self, ModuleError>)
        ensures
            made matches Ok(module) ==> module@.min_memory == min_memory && module@.max_memory
                == max_memory,
    {
        Self::from_compiled(compile(engine, wasm), min_memory, max_memory)
    }

    /// Wraps what the engine made of a program: the compiled program with
    /// the given memory bounds, or the error of the engine.
    pub fn from_compiled(
        compiled: Result<wasmtime::Module, wasmtime::Error>,
        min_memory: u32,
        max_memory: Option<u32>,
    ) -> (made: Result<Self, ModuleError>)
        ensures
            match compiled {
                Ok(module) => made matches Ok(wrapped) && wrapped@ == (LunaticModuleView {
                    module,
                    min_memory,
                    max_memory,
                }),
                Err(_) => made matches Err(ModuleError::Compile(_)),
            },
    {
        match compiled {
            Ok(module) => Ok(Self { module, min_memory, max_memory }),
            Err(error) => Err(ModuleError::Compile(error_text(&error))),
        }
    }

    /// The compiled program.
    pub fn module(&self) -> (module: &wasmtime::Module)
        ensures
            *module == self@.module,
    {
        &self.module
    }

    /// Pages that the memory of an instance starts with.
    pub fn min_memory(&self) -> (pages: u32)
        ensures
            pages == self@.min_memory,
    {
        self.min_memory
    }

    /// Pages that the memory of an instance may grow to, if bounded.
    pub fn max_memory(&self) -> (pages: Option<u32>)
        ensures
            pages == self@.max_memory,
    {
        self.max_memory
    }
}

} // verus!
