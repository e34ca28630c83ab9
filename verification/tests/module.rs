use lunatic_runtime::api::DefaultApi;
use lunatic_runtime::module::{LunaticModule, ModuleError};
use wasmtime::{Engine, Module};

/// The empty module: the magic number and the version.
const EMPTY_PROGRAM: [u8; 8] = [0x00, 0x61, 0x73, 0x6d, 0x01, 0x00, 0x00, 0x00];

#[test]
fn module_keeps_program_and_memory_bounds() {
    let engine = Engine::default();
    let module = LunaticModule::new(&engine, &EMPTY_PROGRAM, 17, Some(256)).unwrap();
    assert_eq!(module.min_memory(), 17);
    assert_eq!(module.max_memory(), Some(256));
    assert_eq!(module.module().exports().count(), 0);
    let unbounded = LunaticModule::new(&engine, &EMPTY_PROGRAM, 0, None).unwrap();
    assert_eq!(unbounded.min_memory(), 0);
    assert_eq!(unbounded.max_memory(), None);
}

#[test]
fn program_that_does_not_compile_is_rejected() {
    let engine = Engine::default();
    let made = LunaticModule::new(&engine, &[0x00, 0x61, 0x73, 0x6d, 0x09], 1, None);
    match made {
        Err(ModuleError::Compile(text)) => assert!(!text.is_empty()),
        Ok(_) => panic!("a truncated program was compiled"),
    }
}

#[test]
fn from_compiled_wraps_what_the_engine_made() {
    let engine = Engine::default();
    let compiled = Module::new(&engine, EMPTY_PROGRAM);
    let module = LunaticModule::from_compiled(compiled, 2, Some(3)).unwrap();
    assert_eq!(module.min_memory(), 2);
    assert_eq!(module.max_memory(), Some(3));
    let failed = Module::new(&engine, [0xffu8; 4]);
    let text = failed.as_ref().err().map(|error| format!("{}", error));
    let made = LunaticModule::from_compiled(failed, 2, Some(3));
    assert_eq!(made.err(), text.map(ModuleError::Compile));
}

#[test]
fn module_clone_shares_the_same_content() {
    let engine = Engine::default();
    let module = LunaticModule::new(&engine, &EMPTY_PROGRAM, 1, Some(2)).unwrap();
    let copy = module.clone();
    assert_eq!(copy.min_memory(), 1);
    assert_eq!(copy.max_memory(), Some(2));
    assert_eq!(copy.module().exports().count(), module.module().exports().count());
}

#[test]
fn default_api_hands_out_what_it_was_made_from() {
    let engine = Engine::default();
    let module = LunaticModule::new(&engine, &EMPTY_PROGRAM, 2, None).unwrap();
    let api = DefaultApi::new(Some(5u32), module.clone());
    let (receiver, module_back) = api.into_parts();
    assert_eq!(receiver, Some(5));
    assert_eq!(module_back.min_memory(), 2);
    assert_eq!(module_back.max_memory(), None);
    let api: DefaultApi<u32> = DefaultApi::new(None, module);
    assert_eq!(api.into_parts().0, None);
}
