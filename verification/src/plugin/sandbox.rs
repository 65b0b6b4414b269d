//! One run of a module, and what was asked of it.
//!
//! A run is metered and imports nothing, and its module was translated whole
//! before any run began, so what it answers comes of the module's bytes, of
//! what it may use and of what it was asked before. What comes from outside is
//! what the machine decides, and a run carries that: where two runs meet with
//! the same of the machine, their answers depend on nothing else.
use crate::plugin::MAX_OUTPUT_BYTES;
use vstd::prelude::*;

verus! {

/// The engine that runs modules, `wasmi::Engine`.
#[verifier::external_type_specification]
#[verifier::external_body]
pub struct ExEngine(wasmi::Engine);

/// A compiled module, `wasmi::Module`.
#[verifier::external_type_specification]
#[verifier::external_body]
pub struct ExModule(wasmi::Module);

/// What a run owns, `wasmi::Store`.
#[verifier::external_type_specification]
#[verifier::external_body]
#[verifier::reject_recursive_types(T)]
pub struct ExStore<T>(wasmi::Store<T>);

/// A module that has been started, `wasmi::Instance`.
#[verifier::external_type_specification]
#[verifier::external_body]
pub struct ExInstance(wasmi::Instance);

/// Caps on what a run may own, `wasmi::StoreLimits`.
#[verifier::external_type_specification]
#[verifier::external_body]
pub struct ExStoreLimits(wasmi::StoreLimits);

/// What a run carries: its caps.
pub struct StoreState {
    limits: wasmi::StoreLimits,
}

/// A module, the engine it was compiled for, and how many things it imports.
/// Only [`compile`] makes one.
pub struct Compiled {
    engine: wasmi::Engine,
    module: wasmi::Module,
    imports: usize,
    bytes: Ghost<Seq<u8>>,
}

impl Compiled {
    /// The bytes it was compiled from.
    pub closed spec fn bytes(self) -> Seq<u8> {
        self.bytes@
    }

    /// How many things it imports.
    pub closed spec fn imports(self) -> usize {
        self.imports
    }
}

/// What a run may use.
#[derive(Debug, Clone, Copy, PartialEq, Eq, Structural)]
pub struct Caps {
    /// Bytes of linear memory.
    pub memory_bytes: usize,
    /// Memories.
    pub memories: usize,
    /// Tables.
    pub tables: usize,
    /// Instructions.
    pub fuel: u64,
}

/// What a function of a module takes and gives.
pub ghost enum Signature {
    /// Nothing, and a number.
    Source,
    /// A number, and a number.
    Alloc,
    /// Two numbers, and a wide one.
    Analyze,
}

/// One thing that was asked of a started module.
pub ghost enum Asked {
    /// Call this function with nothing.
    Source(Seq<char>),
    /// Call this function with a number.
    Alloc(Seq<char>, i32),
    /// Call this function with two numbers.
    Analyze(Seq<char>, i32, i32),
    /// Put these bytes at this place of this memory.
    Write(Seq<char>, usize, Seq<u8>),
}

/// What the machine decides in a run.
pub ghost struct Machine {
    /// Which of the run's requests for memory, counted from its start, the
    /// machine cannot meet though the caps allow them.
    pub lacking: Set<nat>,
    /// The bits of each result of arithmetic that is not a number, counted from
    /// the translation of the module on.
    pub not_a_number: Map<nat, u64>,
    /// How many bits an address has.
    pub address_bits: nat,
}

/// A run so far.
pub ghost struct Run {
    /// The module's bytes.
    pub module: Seq<u8>,
    /// What it may use.
    pub caps: Caps,
    /// What the machine decides in it.
    pub machine: Machine,
    /// What was asked of it, in order.
    pub asked: Seq<Asked>,
}

impl Run {
    /// The run once one more thing was asked.
    pub open spec fn after(self, question: Asked) -> Run {
        Run { asked: self.asked.push(question), ..self }
    }
}

/// A run of which nothing was asked yet.
pub open spec fn opening(module: Seq<u8>, caps: Caps, machine: Machine) -> Run {
    Run { module, caps, machine, asked: Seq::empty() }
}

/// A started module and what it owns. Only [`start`] makes one, so the instance
/// always belongs to the store beside it.
pub struct Sandbox {
    store: wasmi::Store<StoreState>,
    instance: wasmi::Instance,
    run: Ghost<Run>,
}

impl View for Sandbox {
    type V = Run;

    /// The run so far.
    closed spec fn view(&self) -> Run {
        self.run@
    }
}

/// Why no sandbox could be made.
#[derive(Debug)]
pub enum SandboxFault {
    /// The fuel could not be set, like this.
    Fuel(String),
    /// The module could not be started, like this.
    Start(String),
}

/// What is wrong with bytes that `wasmi::Module::new` does not take for a
/// module; nothing where it does.
pub uninterp spec fn module_fault(bytes: Seq<u8>) -> Option<Seq<char>>;

/// How many things the module of these bytes imports, as
/// `wasmi::Module::imports` lists them.
pub uninterp spec fn import_count(bytes: Seq<u8>) -> usize;

/// `wasmi::Module::new`, for an engine that meters fuel and translates every
/// function at once, so that no run pays for a translation or finds one made by
/// another: whether the bytes are a valid module, what is wrong with them where
/// they are not, and how many things a module imports, depends on the bytes
/// alone.
#[verifier::external_body]
pub(crate) fn compile(bytes: &[u8]) -> (r: Result<Compiled, String>)
    ensures
        match module_fault(bytes@) {
            None => r is Ok,
            Some(e) => r is Err && r->Err_0@ == e,
        },
        r matches Ok(c) ==> c.bytes() == bytes@ && c.imports() == import_count(bytes@),
{
    let mut config = wasmi::Config::default();
    config.consume_fuel(true);
    config.compilation_mode(wasmi::CompilationMode::Eager);
    let engine = wasmi::Engine::new(&config);
    match wasmi::Module::new(&engine, bytes) {
        Ok(module) => {
            let imports = module.imports().len();
            Ok(Compiled { engine, module, imports, bytes: Ghost(bytes@) })
        },
        Err(e) => Err(e.to_string()),
    }
}

/// What `wasmi::Linker::instantiate_and_start` says of a module that does not
/// start, with nothing to import; nothing where it does.
pub uninterp spec fn starting_fault(run: Run) -> Option<Seq<char>>;

/// `wasmi::Linker::instantiate_and_start`, with nothing to import, in a
/// `wasmi::Store` whose limiter has these caps and whose fuel is set before the
/// module starts. Setting the fuel succeeds, as the engine meters it. A module
/// that imports anything does not start. Whether another one does, and what is
/// said where it does not, depends on the module, the caps and the machine.
#[verifier::external_body]
pub(crate) fn start(compiled: &Compiled, caps: Caps) -> (r: Result<Sandbox, SandboxFault>)
    ensures
        match r {
            Ok(sandbox) => {
                &&& compiled.imports() == 0
                &&& sandbox@ == opening(compiled.bytes(), caps, sandbox@.machine)
                &&& starting_fault(sandbox@) is None
            },
            Err(why) => why is Start && exists|machine: Machine|
                starting_fault(#[trigger] opening(compiled.bytes(), caps, machine)) == Some(
                    why->Start_0@,
                ),
        },
{
    let limits = wasmi::StoreLimitsBuilder::new()
        .memory_size(caps.memory_bytes)
        .memories(caps.memories)
        .tables(caps.tables)
        .build();
    let mut store = wasmi::Store::new(&compiled.engine, StoreState { limits });
    store.limiter(|state| &mut state.limits);
    store.set_fuel(caps.fuel).map_err(|e| SandboxFault::Fuel(e.to_string()))?;
    let linker = wasmi::Linker::<StoreState>::new(&compiled.engine);
    match linker.instantiate_and_start(&mut store, &compiled.module) {
        Ok(instance) => Ok(Sandbox { store, instance, run: Ghost(arbitrary()) }),
        Err(e) => Err(SandboxFault::Start(e.to_string())),
    }
}

/// Whether the module of these bytes exports a memory of this name, as
/// `wasmi::Instance::get_memory` finds it.
pub uninterp spec fn memory_exported(module: Seq<u8>, name: Seq<char>) -> bool;

/// `wasmi::Instance::get_memory`: whether the module exports a memory of this
/// name.
#[verifier::external_body]
pub(crate) fn exports_memory(sandbox: &Sandbox, name: &str) -> (r: bool)
    ensures
        r == memory_exported(sandbox@.module, name@),
{
    sandbox.instance.get_memory(&sandbox.store, name).is_some()
}

/// What `wasmi::Instance::get_typed_func` says where the module of these bytes
/// does not export a function of this name and signature; nothing where it
/// does.
pub uninterp spec fn export_fault(
    module: Seq<u8>,
    name: Seq<char>,
    signature: Signature,
) -> Option<Seq<char>>;

/// What a module did or did not export.
pub open spec fn found_as(fault: Option<Seq<char>>, r: Result<(), String>) -> bool {
    match r {
        Ok(()) => fault is None,
        Err(e) => fault == Some(e@),
    }
}

/// `wasmi::Instance::get_typed_func`, for a function that takes nothing and
/// gives a number: what it says where there is no such export. That depends on
/// the module's bytes.
#[verifier::external_body]
pub(crate) fn exports_source(sandbox: &Sandbox, name: &str) -> (r: Result<(), String>)
    ensures
        found_as(export_fault(sandbox@.module, name@, Signature::Source), r),
{
    match sandbox.instance.get_typed_func::<(), i32>(&sandbox.store, name) {
        Ok(_) => Ok(()),
        Err(e) => Err(e.to_string()),
    }
}

/// `wasmi::Instance::get_typed_func`, for a function from a number to a number:
/// what it says where there is no such export. That depends on the module's
/// bytes.
#[verifier::external_body]
pub(crate) fn exports_alloc(sandbox: &Sandbox, name: &str) -> (r: Result<(), String>)
    ensures
        found_as(export_fault(sandbox@.module, name@, Signature::Alloc), r),
{
    match sandbox.instance.get_typed_func::<i32, i32>(&sandbox.store, name) {
        Ok(_) => Ok(()),
        Err(e) => Err(e.to_string()),
    }
}

/// `wasmi::Instance::get_typed_func`, for a function from two numbers to a wide
/// one: what it says where there is no such export. That depends on the
/// module's bytes.
#[verifier::external_body]
pub(crate) fn exports_analyze(sandbox: &Sandbox, name: &str) -> (r: Result<(), String>)
    ensures
        found_as(export_fault(sandbox@.module, name@, Signature::Analyze), r),
{
    match sandbox.instance.get_typed_func::<(i32, i32), i64>(&sandbox.store, name) {
        Ok(_) => Ok(()),
        Err(e) => Err(e.to_string()),
    }
}

/// What a call of `wasmi::TypedFunc::call` gives in a run that has come this
/// far: the number, or how it trapped.
pub uninterp spec fn call_answer(run: Run, question: Asked) -> Result<i64, Seq<char>>;

/// `wasmi::TypedFunc::call` on an export that takes nothing: the number it
/// gives, or how it traps. That depends on the run so far, with what the machine
/// decides in it, and on the function.
#[verifier::external_body]
pub(crate) fn call_source(sandbox: &mut Sandbox, name: &str) -> (r: Result<i32, String>)
    ensures
        final(sandbox)@ == old(sandbox)@.after(Asked::Source(name@)),
        match r {
            Ok(n) => call_answer(old(sandbox)@, Asked::Source(name@)) == Ok::<i64, Seq<char>>(
                n as i64,
            ),
            Err(e) => call_answer(old(sandbox)@, Asked::Source(name@)) == Err::<i64, Seq<char>>(e@),
        },
{
    match sandbox.instance.get_typed_func::<(), i32>(&sandbox.store, name) {
        Ok(f) => f.call(&mut sandbox.store, ()).map_err(|e| e.to_string()),
        Err(e) => Err(e.to_string()),
    }
}

/// `wasmi::TypedFunc::call` on an export that takes a number: the number it
/// gives, or how it traps. That depends on the run so far, with what the machine
/// decides in it, on the function and on the number.
#[verifier::external_body]
pub(crate) fn call_alloc(sandbox: &mut Sandbox, name: &str, len: i32) -> (r: Result<i32, String>)
    ensures
        final(sandbox)@ == old(sandbox)@.after(Asked::Alloc(name@, len)),
        match r {
            Ok(n) => call_answer(old(sandbox)@, Asked::Alloc(name@, len)) == Ok::<i64, Seq<char>>(
                n as i64,
            ),
            Err(e) => call_answer(old(sandbox)@, Asked::Alloc(name@, len)) == Err::<
                i64,
                Seq<char>,
            >(e@),
        },
{
    match sandbox.instance.get_typed_func::<i32, i32>(&sandbox.store, name) {
        Ok(f) => f.call(&mut sandbox.store, len).map_err(|e| e.to_string()),
        Err(e) => Err(e.to_string()),
    }
}

/// `wasmi::TypedFunc::call` on an export that takes two numbers: the wide
/// number it gives, or how it traps. That depends on the run so far, with what
/// the machine decides in it, on the function and on the numbers.
#[verifier::external_body]
pub(crate) fn call_analyze(sandbox: &mut Sandbox, name: &str, ptr: i32, len: i32) -> (r: Result<
    i64,
    String,
>)
    ensures
        final(sandbox)@ == old(sandbox)@.after(Asked::Analyze(name@, ptr, len)),
        match r {
            Ok(n) => call_answer(old(sandbox)@, Asked::Analyze(name@, ptr, len)) == Ok::<
                i64,
                Seq<char>,
            >(n),
            Err(e) => call_answer(old(sandbox)@, Asked::Analyze(name@, ptr, len)) == Err::<
                i64,
                Seq<char>,
            >(e@),
        },
{
    match sandbox.instance.get_typed_func::<(i32, i32), i64>(&sandbox.store, name) {
        Ok(f) => f.call(&mut sandbox.store, (ptr, len)).map_err(|e| e.to_string()),
        Err(e) => Err(e.to_string()),
    }
}

/// What `wasmi::Memory::write` says, in a run that has come this far, where the
/// bytes do not fit at this place of this memory; nothing where they do.
pub uninterp spec fn write_fault(
    run: Run,
    name: Seq<char>,
    at: usize,
    bytes: Seq<u8>,
) -> Option<Seq<char>>;

/// `wasmi::Memory::write`: puts bytes at a place of the module's memory, or
/// says that they do not fit there. How large the memory is depends on the run
/// so far.
#[verifier::external_body]
pub(crate) fn write_memory(sandbox: &mut Sandbox, name: &str, at: usize, bytes: &[u8]) -> (r:
    Result<(), String>)
    ensures
        final(sandbox)@ == old(sandbox)@.after(Asked::Write(name@, at, bytes@)),
        found_as(write_fault(old(sandbox)@, name@, at, bytes@), r),
{
    match sandbox.instance.get_memory(&sandbox.store, name) {
        Some(m) => m.write(&mut sandbox.store, at, bytes).map_err(|e| e.to_string()),
        None => Err(name.to_string()),
    }
}

/// What `wasmi::Memory::read` gives in a run that has come this far: so many
/// bytes at this place of this memory, or what it says where there are not that
/// many.
pub uninterp spec fn memory_at(
    run: Run,
    name: Seq<char>,
    at: usize,
    len: usize,
) -> Result<Seq<u8>, Seq<char>>;

/// `wasmi::Memory::read`: as many bytes as were asked for, from a place of the
/// module's memory, or what it says where there are not that many. What the
/// memory holds depends on the run so far.
#[verifier::external_body]
pub(crate) fn read_memory(sandbox: &Sandbox, name: &str, at: usize, len: usize) -> (r: Result<
    Vec<u8>,
    String,
>)
    requires
        len <= MAX_OUTPUT_BYTES,
    ensures
        match r {
            Ok(bytes) => bytes@.len() == len && memory_at(sandbox@, name@, at, len) == Ok::<
                Seq<u8>,
                Seq<char>,
            >(bytes@),
            Err(e) => memory_at(sandbox@, name@, at, len) == Err::<Seq<u8>, Seq<char>>(e@),
        },
{
    let mut buf = vec![0u8; len];
    match sandbox.instance.get_memory(&sandbox.store, name) {
        Some(m) => m.read(&sandbox.store, at, &mut buf).map(|_| buf).map_err(|e| e.to_string()),
        None => Err(name.to_string()),
    }
}

} // verus!
