//! Running a plugin.
//!
//! A fresh instance per dialog, with a cap on its memory and on its
//! instructions, and with nothing to import: a plugin cannot carry anything
//! from one dialog to the next, and cannot reach anything outside itself.
use crate::plugin::sandbox::{
    call_alloc, call_analyze, call_answer, call_source, compile, export_fault, exports_alloc,
    exports_analyze, exports_memory, exports_source, import_count, memory_at, memory_exported,
    module_fault, opening, read_memory, start, starting_fault, write_fault, write_memory, Asked,
    Caps, Compiled, Machine, Run, Sandbox, SandboxFault, Signature,
};
use crate::plugin::{
    accept_findings, attributed, baseless_text, first_baseless, labelled, malformed_output, placed,
    shortened, ErrorView, PluginError, PluginFinding, ABI_VERSION, FUEL_PER_DIALOG, MAX_MEMORY_PAGES,
    MAX_OUTPUT_BYTES, WASM_PAGE_BYTES,
};
use crate::text::{decimal, decimal_text};
use crate::words::byte_len;
use vstd::prelude::*;
use vstd::string::*;
use vstd::utf8::*;

verus! {

/// What is wrong with bytes that are not UTF-8, in the words of
/// `std::string::FromUtf8Error`.
pub uninterp spec fn utf8_fault(bytes: Seq<u8>) -> Seq<char>;

/// `String::from_utf8`: the text whose encoding these bytes are, or what is
/// wrong with them where they are not well formed.
#[verifier::external_body]
fn owned_text(bytes: Vec<u8>) -> (r: Result<String, String>)
    ensures
        r is Ok <==> valid_utf8(bytes@),
        r matches Ok(s) ==> s@ == decode_utf8(bytes@),
        r matches Err(e) ==> e@ == utf8_fault(bytes@),
{
    String::from_utf8(bytes).map_err(|e| e.to_string())
}

/// A signed number read without its sign, at this many values.
pub open spec fn unsigned(n: int, values: int) -> int {
    if n < 0 {
        n + values
    } else {
        n
    }
}

/// What is said where a module does not start.
pub open spec fn not_started(e: Seq<char>) -> ErrorView {
    ErrorView::Abi("instantiation failed (plugins must import nothing): "@ + e)
}

/// What a plugin may use, for its check and for each dialog.
pub open spec fn run_caps() -> Caps {
    Caps {
        memory_bytes: (MAX_MEMORY_PAGES * WASM_PAGE_BYTES) as usize,
        memories: 1,
        tables: 4,
        fuel: FUEL_PER_DIALOG,
    }
}

/// The error for a module that did not start.
pub open spec fn start_fault(why: SandboxFault) -> ErrorView {
    match why {
        SandboxFault::Fuel(e) => ErrorView::Trap(e@),
        SandboxFault::Start(e) => not_started(e@),
    }
}

/// The error for a module that did not start.
pub fn judge_start(why: SandboxFault) -> (r: PluginError)
    ensures
        r@ == start_fault(why),
{
    match why {
        SandboxFault::Fuel(e) => PluginError::Trap(e),
        SandboxFault::Start(e) => PluginError::Abi(
            labelled("instantiation failed (plugins must import nothing): ", e.as_str()),
        ),
    }
}

/// Why a plugin that reports this version is refused.
pub open spec fn version_fault(found: i32) -> Option<ErrorView> {
    if found == ABI_VERSION {
        None
    } else {
        Some(ErrorView::AbiVersion(unsigned(found as int, 0x1_0000_0000) as u32, ABI_VERSION))
    }
}

/// Whether a plugin that reports this version is spoken to.
pub fn judge_abi(found: i32) -> (r: Result<(), PluginError>)
    ensures
        match r {
            Ok(()) => version_fault(found) is None,
            Err(e) => version_fault(found) == Some(e@),
        },
{
    let version: u32 = if found < 0 {
        (found as i64 + 0x1_0000_0000) as u32
    } else {
        found as u32
    };
    if version != ABI_VERSION {
        return Err(PluginError::AbiVersion { found: version, expected: ABI_VERSION });
    }
    Ok(())
}

/// The length of a document as a plugin is told it, where it can be told.
pub fn document_len(dialog_json: &str) -> (r: Result<i32, PluginError>)
    ensures
        match r {
            Ok(n) => byte_len(dialog_json@) <= i32::MAX && n == byte_len(dialog_json@),
            Err(e) => byte_len(dialog_json@) > i32::MAX && e@ == ErrorView::BadOutput(
                "dialog JSON exceeds i32"@,
            ),
        },
{
    let bytes = dialog_json.as_bytes();
    if bytes.len() > 0x7FFF_FFFF {
        return Err(PluginError::BadOutput(String::from_str("dialog JSON exceeds i32")));
    }
    Ok(bytes.len() as i32)
}

/// Where the document goes in the plugin's memory: what it gave for a place,
/// unless that is none.
pub fn judge_place(ptr: i32) -> (r: Result<usize, PluginError>)
    ensures
        match r {
            Ok(at) => ptr > 0 && at == ptr,
            Err(e) => ptr <= 0 && e@ == ErrorView::Trap("sipnab_alloc returned null"@),
        },
{
    if ptr <= 0 {
        return Err(PluginError::Trap(String::from_str("sipnab_alloc returned null")));
    }
    Ok(ptr as usize)
}

/// The place and length that a plugin packs into one number: the place in the
/// upper half, the length in the lower.
pub open spec fn unpacked(packed: i64) -> (int, int) {
    let n = unsigned(packed as int, 0x1_0000_0000_0000_0000);
    (n / 0x1_0000_0000, n % 0x1_0000_0000)
}

/// What a plugin's answer means: that it found nothing, or where its document
/// is and how long, unless it is too long.
pub open spec fn answered(packed: i64) -> Result<Option<(int, int)>, ErrorView> {
    let (ptr, len) = unpacked(packed);
    if len == 0 {
        Ok(None)
    } else if len <= MAX_OUTPUT_BYTES {
        Ok(Some((ptr, len)))
    } else {
        Err(
            ErrorView::BadOutput(
                "output "@ + decimal_text(len as nat) + " bytes exceeds the 4194304-byte cap"@,
            ),
        )
    }
}

/// What a plugin's answer says: that it found nothing, or where its document
/// is, unless it is too long.
pub fn judge_answer(packed: i64) -> (r: Result<Option<(usize, usize)>, PluginError>)
    ensures
        match r {
            Ok(None) => answered(packed) == Ok::<Option<(int, int)>, ErrorView>(None),
            Ok(Some((at, n))) => answered(packed) == Ok::<Option<(int, int)>, ErrorView>(
                Some((at as int, n as int)),
            ) && n <= MAX_OUTPUT_BYTES,
            Err(e) => answered(packed) == Err::<Option<(int, int)>, ErrorView>(e@),
        },
{
    let n: u64 = if packed < 0 {
        (packed as i128 + 0x1_0000_0000_0000_0000) as u64
    } else {
        packed as u64
    };
    let ptr: u32 = (n / 0x1_0000_0000) as u32;
    let len: u32 = (n % 0x1_0000_0000) as u32;
    if len == 0 {
        return Ok(None);
    }
    if len > MAX_OUTPUT_BYTES {
        let mut m = String::from_str("output ");
        m.append(decimal(len as u64).as_str());
        m.append(" bytes exceeds the 4194304-byte cap");
        return Err(PluginError::BadOutput(m));
    }
    Ok(Some((ptr as usize, len as usize)))
}

/// What a document of a plugin says.
pub open spec fn read_out(bytes: Seq<u8>) -> Result<Option<Seq<char>>, ErrorView> {
    if valid_utf8(bytes) {
        Ok(Some(decode_utf8(bytes)))
    } else {
        Err(ErrorView::BadOutput("output is not UTF-8: "@ + utf8_fault(bytes)))
    }
}

/// A plugin's document as text.
pub fn judge_output(bytes: Vec<u8>) -> (r: Result<String, PluginError>)
    ensures
        match r {
            Ok(s) => valid_utf8(bytes@) && read_out(bytes@) == Ok::<Option<Seq<char>>, ErrorView>(
                Some(s@),
            ),
            Err(e) => read_out(bytes@) == Err::<Option<Seq<char>>, ErrorView>(e@),
        },
{
    match owned_text(bytes) {
        Ok(s) => Ok(s),
        Err(e) => Err(PluginError::BadOutput(labelled("output is not UTF-8: ", e.as_str()))),
    }
}

/// A plugin's run before anything was asked of it.
pub open spec fn begun(module: Seq<u8>, machine: Machine) -> Run {
    opening(module, run_caps(), machine)
}

/// Why a module is refused as a plugin: it does not start, it does not export
/// the function that reports its version, that traps, or it reports another
/// version.
pub open spec fn refused(module: Seq<u8>, machine: Machine) -> Option<ErrorView> {
    let run = begun(module, machine);
    let version = "sipnab_plugin_abi_version"@;
    match starting_fault(run) {
        Some(e) => Some(not_started(e)),
        None => match export_fault(module, version, Signature::Source) {
            Some(e) => Some(ErrorView::Abi("sipnab_plugin_abi_version: "@ + e)),
            None => match call_answer(run, Asked::Source(version)) {
                Ok(n) => version_fault(n as i32),
                Err(e) => Some(ErrorView::Trap(e)),
            },
        },
    }
}

/// What a plugin says of a document: it is started afresh, asked for room for
/// the document's bytes, given them there, and asked to analyze them; what it
/// then says it found is read out of its memory.
pub open spec fn ran(module: Seq<u8>, document: Seq<char>, machine: Machine) -> Result<
    Option<Seq<char>>,
    ErrorView,
> {
    let run = begun(module, machine);
    let len = byte_len(document);
    match starting_fault(run) {
        Some(e) => Err(not_started(e)),
        None => if !memory_exported(module, "memory"@) {
            Err(ErrorView::Abi("plugin exports no `memory`"@))
        } else if let Some(e) = export_fault(module, "sipnab_alloc"@, Signature::Alloc) {
            Err(ErrorView::Abi("sipnab_alloc: "@ + e))
        } else if let Some(e) = export_fault(module, "sipnab_analyze"@, Signature::Analyze) {
            Err(ErrorView::Abi("sipnab_analyze: "@ + e))
        } else if len > i32::MAX {
            Err(ErrorView::BadOutput("dialog JSON exceeds i32"@))
        } else {
            let alloc = Asked::Alloc("sipnab_alloc"@, len as i32);
            match call_answer(run, alloc) {
                Err(e) => Err(ErrorView::Trap(e)),
                Ok(ptr) => if ptr <= 0 {
                    Err(ErrorView::Trap("sipnab_alloc returned null"@))
                } else {
                    analyzed(run.after(alloc), document, ptr as i32)
                },
            }
        },
    }
}

/// What a plugin says of a document that it has made room for at this place.
pub open spec fn analyzed(run: Run, document: Seq<char>, ptr: i32) -> Result<
    Option<Seq<char>>,
    ErrorView,
> {
    let bytes = encode_utf8(document);
    let write = Asked::Write("memory"@, ptr as usize, bytes);
    let analyze = Asked::Analyze("sipnab_analyze"@, ptr, bytes.len() as i32);
    match write_fault(run, "memory"@, ptr as usize, bytes) {
        Some(e) => Err(ErrorView::Trap("writing input: "@ + e)),
        None => match call_answer(run.after(write), analyze) {
            Err(e) => Err(ErrorView::Trap(e)),
            Ok(packed) => match answered(packed) {
                Err(e) => Err(e),
                Ok(None) => Ok(None),
                Ok(Some((at, n))) => match memory_at(
                    run.after(write).after(analyze),
                    "memory"@,
                    at as usize,
                    n as usize,
                ) {
                    Err(e) => Err(ErrorView::Trap("reading output: "@ + e)),
                    Ok(found) => read_out(found),
                },
            },
        },
    }
}

/// A run's result, as plain text and numbers.
pub open spec fn outcome(r: Result<Option<String>, PluginError>) -> Result<
    Option<Seq<char>>,
    ErrorView,
> {
    match r {
        Ok(None) => Ok(None),
        Ok(Some(text)) => Ok(Some(text@)),
        Err(e) => Err(e@),
    }
}

/// A loaded, validated plugin.
pub struct Plugin {
    name: String,
    path: String,
    compiled: Compiled,
}

impl Plugin {
    /// The name that findings are attributed to.
    pub closed spec fn name_spec(self) -> Seq<char> {
        self.name@
    }

    /// Where it was loaded from.
    pub closed spec fn path_spec(self) -> Seq<char> {
        self.path@
    }

    /// The bytes of its module.
    pub closed spec fn module(self) -> Seq<u8> {
        self.compiled.bytes()
    }

    /// What it says of a dialog's document, in a run in which the machine
    /// decides this.
    pub open spec fn says(self, document: Seq<char>, machine: Machine) -> Result<
        Option<Seq<char>>,
        ErrorView,
    > {
        ran(self.module(), document, machine)
    }

    /// The plugin's display name.
    pub fn name(&self) -> (r: &str)
        ensures
            r@ == self.name_spec(),
    {
        self.name.as_str()
    }

    /// Where the plugin was loaded from.
    pub fn path(&self) -> (r: &str)
        ensures
            r@ == self.path_spec(),
    {
        self.path.as_str()
    }

    /// Load and validate a plugin from the bytes of a file. `stem` is the
    /// file's name without its extension, where that is text.
    ///
    /// The interface version is checked here rather than on first use. Bytes
    /// that are no module are refused as such, a module that imports anything
    /// does not start, and a module that does is asked for its version.
    pub fn load(path: &str, stem: Option<&str>, bytes: &[u8]) -> (r: Result<Plugin, PluginError>)
        ensures
            match module_fault(bytes@) {
                Some(e) => r matches Err(fault) && fault@ == ErrorView::Invalid(path@ + ": "@ + e),
                None => exists|machine: Machine|
                    match r {
                        Ok(p) => #[trigger] refused(bytes@, machine) is None,
                        Err(fault) => refused(bytes@, machine) == Some(fault@),
                    },
            },
            module_fault(bytes@) is None && import_count(bytes@) > 0 ==> r matches Err(
                PluginError::Abi(_),
            ),
            r matches Ok(p) ==> p.module() == bytes@ && p.path_spec() == path@ && p.name_spec()
                == match stem {
                Some(s) => s@,
                None => "plugin"@,
            },
    {
        let compiled = match compile(bytes) {
            Ok(c) => c,
            Err(e) => {
                return Err(PluginError::Invalid(placed(path, e.as_str())));
            },
        };
        let name = match stem {
            Some(s) => String::from_str(s),
            None => String::from_str("plugin"),
        };
        let plugin = Plugin { name, path: String::from_str(path), compiled };
        match plugin.check_abi_version() {
            Ok(()) => Ok(plugin),
            Err(e) => Err(e),
        }
    }

    /// How many things its module imports.
    closed spec fn imports(self) -> usize {
        self.compiled.imports()
    }

    /// Start a fresh instance with no imports, its memory and its fuel capped
    /// before it starts.
    fn instantiate(&self) -> (r: Result<Sandbox, PluginError>)
        ensures
            match r {
                Ok(sandbox) => {
                    &&& self.imports() == 0
                    &&& sandbox@ == begun(self.module(), sandbox@.machine)
                    &&& starting_fault(sandbox@) is None
                },
                Err(fault) => exists|machine: Machine|
                    starting_fault(#[trigger] begun(self.module(), machine)) matches Some(e)
                        && fault@ == not_started(e),
            },
    {
        let caps = Caps {
            memory_bytes: MAX_MEMORY_PAGES * WASM_PAGE_BYTES,
            memories: 1,
            tables: 4,
            fuel: FUEL_PER_DIALOG,
        };
        match start(&self.compiled, caps) {
            Ok(sandbox) => {
                assert(sandbox@ == begun(self.module(), sandbox@.machine));
                Ok(sandbox)
            },
            Err(why) => {
                proof {
                    let machine = choose|machine: Machine|
                        starting_fault(#[trigger] opening(self.module(), caps, machine)) == Some(
                            why->Start_0@,
                        );
                    assert(begun(self.module(), machine) == opening(self.module(), caps, machine));
                }
                Err(judge_start(why))
            },
        }
    }

    /// Read the plugin's interface version and refuse any that this host does
    /// not speak.
    fn check_abi_version(&self) -> (r: Result<(), PluginError>)
        ensures
            exists|machine: Machine|
                match r {
                    Ok(()) => #[trigger] refused(self.module(), machine) is None,
                    Err(fault) => refused(self.module(), machine) == Some(fault@),
                },
            self.imports() > 0 ==> r matches Err(PluginError::Abi(_)),
    {
        let mut sandbox = match self.instantiate() {
            Ok(s) => s,
            Err(fault) => {
                proof {
                    let machine = choose|machine: Machine|
                        starting_fault(#[trigger] begun(self.module(), machine)) matches Some(e)
                            && fault@ == not_started(e);
                    assert(refused(self.module(), machine) == Some(fault@));
                }
                return Err(fault);
            },
        };
        let ghost machine = sandbox@.machine;
        if let Err(e) = exports_source(&sandbox, "sipnab_plugin_abi_version") {
            let fault = PluginError::Abi(labelled("sipnab_plugin_abi_version: ", e.as_str()));
            assert(refused(self.module(), machine) == Some(fault@));
            return Err(fault);
        }
        match call_source(&mut sandbox, "sipnab_plugin_abi_version") {
            Ok(found) => {
                assert(refused(self.module(), machine) == version_fault(found));
                judge_abi(found)
            },
            Err(e) => {
                let fault = PluginError::Trap(e);
                assert(refused(self.module(), machine) == Some(fault@));
                Err(fault)
            },
        }
    }

    /// Ask a started plugin about one dialog's document, and give the document
    /// it returned.
    fn ask(&self, sandbox: &mut Sandbox, dialog_json: &str) -> (r: Result<
        Option<String>,
        PluginError,
    >)
        requires
            old(sandbox)@ == begun(self.module(), old(sandbox)@.machine),
            starting_fault(old(sandbox)@) is None,
        ensures
            outcome(r) == self.says(dialog_json@, old(sandbox)@.machine),
            r matches Ok(Some(text)) ==> 0 < byte_len(text@) <= MAX_OUTPUT_BYTES,
    {
        if !exports_memory(sandbox, "memory") {
            return Err(PluginError::Abi(String::from_str("plugin exports no `memory`")));
        }
        if let Err(e) = exports_alloc(sandbox, "sipnab_alloc") {
            return Err(PluginError::Abi(labelled("sipnab_alloc: ", e.as_str())));
        }
        if let Err(e) = exports_analyze(sandbox, "sipnab_analyze") {
            return Err(PluginError::Abi(labelled("sipnab_analyze: ", e.as_str())));
        }
        let len: i32 = match document_len(dialog_json) {
            Ok(n) => n,
            Err(fault) => return Err(fault),
        };
        let ptr: i32 = match call_alloc(sandbox, "sipnab_alloc", len) {
            Ok(p) => p,
            Err(e) => return Err(PluginError::Trap(e)),
        };
        let at: usize = match judge_place(ptr) {
            Ok(a) => a,
            Err(fault) => return Err(fault),
        };
        let document = dialog_json.as_bytes();
        assert(document@ == encode_utf8(dialog_json@));
        if let Err(e) = write_memory(sandbox, "memory", at, document) {
            return Err(PluginError::Trap(labelled("writing input: ", e.as_str())));
        }
        let packed: i64 = match call_analyze(sandbox, "sipnab_analyze", ptr, len) {
            Ok(n) => n,
            Err(e) => return Err(PluginError::Trap(e)),
        };
        let (out_at, out_len) = match judge_answer(packed) {
            Ok(Some(place)) => place,
            Ok(None) => return Ok(None),
            Err(fault) => return Err(fault),
        };
        let bytes = match read_memory(sandbox, "memory", out_at, out_len) {
            Ok(b) => b,
            Err(e) => return Err(PluginError::Trap(labelled("reading output: ", e.as_str()))),
        };
        proof {
            if valid_utf8(bytes@) {
                decode_utf8_encode_utf8(bytes@);
            }
        }
        match judge_output(bytes) {
            Ok(s) => Ok(Some(s)),
            Err(fault) => Err(fault),
        }
    }

    /// Run the plugin against one dialog's document, and give the document it
    /// returned: text of at most the largest size, or `None` where it found
    /// nothing. An error is one against this plugin and this dialog.
    pub fn analyze(&self, dialog_json: &str) -> (r: Result<Option<String>, PluginError>)
        ensures
            exists|machine: Machine| outcome(r) == #[trigger] self.says(dialog_json@, machine),
            r matches Ok(Some(text)) ==> 0 < byte_len(text@) <= MAX_OUTPUT_BYTES,
            byte_len(dialog_json@) > i32::MAX ==> r is Err,
    {
        let mut sandbox = match self.instantiate() {
            Ok(s) => s,
            Err(fault) => {
                proof {
                    let machine = choose|machine: Machine|
                        starting_fault(#[trigger] begun(self.module(), machine)) matches Some(e)
                            && fault@ == not_started(e);
                    assert(self.says(dialog_json@, machine) == Err::<Option<Seq<char>>, ErrorView>(
                        fault@,
                    ));
                }
                return Err(fault);
            },
        };
        self.ask(&mut sandbox, dialog_json)
    }

    /// What one run comes to, from the document it returned and what that
    /// document was read as: its findings, attributed to this plugin, or why
    /// they are refused.
    pub fn conclude(&self, output: &str, parsed: Result<Vec<PluginFinding>, String>) -> (r: Result<
        Vec<PluginFinding>,
        PluginError,
    >)
        ensures
            r is Ok <==> (parsed matches Ok(findings) && first_baseless(findings@)
                == findings@.len()),
            r matches Ok(accepted) ==> accepted@.len() == parsed->Ok_0@.len() && forall|i: int|
                0 <= i < accepted@.len() ==> attributed(
                    self.name_spec(),
                    parsed->Ok_0@[i],
                    #[trigger] accepted@[i],
                ),
            r matches Err(e) ==> (e matches PluginError::BadOutput(m) && m@ == match parsed {
                Ok(findings) => baseless_text(findings@[first_baseless(findings@) as int].id@),
                Err(error) => error@ + "; got: "@ + shortened(output@, 200),
            }),
    {
        match parsed {
            Ok(findings) => accept_findings(self.name.as_str(), findings),
            Err(e) => Err(malformed_output(e.as_str(), output)),
        }
    }
}

/// What a plugin says of a dialog comes of its module and of the dialog alone:
/// two runs of one module on one document, under whatever names it was loaded
/// and whatever it was asked before, end the same where the machine decides the
/// same in them: which requests for memory it cannot meet, and the bits of
/// results that are not numbers. Each run starts with nothing asked.
pub proof fn findings_come_of_the_dialog_alone(
    a: Plugin,
    b: Plugin,
    document: Seq<char>,
    machine: Machine,
    r: Result<Option<String>, PluginError>,
    q: Result<Option<String>, PluginError>,
)
    requires
        a.module() == b.module(),
        outcome(r) == a.says(document, machine),
        outcome(q) == b.says(document, machine),
    ensures
        outcome(r) == outcome(q),
        begun(a.module(), machine).asked.len() == 0,
{
}

} // verus!
