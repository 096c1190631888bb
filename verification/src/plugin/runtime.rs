//! Script runtimes: the runtime names the manifests use, and the table of
//! runtimes with their availability.

use vstd::prelude::*;
use vstd::string::StringExecFns;
use crate::json::{json_text, json_text_of, json_value_of, parse_json};
use crate::text::{ascii_lower, clone_opt_string, is_ascii_seq, lowercase, opt_view, str_eq, to_lowercase, trim, trim_ws};

verus! {

/// A script runtime.
#[derive(Clone, Copy, Debug, PartialEq, Eq, Hash, Structural)]
pub enum RuntimeType {
    Python,
    JavaScript,
    Native,
    Wasm,
}

/// The runtime a name stands for, read without regard to case.
pub open spec fn runtime_named(s: Seq<char>) -> Option<RuntimeType> {
    runtime_named_lower(lowercase(s))
}

/// The runtime a name in lower case stands for.
pub open spec fn runtime_named_lower(l: Seq<char>) -> Option<RuntimeType> {
    if l == "python"@ || l == "py"@ {
        Some(RuntimeType::Python)
    } else if l == "javascript"@ || l == "js"@ {
        Some(RuntimeType::JavaScript)
    } else if l == "native"@ || l == "rs"@ || l == "rust"@ {
        Some(RuntimeType::Native)
    } else if l == "wasm"@ || l == "webassembly"@ {
        Some(RuntimeType::Wasm)
    } else {
        None
    }
}

impl RuntimeType {
    /// The runtime named `s`: "python"/"py", "javascript"/"js",
    /// "native"/"rs"/"rust" or "wasm"/"webassembly", in any case.
    pub fn from_str(s: &str) -> (r: Option<Self>)
        ensures
            r == runtime_named(s@),
            is_ascii_seq(s@) ==> r == runtime_named_lower(ascii_lower(s@)),
    {
        let l = to_lowercase(s);
        RuntimeType::from_lower(l.as_str())
    }

    /// The runtime a name already in lower case stands for.
    pub fn from_lower(l: &str) -> (r: Option<Self>)
        ensures
            r == runtime_named_lower(l@),
    {
        if str_eq(l, "python") || str_eq(l, "py") {
            Some(RuntimeType::Python)
        } else if str_eq(l, "javascript") || str_eq(l, "js") {
            Some(RuntimeType::JavaScript)
        } else if str_eq(l, "native") || str_eq(l, "rs") || str_eq(l, "rust") {
            Some(RuntimeType::Native)
        } else if str_eq(l, "wasm") || str_eq(l, "webassembly") {
            Some(RuntimeType::Wasm)
        } else {
            None
        }
    }
}

/// Whether a runtime can be used, its version and its program.
#[derive(Debug)]
pub struct RuntimeStatus {
    pub available: bool,
    pub version: Option<String>,
    pub path: Option<String>,
}

pub struct RuntimeStatusView {
    pub available: bool,
    pub version: Option<Seq<char>>,
    pub path: Option<Seq<char>>,
}

impl View for RuntimeStatus {
    type V = RuntimeStatusView;

    open spec fn view(&self) -> RuntimeStatusView {
        RuntimeStatusView { available: self.available, version: opt_view(self.version), path: opt_view(self.path) }
    }
}

impl Clone for RuntimeStatus {
    fn clone(&self) -> (r: Self)
        ensures
            r@ == self@,
    {
        RuntimeStatus {
            available: self.available,
            version: clone_opt_string(&self.version),
            path: clone_opt_string(&self.path),
        }
    }
}

/// The status every runtime starts with: Python 3.x run by `python3`,
/// JavaScript 18.x+ run by `node`, compiled native code and wasm32, all
/// available.
pub open spec fn initial_status(rt: RuntimeType) -> RuntimeStatusView {
    match rt {
        RuntimeType::Python => RuntimeStatusView { available: true, version: Some("3.x"@), path: Some("python3"@) },
        RuntimeType::JavaScript => RuntimeStatusView { available: true, version: Some("18.x+"@), path: Some("node"@) },
        RuntimeType::Native => RuntimeStatusView { available: true, version: Some("compiled"@), path: None },
        RuntimeType::Wasm => RuntimeStatusView { available: true, version: Some("wasm32"@), path: None },
    }
}

/// The runtimes and their status.
pub struct PluginRuntime {
    python: RuntimeStatus,
    javascript: RuntimeStatus,
    native: RuntimeStatus,
    wasm: RuntimeStatus,
}

fn status_with(available: bool, version: &str, path: Option<&str>) -> (r: RuntimeStatus)
    ensures
        r@ == (RuntimeStatusView {
            available,
            version: Some(version@),
            path: match path {
                Some(p) => Some(p@),
                None => None,
            },
        }),
{
    RuntimeStatus {
        available,
        version: Some(String::from_str(version)),
        path: match path {
            Some(p) => Some(String::from_str(p)),
            None => None,
        },
    }
}

impl PluginRuntime {
    /// The status of runtime `rt`.
    pub closed spec fn status_view(&self, rt: RuntimeType) -> RuntimeStatusView {
        match rt {
            RuntimeType::Python => self.python@,
            RuntimeType::JavaScript => self.javascript@,
            RuntimeType::Native => self.native@,
            RuntimeType::Wasm => self.wasm@,
        }
    }

    /// The runtimes with their initial status.
    pub fn new() -> (r: Self)
        ensures
            forall|rt: RuntimeType| r.status_view(rt) == initial_status(rt),
    {
        PluginRuntime {
            python: status_with(true, "3.x", Some("python3")),
            javascript: status_with(true, "18.x+", Some("node")),
            native: status_with(true, "compiled", None),
            wasm: status_with(true, "wasm32", None),
        }
    }

    /// Whether runtime `rt` can be used.
    pub fn is_available(&self, runtime: RuntimeType) -> (r: bool)
        ensures
            r == self.status_view(runtime).available,
    {
        self.status(runtime).available
    }

    /// The status of runtime `rt`.
    pub fn status(&self, runtime: RuntimeType) -> (r: &RuntimeStatus)
        ensures
            r@ == self.status_view(runtime),
    {
        match runtime {
            RuntimeType::Python => &self.python,
            RuntimeType::JavaScript => &self.javascript,
            RuntimeType::Native => &self.native,
            RuntimeType::Wasm => &self.wasm,
        }
    }

    /// Every runtime with a copy of its status.
    pub fn all_status(&self) -> (r: Vec<(RuntimeType, RuntimeStatus)>)
        ensures
            r@.len() == 4,
            forall|i: int| 0 <= i < 4 ==> (#[trigger] r@[i]).1@ == self.status_view(r@[i].0),
            r@[0].0 == RuntimeType::Python,
            r@[1].0 == RuntimeType::JavaScript,
            r@[2].0 == RuntimeType::Native,
            r@[3].0 == RuntimeType::Wasm,
    {
        let mut r: Vec<(RuntimeType, RuntimeStatus)> = Vec::new();
        r.push((RuntimeType::Python, self.python.clone()));
        r.push((RuntimeType::JavaScript, self.javascript.clone()));
        r.push((RuntimeType::Native, self.native.clone()));
        r.push((RuntimeType::Wasm, self.wasm.clone()));
        r
    }
}

impl Default for PluginRuntime {
    /// The runtimes with their initial status.
    fn default() -> (r: Self)
        ensures
            forall|rt: RuntimeType| r.status_view(rt) == initial_status(rt),
    {
        PluginRuntime::new()
    }
}

/// How a script is started: the program that runs it and the JSON text of
/// its parameters, passed after the script's path.
#[derive(Debug)]
pub struct ScriptRun {
    pub program: String,
    pub params_json: String,
}

/// The outcome of a finished script in `language`: its JSON output when it
/// succeeded and printed one JSON document (surrounding whitespace aside);
/// otherwise "<language>脚本执行失败: " with its error output, or
/// "解析脚本输出失败".
pub open spec fn script_outcome(language: Seq<char>, success: bool, stdout: Seq<char>, stderr: Seq<char>) -> Result<serde_json::Value, Seq<char>> {
    if !success {
        Err(language + "脚本执行失败: "@ + stderr)
    } else {
        match json_value_of(trim_ws(stdout)) {
            Some(v) => Ok(v),
            None => Err("解析脚本输出失败"@),
        }
    }
}

/// A result with its message taken by its view.
pub open spec fn result_view(r: Result<serde_json::Value, String>) -> Result<serde_json::Value, Seq<char>> {
    match r {
        Ok(v) => Ok(v),
        Err(m) => Err(m@),
    }
}

fn script_output(language: &str, success: bool, stdout: &str, stderr: &str) -> (r: Result<serde_json::Value, String>)
    ensures
        result_view(r) == script_outcome(language@, success, stdout@, stderr@),
{
    if !success {
        let mut msg = String::from_str(language);
        msg.append("脚本执行失败: ");
        msg.append(stderr);
        return Err(msg);
    }
    let text = trim(stdout);
    match parse_json(text.as_str()) {
        Some(v) => Ok(v),
        None => Err(String::from_str("解析脚本输出失败")),
    }
}

impl PluginRuntime {
    fn prepare_run(&self, runtime: RuntimeType, unavailable: &str, program: &str, params: &serde_json::Value) -> (r: Result<ScriptRun, String>)
        ensures
            !self.status_view(runtime).available ==> (r matches Err(msg) && msg@ == unavailable@),
            self.status_view(runtime).available ==> (r matches Ok(run) && run.program@ == program@
                && run.params_json@ == json_text_of(*params)),
    {
        if !self.is_available(runtime) {
            return Err(String::from_str(unavailable));
        }
        match json_text(params) {
            Some(t) => Ok(ScriptRun { program: String::from_str(program), params_json: t }),
            None => Err(String::from_str("参数序列化失败")),
        }
    }

    /// How to run a Python script with `params`: by `python3`, with the JSON
    /// text serde_json writes for the parameters; "Python 运行时不可用" when
    /// Python is not available.
    pub fn prepare_python(&self, params: &serde_json::Value) -> (r: Result<ScriptRun, String>)
        ensures
            !self.status_view(RuntimeType::Python).available ==> (r matches Err(msg) && msg@ == "Python 运行时不可用"@),
            self.status_view(RuntimeType::Python).available ==> (r matches Ok(run) && run.program@ == "python3"@
                && run.params_json@ == json_text_of(*params)),
    {
        self.prepare_run(RuntimeType::Python, "Python 运行时不可用", "python3", params)
    }

    /// How to run a JavaScript script with `params`: by `node`, with the JSON
    /// text serde_json writes for the parameters; "Node.js 运行时不可用" when
    /// JavaScript is not available.
    pub fn prepare_javascript(&self, params: &serde_json::Value) -> (r: Result<ScriptRun, String>)
        ensures
            !self.status_view(RuntimeType::JavaScript).available ==> (r matches Err(msg) && msg@ == "Node.js 运行时不可用"@),
            self.status_view(RuntimeType::JavaScript).available ==> (r matches Ok(run) && run.program@ == "node"@
                && run.params_json@ == json_text_of(*params)),
    {
        self.prepare_run(RuntimeType::JavaScript, "Node.js 运行时不可用", "node", params)
    }
}

/// The result of a finished Python script, from whether it succeeded and
/// what it printed: its JSON output, or "Python脚本执行失败: " with the
/// error output, or "解析脚本输出失败" when the output is not JSON.
pub fn python_output(success: bool, stdout: &str, stderr: &str) -> (r: Result<serde_json::Value, String>)
    ensures
        result_view(r) == script_outcome("Python"@, success, stdout@, stderr@),
{
    proof {
        reveal_strlit("Python");
        reveal_strlit("脚本执行失败: ");
        reveal_strlit("Python脚本执行失败: ");
        assert("Python"@ + "脚本执行失败: "@ =~= "Python脚本执行失败: "@);
    }
    script_output("Python", success, stdout, stderr)
}

/// The result of a finished JavaScript script, as for Python, with
/// "JavaScript脚本执行失败: " when it failed.
pub fn javascript_output(success: bool, stdout: &str, stderr: &str) -> (r: Result<serde_json::Value, String>)
    ensures
        result_view(r) == script_outcome("JavaScript"@, success, stdout@, stderr@),
{
    proof {
        reveal_strlit("JavaScript");
        reveal_strlit("脚本执行失败: ");
        reveal_strlit("JavaScript脚本执行失败: ");
        assert("JavaScript"@ + "脚本执行失败: "@ =~= "JavaScript脚本执行失败: "@);
    }
    script_output("JavaScript", success, stdout, stderr)
}

/// Law: the names of the runtimes, in lower case: "python" and "py" name
/// Python, "javascript" and "js" JavaScript, "native", "rs" and "rust"
/// native code, "wasm" and "webassembly" WebAssembly; no other text names
/// a runtime.
pub proof fn law_runtime_names(l: Seq<char>)
    ensures
        runtime_named_lower(l) == Some(RuntimeType::Python) <==> (l == "python"@ || l == "py"@),
        runtime_named_lower(l) == Some(RuntimeType::JavaScript) <==> (l == "javascript"@ || l == "js"@),
        runtime_named_lower(l) == Some(RuntimeType::Native) <==> (l == "native"@ || l == "rs"@ || l == "rust"@),
        runtime_named_lower(l) == Some(RuntimeType::Wasm) <==> (l == "wasm"@ || l == "webassembly"@),
        runtime_named_lower(l) is None <==> !(l == "python"@ || l == "py"@ || l == "javascript"@ || l == "js"@
            || l == "native"@ || l == "rs"@ || l == "rust"@ || l == "wasm"@ || l == "webassembly"@),
{
    reveal_strlit("python");
    reveal_strlit("py");
    reveal_strlit("javascript");
    reveal_strlit("js");
    reveal_strlit("native");
    reveal_strlit("rs");
    reveal_strlit("rust");
    reveal_strlit("wasm");
    reveal_strlit("webassembly");
    assert("python"@[0] == 'p' && "py"@[0] == 'p' && "javascript"@[0] == 'j' && "js"@[0] == 'j'
        && "native"@[0] == 'n' && "rs"@[0] == 'r' && "rust"@[0] == 'r' && "wasm"@[0] == 'w'
        && "webassembly"@[0] == 'w');
}

} // verus!
