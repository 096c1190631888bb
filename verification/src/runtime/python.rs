//! The Python runtime: the interpreter found on the machine and the
//! scripts registered by extension name.

use vstd::prelude::*;
use vstd::string::StringExecFns;
use crate::json::{json_str_field, json_text, json_text_field, json_text_of, json_value_of, parse_json};
use crate::text::{opt_view, str_eq, trim, trim_ws};

verus! {

/// The Python runtime.
pub struct PythonRuntime {
    python_path: Option<String>,
    scripts: Vec<(String, String)>,
}

pub open spec fn script_views(v: Seq<(String, String)>) -> Seq<(Seq<char>, Seq<char>)> {
    v.map_values(|p: (String, String)| (p.0@, p.1@))
}

/// Entry `i` registers a script for extension `name`.
pub open spec fn has_script_at(s: Seq<(Seq<char>, Seq<char>)>, name: Seq<char>, i: int) -> bool {
    0 <= i < s.len() && s[i].0 == name
}

/// No two entries are for the same extension.
pub open spec fn names_unique(s: Seq<(Seq<char>, Seq<char>)>) -> bool {
    forall|a: int, b: int| 0 <= a < s.len() && 0 <= b < s.len() && a != b ==> #[trigger] s[a].0 != #[trigger] s[b].0
}

/// The scripts after registering `path` for extension `name`: the script
/// registered before for the name is replaced in place, or the pair is
/// appended.
pub open spec fn after_register(s: Seq<(Seq<char>, Seq<char>)>, name: Seq<char>, path: Seq<char>) -> Seq<(Seq<char>, Seq<char>)> {
    if exists|i: int| has_script_at(s, name, i) {
        s.update(choose|i: int| has_script_at(s, name, i), (name, path))
    } else {
        s.push((name, path))
    }
}

/// What running an extension takes: the interpreter, the script to run,
/// and the JSON text of its parameters, handed to the script in the
/// environment variable `OPENFETCH_PARAMS`.
#[derive(Debug)]
pub struct Execution {
    pub python: String,
    pub script: String,
    pub params_json: String,
}

impl PythonRuntime {
    /// The interpreter, when one was found.
    pub closed spec fn python_view(&self) -> Option<Seq<char>> {
        opt_view(self.python_path)
    }

    /// The registered scripts, as (extension name, script path) pairs.
    pub closed spec fn scripts_view(&self) -> Seq<(Seq<char>, Seq<char>)> {
        script_views(self.scripts@)
    }

    #[verifier::type_invariant]
    spec fn wf(self) -> bool {
        names_unique(script_views(self.scripts@))
    }

    /// A runtime using the interpreter at `python_path` (`None` when no
    /// interpreter was found), with no scripts.
    pub fn new(python_path: Option<String>) -> (r: Self)
        ensures
            r.python_view() == opt_view(python_path),
            r.scripts_view().len() == 0,
    {
        let r = PythonRuntime { python_path, scripts: Vec::new() };
        assert(script_views(r.scripts@) =~= Seq::<(Seq<char>, Seq<char>)>::empty());
        r
    }

    fn find_script(&self, name: &str) -> (r: Option<usize>)
        ensures
            match r {
                Some(i) => has_script_at(self.scripts_view(), name@, i as int),
                None => forall|i: int| !has_script_at(self.scripts_view(), name@, i),
            },
    {
        let mut i: usize = 0;
        while i < self.scripts.len()
            invariant
                i <= self.scripts@.len(),
                self.scripts_view() == script_views(self.scripts@),
                forall|k: int| 0 <= k < i ==> !has_script_at(self.scripts_view(), name@, k),
            decreases self.scripts@.len() - i,
        {
            if str_eq(self.scripts[i].0.as_str(), name) {
                return Some(i);
            }
            i = i + 1;
        }
        None
    }

    /// Registers the script at `path` for extension `name`, replacing the
    /// one registered before.
    pub fn register_script(&mut self, name: &str, path: String)
        ensures
            final(self).python_view() == old(self).python_view(),
            final(self).scripts_view() == after_register(old(self).scripts_view(), name@, path@),
            exists|i: int| has_script_at(final(self).scripts_view(), name@, i),
            forall|i: int| has_script_at(final(self).scripts_view(), name@, i) ==> final(self).scripts_view()[i].1 == path@,
    {
        proof {
            use_type_invariant(&*self);
        }
        let ghost old_s = self.scripts_view();
        let ghost e = (name@, path@);
        let found = self.find_script(name);
        let mut scripts: Vec<(String, String)> = Vec::new();
        std::mem::swap(&mut scripts, &mut self.scripts);
        match found {
            Some(i) => {
                proof {
                    let c = choose|k: int| has_script_at(old_s, name@, k);
                    assert(c == i as int);
                }
                scripts.set(i, (String::from_str(name), path));
                let ghost ns = old_s.update(i as int, e);
                assert(script_views(scripts@) =~= ns);
                assert forall|a: int, b: int| 0 <= a < ns.len() && 0 <= b < ns.len() && a != b implies #[trigger] ns[a].0 != #[trigger] ns[b].0 by {
                    assert(ns[a].0 == old_s[a].0 && ns[b].0 == old_s[b].0);
                }
            },
            None => {
                scripts.push((String::from_str(name), path));
                let ghost ns = old_s.push(e);
                assert(script_views(scripts@) =~= ns);
                assert forall|a: int, b: int| 0 <= a < ns.len() && 0 <= b < ns.len() && a != b implies #[trigger] ns[a].0 != #[trigger] ns[b].0 by {
                    if a < old_s.len() {
                        assert(ns[a] == old_s[a]);
                        assert(!has_script_at(old_s, name@, a));
                    }
                    if b < old_s.len() {
                        assert(ns[b] == old_s[b]);
                        assert(!has_script_at(old_s, name@, b));
                    }
                }
            },
        }
        self.scripts = scripts;
        proof {
            law_register_then_find(old_s, name@, e.1, name@);
        }
    }

    /// Whether an interpreter was found.
    pub fn is_available(&self) -> (r: bool)
        ensures
            r == self.python_view() is Some,
    {
        self.python_path.is_some()
    }

    /// What running extension `name` with `params` takes: its script, the
    /// interpreter, and the parameters as the JSON text serde_json writes
    /// for them. Errors, in this order: "扩展脚本未注册: " and the name when
    /// no script is registered, "Python 未安装" when there is no interpreter.
    pub fn prepare(&self, name: &str, params: &serde_json::Value) -> (r: Result<Execution, String>)
        ensures
            (exists|i: int| has_script_at(self.scripts_view(), name@, i)) && self.python_view() is Some ==> r is Ok,
            match r {
                Ok(x) => exists|i: int| {
                    &&& has_script_at(self.scripts_view(), name@, i)
                    &&& x.script@ == self.scripts_view()[i].1
                    &&& self.python_view() == Some(x.python@)
                    &&& x.params_json@ == json_text_of(*params)
                },
                Err(msg) => if forall|i: int| !has_script_at(self.scripts_view(), name@, i) {
                    msg@ == "扩展脚本未注册: "@ + name@
                } else {
                    self.python_view() is None && msg@ == "Python 未安装"@
                },
            },
    {
        match self.find_script(name) {
            None => {
                let mut msg = String::from_str("扩展脚本未注册: ");
                msg.append(name);
                Err(msg)
            },
            Some(i) => match &self.python_path {
                None => Err(String::from_str("Python 未安装")),
                Some(p) => match json_text(params) {
                    Some(t) => Ok(Execution { python: p.clone(), script: self.scripts[i].1.clone(), params_json: t }),
                    None => Err(String::from_str("参数序列化失败")),
                },
            },
        }
    }
}

/// The result of a finished extension script, from whether it succeeded and
/// what it printed: its JSON output (surrounding whitespace aside), or
/// "Python脚本执行失败: " with the error output, or "解析输出失败: " with the
/// output when it is not JSON.
pub fn execution_output(success: bool, stdout: &str, stderr: &str) -> (r: Result<serde_json::Value, String>)
    ensures
        !success ==> (r matches Err(msg) && msg@ == "Python脚本执行失败: "@ + stderr@),
        success ==> match json_value_of(trim_ws(stdout@)) {
            Some(v) => r == Ok::<serde_json::Value, String>(v),
            None => r matches Err(msg) && msg@ == "解析输出失败: "@ + stdout@,
        },
{
    if !success {
        let mut msg = String::from_str("Python脚本执行失败: ");
        msg.append(stderr);
        return Err(msg);
    }
    let text = trim(stdout);
    match parse_json(text.as_str()) {
        Some(v) => Ok(v),
        None => {
            let mut msg = String::from_str("解析输出失败: ");
            msg.append(stdout);
            Err(msg)
        },
    }
}

/// The path of a downloaded file from the text of the "path" field of a
/// download's result: that text, or "下载结果中缺少文件路径" when there is none.
pub fn path_from_field(field: Option<String>) -> (r: Result<String, String>)
    ensures
        match field {
            Some(p) => r matches Ok(x) && x@ == p@,
            None => r matches Err(msg) && msg@ == "下载结果中缺少文件路径"@,
        },
{
    match field {
        Some(p) => Ok(p),
        None => Err(String::from_str("下载结果中缺少文件路径")),
    }
}

/// The path of the downloaded file, from the field "path" of a download's
/// result; "下载结果中缺少文件路径" when the result has no such text field.
pub fn downloaded_path(result: &serde_json::Value) -> (r: Result<String, String>)
    ensures
        match json_text_field(*result, "path"@) {
            Some(p) => r matches Ok(x) && x@ == p,
            None => r matches Err(msg) && msg@ == "下载结果中缺少文件路径"@,
        },
{
    path_from_field(json_str_field(result, "path"))
}

/// Registering a script keeps one script per extension; looking the name up
/// afterwards finds the script just registered, and every other name finds
/// what it found before.
pub proof fn law_register_then_find(s: Seq<(Seq<char>, Seq<char>)>, name: Seq<char>, path: Seq<char>, other: Seq<char>)
    requires
        names_unique(s),
    ensures
        names_unique(after_register(s, name, path)),
        exists|i: int| has_script_at(after_register(s, name, path), name, i),
        forall|i: int| has_script_at(after_register(s, name, path), name, i) ==> after_register(s, name, path)[i].1 == path,
        other != name ==> forall|i: int| #[trigger] has_script_at(after_register(s, name, path), other, i)
            ==> exists|j: int| has_script_at(s, other, j) && s[j] == after_register(s, name, path)[i],
        other != name ==> forall|j: int| #[trigger] has_script_at(s, other, j)
            ==> exists|i: int| has_script_at(after_register(s, name, path), other, i) && after_register(s, name, path)[i] == s[j],
{
    let a = after_register(s, name, path);
    if exists|i: int| has_script_at(s, name, i) {
        let c = choose|i: int| has_script_at(s, name, i);
        assert(a == s.update(c, (name, path)));
        assert(has_script_at(a, name, c));
        assert forall|i: int| has_script_at(a, name, i) implies a[i].1 == path by {
            if i != c {
                assert(a[i] == s[i]);
                assert(s[i].0 == s[c].0);
            }
        }
        assert forall|x: int, y: int| 0 <= x < a.len() && 0 <= y < a.len() && x != y implies #[trigger] a[x].0 != #[trigger] a[y].0 by {
            assert(a[x].0 == s[x].0 && a[y].0 == s[y].0);
        }
        if other != name {
            assert forall|i: int| #[trigger] has_script_at(a, other, i) implies exists|j: int| has_script_at(s, other, j) && s[j] == a[i] by {
                assert(i != c);
                assert(has_script_at(s, other, i));
            }
            assert forall|j: int| #[trigger] has_script_at(s, other, j) implies exists|i: int| has_script_at(a, other, i) && a[i] == s[j] by {
                assert(j != c);
                assert(has_script_at(a, other, j));
            }
        }
    } else {
        assert(a == s.push((name, path)));
        assert(has_script_at(a, name, s.len() as int));
        assert forall|i: int| has_script_at(a, name, i) implies a[i].1 == path by {
            if i < s.len() {
                assert(has_script_at(s, name, i));
            }
        }
        assert forall|x: int, y: int| 0 <= x < a.len() && 0 <= y < a.len() && x != y implies #[trigger] a[x].0 != #[trigger] a[y].0 by {
            if x < s.len() && y < s.len() {
                assert(a[x] == s[x] && a[y] == s[y]);
            } else if x < s.len() {
                assert(a[x] == s[x]);
                assert(!has_script_at(s, name, x));
            } else {
                assert(a[y] == s[y]);
                assert(!has_script_at(s, name, y));
            }
        }
        if other != name {
            assert forall|i: int| #[trigger] has_script_at(a, other, i) implies exists|j: int| has_script_at(s, other, j) && s[j] == a[i] by {
                assert(has_script_at(s, other, i));
            }
            assert forall|j: int| #[trigger] has_script_at(s, other, j) implies exists|i: int| has_script_at(a, other, i) && a[i] == s[j] by {
                assert(has_script_at(a, other, j));
            }
        }
    }
}

} // verus!
