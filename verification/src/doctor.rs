//! The diagnostic report: what is known of the machine, the runtime, the models,
//! the paths and the environment, line by line.
use vstd::prelude::*;
use crate::text::{chars_of, join2, join3};

verus! {

/// A runtime in the store.
pub struct StoreEntry {
    pub name: String,
    pub has_dylib: bool,
}

/// The runtime that came with the program.
pub struct Bundled {
    pub path: String,
    pub exists: bool,
}

/// The runtime in use, and where it was found.
pub struct Resolved {
    pub path: String,
    pub source: String,
}

/// A known model.
pub struct ModelFact {
    pub name: String,
    pub kind: String,
    pub available: bool,
}

/// A variable of the environment.
pub struct EnvFact {
    pub name: String,
    pub value: Option<String>,
}

/// Everything that the report speaks of.
pub struct Facts {
    pub version: String,
    pub debug: bool,
    pub os: String,
    pub arch: String,
    pub cpu_vendor: String,
    pub cpu_brand: String,
    pub dgpu: Option<String>,
    pub igpu: Option<String>,
    pub openvino: bool,
    pub rocm: bool,
    pub env_path: Option<String>,
    pub store_root: Option<String>,
    pub store_entries: Vec<StoreEntry>,
    pub bundled: Option<Bundled>,
    pub resolved: Option<Resolved>,
    pub models: Vec<ModelFact>,
    pub data_dir: Option<String>,
    pub models_dir: Option<String>,
    pub settings_path: Option<String>,
    pub env: Vec<EnvFact>,
}

/// The texts of a list.
pub open spec fn texts(v: Seq<String>) -> Seq<Seq<char>> {
    v.map_values(|s: String| s@)
}

/// A character a number of times.
pub open spec fn times(c: char, n: nat) -> Seq<char> {
    Seq::new(n, |i: int| c)
}

/// A text filled up with spaces.
pub open spec fn padded(s: Seq<char>, width: nat) -> Seq<char> {
    if s.len() < width {
        s + times(' ', (width - s.len()) as nat)
    } else {
        s
    }
}

/// A text, or another one where there is none.
pub open spec fn text_or(s: Option<String>, other: Seq<char>) -> Seq<char> {
    match s {
        Some(t) => t@,
        None => other,
    }
}

/// A character a number of times.
fn repeat_char(c: char, n: usize) -> (r: String)
    ensures
        r@ == times(c, n as nat),
{
    let mut s = String::new();
    let mut i: usize = 0;
    while i < n
        invariant
            i <= n,
            s@ =~= times(c, i as nat),
        decreases n - i,
    {
        s.push(c);
        i += 1;
    }
    s
}

/// A text filled up with spaces.
pub fn pad(s: &str, width: usize) -> (r: String)
    ensures
        r@ == padded(s@, width as nat),
{
    let n: usize = chars_of(s).len();
    if n < width {
        let fill = repeat_char(' ', width - n);
        join2(s, fill.as_str())
    } else {
        s.to_owned()
    }
}

/// A text, or another one where there is none.
fn or_text(s: &Option<String>, other: &str) -> (r: String)
    ensures
        r@ == text_or(*s, other@),
{
    match s {
        Some(t) => t.clone(),
        None => other.to_owned(),
    }
}

/// A path, or a word where the system has none.
pub fn path_or_unknown(p: &Option<String>) -> (r: String)
    ensures
        r@ == text_or(*p, "(unresolvable on this platform)"@),
{
    or_text(p, "(unresolvable on this platform)")
}

/// Appends a line.
fn put(out: &mut Vec<String>, line: String)
    ensures
        texts(final(out)@) == texts(old(out)@).push(line@),
{
    let ghost before = texts(out@);
    out.push(line);
    assert(texts(out@) =~= before.push(line@));
}

/// Lines of a heading: its title, underlined.
pub open spec fn heading(title: Seq<char>, rule: char) -> Seq<Seq<char>> {
    seq![title, times(rule, title.len())]
}

/// Appends a heading.
fn section(out: &mut Vec<String>, title: &str, rule: char)
    ensures
        texts(final(out)@) == texts(old(out)@) + heading(title@, rule),
{
    let ghost before = texts(out@);
    let n: usize = chars_of(title).len();
    put(out, title.to_owned());
    put(out, repeat_char(rule, n));
    assert(texts(out@) =~= before + heading(title@, rule));
}

/// A yes-or-no value in words.
pub open spec fn truth(b: bool) -> Seq<char> {
    if b {
        "true"@
    } else {
        "false"@
    }
}

/// A yes-or-no value in words.
fn truth_text(b: bool) -> (r: &'static str)
    ensures
        r@ == truth(b),
{
    if b {
        "true"
    } else {
        "false"
    }
}

/// Lines on the program.
pub open spec fn program_lines(f: Facts) -> Seq<Seq<char>> {
    heading("Prunr Diagnostic Report"@, '=') + seq![
        ""@,
        "Version: "@ + f.version@,
        "Build:   "@ + (if f.debug {
            "debug"@
        } else {
            "release"@
        }),
        "OS:      "@ + f.os@ + " "@ + f.arch@,
        ""@,
    ]
}

/// Appends the lines on the program.
fn report_program(out: &mut Vec<String>, f: &Facts)
    ensures
        texts(final(out)@) == texts(old(out)@) + program_lines(*f),
{
    let ghost before = texts(out@);
    section(out, "Prunr Diagnostic Report", '=');
    put(out, "".to_owned());
    put(out, join2("Version: ", f.version.as_str()));
    put(
        out,
        join2(
            "Build:   ",
            if f.debug {
                "debug"
            } else {
                "release"
            },
        ),
    );
    let os = join3("OS:      ", f.os.as_str(), " ");
    put(out, join2(os.as_str(), f.arch.as_str()));
    put(out, "".to_owned());
    assert(texts(out@) =~= before + program_lines(*f));
}

/// Lines on the machine.
pub open spec fn hardware_lines(f: Facts) -> Seq<Seq<char>> {
    heading("Hardware"@, '-') + seq![
        "CPU vendor:  "@ + f.cpu_vendor@,
        "CPU brand:   "@ + f.cpu_brand@,
        "dGPU:        "@ + text_or(f.dgpu, "None"@),
        "iGPU:        "@ + text_or(f.igpu, "None"@),
        "Recommends OpenVINO: "@ + truth(f.openvino),
        "Recommends ROCm:     "@ + truth(f.rocm),
        ""@,
    ]
}

/// Appends the lines on the machine.
fn report_hardware(out: &mut Vec<String>, f: &Facts)
    ensures
        texts(final(out)@) == texts(old(out)@) + hardware_lines(*f),
{
    let ghost before = texts(out@);
    section(out, "Hardware", '-');
    put(out, join2("CPU vendor:  ", f.cpu_vendor.as_str()));
    put(out, join2("CPU brand:   ", f.cpu_brand.as_str()));
    let dgpu = or_text(&f.dgpu, "None");
    put(out, join2("dGPU:        ", dgpu.as_str()));
    let igpu = or_text(&f.igpu, "None");
    put(out, join2("iGPU:        ", igpu.as_str()));
    put(out, join2("Recommends OpenVINO: ", truth_text(f.openvino)));
    put(out, join2("Recommends ROCm:     ", truth_text(f.rocm)));
    put(out, "".to_owned());
    assert(texts(out@) =~= before + hardware_lines(*f));
}

/// Line on a runtime in the store.
pub open spec fn store_line(e: StoreEntry) -> Seq<char> {
    "  - "@ + e.name@ + (if e.has_dylib {
        " [OK]"@
    } else {
        " [MISSING]"@
    })
}

/// Lines on the store of runtimes.
pub open spec fn store_lines(f: Facts) -> Seq<Seq<char>> {
    match f.store_root {
        None => seq!["Runtime store:  (not present)"@],
        Some(root) => if f.store_entries@.len() == 0 {
            seq!["Runtime store:  "@ + root@ + " (empty)"@]
        } else {
            seq!["Runtime store:  "@ + root@] + f.store_entries@.map_values(
                |e: StoreEntry| store_line(e),
            )
        },
    }
}

/// Appends the lines on the store of runtimes.
fn report_store(out: &mut Vec<String>, f: &Facts)
    ensures
        texts(final(out)@) == texts(old(out)@) + store_lines(*f),
{
    let ghost before = texts(out@);
    let root = match &f.store_root {
        None => {
            put(out, "Runtime store:  (not present)".to_owned());
            assert(texts(out@) =~= before + store_lines(*f));
            return;
        },
        Some(root) => root,
    };
    if f.store_entries.len() == 0 {
        put(out, join3("Runtime store:  ", root.as_str(), " (empty)"));
        assert(texts(out@) =~= before + store_lines(*f));
        return;
    }
    put(out, join2("Runtime store:  ", root.as_str()));
    let ghost top = texts(out@);
    let mut i: usize = 0;
    while i < f.store_entries.len()
        invariant
            i <= f.store_entries@.len(),
            texts(out@) =~= top + f.store_entries@.take(i as int).map_values(
                |e: StoreEntry| store_line(e),
            ),
        decreases f.store_entries@.len() - i,
    {
        let e = &f.store_entries[i];
        let mark = if e.has_dylib {
            " [OK]"
        } else {
            " [MISSING]"
        };
        put(out, join3("  - ", e.name.as_str(), mark));
        i += 1;
    }
    assert(f.store_entries@.take(f.store_entries@.len() as int) =~= f.store_entries@);
    assert(texts(out@) =~= before + store_lines(*f));
}

/// Lines on the runtime that came with the program.
pub open spec fn bundled_lines(f: Facts) -> Seq<Seq<char>> {
    match f.bundled {
        Some(b) => seq![
            "Bundled:        "@ + b.path@ + (if b.exists {
                " OK"@
            } else {
                " (absent)"@
            }),
        ],
        None => Seq::empty(),
    }
}

/// Line on the runtime in use.
pub open spec fn active_line(f: Facts) -> Seq<char> {
    match f.resolved {
        Some(r) => "Active source:  "@ + r.source@ + " \u{2192} "@ + r.path@,
        None => "Active source:  NONE \u{2014} `prunr` will refuse to start without --doctor"@,
    }
}

/// Lines on the runtime.
pub open spec fn runtime_lines(f: Facts) -> Seq<Seq<char>> {
    heading("ONNX Runtime"@, '-') + seq!["ORT_DYLIB_PATH: "@ + text_or(f.env_path, "(unset)"@)]
        + store_lines(f) + bundled_lines(f) + seq![active_line(f), ""@]
}

/// Appends the lines on the runtime.
fn report_runtime(out: &mut Vec<String>, f: &Facts)
    ensures
        texts(final(out)@) == texts(old(out)@) + runtime_lines(*f),
{
    let ghost before = texts(out@);
    section(out, "ONNX Runtime", '-');
    let env_path = or_text(&f.env_path, "(unset)");
    put(out, join2("ORT_DYLIB_PATH: ", env_path.as_str()));
    report_store(out, f);
    let ghost upper = texts(out@);
    match &f.bundled {
        Some(b) => {
            let mark = if b.exists {
                " OK"
            } else {
                " (absent)"
            };
            put(out, join3("Bundled:        ", b.path.as_str(), mark));
        },
        None => {},
    }
    assert(texts(out@) =~= upper + bundled_lines(*f));
    match &f.resolved {
        Some(r) => {
            let head = join3("Active source:  ", r.source.as_str(), " \u{2192} ");
            put(out, join2(head.as_str(), r.path.as_str()));
        },
        None => {
            put(
                out,
                "Active source:  NONE \u{2014} `prunr` will refuse to start without --doctor".to_owned(),
            );
        },
    }
    put(out, "".to_owned());
    assert(texts(out@) =~= before + runtime_lines(*f));
}

/// Line on a model, in columns.
pub open spec fn model_line(m: ModelFact) -> Seq<char> {
    "  "@ + padded(m.name@, 32) + " "@ + padded(m.kind@, 10) + (if m.available {
        " installed"@
    } else {
        " not installed"@
    })
}

/// Lines on the models.
pub open spec fn models_lines(f: Facts) -> Seq<Seq<char>> {
    heading("Models"@, '-') + f.models@.map_values(|m: ModelFact| model_line(m)) + seq![""@]
}

/// Appends the lines on the models.
fn report_models(out: &mut Vec<String>, f: &Facts)
    ensures
        texts(final(out)@) == texts(old(out)@) + models_lines(*f),
{
    let ghost before = texts(out@);
    section(out, "Models", '-');
    let ghost top = texts(out@);
    let mut i: usize = 0;
    while i < f.models.len()
        invariant
            i <= f.models@.len(),
            texts(out@) =~= top + f.models@.take(i as int).map_values(
                |m: ModelFact| model_line(m),
            ),
        decreases f.models@.len() - i,
    {
        let m = &f.models[i];
        let name = pad(m.name.as_str(), 32);
        let kind = pad(m.kind.as_str(), 10);
        let avail = if m.available {
            " installed"
        } else {
            " not installed"
        };
        let head = join3("  ", name.as_str(), " ");
        put(out, join3(head.as_str(), kind.as_str(), avail));
        i += 1;
    }
    assert(f.models@.take(f.models@.len() as int) =~= f.models@);
    put(out, "".to_owned());
    assert(texts(out@) =~= before + models_lines(*f));
}

/// Lines on the paths.
pub open spec fn paths_lines(f: Facts) -> Seq<Seq<char>> {
    let unknown = "(unresolvable on this platform)"@;
    heading("Paths"@, '-') + seq![
        "Data dir:     "@ + text_or(f.data_dir, unknown),
        "Models dir:   "@ + text_or(f.models_dir, unknown),
        "Settings:     "@ + text_or(f.settings_path, unknown),
        ""@,
    ]
}

/// Appends the lines on the paths.
fn report_paths(out: &mut Vec<String>, f: &Facts)
    ensures
        texts(final(out)@) == texts(old(out)@) + paths_lines(*f),
{
    let ghost before = texts(out@);
    section(out, "Paths", '-');
    let data = path_or_unknown(&f.data_dir);
    put(out, join2("Data dir:     ", data.as_str()));
    let models = path_or_unknown(&f.models_dir);
    put(out, join2("Models dir:   ", models.as_str()));
    let settings = path_or_unknown(&f.settings_path);
    put(out, join2("Settings:     ", settings.as_str()));
    put(out, "".to_owned());
    assert(texts(out@) =~= before + paths_lines(*f));
}

/// Line on a variable of the environment.
pub open spec fn env_line(e: EnvFact) -> Seq<char> {
    "  "@ + e.name@ + ": "@ + text_or(e.value, "(unset)"@)
}

/// Lines on the environment.
pub open spec fn env_lines(f: Facts) -> Seq<Seq<char>> {
    heading("Environment"@, '-') + f.env@.map_values(|e: EnvFact| env_line(e))
}

/// Appends the lines on the environment.
fn report_env(out: &mut Vec<String>, f: &Facts)
    ensures
        texts(final(out)@) == texts(old(out)@) + env_lines(*f),
{
    let ghost before = texts(out@);
    section(out, "Environment", '-');
    let ghost top = texts(out@);
    let mut i: usize = 0;
    while i < f.env.len()
        invariant
            i <= f.env@.len(),
            texts(out@) =~= top + f.env@.take(i as int).map_values(|e: EnvFact| env_line(e)),
        decreases f.env@.len() - i,
    {
        let e = &f.env[i];
        let value = or_text(&e.value, "(unset)");
        let head = join3("  ", e.name.as_str(), ": ");
        put(out, join2(head.as_str(), value.as_str()));
        i += 1;
    }
    assert(f.env@.take(f.env@.len() as int) =~= f.env@);
    assert(texts(out@) =~= before + env_lines(*f));
}

/// The whole report.
pub open spec fn report(f: Facts) -> Seq<Seq<char>> {
    program_lines(f) + hardware_lines(f) + runtime_lines(f) + models_lines(f) + paths_lines(f)
        + env_lines(f)
}

/// The diagnostic report, line by line.
pub fn doctor_report(f: &Facts) -> (r: Vec<String>)
    ensures
        texts(r@) == report(*f),
{
    let mut out: Vec<String> = Vec::new();
    assert(texts(out@) =~= Seq::empty());
    report_program(&mut out, f);
    assert(texts(out@) =~= program_lines(*f));
    report_hardware(&mut out, f);
    report_runtime(&mut out, f);
    report_models(&mut out, f);
    report_paths(&mut out, f);
    report_env(&mut out, f);
    out
}

/// Names of the variables that the report speaks of.
pub const ENV_NAMES: [&'static str; 3] = ["RUST_LOG", "ORT_DYLIB_PATH", "PRUNR_DEBUG_LOG"];

proof fn found_in_either(a: Seq<Seq<char>>, b: Seq<Seq<char>>, x: Seq<char>)
    ensures
        a.contains(x) || b.contains(x) ==> (a + b).contains(x),
{
    if a.contains(x) {
        let i = choose|i: int| 0 <= i < a.len() && a[i] == x;
        assert((a + b)[i] == x);
    }
    if b.contains(x) {
        let i = choose|i: int| 0 <= i < b.len() && b[i] == x;
        assert((a + b)[a.len() + i] == x);
    }
}

/// Every line of every part stands in the report.
pub proof fn reports_hold_all_parts(f: Facts, x: Seq<char>)
    ensures
        program_lines(f).contains(x) || hardware_lines(f).contains(x) || runtime_lines(f).contains(
            x,
        ) || models_lines(f).contains(x) || paths_lines(f).contains(x) || env_lines(f).contains(x)
            ==> report(f).contains(x),
        report(f).len() == program_lines(f).len() + hardware_lines(f).len() + runtime_lines(f).len()
            + models_lines(f).len() + paths_lines(f).len() + env_lines(f).len(),
{
    let a = program_lines(f) + hardware_lines(f);
    let b = a + runtime_lines(f);
    let c = b + models_lines(f);
    let d = c + paths_lines(f);
    found_in_either(program_lines(f), hardware_lines(f), x);
    found_in_either(a, runtime_lines(f), x);
    found_in_either(b, models_lines(f), x);
    found_in_either(c, paths_lines(f), x);
    found_in_either(d, env_lines(f), x);
}

/// A filled text starts with the text, is at least as wide as asked for and no wider
/// than it has to be, and ends in spaces only.
pub proof fn padding_only_adds_spaces(s: Seq<char>, width: nat)
    ensures
        s.is_prefix_of(padded(s, width)),
        padded(s, width).len() >= width,
        padded(s, width).len() == width || padded(s, width) == s,
        forall|i: int| s.len() <= i < padded(s, width).len() ==> padded(s, width)[i] == ' ',
{
    assert(padded(s, width).subrange(0, s.len() as int) =~= s);
}

/// The report lists every model by its name, and says that it is installed where it is
/// at hand and only there.
pub proof fn models_are_reported(f: Facts, i: int)
    requires
        0 <= i < f.models@.len(),
    ensures
        ({
            let m = f.models@[i];
            &&& report(f).contains(model_line(m))
            &&& m.name@.is_prefix_of(model_line(m).skip(2))
            &&& m.available ==> " installed"@.is_suffix_of(model_line(m))
            &&& !m.available ==> " not installed"@.is_suffix_of(model_line(m))
            &&& m.available ==> model_line(m).len() == 13 + padded(m.name@, 32).len() + padded(
                m.kind@,
                10,
            ).len()
            &&& !m.available ==> model_line(m).len() == 17 + padded(m.name@, 32).len() + padded(
                m.kind@,
                10,
            ).len()
        }),
{
    let m = f.models@[i];
    let lines = f.models@.map_values(|m: ModelFact| model_line(m));
    assert(lines[i] == model_line(m));
    assert(lines.contains(model_line(m)));
    found_in_either(heading("Models"@, '-'), lines, model_line(m));
    found_in_either(heading("Models"@, '-') + lines, seq![""@], model_line(m));
    reports_hold_all_parts(f, model_line(m));
    reveal_strlit("  ");
    reveal_strlit(" ");
    reveal_strlit(" installed");
    reveal_strlit(" not installed");
    let t = model_line(m);
    assert(t.skip(2).subrange(0, m.name@.len() as int) =~= m.name@) by {
        padding_only_adds_spaces(m.name@, 32);
    }
    let head = "  "@ + padded(m.name@, 32) + " "@ + padded(m.kind@, 10);
    if m.available {
        assert(t =~= head + " installed"@);
        assert(t.subrange(t.len() - 10, t.len() as int) =~= " installed"@);
    } else {
        assert(t =~= head + " not installed"@);
        assert(t.subrange(t.len() - 14, t.len() as int) =~= " not installed"@);
    }
}

/// The report gives every variable of the environment with its value, or says that it
/// is not set.
pub proof fn variables_are_reported(f: Facts, i: int)
    requires
        0 <= i < f.env@.len(),
    ensures
        ({
            let e = f.env@[i];
            &&& report(f).contains(env_line(e))
            &&& e.value matches Some(v) ==> env_line(e) == "  "@ + e.name@ + ": "@ + v@
            &&& e.value is None ==> env_line(e) == "  "@ + e.name@ + ": (unset)"@
        }),
{
    let e = f.env@[i];
    let lines = f.env@.map_values(|e: EnvFact| env_line(e));
    assert(lines[i] == env_line(e));
    found_in_either(heading("Environment"@, '-'), lines, env_line(e));
    reports_hold_all_parts(f, env_line(e));
    if e.value is None {
        reveal_strlit(": ");
        reveal_strlit("(unset)");
        reveal_strlit(": (unset)");
        assert(": "@ + "(unset)"@ =~= ": (unset)"@);
        assert("  "@ + e.name@ + ": "@ + "(unset)"@ =~= "  "@ + e.name@ + (": "@ + "(unset)"@));
    }
}

/// The report gives the version, each processor and each path under its own name.
pub proof fn names_and_paths_are_reported(f: Facts)
    ensures
        f.data_dir matches Some(p) ==> report(f).contains("Data dir:     "@ + p@),
        f.models_dir matches Some(p) ==> report(f).contains("Models dir:   "@ + p@),
        f.settings_path matches Some(p) ==> report(f).contains("Settings:     "@ + p@),
        report(f).contains("Version: "@ + f.version@),
        report(f).contains("CPU vendor:  "@ + f.cpu_vendor@),
        report(f).contains("CPU brand:   "@ + f.cpu_brand@),
        f.dgpu matches Some(g) ==> report(f).contains("dGPU:        "@ + g@),
        f.igpu matches Some(g) ==> report(f).contains("iGPU:        "@ + g@),
{
    let p = paths_lines(f);
    assert(p[2] == "Data dir:     "@ + text_or(f.data_dir, "(unresolvable on this platform)"@));
    assert(p[3] == "Models dir:   "@ + text_or(f.models_dir, "(unresolvable on this platform)"@));
    assert(p[4] == "Settings:     "@ + text_or(
        f.settings_path,
        "(unresolvable on this platform)"@,
    ));
    reports_hold_all_parts(f, p[2]);
    reports_hold_all_parts(f, p[3]);
    reports_hold_all_parts(f, p[4]);
    let v = program_lines(f);
    assert(v[3] == "Version: "@ + f.version@);
    reports_hold_all_parts(f, v[3]);
    let h = hardware_lines(f);
    assert(h[2] == "CPU vendor:  "@ + f.cpu_vendor@);
    assert(h[3] == "CPU brand:   "@ + f.cpu_brand@);
    assert(h[4] == "dGPU:        "@ + text_or(f.dgpu, "None"@));
    assert(h[5] == "iGPU:        "@ + text_or(f.igpu, "None"@));
    reports_hold_all_parts(f, h[2]);
    reports_hold_all_parts(f, h[3]);
    reports_hold_all_parts(f, h[4]);
    reports_hold_all_parts(f, h[5]);
}

/// The report says where the runtimes are stored and lists each of them, marked as
/// usable where its library is there and as missing where it is not.
pub proof fn stored_runtimes_are_reported(f: Facts, i: int)
    ensures
        f.store_root is None ==> store_lines(f).len() == 1,
        f.store_root is Some ==> store_lines(f).len() == 1 + f.store_entries@.len(),
        f.store_root is Some && 0 <= i < f.store_entries@.len() ==> {
            let e = f.store_entries@[i];
            &&& store_lines(f)[i + 1] == store_line(e)
            &&& report(f).contains(store_line(e))
            &&& e.has_dylib ==> store_line(e) == "  - "@ + e.name@ + " [OK]"@
            &&& !e.has_dylib ==> store_line(e) == "  - "@ + e.name@ + " [MISSING]"@
        },
        report(f).contains(active_line(f)),
        f.resolved matches Some(r) ==> r.path@.is_suffix_of(active_line(f)),
{
    let a = heading("ONNX Runtime"@, '-') + seq![
        "ORT_DYLIB_PATH: "@ + text_or(f.env_path, "(unset)"@),
    ];
    let b = a + store_lines(f);
    let c = b + bundled_lines(f);
    let tail = seq![active_line(f), ""@];
    assert(runtime_lines(f) =~= c + tail);
    if f.store_root is Some && 0 <= i < f.store_entries@.len() {
        let x = store_lines(f)[i + 1];
        assert(store_lines(f).contains(x));
        found_in_either(a, store_lines(f), x);
        found_in_either(b, bundled_lines(f), x);
        found_in_either(c, tail, x);
        reports_hold_all_parts(f, x);
    }
    assert(tail[0] == active_line(f));
    found_in_either(c, tail, active_line(f));
    reports_hold_all_parts(f, active_line(f));
    if let Some(r) = f.resolved {
        let t = active_line(f);
        assert(t.subrange(t.len() - r.path@.len(), t.len() as int) =~= r.path@);
    }
}

} // verus!
