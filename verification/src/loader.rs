//! The load plan and its fallback bookkeeping.
//!
//! Given the probed devices in order and the on-disk catalog, the plan
//! lists every candidate the loader may attempt: one entry per usable
//! variant per device, most capable first. Each entry carries the
//! candidate's directory and the three shared-library files to load,
//! strictly in the order core math, inference, multimodal. The actual
//! dynamic loading happens outside the library; `LoadState` records
//! each failed attempt and yields the aggregate exhaustion error when
//! no candidate succeeds.

use vstd::prelude::*;
use crate::device::DeviceInfo;
use crate::error::Error;
use crate::matcher::{matched, sort_desc, wf_candidates, ranked_variants};
use crate::probe::{Arch, Os};
use crate::strutil::{concat2, concat3, contains_seq, find_sub, is_match_at};
use crate::variant::{dir_name_of, Variant};

verus! {

/// Tag of the operating system in the dependency tree layout.
pub open spec fn os_tag(os: Os) -> Seq<char> {
    match os {
        Os::Windows => "windows"@,
        Os::Linux => "linux"@,
        Os::Darwin => "darwin"@,
    }
}

/// Tag of the processor architecture in the dependency tree layout.
pub open spec fn arch_tag(arch: Arch) -> Seq<char> {
    match arch {
        Arch::X86_64 => "x86_64"@,
        Arch::Arm64 => "arm64"@,
    }
}

/// File name of the core math library on `os`.
pub open spec fn ggml_file(os: Os) -> Seq<char> {
    match os {
        Os::Windows => "ggml.dll"@,
        Os::Linux => "libggml.so"@,
        Os::Darwin => "libggml.dylib"@,
    }
}

/// File name of the inference library on `os`.
pub open spec fn llama_file(os: Os) -> Seq<char> {
    match os {
        Os::Windows => "llama.dll"@,
        Os::Linux => "libllama.so"@,
        Os::Darwin => "libllama.dylib"@,
    }
}

/// File name of the multimodal library on `os`.
pub open spec fn llava_file(os: Os) -> Seq<char> {
    match os {
        Os::Windows => "llava_shared.dll"@,
        Os::Linux => "libllava_shared.so"@,
        Os::Darwin => "libllava_shared.dylib"@,
    }
}

/// The tag of `os`.
pub fn os_tag_str(os: Os) -> (r: &'static str)
    ensures
        r@ == os_tag(os),
{
    match os {
        Os::Windows => "windows",
        Os::Linux => "linux",
        Os::Darwin => "darwin",
    }
}

/// The tag of `arch`.
pub fn arch_tag_str(arch: Arch) -> (r: &'static str)
    ensures
        r@ == arch_tag(arch),
{
    match arch {
        Arch::X86_64 => "x86_64",
        Arch::Arm64 => "arm64",
    }
}

/// The file name of the core math library on `os`.
pub fn ggml_file_name(os: Os) -> (r: &'static str)
    ensures
        r@ == ggml_file(os),
{
    match os {
        Os::Windows => "ggml.dll",
        Os::Linux => "libggml.so",
        Os::Darwin => "libggml.dylib",
    }
}

/// The file name of the inference library on `os`.
pub fn llama_file_name(os: Os) -> (r: &'static str)
    ensures
        r@ == llama_file(os),
{
    match os {
        Os::Windows => "llama.dll",
        Os::Linux => "libllama.so",
        Os::Darwin => "libllama.dylib",
    }
}

/// The file name of the multimodal library on `os`.
pub fn llava_file_name(os: Os) -> (r: &'static str)
    ensures
        r@ == llava_file(os),
{
    match os {
        Os::Windows => "llava_shared.dll",
        Os::Linux => "libllava_shared.so",
        Os::Darwin => "libllava_shared.dylib",
    }
}

/// The dependency base path `<root>/<os-tag>/<arch-tag>`.
pub fn dependencies_base_path(root: &str, os: Os, arch: Arch) -> (r: String)
    ensures
        r@ == root@ + "/"@ + os_tag(os) + "/"@ + arch_tag(arch),
{
    let a = concat3(root, "/", os_tag_str(os));
    concat3(a.as_str(), "/", arch_tag_str(arch))
}

/// True on platforms whose dynamic linker resolves transitive
/// dependencies through a process-global search path, which must then
/// be extended with the base directory before the first load attempt.
pub fn needs_search_path_extension(os: Os) -> (r: bool)
    ensures
        r == (os is Windows),
{
    matches!(os, Os::Windows)
}

/// The search-path value with the base directory appended.
pub fn extended_search_path(current: &str, base: &str) -> (r: String)
    ensures
        r@ == current@ + ";"@ + base@,
{
    concat3(current, ";", base)
}

/// True when a directory entry marks its directory as a backend
/// variant: the scan keeps directories holding a file whose name has
/// `llama.` in it.
pub fn is_variant_marker(file_name: &str) -> (r: bool)
    ensures
        r == contains_seq(file_name@, "llama."@),
{
    match find_sub(file_name, "llama.") {
        Some(i) => {
            proof {
                assert(is_match_at(file_name@, "llama."@, i as int));
            }
            true
        },
        None => false,
    }
}

/// One load attempt: a variant, its directory, and the three shared
/// libraries to load, strictly in this order.
#[derive(Debug)]
pub struct Candidate {
    pub variant: Variant,
    pub dir: String,
    pub ggml_path: String,
    pub llama_path: String,
    pub llava_path: String,
}

impl Clone for Candidate {
    /// Clones preserve the value.
    fn clone(&self) -> (r: Self)
        ensures
            r == *self,
    {
        Candidate {
            variant: self.variant.clone(),
            dir: self.dir.clone(),
            ggml_path: self.ggml_path.clone(),
            llama_path: self.llama_path.clone(),
            llava_path: self.llava_path.clone(),
        }
    }
}

/// True when the candidate's directory and file paths are the ones its
/// variant owns under `base` on `os`.
pub open spec fn candidate_well_formed(c: Candidate, base: Seq<char>, os: Os) -> bool {
    &&& c.dir@ == base + "/"@ + dir_name_of(c.variant.library@, c.variant.variant@)
    &&& c.ggml_path@ == c.dir@ + "/"@ + ggml_file(os)
    &&& c.llama_path@ == c.dir@ + "/"@ + llama_file(os)
    &&& c.llava_path@ == c.dir@ + "/"@ + llava_file(os)
}

/// The variants the loader attempts, in order: for each device in probe
/// order, that device's usable variants most capable first.
pub open spec fn plan_variants(devs: Seq<DeviceInfo>, cat: Seq<Variant>) -> Seq<Variant>
    decreases devs.len(),
{
    if devs.len() == 0 {
        Seq::empty()
    } else {
        sort_desc(matched(devs.first(), cat)) + plan_variants(devs.drop_first(), cat)
    }
}

/// Appending a device appends its ranked variants to the plan.
proof fn lemma_plan_variants_push(devs: Seq<DeviceInfo>, d: DeviceInfo, cat: Seq<Variant>)
    ensures
        plan_variants(devs.push(d), cat) == plan_variants(devs, cat) + sort_desc(
            matched(d, cat),
        ),
    decreases devs.len(),
{
    let whole = devs.push(d);
    if devs.len() == 0 {
        assert(whole.first() == d);
        assert(whole.drop_first() =~= Seq::<DeviceInfo>::empty());
        assert(plan_variants(whole.drop_first(), cat) =~= Seq::<Variant>::empty());
        assert(plan_variants(devs, cat) =~= Seq::<Variant>::empty());
        assert(plan_variants(whole, cat) =~= plan_variants(devs, cat) + sort_desc(
            matched(d, cat),
        ));
    } else {
        assert(whole.first() == devs.first());
        assert(whole.drop_first() =~= devs.drop_first().push(d));
        lemma_plan_variants_push(devs.drop_first(), d, cat);
        assert(plan_variants(whole, cat) =~= plan_variants(devs, cat) + sort_desc(
            matched(d, cat),
        ));
    }
}

/// The full load plan: every candidate the loader may attempt, in
/// attempt order, each with its directory and three file paths.
pub fn load_plan(devices: &Vec<DeviceInfo>, catalog: &Vec<Variant>, base: &str, os: Os) -> (r:
    Vec<Candidate>)
    requires
        wf_candidates(catalog@),
    ensures
        r@.map_values(|c: Candidate| c.variant) == plan_variants(devices@, catalog@),
        forall|k: int| 0 <= k < r@.len() ==> candidate_well_formed(#[trigger] r@[k], base@, os),
{
    let ghost to_var = |c: Candidate| c.variant;
    let mut r: Vec<Candidate> = Vec::new();
    let mut i: usize = 0;
    while i < devices.len()
        invariant
            i <= devices@.len(),
            wf_candidates(catalog@),
            r@.map_values(|c: Candidate| c.variant) == plan_variants(
                devices@.take(i as int),
                catalog@,
            ),
            forall|k: int|
                0 <= k < r@.len() ==> candidate_well_formed(#[trigger] r@[k], base@, os),
        decreases devices@.len() - i,
    {
        let dev = &devices[i];
        let ranked = ranked_variants(dev, catalog);
        let mut j: usize = 0;
        while j < ranked.len()
            invariant
                j <= ranked@.len(),
                ranked@ == sort_desc(matched(devices@[i as int], catalog@)),
                r@.map_values(|c: Candidate| c.variant) == plan_variants(
                    devices@.take(i as int),
                    catalog@,
                ) + ranked@.take(j as int),
                forall|k: int|
                    0 <= k < r@.len() ==> candidate_well_formed(#[trigger] r@[k], base@, os),
            decreases ranked@.len() - j,
        {
            let v = ranked[j].clone();
            let dn = v.dir_name();
            let dir = concat3(base, "/", dn.as_str());
            let ggml_path = concat3(dir.as_str(), "/", ggml_file_name(os));
            let llama_path = concat3(dir.as_str(), "/", llama_file_name(os));
            let llava_path = concat3(dir.as_str(), "/", llava_file_name(os));
            let c = Candidate { variant: v, dir, ggml_path, llama_path, llava_path };
            let ghost prev = r@;
            r.push(c);
            proof {
                assert(r@.map_values(|c: Candidate| c.variant) =~= prev.map_values(
                    |c: Candidate| c.variant,
                ).push(ranked@[j as int]));
                assert(ranked@.take(j + 1) =~= ranked@.take(j as int).push(ranked@[j as int]));
                assert(prev.map_values(|c: Candidate| c.variant).push(ranked@[j as int]) =~= (
                plan_variants(devices@.take(i as int), catalog@) + ranked@.take(j as int)).push(
                    ranked@[j as int],
                ));
                assert((plan_variants(devices@.take(i as int), catalog@) + ranked@.take(
                    j as int,
                )).push(ranked@[j as int]) =~= plan_variants(devices@.take(i as int), catalog@)
                    + ranked@.take(j + 1));
            }
            j += 1;
        }
        proof {
            lemma_plan_variants_push(devices@.take(i as int), devices@[i as int], catalog@);
            assert(devices@.take(i + 1) =~= devices@.take(i as int).push(devices@[i as int]));
            assert(ranked@.take(ranked@.len() as int) =~= ranked@);
        }
        i += 1;
    }
    proof {
        assert(devices@.take(devices@.len() as int) =~= devices@);
    }
    r
}

/// The diagnostic recorded for one failed shared-library load.
pub open spec fn load_failure_line(path: Seq<char>, detail: Seq<char>) -> Seq<char> {
    "can`t load "@ + path + ": "@ + detail + "`"@
}

/// Formats the diagnostic for one failed load.
pub fn load_failure_message(path: &str, detail: &str) -> (r: String)
    ensures
        r@ == load_failure_line(path@, detail@),
{
    let a = concat3("can`t load ", path, ": ");
    let b = concat2(detail, "`");
    concat2(a.as_str(), b.as_str())
}

/// The diagnostic of an entry point missing from a loaded library: an
/// ABI or packaging mismatch, kept distinct from environmental load
/// failures and from ordinary runtime errors.
pub fn missing_symbol_message(symbol: &str) -> (r: String)
    ensures
        r@ == "function \""@ + symbol@ + "\" not found in llama_cpp lib"@,
{
    concat3("function \"", symbol, "\" not found in llama_cpp lib")
}

/// Walks the load plan: attempts are made in plan order, each failure
/// is recorded, and exhaustion yields the aggregate error.
pub struct LoadState {
    pub plan: Vec<Candidate>,
    pub next: usize,
    pub errs: Vec<String>,
}

impl LoadState {
    /// Starts at the first candidate with no recorded failure.
    pub fn new(plan: Vec<Candidate>) -> (r: Self)
        ensures
            r.plan == plan,
            r.next == 0,
            r.errs@ == Seq::<String>::empty(),
    {
        LoadState { plan, next: 0, errs: Vec::new() }
    }

    /// The candidate to attempt now, or `None` when the plan is
    /// exhausted.
    pub fn current(&self) -> (r: Option<Candidate>)
        ensures
            match r {
                Some(c) => self.next < self.plan@.len() && c == self.plan@[self.next as int],
                None => self.next >= self.plan@.len(),
            },
    {
        if self.next < self.plan.len() {
            Some(self.plan[self.next].clone())
        } else {
            None
        }
    }

    /// True when every candidate has been attempted and failed.
    pub fn exhausted(&self) -> (r: bool)
        ensures
            r == (self.next >= self.plan@.len()),
    {
        self.next >= self.plan.len()
    }

    /// Records that loading `path` failed with `detail` and abandons
    /// the current candidate: its remaining files are not attempted,
    /// the next candidate is.
    pub fn record_failure(&mut self, path: &str, detail: &str)
        requires
            old(self).next < old(self).plan@.len(),
        ensures
            final(self).plan == old(self).plan,
            final(self).next == old(self).next + 1,
            final(self).errs@.len() == old(self).errs@.len() + 1,
            final(self).errs@.last()@ == load_failure_line(path@, detail@),
            forall|k: int|
                0 <= k < old(self).errs@.len() ==> final(self).errs@[k] == old(self).errs@[k],
    {
        let msg = load_failure_message(path, detail);
        let n = self.plan.len();
        self.errs.push(msg);
        self.next = self.next + 1;
    }

    /// The terminal failure when no candidate loaded: an aggregate
    /// error listing every attempted file and its diagnostic.
    pub fn into_exhaustion_error(self) -> (e: Error)
        ensures
            e == Error::DependenciesLoading(self.errs),
    {
        Error::DependenciesLoading(self.errs)
    }
}

} // verus!
