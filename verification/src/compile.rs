//! Sandboxed LaTeX compilation: the plan and the rules, without the Docker
//! calls.
//!
//! Security model (LaTeX is Turing-complete and must never run on the host):
//! each pass runs in a fresh container with no network, a hard memory limit
//! with swap disabled, all capabilities dropped, a read-only root filesystem,
//! a PID cap, shell escape disabled, and the host uid:gid. `container_spec`
//! states these settings.
//!
//! The engine is re-run while its log asks for a rerun, up to `MAX_PASSES`,
//! all passes sharing one timeout. `CompileRun` makes these decisions.
use vstd::prelude::*;

use crate::config::Config;
use crate::paths::{joined_path, path_join};
use crate::strings::{
    chars_of, contains_chars, contains_seq, ends_with_chars, ends_with_seq, lowercase,
    to_lowercase,
};

verus! {

/// Upper bound on engine passes (cross-references usually settle within 3).
pub const MAX_PASSES: u32 = 4;

/// Cap on the captured log, in bytes, before it is cut off.
pub const LOG_LIMIT: usize = 65536;

#[derive(Debug)]
pub struct CompileRequest {
    /// Host directory containing the LaTeX sources; bind-mounted into /work.
    pub work_dir: String,
    /// Entry-point file relative to `work_dir`, e.g. "main.tex".
    pub main_tex: String,
}

#[derive(Debug, PartialEq, Eq, Clone, Copy, Structural)]
pub enum CompileStatus {
    Success,
    Failed,
    Timeout,
}

#[derive(Debug)]
pub struct CompileOutcome {
    pub status: CompileStatus,
    /// Captured compiler log (stdout + stderr) from the final pass.
    pub log: String,
    /// Path to the produced PDF, present on success.
    pub pdf_path: Option<String>,
    /// Wall-clock duration in milliseconds.
    pub duration_ms: u128,
}

// ─── Build artifacts ────────────────────────────────────────────────────

/// Filename suffixes of LaTeX build artifacts (removed on cleanup). `.xmpdata`
/// is not one: it is a pdfx/hyperxmp source file the user writes.
pub open spec fn aux_suffix_list() -> Seq<Seq<char>> {
    seq![
        ".abs"@, ".aux"@, ".bbl"@, ".blg"@, ".brf"@, ".bcf"@, ".fdb_latexmk"@, ".fls"@, ".idx"@,
        ".ilg"@, ".ind"@, ".lof"@, ".log"@, ".lot"@, ".lol"@, ".loa"@, ".nav"@, ".out"@,
        ".run.xml"@, ".snm"@, ".synctex.gz"@, ".synctex"@, ".toc"@, ".vrb"@, ".xdy"@, ".glo"@,
        ".gls"@, ".glg"@, ".acn"@, ".acr"@, ".alg"@, ".ist"@, ".thm"@, ".spl"@, ".fff"@, ".ttt"@,
        ".los"@, ".soc"@, ".maf"@, ".mtc"@,
    ]
}

/// The artifact suffixes, in order.
pub fn aux_suffixes() -> (v: Vec<&'static str>)
    ensures
        v@.len() == aux_suffix_list().len(),
        forall|i: int| 0 <= i < v@.len() ==> (#[trigger] v@[i])@ == aux_suffix_list()[i],
{
    let v = vec![
        ".abs", ".aux", ".bbl", ".blg", ".brf", ".bcf", ".fdb_latexmk", ".fls", ".idx", ".ilg",
        ".ind", ".lof", ".log", ".lot", ".lol", ".loa", ".nav", ".out", ".run.xml", ".snm",
        ".synctex.gz", ".synctex", ".toc", ".vrb", ".xdy", ".glo", ".gls", ".glg", ".acn", ".acr",
        ".alg", ".ist", ".thm", ".spl", ".fff", ".ttt", ".los", ".soc", ".maf", ".mtc",
    ];
    assert(v@.len() == aux_suffix_list().len());
    v
}

/// A file name (compared in lowercase) that ends with an artifact suffix.
pub open spec fn is_aux_name(name: Seq<char>) -> bool {
    exists|i: int|
        0 <= i < aux_suffix_list().len() && ends_with_seq(
            lowercase(name),
            #[trigger] aux_suffix_list()[i],
        )
}

/// Is a file with this name a LaTeX build artifact?
pub fn is_aux_artifact(name: &str) -> (r: bool)
    ensures
        r == is_aux_name(name@),
{
    let lower = chars_of(to_lowercase(name).as_str());
    let sufs = aux_suffixes();
    let mut i: usize = 0;
    while i < sufs.len()
        invariant
            i <= sufs.len(),
            lower@ == lowercase(name@),
            sufs@.len() == aux_suffix_list().len(),
            forall|j: int| 0 <= j < sufs@.len() ==> (#[trigger] sufs@[j])@ == aux_suffix_list()[j],
            forall|j: int|
                0 <= j < i ==> !ends_with_seq(lowercase(name@), #[trigger] aux_suffix_list()[j]),
        decreases sufs.len() - i,
    {
        let suf = chars_of(sufs[i]);
        if ends_with_chars(&lower, &suf) {
            return true;
        }
        i = i + 1;
    }
    false
}

/// A directory item (its name, and whether it is a regular file) that
/// cleanup removes: a file with an artifact name.
pub open spec fn is_artifact_item(item: (String, bool)) -> bool {
    item.1 && is_aux_name(item.0@)
}

/// Which items of a directory listing cleanup removes: the positions of the
/// regular files with artifact names, in order. Sources, the PDF and
/// subdirectories stay.
pub fn artifacts_to_remove(items: &[(String, bool)]) -> (r: Vec<usize>)
    ensures
        forall|k: int| 0 <= k < r@.len() ==> (#[trigger] r@[k]) < items@.len() && is_artifact_item(items@[r@[k] as int]),
        forall|k1: int, k2: int| 0 <= k1 < k2 < r@.len() ==> (#[trigger] r@[k1]) < (#[trigger] r@[k2]),
        forall|i: int| 0 <= i < items@.len() && #[trigger] is_artifact_item(items@[i]) ==> r@.contains(i as usize),
{
    let mut out: Vec<usize> = Vec::new();
    let mut i: usize = 0;
    while i < items.len()
        invariant
            i <= items@.len(),
            forall|k: int| 0 <= k < out@.len() ==> (#[trigger] out@[k]) < i && is_artifact_item(items@[out@[k] as int]),
            forall|k1: int, k2: int| 0 <= k1 < k2 < out@.len() ==> (#[trigger] out@[k1]) < (#[trigger] out@[k2]),
            forall|j: int| 0 <= j < i && #[trigger] is_artifact_item(items@[j]) ==> out@.contains(j as usize),
        decreases items.len() - i,
    {
        let (name, is_file) = &items[i];
        if *is_file && is_aux_artifact(name.as_str()) {
            let ghost before = out@;
            out.push(i);
            proof {
                assert forall|j: int| 0 <= j < i + 1 && #[trigger] is_artifact_item(items@[j]) implies out@.contains(j as usize) by {
                    if j < i {
                        let k = choose|k: int| 0 <= k < before.len() && before[k] == j as usize;
                        assert(out@[k] == j as usize);
                    } else {
                        assert(out@[before.len() as int] == i);
                    }
                }
            }
        }
        i = i + 1;
    }
    out
}

// ─── File names ─────────────────────────────────────────────────────────

/// `s` holds a `.` at `i` and none after it.
pub open spec fn is_last_dot(s: Seq<char>, i: int) -> bool {
    0 <= i < s.len() && s[i] == '.' && forall|j: int| i < j < s.len() ==> #[trigger] s[j] != '.'
}

/// The name without its last extension: everything before the last `.`, or
/// the whole name when it has no `.`.
pub open spec fn stem_of(s: Seq<char>) -> Seq<char> {
    if exists|i: int| #[trigger] is_last_dot(s, i) {
        s.subrange(0, choose|i: int| #[trigger] is_last_dot(s, i))
    } else {
        s
    }
}

/// The stem of the main file name (split at its last `.`).
pub fn tex_stem(main_tex: &str) -> (r: String)
    ensures
        r@ == stem_of(main_tex@),
{
    let cs = chars_of(main_tex);
    let mut i = cs.len();
    while i > 0 && cs[i - 1] != '.'
        invariant
            i <= cs.len(),
            cs@ == main_tex@,
            forall|j: int| i <= j < cs.len() ==> #[trigger] cs@[j] != '.',
        decreases i,
    {
        i = i - 1;
    }
    if i == 0 {
        proof {
            assert forall|k: int| !is_last_dot(cs@, k) by {
                if 0 <= k < cs.len() {
                    assert(cs@[k] != '.');
                }
            }
        }
        crate::strings::string_of(&cs)
    } else {
        proof {
            assert(is_last_dot(cs@, i - 1));
            let k = choose|k: int| #[trigger] is_last_dot(cs@, k);
            if k < i - 1 {
                assert(cs@[i - 1] != '.');
            } else if k > i - 1 {
                assert(cs@[k] != '.');
            }
        }
        crate::strings::string_of_range(&cs, 0, i - 1)
    }
}

/// `<stem>.pdf`.
pub fn pdf_file_name(main_tex: &str) -> (r: String)
    ensures
        r@ == stem_of(main_tex@) + ".pdf"@,
{
    let mut s = tex_stem(main_tex);
    s.append(".pdf");
    s
}

/// `<stem>.log`, the engine's log file.
pub fn log_file_name(main_tex: &str) -> (r: String)
    ensures
        r@ == stem_of(main_tex@) + ".log"@,
{
    let mut s = tex_stem(main_tex);
    s.append(".log");
    s
}

/// Where the PDF lands: `<work_dir>/<stem>.pdf`.
pub fn pdf_path(work_dir: &str, main_tex: &str) -> (r: String)
    ensures
        r@ == joined_path(work_dir@, stem_of(main_tex@) + ".pdf"@),
{
    let name = pdf_file_name(main_tex);
    path_join(work_dir, name.as_str())
}

/// Where the engine's log lands: `<work_dir>/<stem>.log`.
pub fn log_path(work_dir: &str, main_tex: &str) -> (r: String)
    ensures
        r@ == joined_path(work_dir@, stem_of(main_tex@) + ".log"@),
{
    let name = log_file_name(main_tex);
    path_join(work_dir, name.as_str())
}

/// Does the engine's log ask for another pass (unresolved references or
/// changed labels)? Any "rerun", in any case.
pub fn log_requests_rerun(log_text: &str) -> (r: bool)
    ensures
        r == contains_seq(lowercase(log_text@), "rerun"@),
{
    let lower = chars_of(to_lowercase(log_text).as_str());
    let needle = chars_of("rerun");
    contains_chars(&lower, &needle)
}

// ─── Container settings ─────────────────────────────────────────────────

/// The container's bind mount: the project directory as `/work`.
pub fn bind_mount(work_dir: &str) -> (r: String)
    ensures
        r@ == work_dir@ + ":/work"@,
{
    let mut s = String::from_str(work_dir);
    s.append(":/work");
    s
}

pub open spec fn engine_args(engine: Seq<char>, main_tex: Seq<char>) -> Seq<Seq<char>> {
    seq![engine, "-interaction=nonstopmode"@, "-halt-on-error"@, "-no-shell-escape"@, main_tex]
}

/// The engine's command line: non-interactive, stop at the first error, and
/// no shell escape (`\write18` forbidden).
pub fn engine_command(engine: &str, main_tex: &str) -> (r: Vec<String>)
    ensures
        r@.len() == 5,
        forall|i: int| 0 <= i < 5 ==> (#[trigger] r@[i])@ == engine_args(engine@, main_tex@)[i],
{
    let v = vec![
        String::from_str(engine),
        String::from_str("-interaction=nonstopmode"),
        String::from_str("-halt-on-error"),
        String::from_str("-no-shell-escape"),
        String::from_str(main_tex),
    ];
    v
}

/// Everything a compile container is created with.
pub struct ContainerSpec {
    pub image: String,
    pub cmd: Vec<String>,
    pub working_dir: String,
    pub env: Vec<String>,
    pub user: String,
    pub binds: Vec<String>,
    pub network_mode: String,
    pub memory: i64,
    pub memory_swap: i64,
    pub cap_drop: Vec<String>,
    pub readonly_rootfs: bool,
    pub tmpfs: Vec<(String, String)>,
    pub pids_limit: i64,
    pub auto_remove: bool,
}

/// Most processes a compile container may run.
pub const PIDS_LIMIT: i64 = 256;

/// The settings of one compile pass's container.
pub fn container_spec(config: &Config, main_tex: &str, bind: &str, user: &str) -> (c:
    ContainerSpec)
    ensures
        c.image@ == config.texlive_image@,
        c.cmd@.len() == 5,
        forall|i: int| 0 <= i < 5 ==> (#[trigger] c.cmd@[i])@ == engine_args(config.engine@, main_tex@)[i],
        c.working_dir@ == "/work"@,
        c.env@.len() == 2,
        c.env@[0]@ == "HOME=/work"@,
        c.env@[1]@ == "TEXMFVAR=/tmp/texmf"@,
        c.user@ == user@,
        c.binds@.len() == 1,
        c.binds@[0]@ == bind@,
        // No network, no data exfiltration.
        c.network_mode@ == "none"@,
        // A hard memory limit with swap disabled.
        c.memory == config.memory_bytes,
        c.memory_swap == config.memory_bytes,
        // Every Linux capability dropped.
        c.cap_drop@.len() == 1,
        c.cap_drop@[0]@ == "ALL"@,
        // Read-only root filesystem; only /tmp is writable (64 MiB).
        c.readonly_rootfs,
        c.tmpfs@.len() == 1,
        c.tmpfs@[0].0@ == "/tmp"@,
        c.tmpfs@[0].1@ == "rw,size=64m"@,
        c.pids_limit == PIDS_LIMIT,
        !c.auto_remove,
{
    ContainerSpec {
        image: config.texlive_image.clone(),
        cmd: engine_command(config.engine.as_str(), main_tex),
        working_dir: String::from_str("/work"),
        env: vec![String::from_str("HOME=/work"), String::from_str("TEXMFVAR=/tmp/texmf")],
        user: String::from_str(user),
        binds: vec![String::from_str(bind)],
        network_mode: String::from_str("none"),
        memory: config.memory_bytes,
        memory_swap: config.memory_bytes,
        cap_drop: vec![String::from_str("ALL")],
        readonly_rootfs: true,
        tmpfs: vec![(String::from_str("/tmp"), String::from_str("rw,size=64m"))],
        pids_limit: PIDS_LIMIT,
        auto_remove: false,
    }
}

/// How waiting on a container ended.
pub enum WaitOutcome {
    /// The pass's time ran out first (the container is then killed).
    TimedOut,
    /// The wait stream ended without a result.
    Ended,
    /// The container exited with this status code.
    Exited(i64),
    /// The wait reported an error.
    Error,
}

/// A pass succeeds only on exit code 0; running out of time is a timeout.
pub fn wait_status(w: WaitOutcome) -> (s: CompileStatus)
    ensures
        s == match w {
            WaitOutcome::TimedOut => CompileStatus::Timeout,
            WaitOutcome::Exited(code) => if code == 0 {
                CompileStatus::Success
            } else {
                CompileStatus::Failed
            },
            _ => CompileStatus::Failed,
        },
{
    match w {
        WaitOutcome::TimedOut => CompileStatus::Timeout,
        WaitOutcome::Exited(code) => if code == 0 {
            CompileStatus::Success
        } else {
            CompileStatus::Failed
        },
        WaitOutcome::Ended => CompileStatus::Failed,
        WaitOutcome::Error => CompileStatus::Failed,
    }
}

/// The message for a failed container creation: a pull hint when the image
/// is missing (a 404 or "no such image"), else the error itself.
pub open spec fn image_hint_text(image: Seq<char>, msg: Seq<char>) -> Seq<char> {
    if contains_seq(msg, "404"@) || contains_seq(lowercase(msg), "no such image"@) {
        "image \""@ + image + "\" not found — run `docker pull "@ + image + "` first"@
    } else {
        "creating compile container: "@ + msg
    }
}

/// Turn a container creation error (its text) into an actionable hint.
pub fn image_hint(image: &str, msg: &str) -> (r: String)
    ensures
        r@ == image_hint_text(image@, msg@),
{
    let mc = chars_of(msg);
    let lower = chars_of(to_lowercase(msg).as_str());
    if contains_chars(&mc, &chars_of("404")) || contains_chars(&lower, &chars_of("no such image")) {
        let mut s = String::from_str("image \"");
        s.append(image);
        s.append("\" not found — run `docker pull ");
        s.append(image);
        s.append("` first");
        s
    } else {
        let mut s = String::from_str("creating compile container: ");
        s.append(msg);
        s
    }
}

// ─── Log capture ────────────────────────────────────────────────────────

/// Byte length of a text in UTF-8.
pub open spec fn utf8_len(s: Seq<char>) -> nat {
    vstd::utf8::encode_utf8(s).len()
}

/// What is appended to a log cut off at `LOG_LIMIT` bytes.
pub open spec fn truncation_note() -> Seq<char> {
    "\n…(log truncated)…"@
}

/// Append one chunk of compiler output to the log. Once the log is past
/// `LOG_LIMIT` bytes it is closed with a note; returns whether to keep
/// reading.
pub fn append_log_chunk(log: &mut String, chunk: &str) -> (more: bool)
    requires
        utf8_len(old(log)@ + chunk@) <= usize::MAX,
    ensures
        more == (utf8_len(old(log)@ + chunk@) <= LOG_LIMIT),
        more ==> final(log)@ == old(log)@ + chunk@,
        !more ==> final(log)@ == old(log)@ + chunk@ + truncation_note(),
{
    log.append(chunk);
    let n = log.as_str().len();
    if n > LOG_LIMIT {
        log.append("\n…(log truncated)…");
        false
    } else {
        true
    }
}

// ─── The pass loop ──────────────────────────────────────────────────────

/// State of one compile across its passes.
pub struct CompileRun {
    passes: u32,
    status: CompileStatus,
    log: String,
    finished: bool,
}

pub struct CompileRunModel {
    pub passes: int,
    pub status: CompileStatus,
    pub log: Seq<char>,
    pub finished: bool,
}

impl View for CompileRun {
    type V = CompileRunModel;

    closed spec fn view(&self) -> CompileRunModel {
        CompileRunModel {
            passes: self.passes as int,
            status: self.status,
            log: self.log@,
            finished: self.finished,
        }
    }
}

impl CompileRun {
    pub open spec fn wf(&self) -> bool {
        self@.passes <= MAX_PASSES
    }

    /// Before any pass: no log, status `Failed` until a pass says otherwise.
    pub fn new() -> (r: Self)
        ensures
            r.wf(),
            r@ == (CompileRunModel {
                passes: 0,
                status: CompileStatus::Failed,
                log: Seq::empty(),
                finished: false,
            }),
    {
        CompileRun { passes: 0, status: CompileStatus::Failed, log: String::new(), finished: false }
    }

    /// Should another pass run? `out_of_time` says the shared timeout has
    /// elapsed, which ends the compile as a timeout.
    pub fn start_pass(&mut self, out_of_time: bool) -> (run: bool)
        requires
            old(self).wf(),
        ensures
            final(self).wf(),
            final(self)@.passes == old(self)@.passes,
            final(self)@.log == old(self)@.log,
            run == (!old(self)@.finished && old(self)@.passes < MAX_PASSES && !out_of_time),
            run ==> final(self)@ == old(self)@,
            !run ==> final(self)@.finished,
            !run && !old(self)@.finished && old(self)@.passes < MAX_PASSES ==> final(self)@.status == CompileStatus::Timeout,
            !run && (old(self)@.finished || old(self)@.passes >= MAX_PASSES) ==> final(self)@.status == old(self)@.status,
    {
        if self.finished || self.passes >= MAX_PASSES {
            self.finished = true;
            return false;
        }
        if out_of_time {
            self.status = CompileStatus::Timeout;
            self.finished = true;
            return false;
        }
        true
    }

    /// Record a pass's result. Only a successful pass whose log asks for a
    /// rerun leads to another pass.
    pub fn record_pass(&mut self, status: CompileStatus, log: String, rerun_requested: bool)
        requires
            old(self).wf(),
            !old(self)@.finished,
            old(self)@.passes < MAX_PASSES,
        ensures
            final(self).wf(),
            final(self)@ == (CompileRunModel {
                passes: old(self)@.passes + 1,
                status,
                log: log@,
                finished: status != CompileStatus::Success || !rerun_requested,
            }),
    {
        self.passes = self.passes + 1;
        self.status = status;
        self.log = log;
        self.finished = status != CompileStatus::Success || !rerun_requested;
    }

    /// Whether a pass with this status needs the log checked for a rerun.
    pub fn rerun_matters(status: CompileStatus) -> (r: bool)
        ensures
            r == (status == CompileStatus::Success),
    {
        status == CompileStatus::Success
    }

    pub fn status(&self) -> (s: CompileStatus)
        ensures
            s == self@.status,
    {
        self.status
    }

    /// Auxiliary files are removed only after a successful compile, and only
    /// when configured (they are kept on failure for debugging).
    pub fn should_clean(&self, config: &Config) -> (r: bool)
        ensures
            r == (config.clean_artifacts && self@.status == CompileStatus::Success),
    {
        config.clean_artifacts && self.status == CompileStatus::Success
    }

    /// The outcome: the final pass's status and log; the PDF path only on
    /// success and when the file exists.
    pub fn finish(self, pdf: String, pdf_exists: bool, duration_ms: u128) -> (o: CompileOutcome)
        ensures
            o.status == self@.status,
            o.log@ == self@.log,
            o.duration_ms == duration_ms,
            match o.pdf_path {
                Some(p) => self@.status == CompileStatus::Success && pdf_exists && p@ == pdf@,
                None => !(self@.status == CompileStatus::Success && pdf_exists),
            },
    {
        let pdf_path = if self.status == CompileStatus::Success && pdf_exists {
            Some(pdf)
        } else {
            None
        };
        CompileOutcome { status: self.status, log: self.log, pdf_path, duration_ms }
    }
}

/// The pass loop never runs more than `MAX_PASSES` passes: once that many
/// are recorded, no further pass starts.
pub proof fn law_pass_limit(m: CompileRunModel)
    requires
        m.passes >= MAX_PASSES,
    ensures
        !(!m.finished && m.passes < MAX_PASSES),
{
}

} // verus!
