use canopy::compile::{
    append_log_chunk, artifacts_to_remove, bind_mount, container_spec, engine_command, image_hint, is_aux_artifact,
    log_path, log_requests_rerun, pdf_file_name, pdf_path, tex_stem, wait_status, CompileRun,
    CompileStatus, WaitOutcome, LOG_LIMIT, MAX_PASSES,
};
use canopy::config::Config;

fn config(clean: bool) -> Config {
    Config::from_cli(
        "texlive/texlive:latest".to_string(),
        "pdflatex".to_string(),
        40,
        512 * 1024 * 1024,
        "gemma4:12b-it-qat".to_string(),
        "http://127.0.0.1:11434".to_string(),
        clean,
    )
}

#[test]
fn aux_files_are_artifacts_sources_are_not() {
    for keep in ["main.tex", "main.pdf", "refs.bib", "fig.png", "style.sty", "main.xmpdata"] {
        assert!(!is_aux_artifact(keep), "{keep}");
    }
    for junk in [
        "main.aux",
        "main.log",
        "main.out",
        "main.toc",
        "main.synctex.gz",
        "main.run.xml",
        "main.fdb_latexmk",
        "main.abs",
        "MAIN.AUX",
    ] {
        assert!(is_aux_artifact(junk), "{junk}");
    }
}

#[test]
fn stem_and_output_names() {
    assert_eq!(tex_stem("main.tex"), "main");
    assert_eq!(tex_stem("my.paper.tex"), "my.paper");
    assert_eq!(tex_stem("README"), "README");
    assert_eq!(pdf_file_name("thesis.tex"), "thesis.pdf");
    assert_eq!(pdf_path("/w", "a.tex"), "/w/a.pdf");
    assert_eq!(log_path("/w", "a.tex"), "/w/a.log");
}

#[test]
fn rerun_requests_in_any_case() {
    assert!(log_requests_rerun("LaTeX Warning: Label(s) may have changed. Rerun to get cross-references right."));
    assert!(log_requests_rerun("please RERUN"));
    assert!(!log_requests_rerun("Output written on main.pdf"));
}

#[test]
fn sandbox_settings() {
    let c = config(true);
    let spec = container_spec(&c, "main.tex", &bind_mount("/home/u/p"), "1000:1000");
    assert_eq!(spec.network_mode, "none");
    assert_eq!(spec.memory, 512 * 1024 * 1024);
    assert_eq!(spec.memory_swap, spec.memory);
    assert_eq!(spec.cap_drop, vec!["ALL".to_string()]);
    assert!(spec.readonly_rootfs);
    assert_eq!(spec.pids_limit, 256);
    assert_eq!(spec.binds, vec!["/home/u/p:/work".to_string()]);
    assert_eq!(spec.user, "1000:1000");
    assert_eq!(spec.working_dir, "/work");
    assert_eq!(spec.image, "texlive/texlive:latest");
    assert_eq!(
        spec.cmd,
        engine_command("pdflatex", "main.tex"),
    );
    assert!(spec.cmd.contains(&"-no-shell-escape".to_string()));
    assert_eq!(spec.tmpfs, vec![("/tmp".to_string(), "rw,size=64m".to_string())]);
}

#[test]
fn exit_codes_map_to_status() {
    assert_eq!(wait_status(WaitOutcome::Exited(0)), CompileStatus::Success);
    assert_eq!(wait_status(WaitOutcome::Exited(1)), CompileStatus::Failed);
    assert_eq!(wait_status(WaitOutcome::TimedOut), CompileStatus::Timeout);
    assert_eq!(wait_status(WaitOutcome::Ended), CompileStatus::Failed);
    assert_eq!(wait_status(WaitOutcome::Error), CompileStatus::Failed);
}

#[test]
fn image_hints() {
    assert_eq!(
        image_hint("tl", "Docker responded with status code 404: No such image: tl"),
        "image \"tl\" not found — run `docker pull tl` first"
    );
    assert_eq!(
        image_hint("tl", "no Such Image"),
        "image \"tl\" not found — run `docker pull tl` first"
    );
    assert_eq!(image_hint("tl", "boom"), "creating compile container: boom");
}

#[test]
fn log_is_cut_off() {
    let mut log = String::new();
    assert!(append_log_chunk(&mut log, "hello "));
    let big = "x".repeat(LOG_LIMIT);
    assert!(!append_log_chunk(&mut log, &big));
    assert!(log.ends_with("\n…(log truncated)…"));
    assert!(log.starts_with("hello x"));
}

#[test]
fn passes_rerun_until_stable_or_limit() {
    // Reruns requested forever: stops after MAX_PASSES.
    let mut run = CompileRun::new();
    let mut passes = 0;
    while run.start_pass(false) {
        passes += 1;
        run.record_pass(CompileStatus::Success, format!("pass {passes}"), true);
    }
    assert_eq!(passes, MAX_PASSES);
    let out = run.finish("/w/a.pdf".to_string(), true, 7);
    assert_eq!(out.status, CompileStatus::Success);
    assert_eq!(out.log, "pass 4");
    assert_eq!(out.pdf_path.as_deref(), Some("/w/a.pdf"));
    assert_eq!(out.duration_ms, 7);

    // A failed pass stops at once; no PDF.
    let mut run = CompileRun::new();
    assert!(run.start_pass(false));
    run.record_pass(CompileStatus::Failed, "err".to_string(), true);
    assert!(!run.start_pass(false));
    assert!(!run.should_clean(&config(true)));
    let out = run.finish("/w/a.pdf".to_string(), true, 1);
    assert_eq!(out.status, CompileStatus::Failed);
    assert_eq!(out.pdf_path, None);

    // Running out of time before a pass is a timeout.
    let mut run = CompileRun::new();
    assert!(run.start_pass(false));
    run.record_pass(CompileStatus::Success, "ok".to_string(), true);
    assert!(!run.start_pass(true));
    assert_eq!(run.status(), CompileStatus::Timeout);

    // A clean success is kept and cleaned when configured.
    let mut run = CompileRun::new();
    assert!(run.start_pass(false));
    run.record_pass(CompileStatus::Success, "ok".to_string(), false);
    assert!(!run.start_pass(false));
    assert!(run.should_clean(&config(true)));
    assert!(!run.should_clean(&config(false)));
    assert_eq!(run.finish("/w/a.pdf".to_string(), false, 0).pdf_path, None);
}

#[test]
fn config_from_cli_fields() {
    let c = Config::from_cli(
        "texlive/texlive:latest".to_string(),
        "xelatex".to_string(),
        40,
        512 * 1024 * 1024,
        "gemma4:12b-it-qat".to_string(),
        "http://127.0.0.1:11434".to_string(),
        false,
    );
    assert_eq!(c.timeout, std::time::Duration::from_secs(40));
    assert_eq!(c.engine, "xelatex");
    assert_eq!(c.memory_bytes, 536870912);
    assert!(!c.clean_artifacts);
    let d = c.clone();
    assert_eq!(d.timeout, c.timeout);
}

#[test]
fn cleans_aux_keeps_sources_and_pdf() {
    // The project directory's listing: (name, is a regular file).
    let mut items: Vec<(String, bool)> = Vec::new();
    // Sources + output to keep (note: .xmpdata is a pdfx source file).
    for keep in ["main.tex", "main.pdf", "refs.bib", "fig.png", "style.sty", "main.xmpdata"] {
        items.push((keep.to_string(), true));
    }
    // Artifacts to remove (including .abs and compound suffixes).
    for junk in [
        "main.aux",
        "main.log",
        "main.out",
        "main.toc",
        "main.synctex.gz",
        "main.run.xml",
        "main.fdb_latexmk",
        "main.abs",
    ] {
        items.push((junk.to_string(), true));
    }

    let removed = artifacts_to_remove(&items);
    assert_eq!(removed.len(), 8);

    let remaining: Vec<String> = (0..items.len())
        .filter(|i| !removed.contains(i))
        .map(|i| items[i].0.clone())
        .collect();
    assert!(remaining.contains(&"main.tex".to_string()));
    assert!(remaining.contains(&"main.pdf".to_string()));
    assert!(remaining.contains(&"refs.bib".to_string()));
    assert!(remaining.contains(&"main.xmpdata".to_string())); // source, kept
    assert!(!remaining.iter().any(|n| n.ends_with(".abs")));
    assert!(!remaining.iter().any(|n| n.ends_with(".aux")));
    assert!(!remaining.iter().any(|n| n.ends_with(".synctex.gz")));
    assert_eq!(remaining.len(), 6);
}

#[test]
fn cleanup_keeps_directories() {
    let items = vec![
        ("build.aux".to_string(), false),
        ("main.aux".to_string(), true),
        ("main.tex".to_string(), true),
        ("MAIN.LOG".to_string(), true),
    ];
    assert_eq!(artifacts_to_remove(&items), vec![1, 3]);
}

#[test]
fn absolute_main_file_replaces_work_dir() {
    assert_eq!(pdf_path("/w", "/abs/main.tex"), "/abs/main.pdf");
    assert_eq!(log_path("/w", "main.tex"), "/w/main.log");
}
