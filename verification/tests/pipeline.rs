use vibra::ast::expansion_state::{generated, step, ExpansionState};
use vibra::ast::surface::{AstId, DocumentId, Origin};
use vibra::compilation_pipeline::{hardening_passes_are_last, CompilationPass, CompilationPipeline};
use vibra::syntax::Span;

#[test]
fn configured_pipeline_keeps_hardening_last() {
    let mut pipeline = CompilationPipeline::new();
    pipeline.run(CompilationPass::Reachability, || {});
    pipeline.run(CompilationPass::WasmEmission, || {});
    pipeline.run(CompilationPass::Hardening, || {});
    assert!(hardening_passes_are_last(pipeline.passes()));
}

#[test]
fn non_hardening_stage_after_hardening_is_rejected() {
    assert!(!hardening_passes_are_last(&[CompilationPass::Hardening, CompilationPass::WasmEmission]));
}

#[test]
fn pipelines_admit_only_hardening_behind_hardening() {
    let mut pipeline = CompilationPipeline::new();
    assert!(pipeline.admits(CompilationPass::WasmEmission));
    pipeline.run(CompilationPass::Hardening, || {});
    assert!(!pipeline.admits(CompilationPass::WasmEmission));
    assert!(pipeline.admits(CompilationPass::Hardening));
    assert_eq!(pipeline.run(CompilationPass::Hardening, || 7), 7);
}

#[test]
fn path_document_ids_are_separator_normalized() {
    assert_eq!(DocumentId::from_path("src\\main.vibra"), DocumentId::from_path("src/main.vibra"));
    assert_ne!(DocumentId::from_path("src/main.vibra"), DocumentId::from_path("src/other.vibra"));
}

#[test]
fn hard_limits_have_stable_diagnostic_codes() {
    let origin = Origin::DocumentSource {
        document: DocumentId::from_raw(3),
        ast_id: AstId::from_raw(4),
        span: Span::new(5, 6),
    };
    let mut state = ExpansionState {
        evaluation_steps: vibra::ast::expansion_state::TYPED_MACRO_MAX_EVALUATION_STEPS,
        ..ExpansionState::new()
    };
    assert_eq!(step(&mut state, &origin).unwrap_err().code, "E-MACRO-008");
    assert_eq!(state.evaluation_steps, vibra::ast::expansion_state::TYPED_MACRO_MAX_EVALUATION_STEPS + 1);
    assert_eq!(state.generated_nodes, 0);
    let mut state = ExpansionState {
        generated_nodes: vibra::ast::expansion_state::TYPED_MACRO_MAX_GENERATED_NODES,
        ..ExpansionState::new()
    };
    assert_eq!(generated(&mut state, &origin).unwrap_err().code, "E-MACRO-009");
}
