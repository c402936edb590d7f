use home_automation_rs::brain::{
    codebook_source, layer_codebook_names, select_tier, BrainTier, CascadeStatus, CodebookLoader,
    CodebookSource,
};

#[test]
fn test_pi_always_available() {
    assert!(!BrainTier::PiCodebook.requires_network());
    assert!(BrainTier::GrokApi.requires_network());
}

#[test]
fn test_default_cascade_uses_pi() {
    let status = CascadeStatus::default();
    assert_eq!(select_tier(&status), BrainTier::PiCodebook);
}

#[test]
fn test_cascade_prefers_pc() {
    let status = CascadeStatus { pc_available: true, ..Default::default() };
    assert_eq!(select_tier(&status), BrainTier::LocalPc);
}

#[test]
fn cascade_order_after_pc() {
    let railway = CascadeStatus { railway_available: true, grok_available: true, ..Default::default() };
    assert_eq!(select_tier(&railway), BrainTier::Railway);
    let grok = CascadeStatus { grok_available: true, ..Default::default() };
    assert_eq!(select_tier(&grok), BrainTier::GrokApi);
}

#[test]
fn tier_speeds_and_network() {
    assert_eq!(BrainTier::PiCodebook.estimated_tok_per_sec(), 2_000);
    assert_eq!(BrainTier::LocalPc.estimated_tok_per_sec(), 30_000);
    assert_eq!(BrainTier::Railway.estimated_tok_per_sec(), 50_000);
    assert_eq!(BrainTier::GrokApi.estimated_tok_per_sec(), 100_000);
    assert!(!BrainTier::LocalPc.requires_network());
    assert!(BrainTier::Railway.requires_network());
}

#[test]
fn codebook_paths() {
    let pi = CodebookLoader::pi_default();
    assert_eq!(pi.codebook_path("layer0_q"), "/opt/pi-audio/codebook/layer0_q.bgz");
    assert_eq!(CodebookLoader::new("books/").codebook_path("x"), "books/x.bgz");
    assert_eq!(CodebookLoader::new("").codebook_path("x"), "x.bgz");
    assert_eq!(CodebookLoader::new("books").codebook_path("/abs/x"), "/abs/x.bgz");
}

#[test]
fn codebook_sources() {
    assert_eq!(codebook_source(false, 1 << 20, 64), CodebookSource::Dummy);
    assert_eq!(codebook_source(true, 65_535, 64), CodebookSource::Dummy);
    assert_eq!(codebook_source(true, 65_536, 64), CodebookSource::Raw { bytes: 65_536 });
    assert_eq!(codebook_source(true, 70_000, 64), CodebookSource::Raw { bytes: 65_536 });
}

#[test]
fn layer_names() {
    assert_eq!(
        layer_codebook_names(12),
        vec!["layer12_q", "layer12_k", "layer12_v", "layer12_gate", "layer12_up", "layer12_down"]
    );
}
