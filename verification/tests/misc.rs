use arags::embedder::{embedder_backend, embedder_dimension, EmbedderBackend};
use arags::timing::Timer;

#[test]
fn embedder_selection() {
    assert_eq!(embedder_dimension(), 384);
    assert_eq!(embedder_backend(None, true), EmbedderBackend::Minilm);
    assert_eq!(embedder_backend(None, false), EmbedderBackend::Hash);
    assert_eq!(embedder_backend(Some("ollama"), false), EmbedderBackend::Ollama);
    assert_eq!(embedder_backend(Some("minilm"), false), EmbedderBackend::Hash);
    assert_eq!(embedder_backend(Some("minilm"), true), EmbedderBackend::Minilm);
    assert_eq!(embedder_backend(Some("lightweight"), true), EmbedderBackend::Lightweight);
    assert_eq!(embedder_backend(Some("fallback"), true), EmbedderBackend::Hash);
}

#[test]
fn timer_measures_monotonic_elapsed_time() {
    let t = Timer::new("phase");
    assert_eq!(t.label(), "phase");
    let ms = t.elapsed_ms();
    let us = t.elapsed_us();
    assert!(us >= ms * 1000);
    assert!(t.elapsed().as_nanos() >= us * 1000);
}
