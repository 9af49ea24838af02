use std::hash::{Hash, Hasher};
use tau_agent::chunker::{chunk_code, chunk_file, compute_file_hash, language_from_extension};
use tau_agent::embedding::{bearer_authorization, embed_request_uri, Embedder, EmbeddingProvider};
use tau_agent::rag_search::{effective_limit, fts_query, should_index_file, should_skip_path, truncate_snippet};
use tau_agent::search_semantic::{
    default_limit, matches_title, no_matches_output, results_header, SearchSemanticToolOutput,
};

#[test]
fn languages_by_extension() {
    assert_eq!(language_from_extension("src/main.rs"), "rust");
    assert_eq!(language_from_extension("a/b/c.tsx"), "typescript");
    assert_eq!(language_from_extension("script.R"), "r");
    assert_eq!(language_from_extension("Makefile"), "text");
    assert_eq!(language_from_extension("notes.md"), "markdown");
}

#[test]
fn short_files_are_one_chunk() {
    assert!(chunk_code("", "rust").is_empty());
    let content = "fn a() {}\n\nfn b() {}\n";
    assert_eq!(chunk_code(content, "rust"), vec![(0, 3, content.to_string())]);
}

#[test]
fn long_files_split_after_blank_lines() {
    let mut lines: Vec<String> = (0..400).map(|i| format!("let x{i} = {i};")).collect();
    lines[80] = String::new();
    let content = lines.join("\n");
    let chunks = chunk_code(&content, "rust");
    assert_eq!(chunks.len(), 3);
    assert_eq!((chunks[0].0, chunks[0].1), (0, 81));
    assert_eq!((chunks[1].0, chunks[1].1), (81, 181));
    assert_eq!((chunks[2].0, chunks[2].1), (181, 400));
    assert_eq!(chunks[0].2, lines[0..81].join("\n"));
    assert_eq!(chunks[1].2, lines[81..181].join("\n"));
}

#[test]
fn long_files_split_at_definitions() {
    let mut lines: Vec<String> = (0..350).map(|i| format!("    x{i}();")).collect();
    lines[200] = "pub fn later() {".to_string();
    let content = lines.join("\n");
    let chunks = chunk_code(&content, "rust");
    assert_eq!((chunks[0].0, chunks[0].1), (0, 200));
    assert_eq!((chunks[1].0, chunks[1].1), (200, 350));
}

#[test]
fn chunk_file_names_language() {
    let chunks = chunk_file("lib/app.py", "def f():\n    pass\n");
    assert_eq!(chunks.len(), 1);
    assert_eq!(chunks[0].language, "python");
    assert_eq!(chunks[0].file_path, "lib/app.py");
    assert_eq!((chunks[0].start_line, chunks[0].end_line), (0, 2));
}

#[test]
fn file_hash_is_default_hasher_hex() {
    let mut hasher = std::collections::hash_map::DefaultHasher::new();
    "some content".hash(&mut hasher);
    assert_eq!(compute_file_hash("some content"), format!("{:x}", hasher.finish()));
    assert_ne!(compute_file_hash("a"), compute_file_hash("b"));
}

#[test]
fn embedding_dimensions() {
    assert_eq!(Embedder::new(EmbeddingProvider::default()).embedding_dimension(), 768);
    let minilm = EmbeddingProvider::Ollama { base_url: "http://h".into(), model: "all-minilm".into() };
    assert_eq!(Embedder::new(minilm).embedding_dimension(), 384);
    let large = EmbeddingProvider::OpenAI { base_url: "u".into(), api_key: "k".into(), model: "text-embedding-3-large".into() };
    assert_eq!(Embedder::new(large).embedding_dimension(), 3072);
    let other = EmbeddingProvider::OpenAI { base_url: "u".into(), api_key: "k".into(), model: "custom".into() };
    assert_eq!(Embedder::new(other).embedding_dimension(), 1536);
    assert_eq!(EmbeddingProvider::default().to_display_string(), "Ollama(nomic-embed-text)");
}

#[test]
fn embedding_requests() {
    let p = EmbeddingProvider::Ollama { base_url: "http://localhost:11434//".into(), model: "m".into() };
    assert_eq!(embed_request_uri(&p), "http://localhost:11434/api/embed");
    let o = EmbeddingProvider::OpenAI { base_url: "https://api.openai.com/v1".into(), api_key: "k".into(), model: "m".into() };
    assert_eq!(embed_request_uri(&o), "https://api.openai.com/v1/embeddings");
    assert_eq!(bearer_authorization("  sk-123 "), "Bearer sk-123");
}

#[test]
fn search_limits() {
    assert_eq!(effective_limit(0), 1);
    assert_eq!(effective_limit(3), 3);
    assert_eq!(effective_limit(25), 25);
    assert_eq!(effective_limit(500), 50);
    assert_eq!(default_limit(), 10);
}

#[test]
fn fts_queries() {
    assert_eq!(fts_query("user \"auth\" a flow"), "\"user\" OR \"auth\" OR \"flow\"");
    assert_eq!(fts_query("a b"), "");
}

#[test]
fn snippets() {
    let long: Vec<String> = (0..40).map(|i| i.to_string()).collect();
    let text = long.join("\n");
    let expected = format!("{}\n...", long[..30].join("\n"));
    assert_eq!(truncate_snippet(&text), expected);
    assert_eq!(truncate_snippet("a\nb"), "a\nb");
}

#[test]
fn skipped_paths() {
    assert!(should_skip_path(".env"));
    assert!(should_skip_path("web/node_modules/x.js"));
    assert!(should_skip_path("img/logo.png"));
    assert!(!should_skip_path("src/main.rs"));
    assert!(should_index_file("src/main.rs", "/p/src/main.rs"));
    assert!(!should_index_file("README", "/p/README"));
    assert!(!should_index_file("target/x.rs", "/p/target/x.rs"));
}

#[test]
fn semantic_search_texts() {
    assert_eq!(results_header(2, "auth flow"), "Found 2 relevant result(s) for \"auth flow\":\n\n");
    assert_eq!(matches_title(0), "Found 0 semantic matches");
    match no_matches_output() {
        SearchSemanticToolOutput::Success(s) => {
            assert_eq!(s, "No matching code found. Try a different query or use `grep` for exact pattern matching.")
        }
        _ => panic!("expected success"),
    }
}

#[test]
fn file_hash_is_short_lowercase_hex() {
    for text in ["", "a", "some content", "fn main() {}\n"] {
        let h = compute_file_hash(text);
        assert!(!h.is_empty() && h.len() <= 16);
        assert!(h.chars().all(|c| c.is_ascii_digit() || ('a'..='f').contains(&c)));
    }
}

#[test]
fn chunk_split_looks_back_from_the_ideal_end() {
    let content = format!("{}\n{}", "x\n".repeat(150), "x\n".repeat(200));
    let chunks = chunk_code(&content, "rust");
    let bounds: Vec<(usize, usize)> = chunks.iter().map(|c| (c.0, c.1)).collect();
    assert_eq!(bounds, vec![(0, 100), (100, 351)]);

    let content = format!("{}\n{}", "x\n".repeat(60), "x\n".repeat(300));
    let bounds: Vec<(usize, usize)> = chunk_code(&content, "rust").iter().map(|c| (c.0, c.1)).collect();
    assert_eq!(bounds[0], (0, 61));
}
