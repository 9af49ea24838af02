use vstd::prelude::*;
use vstd::string::StringExecFns;
use crate::text::{
    chars_of, lines_of, words_of, join_chars, vviews, spec_lines, spec_words, spec_join,
    string_from_chars, utf8_len, str_contains, str_ends_with, contains_seq,
    ends_with_seq, copy_range,
};
use crate::chunker::language_from_extension;

verus! {

/// Results returned when the caller names no limit.
pub const DEFAULT_LIMIT: usize = 10;

/// The most results a search returns.
pub const MAX_LIMIT: usize = 50;

/// The number of results a search returns for a requested `limit`: the
/// limit kept between 1 and `MAX_LIMIT`.
pub open spec fn spec_effective_limit(limit: nat) -> nat {
    if limit < 1 {
        1
    } else if limit > MAX_LIMIT {
        MAX_LIMIT as nat
    } else {
        limit
    }
}

/// The number of results returned for a requested `limit`, at least one and
/// at most `MAX_LIMIT`.
pub fn effective_limit(limit: usize) -> (n: usize)
    ensures
        n == spec_effective_limit(limit as nat),
        1 <= n <= MAX_LIMIT,
{
    if limit < 1 {
        1
    } else if limit > MAX_LIMIT {
        MAX_LIMIT
    } else {
        limit
    }
}

/// `s` without `'"'` characters.
pub open spec fn without_quotes(s: Seq<char>) -> Seq<char>
    decreases s.len(),
{
    if s.len() == 0 {
        seq![]
    } else if s.last() == '"' {
        without_quotes(s.drop_last())
    } else {
        without_quotes(s.drop_last()).push(s.last())
    }
}

/// The words of a full-text query, longer than one byte, quoted.
pub open spec fn spec_fts_terms(words: Seq<Seq<char>>) -> Seq<Seq<char>>
    decreases words.len(),
{
    if words.len() == 0 {
        seq![]
    } else {
        let rest = spec_fts_terms(words.drop_last());
        let w = words.last();
        if utf8_len(w) > 1 {
            rest.push(seq!['"'] + without_quotes(w) + seq!['"'])
        } else {
            rest
        }
    }
}

/// The full-text query for a search: each word longer than one byte, with
/// its double quotes removed, in double quotes, joined by ` OR `.
pub open spec fn spec_fts_query(query: Seq<char>) -> Seq<char> {
    spec_join(spec_fts_terms(spec_words(query)), " OR "@)
}

fn quoted_term(w: &Vec<char>) -> (r: Vec<char>)
    ensures
        r@ == seq!['"'] + without_quotes(w@) + seq!['"'],
{
    let mut r: Vec<char> = Vec::new();
    r.push('"');
    let mut i: usize = 0;
    while i < w.len()
        invariant
            i <= w@.len(),
            r@ == seq!['"'] + without_quotes(w@.take(i as int)),
        decreases w@.len() - i,
    {
        let ghost before = r@;
        if w[i] != '"' {
            r.push(w[i]);
        }
        proof {
            assert(w@.take(i as int + 1).drop_last() =~= w@.take(i as int));
            assert(w@.take(i as int + 1).last() == w@[i as int]);
            assert(r@ =~= seq!['"'] + without_quotes(w@.take(i as int + 1)));
        }
        i = i + 1;
    }
    r.push('"');
    proof {
        assert(w@.take(w@.len() as int) =~= w@);
    }
    r
}

/// Byte length of a word.
fn word_bytes(w: &Vec<char>) -> (n: usize)
    ensures
        n == utf8_len(w@),
{
    let s = string_from_chars(w.as_slice());
    crate::text::byte_len(s.as_str())
}

/// The full-text query for a search string.
pub fn fts_query(query: &str) -> (q: String)
    ensures
        q@ == spec_fts_query(query@),
{
    let chars = chars_of(query);
    let words = words_of(chars.as_slice());
    let ghost ws = vviews(words@);
    let mut terms: Vec<Vec<char>> = Vec::new();
    let mut i: usize = 0;
    while i < words.len()
        invariant
            i <= words@.len(),
            ws == vviews(words@),
            vviews(terms@) == spec_fts_terms(ws.take(i as int)),
        decreases words@.len() - i,
    {
        let ghost before = terms@;
        proof {
            assert(ws.take(i as int + 1).drop_last() =~= ws.take(i as int));
            assert(ws.take(i as int + 1).last() == words@[i as int]@);
        }
        if word_bytes(&words[i]) > 1 {
            let t = quoted_term(&words[i]);
            terms.push(t);
            proof {
                assert(vviews(terms@) =~= vviews(before).push(t@));
            }
        }
        i = i + 1;
    }
    proof {
        assert(ws.take(words@.len() as int) =~= ws);
    }
    let sep = chars_of(" OR ");
    let joined = join_chars(&terms, sep.as_slice());
    string_from_chars(joined.as_slice())
}

/// Lines shown of a search hit.
pub const SNIPPET_LINES: usize = 30;

/// A hit's text cut to its first 30 lines, with `\n...` when lines were cut.
pub open spec fn spec_truncate_snippet(text: Seq<char>) -> Seq<char> {
    let lines = spec_lines(text);
    let kept = if lines.len() <= SNIPPET_LINES { lines } else { lines.take(SNIPPET_LINES as int) };
    let joined = spec_join(kept, seq!['\n']);
    if kept.len() < lines.len() { joined + "\n..."@ } else { joined }
}

/// Cuts a hit's text to its first 30 lines, marking the cut with `\n...`.
pub fn truncate_snippet(text: &str) -> (r: String)
    ensures
        r@ == spec_truncate_snippet(text@),
{
    let chars = chars_of(text);
    let lines = lines_of(chars.as_slice());
    let total = lines.len();
    let mut kept: Vec<Vec<char>> = Vec::new();
    let mut i: usize = 0;
    while i < total && i < SNIPPET_LINES
        invariant
            total == lines@.len(),
            i <= total,
            i <= SNIPPET_LINES,
            vviews(kept@) == vviews(lines@).take(i as int),
        decreases total - i,
    {
        let ghost before = kept@;
        let line = copy_range(lines[i].as_slice(), 0, lines[i].len());
        kept.push(line);
        proof {
            assert(lines@[i as int]@.subrange(0, lines@[i as int]@.len() as int) =~= lines@[i as int]@);
            assert(kept@ == before.push(line));
            assert(vviews(kept@) =~= vviews(before).push(line@));
            assert(vviews(lines@)[i as int] == lines@[i as int]@);
            assert(vviews(kept@) =~= vviews(lines@).take(i as int + 1));
        }
        i = i + 1;
    }
    proof {
        if total <= SNIPPET_LINES {
            assert(vviews(lines@).take(total as int) =~= vviews(lines@));
        }
    }
    let mut sep: Vec<char> = Vec::new();
    sep.push('\n');
    proof {
        assert(sep@ =~= seq!['\n']);
    }
    let joined = join_chars(&kept, sep.as_slice());
    let s = string_from_chars(joined.as_slice());
    if kept.len() < total {
        s.concat("\n...")
    } else {
        s
    }
}

/// Whether the indexer skips a project-relative path: hidden files and
/// directories, dependency, build and virtualenv directories, and binary or
/// media files.
pub open spec fn spec_should_skip_path(p: Seq<char>) -> bool {
    (p.len() > 0 && p[0] == '.') || contains_seq(p, "/."@) || contains_seq(p, "node_modules/"@)
        || contains_seq(p, "target/"@) || contains_seq(p, "__pycache__/"@) || contains_seq(p, ".git/"@)
        || contains_seq(p, "vendor/"@) || contains_seq(p, ".venv/"@) || contains_seq(p, "venv/"@)
        || contains_seq(p, ".cargo/"@) || ends_with_seq(p, ".pyc"@) || ends_with_seq(p, ".pyo"@)
        || ends_with_seq(p, ".class"@) || ends_with_seq(p, ".exe"@) || ends_with_seq(p, ".dll"@)
        || ends_with_seq(p, ".so"@) || ends_with_seq(p, ".dylib"@) || ends_with_seq(p, ".wasm"@)
        || ends_with_seq(p, ".png"@) || ends_with_seq(p, ".jpg"@) || ends_with_seq(p, ".jpeg"@)
        || ends_with_seq(p, ".gif"@) || ends_with_seq(p, ".svg"@) || ends_with_seq(p, ".ico"@)
        || ends_with_seq(p, ".woff"@) || ends_with_seq(p, ".woff2"@) || ends_with_seq(p, ".ttf"@)
        || ends_with_seq(p, ".eot"@) || ends_with_seq(p, ".pdf"@) || ends_with_seq(p, ".zip"@)
        || ends_with_seq(p, ".tar.gz"@) || ends_with_seq(p, ".bin"@)
}

/// Whether the indexer skips a project-relative path.
pub fn should_skip_path(path: &str) -> (r: bool)
    ensures
        r == spec_should_skip_path(path@),
{
    let chars = chars_of(path);
    (chars.len() > 0 && chars[0] == '.') || str_contains(path, "/.") || str_contains(path, "node_modules/")
        || str_contains(path, "target/") || str_contains(path, "__pycache__/") || str_contains(path, ".git/")
        || str_contains(path, "vendor/") || str_contains(path, ".venv/") || str_contains(path, "venv/")
        || str_contains(path, ".cargo/") || str_ends_with(path, ".pyc") || str_ends_with(path, ".pyo")
        || str_ends_with(path, ".class") || str_ends_with(path, ".exe") || str_ends_with(path, ".dll")
        || str_ends_with(path, ".so") || str_ends_with(path, ".dylib") || str_ends_with(path, ".wasm")
        || str_ends_with(path, ".png") || str_ends_with(path, ".jpg") || str_ends_with(path, ".jpeg")
        || str_ends_with(path, ".gif") || str_ends_with(path, ".svg") || str_ends_with(path, ".ico")
        || str_ends_with(path, ".woff") || str_ends_with(path, ".woff2") || str_ends_with(path, ".ttf")
        || str_ends_with(path, ".eot") || str_ends_with(path, ".pdf") || str_ends_with(path, ".zip")
        || str_ends_with(path, ".tar.gz") || str_ends_with(path, ".bin")
}

/// Whether a project file is indexed: it is not skipped and its language is
/// known (`relative` is the project-relative path, `absolute` the file's path).
pub fn should_index_file(relative: &str, absolute: &str) -> (r: bool)
    ensures
        r == (!spec_should_skip_path(relative@) && crate::chunker::spec_language_for_extension(
            crate::chunker::path_extension_of(absolute@),
        ) != "text"@),
{
    if should_skip_path(relative) {
        return false;
    }
    let language = language_from_extension(absolute);
    !crate::text::str_eq(language, "text")
}

/// The name of the database domain that holds the index.
pub const RAG_DOMAIN: &'static str = "rag_store";

/// The table of indexed files.
pub const CREATE_FILES_TABLE: &'static str = "CREATE TABLE IF NOT EXISTS files (
        id INTEGER PRIMARY KEY AUTOINCREMENT,
        file_path TEXT NOT NULL UNIQUE,
        file_hash TEXT NOT NULL,
        language TEXT,
        indexed_at TEXT NOT NULL DEFAULT (datetime('now'))
    ) STRICT";

/// The table of chunks and their embeddings.
pub const CREATE_CHUNKS_TABLE: &'static str = "CREATE TABLE IF NOT EXISTS chunks (
        id INTEGER PRIMARY KEY AUTOINCREMENT,
        file_id INTEGER NOT NULL REFERENCES files(id) ON DELETE CASCADE,
        file_path TEXT NOT NULL,
        start_line INTEGER NOT NULL,
        end_line INTEGER NOT NULL,
        chunk_text TEXT NOT NULL,
        embedding BLOB
    ) STRICT";

/// The index of chunks by file.
pub const CREATE_FILE_ID_INDEX: &'static str = "CREATE INDEX IF NOT EXISTS idx_chunks_file_id ON chunks(file_id)";

/// The index of chunks by path.
pub const CREATE_FILE_PATH_INDEX: &'static str = "CREATE INDEX IF NOT EXISTS idx_chunks_file_path ON chunks(file_path)";

/// The full-text index of chunk texts.
pub const CREATE_FTS_TABLE: &'static str = "CREATE VIRTUAL TABLE IF NOT EXISTS chunks_fts USING fts5(
        chunk_text,
        content='chunks',
        content_rowid='id',
        tokenize='unicode61'
    )";

/// Keeps the full-text index in step with inserted chunks.
pub const CREATE_INSERT_TRIGGER: &'static str = "CREATE TRIGGER IF NOT EXISTS chunks_ai AFTER INSERT ON chunks BEGIN
        INSERT INTO chunks_fts(rowid, chunk_text) VALUES (new.id, new.chunk_text);
    END";

/// Keeps the full-text index in step with deleted chunks.
pub const CREATE_DELETE_TRIGGER: &'static str = "CREATE TRIGGER IF NOT EXISTS chunks_ad AFTER DELETE ON chunks BEGIN
        INSERT INTO chunks_fts(chunks_fts, rowid, chunk_text) VALUES('delete', old.id, old.chunk_text);
    END";

/// Keeps the full-text index in step with updated chunks.
pub const CREATE_UPDATE_TRIGGER: &'static str = "CREATE TRIGGER IF NOT EXISTS chunks_au AFTER UPDATE ON chunks BEGIN
        INSERT INTO chunks_fts(chunks_fts, rowid, chunk_text) VALUES('delete', old.id, old.chunk_text);
        INSERT INTO chunks_fts(rowid, chunk_text) VALUES (new.id, new.chunk_text);
    END";

/// The statements that create the index's schema, in order.
pub open spec fn rag_migrations() -> Seq<Seq<char>> {
    seq![
        CREATE_FILES_TABLE@,
        CREATE_CHUNKS_TABLE@,
        CREATE_FILE_ID_INDEX@,
        CREATE_FILE_PATH_INDEX@,
        CREATE_FTS_TABLE@,
        CREATE_INSERT_TRIGGER@,
        CREATE_DELETE_TRIGGER@,
        CREATE_UPDATE_TRIGGER@,
    ]
}

/// The database domain of the index: its name and its migrations.
pub struct RagDomain;

impl RagDomain {
    /// The domain's name.
    pub fn name() -> (r: &'static str)
        ensures
            r@ == RAG_DOMAIN@,
    {
        RAG_DOMAIN
    }

    /// The schema statements, in the order they run.
    pub fn migrations() -> (r: Vec<&'static str>)
        ensures
            r@.len() == 8,
            forall|i: int| 0 <= i < 8 ==> (#[trigger] r@[i])@ == rag_migrations()[i],
    {
        let mut r: Vec<&'static str> = Vec::new();
        r.push(CREATE_FILES_TABLE);
        r.push(CREATE_CHUNKS_TABLE);
        r.push(CREATE_FILE_ID_INDEX);
        r.push(CREATE_FILE_PATH_INDEX);
        r.push(CREATE_FTS_TABLE);
        r.push(CREATE_INSERT_TRIGGER);
        r.push(CREATE_DELETE_TRIGGER);
        r.push(CREATE_UPDATE_TRIGGER);
        r
    }
}


proof fn lemma_contains_middle(a: Seq<char>, t: Seq<char>, b: Seq<char>)
    ensures
        contains_seq(a + t + b, t),
{
    assert((a + t + b).subrange(a.len() as int, (a.len() + t.len()) as int) =~= t);
    assert(crate::text::occurs_at(a + t + b, t, a.len() as int));
}

proof fn lemma_ends_with_suffix(a: Seq<char>, t: Seq<char>)
    ensures
        ends_with_seq(a + t, t),
{
    assert((a + t).subrange(a.len() as int, (a + t).len() as int) =~= t);
}

/// The indexer never indexes hidden files or anything inside a hidden
/// folder, dependency or build folders (`node_modules/`, `target/`,
/// `__pycache__/`, `.git/`, `vendor/`, `.venv/`, `venv/`, `.cargo/`,
/// wherever they occur in the path), nor compiled, binary, image, font or
/// archive files by their suffix, whatever else the path holds.
pub proof fn lemma_skipped_paths(a: Seq<char>, b: Seq<char>)
    ensures
        spec_should_skip_path(seq!['.'] + b),
        spec_should_skip_path(a + "/."@ + b),
        spec_should_skip_path(a + "node_modules/"@ + b),
        spec_should_skip_path(a + "target/"@ + b),
        spec_should_skip_path(a + "__pycache__/"@ + b),
        spec_should_skip_path(a + ".git/"@ + b),
        spec_should_skip_path(a + "vendor/"@ + b),
        spec_should_skip_path(a + ".venv/"@ + b),
        spec_should_skip_path(a + "venv/"@ + b),
        spec_should_skip_path(a + ".cargo/"@ + b),
        spec_should_skip_path(a + ".pyc"@),
        spec_should_skip_path(a + ".pyo"@),
        spec_should_skip_path(a + ".class"@),
        spec_should_skip_path(a + ".exe"@),
        spec_should_skip_path(a + ".dll"@),
        spec_should_skip_path(a + ".so"@),
        spec_should_skip_path(a + ".dylib"@),
        spec_should_skip_path(a + ".wasm"@),
        spec_should_skip_path(a + ".png"@),
        spec_should_skip_path(a + ".jpg"@),
        spec_should_skip_path(a + ".jpeg"@),
        spec_should_skip_path(a + ".gif"@),
        spec_should_skip_path(a + ".svg"@),
        spec_should_skip_path(a + ".ico"@),
        spec_should_skip_path(a + ".woff"@),
        spec_should_skip_path(a + ".woff2"@),
        spec_should_skip_path(a + ".ttf"@),
        spec_should_skip_path(a + ".eot"@),
        spec_should_skip_path(a + ".pdf"@),
        spec_should_skip_path(a + ".zip"@),
        spec_should_skip_path(a + ".tar.gz"@),
        spec_should_skip_path(a + ".bin"@),
{
    lemma_contains_middle(a, "/."@, b);
    lemma_contains_middle(a, "node_modules/"@, b);
    lemma_contains_middle(a, "target/"@, b);
    lemma_contains_middle(a, "__pycache__/"@, b);
    lemma_contains_middle(a, ".git/"@, b);
    lemma_contains_middle(a, "vendor/"@, b);
    lemma_contains_middle(a, ".venv/"@, b);
    lemma_contains_middle(a, "venv/"@, b);
    lemma_contains_middle(a, ".cargo/"@, b);
    lemma_ends_with_suffix(a, ".pyc"@);
    lemma_ends_with_suffix(a, ".pyo"@);
    lemma_ends_with_suffix(a, ".class"@);
    lemma_ends_with_suffix(a, ".exe"@);
    lemma_ends_with_suffix(a, ".dll"@);
    lemma_ends_with_suffix(a, ".so"@);
    lemma_ends_with_suffix(a, ".dylib"@);
    lemma_ends_with_suffix(a, ".wasm"@);
    lemma_ends_with_suffix(a, ".png"@);
    lemma_ends_with_suffix(a, ".jpg"@);
    lemma_ends_with_suffix(a, ".jpeg"@);
    lemma_ends_with_suffix(a, ".gif"@);
    lemma_ends_with_suffix(a, ".svg"@);
    lemma_ends_with_suffix(a, ".ico"@);
    lemma_ends_with_suffix(a, ".woff"@);
    lemma_ends_with_suffix(a, ".woff2"@);
    lemma_ends_with_suffix(a, ".ttf"@);
    lemma_ends_with_suffix(a, ".eot"@);
    lemma_ends_with_suffix(a, ".pdf"@);
    lemma_ends_with_suffix(a, ".zip"@);
    lemma_ends_with_suffix(a, ".tar.gz"@);
    lemma_ends_with_suffix(a, ".bin"@);
    assert((seq!['.'] + b)[0] == '.');
}


/// Nothing else is skipped: a path is skipped exactly when it is hidden,
/// lies in a hidden, dependency or build folder, or has a compiled,
/// binary, image, font or archive suffix; so ordinary sources such as
/// `src/main.rs` are indexed when their language is known.
pub proof fn lemma_skip_rules_exact(p: Seq<char>)
    ensures
        !spec_should_skip_path(p) <==> {
            &&& !(p.len() > 0 && p[0] == '.')
            &&& !contains_seq(p, "/."@)
            &&& !contains_seq(p, "node_modules/"@)
            &&& !contains_seq(p, "target/"@)
            &&& !contains_seq(p, "__pycache__/"@)
            &&& !contains_seq(p, ".git/"@)
            &&& !contains_seq(p, "vendor/"@)
            &&& !contains_seq(p, ".venv/"@)
            &&& !contains_seq(p, "venv/"@)
            &&& !contains_seq(p, ".cargo/"@)
            &&& !ends_with_seq(p, ".pyc"@)
            &&& !ends_with_seq(p, ".pyo"@)
            &&& !ends_with_seq(p, ".class"@)
            &&& !ends_with_seq(p, ".exe"@)
            &&& !ends_with_seq(p, ".dll"@)
            &&& !ends_with_seq(p, ".so"@)
            &&& !ends_with_seq(p, ".dylib"@)
            &&& !ends_with_seq(p, ".wasm"@)
            &&& !ends_with_seq(p, ".png"@)
            &&& !ends_with_seq(p, ".jpg"@)
            &&& !ends_with_seq(p, ".jpeg"@)
            &&& !ends_with_seq(p, ".gif"@)
            &&& !ends_with_seq(p, ".svg"@)
            &&& !ends_with_seq(p, ".ico"@)
            &&& !ends_with_seq(p, ".woff"@)
            &&& !ends_with_seq(p, ".woff2"@)
            &&& !ends_with_seq(p, ".ttf"@)
            &&& !ends_with_seq(p, ".eot"@)
            &&& !ends_with_seq(p, ".pdf"@)
            &&& !ends_with_seq(p, ".zip"@)
            &&& !ends_with_seq(p, ".tar.gz"@)
            &&& !ends_with_seq(p, ".bin"@)
        },
{
}

} // verus!
