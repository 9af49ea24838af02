use vstd::prelude::*;
use vstd::string::{StringExecFns, StringSliceAdditionalSpecFns};
use vstd::std_specs::hash::DefaultHasherAdditionalSpecFns;
use std::collections::hash_map::DefaultHasher;
use std::hash::Hasher;
use crate::text::{
    chars_of, lines_of, vviews, spec_lines, str_eq, spec_trim, is_blank, all_whitespace, trim_chars,
    starts_with_chars, string_from_chars, hex_lower, spec_hex, copy_range,
};

verus! {

/// A piece of a source file, by line range.
pub struct Chunk {
    pub file_path: String,
    pub start_line: usize,
    pub end_line: usize,
    pub text: String,
    pub language: String,
}

/// Chunks are this many lines when no better boundary is found.
pub const DEFAULT_CHUNK_SIZE: usize = 100;
/// A chunk is never cut shorter than this many lines.
pub const MIN_CHUNK_SIZE: usize = 20;
/// A chunk never holds more than this many lines.
pub const MAX_CHUNK_SIZE: usize = 300;

/// The language a file extension stands for; `"text"` when unknown.
pub open spec fn spec_language_for_extension(ext: Option<Seq<char>>) -> Seq<char> {
    match ext {
        None => "text"@,
        Some(e) => {
            if e == "rs"@ || e == "rsx"@ {
                "rust"@
            } else if e == "py"@ {
                "python"@
            } else if e == "js"@ || e == "ts"@ || e == "jsx"@ || e == "tsx"@ || e == "mjs"@ || e
                == "vue"@ {
                "typescript"@
            } else if e == "go"@ {
                "go"@
            } else if e == "java"@ {
                "java"@
            } else if e == "c"@ || e == "h"@ {
                "c"@
            } else if e == "cpp"@ || e == "hpp"@ || e == "cc"@ || e == "cxx"@ {
                "cpp"@
            } else if e == "rb"@ {
                "ruby"@
            } else if e == "php"@ {
                "php"@
            } else if e == "swift"@ {
                "swift"@
            } else if e == "kt"@ || e == "kts"@ {
                "kotlin"@
            } else if e == "cs"@ {
                "csharp"@
            } else if e == "sh"@ || e == "bash"@ || e == "zsh"@ {
                "bash"@
            } else if e == "sql"@ {
                "sql"@
            } else if e == "html"@ || e == "htm"@ {
                "html"@
            } else if e == "css"@ || e == "scss"@ || e == "less"@ {
                "css"@
            } else if e == "json"@ {
                "json"@
            } else if e == "yaml"@ || e == "yml"@ {
                "yaml"@
            } else if e == "toml"@ {
                "toml"@
            } else if e == "md"@ || e == "mdx"@ {
                "markdown"@
            } else if e == "r"@ || e == "R"@ {
                "r"@
            } else if e == "dart"@ {
                "dart"@
            } else if e == "lua"@ {
                "lua"@
            } else if e == "ex"@ || e == "exs"@ {
                "elixir"@
            } else if e == "hs"@ {
                "haskell"@
            } else if e == "scala"@ || e == "sc"@ {
                "scala"@
            } else {
                "text"@
            }
        },
    }
}

/// The language a file extension stands for; `"text"` when unknown.
pub fn language_for_extension(ext: Option<&str>) -> (lang: &'static str)
    ensures
        lang@ == spec_language_for_extension(
            match ext {
                Some(e) => Some(e@),
                None => None,
            },
        ),
{
    let e = match ext {
        None => return "text",
        Some(e) => e,
    };
    if str_eq(e, "rs") || str_eq(e, "rsx") {
        "rust"
    } else if str_eq(e, "py") {
        "python"
    } else if str_eq(e, "js") || str_eq(e, "ts") || str_eq(e, "jsx") || str_eq(e, "tsx") || str_eq(
        e,
        "mjs",
    ) || str_eq(e, "vue") {
        "typescript"
    } else if str_eq(e, "go") {
        "go"
    } else if str_eq(e, "java") {
        "java"
    } else if str_eq(e, "c") || str_eq(e, "h") {
        "c"
    } else if str_eq(e, "cpp") || str_eq(e, "hpp") || str_eq(e, "cc") || str_eq(e, "cxx") {
        "cpp"
    } else if str_eq(e, "rb") {
        "ruby"
    } else if str_eq(e, "php") {
        "php"
    } else if str_eq(e, "swift") {
        "swift"
    } else if str_eq(e, "kt") || str_eq(e, "kts") {
        "kotlin"
    } else if str_eq(e, "cs") {
        "csharp"
    } else if str_eq(e, "sh") || str_eq(e, "bash") || str_eq(e, "zsh") {
        "bash"
    } else if str_eq(e, "sql") {
        "sql"
    } else if str_eq(e, "html") || str_eq(e, "htm") {
        "html"
    } else if str_eq(e, "css") || str_eq(e, "scss") || str_eq(e, "less") {
        "css"
    } else if str_eq(e, "json") {
        "json"
    } else if str_eq(e, "yaml") || str_eq(e, "yml") {
        "yaml"
    } else if str_eq(e, "toml") {
        "toml"
    } else if str_eq(e, "md") || str_eq(e, "mdx") {
        "markdown"
    } else if str_eq(e, "r") || str_eq(e, "R") {
        "r"
    } else if str_eq(e, "dart") {
        "dart"
    } else if str_eq(e, "lua") {
        "lua"
    } else if str_eq(e, "ex") || str_eq(e, "exs") {
        "elixir"
    } else if str_eq(e, "hs") {
        "haskell"
    } else if str_eq(e, "scala") || str_eq(e, "sc") {
        "scala"
    } else {
        "text"
    }
}

/// The position of the last `c` in `s`.
pub open spec fn last_index_of(s: Seq<char>, c: char) -> Option<int>
    decreases s.len(),
{
    if s.len() == 0 {
        None
    } else if s.last() == c {
        Some(s.len() - 1)
    } else {
        last_index_of(s.drop_last(), c)
    }
}

pub proof fn lemma_last_index_of(s: Seq<char>, c: char)
    ensures
        last_index_of(s, c) matches Some(k) ==> 0 <= k < s.len() && s[k] == c,
        last_index_of(s, c) is None ==> forall|i: int| 0 <= i < s.len() ==> s[i] != c,
    decreases s.len(),
{
    if s.len() > 0 {
        lemma_last_index_of(s.drop_last(), c);
        if last_index_of(s, c) is None {
            assert forall|i: int| 0 <= i < s.len() implies s[i] != c by {
                if i < s.len() - 1 {
                    assert(s[i] == s.drop_last()[i]);
                }
            }
        }
    }
}

/// The last component of a path that names a file or folder: the last piece
/// between `/`s that is neither empty nor `.` (none when there is no such
/// piece).
pub open spec fn last_named_piece(p: Seq<char>) -> Option<Seq<char>>
    decreases p.len(),
{
    match last_index_of(p, '/') {
        None => if p.len() == 0 || p == seq!['.'] {
            None
        } else {
            Some(p)
        },
        Some(k) => {
            proof {
                lemma_last_index_of(p, '/');
            }
            let piece = p.skip(k + 1);
            if piece.len() == 0 || piece == seq!['.'] {
                last_named_piece(p.take(k))
            } else {
                Some(piece)
            }
        },
    }
}

/// What `std::path::Path::extension` gives for a Unix path: the part of its
/// file name (its last component, unless that is `..`) after the last `.`,
/// provided that the dot is not the name's first character.
pub open spec fn path_extension_of(path: Seq<char>) -> Option<Seq<char>> {
    match last_named_piece(path) {
        None => None,
        Some(name) => if name == seq!['.', '.'] {
            None
        } else {
            match last_index_of(name, '.') {
                None => None,
                Some(k) => if k == 0 {
                    None
                } else {
                    Some(name.skip(k + 1))
                },
            }
        },
    }
}

/// The position of the last `c` among the first `end` characters of `s`.
fn last_index_in(s: &[char], end: usize, c: char) -> (r: Option<usize>)
    requires
        end <= s@.len(),
    ensures
        match r {
            Some(k) => last_index_of(s@.take(end as int), c) == Some(k as int),
            None => last_index_of(s@.take(end as int), c) is None,
        },
{
    let mut i: usize = end;
    while i > 0
        invariant
            i <= end <= s@.len(),
            last_index_of(s@.take(end as int), c) == last_index_of(s@.take(i as int), c),
        decreases i,
    {
        proof {
            assert(s@.take(i as int).drop_last() =~= s@.take(i - 1));
        }
        if s[i - 1] == c {
            return Some(i - 1);
        }
        i = i - 1;
    }
    None
}

/// The last component of a path that names something, computed.
fn last_named_piece_of(chars: &Vec<char>) -> (r: Option<Vec<char>>)
    ensures
        match r {
            Some(n) => last_named_piece(chars@) == Some(n@),
            None => last_named_piece(chars@) is None,
        },
{
    let ghost p = chars@;
    let mut end: usize = chars.len();
    assert(p.take(end as int) =~= p);
    loop
        invariant
            end <= chars@.len(),
            p == chars@,
            last_named_piece(p) == last_named_piece(p.take(end as int)),
        decreases end,
    {
        let ghost q = p.take(end as int);
        match last_index_in(chars.as_slice(), end, '/') {
            None => {
                if end == 0 || (end == 1 && chars[0] == '.') {
                    proof {
                        if end == 1 {
                            assert(q =~= seq!['.']);
                        }
                    }
                    return None;
                }
                let piece = copy_range(chars.as_slice(), 0, end);
                proof {
                    assert(piece@ =~= q);
                    if q == seq!['.'] {
                        assert(q[0] == '.');
                    }
                }
                return Some(piece);
            },
            Some(k) => {
                proof {
                    lemma_last_index_of(q, '/');
                }
                let piece = copy_range(chars.as_slice(), k + 1, end);
                proof {
                    assert(piece@ =~= q.skip(k + 1));
                }
                if piece.len() == 0 || (piece.len() == 1 && piece[0] == '.') {
                    proof {
                        assert(q.take(k as int) =~= p.take(k as int));
                        if piece.len() == 1 {
                            assert(piece@ =~= seq!['.']);
                        }
                    }
                    end = k;
                } else {
                    proof {
                        if piece@ == seq!['.'] {
                            assert(piece@[0] == '.');
                        }
                    }
                    return Some(piece);
                }
            },
        }
    }
}

/// The extension of a path, as `std::path::Path::extension` gives it for a
/// Unix path (text paths are always valid UTF-8).
pub(crate) fn path_extension(path: &str) -> (ext: Option<String>)
    ensures
        match ext {
            Some(e) => path_extension_of(path@) == Some(e@),
            None => path_extension_of(path@) is None,
        },
{
    let chars = chars_of(path);
    let name = match last_named_piece_of(&chars) {
        Some(n) => n,
        None => {
            return None;
        },
    };
    if name.len() == 2 && name[0] == '.' && name[1] == '.' {
        assert(name@ =~= seq!['.', '.']);
        return None;
    }
    assert(name@ != seq!['.', '.']) by {
        if name@ == seq!['.', '.'] {
            assert(name@[0] == '.' && name@[1] == '.');
        }
    }
    assert(name@.take(name.len() as int) =~= name@);
    match last_index_in(name.as_slice(), name.len(), '.') {
        None => None,
        Some(k) => {
            proof {
                lemma_last_index_of(name@, '.');
            }
            if k == 0 {
                None
            } else {
                let ext = copy_range(name.as_slice(), k + 1, name.len());
                proof {
                    assert(ext@ =~= name@.skip(k + 1));
                }
                Some(string_from_chars(ext.as_slice()))
            }
        },
    }
}

/// The language of a file, by its extension.
pub fn language_from_extension(path: &str) -> (lang: &'static str)
    ensures
        lang@ == spec_language_for_extension(path_extension_of(path@)),
{
    match path_extension(path) {
        Some(e) => language_for_extension(Some(e.as_str())),
        None => language_for_extension(None),
    }
}

/// Line prefixes that mark a definition in each language, by which a chunk
/// may end before a definition.
pub open spec fn spec_def_keywords(lang: Seq<char>) -> Seq<Seq<char>> {
    if lang == "rust"@ {
        seq![
            "fn "@,
            "pub fn"@,
            "struct "@,
            "enum "@,
            "impl "@,
            "trait "@,
            "mod "@,
            "pub struct"@,
            "pub enum"@,
            "pub trait"@,
            "pub mod"@,
            "unsafe fn"@,
            "pub unsafe fn"@,
        ]
    } else if lang == "python"@ {
        seq!["def "@, "class "@, "async def "@, "@"@]
    } else if lang == "typescript"@ || lang == "javascript"@ {
        seq![
            "function "@,
            "class "@,
            "const "@,
            "async function"@,
            "export function"@,
            "export class"@,
            "export const"@,
            "interface "@,
            "type "@,
        ]
    } else if lang == "go"@ {
        seq!["func "@, "type "@, "struct "@, "interface "@]
    } else if lang == "java"@ {
        seq!["class "@, "interface "@, "enum "@, "public class"@, "public interface"@]
    } else if lang == "cpp"@ || lang == "c"@ {
        seq!["class "@, "struct "@, "enum "@, "void "@, "int "@, "bool "@, "auto "@]
    } else {
        seq!["fn "@, "def "@, "class "@, "function "@]
    }
}

pub open spec fn str_views(v: Seq<&str>) -> Seq<Seq<char>> {
    v.map_values(|x: &str| x@)
}

/// The definition prefixes of a language.
pub fn def_keywords(language: &str) -> (kws: Vec<&'static str>)
    ensures
        str_views(kws@) == spec_def_keywords(language@),
{
    let v: Vec<&'static str> = if str_eq(language, "rust") {
        vec![
            "fn ",
            "pub fn",
            "struct ",
            "enum ",
            "impl ",
            "trait ",
            "mod ",
            "pub struct",
            "pub enum",
            "pub trait",
            "pub mod",
            "unsafe fn",
            "pub unsafe fn",
        ]
    } else if str_eq(language, "python") {
        vec!["def ", "class ", "async def ", "@"]
    } else if str_eq(language, "typescript") || str_eq(language, "javascript") {
        vec![
            "function ",
            "class ",
            "const ",
            "async function",
            "export function",
            "export class",
            "export const",
            "interface ",
            "type ",
        ]
    } else if str_eq(language, "go") {
        vec!["func ", "type ", "struct ", "interface "]
    } else if str_eq(language, "java") {
        vec!["class ", "interface ", "enum ", "public class", "public interface"]
    } else if str_eq(language, "cpp") || str_eq(language, "c") {
        vec!["class ", "struct ", "enum ", "void ", "int ", "bool ", "auto "]
    } else {
        vec!["fn ", "def ", "class ", "function "]
    };
    proof {
        assert(str_views(v@) =~= spec_def_keywords(language@));
    }
    v
}

/// Whether the trimmed line starts with one of the prefixes.
pub open spec fn has_def_keyword(line: Seq<char>, kws: Seq<Seq<char>>) -> bool {
    exists|j: int|
        0 <= j < kws.len() && #[trigger] kws[j].len() <= spec_trim(line).len() && spec_trim(line).take(
            kws[j].len() as int,
        ) == kws[j]
}

/// The last blank line in `[lo, hi)`.
pub open spec fn last_blank(lines: Seq<Seq<char>>, lo: int, hi: int) -> Option<int>
    decreases hi - lo,
{
    if hi <= lo {
        None
    } else if is_blank(lines[hi - 1]) {
        Some(hi - 1)
    } else {
        last_blank(lines, lo, hi - 1)
    }
}

/// The last line in `[lo, hi)` that opens a definition.
pub open spec fn last_def(lines: Seq<Seq<char>>, lo: int, hi: int, kws: Seq<Seq<char>>) -> Option<int>
    decreases hi - lo,
{
    if hi <= lo {
        None
    } else if has_def_keyword(lines[hi - 1], kws) {
        Some(hi - 1)
    } else {
        last_def(lines, lo, hi - 1, kws)
    }
}

/// Where the chunk starting at line `start` ends: at the end of the file if
/// it is within `MAX_CHUNK_SIZE` lines; else just after the last blank line
/// at or after `MIN_CHUNK_SIZE` lines in and before the ideal end,
/// `DEFAULT_CHUNK_SIZE` lines in; else before the last definition between
/// `MIN_CHUNK_SIZE` and `MAX_CHUNK_SIZE` lines in; else at the ideal end.
pub open spec fn spec_chunk_end(lines: Seq<Seq<char>>, start: int, kws: Seq<Seq<char>>) -> int {
    let total = lines.len() as int;
    if start + MAX_CHUNK_SIZE >= total {
        total
    } else {
        let lo = start + MIN_CHUNK_SIZE;
        let hi = start + MAX_CHUNK_SIZE;
        match last_blank(lines, lo, start + DEFAULT_CHUNK_SIZE) {
            Some(i) => i + 1,
            None => match last_def(lines, lo, hi, kws) {
                Some(i) => i,
                None => start + DEFAULT_CHUNK_SIZE,
            },
        }
    }
}

pub proof fn lemma_last_blank(lines: Seq<Seq<char>>, lo: int, hi: int)
    ensures
        last_blank(lines, lo, hi) matches Some(i) ==> lo <= i < hi,
    decreases hi - lo,
{
    if hi > lo {
        lemma_last_blank(lines, lo, hi - 1);
    }
}

pub proof fn lemma_last_def(lines: Seq<Seq<char>>, lo: int, hi: int, kws: Seq<Seq<char>>)
    ensures
        last_def(lines, lo, hi, kws) matches Some(i) ==> lo <= i < hi,
    decreases hi - lo,
{
    if hi > lo {
        lemma_last_def(lines, lo, hi - 1, kws);
    }
}

/// Every chunk boundary moves forward, by at least `MIN_CHUNK_SIZE`
/// lines unless the file ends first, and by at most `MAX_CHUNK_SIZE` lines.
pub proof fn lemma_chunk_end_bounds(lines: Seq<Seq<char>>, start: int, kws: Seq<Seq<char>>)
    requires
        0 <= start < lines.len(),
    ensures
        start < spec_chunk_end(lines, start, kws) <= lines.len(),
        spec_chunk_end(lines, start, kws) - start <= MAX_CHUNK_SIZE,
        spec_chunk_end(lines, start, kws) < lines.len() ==> spec_chunk_end(lines, start, kws) - start
            >= MIN_CHUNK_SIZE,
{
    lemma_last_blank(lines, start + MIN_CHUNK_SIZE, start + DEFAULT_CHUNK_SIZE);
    lemma_last_def(lines, start + MIN_CHUNK_SIZE, start + MAX_CHUNK_SIZE, kws);
}

/// Lines joined with `'\n'`.
pub open spec fn spec_join_lines(ls: Seq<Seq<char>>) -> Seq<char>
    decreases ls.len(),
{
    if ls.len() == 0 {
        seq![]
    } else if ls.len() == 1 {
        ls[0]
    } else {
        spec_join_lines(ls.drop_last()) + seq!['\n'] + ls.last()
    }
}

/// The chunks from line `start` on: `(start, end, text)` triples.
pub open spec fn spec_chunks_from(lines: Seq<Seq<char>>, start: int, kws: Seq<Seq<char>>) -> Seq<
    (int, int, Seq<char>),
>
    decreases lines.len() - start,
{
    if start < 0 || start >= lines.len() {
        seq![]
    } else {
        let end = spec_chunk_end(lines, start, kws);
        if end <= start {
            seq![]
        } else {
            proof {
                lemma_chunk_end_bounds(lines, start, kws);
            }
            seq![(start, end, spec_join_lines(lines.subrange(start, end)))] + spec_chunks_from(
                lines,
                end,
                kws,
            )
        }
    }
}

/// The chunks of a file: none for an empty file, the whole content for a
/// file of at most `MAX_CHUNK_SIZE` lines, else chunks cut by `spec_chunk_end`.
pub open spec fn spec_chunk_code(content: Seq<char>, language: Seq<char>) -> Seq<(int, int, Seq<char>)> {
    let lines = spec_lines(content);
    if lines.len() == 0 {
        seq![]
    } else if lines.len() <= MAX_CHUNK_SIZE {
        seq![(0int, lines.len() as int, content)]
    } else {
        spec_chunks_from(lines, 0, spec_def_keywords(language))
    }
}

/// Whether the trimmed line starts with one of the keywords.
fn line_has_def_keyword(line: &Vec<char>, kws: &Vec<Vec<char>>) -> (r: bool)
    ensures
        r == has_def_keyword(line@, vviews(kws@)),
{
    let trimmed = trim_chars(line.as_slice());
    let mut j: usize = 0;
    while j < kws.len()
        invariant
            j <= kws@.len(),
            trimmed@ == spec_trim(line@),
            forall|k: int| 0 <= k < j ==> !(#[trigger] vviews(kws@)[k].len() <= spec_trim(line@).len()
                && spec_trim(line@).take(vviews(kws@)[k].len() as int) == vviews(kws@)[k]),
        decreases kws@.len() - j,
    {
        if starts_with_chars(trimmed.as_slice(), kws[j].as_slice()) {
            proof {
                assert(vviews(kws@)[j as int] == kws@[j as int]@);
            }
            return true;
        }
        proof {
            assert(vviews(kws@)[j as int] == kws@[j as int]@);
        }
        j = j + 1;
    }
    false
}

/// The line after which the chunk starting at `start` ends.
fn chunk_end(lines: &Vec<Vec<char>>, start: usize, kws: &Vec<Vec<char>>) -> (end: usize)
    requires
        start < lines@.len(),
    ensures
        end == spec_chunk_end(vviews(lines@), start as int, vviews(kws@)),
{
    let total = lines.len();
    let ghost ls = vviews(lines@);
    if total - start <= MAX_CHUNK_SIZE {
        return total;
    }
    let lo = start + MIN_CHUNK_SIZE;
    let ideal = start + DEFAULT_CHUNK_SIZE;
    let hi = start + MAX_CHUNK_SIZE;
    let mut i: usize = ideal;
    while i > lo
        invariant
            lo <= i <= ideal < hi < total,
            lo == start + MIN_CHUNK_SIZE,
            ideal == start + DEFAULT_CHUNK_SIZE,
            hi == start + MAX_CHUNK_SIZE,
            total == lines@.len(),
            ls == vviews(lines@),
            last_blank(ls, lo as int, ideal as int) == last_blank(ls, lo as int, i as int),
        decreases i,
    {
        if all_whitespace(lines[i - 1].as_slice()) {
            proof {
                assert(ls[i - 1] == lines@[i - 1]@);
            }
            return i;
        }
        proof {
            assert(ls[i - 1] == lines@[i - 1]@);
        }
        i = i - 1;
    }
    let mut i: usize = hi;
    while i > lo
        invariant
            lo <= i <= hi < total,
            lo == start + MIN_CHUNK_SIZE,
            hi == start + MAX_CHUNK_SIZE,
            total == lines@.len(),
            ls == vviews(lines@),
            last_blank(ls, lo as int, start + DEFAULT_CHUNK_SIZE) is None,
            last_def(ls, lo as int, hi as int, vviews(kws@)) == last_def(ls, lo as int, i as int, vviews(kws@)),
        decreases i,
    {
        if line_has_def_keyword(&lines[i - 1], kws) {
            proof {
                assert(ls[i - 1] == lines@[i - 1]@);
            }
            return i - 1;
        }
        proof {
            assert(ls[i - 1] == lines@[i - 1]@);
        }
        i = i - 1;
    }
    start + DEFAULT_CHUNK_SIZE
}

/// The lines `[a, b)` joined with `'\n'`.
fn join_lines(lines: &Vec<Vec<char>>, a: usize, b: usize) -> (r: Vec<char>)
    requires
        a < b <= lines@.len(),
    ensures
        r@ == spec_join_lines(vviews(lines@).subrange(a as int, b as int)),
{
    let ghost ls = vviews(lines@);
    let mut r: Vec<char> = Vec::new();
    let mut i: usize = a;
    while i < b
        invariant
            a <= i <= b <= lines@.len(),
            ls == vviews(lines@),
            i > a ==> r@ == spec_join_lines(ls.subrange(a as int, i as int)),
            i == a ==> r@.len() == 0,
        decreases b - i,
    {
        let ghost before = r@;
        if i > a {
            r.push('\n');
        }
        let line = &lines[i];
        let mut k: usize = 0;
        let ghost mid = r@;
        while k < line.len()
            invariant
                k <= line@.len(),
                r@ == mid + line@.take(k as int),
            decreases line@.len() - k,
        {
            r.push(line[k]);
            k = k + 1;
            proof {
                assert(r@ =~= mid + line@.take(k as int));
            }
        }
        proof {
            assert(line@.take(line@.len() as int) =~= line@);
            assert(ls[i as int] == line@);
            let sub = ls.subrange(a as int, i + 1);
            if i > a {
                assert(sub.drop_last() =~= ls.subrange(a as int, i as int));
                assert(sub.last() == ls[i as int]);
                assert(r@ =~= before + seq!['\n'] + line@);
            } else {
                assert(sub.len() == 1);
                assert(sub[0] == ls[i as int]);
                assert(r@ =~= line@);
            }
        }
        i = i + 1;
    }
    r
}

/// Splits a file's content into chunks of lines, preferring to cut at blank
/// lines, then before definitions: `(start_line, end_line, text)` triples
/// with `end_line` exclusive.
pub fn chunk_code(content: &str, language: &str) -> (chunks: Vec<(usize, usize, String)>)
    ensures
        chunks@.len() == spec_chunk_code(content@, language@).len(),
        forall|i: int| #![trigger chunks@[i]] 0 <= i < chunks@.len() ==> {
            let c = spec_chunk_code(content@, language@)[i];
            &&& chunks@[i].0 == c.0
            &&& chunks@[i].1 == c.1
            &&& chunks@[i].2@ == c.2
        },
{
    let chars = chars_of(content);
    let lines = lines_of(chars.as_slice());
    let total = lines.len();
    let mut chunks: Vec<(usize, usize, String)> = Vec::new();
    if total == 0 {
        return chunks;
    }
    if total <= MAX_CHUNK_SIZE {
        chunks.push((0, total, String::from_str(content)));
        return chunks;
    }
    let kw_strs = def_keywords(language);
    let mut kws: Vec<Vec<char>> = Vec::new();
    let mut j: usize = 0;
    while j < kw_strs.len()
        invariant
            j <= kw_strs@.len(),
            vviews(kws@) == str_views(kw_strs@).take(j as int),
        decreases kw_strs@.len() - j,
    {
        let ghost prev = kws@;
        let c = chars_of(kw_strs[j]);
        kws.push(c);
        proof {
            assert(str_views(kw_strs@)[j as int] == kw_strs@[j as int]@);
            assert(vviews(kws@) =~= vviews(prev).push(c@));
            assert(str_views(kw_strs@).take(j as int + 1) =~= str_views(kw_strs@).take(j as int).push(
                kw_strs@[j as int]@,
            ));
        }
        j = j + 1;
        proof {
            assert(vviews(kws@) =~= str_views(kw_strs@).take(j as int));
        }
    }
    proof {
        assert(str_views(kw_strs@).take(kw_strs@.len() as int) =~= str_views(kw_strs@));
    }
    let ghost ls = vviews(lines@);
    let ghost ks = vviews(kws@);
    let ghost full = spec_chunks_from(ls, 0, ks);
    let mut start: usize = 0;
    let mut stop = false;
    while start < total && !stop
        invariant
            total == lines@.len(),
            ls == vviews(lines@),
            ks == vviews(kws@),
            start <= total,
            chunks@.len() <= full.len(),
            !stop ==> full == Seq::new(chunks@.len(), |k: int| full[k]) + spec_chunks_from(ls, start as int, ks),
            stop ==> chunks@.len() == full.len(),
            forall|k: int| #![trigger chunks@[k]] 0 <= k < chunks@.len() ==> {
                &&& chunks@[k].0 == full[k].0
                &&& chunks@[k].1 == full[k].1
                &&& chunks@[k].2@ == full[k].2
            },
        decreases total - start, (if stop { 0int } else { 1int }),
    {
        let end = chunk_end(&lines, start, &kws);
        proof {
            lemma_chunk_end_bounds(ls, start as int, ks);
        }
        if end <= start {
            stop = true;
        } else {
            let text = join_lines(&lines, start, end);
            let ghost k0 = chunks@.len() as int;
            let ghost rest = spec_chunks_from(ls, start as int, ks);
            proof {
                assert(rest[0] == (start as int, end as int, spec_join_lines(ls.subrange(start as int, end as int))));
                assert(full[k0] == rest[0]);
            }
            chunks.push((start, end, string_from_chars(text.as_slice())));
            proof {
                assert(rest.drop_first() =~= spec_chunks_from(ls, end as int, ks));
                assert(full =~= Seq::new(chunks@.len(), |k: int| full[k]) + spec_chunks_from(ls, end as int, ks));
            }
            start = end;
        }
    }
    proof {
        if !stop {
            assert(spec_chunks_from(ls, start as int, ks) =~= Seq::<(int, int, Seq<char>)>::empty());
        }
        assert(chunks@.len() == full.len());
    }
    chunks
}

/// The chunks from line `start` on tile the remaining lines: the first
/// starts at `start`, each starts where the previous ended, the last ends at
/// the last line, and none holds more than `MAX_CHUNK_SIZE` lines.
pub proof fn lemma_chunks_tile(lines: Seq<Seq<char>>, start: int, kws: Seq<Seq<char>>)
    requires
        0 <= start,
    ensures
        ({
            let c = spec_chunks_from(lines, start, kws);
            &&& start < lines.len() ==> c.len() > 0 && c[0].0 == start && c.last().1 == lines.len()
            &&& start >= lines.len() ==> c.len() == 0
            &&& forall|k: int| 0 <= k < c.len() - 1 ==> #[trigger] c[k].1 == c[k + 1].0
            &&& forall|k: int| 0 <= k < c.len() ==> #[trigger] c[k].0 < c[k].1 && c[k].1 - c[k].0
                <= MAX_CHUNK_SIZE
        }),
    decreases lines.len() - start,
{
    if start < lines.len() {
        lemma_chunk_end_bounds(lines, start, kws);
        let end = spec_chunk_end(lines, start, kws);
        lemma_chunks_tile(lines, end, kws);
        let c = spec_chunks_from(lines, start, kws);
        let rest = spec_chunks_from(lines, end, kws);
        assert(c == seq![(start, end, spec_join_lines(lines.subrange(start, end)))] + rest);
        assert forall|k: int| 0 <= k < c.len() - 1 implies #[trigger] c[k].1 == c[k + 1].0 by {
            if k > 0 {
                assert(c[k] == rest[k - 1]);
                assert(c[k + 1] == rest[k]);
            }
        }
        assert forall|k: int| 0 <= k < c.len() implies #[trigger] c[k].0 < c[k].1 && c[k].1 - c[k].0
            <= MAX_CHUNK_SIZE by {
            if k > 0 {
                assert(c[k] == rest[k - 1]);
            }
        }
        if rest.len() > 0 {
            assert(c.last() == rest.last());
        }
    }
}

/// Every chunk of a file is a non-empty run of its lines, the runs
/// follow one another without gap or overlap from line 0 to the last line,
/// and a file with lines has at least one chunk.
pub proof fn lemma_chunk_code_tiles(content: Seq<char>, language: Seq<char>)
    ensures
        ({
            let c = spec_chunk_code(content, language);
            let n = spec_lines(content).len();
            &&& n > 0 ==> c.len() > 0 && c[0].0 == 0 && c.last().1 == n
            &&& n == 0 ==> c.len() == 0
            &&& forall|k: int| 0 <= k < c.len() - 1 ==> #[trigger] c[k].1 == c[k + 1].0
            &&& forall|k: int| 0 <= k < c.len() ==> #[trigger] c[k].0 < c[k].1
        }),
{
    let lines = spec_lines(content);
    if lines.len() > MAX_CHUNK_SIZE {
        lemma_chunks_tile(lines, 0, spec_def_keywords(language));
    }
}

/// Chunks of a file, labelled with its path and language.
pub fn chunk_file(file_path: &str, content: &str) -> (chunks: Vec<Chunk>)
    ensures
        chunks@.len() == spec_chunk_code(content@, spec_language_for_extension(path_extension_of(file_path@))).len(),
        forall|i: int| #![trigger chunks@[i]] 0 <= i < chunks@.len() ==> {
            let c = spec_chunk_code(content@, spec_language_for_extension(path_extension_of(file_path@)))[i];
            &&& chunks@[i].start_line == c.0
            &&& chunks@[i].end_line == c.1
            &&& chunks@[i].text@ == c.2
            &&& chunks@[i].file_path@ == file_path@
            &&& chunks@[i].language@ == spec_language_for_extension(path_extension_of(file_path@))
        },
{
    let language = language_from_extension(file_path);
    let pieces = chunk_code(content, language);
    let ghost spec_pieces = pieces@;
    let n = pieces.len();
    let mut out: Vec<Chunk> = Vec::new();
    let mut i: usize = 0;
    while i < n
        invariant
            n == spec_pieces.len(),
            i <= n,
            pieces@ == spec_pieces,
            out@.len() == i,
            forall|k: int| #![trigger out@[k]] 0 <= k < i ==> {
                &&& out@[k].start_line == spec_pieces[k].0
                &&& out@[k].end_line == spec_pieces[k].1
                &&& out@[k].text@ == spec_pieces[k].2@
                &&& out@[k].file_path@ == file_path@
                &&& out@[k].language@ == language@
            },
        decreases n - i,
    {
        let (start, end, text) = (pieces[i].0, pieces[i].1, pieces[i].2.clone());
        out.push(Chunk {
            file_path: String::from_str(file_path),
            start_line: start,
            end_line: end,
            text,
            language: String::from_str(language),
        });
        i = i + 1;
    }
    out
}

/// The std default hash of a string: what a new `DefaultHasher` (whose keys
/// are fixed, so equal strings hash alike) finishes with after the string's
/// UTF-8 bytes and then the byte `0xff`, the bytes that `Hash` for `str`
/// feeds it.
pub open spec fn spec_str_hash(content: &str) -> u64 {
    DefaultHasher::spec_finish(seq![content.spec_bytes(), seq![0xffu8]])
}

/// A content fingerprint: the std default hash in lowercase hexadecimal.
pub fn compute_file_hash(content: &str) -> (h: String)
    ensures
        h@ == spec_hex(spec_str_hash(content) as nat),
{
    let mut hasher = DefaultHasher::new();
    hasher.write(content.as_bytes());
    let end: Vec<u8> = vec![0xffu8];
    hasher.write(end.as_slice());
    proof {
        assert(end@ =~= seq![0xffu8]);
        assert(hasher@ =~= seq![content.spec_bytes(), seq![0xffu8]]);
    }
    hex_lower(hasher.finish())
}


/// Each extension of the language table names its language (so a Go file is
/// `go`, never plain text); any other extension, and a path without one, is
/// plain `text`.
pub proof fn lemma_language_table(e: Seq<char>)
    ensures
        spec_language_for_extension(Some("rs"@)) == "rust"@,
        spec_language_for_extension(Some("rsx"@)) == "rust"@,
        spec_language_for_extension(Some("py"@)) == "python"@,
        spec_language_for_extension(Some("js"@)) == "typescript"@,
        spec_language_for_extension(Some("ts"@)) == "typescript"@,
        spec_language_for_extension(Some("jsx"@)) == "typescript"@,
        spec_language_for_extension(Some("tsx"@)) == "typescript"@,
        spec_language_for_extension(Some("mjs"@)) == "typescript"@,
        spec_language_for_extension(Some("vue"@)) == "typescript"@,
        spec_language_for_extension(Some("go"@)) == "go"@,
        spec_language_for_extension(Some("java"@)) == "java"@,
        spec_language_for_extension(Some("c"@)) == "c"@,
        spec_language_for_extension(Some("h"@)) == "c"@,
        spec_language_for_extension(Some("cpp"@)) == "cpp"@,
        spec_language_for_extension(Some("hpp"@)) == "cpp"@,
        spec_language_for_extension(Some("cc"@)) == "cpp"@,
        spec_language_for_extension(Some("cxx"@)) == "cpp"@,
        spec_language_for_extension(Some("rb"@)) == "ruby"@,
        spec_language_for_extension(Some("php"@)) == "php"@,
        spec_language_for_extension(Some("swift"@)) == "swift"@,
        spec_language_for_extension(Some("kt"@)) == "kotlin"@,
        spec_language_for_extension(Some("kts"@)) == "kotlin"@,
        spec_language_for_extension(Some("cs"@)) == "csharp"@,
        spec_language_for_extension(Some("sh"@)) == "bash"@,
        spec_language_for_extension(Some("bash"@)) == "bash"@,
        spec_language_for_extension(Some("zsh"@)) == "bash"@,
        spec_language_for_extension(Some("sql"@)) == "sql"@,
        spec_language_for_extension(Some("html"@)) == "html"@,
        spec_language_for_extension(Some("htm"@)) == "html"@,
        spec_language_for_extension(Some("css"@)) == "css"@,
        spec_language_for_extension(Some("scss"@)) == "css"@,
        spec_language_for_extension(Some("less"@)) == "css"@,
        spec_language_for_extension(Some("json"@)) == "json"@,
        spec_language_for_extension(Some("yaml"@)) == "yaml"@,
        spec_language_for_extension(Some("yml"@)) == "yaml"@,
        spec_language_for_extension(Some("toml"@)) == "toml"@,
        spec_language_for_extension(Some("md"@)) == "markdown"@,
        spec_language_for_extension(Some("mdx"@)) == "markdown"@,
        spec_language_for_extension(Some("r"@)) == "r"@,
        spec_language_for_extension(Some("R"@)) == "r"@,
        spec_language_for_extension(Some("dart"@)) == "dart"@,
        spec_language_for_extension(Some("lua"@)) == "lua"@,
        spec_language_for_extension(Some("ex"@)) == "elixir"@,
        spec_language_for_extension(Some("exs"@)) == "elixir"@,
        spec_language_for_extension(Some("hs"@)) == "haskell"@,
        spec_language_for_extension(Some("scala"@)) == "scala"@,
        spec_language_for_extension(Some("sc"@)) == "scala"@,
        !(e == "rs"@ || e == "rsx"@ || e == "py"@ || e == "js"@ || e == "ts"@ || e == "jsx"@ || e == "tsx"@ || e == "mjs"@ || e == "vue"@ || e == "go"@ || e == "java"@ || e == "c"@ || e == "h"@ || e == "cpp"@ || e == "hpp"@ || e == "cc"@ || e == "cxx"@ || e == "rb"@ || e == "php"@ || e == "swift"@ || e == "kt"@ || e == "kts"@ || e == "cs"@ || e == "sh"@ || e == "bash"@ || e == "zsh"@ || e == "sql"@ || e == "html"@ || e == "htm"@ || e == "css"@ || e == "scss"@ || e == "less"@ || e == "json"@ || e == "yaml"@ || e == "yml"@ || e == "toml"@ || e == "md"@ || e == "mdx"@ || e == "r"@ || e == "R"@ || e == "dart"@ || e == "lua"@ || e == "ex"@ || e == "exs"@ || e == "hs"@ || e == "scala"@ || e == "sc"@) ==> spec_language_for_extension(Some(e)) == "text"@,
        spec_language_for_extension(None) == "text"@,
{
    reveal_strlit("rs");
    assert("rs"@.len() == 2 && "rs"@[0] == 'r' && "rs"@[1] == 's');
    reveal_strlit("rsx");
    assert("rsx"@.len() == 3 && "rsx"@[0] == 'r' && "rsx"@[1] == 's');
    reveal_strlit("py");
    assert("py"@.len() == 2 && "py"@[0] == 'p' && "py"@[1] == 'y');
    reveal_strlit("js");
    assert("js"@.len() == 2 && "js"@[0] == 'j' && "js"@[1] == 's');
    reveal_strlit("ts");
    assert("ts"@.len() == 2 && "ts"@[0] == 't' && "ts"@[1] == 's');
    reveal_strlit("jsx");
    assert("jsx"@.len() == 3 && "jsx"@[0] == 'j' && "jsx"@[1] == 's');
    reveal_strlit("tsx");
    assert("tsx"@.len() == 3 && "tsx"@[0] == 't' && "tsx"@[1] == 's');
    reveal_strlit("mjs");
    assert("mjs"@.len() == 3 && "mjs"@[0] == 'm' && "mjs"@[1] == 'j');
    reveal_strlit("vue");
    assert("vue"@.len() == 3 && "vue"@[0] == 'v' && "vue"@[1] == 'u');
    reveal_strlit("go");
    assert("go"@.len() == 2 && "go"@[0] == 'g' && "go"@[1] == 'o');
    reveal_strlit("java");
    assert("java"@.len() == 4 && "java"@[0] == 'j' && "java"@[1] == 'a');
    reveal_strlit("c");
    assert("c"@.len() == 1 && "c"@[0] == 'c');
    reveal_strlit("h");
    assert("h"@.len() == 1 && "h"@[0] == 'h');
    reveal_strlit("cpp");
    assert("cpp"@.len() == 3 && "cpp"@[0] == 'c' && "cpp"@[1] == 'p');
    reveal_strlit("hpp");
    assert("hpp"@.len() == 3 && "hpp"@[0] == 'h' && "hpp"@[1] == 'p');
    reveal_strlit("cc");
    assert("cc"@.len() == 2 && "cc"@[0] == 'c' && "cc"@[1] == 'c');
    reveal_strlit("cxx");
    assert("cxx"@.len() == 3 && "cxx"@[0] == 'c' && "cxx"@[1] == 'x');
    reveal_strlit("rb");
    assert("rb"@.len() == 2 && "rb"@[0] == 'r' && "rb"@[1] == 'b');
    reveal_strlit("php");
    assert("php"@.len() == 3 && "php"@[0] == 'p' && "php"@[1] == 'h');
    reveal_strlit("swift");
    assert("swift"@.len() == 5 && "swift"@[0] == 's' && "swift"@[1] == 'w');
    reveal_strlit("kt");
    assert("kt"@.len() == 2 && "kt"@[0] == 'k' && "kt"@[1] == 't');
    reveal_strlit("kts");
    assert("kts"@.len() == 3 && "kts"@[0] == 'k' && "kts"@[1] == 't');
    reveal_strlit("cs");
    assert("cs"@.len() == 2 && "cs"@[0] == 'c' && "cs"@[1] == 's');
    reveal_strlit("sh");
    assert("sh"@.len() == 2 && "sh"@[0] == 's' && "sh"@[1] == 'h');
    reveal_strlit("bash");
    assert("bash"@.len() == 4 && "bash"@[0] == 'b' && "bash"@[1] == 'a');
    reveal_strlit("zsh");
    assert("zsh"@.len() == 3 && "zsh"@[0] == 'z' && "zsh"@[1] == 's');
    reveal_strlit("sql");
    assert("sql"@.len() == 3 && "sql"@[0] == 's' && "sql"@[1] == 'q');
    reveal_strlit("html");
    assert("html"@.len() == 4 && "html"@[0] == 'h' && "html"@[1] == 't');
    reveal_strlit("htm");
    assert("htm"@.len() == 3 && "htm"@[0] == 'h' && "htm"@[1] == 't');
    reveal_strlit("css");
    assert("css"@.len() == 3 && "css"@[0] == 'c' && "css"@[1] == 's');
    reveal_strlit("scss");
    assert("scss"@.len() == 4 && "scss"@[0] == 's' && "scss"@[1] == 'c');
    reveal_strlit("less");
    assert("less"@.len() == 4 && "less"@[0] == 'l' && "less"@[1] == 'e');
    reveal_strlit("json");
    assert("json"@.len() == 4 && "json"@[0] == 'j' && "json"@[1] == 's');
    reveal_strlit("yaml");
    assert("yaml"@.len() == 4 && "yaml"@[0] == 'y' && "yaml"@[1] == 'a');
    reveal_strlit("yml");
    assert("yml"@.len() == 3 && "yml"@[0] == 'y' && "yml"@[1] == 'm');
    reveal_strlit("toml");
    assert("toml"@.len() == 4 && "toml"@[0] == 't' && "toml"@[1] == 'o');
    reveal_strlit("md");
    assert("md"@.len() == 2 && "md"@[0] == 'm' && "md"@[1] == 'd');
    reveal_strlit("mdx");
    assert("mdx"@.len() == 3 && "mdx"@[0] == 'm' && "mdx"@[1] == 'd');
    reveal_strlit("r");
    assert("r"@.len() == 1 && "r"@[0] == 'r');
    reveal_strlit("R");
    assert("R"@.len() == 1 && "R"@[0] == 'R');
    reveal_strlit("dart");
    assert("dart"@.len() == 4 && "dart"@[0] == 'd' && "dart"@[1] == 'a');
    reveal_strlit("lua");
    assert("lua"@.len() == 3 && "lua"@[0] == 'l' && "lua"@[1] == 'u');
    reveal_strlit("ex");
    assert("ex"@.len() == 2 && "ex"@[0] == 'e' && "ex"@[1] == 'x');
    reveal_strlit("exs");
    assert("exs"@.len() == 3 && "exs"@[0] == 'e' && "exs"@[1] == 'x');
    reveal_strlit("hs");
    assert("hs"@.len() == 2 && "hs"@[0] == 'h' && "hs"@[1] == 's');
    reveal_strlit("scala");
    assert("scala"@.len() == 5 && "scala"@[0] == 's' && "scala"@[1] == 'c');
    reveal_strlit("sc");
    assert("sc"@.len() == 2 && "sc"@[0] == 's' && "sc"@[1] == 'c');
}



proof fn lemma_last_blank_is_last(lines: Seq<Seq<char>>, lo: int, hi: int)
    ensures
        last_blank(lines, lo, hi) matches Some(i) ==> lo <= i < hi && is_blank(lines[i]) && forall|j: int|
            i < j < hi ==> !is_blank(#[trigger] lines[j]),
        last_blank(lines, lo, hi) is None ==> forall|j: int| lo <= j < hi ==> !is_blank(#[trigger] lines[j]),
    decreases hi - lo,
{
    if hi > lo {
        lemma_last_blank_is_last(lines, lo, hi - 1);
    }
}

proof fn lemma_last_def_is_last(lines: Seq<Seq<char>>, lo: int, hi: int, kws: Seq<Seq<char>>)
    ensures
        last_def(lines, lo, hi, kws) matches Some(i) ==> lo <= i < hi && has_def_keyword(lines[i], kws)
            && forall|j: int| i < j < hi ==> !has_def_keyword(#[trigger] lines[j], kws),
        last_def(lines, lo, hi, kws) is None ==> forall|j: int|
            lo <= j < hi ==> !has_def_keyword(#[trigger] lines[j], kws),
    decreases hi - lo,
{
    if hi > lo {
        lemma_last_def_is_last(lines, lo, hi - 1, kws);
    }
}

/// Where a chunk that starts at line `start` ends. Within 300 lines of the
/// end of the file it takes the rest. Otherwise it ends just after the last
/// blank line among lines 20 to 99 of the chunk, when there is one; else
/// just before the last line among lines 20 to 299 that opens a definition,
/// when there is one; else after exactly 100 lines.
pub proof fn lemma_chunk_end_rule(lines: Seq<Seq<char>>, start: int, kws: Seq<Seq<char>>)
    requires
        0 <= start,
    ensures
        ({
            let e = spec_chunk_end(lines, start, kws);
            let lo = start + 20;
            let ideal = start + 100;
            let hi = start + 300;
            &&& start + 300 >= lines.len() ==> e == lines.len()
            &&& start + 300 < lines.len() && (exists|j: int| lo <= j < ideal && is_blank(#[trigger] lines[j]))
                ==> lo < e <= ideal && is_blank(lines[e - 1]) && forall|j: int|
                e <= j < ideal ==> !is_blank(#[trigger] lines[j])
            &&& start + 300 < lines.len() && (forall|j: int| lo <= j < ideal ==> !is_blank(#[trigger] lines[j]))
                && (exists|j: int| lo <= j < hi && has_def_keyword(#[trigger] lines[j], kws)) ==> lo <= e < hi
                && has_def_keyword(lines[e], kws) && forall|j: int|
                e < j < hi ==> !has_def_keyword(#[trigger] lines[j], kws)
            &&& start + 300 < lines.len() && (forall|j: int| lo <= j < ideal ==> !is_blank(#[trigger] lines[j]))
                && (forall|j: int| lo <= j < hi ==> !has_def_keyword(#[trigger] lines[j], kws)) ==> e == ideal
        }),
{
    lemma_last_blank_is_last(lines, start + 20, start + 100);
    lemma_last_def_is_last(lines, start + 20, start + 300, kws);
}


/// The lines that may open a definition, by language: Rust items (`fn`,
/// `struct`, `enum`, `impl`, `trait`, `mod`, public and unsafe forms);
/// Python `def`, `class`, `async def` and decorators; TypeScript and
/// JavaScript functions, classes, constants, interfaces and types; Go
/// `func`, `type`, `struct`, `interface`; Java classes, interfaces and
/// enums; C and C++ classes, structs, enums and common return types; for
/// any other language the generic `fn`, `def`, `class`, `function`.
pub proof fn lemma_def_keyword_table(lang: Seq<char>)
    ensures
        spec_def_keywords("rust"@) == seq!["fn "@, "pub fn"@, "struct "@, "enum "@, "impl "@, "trait "@, "mod "@, "pub struct"@, "pub enum"@, "pub trait"@, "pub mod"@, "unsafe fn"@, "pub unsafe fn"@],
        spec_def_keywords("python"@) == seq!["def "@, "class "@, "async def "@, "@"@],
        spec_def_keywords("typescript"@) == seq!["function "@, "class "@, "const "@, "async function"@, "export function"@, "export class"@, "export const"@, "interface "@, "type "@],
        spec_def_keywords("go"@) == seq!["func "@, "type "@, "struct "@, "interface "@],
        spec_def_keywords("java"@) == seq!["class "@, "interface "@, "enum "@, "public class"@, "public interface"@],
        spec_def_keywords("cpp"@) == seq!["class "@, "struct "@, "enum "@, "void "@, "int "@, "bool "@, "auto "@],
        spec_def_keywords("javascript"@) == seq!["function "@, "class "@, "const "@, "async function"@, "export function"@, "export class"@, "export const"@, "interface "@, "type "@],
        spec_def_keywords("c"@) == seq!["class "@, "struct "@, "enum "@, "void "@, "int "@, "bool "@, "auto "@],
        !(lang == "rust"@ || lang == "python"@ || lang == "typescript"@ || lang == "javascript"@ || lang == "go"@ || lang == "java"@ || lang == "cpp"@ || lang == "c"@) ==> spec_def_keywords(lang) == seq!["fn "@, "def "@, "class "@, "function "@],
{
    reveal_strlit("rust");
    assert("rust"@.len() == 4 && "rust"@[0] == 'r' && "rust"@[1] == 'u');
    reveal_strlit("python");
    assert("python"@.len() == 6 && "python"@[0] == 'p' && "python"@[1] == 'y');
    reveal_strlit("typescript");
    assert("typescript"@.len() == 10 && "typescript"@[0] == 't' && "typescript"@[1] == 'y');
    reveal_strlit("javascript");
    assert("javascript"@.len() == 10 && "javascript"@[0] == 'j' && "javascript"@[1] == 'a');
    reveal_strlit("go");
    assert("go"@.len() == 2 && "go"@[0] == 'g' && "go"@[1] == 'o');
    reveal_strlit("java");
    assert("java"@.len() == 4 && "java"@[0] == 'j' && "java"@[1] == 'a');
    reveal_strlit("cpp");
    assert("cpp"@.len() == 3 && "cpp"@[0] == 'c' && "cpp"@[1] == 'p');
    reveal_strlit("c");
    assert("c"@.len() == 1 && "c"@[0] == 'c');
}


proof fn lemma_last_index_after(a: Seq<char>, c: char, b: Seq<char>)
    requires
        forall|i: int| 0 <= i < b.len() ==> b[i] != c,
    ensures
        last_index_of(a + seq![c] + b, c) == Some(a.len() as int),
    decreases b.len(),
{
    if b.len() == 0 {
        assert(a + seq![c] + b =~= a.push(c));
        assert((a + seq![c] + b).drop_last() =~= a);
    } else {
        lemma_last_index_after(a, c, b.drop_last());
        assert((a + seq![c] + b).drop_last() =~= a + seq![c] + b.drop_last());
        assert((a + seq![c] + b).last() == b.last());
    }
}

/// A file's extension is what follows the last dot of its name, wherever
/// the file lies: for a name made of a non-empty stem, a dot and an
/// extension without dots (both without `/`), alone or below a folder,
/// `path_extension` gives that extension, so `src/main.go` is Go source.
pub proof fn lemma_extension_of_file_name(dir: Seq<char>, stem: Seq<char>, ext: Seq<char>)
    requires
        stem.len() > 0,
        ext.len() > 0,
        forall|i: int| 0 <= i < stem.len() ==> stem[i] != '/',
        forall|i: int| 0 <= i < ext.len() ==> ext[i] != '/' && ext[i] != '.',
    ensures
        path_extension_of(stem + seq!['.'] + ext) == Some(ext),
        path_extension_of(dir + seq!['/'] + stem + seq!['.'] + ext) == Some(ext),
        path_extension_of(dir + seq!['/'] + stem + seq!['.'] + ext) == Some(seq!['g', 'o'])
            ==> spec_language_for_extension(path_extension_of(dir + seq!['/'] + stem + seq!['.'] + ext))
            == "go"@,
{
    let name = stem + seq!['.'] + ext;
    assert forall|i: int| 0 <= i < name.len() implies name[i] != '/' by {
        if i < stem.len() {
            assert(name[i] == stem[i]);
        } else if i > stem.len() {
            assert(name[i] == ext[i - stem.len() - 1]);
        }
    }
    lemma_last_index_of(name, '/');
    assert(name.len() >= 3);
    assert(name != seq!['.']);
    assert(last_named_piece(name) == Some(name));
    assert(name != seq!['.', '.']);
    lemma_last_index_after(stem, '.', ext);
    assert(name.skip(stem.len() as int + 1) =~= ext);
    let path = dir + seq!['/'] + name;
    assert(dir + seq!['/'] + stem + seq!['.'] + ext =~= path);
    lemma_last_index_after(dir, '/', name);
    assert(path.skip(dir.len() as int + 1) =~= name);
    assert(last_named_piece(path) == Some(name));
    lemma_language_table(ext);
    reveal_strlit("go");
    assert("go"@ =~= seq!['g', 'o']);
}


/// A file of at most 300 lines is one chunk that holds the whole content;
/// a longer one is cut into chunks each of which holds its lines joined
/// with line breaks and ends where `lemma_chunk_end_rule` says a chunk
/// starting at its first line ends.
pub proof fn lemma_chunk_contents(content: Seq<char>, language: Seq<char>)
    ensures
        ({
            let lines = spec_lines(content);
            let c = spec_chunk_code(content, language);
            &&& 0 < lines.len() <= 300 ==> c == seq![(0int, lines.len() as int, content)]
            &&& lines.len() > 300 ==> forall|k: int|
                0 <= k < c.len() ==> (#[trigger] c[k]).2 == spec_join_lines(lines.subrange(c[k].0, c[k].1))
                    && c[k].1 == spec_chunk_end(lines, c[k].0, spec_def_keywords(language))
        }),
{
    let lines = spec_lines(content);
    if lines.len() > 300 {
        lemma_chunks_content_from(lines, 0, spec_def_keywords(language));
    }
}

proof fn lemma_chunks_content_from(lines: Seq<Seq<char>>, start: int, kws: Seq<Seq<char>>)
    requires
        0 <= start,
    ensures
        ({
            let c = spec_chunks_from(lines, start, kws);
            forall|k: int|
                0 <= k < c.len() ==> (#[trigger] c[k]).2 == spec_join_lines(lines.subrange(c[k].0, c[k].1))
                    && c[k].1 == spec_chunk_end(lines, c[k].0, kws)
        }),
    decreases lines.len() - start,
{
    if start < lines.len() {
        lemma_chunk_end_bounds(lines, start, kws);
        let end = spec_chunk_end(lines, start, kws);
        lemma_chunks_content_from(lines, end, kws);
        let c = spec_chunks_from(lines, start, kws);
        let rest = spec_chunks_from(lines, end, kws);
        assert(c == seq![(start, end, spec_join_lines(lines.subrange(start, end)))] + rest);
        assert forall|k: int| 0 <= k < c.len() implies (#[trigger] c[k]).2 == spec_join_lines(
            lines.subrange(c[k].0, c[k].1),
        ) && c[k].1 == spec_chunk_end(lines, c[k].0, kws) by {
            if k > 0 {
                assert(c[k] == rest[k - 1]);
            }
        }
    }
}

} // verus!
