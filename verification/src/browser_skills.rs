use vstd::prelude::*;
use vstd::string::StringExecFns;
use crate::chunker::{last_index_of, last_named_piece, lemma_last_index_of, path_extension, path_extension_of};
use crate::text::{
    chars_eq, chars_of, copy_range, ends_with_chars, ends_with_seq, find_char_from, index_of_char, lemma_index_of_char, spec_split_second,
    split_second, string_from_chars, str_eq,
};

verus! {

/// A note on how to work with one site, kept as a markdown file.
#[derive(Debug, Clone)]
pub struct DomainSkill {
    pub site: String,
    pub name: String,
    pub content: String,
    pub created_at: String,
    pub updated_at: String,
}

impl DomainSkill {
    /// A copy of the skill, field by field.
    pub fn duplicate(&self) -> (r: DomainSkill)
        ensures
            r == *self,
    {
        DomainSkill {
            site: self.site.clone(),
            name: self.name.clone(),
            content: self.content.clone(),
            created_at: self.created_at.clone(),
            updated_at: self.updated_at.clone(),
        }
    }
}

/// The characters that end the host part of a URL.
pub open spec fn ends_host(c: char) -> bool {
    c == '/' || c == '?' || c == '#'
}

/// The first position at or after `from` of a character that ends the host.
pub open spec fn host_end_from(s: Seq<char>, from: int) -> int
    decreases s.len() - from,
{
    if from < 0 || from >= s.len() {
        s.len() as int
    } else if ends_host(s[from]) {
        from
    } else {
        host_end_from(s, from + 1)
    }
}

pub proof fn lemma_host_end_from(s: Seq<char>, from: int)
    requires
        0 <= from <= s.len(),
    ensures
        from <= host_end_from(s, from) <= s.len(),
    decreases s.len() - from,
{
    if from < s.len() && !ends_host(s[from]) {
        lemma_host_end_from(s, from + 1);
    }
}

/// `s` without a leading `www.`.
pub open spec fn strip_www(s: Seq<char>) -> Seq<char> {
    if s.len() >= 4 && s.take(4) == seq!['w', 'w', 'w', '.'] { s.skip(4) } else { s }
}

/// The text of `s` before its first `.` (all of it without one).
pub open spec fn first_label(s: Seq<char>) -> Seq<char> {
    match index_of_char(s, '.', 0) {
        Some(k) => s.take(k),
        None => s,
    }
}

/// The short site name of a URL: the first label of its host, without a
/// leading `www.`; none when the text has no `://`.
pub open spec fn spec_extract_site(url: Seq<char>) -> Option<Seq<char>> {
    match spec_split_second(url, seq![':', '/', '/']) {
        None => None,
        Some(rest) => {
            let host = rest.take(host_end_from(rest, 0));
            Some(first_label(strip_www(host)))
        },
    }
}

/// The site name under which skills are kept: that of a URL, or the text as
/// given when it is no URL.
pub open spec fn spec_normalize_site(site: Seq<char>) -> Seq<char> {
    match spec_extract_site(site) {
        Some(s) => s,
        None => site,
    }
}

/// The short site name of a URL (`https://www.google.com` gives `google`).
pub fn extract_site_from_url(url: &str) -> (r: Option<String>)
    ensures
        match r {
            Some(s) => spec_extract_site(url@) == Some(s@),
            None => spec_extract_site(url@) is None,
        },
{
    let chars = chars_of(url);
    let sep: [char; 3] = [':', '/', '/'];
    proof {
        assert(sep@ =~= seq![':', '/', '/']);
    }
    let rest = match split_second(&chars, &sep) {
        Some(r) => r,
        None => {
            return None;
        },
    };
    let mut end: usize = 0;
    while end < rest.len() && !(rest[end] == '/' || rest[end] == '?' || rest[end] == '#')
        invariant
            end <= rest@.len(),
            host_end_from(rest@, 0) == host_end_from(rest@, end as int),
        decreases rest@.len() - end,
    {
        end = end + 1;
    }
    let host = copy_range(&rest, 0, end);
    proof {
        assert(host@ =~= rest@.take(host_end_from(rest@, 0)));
    }
    let n = host.len();
    let has_www = n >= 4 && host[0] == 'w' && host[1] == 'w' && host[2] == 'w' && host[3] == '.';
    let bare = if has_www {
        copy_range(&host, 4, n)
    } else {
        copy_range(&host, 0, n)
    };
    proof {
        if n >= 4 {
            assert(has_www == (host@.take(4) =~= seq!['w', 'w', 'w', '.']));
        }
        assert(bare@ =~= strip_www(host@));
    }
    let label = match find_char_from(&bare, '.', 0) {
        Some(k) => {
            proof {
                lemma_index_of_char(bare@, '.', 0);
            }
            copy_range(&bare, 0, k)
        },
        None => copy_range(&bare, 0, bare.len()),
    };
    proof {
        assert(label@ =~= first_label(bare@));
    }
    Some(string_from_chars(&label))
}

/// The site name under which skills are kept.
pub fn normalize_site(site: &str) -> (r: String)
    ensures
        r@ == spec_normalize_site(site@),
{
    match extract_site_from_url(site) {
        Some(s) => s,
        None => String::from_str(site),
    }
}

/// The file name under which a skill is saved: its name with `.md`.
pub fn skill_file_name(name: &str) -> (r: String)
    ensures
        r@ == name@ + seq!['.', 'm', 'd'],
{
    let suffix = string_from_chars(&['.', 'm', 'd']);
    let mut r = String::from_str(name);
    r.append(suffix.as_str());
    r
}

/// The skill a file of a site's folder holds: the file's name without its
/// `.md` extension; none for a file whose extension is not `md`.
pub open spec fn spec_skill_name(file_name: Seq<char>) -> Option<Seq<char>> {
    if path_extension_of(file_name) == Some(seq!['m', 'd']) && ends_with_seq(file_name, seq!['.', 'm', 'd']) {
        Some(file_name.take(file_name.len() - 3))
    } else {
        None
    }
}

/// The skill a file of a site's folder holds, by the file's name.
pub fn skill_name(file_name: &str) -> (r: Option<String>)
    ensures
        match r {
            Some(n) => spec_skill_name(file_name@) == Some(n@),
            None => spec_skill_name(file_name@) is None,
        },
{
    let is_md = match path_extension(file_name) {
        Some(e) => chars_eq(chars_of(e.as_str()).as_slice(), &['m', 'd']),
        None => false,
    };
    if !is_md {
        return None;
    }
    let chars = chars_of(file_name);
    if !ends_with_chars(chars.as_slice(), &['.', 'm', 'd']) {
        return None;
    }
    let stem = copy_range(chars.as_slice(), 0, chars.len() - 3);
    Some(string_from_chars(stem.as_slice()))
}

/// Whether a skill is called `n`.
pub open spec fn named(n: Seq<char>) -> spec_fn(DomainSkill) -> bool {
    |s: DomainSkill| s.name@ == n
}

/// The skills whose name is `name`, in order; all of them without a name.
pub open spec fn spec_filter_skills(skills: Seq<DomainSkill>, name: Option<Seq<char>>) -> Seq<
    DomainSkill,
> {
    match name {
        None => skills,
        Some(n) => skills.filter(named(n)),
    }
}

/// Keeps the skills with the requested name, or all of them.
pub fn filter_skills_by_name(skills: Vec<DomainSkill>, name: Option<&str>) -> (r: Vec<DomainSkill>)
    ensures
        r@ == spec_filter_skills(skills@, match name {
            Some(n) => Some(n@),
            None => None,
        }),
{
    let n = match name {
        None => {
            return skills;
        },
        Some(n) => n,
    };
    let mut r: Vec<DomainSkill> = Vec::new();
    let mut i: usize = 0;
    while i < skills.len()
        invariant
            i <= skills@.len(),
            r@ == skills@.take(i as int).filter(named(n@)),
        decreases skills@.len() - i,
    {
        let ghost before = skills@.take(i as int);
        proof {
            assert(skills@.take(i + 1) =~= before.push(skills@[i as int]));
            before.lemma_filter_push(skills@[i as int], named(n@));
        }
        if str_eq(skills[i].name.as_str(), n) {
            r.push(skills[i].duplicate());
        }
        i = i + 1;
    }
    proof {
        assert(skills@.take(skills@.len() as int) =~= skills@);
    }
    r
}


/// A skill saved under a name (not empty, without `/`) in the file that
/// `skill_file_name` gives is read back from that file under the same name.
pub proof fn lemma_skill_file_round_trip(name: Seq<char>)
    requires
        name.len() > 0,
        forall|i: int| 0 <= i < name.len() ==> name[i] != '/',
    ensures
        spec_skill_name(name + seq!['.', 'm', 'd']) == Some(name),
{
    let f = name + seq!['.', 'm', 'd'];
    let n = name.len() as int;
    assert forall|i: int| 0 <= i < f.len() implies f[i] != '/' by {
        if i < n {
            assert(f[i] == name[i]);
        }
    }
    lemma_last_index_of(f, '/');
    assert(last_index_of(f, '/') is None);
    assert(f != seq!['.']);
    assert(last_named_piece(f) == Some(f));
    assert(f != seq!['.', '.']);
    let f1 = f.drop_last();
    let f2 = f1.drop_last();
    assert(f2 =~= name + seq!['.']);
    assert(f.last() == 'd');
    assert(f1.last() == 'm');
    assert(f2.last() == '.');
    assert(last_index_of(f2, '.') == Some(n));
    assert(last_index_of(f1, '.') == Some(n));
    assert(last_index_of(f, '.') == Some(n));
    assert(f.subrange(f.len() - 3, f.len() as int) =~= seq!['.', 'm', 'd']);
    assert(f.skip(n + 1) =~= seq!['m', 'd']);
    assert(f.take(f.len() - 3) =~= name);
}

} // verus!
