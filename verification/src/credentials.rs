use vstd::prelude::*;
use vstd::string::StringExecFns;
use std::collections::HashMap;
use crate::browser_tool::ToolResultContent;
use crate::text::str_eq;

verus! {

broadcast use vstd::std_specs::hash::group_hash_axioms;

// ---- the file that stands in for the system keychain ----

/// A credential kept for a URL: a user name and a password.
pub struct StoredCredential {
    pub url: String,
    pub username: String,
    pub password: Vec<u8>,
}

/// The credentials kept in the fallback file, at most one per URL.
pub struct FileCredentials {
    entries: Vec<StoredCredential>,
}

/// The plain form of a credential: user name and password bytes.
pub type CredentialView = (Seq<char>, Seq<u8>);

/// Whether some entry is for `url`.
pub open spec fn has_url(s: Seq<StoredCredential>, url: Seq<char>) -> bool {
    exists|i: int| 0 <= i < s.len() && (#[trigger] s[i]).url@ == url
}

/// The entry for `url` (meaningful when there is one).
pub open spec fn entry_for(s: Seq<StoredCredential>, url: Seq<char>) -> StoredCredential {
    s[choose|i: int| 0 <= i < s.len() && (#[trigger] s[i]).url@ == url]
}

/// Whether no two entries are for the same URL.
pub open spec fn distinct_urls(s: Seq<StoredCredential>) -> bool {
    forall|i: int, j: int|
        0 <= i < s.len() && 0 <= j < s.len() && i != j ==> (#[trigger] s[i]).url@ != (#[trigger] s[j]).url@
}

/// The credentials of a list of entries, by URL.
pub open spec fn entries_map(s: Seq<StoredCredential>) -> Map<Seq<char>, CredentialView> {
    Map::new(
        |u: Seq<char>| has_url(s, u),
        |u: Seq<char>| (entry_for(s, u).username@, entry_for(s, u).password@),
    )
}

pub proof fn lemma_entry_for(s: Seq<StoredCredential>, i: int)
    requires
        distinct_urls(s),
        0 <= i < s.len(),
    ensures
        has_url(s, s[i].url@),
        entry_for(s, s[i].url@) == s[i],
{
    let u = s[i].url@;
    assert(has_url(s, u));
    let k = choose|k: int| 0 <= k < s.len() && (#[trigger] s[k]).url@ == u;
    assert(k == i);
}

impl View for FileCredentials {
    type V = Map<Seq<char>, CredentialView>;

    closed spec fn view(&self) -> Map<Seq<char>, CredentialView> {
        entries_map(self.entries@)
    }
}

/// The plain form of a credential read back.
pub open spec fn read_view(r: Option<(String, Vec<u8>)>) -> Option<CredentialView> {
    match r {
        Some((n, p)) => Some((n@, p@)),
        None => None,
    }
}

impl FileCredentials {
    /// Whether the file holds at most one credential per URL.
    pub closed spec fn wf(&self) -> bool {
        distinct_urls(self.entries@)
    }

    /// An empty file.
    pub fn new() -> (r: Self)
        ensures
            r.wf(),
            r@ == Map::<Seq<char>, CredentialView>::empty(),
    {
        let r = FileCredentials { entries: Vec::new() };
        proof {
            assert(r@ =~= Map::<Seq<char>, CredentialView>::empty());
        }
        r
    }

    /// The entries, for saving.
    pub fn entries(&self) -> (r: &Vec<StoredCredential>)
        ensures
            entries_map(r@) == self@,
    {
        &self.entries
    }

    fn position(&self, url: &str) -> (r: Option<usize>)
        requires
            self.wf(),
        ensures
            match r {
                Some(i) => i < self.entries@.len() && self.entries@[i as int].url@ == url@,
                None => !has_url(self.entries@, url@),
            },
    {
        let mut i: usize = 0;
        while i < self.entries.len()
            invariant
                i <= self.entries@.len(),
                forall|j: int| 0 <= j < i ==> (#[trigger] self.entries@[j]).url@ != url@,
            decreases self.entries@.len() - i,
        {
            if str_eq(self.entries[i].url.as_str(), url) {
                return Some(i);
            }
            i = i + 1;
        }
        None
    }

    /// The credential kept for `url`.
    pub fn read(&self, url: &str) -> (r: Option<(String, Vec<u8>)>)
        requires
            self.wf(),
        ensures
            read_view(r) == self@.get(url@),
    {
        match self.position(url) {
            Some(i) => {
                proof {
                    lemma_entry_for(self.entries@, i as int);
                }
                let e = &self.entries[i];
                Some((e.username.clone(), vstd::slice::slice_to_vec(e.password.as_slice())))
            },
            None => None,
        }
    }

    /// Keeps `username` and `password` for `url`, in place of what was kept.
    pub fn write(&mut self, url: &str, username: &str, password: &[u8])
        requires
            old(self).wf(),
        ensures
            final(self).wf(),
            final(self)@ == old(self)@.insert(url@, (username@, password@)),
    {
        let entry = StoredCredential {
            url: String::from_str(url),
            username: String::from_str(username),
            password: vstd::slice::slice_to_vec(password),
        };
        let ghost before = self.entries@;
        match self.position(url) {
            Some(i) => {
                self.entries.set(i, entry);
                proof {
                    let after = self.entries@;
                    assert(after == before.update(i as int, entry));
                    assert forall|a: int, b: int|
                        0 <= a < after.len() && 0 <= b < after.len() && a != b implies (
                    #[trigger] after[a]).url@ != (#[trigger] after[b]).url@ by {
                        if a != i && b != i {
                            assert(before[a].url@ != before[b].url@);
                        } else if a == i {
                            assert(before[i as int].url@ != before[b].url@);
                        } else {
                            assert(before[a].url@ != before[i as int].url@);
                        }
                    }
                    assert forall|u: Seq<char>| #[trigger] has_url(after, u) == (has_url(before, u)
                        || u == url@) by {
                        if has_url(before, u) && u != url@ {
                            let k = choose|k: int| 0 <= k < before.len() && (#[trigger] before[k]).url@ == u;
                            assert(k != i);
                            assert(after[k].url@ == u);
                        }
                        if u == url@ {
                            assert(after[i as int].url@ == u);
                        }
                        if has_url(after, u) && u != url@ {
                            let k = choose|k: int| 0 <= k < after.len() && (#[trigger] after[k]).url@ == u;
                            assert(k != i);
                            assert(before[k].url@ == u);
                        }
                    }
                    assert forall|u: Seq<char>| has_url(after, u) implies #[trigger] entries_map(after)[u]
                        == entries_map(before).insert(url@, (username@, password@))[u] by {
                        if u == url@ {
                            lemma_entry_for(after, i as int);
                        } else {
                            let k = choose|k: int| 0 <= k < after.len() && (#[trigger] after[k]).url@ == u;
                            lemma_entry_for(after, k);
                            lemma_entry_for(before, k);
                        }
                    }
                    assert(entries_map(after) =~= entries_map(before).insert(url@, (username@, password@)));
                }
            },
            None => {
                self.entries.push(entry);
                proof {
                    let after = self.entries@;
                    assert(after == before.push(entry));
                    let n = before.len() as int;
                    assert forall|a: int, b: int|
                        0 <= a < after.len() && 0 <= b < after.len() && a != b implies (
                    #[trigger] after[a]).url@ != (#[trigger] after[b]).url@ by {
                        if a != n && b != n {
                            assert(before[a].url@ != before[b].url@);
                        } else if a == n {
                            assert(before[b].url@ != url@);
                        } else {
                            assert(before[a].url@ != url@);
                        }
                    }
                    assert forall|u: Seq<char>| #[trigger] has_url(after, u) == (has_url(before, u)
                        || u == url@) by {
                        if has_url(before, u) {
                            let k = choose|k: int| 0 <= k < before.len() && (#[trigger] before[k]).url@ == u;
                            assert(after[k].url@ == u);
                        }
                        if u == url@ {
                            assert(after[n].url@ == u);
                        }
                        if has_url(after, u) && u != url@ {
                            let k = choose|k: int| 0 <= k < after.len() && (#[trigger] after[k]).url@ == u;
                            assert(k != n);
                            assert(before[k].url@ == u);
                        }
                    }
                    assert forall|u: Seq<char>| has_url(after, u) implies #[trigger] entries_map(after)[u]
                        == entries_map(before).insert(url@, (username@, password@))[u] by {
                        if u == url@ {
                            lemma_entry_for(after, n);
                        } else {
                            let k = choose|k: int| 0 <= k < after.len() && (#[trigger] after[k]).url@ == u;
                            lemma_entry_for(after, k);
                            lemma_entry_for(before, k);
                        }
                    }
                    assert(entries_map(after) =~= entries_map(before).insert(url@, (username@, password@)));
                }
            },
        }
    }

    /// Forgets what is kept for `url`.
    pub fn delete(&mut self, url: &str)
        requires
            old(self).wf(),
        ensures
            final(self).wf(),
            final(self)@ == old(self)@.remove(url@),
    {
        let ghost before = self.entries@;
        match self.position(url) {
            Some(i) => {
                self.entries.remove(i);
                proof {
                    let after = self.entries@;
                    assert(after == before.remove(i as int));
                    assert forall|a: int, b: int|
                        0 <= a < after.len() && 0 <= b < after.len() && a != b implies (
                    #[trigger] after[a]).url@ != (#[trigger] after[b]).url@ by {
                        let a0 = if a < i { a } else { a + 1 };
                        let b0 = if b < i { b } else { b + 1 };
                        assert(after[a] == before[a0]);
                        assert(after[b] == before[b0]);
                        assert(before[a0].url@ != before[b0].url@);
                    }
                    assert forall|u: Seq<char>| #[trigger] has_url(after, u) == (has_url(before, u)
                        && u != url@) by {
                        if has_url(before, u) && u != url@ {
                            let k = choose|k: int| 0 <= k < before.len() && (#[trigger] before[k]).url@ == u;
                            assert(k != i);
                            let k1 = if k < i { k } else { k - 1 };
                            assert(after[k1] == before[k]);
                        }
                        if has_url(after, u) {
                            let k = choose|k: int| 0 <= k < after.len() && (#[trigger] after[k]).url@ == u;
                            let k0 = if k < i { k } else { k + 1 };
                            assert(after[k] == before[k0]);
                            assert(k0 != i);
                            assert(before[k0].url@ != before[i as int].url@);
                        }
                    }
                    assert forall|u: Seq<char>| has_url(after, u) implies #[trigger] entries_map(after)[u]
                        == entries_map(before).remove(url@)[u] by {
                        let k = choose|k: int| 0 <= k < after.len() && (#[trigger] after[k]).url@ == u;
                        let k0 = if k < i { k } else { k + 1 };
                        assert(after[k] == before[k0]);
                        lemma_entry_for(after, k);
                        lemma_entry_for(before, k0);
                    }
                    assert(entries_map(after) =~= entries_map(before).remove(url@));
                }
            },
            None => {
                proof {
                    assert(entries_map(before) =~= entries_map(before).remove(url@));
                }
            },
        }
    }

    /// The file's content for a list of entries as read from disk; where
    /// a URL occurs twice the later entry is kept.
    pub fn from_entries(entries: Vec<StoredCredential>) -> (r: Self)
        ensures
            r.wf(),
            r@ == spec_from_entries(entries@),
    {
        let mut r = FileCredentials::new();
        let mut i: usize = 0;
        while i < entries.len()
            invariant
                i <= entries@.len(),
                r.wf(),
                r@ == spec_from_entries(entries@.take(i as int)),
            decreases entries@.len() - i,
        {
            let e = &entries[i];
            r.write(e.url.as_str(), e.username.as_str(), e.password.as_slice());
            proof {
                assert(entries@.take(i + 1).drop_last() =~= entries@.take(i as int));
            }
            i = i + 1;
        }
        proof {
            assert(entries@.take(entries@.len() as int) =~= entries@);
        }
        r
    }
}

/// The credentials of entries read in order, a later entry replacing an
/// earlier one for the same URL.
pub open spec fn spec_from_entries(s: Seq<StoredCredential>) -> Map<Seq<char>, CredentialView>
    decreases s.len(),
{
    if s.len() == 0 {
        Map::empty()
    } else {
        spec_from_entries(s.drop_last()).insert(
            s.last().url@,
            (s.last().username@, s.last().password@),
        )
    }
}

// ---- the keychain with the file as its fallback ----

/// What the system keychain answered to a read.
pub enum KeychainRead {
    Found(String, Vec<u8>),
    Missing,
    Unavailable,
}

/// The plain form of a keychain answer.
pub open spec fn keychain_read_view(k: KeychainRead) -> Option<Option<CredentialView>> {
    match k {
        KeychainRead::Found(n, p) => Some(Some((n@, p@))),
        KeychainRead::Missing => Some(None),
        KeychainRead::Unavailable => None,
    }
}

/// What a read gives: the keychain's credential when it has one, else the
/// file's (also when the keychain is unavailable).
pub open spec fn spec_read_with_fallback(
    file: Map<Seq<char>, CredentialView>,
    keychain: Option<Option<CredentialView>>,
    url: Seq<char>,
) -> Option<CredentialView> {
    match keychain {
        Some(Some(c)) => Some(c),
        _ => file.get(url),
    }
}

/// The file after a write: the entry is dropped when the keychain took the
/// credential, and kept in the file when the keychain was unavailable.
pub open spec fn spec_write_with_fallback(
    file: Map<Seq<char>, CredentialView>,
    keychain_written: bool,
    url: Seq<char>,
    c: CredentialView,
) -> Map<Seq<char>, CredentialView> {
    if keychain_written {
        file.remove(url)
    } else {
        file.insert(url, c)
    }
}

impl FileCredentials {
    /// Reads a credential, falling back to the file when the keychain has
    /// none or cannot be reached.
    pub fn read_with_fallback(&self, keychain: KeychainRead, url: &str) -> (r: Option<(String, Vec<u8>)>)
        requires
            self.wf(),
        ensures
            read_view(r) == spec_read_with_fallback(self@, keychain_read_view(keychain), url@),
    {
        match keychain {
            KeychainRead::Found(n, p) => Some((n, p)),
            KeychainRead::Missing => self.read(url),
            KeychainRead::Unavailable => self.read(url),
        }
    }

    /// Updates the file after a write to the keychain: a stale entry is
    /// removed when the keychain took the credential; otherwise the file
    /// keeps it.
    pub fn write_with_fallback(
        &mut self,
        keychain_written: bool,
        url: &str,
        username: &str,
        password: &[u8],
    )
        requires
            old(self).wf(),
        ensures
            final(self).wf(),
            final(self)@ == spec_write_with_fallback(
                old(self)@,
                keychain_written,
                url@,
                (username@, password@),
            ),
    {
        if keychain_written {
            self.delete(url);
        } else {
            self.write(url, username, password);
        }
    }

    /// Updates the file after a delete from the keychain: either way the
    /// file keeps no entry for `url`.
    pub fn delete_with_fallback(&mut self, keychain_deleted: bool, url: &str)
        requires
            old(self).wf(),
        ensures
            final(self).wf(),
            final(self)@ == old(self)@.remove(url@),
    {
        if keychain_deleted {
            self.delete(url);
        } else {
            self.delete(url);
        }
    }
}

/// What is written to the file can be read back from it.
pub proof fn lemma_file_read_after_write(
    file: Map<Seq<char>, CredentialView>,
    url: Seq<char>,
    c: CredentialView,
)
    ensures
        file.insert(url, c).get(url) == Some(c),
{
}

/// A write to the file leaves the credentials of other URLs as they were.
pub proof fn lemma_file_write_keeps_others(
    file: Map<Seq<char>, CredentialView>,
    url: Seq<char>,
    other: Seq<char>,
    c: CredentialView,
)
    requires
        url != other,
    ensures
        file.insert(url, c).get(other) == file.get(other),
{
}

/// After a delete the file has nothing for the URL.
pub proof fn lemma_file_read_after_delete(file: Map<Seq<char>, CredentialView>, url: Seq<char>)
    ensures
        file.remove(url).get(url) is None,
{
}

/// Credentials written while the keychain is unavailable persist: a later
/// read that finds the keychain unavailable, or without the entry, gives
/// them back from the file.
pub proof fn lemma_fallback_persists(
    file: Map<Seq<char>, CredentialView>,
    url: Seq<char>,
    c: CredentialView,
    later: Option<Option<CredentialView>>,
)
    requires
        later is None || later == Some(None::<CredentialView>),
    ensures
        spec_read_with_fallback(spec_write_with_fallback(file, false, url, c), later, url) == Some(c),
{
}

/// Once the keychain takes a credential, the file keeps no stale copy of it.
pub proof fn lemma_keychain_write_clears_fallback(
    file: Map<Seq<char>, CredentialView>,
    url: Seq<char>,
    c: CredentialView,
)
    ensures
        !spec_write_with_fallback(file, true, url, c).contains_key(url),
{
}

// ---- asking the user for credentials ----

/// One value the user is asked for.
pub struct CredentialField {
    pub key: String,
    pub label: String,
    pub description: String,
    pub secret: bool,
    pub example: Option<String>,
}

/// The arguments of `request_credential`.
pub struct RequestCredentialToolInput {
    pub service: String,
    pub title: Option<String>,
    pub instructions: String,
    pub fields: Vec<CredentialField>,
}

/// What `request_credential` reports: where the values came from, the values
/// by field key, and a summary for the model.
pub struct RequestCredentialToolOutput {
    pub source: String,
    pub values: HashMap<String, String>,
    pub summary: String,
}

/// The sentence that follows the instructions in the form.
pub const FORM_PROMPT: &'static str = "\n\nPlease enter the following credentials. They will be saved securely for future use.";

/// The note on how the model must handle the values.
pub const HANDLING_NOTE: &'static str = "\n\nValues were securely stored and returned to the agent. \
     The agent should use the returned values directly without \
     logging them in chat or any output.\n\n";

/// The title shown while the request runs.
pub open spec fn spec_credential_title(service: Option<Seq<char>>) -> Seq<char> {
    match service {
        Some(s) => "Request credential: "@ + s,
        None => "Request credential"@,
    }
}

/// The title shown while the request runs: with the service when the
/// arguments could be read.
pub fn credential_title(input: Option<&RequestCredentialToolInput>) -> (r: String)
    ensures
        r@ == spec_credential_title(
            match input {
                Some(i) => Some(i.service@),
                None => None,
            },
        ),
{
    match input {
        Some(i) => {
            let mut t = String::from_str("Request credential: ");
            t.append(i.service.as_str());
            t
        },
        None => String::from_str("Request credential"),
    }
}

impl RequestCredentialToolInput {
    /// The title of the form: the one given, else one naming the service.
    pub fn form_title(&self) -> (r: String)
        ensures
            r@ == match self.title {
                Some(t) => t@,
                None => "Credentials needed: "@ + self.service@,
            },
    {
        match &self.title {
            Some(t) => t.clone(),
            None => {
                let mut t = String::from_str("Credentials needed: ");
                t.append(self.service.as_str());
                t
            },
        }
    }

    /// The message of the form: the instructions and a note on saving.
    pub fn form_message(&self) -> (r: String)
        ensures
            r@ == self.instructions@ + FORM_PROMPT@,
    {
        let mut m = self.instructions.clone();
        m.append(FORM_PROMPT);
        m
    }
}

impl RequestCredentialToolOutput {
    fn without_values(source: &str, summary: String) -> (r: Self)
        ensures
            r.source@ == source@,
            r.values@ == Map::<String, String>::empty(),
            r.summary == summary,
    {
        RequestCredentialToolOutput { source: String::from_str(source), values: HashMap::new(), summary }
    }

    /// The answer when the arguments could not be read.
    pub fn input_error(error: &str) -> (r: Self)
        ensures
            r.source@ == "error"@,
            r.values@ == Map::<String, String>::empty(),
            r.summary@ == "Failed to receive tool input: "@ + error@,
    {
        let mut s = String::from_str("Failed to receive tool input: ");
        s.append(error);
        Self::without_values("error", s)
    }

    /// The answer when the store already held the values.
    pub fn cached(values: HashMap<String, String>) -> (r: Self)
        ensures
            r.source@ == "cached"@,
            r.values == values,
            r.summary@ == "Credentials were loaded from the persistent store."@,
    {
        RequestCredentialToolOutput {
            source: String::from_str("cached"),
            values,
            summary: String::from_str("Credentials were loaded from the persistent store."),
        }
    }

    /// The answer when the user dismissed the form.
    pub fn cancelled(error: &str) -> (r: Self)
        ensures
            r.source@ == "cancelled"@,
            r.values@ == Map::<String, String>::empty(),
            r.summary@ == "Credential request was cancelled: "@ + error@,
    {
        let mut s = String::from_str("Credential request was cancelled: ");
        s.append(error);
        Self::without_values("cancelled", s)
    }

    /// The answer to a submitted form: the values, or, when none were
    /// entered, a request to paste them in the chat.
    pub fn from_form(values: HashMap<String, String>) -> (r: Self)
        ensures
            values@.len() > 0 ==> r.source@ == "fresh"@ && r.values == values && r.summary@
                == "Credentials were provided by the user and saved for future use."@,
            values@.len() == 0 ==> r.source@ == "chat_paste"@ && r.values@ == Map::<
                String,
                String,
            >::empty() && r.summary@
                == "The user needs to paste the credentials in the chat. Ask them to paste each value clearly."@,
    {
        if !values.is_empty() {
            RequestCredentialToolOutput {
                source: String::from_str("fresh"),
                values,
                summary: String::from_str(
                    "Credentials were provided by the user and saved for future use.",
                ),
            }
        } else {
            Self::without_values(
                "chat_paste",
                String::from_str(
                    "The user needs to paste the credentials in the chat. Ask them to paste each value clearly.",
                ),
            )
        }
    }

    /// Whether the values should be saved: only fresh ones are.
    pub fn should_store(&self) -> (r: bool)
        ensures
            r == (self.source@ == "fresh"@),
    {
        str_eq(self.source.as_str(), "fresh")
    }

    /// The result as the model sees it. The service is named by the source,
    /// as the tool has always written it.
    pub fn to_content(self) -> (r: ToolResultContent)
        ensures
            r matches ToolResultContent::Text(t) && t@ == "Credentials for service `"@ + self.source@
                + "` (source: "@ + self.source@ + ")"@ + HANDLING_NOTE@ + self.summary@,
    {
        let mut t = String::from_str("Credentials for service `");
        t.append(self.source.as_str());
        t.append("` (source: ");
        t.append(self.source.as_str());
        t.append(")");
        t.append(HANDLING_NOTE);
        t.append(self.summary.as_str());
        ToolResultContent::Text(t)
    }
}

} // verus!
