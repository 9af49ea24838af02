use vstd::prelude::*;
use vstd::string::StringExecFns;
use crate::compaction::{MessageContent, RequestMessage, Role};
use crate::thread_history::{CompactionInfo, ThreadMessage};
use crate::text::str_eq;

verus! {

/// A thread was asked to run without a language model.
pub struct NoModelConfiguredError;

impl NoModelConfiguredError {
    /// The message shown for the error.
    pub fn message(&self) -> (r: String)
        ensures
            r@ == "no language model configured"@,
    {
        String::from_str("no language model configured")
    }
}

/// The thread's title changed.
pub struct TitleUpdated;

/// Whether a character is a lowercase hexadecimal digit.
pub open spec fn is_lower_hex(c: char) -> bool {
    ('0' <= c <= '9') || ('a' <= c <= 'f')
}

/// Whether `s` is a version 4 UUID in hyphenated lowercase form
/// (`xxxxxxxx-xxxx-4xxx-xxxx-xxxxxxxxxxxx`).
pub open spec fn is_hyphenated_v4(s: Seq<char>) -> bool {
    &&& s.len() == 36
    &&& s[8] == '-' && s[13] == '-' && s[18] == '-' && s[23] == '-'
    &&& s[14] == '4'
    &&& forall|i: int|
        0 <= i < 36 && i != 8 && i != 13 && i != 18 && i != 23 ==> is_lower_hex(#[trigger] s[i])
}

/// A fresh random UUID in its hyphenated lowercase form
/// (`uuid::Uuid::new_v4`, written out with `to_string`). The uuid crate
/// draws the 122 free bits at random, sets the version nibble to 4, and
/// writes the value as lowercase hexadecimal in 8-4-4-4-12 groups; nothing
/// is claimed of which value is drawn.
#[verifier::external_body]
fn new_v4_string() -> (r: String)
    ensures
        is_hyphenated_v4(r@),
{
    uuid::Uuid::new_v4().to_string()
}

/// The id of the user prompt that started a request.
pub struct PromptId(pub String);

impl PromptId {
    /// A fresh id: a random version 4 UUID.
    pub fn new() -> (r: Self)
        ensures
            is_hyphenated_v4(r.0@),
    {
        PromptId(new_v4_string())
    }

    /// The id as text.
    pub fn to_display_string(&self) -> (r: String)
        ensures
            r@ == self.0@,
    {
        self.0.clone()
    }
}

/// The text that introduces a compaction summary to the model.
pub const SUMMARY_PREFIX: &'static str = "The previous conversation was compacted. Use this summary as context:\n\n";

/// The text that asks the model to go on after an interruption.
pub const RESUME_TEXT: &'static str = "Continue where you left off";

/// A user message with one piece of text.
pub open spec fn is_user_text(m: RequestMessage, text: Seq<char>) -> bool {
    &&& m.role == Role::User
    &&& m.content@.len() == 1
    &&& m.content@[0] matches MessageContent::Text(t) && t@ == text
    &&& !m.cache
}

fn user_text(text: String) -> (r: RequestMessage)
    ensures
        is_user_text(r, text@),
{
    let mut content: Vec<MessageContent> = Vec::new();
    content.push(MessageContent::Text(text));
    RequestMessage { role: Role::User, content, cache: false }
}

impl CompactionInfo {
    /// What a compaction contributes to a request: the summary, introduced,
    /// as one user message; nothing when the provider compacted natively.
    pub fn to_request(&self) -> (r: Vec<RequestMessage>)
        ensures
            match self {
                CompactionInfo::Summary(s) => r@.len() == 1 && is_user_text(r@[0], SUMMARY_PREFIX@ + s@),
                CompactionInfo::ProviderNative => r@.len() == 0,
            },
    {
        match self {
            CompactionInfo::Summary(s) => {
                let mut t = String::from_str(SUMMARY_PREFIX);
                t.append(s.as_str());
                let mut r: Vec<RequestMessage> = Vec::new();
                r.push(user_text(t));
                r
            },
            CompactionInfo::ProviderNative => Vec::new(),
        }
    }
}

impl ThreadMessage {
    /// Who a message is attributed to: only the model's replies are the
    /// assistant's.
    pub fn role(&self) -> (r: Role)
        ensures
            r == if self is Agent { Role::Assistant } else { Role::User },
    {
        match self {
            ThreadMessage::Agent(_) => Role::Assistant,
            _ => Role::User,
        }
    }

    /// The request sent for a resume marker.
    pub fn resume_request() -> (r: RequestMessage)
        ensures
            is_user_text(r, RESUME_TEXT@),
    {
        user_text(String::from_str(RESUME_TEXT))
    }

    /// The markdown of the markers that carry no text of their own.
    pub fn marker_markdown(&self) -> (r: Option<String>)
        ensures
            match self {
                ThreadMessage::Resume => r matches Some(m) && m@ == "[resume]\n"@,
                ThreadMessage::Compaction(_) => r matches Some(m) && m@ == "--- Context Compacted ---\n"@,
                _ => r is None,
            },
    {
        match self {
            ThreadMessage::Resume => Some(String::from_str("[resume]\n")),
            ThreadMessage::Compaction(_) => Some(String::from_str("--- Context Compacted ---\n")),
            _ => None,
        }
    }
}

/// Gathers a thread title from streamed text: the text up to the first line
/// break; what follows the break is ignored.
pub struct TitleAccumulator {
    pub title: String,
    pub done: bool,
}

/// The first position of a line break (`\n` or `\r`) in `s` from `i` on.
pub open spec fn first_break_from(s: Seq<char>, i: int) -> Option<int>
    decreases s.len() - i,
{
    if i < 0 || i >= s.len() {
        None
    } else if s[i] == '\n' || s[i] == '\r' {
        Some(i)
    } else {
        first_break_from(s, i + 1)
    }
}

pub proof fn lemma_first_break_from(s: Seq<char>, i: int)
    requires
        0 <= i,
    ensures
        first_break_from(s, i) matches Some(k) ==> i <= k < s.len() && (s[k] == '\n' || s[k] == '\r')
            && forall|j: int| i <= j < k ==> s[j] != '\n' && s[j] != '\r',
        first_break_from(s, i) is None ==> forall|j: int| i <= j < s.len() ==> s[j] != '\n' && s[j]
            != '\r',
    decreases s.len() - i,
{
    if 0 <= i < s.len() && s[i] != '\n' && s[i] != '\r' {
        lemma_first_break_from(s, i + 1);
    }
}

/// Whether `s` has no line break.
pub open spec fn single_line(s: Seq<char>) -> bool {
    forall|j: int| 0 <= j < s.len() ==> s[j] != '\n' && s[j] != '\r'
}

/// The title after one more piece of text.
pub open spec fn spec_push_title(title: Seq<char>, done: bool, text: Seq<char>) -> (Seq<char>, bool) {
    if done {
        (title, true)
    } else {
        match first_break_from(text, 0) {
            Some(k) => (title + text.take(k), true),
            None => (title + text, false),
        }
    }
}

impl TitleAccumulator {
    /// An empty title, still open.
    pub fn new() -> (r: Self)
        ensures
            r.title@ == Seq::<char>::empty(),
            !r.done,
    {
        TitleAccumulator { title: String::new(), done: false }
    }

    /// Adds a piece of streamed text.
    pub fn push_text(&mut self, text: &str)
        ensures
            (final(self).title@, final(self).done) == spec_push_title(old(self).title@, old(self).done, text@),
    {
        if self.done {
            return;
        }
        let chars = crate::text::chars_of(text);
        let mut i: usize = 0;
        while i < chars.len()
            invariant
                i <= chars@.len(),
                chars@ == text@,
                first_break_from(text@, 0) == first_break_from(text@, i as int),
                self.title@ == old(self).title@,
                !self.done,
                !old(self).done,
            decreases chars@.len() - i,
        {
            if chars[i] == '\n' || chars[i] == '\r' {
                let prefix = crate::text::copy_range(&chars, 0, i);
                let s = crate::text::string_from_chars(&prefix);
                self.title.append(s.as_str());
                self.done = true;
                proof {
                    assert(prefix@ =~= text@.take(i as int));
                }
                return;
            }
            i = i + 1;
        }
        self.title.append(text);
    }
}

/// A title gathered from streamed text never holds a line break.
pub proof fn lemma_title_single_line(title: Seq<char>, done: bool, text: Seq<char>)
    requires
        single_line(title),
    ensures
        single_line(spec_push_title(title, done, text).0),
{
    lemma_first_break_from(text, 0);
    let r = spec_push_title(title, done, text).0;
    if !done {
        match first_break_from(text, 0) {
            Some(k) => {
                assert forall|j: int| 0 <= j < r.len() implies r[j] != '\n' && r[j] != '\r' by {
                    if j >= title.len() {
                        assert(r[j] == text[j - title.len()]);
                    }
                }
            },
            None => {
                assert forall|j: int| 0 <= j < r.len() implies r[j] != '\n' && r[j] != '\r' by {
                    if j >= title.len() {
                        assert(r[j] == text[j - title.len()]);
                    }
                }
            },
        }
    }
}

/// Once a line break was seen, more text leaves the title as it is.
pub proof fn lemma_title_closed(title: Seq<char>, text: Seq<char>)
    ensures
        spec_push_title(title, true, text) == (title, true),
{
}


/// A language model by provider and model id.
pub type ModelId = (String, String);

/// The plain form of an optional model.
pub open spec fn model_view(m: Option<ModelId>) -> Option<(Seq<char>, Seq<char>)> {
    match m {
        None => None,
        Some((provider, model)) => Some((provider@, model@)),
    }
}

/// The model configured for a profile, in a list of profiles with the model
/// each resolves to: that of the first entry named `profile`, if any.
pub open spec fn spec_profile_model(profiles: Seq<(String, ModelId)>, profile: Seq<char>) -> Option<(Seq<char>, Seq<char>)>
    decreases profiles.len(),
{
    if profiles.len() == 0 {
        None
    } else if profiles[0].0@ == profile {
        Some((profiles[0].1.0@, profiles[0].1.1@))
    } else {
        spec_profile_model(profiles.drop_first(), profile)
    }
}

/// The model a restored thread runs with: the current default model when it
/// resolves, so that a change of the default reaches old threads; else the
/// model saved with the thread, when it still resolves; else the default
/// model of the thread's profile.
pub open spec fn spec_restored_model(
    default_model: Option<(Seq<char>, Seq<char>)>,
    saved_model: Option<(Seq<char>, Seq<char>)>,
    profile_model: Option<(Seq<char>, Seq<char>)>,
) -> Option<(Seq<char>, Seq<char>)> {
    if default_model is Some {
        default_model
    } else if saved_model is Some {
        saved_model
    } else {
        profile_model
    }
}

/// What a thread restored from its saved row starts with.
pub struct ThreadSettings {
    pub profile_id: String,
    pub model: Option<ModelId>,
    pub title: Option<String>,
}

fn copy_model(m: &ModelId) -> (r: ModelId)
    ensures
        r.0@ == m.0@,
        r.1@ == m.1@,
{
    (m.0.clone(), m.1.clone())
}

/// The model configured for a profile, looked up in `profiles`.
pub fn profile_model(profiles: &Vec<(String, ModelId)>, profile: &str) -> (r: Option<ModelId>)
    ensures
        model_view(r) == spec_profile_model(profiles@, profile@),
{
    let mut i: usize = 0;
    assert(profiles@.skip(0) =~= profiles@);
    while i < profiles.len()
        invariant
            i <= profiles@.len(),
            spec_profile_model(profiles@, profile@) == spec_profile_model(profiles@.skip(i as int), profile@),
        decreases profiles@.len() - i,
    {
        assert(profiles@.skip(i as int).drop_first() =~= profiles@.skip(i as int + 1));
        assert(profiles@.skip(i as int)[0] == profiles@[i as int]);
        if str_eq(profiles[i].0.as_str(), profile) {
            return Some(copy_model(&profiles[i].1));
        }
        i = i + 1;
    }
    None
}

/// The settings of a thread restored from its saved row. `saved_profile`
/// is the profile saved with the thread, `default_profile` the one the
/// settings name; `default_model` is the current default model and
/// `saved_model` the model saved with the thread, each as the model
/// registry resolves it (none when it does not); `profiles` gives each
/// configured profile with the model its default resolves to. A saved
/// empty title means the thread has none.
pub fn thread_settings_from_row(
    saved_profile: Option<String>,
    default_profile: String,
    default_model: Option<ModelId>,
    saved_model: Option<ModelId>,
    profiles: &Vec<(String, ModelId)>,
    title: String,
) -> (r: ThreadSettings)
    ensures
        r.profile_id@ == match saved_profile {
            Some(p) => p@,
            None => default_profile@,
        },
        model_view(r.model) == spec_restored_model(
            model_view(default_model),
            model_view(saved_model),
            spec_profile_model(profiles@, r.profile_id@),
        ),
        match r.title {
            None => title@.len() == 0,
            Some(t) => title@.len() > 0 && t@ == title@,
        },
{
    let profile_id = match saved_profile {
        Some(p) => p,
        None => default_profile,
    };
    let model = match default_model {
        Some(m) => Some(m),
        None => match saved_model {
            Some(m) => Some(m),
            None => profile_model(profiles, profile_id.as_str()),
        },
    };
    let title = if title.as_str().unicode_len() == 0 {
        None
    } else {
        Some(title)
    };
    ThreadSettings { profile_id, model, title }
}

} // verus!
