use vstd::prelude::*;
use vstd::string::StringExecFns;
use crate::keyed::KeyedList;
use crate::text::{spec_dec, str_eq, usize_dec_string};

verus! {

// ---- starting the browser ----

/// The flags a browser is started with for a session.
pub open spec fn spec_launch_args(port: nat, user_data_dir: Seq<char>) -> Seq<Seq<char>> {
    seq![
        "--headless=new"@,
        "--disable-gpu"@,
        "--no-sandbox"@,
        "--disable-dev-shm-usage"@,
        "--disable-extensions"@,
        "--window-size=1280,720"@,
        "--remote-debugging-port="@ + spec_dec(port),
        "--user-data-dir="@ + user_data_dir,
        "about:blank"@,
    ]
}

/// The flags of the short run that checks a browser can work headless.
pub open spec fn spec_probe_args(port: nat) -> Seq<Seq<char>> {
    seq![
        "--headless=new"@,
        "--no-sandbox"@,
        "--disable-gpu"@,
        "--disable-dev-shm-usage"@,
        "--disable-extensions"@,
        "--remote-debugging-port="@ + spec_dec(port),
        "about:blank"@,
    ]
}

fn flag(text: &str) -> (r: String)
    ensures
        r@ == text@,
{
    String::from_str(text)
}

fn port_flag(port: u16) -> (r: String)
    ensures
        r@ == "--remote-debugging-port="@ + spec_dec(port as nat),
{
    let mut f = String::from_str("--remote-debugging-port=");
    let digits = usize_dec_string(port as usize);
    f.append(digits.as_str());
    f
}

/// The flags a browser is started with for a session on `port`, keeping its
/// profile in `user_data_dir`.
pub fn launch_args(port: u16, user_data_dir: &str) -> (r: Vec<String>)
    ensures
        r@.map_values(|s: String| s@) == spec_launch_args(port as nat, user_data_dir@),
{
    let mut r: Vec<String> = Vec::new();
    r.push(flag("--headless=new"));
    r.push(flag("--disable-gpu"));
    r.push(flag("--no-sandbox"));
    r.push(flag("--disable-dev-shm-usage"));
    r.push(flag("--disable-extensions"));
    r.push(flag("--window-size=1280,720"));
    r.push(port_flag(port));
    let mut dir = String::from_str("--user-data-dir=");
    dir.append(user_data_dir);
    r.push(dir);
    r.push(flag("about:blank"));
    proof {
        assert(r@.map_values(|s: String| s@) =~= spec_launch_args(port as nat, user_data_dir@));
    }
    r
}

/// The flags of the headless check on `port`.
pub fn probe_args(port: u16) -> (r: Vec<String>)
    ensures
        r@.map_values(|s: String| s@) == spec_probe_args(port as nat),
{
    let mut r: Vec<String> = Vec::new();
    r.push(flag("--headless=new"));
    r.push(flag("--no-sandbox"));
    r.push(flag("--disable-gpu"));
    r.push(flag("--disable-dev-shm-usage"));
    r.push(flag("--disable-extensions"));
    r.push(port_flag(port));
    r.push(flag("about:blank"));
    proof {
        assert(r@.map_values(|s: String| s@) =~= spec_probe_args(port as nat));
    }
    r
}

/// How many times the debug port is asked for its WebSocket URL.
pub const STARTUP_ATTEMPTS: u32 = 30;

/// What the startup loop does next.
pub enum StartupStep {
    /// Connect to this WebSocket URL.
    Connect(String),
    /// The browser exited: report it.
    Exited,
    /// Wait half a second and ask again.
    Wait,
    /// Every attempt failed: stop the browser and report the last error.
    GiveUp,
}

/// The state of the wait for a new browser's debug port.
pub struct StartupPoll {
    pub attempt: u32,
    pub last_error: String,
}

impl StartupPoll {
    /// Nothing tried yet.
    pub fn new() -> (r: Self)
        ensures
            r.attempt == 0,
            r.last_error@ == "no attempts made"@,
    {
        StartupPoll { attempt: 0, last_error: String::from_str("no attempts made") }
    }

    /// Takes in one attempt: whether the browser had exited, else what
    /// asking for the WebSocket URL gave. A failure is remembered; after the
    /// last attempt the wait ends.
    pub fn record(&mut self, exited: bool, outcome: Result<String, String>) -> (r: StartupStep)
        requires
            old(self).attempt < STARTUP_ATTEMPTS,
        ensures
            exited ==> r is Exited && *final(self) == *old(self),
            !exited ==> match outcome {
                Ok(url) => r == StartupStep::Connect(url) && *final(self) == *old(self),
                Err(e) => {
                    &&& final(self).attempt == old(self).attempt + 1
                    &&& final(self).last_error == e
                    &&& (final(self).attempt < STARTUP_ATTEMPTS ==> r is Wait)
                    &&& (final(self).attempt == STARTUP_ATTEMPTS ==> r is GiveUp)
                },
            },
    {
        if exited {
            return StartupStep::Exited;
        }
        match outcome {
            Ok(url) => StartupStep::Connect(url),
            Err(e) => {
                self.last_error = e;
                self.attempt = self.attempt + 1;
                if self.attempt < STARTUP_ATTEMPTS {
                    StartupStep::Wait
                } else {
                    StartupStep::GiveUp
                }
            },
        }
    }

    /// The message when every attempt failed.
    pub fn give_up_message(&self, port: u16) -> (r: String)
        ensures
            r@ == "Failed to get WebSocket URL from browser debug port "@ + spec_dec(port as nat)
                + ". Last error: "@ + self.last_error@,
    {
        let mut m = String::from_str("Failed to get WebSocket URL from browser debug port ");
        let digits = usize_dec_string(port as usize);
        m.append(digits.as_str());
        m.append(". Last error: ");
        m.append(self.last_error.as_str());
        m
    }
}

/// The message when the browser exited while starting.
pub fn exited_message(port: u16, browser_path: &str) -> (r: String)
    ensures
        r@ == "Browser process exited early during startup on port "@ + spec_dec(port as nat)
            + ". Check that '"@ + browser_path@ + "' is a valid Chrome/Chromium binary."@,
{
    let mut m = String::from_str("Browser process exited early during startup on port ");
    let digits = usize_dec_string(port as usize);
    m.append(digits.as_str());
    m.append(". Check that '");
    m.append(browser_path);
    m.append("' is a valid Chrome/Chromium binary.");
    m
}

// ---- messages from the browser ----

/// What a message from the browser is, for a command waiting on `expected`.
pub enum CdpMessageKind {
    /// The reply to the command.
    Reply,
    /// A download started.
    DownloadBegin,
    /// A download made progress.
    DownloadProgress,
    /// Anything else; skipped.
    Other,
}

/// The kind of a message: a reply when it carries the expected id (a
/// message with another id is skipped); else, for an event with
/// parameters, a download event by its method.
pub open spec fn spec_message_kind(expected: u64, id: Option<u64>, method: Option<Seq<char>>, has_params: bool) -> CdpMessageKind {
    match id {
        Some(i) => if i == expected { CdpMessageKind::Reply } else { CdpMessageKind::Other },
        None => match method {
            Some(m) => if !has_params {
                CdpMessageKind::Other
            } else if m == "Browser.downloadWillBegin"@ || m == "Page.downloadWillBegin"@ {
                CdpMessageKind::DownloadBegin
            } else if m == "Browser.downloadProgress"@ || m == "Page.downloadProgress"@ {
                CdpMessageKind::DownloadProgress
            } else {
                CdpMessageKind::Other
            },
            None => CdpMessageKind::Other,
        },
    }
}

/// Sorts a message from the browser.
pub fn message_kind(expected: u64, id: Option<u64>, method: Option<&str>, has_params: bool) -> (r: CdpMessageKind)
    ensures
        r == spec_message_kind(
            expected,
            id,
            match method {
                Some(m) => Some(m@),
                None => None,
            },
            has_params,
        ),
{
    match id {
        Some(i) => if i == expected {
            CdpMessageKind::Reply
        } else {
            CdpMessageKind::Other
        },
        None => match method {
            Some(m) => if !has_params {
                CdpMessageKind::Other
            } else if str_eq(m, "Browser.downloadWillBegin") || str_eq(m, "Page.downloadWillBegin") {
                CdpMessageKind::DownloadBegin
            } else if str_eq(m, "Browser.downloadProgress") || str_eq(m, "Page.downloadProgress") {
                CdpMessageKind::DownloadProgress
            } else {
                CdpMessageKind::Other
            },
            None => CdpMessageKind::Other,
        },
    }
}

/// A field of a download record: a string, or any other JSON value by its
/// text.
pub enum JsonField {
    Str(String),
    Raw(String),
}

/// The plain form of a field.
pub open spec fn field_view(f: JsonField) -> (bool, Seq<char>) {
    match f {
        JsonField::Str(s) => (true, s@),
        JsonField::Raw(s) => (false, s@),
    }
}

/// The plain form of a record: its fields by key.
pub open spec fn record_view(r: Map<Seq<char>, JsonField>) -> Map<Seq<char>, (bool, Seq<char>)> {
    r.map_values(|f: JsonField| field_view(f))
}

/// The fields a list of key-value pairs gives, a later pair in place of an
/// earlier one with the same key.
pub open spec fn fields_of(params: Seq<(String, JsonField)>) -> Map<Seq<char>, (bool, Seq<char>)>
    decreases params.len(),
{
    if params.len() == 0 {
        Map::empty()
    } else {
        fields_of(params.drop_last()).insert(params.last().0@, field_view(params.last().1))
    }
}

/// The guid an event names: its `guid` field, when that is a string.
pub open spec fn event_guid(params: Seq<(String, JsonField)>) -> Option<Seq<char>> {
    let f = fields_of(params);
    if f.contains_key("guid"@) && f["guid"@].0 {
        Some(f["guid"@].1)
    } else {
        None
    }
}

/// Whether a progress event updates the field `k`.
pub open spec fn is_progress_key(k: Seq<char>) -> bool {
    k == "state"@ || k == "receivedBytes"@ || k == "totalBytes"@
}

/// A record after a progress event with the fields `given`: the fields it
/// had, with the state and byte counts that the event gives.
pub open spec fn with_progress(
    base: Map<Seq<char>, (bool, Seq<char>)>,
    given: Map<Seq<char>, (bool, Seq<char>)>,
) -> Map<Seq<char>, (bool, Seq<char>)> {
    Map::new(
        |k: Seq<char>| base.contains_key(k) || (is_progress_key(k) && given.contains_key(k)),
        |k: Seq<char>|
            if is_progress_key(k) && given.contains_key(k) {
                given[k]
            } else {
                base[k]
            },
    )
}

/// The record a started download is kept under: the event's fields with
/// the state `in_progress`.
pub open spec fn begun_record(params: Seq<(String, JsonField)>) -> Map<Seq<char>, (bool, Seq<char>)> {
    fields_of(params).insert("state"@, (true, "in_progress"@))
}

/// The downloads the browser reported, by their guid.
pub struct DownloadLog {
    entries: KeyedList<KeyedList<JsonField>>,
}

fn copy_field(f: &JsonField) -> (r: JsonField)
    ensures
        field_view(r) == field_view(*f),
{
    match f {
        JsonField::Str(s) => JsonField::Str(s.clone()),
        JsonField::Raw(s) => JsonField::Raw(s.clone()),
    }
}

proof fn lemma_record_view_insert(m: Map<Seq<char>, JsonField>, k: Seq<char>, f: JsonField)
    ensures
        record_view(m.insert(k, f)) == record_view(m).insert(k, field_view(f)),
{
    assert(record_view(m.insert(k, f)) =~= record_view(m).insert(k, field_view(f)));
}

/// The fields of an event, as a record.
fn collect_fields(params: &Vec<(String, JsonField)>) -> (r: KeyedList<JsonField>)
    ensures
        r.wf(),
        record_view(r@) == fields_of(params@),
{
    let mut record: KeyedList<JsonField> = KeyedList::new();
    let mut i: usize = 0;
    proof {
        assert(params@.take(0) =~= Seq::<(String, JsonField)>::empty());
        assert(record_view(record@) =~= Map::<Seq<char>, (bool, Seq<char>)>::empty());
    }
    while i < params.len()
        invariant
            i <= params@.len(),
            record.wf(),
            record_view(record@) == fields_of(params@.take(i as int)),
        decreases params@.len() - i,
    {
        let ghost before = record@;
        record.insert(params[i].0.clone(), copy_field(&params[i].1));
        proof {
            lemma_record_view_insert(before, params@[i as int].0@, params@[i as int].1);
            assert(params@.take(i + 1).drop_last() =~= params@.take(i as int));
        }
        i = i + 1;
    }
    proof {
        assert(params@.take(params@.len() as int) =~= params@);
    }
    record
}

/// The guid field of a record, when it is a string.
fn guid_field(record: &KeyedList<JsonField>) -> (r: Option<&str>)
    requires
        record.wf(),
    ensures
        match r {
            Some(g) => record_view(record@).contains_key("guid"@) && record_view(record@)["guid"@] == (
            true, g@),
            None => !(record_view(record@).contains_key("guid"@) && record_view(record@)["guid"@].0),
        },
{
    match record.get("guid") {
        Some(JsonField::Str(s)) => Some(s.as_str()),
        _ => None,
    }
}

impl DownloadLog {
    /// The reported downloads, by guid.
    pub closed spec fn records(&self) -> Map<Seq<char>, Map<Seq<char>, (bool, Seq<char>)>> {
        Map::new(
            |g: Seq<char>| self.entries@.contains_key(g),
            |g: Seq<char>| record_view(self.entries@[g]@),
        )
    }

    pub closed spec fn wf(&self) -> bool {
        &&& self.entries.wf()
        &&& forall|g: Seq<char>| #[trigger] self.entries@.contains_key(g) ==> self.entries@[g].wf()
    }

    /// No downloads yet.
    pub fn new() -> (r: Self)
        ensures
            r.wf(),
            r.records() == Map::<Seq<char>, Map<Seq<char>, (bool, Seq<char>)>>::empty(),
    {
        let r = DownloadLog { entries: KeyedList::new() };
        proof {
            assert(r.records() =~= Map::<Seq<char>, Map<Seq<char>, (bool, Seq<char>)>>::empty());
        }
        r
    }

    /// A download started: its record is the event's fields with the state
    /// `in_progress`, filed under its guid in place of any earlier one (an
    /// event without a guid is dropped).
    pub fn begin(&mut self, params: &Vec<(String, JsonField)>)
        requires
            old(self).wf(),
        ensures
            final(self).wf(),
            match event_guid(params@) {
                None => final(self).records() == old(self).records(),
                Some(g) => final(self).records() == old(self).records().insert(g, begun_record(params@)),
            },
    {
        let mut record = collect_fields(params);
        let guid = match guid_field(&record) {
            None => {
                return;
            },
            Some(g) => String::from_str(g),
        };
        let ghost fields = record@;
        let state = JsonField::Str(String::from_str("in_progress"));
        let ghost state_field = state;
        record.insert(String::from_str("state"), state);
        proof {
            lemma_record_view_insert(fields, "state"@, state_field);
        }
        let ghost g = guid@;
        self.entries.insert(guid, record);
        proof {
            assert(self.records() =~= old(self).records().insert(g, begun_record(params@)));
        }
    }

    /// A download progressed: its record (a new one holding just the guid,
    /// when none was kept) takes the state and byte counts that the event
    /// gives (an event without a guid is dropped).
    pub fn progress(&mut self, params: &Vec<(String, JsonField)>)
        requires
            old(self).wf(),
        ensures
            final(self).wf(),
            match event_guid(params@) {
                None => final(self).records() == old(self).records(),
                Some(g) => final(self).records() == old(self).records().insert(
                    g,
                    with_progress(
                        if old(self).records().contains_key(g) {
                            old(self).records()[g]
                        } else {
                            map!["guid"@ => (true, g)]
                        },
                        fields_of(params@),
                    ),
                ),
            },
    {
        let given = collect_fields(params);
        let guid = match guid_field(&given) {
            None => {
                return;
            },
            Some(g) => g,
        };
        let ghost base = if old(self).records().contains_key(guid@) {
            old(self).records()[guid@]
        } else {
            map!["guid"@ => (true, guid@)]
        };
        let mut record: KeyedList<JsonField> = match self.entries.get(guid) {
            Some(existing) => {
                let mut copy: KeyedList<JsonField> = KeyedList::new();
                let fields = existing.entries();
                let mut i: usize = 0;
                proof {
                    assert(record_view(copy@) =~= Map::<Seq<char>, (bool, Seq<char>)>::empty());
                }
                while i < fields.len()
                    invariant
                        i <= fields@.len(),
                        copy.wf(),
                        crate::keyed::distinct_keys(fields@),
                        forall|j: int| 0 <= j < i ==> copy@.contains_key(#[trigger] fields@[j].0@),
                        forall|k: Seq<char>| #[trigger] copy@.contains_key(k) ==> exists|j: int|
                            0 <= j < i && fields@[j].0@ == k,
                        forall|k: Seq<char>| #[trigger] copy@.contains_key(k) ==> field_view(copy@[k])
                            == field_view(crate::keyed::value_for(fields@, k)),
                    decreases fields@.len() - i,
                {
                    proof {
                        crate::keyed::lemma_value_for(fields@, i as int);
                    }
                    copy.insert(fields[i].0.clone(), copy_field(&fields[i].1));
                    i = i + 1;
                }
                proof {
                    assert forall|k: Seq<char>| #[trigger] existing@.contains_key(k) implies copy@.contains_key(
                        k) by {
                        let j = choose|j: int| 0 <= j < fields@.len() && (#[trigger] fields@[j]).0@ == k;
                        assert(fields@[j].0@ == k);
                    }
                    assert forall|k: Seq<char>| #[trigger] copy@.contains_key(k) implies existing@.contains_key(
                        k) by {
                        let j = choose|j: int| 0 <= j < fields@.len() && fields@[j].0@ == k;
                        assert(crate::keyed::has_key(fields@, k));
                    }
                    assert(record_view(copy@) =~= base);
                }
                copy
            },
            None => {
                let mut fresh: KeyedList<JsonField> = KeyedList::new();
                fresh.insert(String::from_str("guid"), JsonField::Str(String::from_str(guid)));
                proof {
                    assert(record_view(fresh@) =~= base);
                }
                fresh
            },
        };
        let ghost given_view = record_view(given@);
        let ghost r0 = record@;
        if let Some(f) = given.get("state") {
            record.insert(String::from_str("state"), copy_field(f));
        }
        let ghost r1 = record@;
        if let Some(f) = given.get("receivedBytes") {
            record.insert(String::from_str("receivedBytes"), copy_field(f));
        }
        let ghost r2 = record@;
        if let Some(f) = given.get("totalBytes") {
            record.insert(String::from_str("totalBytes"), copy_field(f));
        }
        proof {
            assert(record_view(record@) =~= with_progress(base, given_view));
        }
        let ghost g = guid@;
        self.entries.insert(String::from_str(guid), record);
        proof {
            assert(self.records() =~= old(self).records().insert(g, with_progress(base, given_view)));
        }
    }

    /// The reported downloads with their records, in order of their ids.
    pub fn entries(&self) -> (r: &Vec<(String, KeyedList<JsonField>)>)
        requires
            self.wf(),
        ensures
            crate::keyed::distinct_keys(r@),
            crate::keyed::sorted_keys(r@),
            crate::keyed::keyed_map(r@).dom() == self.records().dom(),
            forall|g: Seq<char>| #[trigger] self.records().contains_key(g) ==> record_view(
                crate::keyed::keyed_map(r@)[g]@) == self.records()[g],
    {
        self.entries.entries()
    }
}

} // verus!
