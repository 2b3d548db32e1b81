//! The daemon's configuration, and what it must hold before the daemon
//! starts.

use crate::text::{chars_of, decimal, matches_at, push_decimal, starts_with, string_of};
use crate::util::texts;
use vstd::prelude::*;
use vstd::string::*;

verus! {

/// Where the front door listens.
#[derive(Debug)]
pub struct GrpcSettings {
    pub host: String,
    pub port: u16,
}

/// Whom to write to, and which conversations of the message log to follow.
#[derive(Debug)]
pub struct ImessageSettings {
    pub recipient: Option<String>,
    pub handle_id: Option<i64>,
    pub extra_handle_ids: Option<Vec<i64>>,
    /// The conversation under which the operator's own devices appear.
    pub self_handle_id: Option<i64>,
}

/// Where the message log lies.
#[derive(Debug)]
pub struct ChatDbSettings {
    pub path: String,
}

/// The assistants that summarise and classify.
#[derive(Debug)]
pub struct AiSettings {
    pub cli_path: Option<String>,
    pub local_model: Option<String>,
    pub local_model_dir: Option<String>,
}

/// How to speak.
#[derive(Debug)]
pub struct TtsSettings {
    pub command: String,
    pub voice: Option<String>,
    pub args: Option<Vec<String>>,
}

/// How much to log.
#[derive(Debug)]
pub struct LogSettings {
    pub level: String,
}

/// Where the store of facts lies.
#[derive(Debug)]
pub struct StoreSettings {
    pub path: String,
}

/// When a finished turn is not worth a notification.
#[derive(Debug)]
pub struct NotifySettings {
    pub skip_if_session_active: bool,
    pub skip_if_pane_active: bool,
}

/// The whole configuration.
#[derive(Debug)]
pub struct Settings {
    pub grpc: GrpcSettings,
    pub imessage: ImessageSettings,
    pub chat_db: ChatDbSettings,
    pub ai: AiSettings,
    pub tts: TtsSettings,
    pub log: LogSettings,
    pub store: StoreSettings,
    pub notify: NotifySettings,
}

impl Default for NotifySettings {
    fn default() -> (r: Self)
        ensures
            r.skip_if_session_active,
            !r.skip_if_pane_active,
    {
        NotifySettings { skip_if_session_active: true, skip_if_pane_active: false }
    }
}

/// The error for a configuration that names no recipient.
pub const RECIPIENT_REQUIRED: &'static str = "imessage.recipient is required";

/// The error for a configuration that follows no conversation.
pub const HANDLE_REQUIRED: &'static str =
    "imessage.handle_id or imessage.self_handle_id is required to receive messages";

/// A path with a leading `~/` replaced by the home directory and a slash.
/// Any other path, and any path while the home directory is unknown, stays
/// as it is.
pub open spec fn expand_tilde_spec(path: Seq<char>, home: Option<Seq<char>>) -> Seq<char> {
    if starts_with(path, "~/"@) && home is Some {
        home.unwrap() + "/"@ + path.skip(2)
    } else {
        path
    }
}

/// Expands a leading `~/` of `path` to the home directory, where `home` is
/// the value of the variable `HOME`, if it is set.
pub fn expand_tilde(path: &str, home: Option<&str>) -> (r: String)
    ensures
        r@ == expand_tilde_spec(
            path@,
            match home {
                Some(h) => Some(h@),
                None => None,
            },
        ),
{
    let v = chars_of(path);
    let prefix = chars_of("~/");
    proof {
        reveal_strlit("~/");
    }
    if !matches_at(&v, &prefix, 0) {
        return String::from_str(path);
    }
    match home {
        None => String::from_str(path),
        Some(h) => {
            let mut r = String::from_str(h);
            r.append("/");
            let rest = crate::text::string_of_range(&v, 2, v.len());
            assert(v@.skip(2) =~= v@.subrange(2, v.len() as int));
            r.append(rest.as_str());
            r
        },
    }
}

impl GrpcSettings {
    /// The address to listen on, as `host:port`.
    pub fn addr(&self) -> (r: String)
        ensures
            r@ == self.host@ + ":"@ + decimal(self.port as int),
    {
        let mut digits: Vec<char> = Vec::new();
        push_decimal(&mut digits, self.port as i64);
        assert(digits@ =~= decimal(self.port as int));
        let mut r = self.host.clone();
        r.append(":");
        r.append(string_of(&digits).as_str());
        r
    }
}

impl ChatDbSettings {
    /// The path of the message log, with a leading `~/` expanded.
    pub fn resolved_path(&self, home: Option<&str>) -> (r: String)
        ensures
            r@ == expand_tilde_spec(
                self.path@,
                match home {
                    Some(h) => Some(h@),
                    None => None,
                },
            ),
    {
        expand_tilde(self.path.as_str(), home)
    }
}

impl StoreSettings {
    /// The path of the store, with a leading `~/` expanded.
    pub fn resolved_path(&self, home: Option<&str>) -> (r: String)
        ensures
            r@ == expand_tilde_spec(
                self.path@,
                match home {
                    Some(h) => Some(h@),
                    None => None,
                },
            ),
    {
        expand_tilde(self.path.as_str(), home)
    }
}

/// Whether a conversation is set and its number is positive.
pub open spec fn is_followed(id: Option<i64>) -> bool {
    id is Some && id.unwrap() > 0
}

impl Settings {
    /// What is wrong with the configuration, as messages for the operator:
    /// first a missing recipient, then the lack of any conversation to
    /// follow. A configuration without fault gives no message.
    pub open spec fn validate_spec(&self) -> Seq<Seq<char>> {
        let first = if self.imessage.recipient is None {
            seq![RECIPIENT_REQUIRED@]
        } else {
            Seq::<Seq<char>>::empty()
        };
        let second = if is_followed(self.imessage.handle_id) || is_followed(
            self.imessage.self_handle_id,
        ) {
            Seq::<Seq<char>>::empty()
        } else {
            seq![HANDLE_REQUIRED@]
        };
        first + second
    }

    /// Checks the configuration and lists what is wrong with it.
    pub fn validate(&self) -> (errors: Vec<String>)
        ensures
            texts(errors@) == self.validate_spec(),
    {
        let mut errors: Vec<String> = Vec::new();
        if self.imessage.recipient.is_none() {
            errors.push(String::from_str(RECIPIENT_REQUIRED));
        }
        let inbound = match self.imessage.handle_id {
            Some(id) => id > 0,
            None => false,
        };
        let own = match self.imessage.self_handle_id {
            Some(id) => id > 0,
            None => false,
        };
        if !(inbound || own) {
            errors.push(String::from_str(HANDLE_REQUIRED));
        }
        assert(texts(errors@) =~= self.validate_spec());
        errors
    }
}

/// The numbers of `s` in the order of their first occurrence, each once.
pub open spec fn distinct(s: Seq<i64>) -> Seq<i64>
    decreases s.len(),
{
    if s.len() == 0 {
        Seq::empty()
    } else {
        let rest = distinct(s.drop_last());
        if rest.contains(s.last()) {
            rest
        } else {
            rest.push(s.last())
        }
    }
}

/// `distinct(s)` holds a number where `s` holds it, and only there.
pub proof fn lemma_distinct_holds(s: Seq<i64>, x: i64)
    ensures
        distinct(s).contains(x) == s.contains(x),
    decreases s.len(),
{
    if s.len() > 0 {
        let rest = distinct(s.drop_last());
        lemma_distinct_holds(s.drop_last(), x);
        if s.contains(x) {
            let i = choose|i: int| 0 <= i < s.len() && s[i] == x;
            if i < s.len() - 1 {
                assert(s.drop_last()[i] == x);
            }
            if rest.contains(x) {
                let j = choose|j: int| 0 <= j < rest.len() && rest[j] == x;
                assert(distinct(s)[j] == x);
            } else {
                assert(i == s.len() - 1);
                assert(distinct(s)[rest.len() as int] == x);
            }
        }
        if distinct(s).contains(x) {
            let j = choose|j: int| 0 <= j < distinct(s).len() && distinct(s)[j] == x;
            if j < rest.len() {
                assert(rest[j] == x);
                let i = choose|i: int| 0 <= i < s.drop_last().len() && s.drop_last()[i] == x;
                assert(s[i] == x);
            } else {
                assert(s[s.len() - 1] == x);
            }
        }
    }
}

/// Nothing occurs twice in `distinct(s)`.
pub proof fn lemma_distinct(s: Seq<i64>)
    ensures
        distinct(s).no_duplicates(),
    decreases s.len(),
{
    if s.len() > 0 {
        lemma_distinct(s.drop_last());
    }
}

/// The conversations that the configuration names as the other party's: the
/// main one, then the further ones.
pub open spec fn configured_ids(imessage: &ImessageSettings) -> Seq<i64> {
    (match imessage.handle_id {
        Some(id) => seq![id],
        None => Seq::<i64>::empty(),
    }) + (match imessage.extra_handle_ids {
        Some(extra) => extra@,
        None => Seq::<i64>::empty(),
    })
}

/// Whether `v` holds `x`.
fn holds(v: &Vec<i64>, x: i64) -> (b: bool)
    ensures
        b == v@.contains(x),
{
    let mut i: usize = 0;
    while i < v.len()
        invariant
            i <= v.len(),
            forall|j: int| 0 <= j < i ==> v@[j] != x,
        decreases v.len() - i,
    {
        if v[i] == x {
            return true;
        }
        i += 1;
    }
    false
}

/// The conversations to follow for the other party's messages, each once.
pub fn handle_ids(settings: &Settings) -> (r: Vec<i64>)
    ensures
        r@ == distinct(configured_ids(&settings.imessage)),
        r@.no_duplicates(),
        forall|x: i64| r@.contains(x) <==> configured_ids(&settings.imessage).contains(x),
{
    let ghost all = configured_ids(&settings.imessage);
    let mut r: Vec<i64> = Vec::new();
    let ghost mut seen: Seq<i64> = Seq::empty();
    if let Some(id) = settings.imessage.handle_id {
        r.push(id);
        proof {
            seen = seq![id];
            assert(seen.drop_last() =~= Seq::<i64>::empty());
            reveal_with_fuel(distinct, 2);
            assert(r@ =~= distinct(seen));
        }
    }
    if let Some(extra) = &settings.imessage.extra_handle_ids {
        let ghost head = seen;
        let mut i: usize = 0;
        assert(head + extra@.take(0) =~= head);
        while i < extra.len()
            invariant
                i <= extra.len(),
                r@ == distinct(head + extra@.take(i as int)),
            decreases extra.len() - i,
        {
            let ghost next = head + extra@.take(i + 1);
            assert(next.drop_last() =~= head + extra@.take(i as int));
            assert(next.last() == extra@[i as int]);
            if !holds(&r, extra[i]) {
                r.push(extra[i]);
            }
            i += 1;
        }
        assert(extra@.take(extra.len() as int) =~= extra@);
    } else {
        assert(seen + Seq::<i64>::empty() =~= seen);
    }
    proof {
        lemma_distinct(all);
        assert forall|x: i64| r@.contains(x) <==> all.contains(x) by {
            lemma_distinct_holds(all, x);
        }
    }
    r
}

/// The path of the message log.
pub fn db_path(settings: &Settings, home: Option<&str>) -> (r: String)
    ensures
        r@ == expand_tilde_spec(
            settings.chat_db.path@,
            match home {
                Some(h) => Some(h@),
                None => None,
            },
        ),
{
    settings.chat_db.resolved_path(home)
}

/// The place where the configuration is kept once it is loaded. It is filled
/// once and read from then on.
#[derive(Debug)]
pub struct SettingsCell {
    slot: Option<Settings>,
}

impl SettingsCell {
    /// What the cell holds.
    pub closed spec fn value(&self) -> Option<Settings> {
        self.slot
    }

    /// An empty cell.
    pub fn new() -> (cell: SettingsCell)
        ensures
            cell.value() is None,
    {
        SettingsCell { slot: None }
    }

    /// Whether the cell was filled.
    pub fn is_initialised(&self) -> (b: bool)
        ensures
            b == self.value() is Some,
    {
        self.slot.is_some()
    }
}

/// Fills the cell. A cell is filled once.
pub fn init_settings(cell: &mut SettingsCell, settings: Settings)
    requires
        old(cell).value() is None,
    ensures
        final(cell).value() == Some(settings),
{
    cell.slot = Some(settings);
}

/// The configuration in the cell, which was filled before.
pub fn get_settings(cell: &SettingsCell) -> (settings: &Settings)
    requires
        cell.value() is Some,
    ensures
        cell.value() == Some(*settings),
{
    match &cell.slot {
        Some(settings) => settings,
        None => vstd::pervasive::unreached(),
    }
}

} // verus!
