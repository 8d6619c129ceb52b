//! Synchronisation: the loop that fetches new mail, and the first look at
//! each incoming mail.
//!
//! ```text
//! loop {
//!     load the account's last UID
//!     fetch the mails after it, process each, remember the largest UID
//!     wait (IMAP IDLE) for new mail, a heartbeat or a command
//!     on an error: wait `reconnect_delay`, which doubles on each failure
//!     up to 5 minutes and is reset by a successful fetch
//! }
//! ```
//!
//! The loop runs in the application; each of its decisions is a step of
//! [`SyncEngine`], from what happened to what to do next.

use vstd::prelude::*;
use vstd::arithmetic::power::lemma_pow0;
use vstd::arithmetic::power2::{lemma_pow2_pos, lemma_pow2_unfold, pow2};

use crate::chat::events::ChatEvent;
use crate::chat::transport::ConversationKeys;
use crate::chat::{Error, Result};
use crate::encryption::cipher::{spec_has_magic_prefix, EncryptedPayload};
use crate::encryption::disguise::{extract_payload, spec_extract_payload};
use crate::text::{spec_strip_whitespace, str_eq, strip_whitespace};

verus! {

/// Commands from the user interface to the loop.
#[derive(Debug, Clone, Copy, PartialEq, Eq, Structural)]
pub enum SyncCommand {
    /// Poll the server now.
    FetchNow,
    /// Stop the loop.
    Stop,
}

/// Where the loop is.
#[derive(Debug, Clone, Copy, PartialEq, Eq, Structural)]
pub enum SyncPhase {
    /// Not started.
    Created,
    /// Reading the account's last synchronised UID.
    LoadingAccount,
    /// Fetching and processing new mail.
    Fetching,
    /// Recording the largest UID processed.
    SavingState,
    /// Waiting for new mail, a heartbeat or a command.
    Waiting,
    /// Waiting out the reconnect delay.
    Sleeping,
    /// Stopped for good.
    Stopped,
}

/// What happened.
#[derive(Debug, Clone)]
pub enum SyncInput {
    /// The loop was started.
    Started,
    /// The account was read; its last synchronised UID.
    AccountLoaded { last_imap_uid: Option<u32> },
    /// The account could not be read.
    AccountFailed,
    /// New mail was fetched and processed; the largest UID among it.
    FetchSucceeded { max_uid: Option<u32> },
    /// Fetching failed.
    FetchFailed { message: String },
    /// The synchronisation state was recorded (or recording failed, which
    /// is only reported in the log).
    StateSaved,
    /// IMAP IDLE returned (new mail or its time-out).
    IdleReturned,
    /// IMAP IDLE failed.
    IdleFailed,
    /// The 60-second heartbeat fired.
    Heartbeat,
    /// A command arrived; `None` when the command channel was closed.
    Command(Option<SyncCommand>),
    /// The reconnect delay is over.
    Woke,
}

/// What to do next.
#[derive(Debug, Clone, Copy, PartialEq, Eq, Structural)]
pub enum SyncAction {
    LoadAccount,
    Fetch { since_uid: Option<u32> },
    SaveSyncState { uid: u32 },
    /// Wait for new mail (IDLE), the heartbeat and commands, whichever first.
    WaitForMail,
    Sleep { secs: u64 },
    Stop,
}

/// The events to report and the action to take.
#[derive(Debug, Clone)]
pub struct SyncStep {
    pub events: Vec<ChatEvent>,
    pub action: SyncAction,
}

/// The first reconnect delay, in seconds.
pub const INITIAL_RECONNECT_DELAY: u64 = 5;

/// The largest reconnect delay, in seconds (5 minutes).
pub const MAX_RECONNECT_DELAY: u64 = 300;

/// The state of the synchronisation loop.
pub struct SyncEngine {
    phase: SyncPhase,
    reconnect_delay: u64,
}

/// The phase in which an input can occur.
pub open spec fn expects(phase: SyncPhase, input: SyncInput) -> bool {
    match input {
        SyncInput::Started => phase == SyncPhase::Created,
        SyncInput::AccountLoaded { .. } | SyncInput::AccountFailed => phase == SyncPhase::LoadingAccount,
        SyncInput::FetchSucceeded { .. } | SyncInput::FetchFailed { .. } => phase == SyncPhase::Fetching,
        SyncInput::StateSaved => phase == SyncPhase::SavingState,
        SyncInput::IdleReturned | SyncInput::IdleFailed | SyncInput::Heartbeat | SyncInput::Command(
            _,
        ) => phase == SyncPhase::Waiting,
        SyncInput::Woke => phase == SyncPhase::Sleeping,
    }
}

/// The delay after a failure: doubled, at most 5 minutes.
pub open spec fn spec_next_delay(d: u64) -> u64 {
    if 2 * d < MAX_RECONNECT_DELAY {
        (2 * d) as u64
    } else {
        MAX_RECONNECT_DELAY
    }
}

/// The event that reports the connection state.
pub open spec fn is_state_event(e: ChatEvent, connected: bool) -> bool {
    e matches ChatEvent::SyncStateChanged { connected: c } && c == connected
}

impl SyncEngine {
    #[verifier::type_invariant]
    spec fn delay_in_range(self) -> bool {
        INITIAL_RECONNECT_DELAY <= self.reconnect_delay <= MAX_RECONNECT_DELAY
    }

    /// The current phase.
    pub closed spec fn phase_of(self) -> SyncPhase {
        self.phase
    }

    /// The current reconnect delay, in seconds.
    pub closed spec fn delay_of(self) -> u64 {
        self.reconnect_delay
    }

    /// A loop not yet started.
    pub fn new() -> (e: SyncEngine)
        ensures
            e.phase_of() == SyncPhase::Created,
            e.delay_of() == INITIAL_RECONNECT_DELAY,
    {
        SyncEngine { phase: SyncPhase::Created, reconnect_delay: INITIAL_RECONNECT_DELAY }
    }

    /// The current phase.
    pub fn phase(&self) -> (p: SyncPhase)
        ensures
            p == self.phase_of(),
    {
        self.phase
    }

    /// The current reconnect delay, in seconds.
    pub fn reconnect_delay(&self) -> (d: u64)
        ensures
            d == self.delay_of(),
            INITIAL_RECONNECT_DELAY <= d <= MAX_RECONNECT_DELAY,
    {
        proof {
            use_type_invariant(self);
        }
        self.reconnect_delay
    }

    /// Whether `input` can occur now.
    pub fn accepts(&self, input: &SyncInput) -> (b: bool)
        ensures
            b == expects(self.phase_of(), *input),
    {
        match input {
            SyncInput::Started => self.phase == SyncPhase::Created,
            SyncInput::AccountLoaded { .. } | SyncInput::AccountFailed => self.phase
                == SyncPhase::LoadingAccount,
            SyncInput::FetchSucceeded { .. } | SyncInput::FetchFailed { .. } => self.phase
                == SyncPhase::Fetching,
            SyncInput::StateSaved => self.phase == SyncPhase::SavingState,
            SyncInput::IdleReturned | SyncInput::IdleFailed | SyncInput::Heartbeat
            | SyncInput::Command(_) => self.phase == SyncPhase::Waiting,
            SyncInput::Woke => self.phase == SyncPhase::Sleeping,
        }
    }

    fn back_off(&mut self)
        ensures
            final(self).delay_of() == spec_next_delay(old(self).delay_of()),
            final(self).phase_of() == SyncPhase::Sleeping,
    {
        proof {
            use_type_invariant(&*self);
        }
        let d = if 2 * self.reconnect_delay < MAX_RECONNECT_DELAY {
            2 * self.reconnect_delay
        } else {
            MAX_RECONNECT_DELAY
        };
        self.reconnect_delay = d;
        self.phase = SyncPhase::Sleeping;
    }

    /// The loop's decision on `input`: the events to report and what to do next.
    ///
    /// Started: report "disconnected", load the account. Account loaded:
    /// report "connected", fetch after its last UID. Account not loaded:
    /// sleep the delay, load again. Fetch done: reset the delay to 5 s,
    /// record the largest UID if there was new mail, then wait for mail.
    /// Fetch failed: report the error and "disconnected", sleep the delay
    /// and double it (up to 5 minutes). Idle returned, heartbeat or "fetch
    /// now": load the account again. Idle failed: report "disconnected",
    /// sleep and double. "Stop" or a closed channel: report "disconnected",
    /// stop. The delay stays between 5 seconds and 5 minutes.
    pub fn step(&mut self, input: SyncInput) -> (s: SyncStep)
        requires
            expects(old(self).phase_of(), input),
        ensures
            INITIAL_RECONNECT_DELAY <= final(self).delay_of() <= MAX_RECONNECT_DELAY,
            ({
                let d = old(self).delay_of();
                let nd = final(self).delay_of();
                let np = final(self).phase_of();
                match input {
                    SyncInput::Started => s.events@.len() == 1 && is_state_event(s.events@[0], false)
                        && s.action == SyncAction::LoadAccount && np == SyncPhase::LoadingAccount && nd
                        == d,
                    SyncInput::AccountLoaded { last_imap_uid } => s.events@.len() == 1
                        && is_state_event(s.events@[0], true) && s.action == (SyncAction::Fetch {
                        since_uid: last_imap_uid,
                    }) && np == SyncPhase::Fetching && nd == d,
                    SyncInput::AccountFailed => s.events@.len() == 0 && s.action == (SyncAction::Sleep {
                        secs: d,
                    }) && np == SyncPhase::Sleeping && nd == d,
                    SyncInput::FetchSucceeded { max_uid } => s.events@.len() == 0 && nd == INITIAL_RECONNECT_DELAY && match max_uid {
                        Some(u) => s.action == (SyncAction::SaveSyncState { uid: u }) && np
                            == SyncPhase::SavingState,
                        None => s.action == SyncAction::WaitForMail && np == SyncPhase::Waiting,
                    },
                    SyncInput::FetchFailed { message } => s.events@.len() == 2 && (s.events@[0] matches ChatEvent::SyncError {
                        message: m,
                    } && m@ == message@) && is_state_event(s.events@[1], false) && s.action == (
                    SyncAction::Sleep { secs: d }) && np == SyncPhase::Sleeping && nd == spec_next_delay(d),
                    SyncInput::StateSaved => s.events@.len() == 0 && s.action == SyncAction::WaitForMail
                        && np == SyncPhase::Waiting && nd == d,
                    SyncInput::IdleReturned | SyncInput::Heartbeat | SyncInput::Command(
                        Some(SyncCommand::FetchNow),
                    ) => s.events@.len() == 0 && s.action == SyncAction::LoadAccount && np
                        == SyncPhase::LoadingAccount && nd == d,
                    SyncInput::IdleFailed => s.events@.len() == 1 && is_state_event(s.events@[0], false)
                        && s.action == (SyncAction::Sleep { secs: d }) && np == SyncPhase::Sleeping && nd
                        == spec_next_delay(d),
                    SyncInput::Command(Some(SyncCommand::Stop)) | SyncInput::Command(None) => s.events@.len()
                        == 1 && is_state_event(s.events@[0], false) && s.action == SyncAction::Stop && np
                        == SyncPhase::Stopped && nd == d,
                    SyncInput::Woke => s.events@.len() == 0 && s.action == SyncAction::LoadAccount && np
                        == SyncPhase::LoadingAccount && nd == d,
                }
            }),
    {
        proof {
            use_type_invariant(&*self);
        }
        let mut events: Vec<ChatEvent> = Vec::new();
        let action = match input {
            SyncInput::Started => {
                events.push(ChatEvent::SyncStateChanged { connected: false });
                self.phase = SyncPhase::LoadingAccount;
                SyncAction::LoadAccount
            },
            SyncInput::AccountLoaded { last_imap_uid } => {
                events.push(ChatEvent::SyncStateChanged { connected: true });
                self.phase = SyncPhase::Fetching;
                SyncAction::Fetch { since_uid: last_imap_uid }
            },
            SyncInput::AccountFailed => {
                self.phase = SyncPhase::Sleeping;
                SyncAction::Sleep { secs: self.reconnect_delay }
            },
            SyncInput::FetchSucceeded { max_uid } => {
                self.reconnect_delay = INITIAL_RECONNECT_DELAY;
                match max_uid {
                Some(u) => {
                    self.phase = SyncPhase::SavingState;
                    SyncAction::SaveSyncState { uid: u }
                },
                None => {
                    self.phase = SyncPhase::Waiting;
                    SyncAction::WaitForMail
                },
                }
            },
            SyncInput::FetchFailed { message } => {
                events.push(ChatEvent::SyncError { message });
                events.push(ChatEvent::SyncStateChanged { connected: false });
                let secs = self.reconnect_delay;
                self.back_off();
                SyncAction::Sleep { secs }
            },
            SyncInput::StateSaved => {
                self.phase = SyncPhase::Waiting;
                SyncAction::WaitForMail
            },
            SyncInput::IdleReturned | SyncInput::Heartbeat | SyncInput::Command(
                Some(SyncCommand::FetchNow),
            ) => {
                self.phase = SyncPhase::LoadingAccount;
                SyncAction::LoadAccount
            },
            SyncInput::IdleFailed => {
                events.push(ChatEvent::SyncStateChanged { connected: false });
                let secs = self.reconnect_delay;
                self.back_off();
                SyncAction::Sleep { secs }
            },
            SyncInput::Command(Some(SyncCommand::Stop)) | SyncInput::Command(None) => {
                events.push(ChatEvent::SyncStateChanged { connected: false });
                self.phase = SyncPhase::Stopped;
                SyncAction::Stop
            },
            SyncInput::Woke => {
                self.phase = SyncPhase::LoadingAccount;
                SyncAction::LoadAccount
            },
        };
        SyncStep { events, action }
    }
}

/// A stopped loop accepts nothing more: stopping is final.
pub proof fn lemma_stop_is_final(input: SyncInput)
    ensures
        !expects(SyncPhase::Stopped, input),
{
}

/// Repeated failures never push the reconnect delay past 5 minutes, nor
/// below 5 seconds: the doubling keeps it in range, and grows it until the cap.
pub proof fn lemma_back_off_in_range(d: u64)
    requires
        5 <= d <= 300,
    ensures
        d <= spec_next_delay(d) <= 300,
        d < 300 ==> d < spec_next_delay(d),
{
}

/// The reconnect delay after `n` failures in a row since the last success.
pub open spec fn delay_after_failures(n: nat) -> u64
    decreases n,
{
    if n == 0 {
        INITIAL_RECONNECT_DELAY
    } else {
        spec_next_delay(delay_after_failures((n - 1) as nat))
    }
}

/// The reconnect delays of failures in a row double from 5 seconds (5, 10,
/// 20, ...) until they reach 5 minutes, and stay there.
pub proof fn lemma_delays_double_to_cap(n: nat)
    ensures
        delay_after_failures(n) == if 5 * pow2(n) < 300 {
            5 * pow2(n)
        } else {
            300
        },
    decreases n,
{
    if n == 0 {
        lemma_pow0(2);
    } else {
        let m = (n - 1) as nat;
        lemma_delays_double_to_cap(m);
        lemma_pow2_unfold(n);
        lemma_pow2_pos(m);
    }
}

/// The largest of a non-empty list of UIDs.
pub open spec fn spec_max_uid(uids: Seq<u32>) -> Option<u32>
    decreases uids.len(),
{
    if uids.len() == 0 {
        None
    } else {
        match spec_max_uid(uids.drop_last()) {
            None => Some(uids.last()),
            Some(m) => Some(if m < uids.last() { uids.last() } else { m }),
        }
    }
}

/// The largest UID among the mails of one fetch (processed or not), to
/// record as synchronised; `None` for no mail.
pub fn max_uid(uids: &[u32]) -> (r: Option<u32>)
    ensures
        r == spec_max_uid(uids@),
{
    let mut m: Option<u32> = None;
    let mut i: usize = 0;
    while i < uids.len()
        invariant
            i <= uids@.len(),
            m == spec_max_uid(uids@.take(i as int)),
        decreases uids@.len() - i,
    {
        proof {
            let t = uids@.take(i + 1);
            assert(t.drop_last() == uids@.take(i as int));
            assert(t.last() == uids@[i as int]);
        }
        let u = uids[i];
        m = match m {
            None => Some(u),
            Some(x) => Some(if x < u { u } else { x }),
        };
        i = i + 1;
    }
    assert(uids@.take(uids@.len() as int) == uids@);
    m
}

/// The recorded UID bounds the batch: it is one of the UIDs, and no UID is larger.
pub proof fn lemma_max_uid_bounds(uids: Seq<u32>)
    ensures
        uids.len() == 0 <==> spec_max_uid(uids) is None,
        spec_max_uid(uids) matches Some(m) ==> uids.contains(m) && forall|i: int|
            0 <= i < uids.len() ==> uids[i] <= m,
    decreases uids.len(),
{
    if uids.len() > 0 {
        let init = uids.drop_last();
        lemma_max_uid_bounds(init);
        match spec_max_uid(init) {
            None => {
                assert(uids[uids.len() - 1] == uids.last());
            },
            Some(m) => {
                assert(init.contains(m));
                let k = choose|k: int| 0 <= k < init.len() && init[k] == m;
                assert(uids[k] == m);
                assert(uids[uids.len() - 1] == uids.last());
                assert forall|i: int| 0 <= i < uids.len() implies uids[i] <= spec_max_uid(uids)->0 by {
                    if i < uids.len() - 1 {
                        assert(uids[i] == init[i]);
                    }
                }
            },
        }
    }
}

/// Whether a mail of ours found in `INBOX` is moved to the account's
/// folder: only when that folder is not `INBOX` itself.
pub fn should_move(folder: &str, target_folder: &str) -> (b: bool)
    ensures
        b == (folder@ == "INBOX"@ && target_folder@ != "INBOX"@),
{
    str_eq(folder, "INBOX") && !str_eq(target_folder, "INBOX")
}

/// The payload of a mail body on one line: the blob extracted, every
/// white-space character removed (base64 may be wrapped).
pub fn single_line_payload(body: &str) -> (s: String)
    ensures
        s@ == spec_strip_whitespace(spec_extract_payload(body@)),
{
    let raw = extract_payload(body);
    strip_whitespace(raw)
}

/// What an incoming payload is.
#[derive(Debug, Clone)]
pub enum IncomingKind {
    EncryptedMessage { payload_b64: String },
    Unknown,
}

/// Tells an encrypted message (by its magic bytes) from anything else.
/// `from_email` is the sender, reported in the log.
pub fn detect_kind(raw: &str, from_email: &str) -> (k: IncomingKind)
    ensures
        spec_has_magic_prefix(raw@) ==> (k matches IncomingKind::EncryptedMessage { payload_b64 }
            && payload_b64@ == raw@),
        !spec_has_magic_prefix(raw@) ==> k is Unknown,
{
    if EncryptedPayload::has_magic_prefix(raw) {
        return IncomingKind::EncryptedMessage { payload_b64: raw.to_owned() };
    }
    IncomingKind::Unknown
}

/// The public keys of the sender when its contact has none: those stored
/// with the direct conversation (as JSON). `conversation_found` says
/// whether there is a direct conversation with the contact, and
/// `conversation_keys` what was read of its keys.
///
/// `Encryption` when there is no conversation, no keys, or no key of theirs.
pub fn keys_from_conversation(conversation_found: bool, conversation_keys: Option<&ConversationKeys>) -> (r:
    Result<String>)
    ensures
        match (conversation_found, conversation_keys) {
            (true, Some(k)) => match k.their_public_key_json {
                Some(j) => r matches Ok(s) && s@ == j@,
                None => r matches Err(Error::Encryption(_)),
            },
            _ => r matches Err(Error::Encryption(_)),
        },
{
    if !conversation_found {
        return Err(Error::Encryption("У контакта нет публичных ключей (беседа не найдена)".to_owned()));
    }
    match conversation_keys {
        Some(k) => match &k.their_public_key_json {
            Some(j) => Ok(j.as_str().to_owned()),
            None => Err(
                Error::Encryption(
                    "У контакта нет публичных ключей (в conversation_keys их тоже нет)".to_owned(),
                ),
            ),
        },
        None => Err(
            Error::Encryption("У контакта нет публичных ключей (conversation_keys не найдены)".to_owned()),
        ),
    }
}

} // verus!
