//! The NFC reader: commands from the UI, events to the UI, and the decisions of
//! the polling loop (which runs where the PC/SC calls and the sleeps are made).
use vstd::prelude::*;

use crate::single_shot::{
    CooldownGuard, CooldownView, duration_as_nanos, spec_after_read, spec_allows, spec_with_cooldown_ms,
};
use self::ndef::{card_text, is_card_text};
use self::tag::TagError;

pub mod apdu;
pub mod ndef;
pub mod pcsc;
pub mod tag;

verus! {

/// Commands sent from UI to NFC thread.
pub enum Command {
    SetReader(String),
    Pause,
    Resume,
    /// Use this cooldown, in milliseconds, between reads of the same card.
    SetCooldown(u64),
    Shutdown,
}

/// Events sent from NFC thread to UI.
pub enum NfcEvent {
    Readers(Vec<String>),
    CardPresent,
    CardRemoved,
    Text(String),
    Error(String),
}

impl NfcEvent {
    /// Returns true if this event should trigger an immediate UI repaint: every
    /// event but a reader list.
    pub fn needs_repaint(&self) -> (r: bool)
        ensures
            r == !(self is Readers),
    {
        match self {
            NfcEvent::Readers(_) => false,
            NfcEvent::CardPresent => true,
            NfcEvent::CardRemoved => true,
            NfcEvent::Text(_) => true,
            NfcEvent::Error(_) => true,
        }
    }
}

/// Loop iterations between two enumerations of the readers.
pub const READER_LIST_INTERVAL: u32 = 20;

/// Connection attempts made for one card.
pub const MAX_CONNECT_ATTEMPTS: u32 = 5;

/// What the polling loop remembers between iterations.
pub struct PollerView {
    pub selected_reader: Option<Seq<char>>,
    pub was_present: bool,
    pub card_read: bool,
    pub reader_list_counter: u32,
}

/// The decisions of the NFC polling loop: which reader is polled, whether the card
/// on it was announced and read, and when readers are enumerated.
pub struct Poller {
    selected_reader: Option<String>,
    was_present: bool,
    card_read: bool,
    reader_list_counter: u32,
}

impl View for Poller {
    type V = PollerView;

    closed spec fn view(&self) -> PollerView {
        PollerView {
            selected_reader: match self.selected_reader {
                Some(r) => Some(r@),
                None => None,
            },
            was_present: self.was_present,
            card_read: self.card_read,
            reader_list_counter: self.reader_list_counter,
        }
    }
}

/// What the loop does once a card is seen on the selected reader.
pub struct PresentStep {
    /// Send `CardPresent` and let the card settle.
    pub announce: bool,
    /// Connect to the card and read it.
    pub read: bool,
}

/// The loop state after a command: a new reader starts afresh, a pause stops
/// polling, resume and shutdown change nothing.
pub open spec fn spec_after_command(s: PollerView, cmd: Command) -> PollerView {
    match cmd {
        Command::SetReader(name) => PollerView {
            selected_reader: Some(name@),
            was_present: false,
            card_read: false,
            ..s
        },
        Command::Pause => PollerView { selected_reader: None, ..s },
        Command::Resume => s,
        Command::SetCooldown(_) => s,
        Command::Shutdown => s,
    }
}

/// The cooldown guard after a command: only `SetCooldown` changes it.
pub open spec fn spec_guard_after_command(g: CooldownView, cmd: Command) -> CooldownView {
    match cmd {
        Command::SetCooldown(ms) => spec_with_cooldown_ms(g, ms),
        _ => g,
    }
}

/// Applying a batch of commands in order: whether the loop goes on, its state
/// and the cooldown guard. The first `Shutdown` ends the loop; commands after it
/// are not applied.
pub open spec fn spec_after_commands(s: PollerView, g: CooldownView, cmds: Seq<Command>) -> (
    bool,
    PollerView,
    CooldownView,
)
    decreases cmds.len(),
{
    if cmds.len() == 0 {
        (true, s, g)
    } else if cmds[0] is Shutdown {
        (false, s, g)
    } else {
        spec_after_commands(
            spec_after_command(s, cmds[0]),
            spec_guard_after_command(g, cmds[0]),
            cmds.drop_first(),
        )
    }
}

/// The loop state once a card was seen: announced and read.
pub open spec fn spec_after_present(s: PollerView) -> PollerView {
    PollerView { was_present: true, card_read: true, ..s }
}

/// The loop state once the card's removal was confirmed.
pub open spec fn spec_after_removed(s: PollerView) -> PollerView {
    PollerView { was_present: false, card_read: false, ..s }
}

/// The iteration counter after one more iteration.
pub open spec fn spec_next_counter(c: u32) -> u32 {
    if c + 1 >= READER_LIST_INTERVAL {
        0
    } else {
        (c + 1) as u32
    }
}

/// The counter after `n` more iterations, and how many of them enumerated readers.
pub open spec fn spec_ticks(c: u32, n: nat) -> (u32, nat)
    decreases n,
{
    if n == 0 {
        (c, 0)
    } else {
        let (c2, k) = spec_ticks(c, (n - 1) as nat);
        (spec_next_counter(c2), if c2 + 1 >= READER_LIST_INTERVAL {
            k + 1
        } else {
            k
        })
    }
}

impl Poller {
    #[verifier::type_invariant]
    spec fn counter_in_range(&self) -> bool {
        self.reader_list_counter < READER_LIST_INTERVAL
    }

    /// The loop's state when it starts: no reader, no card, counter at zero.
    pub fn new() -> (p: Self)
        ensures
            p@ == (PollerView {
                selected_reader: None,
                was_present: false,
                card_read: false,
                reader_list_counter: 0,
            }),
    {
        Poller { selected_reader: None, was_present: false, card_read: false, reader_list_counter: 0 }
    }

    /// The reader being polled, if any.
    pub fn selected_reader(&self) -> (r: Option<String>)
        ensures
            match r {
                Some(name) => self@.selected_reader == Some(name@),
                None => self@.selected_reader is None,
            },
    {
        match &self.selected_reader {
            Some(name) => Some(name.clone()),
            None => None,
        }
    }

    /// Applies the commands received since the last iteration, in order.
    /// Returns false when one of them is `Shutdown`, on which the loop ends at
    /// once; the commands after it are not applied.
    pub fn apply_commands(&mut self, guard: &mut CooldownGuard, cmds: Vec<Command>) -> (keep_running: bool)
        ensures
            (keep_running, final(self)@, final(guard)@) == spec_after_commands(
                old(self)@,
                old(guard)@,
                cmds@,
            ),
    {
        let mut pending = cmds;
        while pending.len() > 0
            invariant
                spec_after_commands(old(self)@, old(guard)@, cmds@) == spec_after_commands(
                    self@,
                    guard@,
                    pending@,
                ),
            decreases pending@.len(),
        {
            let ghost before = pending@;
            let ghost s0 = self@;
            let ghost g0 = guard@;
            let cmd = pending.remove(0);
            let ghost c0 = cmd;
            proof {
                assert(pending@ =~= before.drop_first());
                assert(before[0] == c0);
            }
            if !self.apply_command(guard, cmd) {
                assert(spec_after_commands(s0, g0, before) == (false, s0, g0));
                return false;
            }
        }
        true
    }

    /// Applies a command from the UI. Returns false for `Shutdown`, on which the
    /// loop ends; it goes on for every other command.
    pub fn apply_command(&mut self, guard: &mut CooldownGuard, cmd: Command) -> (keep_running: bool)
        ensures
            keep_running == !(cmd is Shutdown),
            final(self)@ == spec_after_command(old(self)@, cmd),
            final(guard)@ == spec_guard_after_command(old(guard)@, cmd),
    {
        proof {
            use_type_invariant(&*self);
        }
        match cmd {
            Command::SetReader(name) => {
                self.selected_reader = Some(name);
                self.was_present = false;
                self.card_read = false;
                true
            },
            Command::Pause => {
                self.selected_reader = None;
                true
            },
            Command::Resume => true,
            Command::SetCooldown(ms) => {
                guard.set_cooldown_ms(ms);
                true
            },
            Command::Shutdown => false,
        }
    }

    /// A card is present on the selected reader: it is announced the first time
    /// it is seen, and read once per presence.
    pub fn on_card_present(&mut self) -> (step: PresentStep)
        ensures
            step.announce == !old(self)@.was_present,
            step.read == !old(self)@.card_read,
            final(self)@ == spec_after_present(old(self)@),
    {
        proof {
            use_type_invariant(&*self);
        }
        let step = PresentStep { announce: !self.was_present, read: !self.card_read };
        self.was_present = true;
        self.card_read = true;
        step
    }

    /// No card is on the selected reader: true when one was there before, so its
    /// removal is to be confirmed by a second poll.
    pub fn removal_suspected(&self) -> (check: bool)
        ensures
            check == self@.was_present,
    {
        self.was_present
    }

    /// The second poll confirmed that the card is gone: it may be read again when
    /// it comes back.
    pub fn on_card_removed(&mut self) -> (event: NfcEvent)
        ensures
            event is CardRemoved,
            final(self)@ == spec_after_removed(old(self)@),
            final(self)@.selected_reader == old(self)@.selected_reader,
    {
        proof {
            use_type_invariant(&*self);
        }
        self.was_present = false;
        self.card_read = false;
        NfcEvent::CardRemoved
    }

    /// Polling the selected reader failed (other than by a timeout): the error is
    /// reported as `reader: message` and the reader is dropped.
    pub fn on_poll_error(&mut self, message: &str) -> (event: NfcEvent)
        requires
            old(self)@.selected_reader is Some,
        ensures
            event matches NfcEvent::Error(text) && text@ == old(self)@.selected_reader.unwrap()
                + ": "@ + message@,
            final(self)@ == (PollerView { selected_reader: None, ..old(self)@ }),
    {
        proof {
            use_type_invariant(&*self);
        }
        let mut text = match &self.selected_reader {
            Some(reader) => reader.clone(),
            None => String::new(),
        };
        text.append(": ");
        text.append(message);
        self.selected_reader = None;
        NfcEvent::Error(text)
    }

    /// Counts one loop iteration. Returns true on every twentieth, when the
    /// readers are to be enumerated.
    pub fn tick(&mut self) -> (enumerate: bool)
        ensures
            enumerate == (old(self)@.reader_list_counter + 1 >= READER_LIST_INTERVAL),
            final(self)@ == (PollerView {
                reader_list_counter: spec_next_counter(old(self)@.reader_list_counter),
                ..old(self)@
            }),
            final(self)@.reader_list_counter < READER_LIST_INTERVAL,
    {
        proof {
            use_type_invariant(&*self);
        }
        let next = self.reader_list_counter + 1;
        if next >= READER_LIST_INTERVAL {
            self.reader_list_counter = 0;
            true
        } else {
            self.reader_list_counter = next;
            false
        }
    }
}

/// The event for an enumeration of readers: none when no reader was found.
pub fn readers_event(names: Vec<String>) -> (event: Option<NfcEvent>)
    ensures
        match event {
            Some(NfcEvent::Readers(list)) => list == names && names@.len() > 0,
            Some(_) => false,
            None => names@.len() == 0,
        },
{
    if names.len() == 0 {
        None
    } else {
        Some(NfcEvent::Readers(names))
    }
}

/// What to do after connection attempt number `attempt` failed.
pub enum ConnectStep {
    /// Wait a little and try again.
    Retry,
    /// Give up with this error.
    Fail(String),
}

/// After a failed connection attempt (counted from 1): with no card yet on the
/// reader, try again until the fifth attempt; any other error ends the attempts.
pub fn after_connect_error(attempt: u32, no_card: bool, message: &str) -> (step: ConnectStep)
    ensures
        match step {
            ConnectStep::Retry => no_card && attempt < MAX_CONNECT_ATTEMPTS,
            ConnectStep::Fail(e) => if no_card {
                attempt >= MAX_CONNECT_ATTEMPTS && e@ == "card not ready after retries"@
            } else {
                e@ == "connect error: "@ + message@
            },
        },
{
    if !no_card {
        let mut e = String::from_str("connect error: ");
        e.append(message);
        ConnectStep::Fail(e)
    } else if attempt < MAX_CONNECT_ATTEMPTS {
        ConnectStep::Retry
    } else {
        ConnectStep::Fail(String::from_str("card not ready after retries"))
    }
}

/// Whether a connected card is read: always when its UID could not be had (an
/// empty UID), otherwise when the cooldown guard lets it through.
pub fn accept_card(guard: &mut CooldownGuard, uid: &[u8]) -> (accepted: bool)
    ensures
        uid@.len() == 0 ==> accepted && final(guard)@ == old(guard)@,
        uid@.len() > 0 ==> exists|elapsed: std::time::Duration|
            accepted == spec_allows(old(guard)@, uid@, duration_as_nanos(elapsed)) && final(guard)@
                == spec_after_read(old(guard)@, uid@, duration_as_nanos(elapsed)),
        uid@.len() > 0 ==> exists|now: u128|
            accepted == spec_allows(old(guard)@, uid@, now) && final(guard)@ == spec_after_read(
                old(guard)@,
                uid@,
                now,
            ),
{
    if uid.len() == 0 {
        true
    } else {
        guard.should_process(uid)
    }
}

/// The message for a failed read of tag memory.
pub fn tag_error_message(e: TagError) -> (msg: String)
    ensures
        match e {
            TagError::Tlv(reason) => msg@ == "TLV parse failed: "@ + reason@,
            TagError::NoData => msg@ == "no data retrieved from Type 2 tag"@,
        },
{
    match e {
        TagError::Tlv(reason) => {
            let mut msg = String::from_str("TLV parse failed: ");
            msg.append(reason);
            msg
        },
        TagError::NoData => String::from_str("no data retrieved from Type 2 tag"),
    }
}

/// What a read attempt leads to.
pub enum ReadStep {
    /// The card is done with: send this event (its text, or the error of the last
    /// attempt).
    Report(NfcEvent),
    /// The read failed before the last attempt: disconnect, wait a little, and
    /// connect again for the next attempt.
    Retry,
}

/// After reading the card at connection attempt `attempt` (counted from 1): its
/// content becomes a `Text` event; a failure is retried while attempts remain,
/// and at the last attempt is reported as an `Error` event.
pub fn after_read(attempt: u32, read: Result<Vec<u8>, String>) -> (step: ReadStep)
    ensures
        match read {
            Ok(data) => step matches ReadStep::Report(NfcEvent::Text(t)) && is_card_text(
                data@,
                t@,
            ),
            Err(e) => if attempt < MAX_CONNECT_ATTEMPTS {
                step is Retry
            } else {
                step matches ReadStep::Report(NfcEvent::Error(m)) && m == e
            },
        },
{
    match read {
        Ok(data) => ReadStep::Report(NfcEvent::Text(card_text(data.as_slice()))),
        Err(e) => {
            if attempt < MAX_CONNECT_ATTEMPTS {
                ReadStep::Retry
            } else {
                ReadStep::Report(NfcEvent::Error(e))
            }
        },
    }
}

/// The loop ends exactly when a batch of commands holds a `Shutdown`; pausing,
/// resuming and selecting a reader keep it running.
pub proof fn lemma_only_shutdown_ends_loop(s: PollerView, g: CooldownView, cmds: Seq<Command>)
    ensures
        !spec_after_commands(s, g, cmds).0 <==> exists|i: int| 0 <= i < cmds.len() && cmds[i] is Shutdown,
    decreases cmds.len(),
{
    if cmds.len() > 0 {
        if !(cmds[0] is Shutdown) {
            lemma_only_shutdown_ends_loop(
                spec_after_command(s, cmds[0]),
                spec_guard_after_command(g, cmds[0]),
                cmds.drop_first(),
            );
            if exists|i: int| 0 <= i < cmds.len() && cmds[i] is Shutdown {
                let i = choose|i: int| 0 <= i < cmds.len() && cmds[i] is Shutdown;
                assert(cmds.drop_first()[i - 1] == cmds[i]);
            }
            if exists|i: int| 0 <= i < cmds.len() - 1 && cmds.drop_first()[i] is Shutdown {
                let i = choose|i: int| 0 <= i < cmds.len() - 1 && cmds.drop_first()[i] is Shutdown;
                assert(cmds[i + 1] == cmds.drop_first()[i]);
            }
        }
    }
}

/// Read requests made by `n` polls in a row that each find a card present.
pub open spec fn spec_present_reads(s: PollerView, n: nat) -> nat
    decreases n,
{
    if n == 0 {
        0
    } else {
        (if s.card_read {
            0nat
        } else {
            1nat
        }) + spec_present_reads(spec_after_present(s), (n - 1) as nat)
    }
}

/// Holding a card on the reader reads it once: any number of polls that find it
/// present ask for at most one read, and for none when it was already read.
pub proof fn lemma_one_read_while_held(s: PollerView, n: nat)
    ensures
        spec_present_reads(s, n) <= 1,
        s.card_read ==> spec_present_reads(s, n) == 0,
    decreases n,
{
    if n > 0 {
        lemma_one_read_while_held(spec_after_present(s), (n - 1) as nat);
    }
}

/// A card is announced and read once per presence: seeing it again changes
/// nothing and asks for neither; after its removal it is announced and read anew.
pub proof fn lemma_read_once_per_presence(s: PollerView)
    ensures
        spec_after_present(spec_after_present(s)) == spec_after_present(s),
        spec_after_present(s).was_present && spec_after_present(s).card_read,
        !spec_after_removed(spec_after_present(s)).was_present,
        !spec_after_removed(spec_after_present(s)).card_read,
{
}

/// Selecting a reader always starts afresh: the next card seen on it is
/// announced and read, whatever happened before.
pub proof fn lemma_set_reader_rearms(s: PollerView, name: String)
    ensures
        !spec_after_command(s, Command::SetReader(name)).was_present,
        !spec_after_command(s, Command::SetReader(name)).card_read,
        spec_after_command(s, Command::SetReader(name)).selected_reader == Some(name@),
{
}

/// Readers are enumerated once every twenty iterations: from a counter `c`, `n`
/// iterations enumerate `(c + n) / 20` times and leave the counter at
/// `(c + n) % 20`.
pub proof fn lemma_enumeration_period(c: u32, n: nat)
    requires
        c < READER_LIST_INTERVAL,
    ensures
        spec_ticks(c, n).0 as int == (c + n) % 20,
        spec_ticks(c, n).1 as int == (c + n) / 20,
    decreases n,
{
    if n > 0 {
        lemma_enumeration_period(c, (n - 1) as nat);
        let (c2, k) = spec_ticks(c, (n - 1) as nat);
        assert((c + n) / 20 == if c2 + 1 >= 20 { k as int + 1 } else { k as int }) by (nonlinear_arith)
            requires
                c2 as int == (c + n - 1) % 20,
                k as int == (c + n - 1) / 20,
                n > 0,
                c >= 0,
        ;
        assert((c + n) % 20 == if c2 + 1 >= 20 { 0 } else { c2 + 1 }) by (nonlinear_arith)
            requires
                c2 as int == (c + n - 1) % 20,
                n > 0,
                c >= 0,
        ;
    }
}

/// A card coming and going leaves the reader selected: the loop keeps polling
/// it, and once the removal is confirmed the next card laid on it is announced
/// and read again. Only a pause (or a polling error) drops the reader; no other
/// command leaves the loop without one.
pub proof fn lemma_card_cycle_keeps_reader(s: PollerView, cmd: Command)
    ensures
        spec_after_present(s).selected_reader == s.selected_reader,
        spec_after_removed(s).selected_reader == s.selected_reader,
        spec_after_removed(spec_after_present(s)).selected_reader == s.selected_reader,
        !spec_after_removed(spec_after_present(s)).was_present,
        !spec_after_removed(spec_after_present(s)).card_read,
        spec_after_removed(s).reader_list_counter == s.reader_list_counter,
        (spec_after_command(s, cmd).selected_reader is None && s.selected_reader is Some)
            ==> cmd is Pause,
        cmd is SetReader ==> spec_after_command(s, cmd).selected_reader is Some,
{
}

} // verus!
