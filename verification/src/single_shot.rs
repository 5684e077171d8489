//! Suppression of duplicate reads of the same card within a cooldown period.
use vstd::prelude::*;
use std::time::{Duration, Instant};

verus! {

#[verifier::external_type_specification]
#[verifier::external_body]
pub struct ExInstant(Instant);

/// The whole number of nanoseconds in a `Duration`, as `Duration::as_nanos` gives it.
pub uninterp spec fn duration_as_nanos(d: Duration) -> u128;

/// `Duration::as_nanos`. Claims that the result is `duration_as_nanos` of the duration.
#[verifier::external_body]
fn duration_nanos(d: &Duration) -> (n: u128)
    ensures
        n == duration_as_nanos(*d),
{
    d.as_nanos()
}

/// `Instant::now`. Nothing is claimed of the instant it returns.
#[verifier::external_body]
fn instant_now() -> Instant {
    Instant::now()
}

/// `Instant::elapsed`. Nothing is claimed of the time it measures.
#[verifier::external_body]
fn instant_elapsed(origin: &Instant) -> Duration {
    origin.elapsed()
}

/// Nanoseconds in a millisecond.
pub const NANOS_PER_MILLI: u128 = 1_000_000;

/// The guard with its cooldown set to `ms` milliseconds.
pub open spec fn spec_with_cooldown_ms(s: CooldownView, ms: u64) -> CooldownView {
    CooldownView { cooldown_nanos: (ms * NANOS_PER_MILLI) as u128, ..s }
}

/// What a guard remembers: the last accepted UID, when it was accepted (in
/// nanoseconds on the guard's own clock), and the cooldown in nanoseconds.
pub struct CooldownView {
    pub last_uid: Option<Seq<u8>>,
    pub last_time: Option<u128>,
    pub cooldown_nanos: u128,
}

/// `later - earlier`, or zero when `later` comes first (as `Instant::duration_since`
/// saturates).
pub open spec fn elapsed_between(earlier: u128, later: u128) -> int {
    if later >= earlier {
        later - earlier
    } else {
        0
    }
}

/// Whether a read of `uid` at time `now` is processed: the first read always is,
/// and so is a different UID, or the same UID once the cooldown has passed since
/// it was last accepted.
pub open spec fn spec_allows(s: CooldownView, uid: Seq<u8>, now: u128) -> bool {
    match (s.last_uid, s.last_time) {
        (Some(last), Some(t)) => last != uid || elapsed_between(t, now) >= s.cooldown_nanos,
        _ => true,
    }
}

/// The guard after a read of `uid` at `now`: an accepted read is remembered; a
/// refused one changes nothing.
pub open spec fn spec_after_read(s: CooldownView, uid: Seq<u8>, now: u128) -> CooldownView {
    if spec_allows(s, uid, now) {
        CooldownView { last_uid: Some(uid), last_time: Some(now), cooldown_nanos: s.cooldown_nanos }
    } else {
        s
    }
}

/// Guards against duplicate NFC reads within a cooldown period. Tracks the last
/// accepted UID and the time it was accepted.
pub struct CooldownGuard {
    last_uid: Option<Vec<u8>>,
    last_time: Option<u128>,
    cooldown_nanos: u128,
    origin: Instant,
}

impl View for CooldownGuard {
    type V = CooldownView;

    closed spec fn view(&self) -> CooldownView {
        CooldownView {
            last_uid: match self.last_uid {
                Some(v) => Some(v@),
                None => None,
            },
            last_time: self.last_time,
            cooldown_nanos: self.cooldown_nanos,
        }
    }
}

/// Whether two byte strings are equal.
fn bytes_equal(a: &[u8], b: &[u8]) -> (eq: bool)
    ensures
        eq == (a@ == b@),
{
    if a.len() != b.len() {
        return false;
    }
    let mut i: usize = 0;
    while i < a.len()
        invariant
            a@.len() == b@.len(),
            i <= a@.len(),
            forall|j: int| 0 <= j < i ==> a@[j] == b@[j],
        decreases a@.len() - i,
    {
        if a[i] != b[i] {
            return false;
        }
        i = i + 1;
    }
    assert(a@ =~= b@);
    true
}

impl CooldownGuard {
    /// A guard with the given cooldown that has seen no read yet.
    pub fn new(cooldown: Duration) -> (g: Self)
        ensures
            g@ == (CooldownView {
                last_uid: None,
                last_time: None,
                cooldown_nanos: duration_as_nanos(cooldown),
            }),
    {
        CooldownGuard {
            last_uid: None,
            last_time: None,
            cooldown_nanos: duration_nanos(&cooldown),
            origin: instant_now(),
        }
    }

    /// A guard with a cooldown of `ms` milliseconds that has seen no read yet.
    pub fn from_millis(ms: u64) -> (g: Self)
        ensures
            g@.last_uid is None,
            g@.last_time is None,
            g@.cooldown_nanos == ms * NANOS_PER_MILLI,
    {
        CooldownGuard {
            last_uid: None,
            last_time: None,
            cooldown_nanos: ms as u128 * 1_000_000,
            origin: instant_now(),
        }
    }

    /// Decides whether a read of `uid` at time `now` (nanoseconds on the guard's
    /// clock) is processed, and remembers it when it is.
    pub fn should_process_at(&mut self, uid: &[u8], now: u128) -> (allow: bool)
        ensures
            allow == spec_allows(old(self)@, uid@, now),
            final(self)@ == spec_after_read(old(self)@, uid@, now),
    {
        let allow = match (&self.last_uid, self.last_time) {
            (Some(last), Some(time)) => {
                let elapsed: u128 = if now >= time {
                    now - time
                } else {
                    0
                };
                !bytes_equal(last.as_slice(), uid) || elapsed >= self.cooldown_nanos
            },
            _ => true,
        };
        if allow {
            self.last_uid = Some(vstd::slice::slice_to_vec(uid));
            self.last_time = Some(now);
        }
        allow
    }

    /// Checks whether the given UID should be processed now: true for the first
    /// read, for a UID different from the last accepted one, or once the cooldown
    /// has elapsed since the last accepted read.
    pub fn should_process(&mut self, uid: &[u8]) -> (allow: bool)
        ensures
            exists|elapsed: Duration|
                allow == spec_allows(old(self)@, uid@, duration_as_nanos(elapsed)) && final(self)@
                    == spec_after_read(old(self)@, uid@, duration_as_nanos(elapsed)),
            exists|now: u128|
                allow == spec_allows(old(self)@, uid@, now) && final(self)@ == spec_after_read(
                    old(self)@,
                    uid@,
                    now,
                ),
            old(self)@.last_uid is None ==> allow,
            (old(self)@.last_uid matches Some(last) && last != uid@) ==> allow,
    {
        let elapsed = instant_elapsed(&self.origin);
        self.should_process_after(uid, elapsed)
    }

    /// Decides whether a read of `uid` is processed when `elapsed` has passed on
    /// the guard's clock: the time is taken as the whole nanoseconds of `elapsed`,
    /// the unit of the cooldown.
    pub fn should_process_after(&mut self, uid: &[u8], elapsed: Duration) -> (allow: bool)
        ensures
            allow == spec_allows(old(self)@, uid@, duration_as_nanos(elapsed)),
            final(self)@ == spec_after_read(old(self)@, uid@, duration_as_nanos(elapsed)),
    {
        let now = duration_nanos(&elapsed);
        self.should_process_at(uid, now)
    }

    /// Updates the cooldown duration; what was last accepted is kept.
    pub fn set_cooldown(&mut self, cooldown: Duration)
        ensures
            final(self)@ == (CooldownView { cooldown_nanos: duration_as_nanos(cooldown), ..old(self)@ }),
    {
        self.cooldown_nanos = duration_nanos(&cooldown);
    }

    /// Updates the cooldown to `ms` milliseconds; what was last accepted is kept.
    pub fn set_cooldown_ms(&mut self, ms: u64)
        ensures
            final(self)@ == spec_with_cooldown_ms(old(self)@, ms),
            final(self)@.cooldown_nanos == ms * NANOS_PER_MILLI,
    {
        self.cooldown_nanos = ms as u128 * 1_000_000;
    }
}

/// How the guard treats a UID after it accepted it at time `t`: the same UID is
/// refused, with nothing changed, until the cooldown has passed since `t`, and
/// accepted afterwards; any other UID is accepted at once.
pub proof fn lemma_cooldown_window(s: CooldownView, uid: Seq<u8>, other: Seq<u8>, t: u128, later: u128)
    requires
        spec_allows(s, uid, t),
        t <= later,
        other != uid,
    ensures
        (later - t < s.cooldown_nanos) ==> !spec_allows(spec_after_read(s, uid, t), uid, later)
            && spec_after_read(spec_after_read(s, uid, t), uid, later) == spec_after_read(s, uid, t),
        (later - t >= s.cooldown_nanos) ==> spec_allows(spec_after_read(s, uid, t), uid, later),
        spec_allows(spec_after_read(s, uid, t), other, later),
{
}

/// The guard after reads of `uid` at each of `times`, in order.
pub open spec fn spec_after_reads(s: CooldownView, uid: Seq<u8>, times: Seq<u128>) -> CooldownView
    decreases times.len(),
{
    if times.len() == 0 {
        s
    } else {
        spec_after_reads(spec_after_read(s, uid, times[0]), uid, times.drop_first())
    }
}

/// The cooldown counts from the last accepted read: after `uid` is accepted at
/// `t0`, any number of reads of it before the cooldown has passed are refused and
/// change nothing, and the first read once it has passed is accepted.
pub proof fn lemma_window_counts_from_accepted_read(
    s: CooldownView,
    uid: Seq<u8>,
    t0: u128,
    times: Seq<u128>,
    now: u128,
)
    requires
        spec_allows(s, uid, t0),
        forall|i: int| 0 <= i < times.len() ==> t0 <= #[trigger] times[i] && times[i] - t0
            < s.cooldown_nanos,
        t0 <= now,
        now - t0 >= s.cooldown_nanos,
    ensures
        spec_after_reads(spec_after_read(s, uid, t0), uid, times) == spec_after_read(s, uid, t0),
        spec_allows(spec_after_reads(spec_after_read(s, uid, t0), uid, times), uid, now),
    decreases times.len(),
{
    if times.len() > 0 {
        let s1 = spec_after_read(s, uid, t0);
        assert(t0 <= times[0] && times[0] - t0 < s.cooldown_nanos);
        assert(spec_after_read(s1, uid, times[0]) == s1);
        assert forall|i: int| 0 <= i < times.drop_first().len() implies t0 <= #[trigger] times.drop_first()[i]
            && times.drop_first()[i] - t0 < s.cooldown_nanos by {
            assert(times.drop_first()[i] == times[i + 1]);
        }
        lemma_window_counts_from_accepted_read(s, uid, t0, times.drop_first(), now);
    }
}

/// A refused read leaves the guard as it was, so refused reads never push the end
/// of the cooldown further out.
pub proof fn lemma_refused_read_changes_nothing(s: CooldownView, uid: Seq<u8>, now: u128)
    requires
        !spec_allows(s, uid, now),
    ensures
        spec_after_read(s, uid, now) == s,
{
}

/// A cooldown of `ms` milliseconds is measured on the nanoseconds of the time
/// elapsed on the guard's clock: once `uid` was accepted at elapsed time `d0`, it
/// is refused at a later `d1` less than `ms` milliseconds after, and accepted at
/// one `ms` milliseconds after or more.
pub proof fn lemma_cooldown_in_millis(s: CooldownView, ms: u64, uid: Seq<u8>, d0: Duration, d1: Duration)
    requires
        spec_allows(spec_with_cooldown_ms(s, ms), uid, duration_as_nanos(d0)),
        duration_as_nanos(d0) <= duration_as_nanos(d1),
    ensures
        duration_as_nanos(d1) - duration_as_nanos(d0) < ms * NANOS_PER_MILLI ==> !spec_allows(
            spec_after_read(spec_with_cooldown_ms(s, ms), uid, duration_as_nanos(d0)),
            uid,
            duration_as_nanos(d1),
        ),
        duration_as_nanos(d1) - duration_as_nanos(d0) >= ms * NANOS_PER_MILLI ==> spec_allows(
            spec_after_read(spec_with_cooldown_ms(s, ms), uid, duration_as_nanos(d0)),
            uid,
            duration_as_nanos(d1),
        ),
{
    assert(ms * NANOS_PER_MILLI <= u64::MAX * 1_000_000) by (nonlinear_arith)
        requires ms <= u64::MAX;
}

} // verus!
