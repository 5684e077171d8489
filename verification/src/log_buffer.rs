//! In-memory ring buffer of the most recent log entries, shown in the log tab.
use vstd::prelude::*;
use std::collections::VecDeque;

verus! {

/// Entries kept at most; older ones are dropped.
pub const MAX_LOGS: usize = 500;

/// One captured log event.
#[derive(Clone, Debug)]
pub struct LogEntry {
    pub timestamp: String,
    pub level: String,
    pub message: String,
}

impl View for LogEntry {
    type V = (Seq<char>, Seq<char>, Seq<char>);

    open spec fn view(&self) -> (Seq<char>, Seq<char>, Seq<char>) {
        (self.timestamp@, self.level@, self.message@)
    }
}

/// The entries after one more is pushed: when the buffer is full, the oldest
/// entry makes room.
pub open spec fn spec_push<A>(s: Seq<A>, e: A) -> Seq<A> {
    if s.len() >= MAX_LOGS {
        s.drop_first().push(e)
    } else {
        s.push(e)
    }
}

/// The entries after pushing each of `es` in turn.
pub open spec fn spec_push_all<A>(s: Seq<A>, es: Seq<A>) -> Seq<A>
    decreases es.len(),
{
    if es.len() == 0 {
        s
    } else {
        spec_push(spec_push_all(s, es.drop_last()), es.last())
    }
}

/// The last `MAX_LOGS` elements of `s` (all of them when there are fewer).
pub open spec fn spec_newest<A>(s: Seq<A>) -> Seq<A> {
    if s.len() > MAX_LOGS {
        s.skip(s.len() - MAX_LOGS)
    } else {
        s
    }
}

/// Circular buffer of the most recent log entries, oldest first.
pub struct LogBuffer {
    entries: VecDeque<LogEntry>,
}

impl View for LogBuffer {
    type V = Seq<(Seq<char>, Seq<char>, Seq<char>)>;

    closed spec fn view(&self) -> Seq<(Seq<char>, Seq<char>, Seq<char>)> {
        self.entries@.map_values(|e: LogEntry| e@)
    }
}

impl LogBuffer {
    #[verifier::type_invariant]
    spec fn within_capacity(&self) -> bool {
        self.entries@.len() <= MAX_LOGS
    }

    /// An empty buffer.
    pub fn new() -> (b: Self)
        ensures
            b@ == Seq::<(Seq<char>, Seq<char>, Seq<char>)>::empty(),
    {
        let b = LogBuffer { entries: VecDeque::with_capacity(MAX_LOGS) };
        assert(b@ =~= Seq::<(Seq<char>, Seq<char>, Seq<char>)>::empty());
        b
    }

    /// Appends an entry, dropping the oldest one when the buffer is full.
    pub fn push(&mut self, entry: LogEntry)
        ensures
            final(self)@ == spec_push(old(self)@, entry@),
            final(self)@.len() <= MAX_LOGS,
    {
        proof {
            use_type_invariant(&*self);
        }
        let ghost old_entries = self.entries@;
        let mut entries: VecDeque<LogEntry> = VecDeque::new();
        std::mem::swap(&mut entries, &mut self.entries);
        if entries.len() >= MAX_LOGS {
            entries.pop_front();
        }
        entries.push_back(entry);
        std::mem::swap(&mut entries, &mut self.entries);
        proof {
            let ghost ov = old_entries.map_values(|e: LogEntry| e@);
            if old_entries.len() >= MAX_LOGS {
                assert(self@ =~= ov.drop_first().push(entry@));
            } else {
                assert(self@ =~= ov.push(entry@));
            }
        }
    }

    /// Copies of all entries, oldest first.
    pub fn get_all(&self) -> (all: Vec<LogEntry>)
        ensures
            all@.map_values(|e: LogEntry| e@) == self@,
            all@.len() <= MAX_LOGS,
    {
        proof {
            use_type_invariant(self);
        }
        let mut all: Vec<LogEntry> = Vec::new();
        let mut i: usize = 0;
        while i < self.entries.len()
            invariant
                i <= self.entries@.len(),
                all@.len() == i,
                forall|j: int| 0 <= j < i ==> #[trigger] all@[j]@ == self.entries@[j]@,
            decreases self.entries@.len() - i,
        {
            let e = &self.entries[i];
            all.push(
                LogEntry {
                    timestamp: e.timestamp.clone(),
                    level: e.level.clone(),
                    message: e.message.clone(),
                },
            );
            i = i + 1;
        }
        assert(all@.map_values(|e: LogEntry| e@) =~= self@);
        all
    }
}

/// Pushing entries one by one into a buffer keeps exactly the newest `MAX_LOGS`
/// of everything pushed, in the order they came.
pub proof fn lemma_keeps_newest<A>(s: Seq<A>, es: Seq<A>)
    requires
        s.len() <= MAX_LOGS,
    ensures
        spec_push_all(s, es) == spec_newest(s + es),
    decreases es.len(),
{
    if es.len() == 0 {
        assert(s + es =~= s);
    } else {
        lemma_keeps_newest(s, es.drop_last());
        let t = s + es.drop_last();
        let e = es.last();
        assert(s + es =~= t.push(e));
        let p = spec_newest(t);
        if t.len() >= MAX_LOGS {
            assert(p.drop_first().push(e) =~= t.push(e).skip(t.push(e).len() - MAX_LOGS));
        } else {
            assert(spec_newest(t.push(e)) =~= t.push(e));
        }
    }
}

/// Appends one field of a log event to its message text, as the log layer's
/// visitor does: fields are separated by a space, and a field other than
/// `message` is written as `name=value`.
pub fn append_field(message: &mut String, field_name: &str, value: &str)
    ensures
        final(message)@ == (if old(message)@.len() > 0 {
            old(message)@ + " "@
        } else {
            old(message)@
        }) + (if field_name@ == "message"@ {
            value@
        } else {
            field_name@ + "="@ + value@
        }),
{
    if !message.as_str().is_empty() {
        message.append(" ");
    }
    if String::from_str(field_name) == String::from_str("message") {
        message.append(value);
    } else {
        message.append(field_name);
        message.append("=");
        message.append(value);
    }
}

/// The capture side of the log: records events into a `LogBuffer`.
pub struct LogBufferLayer {
    buffer: LogBuffer,
}

impl View for LogBufferLayer {
    type V = Seq<(Seq<char>, Seq<char>, Seq<char>)>;

    closed spec fn view(&self) -> Seq<(Seq<char>, Seq<char>, Seq<char>)> {
        self.buffer@
    }
}

impl LogBufferLayer {
    /// A layer that records into `buffer`.
    pub fn new(buffer: LogBuffer) -> (layer: Self)
        ensures
            layer@ == buffer@,
    {
        LogBufferLayer { buffer }
    }

    /// The buffer recorded into.
    pub fn buffer(&self) -> (b: &LogBuffer)
        ensures
            b@ == self@,
    {
        &self.buffer
    }

    /// Records one event.
    pub fn record(&mut self, timestamp: String, level: String, message: String)
        ensures
            final(self)@ == spec_push(old(self)@, (timestamp@, level@, message@)),
    {
        self.buffer.push(LogEntry { timestamp, level, message });
    }
}

} // verus!
