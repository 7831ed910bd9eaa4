//! The command processor: validate → append → apply → report.
//!
//! A context owns the projection, the append-only event log and the
//! identifier source, and is the sole writer path into both.  The core
//! guarantee: the log only ever contains events that were valid at the
//! moment they were accepted — a command that fails validation changes
//! neither the log nor the projection, and an accepted command appends
//! exactly one record and applies exactly its specified effect.

use vstd::prelude::*;
use crate::events::{apply_spec, to_map_spec, validate_spec, Event};
use crate::ids::{ulid_text, ulid_to_string, IdGen};
use crate::store::{JailPolicy, OverdraftPolicy, Store};

verus! {

/// One entry of the event log: the event's identifier (the ordering key)
/// and its serialized record.
pub struct LogEntry {
    pub id: u128,
    pub record: Vec<(String, String)>,
}

#[verifier::ext_equal]
pub ghost struct LogEntryView {
    pub id: u128,
    pub record: Seq<(Seq<char>, Seq<char>)>,
}

impl View for LogEntry {
    type V = LogEntryView;

    open spec fn view(&self) -> LogEntryView {
        LogEntryView { id: self.id, record: crate::events::pairs_view(self.record@) }
    }
}

/// The append-only, ordered event log.  Its single operation appends the
/// newest entry; nothing ever reorders or deduplicates it.
pub struct EventStream {
    entries: Vec<LogEntry>,
}

impl View for EventStream {
    type V = Seq<LogEntryView>;

    closed spec fn view(&self) -> Seq<LogEntryView> {
        self.entries@.map_values(|e: LogEntry| e@)
    }
}

impl EventStream {
    pub fn new() -> (s: EventStream)
        ensures
            s@ == Seq::<LogEntryView>::empty(),
    {
        let s = EventStream { entries: Vec::new() };
        proof {
            assert(s@ =~= Seq::<LogEntryView>::empty());
        }
        s
    }

    /// Writes the event's record as the newest entry.
    pub fn append(&mut self, event: &Event)
        ensures
            final(self)@ == old(self)@.push(
                LogEntryView { id: event.id, record: to_map_spec(event@) },
            ),
    {
        let record = event.to_map();
        self.entries.push(LogEntry { id: event.id(), record });
        proof {
            assert(self@ =~= old(self)@.push(
                LogEntryView { id: event.id, record: to_map_spec(event@) },
            ));
        }
    }

    pub fn len(&self) -> (n: usize)
        ensures
            n == self@.len(),
    {
        self.entries.len()
    }

    /// Read access for consumers outside the core (the core itself never
    /// reads the log back).
    pub fn entry(&self, i: usize) -> (e: &LogEntry)
        requires
            i < self@.len(),
        ensures
            e@ == self@[i as int],
    {
        &self.entries[i]
    }
}

/// Identifiers strictly increase along the log.
pub open spec fn ids_increasing(log: Seq<LogEntryView>) -> bool {
    forall|i: int, j: int| 0 <= i < j < log.len() ==> #[trigger] log[i].id < #[trigger] log[j].id
}

/// Every logged identifier is covered by the generator's floor.
pub open spec fn ids_bounded(log: Seq<LogEntryView>, last: Option<u128>) -> bool {
    forall|i: int|
        0 <= i < log.len() ==> match last {
            Some(l) => (#[trigger] log[i]).id <= l,
            None => false,
        }
}

/// The shared state commands run against: the projection, the log, and
/// the identifier source, behind one writer.
pub struct Context {
    pub store: Store,
    pub event_stream: EventStream,
    pub id_gen: IdGen,
}

impl Context {
    pub open spec fn wf(&self) -> bool {
        &&& self.store.wf()
        &&& ids_increasing(self.event_stream@)
        &&& ids_bounded(self.event_stream@, self.id_gen.last)
    }

    /// Fresh for this context: above every logged identifier and covered
    /// by the generator, as an id the context itself just issued is.
    pub open spec fn accepts_id(&self, id: u128) -> bool {
        &&& forall|i: int| 0 <= i < self.event_stream@.len() ==> (#[trigger] self.event_stream@[i]).id < id
        &&& match self.id_gen.last {
            Some(l) => id <= l,
            None => false,
        }
    }

    /// An empty context under the default policies.
    pub fn new() -> (c: Context)
        ensures
            c.wf(),
            c.store@ == Map::<u64, crate::profile::ProfileView>::empty(),
            c.event_stream@ == Seq::<LogEntryView>::empty(),
            c.id_gen.last is None,
            c.store.spec_overdraft_policy() == OverdraftPolicy::Allow,
            c.store.spec_jail_policy() == JailPolicy::Anyone,
    {
        Context { store: Store::new(), event_stream: EventStream::new(), id_gen: IdGen::new() }
    }

    /// An empty context under chosen policies.
    pub fn with_policies(overdraft_policy: OverdraftPolicy, jail_policy: JailPolicy) -> (c: Context)
        ensures
            c.wf(),
            c.store@ == Map::<u64, crate::profile::ProfileView>::empty(),
            c.event_stream@ == Seq::<LogEntryView>::empty(),
            c.id_gen.last is None,
            c.store.spec_overdraft_policy() == overdraft_policy,
            c.store.spec_jail_policy() == jail_policy,
    {
        Context {
            store: Store::with_policies(overdraft_policy, jail_policy),
            event_stream: EventStream::new(),
            id_gen: IdGen::new(),
        }
    }
}

/// The outcome reported to the caller: on failure a descriptive message,
/// on success the accepted event's identifier text.
pub struct Command {
    pub success: bool,
    pub error: Option<String>,
    pub event_id: Option<String>,
}

impl Command {
    pub fn failed(error_message: String) -> (c: Command)
        ensures
            !c.success,
            c.error == Some(error_message),
            c.event_id is None,
    {
        Command { success: false, error: Some(error_message), event_id: None }
    }

    pub fn succeeded(event: &Event) -> (c: Command)
        ensures
            c.success,
            c.error is None,
            match c.event_id {
                Some(s) => s@ == ulid_text(event.id),
                None => false,
            },
    {
        Command { success: true, error: None, event_id: Some(ulid_to_string(event.id)) }
    }
}

/// Processes one command: validates it against the current projection;
/// on failure reports the error with nothing written, on success appends
/// the record to the log, applies the effect, and reports the event id.
pub fn process_event(context: &mut Context, event: &Event) -> (cmd: Command)
    requires
        old(context).wf(),
        old(context).accepts_id(event.id),
    ensures
        final(context).wf(),
        final(context).id_gen == old(context).id_gen,
        final(context).store.spec_overdraft_policy() == old(context).store.spec_overdraft_policy(),
        final(context).store.spec_jail_policy() == old(context).store.spec_jail_policy(),
        match validate_spec(
            event.payload@,
            old(context).store@,
            old(context).store.spec_overdraft_policy(),
            old(context).store.spec_jail_policy(),
        ) {
            Err(e) => {
                &&& !cmd.success
                &&& match cmd.error {
                    Some(m) => m@ == e.message_spec(),
                    None => false,
                }
                &&& cmd.event_id is None
                &&& *final(context) == *old(context)
            },
            Ok(()) => {
                &&& cmd.success
                &&& cmd.error is None
                &&& match cmd.event_id {
                    Some(s) => s@ == ulid_text(event.id),
                    None => false,
                }
                &&& final(context).event_stream@ == old(context).event_stream@.push(
                    LogEntryView { id: event.id, record: to_map_spec(event@) },
                )
                &&& final(context).store@ == apply_spec(event@, old(context).store@)
            },
        },
{
    match event.validate(&context.store) {
        Err(e) => Command::failed(e.message()),
        Ok(()) => {
            context.event_stream.append(event);
            let _ = event.exec(&mut context.store);
            proof {
                let log = context.event_stream@;
                assert(ids_increasing(log)) by {
                    assert forall|i: int, j: int| 0 <= i < j < log.len() implies #[trigger] log[i].id
                        < #[trigger] log[j].id by {
                        if j < log.len() - 1 {
                            assert(log[i] == old(context).event_stream@[i]);
                            assert(log[j] == old(context).event_stream@[j]);
                        } else {
                            assert(log[i] == old(context).event_stream@[i]);
                            assert(log[j].id == event.id);
                        }
                    }
                }
                assert(ids_bounded(log, context.id_gen.last)) by {
                    assert forall|i: int| 0 <= i < log.len() implies match context.id_gen.last {
                        Some(l) => (#[trigger] log[i]).id <= l,
                        None => false,
                    } by {
                        if i < log.len() - 1 {
                            assert(log[i] == old(context).event_stream@[i]);
                        } else {
                            assert(log[i].id == event.id);
                        }
                    }
                }
            }
            Command::succeeded(event)
        },
    }
}

} // verus!
