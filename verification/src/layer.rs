use vstd::prelude::*;

use crate::converter::{breadcrumb_data_spec, event_to_breadcrumb, message_of, Breadcrumb};
use crate::fields::{FieldData, FieldMap};
use crate::severity::{level_map, TraceLevel};
use crate::store::{snapshot_spec, stored_fields, trail_spec, SpanFieldStore};

verus! {

/// The active span stack as the host runtime reports it: identifier and
/// declared name of each active span, root ancestor first.
pub open spec fn stack_view(stack: Seq<(u64, String)>) -> Seq<(u64, Seq<char>)> {
    stack.map_values(|p: (u64, String)| (p.0, p.1@))
}

/// The emission layer of the primary path: it owns the span field store,
/// feeds it on the span lifecycle callbacks, and assembles one breadcrumb
/// per event.  Depositing the breadcrumb into the error-reporting client is
/// the caller's step.
pub struct SentryBreadcrumbLayer {
    store: SpanFieldStore,
}

impl View for SentryBreadcrumbLayer {
    type V = Map<u64, Map<Seq<char>, FieldData>>;

    closed spec fn view(&self) -> Map<u64, Map<Seq<char>, FieldData>> {
        self.store@
    }
}

impl SentryBreadcrumbLayer {
    /// A layer with no span recorded yet.
    pub fn new() -> (r: Self)
        ensures
            r@ == Map::<u64, Map<Seq<char>, FieldData>>::empty(),
    {
        SentryBreadcrumbLayer { store: SpanFieldStore::new() }
    }

    /// Span-creation callback: record the span's initial fields.
    pub fn on_new_span(&mut self, id: u64, fields: FieldMap)
        ensures
            final(self)@ == old(self)@.insert(
                id,
                stored_fields(old(self)@, id).union_prefer_right(fields@),
            ),
    {
        self.store.record(id, fields);
    }

    /// Span-record callback: merge additional fields into the span's
    /// accumulated mapping, the new entries winning on key collision.
    pub fn on_record(&mut self, id: u64, fields: FieldMap)
        ensures
            final(self)@ == old(self)@.insert(
                id,
                stored_fields(old(self)@, id).union_prefer_right(fields@),
            ),
    {
        self.store.record(id, fields);
    }

    /// Span-enter callback: a pass-through no-op, the span stack is the
    /// host runtime's own bookkeeping.
    pub fn on_enter(&mut self, _id: u64)
        ensures
            final(self)@ == old(self)@,
    {
    }

    /// Span-exit callback: a pass-through no-op, like the enter callback.
    pub fn on_exit(&mut self, _id: u64)
        ensures
            final(self)@ == old(self)@,
    {
    }

    /// Span-destruction callback: drop the span's record.
    pub fn on_close(&mut self, id: u64)
        ensures
            final(self)@ == old(self)@.remove(id),
    {
        self.store.remove_span(id);
    }

    /// The current snapshot of one active span.
    pub fn span_snapshot(&self, id: u64, name: &str) -> (r: FieldMap)
        ensures
            r@ == snapshot_spec(self@, id, name@),
    {
        self.store.snapshot(id, name)
    }

    /// Event callback: assemble the breadcrumb of one event observed under
    /// the given active span stack (root ancestor first; empty when no span
    /// is active).
    pub fn on_event(
        &self,
        level: TraceLevel,
        target: &str,
        fields: FieldMap,
        stack: &Vec<(u64, String)>,
        timestamp: String,
    ) -> (b: Breadcrumb)
        ensures
            b.timestamp@ == timestamp@,
            b.ty@ == "log"@,
            b.category matches Some(c) && c@ == target@,
            b.level == level_map(level),
            match message_of(fields@) {
                Some(ms) => b.message matches Some(m) && m@ == ms,
                None => b.message is None,
            },
            b.data@ == breadcrumb_data_spec(fields@, trail_spec(self@, stack_view(stack@))),
    {
        let trail = self.store.span_trail(stack);
        proof {
            assert(crate::converter::trail_views(trail@) =~= trail_spec(
                self@,
                stack_view(stack@),
            ));
        }
        event_to_breadcrumb(level, target, fields, trail, timestamp)
    }
}

impl Default for SentryBreadcrumbLayer {
    /// A layer with no span recorded yet.
    fn default() -> (r: Self)
        ensures
            r@ == Map::<u64, Map<Seq<char>, FieldData>>::empty(),
    {
        SentryBreadcrumbLayer::new()
    }
}

} // verus!
