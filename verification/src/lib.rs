use vstd::prelude::*;

pub mod converter;
pub mod fields;
pub mod jsonline;
pub mod layer;
pub mod rfc3339;
pub mod severity;
pub mod store;
pub mod text;

use crate::converter::Breadcrumb;
use crate::jsonline::{crumbs_of, scan_lines, SentryBreadcrumbWriterInner};

verus! {

/// The roundtrip-backed layer: the host runtime's JSON formatter writes
/// each event as one JSON line into the line-buffered sink that this layer
/// owns, and every completed line is parsed back into a breadcrumb.  This
/// backend is output-equivalent to the hook-based layer for the event
/// fields and the message, but carries no span trail.
pub struct SentryBreadcrumbLayer {
    writer: SentryBreadcrumbWriterInner,
}

impl View for SentryBreadcrumbLayer {
    type V = Seq<u8>;

    closed spec fn view(&self) -> Seq<u8> {
        self.writer@
    }
}

impl SentryBreadcrumbLayer {
    /// A layer whose sink holds no buffered bytes yet.
    pub fn new() -> (r: Self)
        ensures
            r@ == Seq::<u8>::empty(),
    {
        SentryBreadcrumbLayer { writer: SentryBreadcrumbWriterInner::new() }
    }

    /// Feed formatted log bytes to the sink and hand back the breadcrumb
    /// of every line that a newline completed, in order.
    pub fn write(&mut self, bytes: &[u8]) -> (out: Vec<Breadcrumb>)
        ensures
            final(self)@ == scan_lines(old(self)@, bytes@).0,
            crumbs_of(out@, scan_lines(old(self)@, bytes@).1),
    {
        self.writer.write(bytes)
    }

    /// Flushing is a no-op: an incomplete line stays buffered.
    pub fn flush(&mut self)
        ensures
            final(self)@ == old(self)@,
    {
        self.writer.flush()
    }
}

impl Default for SentryBreadcrumbLayer {
    /// A layer whose sink holds no buffered bytes yet.
    fn default() -> (r: Self)
        ensures
            r@ == Seq::<u8>::empty(),
    {
        SentryBreadcrumbLayer::new()
    }
}

/// A fresh roundtrip-backed layer.
pub fn layer() -> (r: SentryBreadcrumbLayer)
    ensures
        r@ == Seq::<u8>::empty(),
{
    SentryBreadcrumbLayer::new()
}

} // verus!
