//! A live PID201 stream that is archived as it comes in.

use vstd::prelude::*;

use crate::error::ParseError;
use crate::ingest::{TransportDescriptor, TransportKind};
use crate::pid201;
use crate::pid201::{Pid201DrainState, Pid201Record, Pid201StreamAdapter};
use crate::product;
use crate::product::NwwsContent;
use crate::runtime;
use crate::runtime::{
    IngestService, PreparedRecord, PreparedView, RecordPlan, RecordSource, RuntimeError,
    ServiceView,
};
use crate::stream;

verus! {

/// The records of the messages from `i` on, up to the first that cannot be
/// read, appended to `done`; and the error of that one.
pub open spec fn readable(
    messages: Seq<Seq<u8>>,
    now: int,
    i: int,
    done: Seq<PreparedView>,
) -> (Seq<PreparedView>, Option<RuntimeError>)
    decreases messages.len() - i,
{
    if i < 0 || i >= messages.len() {
        (done, None)
    } else {
        match prepared_message(messages[i], now) {
            Ok(record) => readable(messages, now, i + 1, done.push(record)),
            Err(e) => (done, Some(e)),
        }
    }
}

/// The record of a framed message that was captured at the instant.
pub open spec fn prepared_message(message: Seq<u8>, now: int) -> runtime::Result<PreparedView> {
    match product::parse_content(message) {
        Err(kind) => Err(RuntimeError::Parse(ParseError { kind })),
        Ok(content) => runtime::prepared(
            RecordSource::SatellitePid201,
            TransportKind::SatellitePid201,
            message,
            content,
            (None, None),
            now,
        ),
    }
}

fn prepare_message(message: Vec<u8>, now: i128) -> (r: runtime::Result<PreparedRecord>)
    ensures
        runtime::prepared_outcome(r) == prepared_message(message@, now as int),
{
    let content = match NwwsContent::parse_bulletin(message.as_slice()) {
        Ok(c) => c,
        Err(e) => {
            return Err(RuntimeError::Parse(e));
        },
    };
    runtime::record_from_content(
        RecordSource::SatellitePid201,
        TransportDescriptor::satellite_pid201(),
        message,
        &content,
        None,
        None,
        now,
    )
}

/// What is to be done about a chunk of a stream: the plans of the messages
/// that were read, and the error that ended the reading.
#[derive(Debug, Clone, PartialEq, Eq)]
pub struct SessionReport {
    pub plans: Vec<RecordPlan>,
    pub error: Option<RuntimeError>,
}

/// Reads a stream in chunks and hands its messages to a service.
pub struct Pid201IngestSession {
    adapter: Pid201StreamAdapter,
    service: IngestService,
}

proof fn lemma_plans_push(service: ServiceView, records: Seq<PreparedView>, next: PreparedView)
    ensures
        runtime::plans_for(service, records.push(next)) == runtime::plans_for(
            service,
            records,
        ).push(runtime::plan_for(runtime::after_records(service, records), next)),
        runtime::after_records(service, records.push(next)) == runtime::after_record(
            runtime::after_records(service, records),
            next,
        ),
{
    let more = records.push(next);
    assert(more.drop_last() =~= records);
    let have = runtime::plans_for(service, more);
    let want = runtime::plans_for(service, records).push(
        runtime::plan_for(runtime::after_records(service, records), next),
    );
    assert forall|i: int| 0 <= i < have.len() implies have[i] == want[i] by {
        if i < records.len() {
            assert(more.take(i) =~= records.take(i));
        } else {
            assert(more.take(i) =~= records);
        }
    }
    assert(have =~= want);
}

impl Pid201IngestSession {
    pub closed spec fn spec_adapter(&self) -> Pid201StreamAdapter {
        self.adapter
    }

    pub closed spec fn spec_service(&self) -> IngestService {
        self.service
    }

    /// A session at the start of a stream.
    pub fn new(service: IngestService) -> (r: Pid201IngestSession)
        ensures
            r.spec_service() == service,
            r.spec_adapter().spec_pending() == Seq::<u8>::empty(),
            r.spec_adapter().spec_junk() == 0,
    {
        Self::with_adapter(Pid201StreamAdapter::new(), service)
    }

    /// A session that goes on with a stream.
    pub fn with_adapter(adapter: Pid201StreamAdapter, service: IngestService) -> (r:
        Pid201IngestSession)
        ensures
            r.spec_adapter() == adapter,
            r.spec_service() == service,
    {
        Pid201IngestSession { adapter, service }
    }

    /// Takes a chunk of the stream, captured at the instant. The frames that
    /// it completes are processed in order, up to the first that cannot be
    /// read.
    pub fn push(&mut self, chunk: &[u8], now: i128) -> (r: SessionReport)
        ensures
            ({
                let input = old(self).spec_adapter().spec_pending() + chunk@;
                let read = readable(stream::frames(input), now as int, 0, Seq::empty());
                let service = old(self).spec_service()@;
                &&& r.plans.deep_view() == runtime::plans_for(service, read.0)
                &&& r.error == read.1
                &&& final(self).spec_service()@ == runtime::after_records(service, read.0)
                &&& final(self).spec_adapter().spec_pending() == stream::unfinished(input)
                &&& final(self).spec_adapter().spec_junk() == pid201::capped_sum(
                    old(self).spec_adapter().spec_junk(),
                    stream::junk(input),
                )
            }),
    {
        let records = self.adapter.push(chunk);
        self.process_records(records, now)
    }

    fn process_records(&mut self, records: Vec<Pid201Record>, now: i128) -> (r: SessionReport)
        ensures
            ({
                let read = readable(
                    pid201::raw_messages(records@),
                    now as int,
                    0,
                    Seq::empty(),
                );
                let service = old(self).spec_service()@;
                &&& r.plans.deep_view() == runtime::plans_for(service, read.0)
                &&& r.error == read.1
                &&& final(self).spec_service()@ == runtime::after_records(service, read.0)
                &&& final(self).spec_adapter() == old(self).spec_adapter()
            }),
    {
        let ghost messages = pid201::raw_messages(records@);
        let ghost start = self.service@;
        let ghost adapter = self.adapter;
        let ghost mut done = Seq::<PreparedView>::empty();
        let mut plans: Vec<RecordPlan> = Vec::new();
        let mut i: usize = 0;
        assert(plans.deep_view() =~= runtime::plans_for(start, done));
        while i < records.len()
            invariant
                i <= records@.len(),
                messages == pid201::raw_messages(records@),
                start == old(self).spec_service()@,
                adapter == old(self).spec_adapter(),
                readable(messages, now as int, 0, Seq::empty()) == readable(
                    messages,
                    now as int,
                    i as int,
                    done,
                ),
                self.service@ == runtime::after_records(start, done),
                self.adapter == adapter,
                plans.deep_view() == runtime::plans_for(start, done),
            decreases records.len() - i,
        {
            let ghost before = plans.deep_view();
            let raw = stream::copy_bytes(records[i].raw_message.as_slice());
            assert(raw@ == messages[i as int]);
            let record = match prepare_message(raw, now) {
                Ok(v) => v,
                Err(e) => {
                    return SessionReport { plans, error: Some(e) };
                },
            };
            let ghost view = record.deep_view();
            let plan = self.service.process_record(record);
            plans.push(plan);
            proof {
                lemma_plans_push(start, done, view);
                assert(plans.deep_view() =~= before.push(plan.deep_view()));
                done = done.push(view);
            }
            i += 1;
        }
        SessionReport { plans, error: None }
    }

    /// The bytes of the frame that has begun and not ended.
    pub fn pending(&self) -> (r: &[u8])
        ensures
            r@ == self.spec_adapter().spec_pending(),
    {
        self.adapter.pending()
    }

    /// Ends the stream: says what is left of it and starts afresh.
    pub fn finish(&mut self) -> (r: Pid201DrainState)
        ensures
            r.pending_bytes == old(self).spec_adapter().spec_pending().len(),
            r.discarded_junk == old(self).spec_adapter().spec_junk(),
            final(self).spec_adapter().spec_pending() == Seq::<u8>::empty(),
            final(self).spec_adapter().spec_junk() == 0,
            final(self).spec_service() == old(self).spec_service(),
    {
        self.adapter.finish()
    }

    pub fn service(&self) -> (r: &IngestService)
        ensures
            *r == self.spec_service(),
    {
        &self.service
    }

    pub fn service_mut(&mut self) -> (r: &mut IngestService)
        ensures
            *r == old(self).spec_service(),
            final(self).spec_service() == *final(r),
            final(self).spec_adapter() == old(self).spec_adapter(),
    {
        &mut self.service
    }
}

} // verus!
