//! Choosing the typed read for a channel, checking what came back, and the two
//! policies that decide which channels of a batch yield records.
use crate::types::{Info, RawValue, WireType};
use crate::{UnifiedError, UnifiedResult};
use vstd::prelude::*;

verus! {

/// The typed read to issue: one for each supported pair of wire type and arity.
#[derive(Debug, Clone, Copy, PartialEq, Eq, Structural)]
pub enum ReadPlan {
    Char,
    Short,
    Long,
    Enum,
    Float,
    Double,
    String,
    ShortArray,
    LongArray,
    FloatArray,
    DoubleArray,
    StringArray,
}

/// Whether a reading exists for the wire type with this arity.
pub open spec fn supported(wire: WireType, scalar: bool) -> bool {
    scalar || !(wire == WireType::Char || wire == WireType::Enum)
}

/// The wire type that a plan reads.
pub open spec fn plan_wire(p: ReadPlan) -> WireType {
    match p {
        ReadPlan::Char => WireType::Char,
        ReadPlan::Short | ReadPlan::ShortArray => WireType::Short,
        ReadPlan::Long | ReadPlan::LongArray => WireType::Long,
        ReadPlan::Enum => WireType::Enum,
        ReadPlan::Float | ReadPlan::FloatArray => WireType::Float,
        ReadPlan::Double | ReadPlan::DoubleArray => WireType::Double,
        ReadPlan::String | ReadPlan::StringArray => WireType::String,
    }
}

/// Whether a plan reads a single element.
pub open spec fn plan_scalar(p: ReadPlan) -> bool {
    match p {
        ReadPlan::ShortArray | ReadPlan::LongArray | ReadPlan::FloatArray
        | ReadPlan::DoubleArray | ReadPlan::StringArray => false,
        _ => true,
    }
}

/// The plan that a decoded value answers to.
pub open spec fn plan_of(v: RawValue) -> ReadPlan {
    match v {
        RawValue::Char(_) => ReadPlan::Char,
        RawValue::Short(_) => ReadPlan::Short,
        RawValue::Long(_) => ReadPlan::Long,
        RawValue::Enum(_) => ReadPlan::Enum,
        RawValue::Float(_) => ReadPlan::Float,
        RawValue::Double(_) => ReadPlan::Double,
        RawValue::String(_) => ReadPlan::String,
        RawValue::ShortArray(_) => ReadPlan::ShortArray,
        RawValue::LongArray(_) => ReadPlan::LongArray,
        RawValue::FloatArray(_) => ReadPlan::FloatArray,
        RawValue::DoubleArray(_) => ReadPlan::DoubleArray,
        RawValue::StringArray(_) => ReadPlan::StringArray,
    }
}

/// The dispatch table: the plan for a channel of this wire type and element count.
pub open spec fn plan_for(wire: WireType, elements: usize) -> Result<ReadPlan, UnifiedError> {
    if elements == 1 {
        Ok(match wire {
            WireType::Char => ReadPlan::Char,
            WireType::Short => ReadPlan::Short,
            WireType::Enum => ReadPlan::Enum,
            WireType::Long => ReadPlan::Long,
            WireType::Float => ReadPlan::Float,
            WireType::Double => ReadPlan::Double,
            WireType::String => ReadPlan::String,
        })
    } else {
        match wire {
            WireType::Short => Ok(ReadPlan::ShortArray),
            WireType::Long => Ok(ReadPlan::LongArray),
            WireType::Float => Ok(ReadPlan::FloatArray),
            WireType::Double => Ok(ReadPlan::DoubleArray),
            WireType::String => Ok(ReadPlan::StringArray),
            _ => Err(UnifiedError::NotSupported(wire)),
        }
    }
}

/// Chooses the typed read for a channel; arrays of `Char` and `Enum` have none.
pub fn read_plan(wire: WireType, elements: usize) -> (r: Result<ReadPlan, UnifiedError>)
    ensures
        r == plan_for(wire, elements),
{
    if elements == 1 {
        Ok(match wire {
            WireType::Char => ReadPlan::Char,
            WireType::Short => ReadPlan::Short,
            WireType::Enum => ReadPlan::Enum,
            WireType::Long => ReadPlan::Long,
            WireType::Float => ReadPlan::Float,
            WireType::Double => ReadPlan::Double,
            WireType::String => ReadPlan::String,
        })
    } else {
        match wire {
            WireType::Short => Ok(ReadPlan::ShortArray),
            WireType::Long => Ok(ReadPlan::LongArray),
            WireType::Float => Ok(ReadPlan::FloatArray),
            WireType::Double => Ok(ReadPlan::DoubleArray),
            WireType::String => Ok(ReadPlan::StringArray),
            WireType::Char => Err(UnifiedError::NotSupported(wire)),
            WireType::Enum => Err(UnifiedError::NotSupported(wire)),
        }
    }
}

/// The plan that a decoded value answers to.
pub fn value_plan(v: &RawValue) -> (r: ReadPlan)
    ensures
        r == plan_of(*v),
{
    match v {
        RawValue::Char(_) => ReadPlan::Char,
        RawValue::Short(_) => ReadPlan::Short,
        RawValue::Long(_) => ReadPlan::Long,
        RawValue::Enum(_) => ReadPlan::Enum,
        RawValue::Float(_) => ReadPlan::Float,
        RawValue::Double(_) => ReadPlan::Double,
        RawValue::String(_) => ReadPlan::String,
        RawValue::ShortArray(_) => ReadPlan::ShortArray,
        RawValue::LongArray(_) => ReadPlan::LongArray,
        RawValue::FloatArray(_) => ReadPlan::FloatArray,
        RawValue::DoubleArray(_) => ReadPlan::DoubleArray,
        RawValue::StringArray(_) => ReadPlan::StringArray,
    }
}

/// The text of a read that answered with another type than the one asked for.
fn mismatch_message() -> (r: String) {
    String::from_str("reading does not match the channel's wire type and element count")
}

/// Makes the record of a channel from the reading it answered with. The reading
/// must be the one that the dispatch table picks for the channel's wire type and
/// element count; a channel with no such reading yields `NotSupported`.
pub fn grab_info(name: String, elements: usize, wire: WireType, value: RawValue) -> (r: UnifiedResult<Info>)
    ensures
        plan_for(wire, elements) is Err ==> r == Err::<Info, UnifiedError>(UnifiedError::NotSupported(wire)),
        plan_for(wire, elements) is Ok ==> (r is Ok <==> plan_for(wire, elements) == Ok::<ReadPlan, UnifiedError>(plan_of(value))),
        r is Ok ==> r == Ok::<Info, UnifiedError>(Info { name, elements, value }),
        (plan_for(wire, elements) is Ok && r is Err) ==> r->Err_0 is ProtocolError,
{
    match read_plan(wire, elements) {
        Err(e) => Err(e),
        Ok(p) => {
            if p == value_plan(&value) {
                Ok(Info::new(name, elements, value))
            } else {
                Err(UnifiedError::ProtocolError(mismatch_message()))
            }
        },
    }
}

/// Whether the transport can take the name: it holds no nul character.
pub open spec fn name_ok(name: Seq<char>) -> bool {
    forall|i: int| 0 <= i < name.len() ==> name[i] != '\0'
}

/// Checks that a channel name can be handed to the transport; a name that
/// holds a nul character gives `NameError` with the name.
pub fn check_name(name: &String) -> (r: UnifiedResult<()>)
    ensures
        r is Ok <==> name_ok(name@),
        r is Err ==> r->Err_0 is NameError && r->Err_0->NameError_0@ == name@,
{
    let s = name.as_str();
    let n = s.unicode_len();
    let mut i: usize = 0;
    while i < n
        invariant
            n == name@.len(),
            s@ == name@,
            i <= n,
            forall|k: int| 0 <= k < i ==> name@[k] != '\0',
        decreases n - i,
    {
        if s.get_char(i) == '\0' {
            return Err(UnifiedError::NameError(name.clone()));
        }
        i = i + 1;
    }
    Ok(())
}

/// The values of the successful results, in order.
pub open spec fn oks<T>(s: Seq<Result<T, UnifiedError>>) -> Seq<T>
    decreases s.len(),
{
    if s.len() == 0 {
        Seq::empty()
    } else {
        match s.last() {
            Ok(v) => oks(s.drop_last()).push(v),
            Err(_) => oks(s.drop_last()),
        }
    }
}

/// The errors of the failed results, in order.
pub open spec fn errs<T>(s: Seq<Result<T, UnifiedError>>) -> Seq<UnifiedError>
    decreases s.len(),
{
    if s.len() == 0 {
        Seq::empty()
    } else {
        match s.last() {
            Ok(_) => errs(s.drop_last()),
            Err(e) => errs(s.drop_last()).push(e),
        }
    }
}

/// The number of successful results.
pub open spec fn count_ok<T>(s: Seq<Result<T, UnifiedError>>) -> nat
    decreases s.len(),
{
    if s.len() == 0 {
        0
    } else {
        count_ok(s.drop_last()) + if s.last() is Ok { 1nat } else { 0nat }
    }
}

/// Splits results into the successful values and the errors, each in their
/// input order.
pub fn partition_results<T>(rs: Vec<Result<T, UnifiedError>>) -> (r: (Vec<T>, Vec<UnifiedError>))
    ensures
        r.0@ == oks(rs@),
        r.1@ == errs(rs@),
{
    let ghost all = rs@;
    let total = rs.len();
    let mut rest = rs;
    let mut good: Vec<T> = Vec::new();
    let mut bad: Vec<UnifiedError> = Vec::new();
    let mut i: usize = 0;
    while rest.len() > 0
        invariant
            i <= all.len(),
            total == all.len(),
            rest@ == all.subrange(i as int, all.len() as int),
            good@ == oks(all.take(i as int)),
            bad@ == errs(all.take(i as int)),
        decreases rest.len(),
    {
        let x = rest.remove(0);
        proof {
            assert(all.take(i + 1).drop_last() =~= all.take(i as int));
            assert(all.take(i + 1).last() == x);
        }
        match x {
            Ok(v) => good.push(v),
            Err(e) => bad.push(e),
        }
        i = i + 1;
        proof {
            assert(rest@ =~= all.subrange(i as int, all.len() as int));
        }
    }
    proof {
        assert(all.take(i as int) =~= all);
    }
    (good, bad)
}

/// Whether every channel of a batch connected before the deadline.
pub open spec fn all_connected(connected: Seq<bool>) -> bool {
    forall|i: int| 0 <= i < connected.len() ==> connected[i]
}

/// A batch under the all-or-nothing policy, past its connection phase: the
/// channels are read one after the other, in order, until one read fails.
pub struct SyncBatch {
    /// The number of channels in the batch.
    pub total: usize,
    /// The records of the channels read so far, in input order.
    pub records: Vec<Info>,
    /// Which channels connected before the deadline.
    pub connected: Ghost<Seq<bool>>,
}

impl SyncBatch {
    /// A batch reads only when every one of its channels connected in time,
    /// and never holds more records than channels.
    pub open spec fn wf(&self) -> bool {
        &&& all_connected(self.connected@)
        &&& self.connected@.len() == self.total
        &&& self.records@.len() <= self.total
    }

    /// Decides the connection phase: the batch goes on to reading only when
    /// every channel connected before the deadline, else it ends with
    /// `ConnectTimeout` and nothing is read.
    pub fn open(connected: &Vec<bool>) -> (r: UnifiedResult<SyncBatch>)
        ensures
            r is Ok <==> all_connected(connected@),
            r is Ok ==> r->Ok_0.wf() && r->Ok_0.connected@ == connected@,
            r is Ok ==> r->Ok_0.total == connected@.len() && r->Ok_0.records@.len() == 0,
            r is Err ==> r->Err_0 == UnifiedError::ConnectTimeout,
    {
        let mut i: usize = 0;
        while i < connected.len()
            invariant
                i <= connected.len(),
                forall|k: int| 0 <= k < i ==> connected@[k],
            decreases connected.len() - i,
        {
            if !connected[i] {
                return Err(UnifiedError::ConnectTimeout);
            }
            i = i + 1;
        }
        Ok(SyncBatch { total: connected.len(), records: Vec::new(), connected: Ghost(connected@) })
    }

    /// The index of the channel to read next, if any is left.
    pub fn next_read(&self) -> (r: Option<usize>)
        ensures
            r == (if self.records@.len() < self.total {
                Some(self.records@.len() as usize)
            } else {
                None::<usize>
            }),
    {
        if self.records.len() < self.total {
            Some(self.records.len())
        } else {
            None
        }
    }

    /// Takes in the outcome of the read that `next_read` asked for: a record is
    /// kept, an error ends the batch.
    pub fn accept(self, read: UnifiedResult<Info>) -> (r: UnifiedResult<SyncBatch>)
        requires
            self.wf(),
            self.records@.len() < self.total,
        ensures
            r is Ok <==> read is Ok,
            r is Ok ==> r->Ok_0.wf() && r->Ok_0.connected == self.connected,
            r is Ok ==> r->Ok_0.total == self.total && r->Ok_0.records@ == self.records@.push(read->Ok_0),
            r is Err ==> r == Err::<SyncBatch, UnifiedError>(read->Err_0),
    {
        match read {
            Ok(info) => {
                let mut records = self.records;
                records.push(info);
                Ok(SyncBatch { total: self.total, records, connected: self.connected })
            },
            Err(e) => Err(e),
        }
    }

    /// The records, in input order.
    pub fn finish(self) -> (r: Vec<Info>)
        ensures
            r@ == self.records@,
    {
        self.records
    }
}

/// Decides one unit of the best-effort policy: a channel that did not connect
/// before the shared deadline fails with `ConnectTimeout`.
pub fn connect_verdict(connected: bool) -> (r: UnifiedResult<()>)
    ensures
        r is Ok <==> connected,
        r is Err ==> r->Err_0 == UnifiedError::ConnectTimeout,
{
    if connected {
        Ok(())
    } else {
        Err(UnifiedError::ConnectTimeout)
    }
}

/// What the best-effort policy yields: the records of the units that succeeded,
/// and the errors of those that did not, each in completion order.
pub struct AsyncReport {
    pub records: Vec<Info>,
    pub dropped: Vec<UnifiedError>,
}

/// Gathers the outcomes of the units of the best-effort policy, given in the
/// order they completed: every success gives a record, every failure stays out
/// of the records and is kept in `dropped`.
pub fn collect_async(units: Vec<UnifiedResult<Info>>) -> (r: AsyncReport)
    ensures
        r.records@ == oks(units@),
        r.dropped@ == errs(units@),
{
    let (records, dropped) = partition_results(units);
    AsyncReport { records, dropped }
}

/// Each supported pair of wire type and arity has a plan that reads exactly
/// that wire type with that arity, and a reading is accepted for the channel
/// exactly when its variant is of that wire type and arity; the unsupported
/// pairs, arrays of `Char` and of `Enum`, give `NotSupported` before any read.
pub proof fn lemma_dispatch_exact(wire: WireType, elements: usize, value: RawValue)
    ensures
        supported(wire, elements == 1) ==> {
            &&& plan_for(wire, elements) is Ok
            &&& plan_wire(plan_for(wire, elements)->Ok_0) == wire
            &&& plan_scalar(plan_for(wire, elements)->Ok_0) == (elements == 1)
            &&& (plan_for(wire, elements) == Ok::<ReadPlan, UnifiedError>(plan_of(value)) <==> (
                plan_wire(plan_of(value)) == wire && plan_scalar(plan_of(value)) == (elements == 1)))
        },
        !supported(wire, elements == 1) ==> plan_for(wire, elements) == Err::<ReadPlan, UnifiedError>(
            UnifiedError::NotSupported(wire),
        ),
{
}

/// Under the all-or-nothing policy a single channel that missed the deadline
/// ends the whole batch before any read, whatever the other channels did: no
/// well-formed batch, and so no record, comes from such connection flags.
pub proof fn lemma_sync_one_timeout_blocks_all(connected: Seq<bool>, i: int, batch: SyncBatch)
    requires
        0 <= i < connected.len(),
        !connected[i],
        batch.wf(),
    ensures
        !all_connected(connected),
        batch.connected@ != connected,
{
}

/// Under the best-effort policy the records are exactly the values of the
/// units that succeeded: as many as succeeded, each one the value of a
/// successful unit, and no failed unit among them.
pub proof fn lemma_best_effort_keeps_successes<T>(units: Seq<Result<T, UnifiedError>>)
    ensures
        oks(units).len() == count_ok(units),
        oks(units).len() + errs(units).len() == units.len(),
        forall|k: int| 0 <= k < oks(units).len() ==> exists|j: int| 0 <= j < units.len() && units[j] == Ok::<T, UnifiedError>(#[trigger] oks(units)[k]),
    decreases units.len(),
{
    if units.len() > 0 {
        let front = units.drop_last();
        lemma_best_effort_keeps_successes(front);
        assert forall|k: int| 0 <= k < oks(units).len() implies exists|j: int| 0 <= j < units.len() && units[j] == Ok::<T, UnifiedError>(#[trigger] oks(units)[k]) by {
            if k < oks(front).len() {
                let j = choose|j: int| 0 <= j < front.len() && front[j] == Ok::<T, UnifiedError>(oks(front)[k]);
                assert(units[j] == front[j]);
            } else {
                assert(units[units.len() - 1] == Ok::<T, UnifiedError>(oks(units)[k]));
            }
        }
    }
}

} // verus!
