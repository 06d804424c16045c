//! Telemetry sessions of production batches: sensor registration, signed
//! readings, forward-only stage progression, and a per-facility hash chain
//! over closed sessions.

use vstd::prelude::*;
use vstd::utf8::encode_utf8;
use crate::encoding::{field_bytes, u64_bytes, push_field, push_u64};
use crate::digest::{blake3_of, blake3_digest};
use crate::classical::{views, fits};
use crate::storage::{stored_form, storable, store, recover, STORAGE_DATA_SHARDS};

verus! {

/// Kinds of sensors used in fermentation.
#[derive(Debug, Clone, Copy, PartialEq, Eq, Structural)]
pub enum SensorType {
    PH,
    Temperature,
    Sugar,
    Alcohol,
    SCOBYHealth,
    Acidity,
    Pressure,
}

/// Condition of a sensor device.
#[derive(Debug, Clone, Copy, PartialEq, Eq, Structural)]
pub enum DeviceStatus {
    Active,
    NeedsCalibration,
    Malfunction,
    Offline,
}

/// A sensor registered with one telemetry session.
#[derive(Debug)]
pub struct SensorDevice {
    pub id: String,
    pub sensor_type: SensorType,
    pub last_calibration: u64,
    pub status: DeviceStatus,
    pub public_key: Vec<u8>,
}

/// One signed reading. `value` is fixed-point, scaled by 100
/// (a pH of 3.45 is 345).
#[derive(Debug)]
pub struct TelemetryReading {
    pub sensor_id: String,
    pub timestamp: u64,
    pub value: i64,
    pub unit: String,
    pub signature: Vec<u8>,
}

/// Fermentation stages, in the only order in which a session may pass them.
#[derive(Debug, Clone, Copy, PartialEq, Eq, Structural)]
pub enum FermentationStage {
    Primary,
    Secondary,
    Maturation,
    Completed,
}

/// The one stage that may follow `s`.
pub open spec fn next_stage(s: FermentationStage) -> Option<FermentationStage> {
    match s {
        FermentationStage::Primary => Some(FermentationStage::Secondary),
        FermentationStage::Secondary => Some(FermentationStage::Maturation),
        FermentationStage::Maturation => Some(FermentationStage::Completed),
        FermentationStage::Completed => None,
    }
}

pub open spec fn stage_tag(s: FermentationStage) -> u64 {
    match s {
        FermentationStage::Primary => 0,
        FermentationStage::Secondary => 1,
        FermentationStage::Maturation => 2,
        FermentationStage::Completed => 3,
    }
}

/// Telemetry of one batch. `end_time` is 0 while the session is open;
/// `content_hash` is empty until it closes.
#[derive(Debug)]
pub struct FermentationTelemetry {
    pub batch_id: String,
    pub facility_id: String,
    pub start_time: u64,
    pub end_time: u64,
    pub stage: FermentationStage,
    pub sensors: Vec<SensorDevice>,
    pub readings: Vec<TelemetryReading>,
    /// The redundant stored form of each reading, at the reading's position.
    pub stored_readings: Vec<Vec<Vec<u8>>>,
    pub previous_hash: Vec<u8>,
    pub content_hash: Vec<u8>,
    pub recipe_id: String,
}

/// Why a telemetry operation was refused.
#[derive(Debug, Clone, Copy, PartialEq, Eq, Structural)]
pub enum TelemetryError {
    AlreadyExists,
    SessionNotFound,
    SensorAlreadyRegistered,
    UnknownSensor,
    InvalidSignature,
    InvalidTransition,
    /// The reading's canonical bytes are too large to store redundantly.
    ReadingTooLarge,
    ReadingNotFound,
}

/// Index of the first session in `s` from `k` on whose batch id is `id`, or -1.
pub open spec fn find_from(s: Seq<FermentationTelemetry>, id: Seq<char>, k: int) -> int
    decreases s.len() - k,
{
    if k < 0 || k >= s.len() {
        -1
    } else if s[k].batch_id@ == id {
        k
    } else {
        find_from(s, id, k + 1)
    }
}

/// Index of the first session in `s` whose batch id is `id`, or -1.
pub open spec fn find_session(s: Seq<FermentationTelemetry>, id: Seq<char>) -> int {
    find_from(s, id, 0)
}

/// Index of the first sensor in `s` whose id is `id`, or -1.
pub open spec fn find_sensor_from(s: Seq<SensorDevice>, id: Seq<char>, k: int) -> int
    decreases s.len() - k,
{
    if k < 0 || k >= s.len() {
        -1
    } else if s[k].id@ == id {
        k
    } else {
        find_sensor_from(s, id, k + 1)
    }
}

pub open spec fn has_sensor(s: Seq<SensorDevice>, id: Seq<char>) -> bool {
    exists|i: int| 0 <= i < s.len() && #[trigger] s[i].id@ == id
}

pub open spec fn str_bytes(s: String) -> Seq<u8> {
    encode_utf8(s@)
}

/// Canonical bytes of one reading.
pub open spec fn reading_bytes(r: TelemetryReading) -> Seq<u8> {
    field_bytes(str_bytes(r.sensor_id)) + u64_bytes(r.timestamp) + u64_bytes(r.value as u64)
        + field_bytes(str_bytes(r.unit)) + field_bytes(r.signature@)
}

/// Canonical bytes of a sequence of readings, in order.
pub open spec fn readings_bytes(rs: Seq<TelemetryReading>) -> Seq<u8>
    decreases rs.len(),
{
    if rs.len() == 0 {
        Seq::empty()
    } else {
        readings_bytes(rs.drop_last()) + reading_bytes(rs.last())
    }
}

/// Canonical bytes of a session's content: identity, times, stage, the link
/// to the previous record, and every reading.
pub open spec fn session_bytes(s: FermentationTelemetry) -> Seq<u8> {
    field_bytes(str_bytes(s.batch_id)) + field_bytes(str_bytes(s.facility_id)) + field_bytes(
        str_bytes(s.recipe_id),
    ) + u64_bytes(s.start_time) + u64_bytes(s.end_time) + u64_bytes(stage_tag(s.stage))
        + field_bytes(s.previous_hash@) + u64_bytes(s.readings@.len() as u64) + readings_bytes(
        s.readings@,
    )
}

/// The content hash of the latest closed session of `facility` in `hist`,
/// or the empty sequence when it has none.
pub open spec fn last_facility_hash(hist: Seq<FermentationTelemetry>, facility: Seq<char>) -> Seq<
    u8,
>
    decreases hist.len(),
{
    if hist.len() == 0 {
        Seq::empty()
    } else if hist.last().facility_id@ == facility {
        hist.last().content_hash@
    } else {
        last_facility_hash(hist.drop_last(), facility)
    }
}

/// Every reading of `s` comes from one of its sensors and is stored
/// redundantly beside it, and no sensor id is registered twice.
pub open spec fn session_wf(s: FermentationTelemetry) -> bool {
    &&& forall|i: int| 0 <= i < s.readings@.len() ==> has_sensor(s.sensors@, #[trigger] s.readings@[i].sensor_id@)
    &&& forall|i: int, j: int|
        0 <= i < j < s.sensors@.len() ==> #[trigger] s.sensors@[i].id@ != #[trigger] s.sensors@[j].id@
    &&& s.stored_readings@.len() == s.readings@.len()
    &&& forall|i: int| 0 <= i < s.readings@.len() ==> storable(reading_bytes(#[trigger] s.readings@[i]))
    &&& forall|i: int| 0 <= i < s.readings@.len() ==> views(#[trigger] s.stored_readings@[i]@) == stored_form(reading_bytes(s.readings@[i]))
}

/// `a` and `b` agree on everything but sensors, readings and stage.
pub open spec fn same_identity(a: FermentationTelemetry, b: FermentationTelemetry) -> bool {
    &&& a.batch_id == b.batch_id
    &&& a.facility_id == b.facility_id
    &&& a.start_time == b.start_time
    &&& a.end_time == b.end_time
    &&& a.previous_hash@ == b.previous_hash@
    &&& a.content_hash@ == b.content_hash@
    &&& a.recipe_id == b.recipe_id
}

/// `a` and `b` agree on everything but sensors and readings.
pub open spec fn same_header(a: FermentationTelemetry, b: FermentationTelemetry) -> bool {
    &&& a.batch_id == b.batch_id
    &&& a.facility_id == b.facility_id
    &&& a.start_time == b.start_time
    &&& a.end_time == b.end_time
    &&& a.stage == b.stage
    &&& a.previous_hash@ == b.previous_hash@
    &&& a.content_hash@ == b.content_hash@
    &&& a.recipe_id == b.recipe_id
}

/// `new_s` equals `old_s` everywhere except perhaps at `i`.
pub open spec fn updated_at(old_s: Seq<FermentationTelemetry>, new_s: Seq<FermentationTelemetry>, i: int) -> bool {
    &&& new_s.len() == old_s.len()
    &&& forall|j: int| 0 <= j < old_s.len() && j != i ==> #[trigger] new_s[j] == old_s[j]
}

/// `c` is `s` closed at time `now` in stage `stage`, hashed over its content.
pub open spec fn closed_as(s: FermentationTelemetry, c: FermentationTelemetry, stage: FermentationStage, now: u64) -> bool {
    &&& c.batch_id == s.batch_id
    &&& c.facility_id == s.facility_id
    &&& c.recipe_id == s.recipe_id
    &&& c.start_time == s.start_time
    &&& c.end_time == now
    &&& c.stage == stage
    &&& c.sensors@ == s.sensors@
    &&& c.readings@ == s.readings@
    &&& c.stored_readings@ == s.stored_readings@
    &&& c.previous_hash@ == s.previous_hash@
    &&& c.content_hash@ == blake3_of(session_bytes(c))
}

pub proof fn lemma_find_from(s: Seq<FermentationTelemetry>, id: Seq<char>, k: int)
    requires
        0 <= k,
    ensures
        find_from(s, id, k) == -1 ==> forall|j: int| k <= j < s.len() ==> #[trigger] s[j].batch_id@ != id,
        find_from(s, id, k) != -1 ==> k <= find_from(s, id, k) < s.len() && s[find_from(s, id, k)].batch_id@ == id,
        find_from(s, id, k) != -1 ==> forall|j: int| k <= j < find_from(s, id, k) ==> #[trigger] s[j].batch_id@ != id,
    decreases s.len() - k,
{
    if k < s.len() {
        lemma_find_from(s, id, k + 1);
    }
}

pub proof fn lemma_find_session(s: Seq<FermentationTelemetry>, id: Seq<char>)
    ensures
        find_session(s, id) == -1 <==> forall|j: int| 0 <= j < s.len() ==> #[trigger] s[j].batch_id@ != id,
        find_session(s, id) != -1 ==> 0 <= find_session(s, id) < s.len() && s[find_session(s, id)].batch_id@ == id,
{
    lemma_find_from(s, id, 0);
}

proof fn lemma_wf_add_sensor(o: FermentationTelemetry, n: FermentationTelemetry, sensor: SensorDevice)
    requires
        session_wf(o),
        !has_sensor(o.sensors@, sensor.id@),
        n.sensors@ == o.sensors@.push(sensor),
        n.readings@ == o.readings@,
        n.stored_readings@ == o.stored_readings@,
    ensures
        session_wf(n),
{
    assert forall|j: int| 0 <= j < n.readings@.len() implies has_sensor(n.sensors@, #[trigger] n.readings@[j].sensor_id@) by {
        assert(n.readings@[j] == o.readings@[j]);
        let w = choose|w: int| 0 <= w < o.sensors@.len() && #[trigger] o.sensors@[w].id@ == o.readings@[j].sensor_id@;
        assert(n.sensors@[w] == o.sensors@[w]);
    }
    assert forall|j: int| 0 <= j < n.readings@.len() implies storable(reading_bytes(#[trigger] n.readings@[j]))
        && views(n.stored_readings@[j]@) == stored_form(reading_bytes(n.readings@[j])) by {
        assert(n.readings@[j] == o.readings@[j]);
        assert(n.stored_readings@[j] == o.stored_readings@[j]);
    }
    assert forall|x: int, y: int| 0 <= x < y < n.sensors@.len() implies #[trigger] n.sensors@[x].id@ != #[trigger] n.sensors@[y].id@ by {
        if y < o.sensors@.len() {
            assert(n.sensors@[x] == o.sensors@[x]);
            assert(n.sensors@[y] == o.sensors@[y]);
        } else {
            assert(n.sensors@[x] == o.sensors@[x]);
        }
    }
}

proof fn lemma_wf_add_reading(o: FermentationTelemetry, n: FermentationTelemetry, r: TelemetryReading, stored: Vec<Vec<u8>>)
    requires
        session_wf(o),
        has_sensor(o.sensors@, r.sensor_id@),
        storable(reading_bytes(r)),
        views(stored@) == stored_form(reading_bytes(r)),
        n.sensors@ == o.sensors@,
        n.readings@ == o.readings@.push(r),
        n.stored_readings@ == o.stored_readings@.push(stored),
    ensures
        session_wf(n),
{
    assert forall|j: int| 0 <= j < n.readings@.len() implies has_sensor(n.sensors@, #[trigger] n.readings@[j].sensor_id@) by {
        if j < o.readings@.len() {
            assert(n.readings@[j] == o.readings@[j]);
        }
    }
    assert forall|j: int| 0 <= j < n.readings@.len() implies storable(reading_bytes(#[trigger] n.readings@[j]))
        && views(n.stored_readings@[j]@) == stored_form(reading_bytes(n.readings@[j])) by {
        if j < o.readings@.len() {
            assert(n.readings@[j] == o.readings@[j]);
            assert(n.stored_readings@[j] == o.stored_readings@[j]);
        }
    }
}

fn find_index(sessions: &Vec<FermentationTelemetry>, id: &String) -> (r: Option<usize>)
    ensures
        match r {
            Some(i) => i as int == find_session(sessions@, id@),
            None => find_session(sessions@, id@) == -1,
        },
{
    let mut k: usize = 0;
    while k < sessions.len()
        invariant
            k <= sessions@.len(),
            find_session(sessions@, id@) == find_from(sessions@, id@, k as int),
        decreases sessions@.len() - k,
    {
        if sessions[k].batch_id == *id {
            return Some(k);
        }
        k += 1;
    }
    None
}

fn contains_sensor(sensors: &Vec<SensorDevice>, id: &String) -> (r: bool)
    ensures
        r == has_sensor(sensors@, id@),
{
    let mut k: usize = 0;
    while k < sensors.len()
        invariant
            k <= sensors@.len(),
            forall|j: int| 0 <= j < k ==> #[trigger] sensors@[j].id@ != id@,
        decreases sensors@.len() - k,
    {
        if sensors[k].id == *id {
            return true;
        }
        k += 1;
    }
    false
}

fn string_field(out: &mut Vec<u8>, s: &String)
    ensures
        final(out)@ == old(out)@ + field_bytes(str_bytes(*s)),
{
    push_field(out, s.as_str().as_bytes());
}

/// Appends the canonical bytes of one reading.
fn push_reading(out: &mut Vec<u8>, r: &TelemetryReading)
    ensures
        final(out)@ == old(out)@ + reading_bytes(*r),
{
    string_field(out, &r.sensor_id);
    push_u64(out, r.timestamp);
    push_u64(out, r.value as u64);
    string_field(out, &r.unit);
    push_field(out, r.signature.as_slice());
    assert(final(out)@ =~= old(out)@ + reading_bytes(*r));
}

/// Canonical bytes of one reading.
pub fn encode_reading(r: &TelemetryReading) -> (out: Vec<u8>)
    ensures
        out@ == reading_bytes(*r),
{
    let mut out: Vec<u8> = Vec::new();
    push_reading(&mut out, r);
    assert(out@ =~= reading_bytes(*r));
    out
}

/// Canonical bytes of a session's content.
pub fn encode_session(s: &FermentationTelemetry) -> (r: Vec<u8>)
    ensures
        r@ == session_bytes(*s),
{
    let mut out: Vec<u8> = Vec::new();
    string_field(&mut out, &s.batch_id);
    string_field(&mut out, &s.facility_id);
    string_field(&mut out, &s.recipe_id);
    push_u64(&mut out, s.start_time);
    push_u64(&mut out, s.end_time);
    let tag: u64 = match s.stage {
        FermentationStage::Primary => 0,
        FermentationStage::Secondary => 1,
        FermentationStage::Maturation => 2,
        FermentationStage::Completed => 3,
    };
    push_u64(&mut out, tag);
    push_field(&mut out, s.previous_hash.as_slice());
    push_u64(&mut out, s.readings.len() as u64);
    let ghost head = out@;
    let mut k: usize = 0;
    while k < s.readings.len()
        invariant
            k <= s.readings@.len(),
            out@ == head + readings_bytes(s.readings@.take(k as int)),
        decreases s.readings@.len() - k,
    {
        push_reading(&mut out, &s.readings[k]);
        proof {
            assert(s.readings@.take(k + 1).drop_last() =~= s.readings@.take(k as int));
        }
        k += 1;
        assert(out@ =~= head + readings_bytes(s.readings@.take(k as int)));
    }
    assert(s.readings@.take(k as int) =~= s.readings@);
    assert(out@ =~= session_bytes(*s));
    out
}

/// The session store: open sessions, at most one per batch id, and the
/// closed ones in the order in which they closed.
pub struct TelemetryManager {
    active_sessions: Vec<FermentationTelemetry>,
    historical_records: Vec<FermentationTelemetry>,
}

impl TelemetryManager {
    pub closed spec fn active(&self) -> Seq<FermentationTelemetry> {
        self.active_sessions@
    }

    pub closed spec fn historical(&self) -> Seq<FermentationTelemetry> {
        self.historical_records@
    }

    pub open spec fn wf(&self) -> bool {
        &&& forall|i: int, j: int|
            0 <= i < j < self.active().len() ==> #[trigger] self.active()[i].batch_id@
                != #[trigger] self.active()[j].batch_id@
        &&& forall|i: int| 0 <= i < self.active().len() ==> session_wf(#[trigger] self.active()[i])
        &&& forall|i: int| 0 <= i < self.active().len() ==> (#[trigger] self.active()[i]).end_time == 0
        &&& forall|i: int| 0 <= i < self.historical().len() ==> session_wf(#[trigger] self.historical()[i])
    }

    pub fn new() -> (r: Self)
        ensures
            r.wf(),
            r.active().len() == 0,
            r.historical().len() == 0,
    {
        TelemetryManager { active_sessions: Vec::new(), historical_records: Vec::new() }
    }

    /// Opens a session for `batch_id`, chained to the latest closed session
    /// of the same facility.
    pub fn start_telemetry_session(
        &mut self,
        batch_id: String,
        facility_id: String,
        recipe_id: String,
        now: u64,
    ) -> (r: Result<(), TelemetryError>)
        requires
            old(self).wf(),
        ensures
            final(self).wf(),
            r is Err <==> find_session(old(self).active(), batch_id@) != -1,
            r is Err ==> r == Err::<(), TelemetryError>(TelemetryError::AlreadyExists) && *final(self) == *old(self),
            r is Ok ==> {
                let s = final(self).active().last();
                &&& final(self).active().drop_last() == old(self).active()
                &&& final(self).historical() == old(self).historical()
                &&& s.batch_id == batch_id
                &&& s.facility_id == facility_id
                &&& s.recipe_id == recipe_id
                &&& s.start_time == now
                &&& s.end_time == 0
                &&& s.stage == FermentationStage::Primary
                &&& s.sensors@.len() == 0
                &&& s.readings@.len() == 0
                &&& s.previous_hash@ == last_facility_hash(old(self).historical(), facility_id@)
                &&& s.content_hash@.len() == 0
            },
    {
        proof {
            lemma_find_session(self.active_sessions@, batch_id@);
        }
        if find_index(&self.active_sessions, &batch_id).is_some() {
            return Err(TelemetryError::AlreadyExists);
        }
        let previous_hash = self.facility_hash(&facility_id);
        let session = FermentationTelemetry {
            batch_id,
            facility_id,
            start_time: now,
            end_time: 0,
            stage: FermentationStage::Primary,
            sensors: Vec::new(),
            readings: Vec::new(),
            stored_readings: Vec::new(),
            previous_hash,
            content_hash: Vec::new(),
            recipe_id,
        };
        self.active_sessions.push(session);
        assert(self.active_sessions@.drop_last() =~= old(self).active_sessions@);
        Ok(())
    }

    /// The content hash of the latest closed session of `facility_id`.
    fn facility_hash(&self, facility_id: &String) -> (r: Vec<u8>)
        ensures
            r@ == last_facility_hash(self.historical(), facility_id@),
    {
        let hist = &self.historical_records;
        let mut k: usize = hist.len();
        assert(hist@.take(k as int) =~= hist@);
        while k > 0
            invariant
                k <= hist@.len(),
                hist@ == self.historical(),
                last_facility_hash(hist@, facility_id@) == last_facility_hash(hist@.take(k as int), facility_id@),
            decreases k,
        {
            assert(hist@.take(k as int).drop_last() =~= hist@.take(k - 1));
            assert(hist@.take(k as int).last() == hist@[k - 1]);
            if hist[k - 1].facility_id == *facility_id {
                return vstd::slice::slice_to_vec(hist[k - 1].content_hash.as_slice());
            }
            k -= 1;
        }
        Vec::new()
    }

    /// Registers `sensor` with the open session of `batch_id`.
    pub fn register_sensor(&mut self, batch_id: &str, sensor: SensorDevice) -> (r: Result<(), TelemetryError>)
        requires
            old(self).wf(),
        ensures
            final(self).wf(),
            ({
                let i = find_session(old(self).active(), batch_id@);
                &&& i == -1 ==> r == Err::<(), TelemetryError>(TelemetryError::SessionNotFound)
                &&& i != -1 && has_sensor(old(self).active()[i].sensors@, sensor.id@)
                    ==> r == Err::<(), TelemetryError>(TelemetryError::SensorAlreadyRegistered)
                &&& i != -1 && !has_sensor(old(self).active()[i].sensors@, sensor.id@) ==> {
                    &&& r is Ok
                    &&& updated_at(old(self).active(), final(self).active(), i)
                    &&& same_header(final(self).active()[i], old(self).active()[i])
                    &&& final(self).active()[i].sensors@ == old(self).active()[i].sensors@.push(sensor)
                    &&& final(self).active()[i].readings@ == old(self).active()[i].readings@
                    &&& final(self).active()[i].stored_readings@ == old(self).active()[i].stored_readings@
                    &&& final(self).historical() == old(self).historical()
                }
            }),
            r is Err ==> *final(self) == *old(self),
    {
        let key = batch_id.to_owned();
        let found = find_index(&self.active_sessions, &key);
        proof {
            lemma_find_session(self.active_sessions@, batch_id@);
        }
        match found {
            None => Err(TelemetryError::SessionNotFound),
            Some(i) => {
                if contains_sensor(&self.active_sessions[i].sensors, &sensor.id) {
                    return Err(TelemetryError::SensorAlreadyRegistered);
                }
                let ghost old_s = self.active_sessions@[i as int];
                let mut session = self.active_sessions.remove(i);
                session.sensors.push(sensor);
                self.active_sessions.insert(i, session);
                proof {
                    assert(self.active_sessions@ =~= old(self).active_sessions@.update(i as int, session));
                    lemma_wf_add_sensor(old_s, session, sensor);
                    assert(self.historical_records@ == old(self).historical_records@);
                    assert(self.historical() == old(self).historical());
                    assert forall|x: int| 0 <= x < self.historical().len() implies session_wf(#[trigger] self.historical()[x]) by {
                        assert(session_wf(old(self).historical()[x]));
                    }
                }
                Ok(())
            },
        }
    }

    /// Appends `reading` to the open session of `batch_id`. The caller passes
    /// in `signature_valid` the outcome of checking the reading's signature
    /// against its sensor's public key; an invalid one is refused.
    pub fn add_reading(&mut self, batch_id: &str, reading: TelemetryReading, signature_valid: bool) -> (r:
        Result<(), TelemetryError>)
        requires
            old(self).wf(),
        ensures
            final(self).wf(),
            ({
                let i = find_session(old(self).active(), batch_id@);
                &&& i == -1 ==> r == Err::<(), TelemetryError>(TelemetryError::SessionNotFound)
                &&& i != -1 && !has_sensor(old(self).active()[i].sensors@, reading.sensor_id@)
                    ==> r == Err::<(), TelemetryError>(TelemetryError::UnknownSensor)
                &&& i != -1 && has_sensor(old(self).active()[i].sensors@, reading.sensor_id@) && !signature_valid
                    ==> r == Err::<(), TelemetryError>(TelemetryError::InvalidSignature)
                &&& i != -1 && has_sensor(old(self).active()[i].sensors@, reading.sensor_id@) && signature_valid
                    && !fits(reading_bytes(reading).len(), STORAGE_DATA_SHARDS as nat)
                    ==> r == Err::<(), TelemetryError>(TelemetryError::ReadingTooLarge)
                &&& i != -1 && has_sensor(old(self).active()[i].sensors@, reading.sensor_id@) && signature_valid
                    && fits(reading_bytes(reading).len(), STORAGE_DATA_SHARDS as nat) ==> {
                    &&& r is Ok
                    &&& updated_at(old(self).active(), final(self).active(), i)
                    &&& same_header(final(self).active()[i], old(self).active()[i])
                    &&& final(self).active()[i].sensors@ == old(self).active()[i].sensors@
                    &&& final(self).active()[i].readings@ == old(self).active()[i].readings@.push(reading)
                    &&& final(self).active()[i].stored_readings@.len() == old(self).active()[i].stored_readings@.len() + 1
                    &&& final(self).active()[i].stored_readings@.drop_last() == old(self).active()[i].stored_readings@
                    &&& views(final(self).active()[i].stored_readings@.last()@) == stored_form(reading_bytes(reading))
                    &&& final(self).historical() == old(self).historical()
                }
            }),
            r is Err ==> *final(self) == *old(self),
    {
        let key = batch_id.to_owned();
        let found = find_index(&self.active_sessions, &key);
        proof {
            lemma_find_session(self.active_sessions@, batch_id@);
        }
        match found {
            None => Err(TelemetryError::SessionNotFound),
            Some(i) => {
                if !contains_sensor(&self.active_sessions[i].sensors, &reading.sensor_id) {
                    return Err(TelemetryError::UnknownSensor);
                }
                if !signature_valid {
                    return Err(TelemetryError::InvalidSignature);
                }
                let bytes = encode_reading(&reading);
                if bytes.len() > usize::MAX - 8 - STORAGE_DATA_SHARDS {
                    return Err(TelemetryError::ReadingTooLarge);
                }
                let stored = store(bytes.as_slice());
                let ghost old_s = self.active_sessions@[i as int];
                let mut session = self.active_sessions.remove(i);
                session.readings.push(reading);
                session.stored_readings.push(stored);
                self.active_sessions.insert(i, session);
                proof {
                    assert(self.active_sessions@ =~= old(self).active_sessions@.update(i as int, session));
                    lemma_wf_add_reading(old_s, session, reading, stored);
                    assert(self.historical_records@ == old(self).historical_records@);
                    assert(self.historical() == old(self).historical());
                    assert forall|x: int| 0 <= x < self.historical().len() implies session_wf(#[trigger] self.historical()[x]) by {
                        assert(session_wf(old(self).historical()[x]));
                    }
                }
                Ok(())
            },
        }
    }

    /// Moves the session of `batch_id` one stage forward. Skipping a stage,
    /// standing still or going back is refused. Reaching `Completed` closes
    /// the session at time `now`.
    pub fn update_fermentation_stage(&mut self, batch_id: &str, stage: FermentationStage, now: u64) -> (r:
        Result<(), TelemetryError>)
        requires
            old(self).wf(),
        ensures
            final(self).wf(),
            ({
                let i = find_session(old(self).active(), batch_id@);
                &&& i == -1 ==> r == Err::<(), TelemetryError>(TelemetryError::SessionNotFound)
                &&& i != -1 && next_stage(old(self).active()[i].stage) != Some(stage)
                    ==> r == Err::<(), TelemetryError>(TelemetryError::InvalidTransition)
                &&& i != -1 && next_stage(old(self).active()[i].stage) == Some(stage) && stage
                    != FermentationStage::Completed ==> {
                    &&& r is Ok
                    &&& updated_at(old(self).active(), final(self).active(), i)
                    &&& same_identity(final(self).active()[i], old(self).active()[i])
                    &&& final(self).active()[i].stage == stage
                    &&& final(self).active()[i].sensors@ == old(self).active()[i].sensors@
                    &&& final(self).active()[i].readings@ == old(self).active()[i].readings@
                    &&& final(self).active()[i].stored_readings@ == old(self).active()[i].stored_readings@
                    &&& final(self).historical() == old(self).historical()
                }
                &&& i != -1 && next_stage(old(self).active()[i].stage) == Some(stage) && stage
                    == FermentationStage::Completed ==> {
                    &&& r is Ok
                    &&& final(self).active() == old(self).active().remove(i)
                    &&& final(self).historical().drop_last() == old(self).historical()
                    &&& final(self).historical().len() == old(self).historical().len() + 1
                    &&& closed_as(old(self).active()[i], final(self).historical().last(), stage, now)
                }
            }),
            r is Err ==> *final(self) == *old(self),
    {
        let key = batch_id.to_owned();
        let found = find_index(&self.active_sessions, &key);
        proof {
            lemma_find_session(self.active_sessions@, batch_id@);
        }
        match found {
            None => Err(TelemetryError::SessionNotFound),
            Some(i) => {
                let current = self.active_sessions[i].stage;
                let allowed = match current {
                    FermentationStage::Primary => stage == FermentationStage::Secondary,
                    FermentationStage::Secondary => stage == FermentationStage::Maturation,
                    FermentationStage::Maturation => stage == FermentationStage::Completed,
                    FermentationStage::Completed => false,
                };
                if !allowed {
                    return Err(TelemetryError::InvalidTransition);
                }
                if stage == FermentationStage::Completed {
                    self.close_at(i, stage, now);
                } else {
                    let mut session = self.active_sessions.remove(i);
                    session.stage = stage;
                    self.active_sessions.insert(i, session);
                    assert(self.active_sessions@ =~= old(self).active_sessions@.update(i as int, session));
                }
                Ok(())
            },
        }
    }

    /// Closes the session at `i`: stamps `now` and `stage`, hashes its
    /// content, and moves it to the historical records.
    fn close_at(&mut self, i: usize, stage: FermentationStage, now: u64)
        requires
            old(self).wf(),
            i < old(self).active().len(),
        ensures
            final(self).wf(),
            final(self).active() == old(self).active().remove(i as int),
            final(self).historical().drop_last() == old(self).historical(),
            final(self).historical().len() == old(self).historical().len() + 1,
            closed_as(old(self).active()[i as int], final(self).historical().last(), stage, now),
    {
        let mut session = self.active_sessions.remove(i);
        session.end_time = now;
        session.stage = stage;
        let content = encode_session(&session);
        session.content_hash = blake3_digest(content.as_slice());
        self.historical_records.push(session);
        assert(self.historical_records@.drop_last() =~= old(self).historical_records@);
        proof {
            let a = self.active_sessions@;
            let o = old(self).active_sessions@;
            assert forall|x: int| 0 <= x < a.len() implies #[trigger] a[x] == (if x < i { o[x] } else { o[x + 1] }) by {}
            assert forall|x: int, y: int| 0 <= x < y < a.len() implies #[trigger] a[x].batch_id@ != #[trigger] a[y].batch_id@ by {
                let ox = if x < i { x } else { x + 1 };
                let oy = if y < i { y } else { y + 1 };
                assert(o[ox].batch_id@ != o[oy].batch_id@);
            }
            let h = self.historical_records@;
            let c = h.last();
            let src = o[i as int];
            assert(session_wf(src));
            assert(c.sensors@ == src.sensors@ && c.readings@ == src.readings@ && c.stored_readings@ == src.stored_readings@);
            assert(session_wf(c)) by {
                assert forall|j: int| 0 <= j < c.readings@.len() implies has_sensor(c.sensors@, #[trigger] c.readings@[j].sensor_id@) by {
                    assert(c.readings@[j] == src.readings@[j]);
                }
                assert forall|j: int| 0 <= j < c.readings@.len() implies storable(reading_bytes(#[trigger] c.readings@[j]))
                    && views(c.stored_readings@[j]@) == stored_form(reading_bytes(c.readings@[j])) by {
                    assert(c.readings@[j] == src.readings@[j]);
                    assert(c.stored_readings@[j] == src.stored_readings@[j]);
                }
            }
            assert forall|x: int| 0 <= x < h.len() implies session_wf(#[trigger] h[x]) by {
                if x < h.len() - 1 {
                    assert(h[x] == old(self).historical_records@[x]);
                    assert(session_wf(old(self).historical()[x]));
                }
            }
        }
    }

    /// Closes the open session of `batch_id` at time `now`.
    pub fn end_telemetry_session(&mut self, batch_id: &str, now: u64) -> (r: Result<(), TelemetryError>)
        requires
            old(self).wf(),
        ensures
            final(self).wf(),
            ({
                let i = find_session(old(self).active(), batch_id@);
                &&& i == -1 ==> r == Err::<(), TelemetryError>(TelemetryError::SessionNotFound)
                &&& i != -1 ==> {
                    &&& r is Ok
                    &&& final(self).active() == old(self).active().remove(i)
                    &&& final(self).historical().drop_last() == old(self).historical()
                    &&& final(self).historical().len() == old(self).historical().len() + 1
                    &&& closed_as(old(self).active()[i], final(self).historical().last(), old(self).active()[i].stage, now)
                }
            }),
            r is Err ==> *final(self) == *old(self),
    {
        let key = batch_id.to_owned();
        let found = find_index(&self.active_sessions, &key);
        proof {
            lemma_find_session(self.active_sessions@, batch_id@);
        }
        match found {
            None => Err(TelemetryError::SessionNotFound),
            Some(i) => {
                let stage = self.active_sessions[i].stage;
                self.close_at(i, stage, now);
                Ok(())
            },
        }
    }

    /// The session of `batch_id`: the open one if there is one, else the
    /// first closed one.
    pub fn get_telemetry_data(&self, batch_id: &str) -> (r: Option<&FermentationTelemetry>)
        ensures
            ({
                let i = find_session(self.active(), batch_id@);
                let j = find_session(self.historical(), batch_id@);
                &&& i != -1 ==> r == Some(&self.active()[i])
                &&& i == -1 && j != -1 ==> r == Some(&self.historical()[j])
                &&& i == -1 && j == -1 ==> r is None
            }),
    {
        let key = batch_id.to_owned();
        proof {
            lemma_find_session(self.active_sessions@, batch_id@);
            lemma_find_session(self.historical_records@, batch_id@);
        }
        match find_index(&self.active_sessions, &key) {
            Some(i) => Some(&self.active_sessions[i]),
            None => match find_index(&self.historical_records, &key) {
                Some(j) => Some(&self.historical_records[j]),
                None => None,
            },
        }
    }

    /// Whether `batch_id` has an open session.
    pub fn has_active_session(&self, batch_id: &str) -> (r: bool)
        ensures
            r == (find_session(self.active(), batch_id@) != -1),
    {
        let key = batch_id.to_owned();
        find_index(&self.active_sessions, &key).is_some()
    }

    /// The canonical bytes of the session of `batch_id` (the open one if
    /// any, else the first closed one), ready for submission to the ledger.
    pub fn export_to_blockchain(&self, batch_id: &str) -> (r: Result<Vec<u8>, TelemetryError>)
        ensures
            ({
                let i = find_session(self.active(), batch_id@);
                let j = find_session(self.historical(), batch_id@);
                &&& i != -1 ==> (r matches Ok(v) && v@ == session_bytes(self.active()[i]))
                &&& i == -1 && j != -1 ==> (r matches Ok(v) && v@ == session_bytes(self.historical()[j]))
                &&& i == -1 && j == -1 ==> r == Err::<Vec<u8>, TelemetryError>(TelemetryError::SessionNotFound)
            }),
    {
        match self.get_telemetry_data(batch_id) {
            Some(s) => Ok(encode_session(s)),
            None => Err(TelemetryError::SessionNotFound),
        }
    }

    /// The canonical bytes of reading `index` of the session of `batch_id`
    /// (the open one if any, else the first closed one), read back from its
    /// redundant stored form.
    pub fn recover_reading(&self, batch_id: &str, index: usize) -> (r: Result<Vec<u8>, TelemetryError>)
        requires
            self.wf(),
        ensures
            ({
                let i = find_session(self.active(), batch_id@);
                let j = find_session(self.historical(), batch_id@);
                let s = if i != -1 { self.active()[i] } else { self.historical()[j] };
                &&& i == -1 && j == -1 ==> r == Err::<Vec<u8>, TelemetryError>(TelemetryError::SessionNotFound)
                &&& (i != -1 || j != -1) && index >= s.readings@.len() ==> r == Err::<Vec<u8>, TelemetryError>(
                    TelemetryError::ReadingNotFound,
                )
                &&& (i != -1 || j != -1) && index < s.readings@.len() ==> (r matches Ok(v) && v@ == reading_bytes(
                    s.readings@[index as int],
                ))
            }),
    {
        let s = match self.get_telemetry_data(batch_id) {
            None => return Err(TelemetryError::SessionNotFound),
            Some(s) => s,
        };
        proof {
            lemma_find_session(self.active_sessions@, batch_id@);
            lemma_find_session(self.historical_records@, batch_id@);
        }
        if index >= s.readings.len() {
            return Err(TelemetryError::ReadingNotFound);
        }
        assert(session_wf(*s));
        assert(storable(reading_bytes(s.readings@[index as int])));
        assert(views(s.stored_readings@[index as int]@) == stored_form(reading_bytes(s.readings@[index as int])));
        match recover(&s.stored_readings[index]) {
            Ok(v) => Ok(v),
            Err(_) => Err(TelemetryError::ReadingNotFound),
        }
    }
}

} // verus!
