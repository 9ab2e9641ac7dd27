//! Time-ordered identifiers.
//!
//! An identifier carries the millisecond at which it was made in the bits above
//! the low 22, so the age of a record can be read off its identifier.

use vstd::prelude::*;

verus! {

/// Number of low bits below the timestamp of an identifier.
pub const TIMESTAMP_SHIFT: u64 = 22;

/// The largest millisecond that an identifier carries.
pub const MAX_TIMESTAMP: u64 = 0x1ff_ffff_ffff;

/// The largest sequence number within a millisecond.
pub const MAX_SEQUENCE: u64 = 4095;

/// The instance that identifiers are drawn for.
pub const INSTANCE: u64 = 0;

/// `std::time::SystemTime`, a reading of the wall clock. Opaque to the proofs.
#[verifier::external_type_specification]
#[verifier::external_body]
pub struct ExSystemTime(std::time::SystemTime);

/// `<i64 as snowflaked::Snowflake>::from_parts`: the identifier made of a
/// millisecond, an instance and a sequence number. The millisecond goes
/// above the low 22 bits with the sign bit cleared, the instance into the ten
/// bits above the low 12, and the sequence number is laid over the low bits.
#[verifier::external_body]
fn snowflake_from_parts(timestamp: u64, instance: u64, sequence: u64) -> (id: i64)
    ensures
        id == parts_id(timestamp, instance, sequence),
{
    <i64 as snowflaked::Snowflake>::from_parts(timestamp, instance, sequence)
}

/// `std::time::SystemTime::now`: the current reading of the wall clock.
#[verifier::external_body]
fn system_now() -> std::time::SystemTime {
    std::time::SystemTime::now()
}

/// `std::time::SystemTime::duration_since` against `UNIX_EPOCH`: the time
/// elapsed since the epoch, or `None` for a reading that lies before it.
#[verifier::external_body]
fn since_unix_epoch(reading: &std::time::SystemTime) -> Option<core::time::Duration> {
    reading.duration_since(std::time::UNIX_EPOCH).ok()
}

/// `core::time::Duration::as_millis`: the whole milliseconds in a duration.
#[verifier::external_body]
fn whole_millis(elapsed: &core::time::Duration) -> u128 {
    elapsed.as_millis()
}

/// The millisecond embedded in an identifier.
pub open spec fn timestamp_of(snowflake: i64) -> u64 {
    (snowflake as u64) >> TIMESTAMP_SHIFT
}

/// Whether an identifier made at its embedded millisecond is at most
/// `max_age_ms` old at `now_ms`. An identifier from the future counts as new.
pub open spec fn recent_at(snowflake: i64, max_age_ms: u64, now_ms: u64) -> bool {
    now_ms - timestamp_of(snowflake) <= max_age_ms
}

/// The bits of the identifier made of a millisecond, an instance and a
/// sequence number.
pub open spec fn parts_bits(timestamp: u64, instance: u64, sequence: u64) -> u64 {
    (((timestamp << 22) & 0x7fff_ffff_ffff_ffff) | ((instance << 12) & 0x3f_f000)) | sequence
}

/// The identifier made of a millisecond, an instance and a sequence number.
pub open spec fn parts_id(timestamp: u64, instance: u64, sequence: u64) -> i64 {
    parts_bits(timestamp, instance, sequence) as i64
}

/// A millisecond held at the largest that an identifier carries.
pub open spec fn clamped(timestamp_ms: u64) -> u64 {
    if timestamp_ms > MAX_TIMESTAMP {
        MAX_TIMESTAMP
    } else {
        timestamp_ms
    }
}

/// The millisecond a reading of the clock stands for: a clock that could not
/// be read stands at the epoch.
pub open spec fn instant(reading: Option<u64>) -> u64 {
    match reading {
        Some(now_ms) => clamped(now_ms),
        None => 0,
    }
}

/// How far a generator has come: the millisecond of the identifier drawn
/// last, and the sequence number of the next identifier in that millisecond.
pub struct GeneratorView {
    pub timestamp: u64,
    pub sequence: u64,
}

impl GeneratorView {
    /// No identifier is left: the last millisecond is used up.
    pub open spec fn spent(self) -> bool {
        clamped(self.timestamp) == MAX_TIMESTAMP && self.sequence > MAX_SEQUENCE
    }

    /// The clock is followed at this reading: it has not stepped back behind
    /// the last identifier, and the millisecond it reads is not used up.
    pub open spec fn follows(self, reading: Option<u64>) -> bool {
        instant(reading) > clamped(self.timestamp) || (instant(reading) == clamped(self.timestamp)
            && self.sequence <= MAX_SEQUENCE)
    }

    /// The millisecond and sequence number of the next identifier, drawn at
    /// a reading of the clock: the first of the instant read where that is
    /// later than the last identifier, else the next in the millisecond of
    /// the last identifier, and the first of the millisecond after it once
    /// that one is used up. A clock that stepped back is not followed.
    pub open spec fn slot(self, reading: Option<u64>) -> (u64, u64) {
        let now = instant(reading);
        let held = clamped(self.timestamp);
        if now > held {
            (now, 0)
        } else if self.sequence <= MAX_SEQUENCE {
            (held, self.sequence)
        } else {
            ((held + 1) as u64, 0)
        }
    }

    /// The next identifier, drawn at a reading of the clock; none from a
    /// spent generator.
    pub open spec fn next_id(self, reading: Option<u64>) -> Option<i64> {
        if self.spent() {
            None
        } else {
            Some(parts_id(self.slot(reading).0, INSTANCE, self.slot(reading).1))
        }
    }

    /// The generator once the next identifier was drawn; a spent generator
    /// stays as it is.
    pub open spec fn after(self, reading: Option<u64>) -> GeneratorView {
        if self.spent() {
            self
        } else {
            GeneratorView {
                timestamp: self.slot(reading).0,
                sequence: (self.slot(reading).1 + 1) as u64,
            }
        }
    }

    /// The largest identifier drawn so far; below zero before the first.
    pub open spec fn floor(self) -> int {
        clamped(self.timestamp) * 4194304 + (if self.sequence > MAX_SEQUENCE {
            MAX_SEQUENCE + 1
        } else {
            self.sequence as int
        }) - 1
    }
}

/// A source of identifiers that are told apart and ordered by the time they
/// were drawn. Identifiers are told apart only among those drawn from one
/// generator, so a process keeps one and hands it to whatever draws.
pub struct IdGenerator {
    timestamp: u64,
    sequence: u64,
}

impl View for IdGenerator {
    type V = GeneratorView;

    closed spec fn view(&self) -> GeneratorView {
        GeneratorView { timestamp: self.timestamp, sequence: self.sequence }
    }
}

/// What an identifier made of a millisecond and a sequence number within
/// their ranges is as a number, and that its millisecond can be read back.
pub proof fn lemma_parts(timestamp: u64, sequence: u64)
    requires
        timestamp <= MAX_TIMESTAMP,
        sequence <= MAX_SEQUENCE,
    ensures
        parts_id(timestamp, INSTANCE, sequence) == timestamp * 4194304 + sequence,
        timestamp_of(parts_id(timestamp, INSTANCE, sequence)) == timestamp,
{
    let bits = parts_bits(timestamp, INSTANCE, sequence);
    assert(bits >> 22 == timestamp && bits <= 0x7fff_ffff_ffff_ffff && bits == timestamp * 4194304
        + sequence) by (bit_vector)
        requires
            timestamp <= 0x1ff_ffff_ffff,
            sequence <= 4095,
            bits == (((timestamp << 22) & 0x7fff_ffff_ffff_ffff) | ((0u64 << 12) & 0x3f_f000))
                | sequence,
    ;
    assert(bits as i64 == bits);
    assert((bits as i64) as u64 == bits);
}

/// A draw from a generator that is not spent gives an identifier that is not
/// negative, that lies above every identifier drawn before and is the
/// largest drawn since, and that carries a millisecond no earlier than the
/// instant read: that very instant where the clock is followed.
pub proof fn lemma_draw(g: GeneratorView, reading: Option<u64>)
    ensures
        g.next_id(reading) is None <==> g.spent(),
        g.spent() ==> g.after(reading) == g,
        g.after(reading).floor() >= g.floor(),
        g.next_id(reading) matches Some(id) ==> {
            &&& id >= 0
            &&& id > g.floor()
            &&& g.after(reading).floor() == id
            &&& timestamp_of(id) == g.slot(reading).0
            &&& timestamp_of(id) >= instant(reading)
            &&& g.follows(reading) ==> timestamp_of(id) == instant(reading)
        },
{
    if !g.spent() {
        lemma_parts(g.slot(reading).0, g.slot(reading).1);
    }
}

/// A generator that has drawn nothing yet.
pub fn get_generator() -> (generator: IdGenerator)
    ensures
        generator@ == (GeneratorView { timestamp: 0, sequence: 0 }),
        !generator@.spent(),
        generator@.floor() == -1,
{
    IdGenerator { timestamp: 0, sequence: 0 }
}

impl IdGenerator {
    /// Whether no identifier is left.
    pub fn is_spent(&self) -> (spent: bool)
        ensures
            spent == self@.spent(),
    {
        self.timestamp >= MAX_TIMESTAMP && self.sequence > MAX_SEQUENCE
    }

    /// Draws the next identifier at a reading of the clock, `None` standing
    /// for a clock that could not be read. A spent generator gives none and
    /// stays as it is.
    pub fn draw_at(&mut self, reading: Option<u64>) -> (id: Option<i64>)
        ensures
            id == old(self)@.next_id(reading),
            final(self)@ == old(self)@.after(reading),
    {
        if self.is_spent() {
            return None;
        }
        let now = match reading {
            Some(now_ms) => if now_ms > MAX_TIMESTAMP {
                MAX_TIMESTAMP
            } else {
                now_ms
            },
            None => 0,
        };
        let held = if self.timestamp > MAX_TIMESTAMP {
            MAX_TIMESTAMP
        } else {
            self.timestamp
        };
        let (timestamp, sequence) = if now > held {
            (now, 0)
        } else if self.sequence <= MAX_SEQUENCE {
            (held, self.sequence)
        } else {
            (held + 1, 0)
        };
        self.timestamp = timestamp;
        self.sequence = sequence + 1;
        Some(snowflake_from_parts(timestamp, INSTANCE, sequence))
    }
}

/// Draws a fresh identifier now; none from a spent generator, which stays as
/// it is. The identifier is not negative, lies above every identifier the
/// generator gave before, and is the largest it has given. It carries the
/// instant the clock reads, or a later one where the clock stepped back or
/// the millisecond it reads is used up.
pub fn generate_id(generator: &mut IdGenerator) -> (id: Option<i64>)
    ensures
        exists|reading: Option<u64>|
            {
                &&& id == #[trigger] old(generator)@.next_id(reading)
                &&& final(generator)@ == old(generator)@.after(reading)
                &&& id matches Some(i) ==> timestamp_of(i) >= instant(reading) && (old(
                    generator,
                )@.follows(reading) ==> timestamp_of(i) == instant(reading))
            },
        id is None <==> old(generator)@.spent(),
        id is None ==> final(generator)@ == old(generator)@,
        final(generator)@.floor() >= old(generator)@.floor(),
        id matches Some(i) ==> i >= 0 && i > old(generator)@.floor() && final(generator)@.floor()
            == i,
{
    let reading = unix_time_ms();
    proof {
        lemma_draw(generator@, reading);
    }
    generator.draw_at(reading)
}

/// The millisecond since the Unix epoch at which `snowflake` was made.
pub fn snowflake_to_timestamp(snowflake: i64) -> (timestamp_ms: u64)
    ensures
        timestamp_ms == timestamp_of(snowflake),
{
    (snowflake as u64) >> TIMESTAMP_SHIFT
}

/// Whether `snowflake` is at most `max_age_ms` old at the instant `now_ms`.
pub fn is_snowflake_recent_at(snowflake: i64, max_age_ms: u64, now_ms: u64) -> (recent: bool)
    ensures
        recent == recent_at(snowflake, max_age_ms, now_ms),
{
    let timestamp_ms = snowflake_to_timestamp(snowflake);
    if now_ms <= timestamp_ms {
        true
    } else {
        now_ms - timestamp_ms <= max_age_ms
    }
}

/// A count of milliseconds held at the largest value that 64 bits carry.
pub open spec fn saturated(millis: u128) -> u64 {
    if millis > u64::MAX as u128 {
        u64::MAX
    } else {
        millis as u64
    }
}

/// Whether an identifier is recent by a reading of the clock: by a clock
/// that could not be read nothing is, and otherwise its age at the instant
/// read decides.
pub open spec fn recent_on(snowflake: i64, max_age_ms: u64, reading: Option<u64>) -> bool {
    match reading {
        Some(now_ms) => recent_at(snowflake, max_age_ms, now_ms),
        None => false,
    }
}

/// Holds a count of milliseconds at the largest value that 64 bits carry.
pub fn saturate_millis(millis: u128) -> (held: u64)
    ensures
        held == saturated(millis),
{
    if millis > 0xffff_ffff_ffff_ffffu128 {
        u64::MAX
    } else {
        millis as u64
    }
}

/// Whether `snowflake` is at most `max_age_ms` old by a reading of the
/// clock, `None` standing for a clock that could not be read.
pub fn is_snowflake_recent_on(snowflake: i64, max_age_ms: u64, reading: Option<u64>) -> (recent:
    bool)
    ensures
        recent == recent_on(snowflake, max_age_ms, reading),
{
    match reading {
        None => false,
        Some(now_ms) => is_snowflake_recent_at(snowflake, max_age_ms, now_ms),
    }
}

/// Milliseconds since the Unix epoch on the wall clock, saturating at
/// `u64::MAX`; `None` when the clock reads a time before the epoch.
pub fn unix_time_ms() -> (now_ms: Option<u64>) {
    let reading = system_now();
    match since_unix_epoch(&reading) {
        None => None,
        Some(elapsed) => Some(saturate_millis(whole_millis(&elapsed))),
    }
}

/// Whether `snowflake` is at most `max_age_ms` old now: whether it is recent
/// by what the clock reads. With a clock that reads a time before the epoch
/// nothing is recent.
pub fn is_snowflake_recent(snowflake: i64, max_age_ms: u64) -> (recent: bool)
    ensures
        exists|reading: Option<u64>| recent == #[trigger] recent_on(snowflake, max_age_ms, reading),
        recent ==> exists|now_ms: u64| #[trigger] recent_at(snowflake, max_age_ms, now_ms),
{
    let reading = unix_time_ms();
    let recent = is_snowflake_recent_on(snowflake, max_age_ms, reading);
    proof {
        if recent {
            assert(recent_at(snowflake, max_age_ms, reading.unwrap()));
        }
    }
    recent
}

} // verus!
