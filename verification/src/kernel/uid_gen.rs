//! The identifier generator.
//!
//! An identifier is one 64-bit word of four fields, from the most significant
//! bit down: 42 bits of milliseconds since the custom epoch, 10 bits of
//! machine id, 6 bits of process id and 6 bits of sequence number.

use crate::kernel::clock::now_millis;
use crate::kernel::types::UID;
use vstd::prelude::*;

verus! {

/// 2024-01-01 00:00:00 UTC, in milliseconds since the Unix epoch.
pub const CUSTOM_EPOCH: u64 = 1704067200000;

/// Width of the timestamp field.
pub const TIMESTAMP_BITS: u64 = 42;

/// Width of the machine id field.
pub const MACHINE_ID_BITS: u64 = 10;

/// Width of the process id field.
pub const PROCESS_ID_BITS: u64 = 6;

/// Width of the sequence field.
pub const SEQUENCE_BITS: u64 = 6;

/// Position of the timestamp field's lowest bit.
pub const TIMESTAMP_SHIFT: u64 = 22;

/// Position of the machine id field's lowest bit.
pub const MACHINE_ID_SHIFT: u64 = 12;

/// Position of the process id field's lowest bit.
pub const PROCESS_ID_SHIFT: u64 = 6;

/// Largest sequence number.
pub const MAX_SEQUENCE: u64 = 63;

/// Largest machine id.
pub const MAX_MACHINE_ID: u64 = 1023;

/// Largest process id.
pub const MAX_PROCESS_ID: u64 = 63;

/// How often `next` reads the clock again while it waits for it to move on.
pub const MAX_CLOCK_POLLS: u32 = 0x10_0000;

/// Largest number of milliseconds since the custom epoch that the timestamp
/// field holds.
pub const MAX_TIMESTAMP_OFFSET: u64 = 0x3ff_ffff_ffff;

/// A timestamp that the timestamp field can hold.
pub open spec fn timestamp_fits(timestamp: u64) -> bool {
    CUSTOM_EPOCH <= timestamp <= CUSTOM_EPOCH + MAX_TIMESTAMP_OFFSET
}

/// Four values that each fit their field.
pub open spec fn fields_fit(timestamp: u64, machine_id: u16, process_id: u8, sequence: u64) -> bool {
    &&& timestamp_fits(timestamp)
    &&& machine_id <= MAX_MACHINE_ID
    &&& process_id <= MAX_PROCESS_ID
    &&& sequence <= MAX_SEQUENCE
}

/// The identifier word that holds the four fields.
pub open spec fn compose_spec(timestamp: u64, machine_id: u16, process_id: u8, sequence: u64) -> int {
    (timestamp - CUSTOM_EPOCH) * 0x40_0000 + machine_id * 0x1000 + process_id * 0x40 + sequence
}

/// The timestamp held in an identifier word.
pub open spec fn timestamp_of(word: u64) -> u64 {
    (word / 0x40_0000 + CUSTOM_EPOCH) as u64
}

/// The machine id held in an identifier word.
pub open spec fn machine_id_of(word: u64) -> u16 {
    ((word / 0x1000) % 0x400) as u16
}

/// The process id held in an identifier word.
pub open spec fn process_id_of(word: u64) -> u8 {
    ((word / 0x40) % 0x40) as u8
}

/// The sequence number held in an identifier word.
pub open spec fn sequence_of(word: u64) -> u64 {
    word % 0x40
}

/// The fields of one identifier.
#[derive(Debug, Clone)]
pub struct UIDInfo {
    pub uid: UID,
    /// Milliseconds since the Unix epoch.
    pub timestamp: u64,
    pub machine_id: u16,
    pub process_id: u8,
    pub sequence: u64,
}

/// A moment as seconds and nanoseconds since the Unix epoch.
#[derive(Debug, Clone, Copy, PartialEq, Eq, Structural)]
pub struct UnixTime {
    /// Whole seconds since the Unix epoch.
    pub secs: u64,
    /// Nanoseconds into the second, below 1 000 000 000.
    pub subsec_nanos: u32,
}

impl UIDInfo {
    /// The moment at which the identifier was generated: `timestamp`
    /// milliseconds after the Unix epoch.
    pub fn created_at(&self) -> (moment: UnixTime)
        ensures
            moment.secs == self.timestamp / 1000,
            moment.subsec_nanos == (self.timestamp % 1000) * 1_000_000,
            moment.secs * 1000 + moment.subsec_nanos / 1_000_000 == self.timestamp,
    {
        let millis: u64 = self.timestamp % 1000;
        UnixTime { secs: self.timestamp / 1000, subsec_nanos: (millis * 1_000_000) as u32 }
    }

    /// The fields read from `uid`.
    pub open spec fn of(uid: UID) -> UIDInfo {
        UIDInfo {
            uid,
            timestamp: timestamp_of(uid.0),
            machine_id: machine_id_of(uid.0),
            process_id: process_id_of(uid.0),
            sequence: sequence_of(uid.0),
        }
    }

    /// Whether two identifiers come from the same millisecond of the same
    /// machine and process.
    pub fn is_same_millisecond(&self, other: &UIDInfo) -> (same: bool)
        ensures
            same <==> self.timestamp == other.timestamp && self.machine_id == other.machine_id
                && self.process_id == other.process_id,
    {
        self.timestamp == other.timestamp && self.machine_id == other.machine_id
            && self.process_id == other.process_id
    }
}

/// The arithmetic of packing four field values into one word and reading
/// them back.
proof fn lemma_pack_unpack(offset: u64, machine: u64, process: u64, sequence: u64)
    by (bit_vector)
    requires
        offset <= 0x3ff_ffff_ffff,
        machine <= 1023,
        process <= 63,
        sequence <= 63,
    ensures
        offset * 0x40_0000 + machine * 0x1000 + process * 0x40 + sequence <= 0xffff_ffff_ffff_ffff,
        ({
            let word = (offset * 0x40_0000 + machine * 0x1000 + process * 0x40 + sequence) as u64;
            &&& word / 0x40_0000 == offset
            &&& (word / 0x1000) % 0x400 == machine
            &&& (word / 0x40) % 0x40 == process
            &&& word % 0x40 == sequence
        }),
{
}

/// The arithmetic of reading four field values from a word and packing them
/// again.
proof fn lemma_unpack_pack(word: u64)
    by (bit_vector)
    ensures
        word / 0x40_0000 <= 0x3ff_ffff_ffff,
        (word / 0x40_0000) * 0x40_0000 + ((word / 0x1000) % 0x400) * 0x1000 + ((word / 0x40) % 0x40)
            * 0x40 + word % 0x40 == word,
{
}

/// Packing then reading gives the four fields back.
pub proof fn lemma_parse_compose(timestamp: u64, machine_id: u16, process_id: u8, sequence: u64)
    requires
        fields_fit(timestamp, machine_id, process_id, sequence),
    ensures
        0 <= compose_spec(timestamp, machine_id, process_id, sequence) <= u64::MAX,
        ({
            let word = compose_spec(timestamp, machine_id, process_id, sequence) as u64;
            &&& timestamp_of(word) == timestamp
            &&& machine_id_of(word) == machine_id
            &&& process_id_of(word) == process_id
            &&& sequence_of(word) == sequence
        }),
{
    lemma_pack_unpack(
        (timestamp - CUSTOM_EPOCH) as u64,
        machine_id as u64,
        process_id as u64,
        sequence,
    );
}

/// Reading then packing gives the identifier word back, and what is read
/// fits the fields.
pub proof fn lemma_compose_parse(word: u64)
    ensures
        fields_fit(timestamp_of(word), machine_id_of(word), process_id_of(word), sequence_of(word)),
        compose_spec(timestamp_of(word), machine_id_of(word), process_id_of(word), sequence_of(word))
            == word,
{
    lemma_unpack_pack(word);
}

/// What a generator is made with.
#[derive(Debug, Clone)]
pub struct UIDGeneratorConfig {
    /// Machine id, 0 to 1023.
    pub machine_id: u16,
    /// Process id, 0 to 63.
    pub process_id: u8,
    /// Whether the generator waits out a clock that has gone backwards.
    pub enable_clock_drift_protection: bool,
}

/// Why no identifier was generated.
#[derive(Debug, Clone, PartialEq, Eq)]
pub enum UIDGeneratorError {
    /// The clock could not be read, or its reading, though not behind the
    /// last identifier, does not fit the timestamp field.
    SystemTimeError,
    /// The clock reads the first value, earlier than the second, at which
    /// the last identifier was generated.
    ClockDrift(u64, u64),
    /// A machine id above 1023.
    InvalidMachineId(u64),
    /// A process id above 63.
    InvalidProcessId(u64),
}

/// An address of this host.
#[derive(Debug, Clone, Copy, PartialEq, Eq, Structural)]
pub enum HostAddress {
    /// An IPv4 address, its four bytes as one number, first byte highest.
    V4(u32),
    /// An IPv6 address, its sixteen bytes as one number, first byte highest.
    V6(u128),
}

/// The first IPv4 address among `addresses`, as a number.
pub open spec fn first_v4(addresses: Seq<HostAddress>) -> Option<u32>
    decreases addresses.len(),
{
    if addresses.len() == 0 {
        None
    } else {
        match addresses[0] {
            HostAddress::V4(bits) => Some(bits),
            HostAddress::V6(_) => first_v4(addresses.drop_first()),
        }
    }
}

/// The machine id that a host with these addresses gets.
pub open spec fn default_machine_id(addresses: Option<Seq<HostAddress>>) -> u16 {
    match addresses {
        Some(found) => match first_v4(found) {
            Some(bits) => (bits % 1024) as u16,
            None => 0,
        },
        None => 0,
    }
}

/// The machine id of a host by its addresses: the first IPv4 address among
/// them, taken modulo 1024; 0 when there is none, or when the addresses
/// could not be found out (`None`).
pub fn calculate_default_machine_id(addresses: &Option<Vec<HostAddress>>) -> (id: u16)
    ensures
        id == default_machine_id(
            match addresses {
                Some(found) => Some(found@),
                None => None,
            },
        ),
        id <= MAX_MACHINE_ID,
{
    let mut first: Option<u32> = None;
    match addresses {
        Some(found) => {
            let mut at: usize = 0;
            assert(found@.skip(0) =~= found@);
            while at < found.len()
                invariant_except_break
                    at <= found.len(),
                    first is None,
                    first_v4(found@) == first_v4(found@.skip(at as int)),
                ensures
                    first_v4(found@) == first,
                decreases found.len() - at,
            {
                assert(found@.skip(at as int).drop_first() =~= found@.skip(at + 1));
                match found[at] {
                    HostAddress::V4(value) => {
                        first = Some(value);
                        break ;
                    },
                    HostAddress::V6(_) => {},
                }
                at = at + 1;
            }
        },
        None => {},
    }
    match first {
        Some(bits) => (bits % 1024) as u16,
        None => 0,
    }
}

/// The process id of the process numbered `pid`: `pid` modulo 64.
pub fn calculate_default_process_id(pid: u32) -> (id: u8)
    ensures
        id == pid % 64,
{
    (pid % 64) as u8
}

/// The character of a decimal digit.
pub open spec fn digit_char(digit: u64) -> char {
    if digit == 0 {
        '0'
    } else if digit == 1 {
        '1'
    } else if digit == 2 {
        '2'
    } else if digit == 3 {
        '3'
    } else if digit == 4 {
        '4'
    } else if digit == 5 {
        '5'
    } else if digit == 6 {
        '6'
    } else if digit == 7 {
        '7'
    } else if digit == 8 {
        '8'
    } else {
        '9'
    }
}

/// A number written in decimal digits, without leading zeros.
pub open spec fn decimal(number: u64) -> Seq<char>
    decreases number,
{
    if number < 10 {
        seq![digit_char(number)]
    } else {
        decimal(number / 10).push(digit_char(number % 10))
    }
}

/// The text of one decimal digit.
fn digit_text(digit: u64) -> (text: &'static str)
    requires
        digit < 10,
    ensures
        text@ == seq![digit_char(digit)],
{
    proof {
        reveal_strlit("0");
        reveal_strlit("1");
        reveal_strlit("2");
        reveal_strlit("3");
        reveal_strlit("4");
        reveal_strlit("5");
        reveal_strlit("6");
        reveal_strlit("7");
        reveal_strlit("8");
        reveal_strlit("9");
    }
    let text = if digit == 0 {
        "0"
    } else if digit == 1 {
        "1"
    } else if digit == 2 {
        "2"
    } else if digit == 3 {
        "3"
    } else if digit == 4 {
        "4"
    } else if digit == 5 {
        "5"
    } else if digit == 6 {
        "6"
    } else if digit == 7 {
        "7"
    } else if digit == 8 {
        "8"
    } else {
        "9"
    };
    text
}

/// Writes `number` in decimal digits at the end of `text`.
fn push_decimal(text: &mut String, number: u64)
    ensures
        final(text)@ == old(text)@ + decimal(number),
    decreases number,
{
    if number >= 10 {
        push_decimal(text, number / 10);
    }
    text.append(digit_text(number % 10));
}

impl UIDGeneratorError {
    /// The error in words.
    pub open spec fn message(self) -> Seq<char> {
        match self {
            UIDGeneratorError::SystemTimeError => "系统时间错误"@,
            UIDGeneratorError::ClockDrift(now, last) => "时间回拨: 当前时间"@ + decimal(now)
                + " < 上次时间"@ + decimal(last),
            UIDGeneratorError::InvalidMachineId(id) => "机器ID超出范围: "@ + decimal(id)
                + " (最大1023)"@,
            UIDGeneratorError::InvalidProcessId(id) => "进程ID超出范围: "@ + decimal(id)
                + " (最大63)"@,
        }
    }

    /// The error in words.
    pub fn to_string(&self) -> (text: String)
        ensures
            text@ == self.message(),
    {
        match self {
            UIDGeneratorError::SystemTimeError => String::from_str("系统时间错误"),
            UIDGeneratorError::ClockDrift(now, last) => {
                let mut text = String::from_str("时间回拨: 当前时间");
                push_decimal(&mut text, *now);
                text.append(" < 上次时间");
                push_decimal(&mut text, *last);
                text
            },
            UIDGeneratorError::InvalidMachineId(id) => {
                let mut text = String::from_str("机器ID超出范围: ");
                push_decimal(&mut text, *id);
                text.append(" (最大1023)");
                text
            },
            UIDGeneratorError::InvalidProcessId(id) => {
                let mut text = String::from_str("进程ID超出范围: ");
                push_decimal(&mut text, *id);
                text.append(" (最大63)");
                text
            },
        }
    }
}

impl UIDGeneratorConfig {
    /// The configuration of a process numbered `pid` on a host with these
    /// addresses, with the protection against clock drift on.
    pub fn for_host(addresses: &Option<Vec<HostAddress>>, pid: u32) -> (config: Self)
        ensures
            config.machine_id == default_machine_id(
                match addresses {
                    Some(found) => Some(found@),
                    None => None,
                },
            ),
            config.process_id == pid % 64,
            config.enable_clock_drift_protection,
            config.is_valid(),
    {
        UIDGeneratorConfig {
            machine_id: calculate_default_machine_id(addresses),
            process_id: calculate_default_process_id(pid),
            enable_clock_drift_protection: true,
        }
    }

    /// Both ids fit their fields.
    pub open spec fn is_valid(&self) -> bool {
        self.machine_id <= MAX_MACHINE_ID && self.process_id <= MAX_PROCESS_ID
    }

    /// Checks that both ids fit their fields; the machine id is looked at
    /// first.
    pub fn validate(&self) -> (checked: Result<(), UIDGeneratorError>)
        ensures
            checked is Ok <==> self.is_valid(),
            self.machine_id > MAX_MACHINE_ID ==> checked == Err::<(), UIDGeneratorError>(
                UIDGeneratorError::InvalidMachineId(self.machine_id as u64),
            ),
            self.machine_id <= MAX_MACHINE_ID && self.process_id > MAX_PROCESS_ID ==> checked
                == Err::<(), UIDGeneratorError>(
                UIDGeneratorError::InvalidProcessId(self.process_id as u64),
            ),
    {
        if self.machine_id as u64 > MAX_MACHINE_ID {
            Err(UIDGeneratorError::InvalidMachineId(self.machine_id as u64))
        } else if self.process_id as u64 > MAX_PROCESS_ID {
            Err(UIDGeneratorError::InvalidProcessId(self.process_id as u64))
        } else {
            Ok(())
        }
    }
}

/// What one clock reading lets a generator do.
#[derive(Debug, Clone, PartialEq, Eq)]
pub enum Step {
    /// This identifier was generated.
    Issued(UID),
    /// The clock is behind the last identifier by this many milliseconds:
    /// wait that long and read it again.
    Sleep(u64),
    /// The millisecond has given its 64 identifiers: wait for the next one.
    AwaitNextMillis,
    /// Nothing can be generated from this reading.
    Failed(UIDGeneratorError),
}

/// A generator as its contracts see it.
pub struct GeneratorState {
    pub machine_id: u16,
    pub process_id: u8,
    pub drift_protection: bool,
    /// Timestamp of the last identifier, 0 before the first.
    pub last_timestamp: u64,
    /// Sequence number of the last identifier.
    pub sequence: u64,
}

impl GeneratorState {
    /// Both ids fit their fields, and so does what was generated last.
    pub open spec fn wf(self) -> bool {
        &&& self.machine_id <= MAX_MACHINE_ID
        &&& self.process_id <= MAX_PROCESS_ID
        &&& self.sequence <= MAX_SEQUENCE
        &&& self.last_timestamp == 0 ==> self.sequence == 0
        &&& self.last_timestamp != 0 ==> timestamp_fits(self.last_timestamp)
    }

    /// The identifier word of `timestamp` and `sequence` on this machine and
    /// process.
    pub open spec fn word(self, timestamp: u64, sequence: u64) -> u64 {
        compose_spec(timestamp, self.machine_id, self.process_id, sequence) as u64
    }

    /// The last identifier generated, as a number; -1 before the first.
    pub open spec fn watermark(self) -> int {
        if self.last_timestamp == 0 {
            -1
        } else {
            self.word(self.last_timestamp, self.sequence) as int
        }
    }

    /// What the reading `now` lets the generator do.
    ///
    /// A reading behind the last identifier is a clock that has gone back:
    /// under protection the generator asks to wait for as long as the clock
    /// is behind, without it the step fails with the drift. A reading that
    /// is not behind but does not fit the timestamp field is no time. A
    /// reading in the millisecond of the last identifier takes the next
    /// sequence number, or asks to wait when there is none left; a later
    /// reading starts at sequence number 0.
    pub open spec fn step(self, now: u64) -> Step {
        if now < self.last_timestamp {
            if self.drift_protection {
                Step::Sleep((self.last_timestamp - now) as u64)
            } else {
                Step::Failed(UIDGeneratorError::ClockDrift(now, self.last_timestamp))
            }
        } else if !timestamp_fits(now) {
            Step::Failed(UIDGeneratorError::SystemTimeError)
        } else if now == self.last_timestamp {
            if self.sequence == MAX_SEQUENCE {
                Step::AwaitNextMillis
            } else {
                Step::Issued(UID(self.word(now, (self.sequence + 1) as u64)))
            }
        } else {
            Step::Issued(UID(self.word(now, 0)))
        }
    }

    /// The generator after it was given the reading `now`: moved on to the
    /// identifier that was generated, or as before.
    pub open spec fn after(self, now: u64) -> GeneratorState {
        match self.step(now) {
            Step::Issued(uid) => GeneratorState {
                last_timestamp: now,
                sequence: sequence_of(uid.0),
                ..self
            },
            _ => self,
        }
    }

    /// Some reading lets the generator end a call with `issued`, by
    /// generating the identifier or by failing with the error, and leaves it
    /// as `then`.
    pub open spec fn ends_as(self, issued: Result<UID, UIDGeneratorError>, then: GeneratorState) -> bool {
        exists|now: u64|
            {
                &&& #[trigger] self.step(now) == match issued {
                    Ok(uid) => Step::Issued(uid),
                    Err(e) => Step::Failed(e),
                }
                &&& then == self.after(now)
            }
    }

    /// The generator after it was given each of `readings`, first to last.
    pub open spec fn run(self, readings: Seq<u64>) -> GeneratorState
        decreases readings.len(),
    {
        if readings.len() == 0 {
            self
        } else {
            self.run(readings.drop_last()).after(readings.last())
        }
    }

    /// What the reading at `index` of `readings` lets the generator do, after
    /// it was given those before it.
    pub open spec fn outcome(self, readings: Seq<u64>, index: int) -> Step {
        self.run(readings.take(index)).step(readings[index])
    }

    /// Some readings, given in turn, generate `ids` one by one and leave the
    /// generator as `then`.
    pub open spec fn generates(self, ids: Seq<UID>, then: GeneratorState) -> bool {
        exists|readings: Seq<u64>|
            {
                &&& #[trigger] self.issues(readings, ids)
                &&& then == self.run(readings)
            }
    }

    /// Some readings generate fewer than `count` identifiers one by one and
    /// leave the generator as `then`.
    pub open spec fn spends(self, count: int, then: GeneratorState) -> bool {
        exists|ids: Seq<UID>| ids.len() < count && #[trigger] self.generates(ids, then)
    }

    /// Each of `readings`, given in turn, generates the identifier at its
    /// place in `ids`.
    pub open spec fn issues(self, readings: Seq<u64>, ids: Seq<UID>) -> bool {
        &&& readings.len() == ids.len()
        &&& forall|i: int|
            0 <= i < ids.len() ==> #[trigger] self.outcome(readings, i) == Step::Issued(ids[i])
    }
}

/// A step that generates an identifier generates one above all that the
/// generator has generated, and the generator moves on to it. Any other step
/// leaves the generator as it was.
pub proof fn lemma_step_order(state: GeneratorState, now: u64)
    requires
        state.wf(),
    ensures
        state.after(now).wf(),
        state.after(now).machine_id == state.machine_id,
        state.after(now).process_id == state.process_id,
        state.after(now).drift_protection == state.drift_protection,
        state.step(now) matches Step::Issued(uid) ==> {
            &&& state.watermark() < uid.0
            &&& state.after(now).watermark() == uid.0
            &&& state.after(now).last_timestamp == now
            &&& uid.0 == state.after(now).word(now, state.after(now).sequence)
            &&& timestamp_of(uid.0) == now
            &&& machine_id_of(uid.0) == state.machine_id
            &&& process_id_of(uid.0) == state.process_id
        },
        !(state.step(now) is Issued) ==> state.after(now) == state,
{
    if state.last_timestamp != 0 {
        lemma_parse_compose(
            state.last_timestamp,
            state.machine_id,
            state.process_id,
            state.sequence,
        );
    }
    if timestamp_fits(now) && now >= state.last_timestamp {
        if now == state.last_timestamp {
            if state.sequence < MAX_SEQUENCE {
                lemma_parse_compose(
                    now,
                    state.machine_id,
                    state.process_id,
                    (state.sequence + 1) as u64,
                );
            }
        } else {
            lemma_parse_compose(now, state.machine_id, state.process_id, 0);
        }
    }
}

/// Giving a generator one more reading is a step from where the earlier
/// readings left it, and changes nothing of what those did.
pub proof fn lemma_run_push(state: GeneratorState, readings: Seq<u64>, now: u64)
    ensures
        state.run(readings.push(now)) == state.run(readings).after(now),
        state.outcome(readings.push(now), readings.len() as int) == state.run(readings).step(now),
        forall|i: int|
            0 <= i < readings.len() ==> #[trigger] state.outcome(readings.push(now), i)
                == state.outcome(readings, i),
{
    let longer = readings.push(now);
    assert(longer.take(readings.len() as int) =~= readings);
    assert forall|i: int| 0 <= i < readings.len() implies #[trigger] state.outcome(longer, i)
        == state.outcome(readings, i) by {
        assert(longer.take(i) =~= readings.take(i));
    }
}

/// A generator stays well formed, keeps its machine and process, and never
/// falls back below an identifier that it has generated.
pub proof fn lemma_run_order(state: GeneratorState, readings: Seq<u64>)
    requires
        state.wf(),
    ensures
        state.run(readings).wf(),
        state.run(readings).machine_id == state.machine_id,
        state.run(readings).process_id == state.process_id,
        state.run(readings).drift_protection == state.drift_protection,
        state.watermark() <= state.run(readings).watermark(),
    decreases readings.len(),
{
    if readings.len() > 0 {
        lemma_run_order(state, readings.drop_last());
        lemma_step_order(state.run(readings.drop_last()), readings.last());
    }
}

/// Once a reading has generated an identifier, the generator stands at that
/// identifier or above it after every later reading.
proof fn lemma_issued_below_watermark(
    state: GeneratorState,
    readings: Seq<u64>,
    index: int,
    upto: int,
)
    requires
        state.wf(),
        0 <= index < upto <= readings.len(),
        state.outcome(readings, index) is Issued,
    ensures
        state.run(readings.take(upto)).wf(),
        state.outcome(readings, index)->Issued_0.0 <= state.run(readings.take(upto)).watermark(),
    decreases upto - index,
{
    let shorter = readings.take(upto - 1);
    assert(readings.take(upto).drop_last() =~= shorter);
    lemma_run_order(state, shorter);
    lemma_step_order(state.run(shorter), readings[upto - 1]);
    if upto - 1 > index {
        lemma_issued_below_watermark(state, readings, index, upto - 1);
    }
}

/// Identifiers come out in increasing order: of two readings that each
/// generate one, the later generates the larger, whatever the clock did in
/// between.
pub proof fn lemma_issue_order(state: GeneratorState, readings: Seq<u64>, earlier: int, later: int)
    requires
        state.wf(),
        0 <= earlier < later < readings.len(),
        state.outcome(readings, earlier) is Issued,
        state.outcome(readings, later) is Issued,
    ensures
        state.outcome(readings, earlier)->Issued_0.0 < state.outcome(readings, later)->Issued_0.0,
{
    lemma_issued_below_watermark(state, readings, earlier, later);
    lemma_step_order(state.run(readings.take(later)), readings[later]);
}

/// Within one millisecond the sequence numbers count up from 0: when
/// readings in a row show the same millisecond, later than the generator's
/// last, each of the first 64 generates the identifier of that millisecond
/// with its own place, `index`, as the sequence number.
pub proof fn lemma_same_millisecond(state: GeneratorState, now: u64, count: nat, index: int)
    requires
        state.wf(),
        timestamp_fits(now),
        state.last_timestamp < now,
        0 <= index < count,
        index < 64,
    ensures
        state.outcome(Seq::new(count, |i: int| now), index) == Step::Issued(
            UID(state.word(now, index as u64)),
        ),
        timestamp_of(state.word(now, index as u64)) == now,
        machine_id_of(state.word(now, index as u64)) == state.machine_id,
        process_id_of(state.word(now, index as u64)) == state.process_id,
        sequence_of(state.word(now, index as u64)) == index,
    decreases index,
{
    let readings = Seq::new(count, |i: int| now);
    let before = readings.take(index);
    lemma_parse_compose(now, state.machine_id, state.process_id, index as u64);
    if index > 0 {
        lemma_same_millisecond(state, now, count, index - 1);
        assert(before.drop_last() =~= readings.take(index - 1));
        lemma_run_order(state, readings.take(index - 1));
        lemma_parse_compose(now, state.machine_id, state.process_id, (index - 1) as u64);
    }
}

/// In a millisecond that has given its 64 identifiers a further reading
/// generates nothing: it asks to wait for the next millisecond.
pub proof fn lemma_millisecond_capacity(state: GeneratorState, now: u64)
    requires
        state.wf(),
        timestamp_fits(now),
        state.last_timestamp < now,
    ensures
        state.outcome(Seq::new(65, |i: int| now), 64) == Step::AwaitNextMillis,
{
    let readings = Seq::new(65, |i: int| now);
    let before = readings.take(64);
    lemma_same_millisecond(state, now, 65, 63);
    assert(before.drop_last() =~= readings.take(63));
    lemma_run_order(state, readings.take(63));
    lemma_parse_compose(now, state.machine_id, state.process_id, 63);
}

/// The generator of identifiers.
pub struct UIDGenerator {
    config: UIDGeneratorConfig,
    last_timestamp: u64,
    sequence: u64,
    drift_protection_enabled: bool,
}

impl View for UIDGenerator {
    type V = GeneratorState;

    closed spec fn view(&self) -> GeneratorState {
        GeneratorState {
            machine_id: self.config.machine_id,
            process_id: self.config.process_id,
            drift_protection: self.drift_protection_enabled,
            last_timestamp: self.last_timestamp,
            sequence: self.sequence,
        }
    }
}

impl UIDGenerator {
    /// A generator that has generated nothing yet. It protects against clock
    /// drift if `config` says so.
    pub fn new(config: UIDGeneratorConfig) -> (generator: Self)
        requires
            config.is_valid(),
        ensures
            generator@ == (GeneratorState {
                machine_id: config.machine_id,
                process_id: config.process_id,
                drift_protection: config.enable_clock_drift_protection,
                last_timestamp: 0,
                sequence: 0,
            }),
            generator@.wf(),
    {
        let drift_protection_enabled = config.enable_clock_drift_protection;
        UIDGenerator { config, last_timestamp: 0, sequence: 0, drift_protection_enabled }
    }

    /// Turns the protection against clock drift on or off.
    pub fn set_drift_protection(&mut self, enabled: bool)
        ensures
            final(self)@ == (GeneratorState { drift_protection: enabled, ..old(self)@ }),
    {
        self.drift_protection_enabled = enabled;
    }

    /// What the reading `now` would let the generator do; see
    /// [`GeneratorState::step`]. The generator stays as it is.
    pub fn preview(&self, now: u64) -> (step: Step)
        requires
            self@.wf(),
        ensures
            step == self@.step(now),
    {
        let last: u64 = self.last_timestamp;
        if now < last {
            if self.drift_protection_enabled {
                Step::Sleep(last - now)
            } else {
                Step::Failed(UIDGeneratorError::ClockDrift(now, last))
            }
        } else if now < CUSTOM_EPOCH || now - CUSTOM_EPOCH > MAX_TIMESTAMP_OFFSET {
            Step::Failed(UIDGeneratorError::SystemTimeError)
        } else if now == last && self.sequence == MAX_SEQUENCE {
            Step::AwaitNextMillis
        } else {
            let sequence: u64 = if now == last {
                self.sequence + 1
            } else {
                0
            };
            Step::Issued(
                Self::compose(now, self.config.machine_id, self.config.process_id, sequence),
            )
        }
    }

    /// Gives the generator one clock reading. It generates an identifier if
    /// the reading allows it, and says what to do if not; see
    /// [`GeneratorState::step`].
    pub fn advance(&mut self, now: u64) -> (step: Step)
        requires
            old(self)@.wf(),
        ensures
            step == old(self)@.step(now),
            final(self)@ == old(self)@.after(now),
            final(self)@.wf(),
    {
        let step = self.preview(now);
        if let Step::Issued(_) = step {
            proof {
                lemma_step_order(self@, now);
            }
            self.sequence = if now == self.last_timestamp {
                self.sequence + 1
            } else {
                0
            };
            self.last_timestamp = now;
        }
        step
    }

    /// Reads the clock, in milliseconds since the Unix epoch.
    pub fn current_timestamp(&self) -> (reading: Result<u64, UIDGeneratorError>)
        ensures
            reading is Err ==> reading == Err::<u64, UIDGeneratorError>(
                UIDGeneratorError::SystemTimeError,
            ),
    {
        match now_millis() {
            Some(millis) => Ok(millis),
            None => Err(UIDGeneratorError::SystemTimeError),
        }
    }

    /// Generates the next identifier.
    ///
    /// The clock is read and the reading given to the generator as in
    /// [`UIDGenerator::advance`]. Where that asks to wait, the clock is read
    /// again, up to `MAX_CLOCK_POLLS` times; a clock that cannot be read
    /// while the next millisecond is awaited counts as having reached it.
    /// When the clock still has not come round, the generator goes by its own
    /// time: the millisecond of its last identifier, then the one after.
    ///
    /// Whatever the clock gave, the call ends as one step on some reading
    /// ends, and that step is no wait.
    pub fn next(&mut self) -> (issued: Result<UID, UIDGeneratorError>)
        requires
            old(self)@.wf(),
        ensures
            final(self)@.wf(),
            old(self)@.ends_as(issued, final(self)@),
            issued is Err ==> final(self)@ == old(self)@,
            issued matches Ok(uid) ==> {
                &&& old(self)@.watermark() < uid.0
                &&& final(self)@.watermark() == uid.0
                &&& uid.0 == final(self)@.word(final(self)@.last_timestamp, final(self)@.sequence)
            },
    {
        let last: u64 = self.last_timestamp;
        let mut polls: u32 = 0;
        let mut awaiting_next: bool = false;
        while polls < MAX_CLOCK_POLLS
            invariant
                self@ == old(self)@,
                self@.wf(),
                last == self@.last_timestamp,
                awaiting_next ==> timestamp_fits(last),
            decreases MAX_CLOCK_POLLS - polls,
        {
            let now: u64 = match self.current_timestamp() {
                Ok(reading) => reading,
                Err(e) => {
                    if awaiting_next {
                        last + 1
                    } else {
                        assert(self@.step(u64::MAX) == Step::Failed(e));
                        return Err(e);
                    }
                },
            };
            proof {
                lemma_step_order(self@, now);
            }
            match self.advance(now) {
                Step::Issued(uid) => {
                    return Ok(uid);
                },
                Step::Failed(e) => {
                    return Err(e);
                },
                Step::Sleep(_) => {
                    awaiting_next = false;
                },
                Step::AwaitNextMillis => {
                    awaiting_next = true;
                },
            }
            polls = polls + 1;
        }
        proof {
            lemma_step_order(self@, last);
        }
        match self.advance(last) {
            Step::Issued(uid) => Ok(uid),
            Step::Failed(e) => Err(e),
            _ => {
                proof {
                    lemma_step_order(self@, (last + 1) as u64);
                }
                match self.advance(last + 1) {
                    Step::Issued(uid) => Ok(uid),
                    _ => Err(UIDGeneratorError::SystemTimeError),
                }
            },
        }
    }

    /// Generates `count` identifiers, as `count` calls of
    /// [`UIDGenerator::next`] do, in the order in which they were generated.
    /// The first call that fails ends the batch with its error; the
    /// identifiers generated before it are spent.
    pub fn batch(&mut self, count: usize) -> (issued: Result<Vec<UID>, UIDGeneratorError>)
        requires
            old(self)@.wf(),
        ensures
            final(self)@.wf(),
            final(self)@.machine_id == old(self)@.machine_id,
            final(self)@.process_id == old(self)@.process_id,
            final(self)@.drift_protection == old(self)@.drift_protection,
            old(self)@.watermark() <= final(self)@.watermark(),
            issued matches Ok(ids) ==> ids@.len() == count,
            issued matches Ok(ids) ==> old(self)@.generates(ids@, final(self)@),
            issued matches Ok(ids) ==> forall|i: int, j: int|
                0 <= i < j < count ==> ids@[i].0 < ids@[j].0,
            issued matches Ok(ids) ==> forall|i: int|
                0 <= i < count ==> old(self)@.watermark() < (#[trigger] ids@[i]).0
                    <= final(self)@.watermark(),
            issued matches Ok(ids) ==> count > 0 ==> final(self)@.watermark() == ids@[count - 1].0,
            issued matches Ok(ids) ==> count == 0 ==> final(self)@ == old(self)@,
            issued matches Err(e) ==> old(self)@.spends(count as int, final(self)@),
            issued matches Err(e) ==> final(self)@.ends_as(Err(e), final(self)@),
    {
        let mut result: Vec<UID> = Vec::with_capacity(count);
        let ghost mut readings: Seq<u64> = Seq::empty();
        let mut done: usize = 0;
        while done < count
            invariant
                done <= count,
                result@.len() == done,
                old(self)@.wf(),
                self@.wf(),
                old(self)@.issues(readings, result@),
                self@ == old(self)@.run(readings),
                forall|i: int|
                    0 <= i < done ==> old(self)@.watermark() < (#[trigger] result@[i]).0
                        <= self@.watermark(),
                done > 0 ==> self@.watermark() == result@[done - 1].0,
                done == 0 ==> self@ == old(self)@,
            decreases count - done,
        {
            let ghost before = self@;
            proof {
                lemma_run_order(old(self)@, readings);
            }
            match self.next() {
                Ok(uid) => {
                    proof {
                        let now = choose|now: u64|
                            {
                                &&& #[trigger] before.step(now) == Step::Issued(uid)
                                &&& self@ == before.after(now)
                            };
                        lemma_run_push(old(self)@, readings, now);
                        readings = readings.push(now);
                    }
                    result.push(uid);
                },
                Err(e) => {
                    assert(old(self)@.generates(result@, self@));
                    return Err(e);
                },
            }
            done = done + 1;
        }
        proof {
            lemma_run_order(old(self)@, readings);
            assert forall|i: int, j: int| 0 <= i < j < count implies result@[i].0
                < result@[j].0 by {
                lemma_issue_order(old(self)@, readings, i, j);
            }
        }
        Ok(result)
    }

    /// Builds the identifier that holds the four fields.
    pub fn compose(timestamp: u64, machine_id: u16, process_id: u8, sequence: u64) -> (uid: UID)
        requires
            fields_fit(timestamp, machine_id, process_id, sequence),
        ensures
            uid.0 == compose_spec(timestamp, machine_id, process_id, sequence),
            UIDInfo::of(uid) == (UIDInfo { uid, timestamp, machine_id, process_id, sequence }),
    {
        let offset: u64 = timestamp - CUSTOM_EPOCH;
        let machine: u64 = machine_id as u64;
        let process: u64 = process_id as u64;
        let word: u64 = (offset << TIMESTAMP_SHIFT) | (machine << MACHINE_ID_SHIFT) | (process
            << PROCESS_ID_SHIFT) | sequence;
        assert(word == offset * 0x40_0000 + machine * 0x1000 + process * 0x40 + sequence)
            by (bit_vector)
            requires
                offset <= 0x3ff_ffff_ffff,
                machine <= 1023,
                process <= 63,
                sequence <= 63,
                word == (offset << 22) | (machine << 12) | (process << 6) | sequence,
        ;
        proof {
            lemma_parse_compose(timestamp, machine_id, process_id, sequence);
        }
        UID(word)
    }

    /// Reads the four fields of an identifier.
    pub fn parse(uid: UID) -> (info: UIDInfo)
        ensures
            info == UIDInfo::of(uid),
            info.timestamp == timestamp_of(uid.0),
            info.machine_id == machine_id_of(uid.0),
            info.process_id == process_id_of(uid.0),
            info.sequence == sequence_of(uid.0),
    {
        let value: u64 = uid.0;
        let offset: u64 = value >> TIMESTAMP_SHIFT;
        let machine: u64 = (value >> MACHINE_ID_SHIFT) & MAX_MACHINE_ID;
        let process: u64 = (value >> PROCESS_ID_SHIFT) & MAX_PROCESS_ID;
        let sequence: u64 = value & MAX_SEQUENCE;
        assert(offset == value / 0x40_0000 && machine == (value / 0x1000) % 0x400 && process == (value
            / 0x40) % 0x40 && sequence == value % 0x40) by (bit_vector)
            requires
                offset == value >> 22,
                machine == (value >> 12) & 1023,
                process == (value >> 6) & 63,
                sequence == value & 63,
        ;
        UIDInfo {
            uid,
            timestamp: offset + CUSTOM_EPOCH,
            machine_id: machine as u16,
            process_id: process as u8,
            sequence,
        }
    }
}

/// A counter in place of the clock: identifiers that differ in their sequence
/// number only, for tests.
pub struct SimpleUIDGenerator {
    counter: u64,
    base: u64,
}

impl SimpleUIDGenerator {
    /// How many identifiers were generated, modulo 2 to the 64.
    pub closed spec fn counter(&self) -> u64 {
        self.counter
    }

    /// The timestamp field is set as for the custom epoch itself.
    pub closed spec fn wf(&self) -> bool {
        self.base == CUSTOM_EPOCH * 0x40_0000
    }

    /// A generator that has generated nothing yet.
    pub fn new() -> (generator: Self)
        ensures
            generator.wf(),
            generator.counter() == 0,
    {
        let base: u64 = CUSTOM_EPOCH << TIMESTAMP_SHIFT;
        assert(base == 1704067200000 * 0x40_0000) by (bit_vector)
            requires
                base == 1704067200000u64 << 22,
        ;
        SimpleUIDGenerator { counter: 0, base }
    }

    /// The next identifier: the custom epoch in the timestamp field, machine
    /// and process 0, and the count so far, modulo 64, as the sequence
    /// number.
    pub fn next(&mut self) -> (uid: UID)
        requires
            old(self).wf(),
        ensures
            final(self).wf(),
            final(self).counter() == if old(self).counter() == u64::MAX {
                0
            } else {
                old(self).counter() + 1
            },
            uid.0 == CUSTOM_EPOCH * 0x40_0000 + old(self).counter() % 64,
            UIDInfo::of(uid) == (UIDInfo {
                uid,
                timestamp: (CUSTOM_EPOCH + CUSTOM_EPOCH) as u64,
                machine_id: 0,
                process_id: 0,
                sequence: old(self).counter() % 64,
            }),
    {
        let seq: u64 = self.counter;
        self.counter = if seq == u64::MAX {
            0
        } else {
            seq + 1
        };
        let base: u64 = self.base;
        let word: u64 = base | (seq & MAX_SEQUENCE);
        assert(word == base + seq % 64) by (bit_vector)
            requires
                base == 1704067200000u64 * 0x40_0000,
                word == base | (seq & 63),
        ;
        proof {
            lemma_parse_compose((CUSTOM_EPOCH + CUSTOM_EPOCH) as u64, 0, 0, seq % 64);
        }
        UID(word)
    }
}

/// Generates the next identifier of the generator that the process shares;
/// see [`UIDGenerator::next`].
pub fn next_global_uid(generator: &mut UIDGenerator) -> (issued: Result<UID, UIDGeneratorError>)
    requires
        old(generator)@.wf(),
    ensures
        final(generator)@.wf(),
        old(generator)@.ends_as(issued, final(generator)@),
        issued is Err ==> final(generator)@ == old(generator)@,
        issued matches Ok(uid) ==> {
            &&& old(generator)@.watermark() < uid.0
            &&& final(generator)@.watermark() == uid.0
        },
{
    generator.next()
}

/// Generates `count` identifiers of the generator that the process shares;
/// see [`UIDGenerator::batch`].
pub fn batch_global_uids(generator: &mut UIDGenerator, count: usize) -> (issued: Result<
    Vec<UID>,
    UIDGeneratorError,
>)
    requires
        old(generator)@.wf(),
    ensures
        final(generator)@.wf(),
        old(generator)@.watermark() <= final(generator)@.watermark(),
        issued matches Ok(ids) ==> ids@.len() == count,
        issued matches Ok(ids) ==> old(generator)@.generates(ids@, final(generator)@),
        issued matches Ok(ids) ==> forall|i: int, j: int|
            0 <= i < j < count ==> ids@[i].0 < ids@[j].0,
        issued matches Ok(ids) ==> forall|i: int|
            0 <= i < count ==> old(generator)@.watermark() < (#[trigger] ids@[i]).0
                <= final(generator)@.watermark(),
        issued matches Err(e) ==> old(generator)@.spends(count as int, final(generator)@),
        issued matches Err(e) ==> final(generator)@.ends_as(Err(e), final(generator)@),
{
    generator.batch(count)
}

} // verus!
