use vstd::prelude::*;
use vstd::arithmetic::div_mod::lemma_mod_add_multiples_vanish;

verus! {

/// Number of distinct per-second sequence values (13 bits).
pub const COUNTER_SPAN: u64 = 8192;

/// Number of distinct machine identifiers (10 bits).
pub const MACHINE_SPAN: u64 = 1024;

/// A process-unique identifier is one 64-bit value made of three
/// non-overlapping bitfields: bits [23..64) hold the seconds since the Unix
/// epoch, bits [13..23) the machine id, and bits [0..13) the per-second
/// sequence counter.
pub open spec fn id_of(seconds: u64, machine_id: u64, counter: u64) -> u64 {
    (seconds << 23) | (machine_id << 13) | counter
}

/// The sequence counter after `calls` further calls, starting from `start`:
/// it is read and then incremented with wraparound modulo `COUNTER_SPAN`.
pub open spec fn counter_after(start: u64, calls: nat) -> u64 {
    (((start as int) + calls) % (COUNTER_SPAN as int)) as u64
}

/// The per-process generator state: a fixed machine id and the wrapping
/// sequence counter. The process shares one value of this behind a single
/// mutual-exclusion lock, so calls to `generate_id` are serialized.
#[derive(Debug)]
pub struct Snowflake {
    pub machine_id: u64,
    pub counter: u64,
}

/// Relies on std::time::SystemTime: `now` followed by `duration_since` the
/// Unix epoch gives the number of whole seconds since the epoch, or an error
/// when the clock reads earlier than the epoch, mapped to `None` here. The
/// result depends on the moment of the call, so nothing more is promised.
#[verifier::external_body]
fn unix_now_seconds() -> (r: Option<u64>) {
    match std::time::SystemTime::now().duration_since(std::time::UNIX_EPOCH) {
        Ok(d) => Some(d.as_secs()),
        Err(_) => None,
    }
}

impl Snowflake {
    /// Both fields stay inside their bitfield ranges.
    pub open spec fn wf(&self) -> bool {
        &&& self.machine_id < MACHINE_SPAN
        &&& self.counter < COUNTER_SPAN
    }

    /// A machine id outside [0, MACHINE_SPAN) is a fatal configuration
    /// error: no generator state is produced for it.
    pub fn new(machine_id: u64) -> (r: Result<Snowflake, String>)
        ensures
            machine_id < MACHINE_SPAN ==> (r matches Ok(s) && s == (Snowflake {
                machine_id,
                counter: 0,
            })),
            machine_id >= MACHINE_SPAN ==> (r matches Err(m) && m@
                == "Machine id should be between 0 and 1024"@),
            r matches Ok(s) ==> s.wf(),
    {
        if machine_id < MACHINE_SPAN {
            Ok(Snowflake { machine_id, counter: 0 })
        } else {
            Err("Machine id should be between 0 and 1024".to_owned())
        }
    }

    /// Combines the given second with the machine id and the current counter,
    /// then advances the counter with wraparound.
    pub fn next_id(&mut self, seconds: u64) -> (id: u64)
        requires
            old(self).wf(),
        ensures
            id == id_of(seconds, old(self).machine_id, old(self).counter),
            final(self).machine_id == old(self).machine_id,
            final(self).counter == counter_after(old(self).counter, 1),
            final(self).wf(),
    {
        let shifted_epoch = seconds << 23;
        let shifted_machine_id = self.machine_id << 13;
        let current_counter = self.counter;
        self.counter = (self.counter + 1) % COUNTER_SPAN;
        shifted_epoch | shifted_machine_id | current_counter
    }

    /// Reads the clock and mints one identifier for the current second.
    /// Fails exactly when the clock cannot be read, leaving the state
    /// unchanged; on success the counter advances with wraparound.
    pub fn generate_id(&mut self) -> (r: Result<u64, String>)
        requires
            old(self).wf(),
        ensures
            final(self).machine_id == old(self).machine_id,
            final(self).wf(),
            r matches Ok(id) ==> final(self).counter == counter_after(old(self).counter, 1)
                && (exists|s: u64| id == id_of(s, old(self).machine_id, old(self).counter)),
            r matches Err(m) ==> *final(self) == *old(self) && m@ == "Issue generating the id"@,
    {
        match unix_now_seconds() {
            Some(seconds) => {
                let ghost c0 = self.counter;
                let id = self.next_id(seconds);
                proof {
                    assert(id == id_of(seconds, old(self).machine_id, c0));
                }
                Ok(id)
            },
            None => Err("Issue generating the id".to_owned()),
        }
    }
}

/// The sequence counter occupies exactly the low 13 bits of an identifier.
pub proof fn lemma_id_low_bits(seconds: u64, machine_id: u64, counter: u64)
    requires
        machine_id < MACHINE_SPAN,
        counter < COUNTER_SPAN,
    ensures
        id_of(seconds, machine_id, counter) & 0x1fff == counter,
{
    assert(((seconds << 23) | (machine_id << 13) | counter) & 0x1fff == counter) by (bit_vector)
        requires
            machine_id < 1024,
            counter < 8192,
    ;
}

/// Two identifiers minted in the same second by the same machine from
/// different counter values are different.
pub proof fn lemma_ids_distinct(seconds: u64, machine_id: u64, c1: u64, c2: u64)
    requires
        machine_id < MACHINE_SPAN,
        c1 < COUNTER_SPAN,
        c2 < COUNTER_SPAN,
        c1 != c2,
    ensures
        id_of(seconds, machine_id, c1) != id_of(seconds, machine_id, c2),
{
    lemma_id_low_bits(seconds, machine_id, c1);
    lemma_id_low_bits(seconds, machine_id, c2);
}

/// Law: starting from a fresh counter, any `n <= COUNTER_SPAN` calls within
/// one clock second return pairwise distinct identifiers whose low 13 bits
/// are exactly the call positions 0, 1, ..., n-1 in call order.
pub proof fn lemma_ids_within_second(seconds: u64, machine_id: u64, n: u64)
    requires
        machine_id < MACHINE_SPAN,
        n <= COUNTER_SPAN,
    ensures
        forall|i: u64|
            i < n ==> #[trigger] id_of(seconds, machine_id, i) & 0x1fff == i,
        forall|i: u64, j: u64|
            i < n && j < n && i != j ==> #[trigger] id_of(seconds, machine_id, i)
                != #[trigger] id_of(seconds, machine_id, j),
{
    assert forall|i: u64| i < n implies #[trigger] id_of(seconds, machine_id, i) & 0x1fff
        == i by {
        lemma_id_low_bits(seconds, machine_id, i);
    }
    assert forall|i: u64, j: u64| i < n && j < n && i != j implies #[trigger] id_of(
        seconds,
        machine_id,
        i,
    ) != #[trigger] id_of(seconds, machine_id, j) by {
        lemma_ids_distinct(seconds, machine_id, i, j);
    }
}

/// Law: the counter state repeats after COUNTER_SPAN further calls, so the
/// call made COUNTER_SPAN positions later within the same second yields the
/// very same identifier: the wraparound collides instead of failing.
pub proof fn lemma_counter_wraparound(seconds: u64, machine_id: u64, start: u64, calls: nat)
    requires
        start < COUNTER_SPAN,
    ensures
        counter_after(start, calls + COUNTER_SPAN as nat) == counter_after(start, calls),
        id_of(seconds, machine_id, counter_after(start, calls + COUNTER_SPAN as nat)) == id_of(
            seconds,
            machine_id,
            counter_after(start, calls),
        ),
{
    lemma_mod_add_multiples_vanish(start + calls, COUNTER_SPAN as int);
}

} // verus!
