//! The memory of the target as every architecture offers it, and how the
//! RISC-V interface serves it: each access goes the way that was found for its
//! width when the interface attached.

use crate::communication_interface::RiscvCommunicationInterface;
use crate::dtm::{Dtm, Event};
use crate::error::{DebugProbeError, Error, RiscvError};
use crate::run::{Done, Run};
use crate::state::MemoryAccessMethod;
use crate::value::RiscvValue32;
use vstd::prelude::*;

verus! {

/// Access to the memory of a target. Addresses have 64 bits for the sake of
/// all architectures; an implementation says which of them it can reach.
pub trait MemoryInterface {
    /// Whether 64-bit accesses go to the target as such.
    fn supports_native_64bit_access(&mut self) -> bool;

    /// Reads a 64-bit word.
    fn read_word_64(&mut self, address: u64) -> Result<u64, Error>;

    /// Reads a 32-bit word.
    fn read_word_32(&mut self, address: u64) -> Result<u32, Error>;

    /// Reads a byte.
    fn read_word_8(&mut self, address: u64) -> Result<u8, Error>;

    /// Reads 64-bit words from consecutive addresses into all of `data`.
    fn read_64(&mut self, address: u64, data: &mut [u64]) -> Result<(), Error>;

    /// Reads 32-bit words from consecutive addresses into all of `data`.
    fn read_32(&mut self, address: u64, data: &mut [u32]) -> Result<(), Error>;

    /// Reads bytes from consecutive addresses into all of `data`.
    fn read_8(&mut self, address: u64, data: &mut [u8]) -> Result<(), Error>;

    /// Writes a 64-bit word.
    fn write_word_64(&mut self, address: u64, data: u64) -> Result<(), Error>;

    /// Writes a 32-bit word.
    fn write_word_32(&mut self, address: u64, data: u32) -> Result<(), Error>;

    /// Writes a byte.
    fn write_word_8(&mut self, address: u64, data: u8) -> Result<(), Error>;

    /// Writes 64-bit words to consecutive addresses.
    fn write_64(&mut self, address: u64, data: &[u64]) -> Result<(), Error>;

    /// Writes 32-bit words to consecutive addresses.
    fn write_32(&mut self, address: u64, data: &[u32]) -> Result<(), Error>;

    /// Writes bytes to consecutive addresses.
    fn write_8(&mut self, address: u64, data: &[u8]) -> Result<(), Error>;

    /// Makes sure that what was written has reached the target.
    fn flush(&mut self) -> Result<(), Error>;
}

/// Whether `bytes` bytes from `address` on lie within the 32 bits of
/// addresses; the address itself must, also where no byte is asked for.
pub open spec fn fits_32(address: u64, bytes: int) -> bool {
    address <= 0xffff_ffff && address + bytes <= 0x1_0000_0000
}

/// An address of the target, if the 64-bit address is one.
pub open spec fn spec_valid_32_address(address: u64) -> Result<u32, Error> {
    if address <= 0xffff_ffff {
        Ok(address as u32)
    } else {
        Err(Error::AddressOutOfRange(address))
    }
}

/// An address of the target, if the 64-bit address is one; else the failure
/// `AddressOutOfRange`.
#[verifier::when_used_as_spec(spec_valid_32_address)]
pub fn valid_32_address(address: u64) -> (r: Result<u32, Error>)
    ensures
        r == spec_valid_32_address(address),
{
    if address <= 0xffff_ffff {
        Ok(address as u32)
    } else {
        Err(Error::AddressOutOfRange(address))
    }
}

/// The start of an access of `count` values of `size` bytes each, if all of
/// them have an address of the target.
fn valid_32_range(address: u64, count: usize, size: u64) -> (r: Result<u32, Error>)
    requires
        0 < size <= 16,
    ensures
        fits_32(address, count * size) ==> r == Ok::<u32, Error>(address as u32),
        !fits_32(address, count * size) ==>
            r == Err::<u32, Error>(Error::AddressOutOfRange(address)),
{
    if address > 0xffff_ffff {
        return Err(Error::AddressOutOfRange(address));
    }
    let room: u64 = 0x1_0000_0000 - address;
    assert(count * size <= room <==> count <= room / size) by (nonlinear_arith)
        requires
            0 < size,
            0 <= count,
            0 <= room,
    ;
    if count as u64 <= room / size {
        Ok(address as u32)
    } else {
        Err(Error::AddressOutOfRange(address))
    }
}

/// The 64-bit value whose low word is `low`.
pub open spec fn spec_join_words(low: u32, high: u32) -> u64 {
    (low as u64) | ((high as u64) << 32u64)
}

impl<T> Done<T> {
    /// What the operation returns to the architecture-neutral layers.
    pub open spec fn neutral_result(self) -> Result<T, Error> {
        match self.run.fault {
            Some(e) => Err(Error::of_riscv(e)),
            None => Ok(self.value),
        }
    }
}

impl Run {
    /// The failure of an access by a method that is not implemented.
    pub open spec fn not_implemented(self) -> Run {
        self.fail(RiscvError::DebugProbe(DebugProbeError::NotImplemented))
    }

    /// The state once the method for a width was asked for.
    pub open spec fn method_asked<V: RiscvValue32>(self) -> Run {
        self.with_state(self.state.with_method_asked(V::spec_width()))
    }

    /// One value is read from memory, by the method for its width.
    #[verifier::opaque]
    pub open spec fn read_word<V: RiscvValue32>(self, log: Seq<Event>, address: u32) -> Done<V> {
        match self.state.method_for(V::spec_width()) {
            MemoryAccessMethod::ProgramBuffer => self.method_asked::<V>().read_progbuf::<V>(
                log,
                address,
            ),
            MemoryAccessMethod::SystemBus => self.method_asked::<V>().read_sysbus::<V>(
                log,
                address,
            ),
            MemoryAccessMethod::AbstractCommand => self.method_asked::<V>().not_implemented().done(
                arbitrary(),
            ),
        }
    }

    /// Values are read from consecutive places in memory, by the method for
    /// their width.
    #[verifier::opaque]
    pub open spec fn read_multiple<V: RiscvValue32>(
        self,
        log: Seq<Event>,
        address: u32,
        data: Seq<V>,
    ) -> Done<Seq<V>> {
        match self.state.method_for(V::spec_width()) {
            MemoryAccessMethod::ProgramBuffer => self.method_asked::<V>().read_multiple_progbuf::<V>(
                log,
                address,
                data,
            ),
            MemoryAccessMethod::SystemBus => self.method_asked::<V>().read_multiple_sysbus::<V>(
                log,
                address,
                data,
            ),
            MemoryAccessMethod::AbstractCommand => self.method_asked::<V>().not_implemented().done(
                data,
            ),
        }
    }

    /// One value is written to memory, by the method for its width.
    #[verifier::opaque]
    pub open spec fn write_word<V: RiscvValue32>(
        self,
        log: Seq<Event>,
        address: u32,
        value: V,
    ) -> Run {
        match self.state.method_for(V::spec_width()) {
            MemoryAccessMethod::ProgramBuffer => self.method_asked::<V>().write_progbuf_memory(
                log,
                address,
                value,
            ),
            MemoryAccessMethod::SystemBus => self.method_asked::<V>().write_sysbus(
                log,
                address,
                seq![value],
            ),
            MemoryAccessMethod::AbstractCommand => self.method_asked::<V>().not_implemented(),
        }
    }

    /// Values are written to consecutive places in memory, by the method for
    /// their width.
    #[verifier::opaque]
    pub open spec fn write_multiple<V: RiscvValue32>(
        self,
        log: Seq<Event>,
        address: u32,
        data: Seq<V>,
    ) -> Run {
        match self.state.method_for(V::spec_width()) {
            MemoryAccessMethod::ProgramBuffer => self.method_asked::<V>().write_multiple_progbuf(
                log,
                address,
                data,
            ),
            MemoryAccessMethod::SystemBus => self.method_asked::<V>().write_sysbus(
                log,
                address,
                data,
            ),
            MemoryAccessMethod::AbstractCommand => self.method_asked::<V>().not_implemented(),
        }
    }

    /// A 64-bit word is read as two 32-bit words: the low one at the address,
    /// then the high one four bytes on.
    #[verifier::opaque]
    pub open spec fn read_word_64(self, log: Seq<Event>, address: u32) -> Done<u64> {
        let low = self.read_word::<u32>(log, address);
        let high = low.run.read_word::<u32>(log, (address + 4) as u32);
        Done { run: high.run, value: spec_join_words(low.value, high.value) }
    }

    /// A 64-bit word is written as two 32-bit words: the low one at the
    /// address, then the high one four bytes on.
    #[verifier::opaque]
    pub open spec fn write_word_64(self, log: Seq<Event>, address: u32, value: u64) -> Run {
        self.write_word::<u32>(log, address, value as u32).write_word::<u32>(
            log,
            (address + 4) as u32,
            (value >> 32u64) as u32,
        )
    }

    /// The 64-bit words of `data` from the index `from` on are read, each as
    /// two 32-bit words, from addresses eight bytes apart.
    pub open spec fn read_words_64(
        self,
        log: Seq<Event>,
        address: u32,
        data: Seq<u64>,
        from: int,
    ) -> Done<
        Seq<u64>,
    >
        decreases data.len() - from,
    {
        if !self.live() || from < 0 || from >= data.len() {
            self.done(data)
        } else {
            let word = self.read_word_64(log, (address + 8 * from) as u32);
            if word.run.live() {
                word.run.read_words_64(log, address, data.update(from, word.value), from + 1)
            } else {
                word.run.done(data)
            }
        }
    }

    /// The 64-bit words of `data` from the index `from` on are written, each
    /// as two 32-bit words, to addresses eight bytes apart.
    pub open spec fn write_words_64(
        self,
        log: Seq<Event>,
        address: u32,
        data: Seq<u64>,
        from: int,
    ) -> Run
        decreases data.len() - from,
    {
        if !self.live() || from < 0 || from >= data.len() {
            self
        } else {
            self.write_word_64(log, (address + 8 * from) as u32, data[from]).write_words_64(
                log,
                address,
                data,
                from + 1,
            )
        }
    }
}

/// What the step makes of the record does not change when the record grows.
pub broadcast proof fn lemma_read_word_stable<V: RiscvValue32>(
    run: Run,
    log: Seq<Event>,
    new: Seq<Event>,
    address: u32,
)
    requires
        #[trigger] crate::dtm::extends(new, log),
        (#[trigger] run.read_word::<V>(log, address)).run.valid,
    ensures
        run.read_word::<V>(new, address) == run.read_word::<V>(log, address),
        run.at <= log.len() ==> run.read_word::<V>(log, address).run.at <= log.len(),
{
    broadcast use {
        crate::memory_progbuf::group_memory_progbuf,
        crate::system_bus::group_system_bus,
    };
    reveal(Run::read_word);
}

/// Nothing follows a failure.
pub broadcast proof fn lemma_read_word_dead<V: RiscvValue32>(
    run: Run,
    log: Seq<Event>,
    address: u32,
)
    requires
        !run.live(),
    ensures
        (#[trigger] run.read_word::<V>(log, address)).run == run,
{
    broadcast use {
        crate::memory_progbuf::group_memory_progbuf,
        crate::system_bus::group_system_bus,
    };
    reveal(Run::read_word);
}

/// What the step makes of the record does not change when the record grows.
pub broadcast proof fn lemma_write_word_stable<V: RiscvValue32>(
    run: Run,
    log: Seq<Event>,
    new: Seq<Event>,
    address: u32,
    value: V,
)
    requires
        #[trigger] crate::dtm::extends(new, log),
        (#[trigger] run.write_word::<V>(log, address, value)).valid,
    ensures
        run.write_word::<V>(new, address, value) == run.write_word::<V>(log, address, value),
        run.at <= log.len() ==> run.write_word::<V>(log, address, value).at <= log.len(),
{
    broadcast use {
        crate::memory_progbuf::group_memory_progbuf,
        crate::system_bus::group_system_bus,
    };
    reveal(Run::write_word);
}

/// Nothing follows a failure.
pub broadcast proof fn lemma_write_word_dead<V: RiscvValue32>(
    run: Run,
    log: Seq<Event>,
    address: u32,
    value: V,
)
    requires
        !run.live(),
    ensures
        (#[trigger] run.write_word::<V>(log, address, value)) == run,
{
    broadcast use {
        crate::memory_progbuf::group_memory_progbuf,
        crate::system_bus::group_system_bus,
    };
    reveal(Run::write_word);
}

/// What the step makes of the record does not change when the record grows.
pub broadcast proof fn lemma_read_word_64_stable(
    run: Run,
    log: Seq<Event>,
    new: Seq<Event>,
    address: u32,
)
    requires
        #[trigger] crate::dtm::extends(new, log),
        (#[trigger] run.read_word_64(log, address)).run.valid,
    ensures
        run.read_word_64(new, address) == run.read_word_64(log, address),
        run.at <= log.len() ==> run.read_word_64(log, address).run.at <= log.len(),
{
    broadcast use {
        crate::memory_progbuf::group_memory_progbuf,
        lemma_read_word_stable,
        lemma_read_word_dead,
        lemma_write_word_stable,
        lemma_write_word_dead,
    };
    reveal(Run::read_word_64);
}

/// Nothing follows a failure.
pub broadcast proof fn lemma_read_word_64_dead(run: Run, log: Seq<Event>, address: u32)
    requires
        !run.live(),
    ensures
        (#[trigger] run.read_word_64(log, address)).run == run,
{
    broadcast use {
        crate::memory_progbuf::group_memory_progbuf,
        lemma_read_word_stable,
        lemma_read_word_dead,
        lemma_write_word_stable,
        lemma_write_word_dead,
    };
    reveal(Run::read_word_64);
}

/// What the step makes of the record does not change when the record grows.
pub broadcast proof fn lemma_write_word_64_stable(
    run: Run,
    log: Seq<Event>,
    new: Seq<Event>,
    address: u32,
    value: u64,
)
    requires
        #[trigger] crate::dtm::extends(new, log),
        (#[trigger] run.write_word_64(log, address, value)).valid,
    ensures
        run.write_word_64(new, address, value) == run.write_word_64(log, address, value),
        run.at <= log.len() ==> run.write_word_64(log, address, value).at <= log.len(),
{
    broadcast use {
        crate::memory_progbuf::group_memory_progbuf,
        lemma_read_word_stable,
        lemma_read_word_dead,
        lemma_write_word_stable,
        lemma_write_word_dead,
    };
    reveal(Run::write_word_64);
}

/// Nothing follows a failure.
pub broadcast proof fn lemma_write_word_64_dead(run: Run, log: Seq<Event>, address: u32, value: u64)
    requires
        !run.live(),
    ensures
        (#[trigger] run.write_word_64(log, address, value)) == run,
{
    broadcast use {
        crate::memory_progbuf::group_memory_progbuf,
        lemma_read_word_stable,
        lemma_read_word_dead,
        lemma_write_word_stable,
        lemma_write_word_dead,
    };
    reveal(Run::write_word_64);
}

/// What holds of every step of a memory access.
pub broadcast group group_memory {
    crate::memory_progbuf::group_memory_progbuf,
    crate::system_bus::group_system_bus,
    lemma_read_word_stable,
    lemma_read_word_dead,
    lemma_write_word_stable,
    lemma_write_word_dead,
    lemma_read_word_64_stable,
    lemma_read_word_64_dead,
    lemma_write_word_64_stable,
    lemma_write_word_64_dead,
}

impl<D: Dtm> RiscvCommunicationInterface<D> {
    /// As `did`, for an operation that returns to the architecture-neutral
    /// layers.
    pub open spec fn did_neutral<T>(&self, pre: &Self, done: Done<T>, r: Result<T, Error>) -> bool {
        &&& self.after(pre, done.run)
        &&& r == done.neutral_result()
    }

    /// As `went`, for an operation that returns to the architecture-neutral
    /// layers.
    pub open spec fn went_neutral(&self, pre: &Self, run: Run, r: Result<(), Error>) -> bool {
        &&& self.after(pre, run)
        &&& r == run.done(()).neutral_result()
    }

    /// Nothing was asked of the outside and nothing was learnt.
    pub open spec fn untouched(&self, pre: &Self) -> bool {
        &&& self.log() == pre.log()
        &&& self.model() == pre.model()
    }

    /// Reads one value from memory.
    pub fn read_word<V: RiscvValue32>(&mut self, address: u32) -> (r: Result<V, Error>)
        ensures
            final(self).did_neutral(
                old(self),
                old(self).run().read_word::<V>(final(self).log(), address),
                r,
            ),
    {
        reveal(Run::read_word);
        match self.state.memory_access_method(V::width()) {
            MemoryAccessMethod::ProgramBuffer => match self.perform_memory_read_progbuf(address) {
                Ok(value) => Ok(value),
                Err(e) => Err(Error::from(e)),
            },
            MemoryAccessMethod::SystemBus => match self.perform_memory_read_sysbus(address) {
                Ok(value) => Ok(value),
                Err(e) => Err(Error::from(e)),
            },
            MemoryAccessMethod::AbstractCommand => Err(
                Error::from(RiscvError::DebugProbe(DebugProbeError::NotImplemented)),
            ),
        }
    }

    /// Reads values from consecutive places in memory into all of `data`.
    pub fn read_multiple<V: RiscvValue32>(&mut self, address: u32, data: &mut [V]) -> (r: Result<
        (),
        Error,
    >)
        ensures
            final(self).went_neutral(
                old(self),
                old(self).run().read_multiple::<V>(final(self).log(), address, old(data)@).run,
                r,
            ),
            final(data)@ == old(self).run().read_multiple::<V>(
                final(self).log(),
                address,
                old(data)@,
            ).value,
    {
        reveal(Run::read_multiple);
        match self.state.memory_access_method(V::width()) {
            MemoryAccessMethod::ProgramBuffer => {
                match self.perform_memory_read_multiple_progbuf(address, data) {
                    Ok(_) => Ok(()),
                    Err(e) => Err(Error::from(e)),
                }
            },
            MemoryAccessMethod::SystemBus => {
                match self.perform_memory_read_multiple_sysbus(address, data) {
                    Ok(_) => Ok(()),
                    Err(e) => Err(Error::from(e)),
                }
            },
            MemoryAccessMethod::AbstractCommand => Err(
                Error::from(RiscvError::DebugProbe(DebugProbeError::NotImplemented)),
            ),
        }
    }

    /// Writes one value to memory.
    pub fn write_word<V: RiscvValue32>(&mut self, address: u32, data: V) -> (r: Result<(), Error>)
        ensures
            final(self).went_neutral(
                old(self),
                old(self).run().write_word(final(self).log(), address, data),
                r,
            ),
    {
        reveal(Run::write_word);
        match self.state.memory_access_method(V::width()) {
            MemoryAccessMethod::ProgramBuffer => {
                match self.perform_memory_write_progbuf(address, data) {
                    Ok(_) => Ok(()),
                    Err(e) => Err(Error::from(e)),
                }
            },
            MemoryAccessMethod::SystemBus => {
                let values = [data];
                assert(values@ =~= seq![data]);
                match self.perform_memory_write_sysbus(address, values.as_slice()) {
                    Ok(_) => Ok(()),
                    Err(e) => Err(Error::from(e)),
                }
            },
            MemoryAccessMethod::AbstractCommand => Err(
                Error::from(RiscvError::DebugProbe(DebugProbeError::NotImplemented)),
            ),
        }
    }

    /// Writes values to consecutive places in memory.
    pub fn write_multiple<V: RiscvValue32>(&mut self, address: u32, data: &[V]) -> (r: Result<
        (),
        Error,
    >)
        ensures
            final(self).went_neutral(
                old(self),
                old(self).run().write_multiple(final(self).log(), address, data@),
                r,
            ),
    {
        reveal(Run::write_multiple);
        match self.state.memory_access_method(V::width()) {
            MemoryAccessMethod::SystemBus => match self.perform_memory_write_sysbus(address, data) {
                Ok(_) => Ok(()),
                Err(e) => Err(Error::from(e)),
            },
            MemoryAccessMethod::ProgramBuffer => {
                match self.perform_memory_write_multiple_progbuf(address, data) {
                    Ok(_) => Ok(()),
                    Err(e) => Err(Error::from(e)),
                }
            },
            MemoryAccessMethod::AbstractCommand => Err(
                Error::from(RiscvError::DebugProbe(DebugProbeError::NotImplemented)),
            ),
        }
    }

    /// Reads a 64-bit word as two 32-bit words, the low one first.
    fn read_two_words(&mut self, address: u32) -> (r: Result<u64, Error>)
        requires
            address + 4 <= 0xffff_ffff,
        ensures
            final(self).did_neutral(
                old(self),
                old(self).run().read_word_64(final(self).log(), address),
                r,
            ),
    {
        broadcast use group_memory;
        reveal(Run::read_word_64);
        let low: u32 = self.read_word(address)?;
        let high: u32 = self.read_word(address + 4)?;
        Ok((low as u64) | ((high as u64) << 32u64))
    }

    /// Writes a 64-bit word as two 32-bit words, the low one first.
    fn write_two_words(&mut self, address: u32, data: u64) -> (r: Result<(), Error>)
        requires
            address + 4 <= 0xffff_ffff,
        ensures
            final(self).went_neutral(
                old(self),
                old(self).run().write_word_64(final(self).log(), address, data),
                r,
            ),
    {
        broadcast use group_memory;
        reveal(Run::write_word_64);
        let low_word: u32 = #[verifier::truncate]
        (data as u32);
        let high_word: u32 = #[verifier::truncate]
        ((data >> 32u64) as u32);
        self.write_word(address, low_word)?;
        self.write_word(address + 4, high_word)
    }
}

impl<D: Dtm> RiscvCommunicationInterface<D> {
    /// Reads the 64-bit words of `data`, each as two 32-bit words.
    #[verifier::loop_isolation(false)]
    fn read_words_64(&mut self, address: u32, data: &mut [u64]) -> (r: Result<(), Error>)
        requires
            address + 8 * old(data)@.len() <= 0x1_0000_0000,
        ensures
            final(self).went_neutral(
                old(self),
                old(self).run().read_words_64(final(self).log(), address, old(data)@, 0).run,
                r,
            ),
            final(data)@ == old(self).run().read_words_64(
                final(self).log(),
                address,
                old(data)@,
                0,
            ).value,
    {
        broadcast use group_memory;
        let n = data.len();
        let mut i: usize = 0;
        assert(crate::dtm::extends(self.log(), self.log()));
        while i < n
            invariant
                i <= n,
                n == data@.len(),
                data@.len() == old(data)@.len(),
                crate::dtm::extends(self.log(), old(self).log()),
                forall|new: Seq<Event>| #[trigger]
                    crate::dtm::extends(new, self.log()) ==> old(self).run().read_words_64(
                        new,
                        address,
                        old(data)@,
                        0,
                    ) == self.run().read_words_64(new, address, data@, i as int),
            decreases n - i,
        {
            broadcast use group_memory;
            let ghost before = self.run();
            let ghost log0 = self.log();
            assert(crate::dtm::extends(log0, log0));
            let place: u32 = address + 8 * (i as u32);
            let word = match self.read_two_words(place) {
                Ok(word) => word,
                Err(e) => {
                    assert(crate::dtm::extends(self.log(), log0));
                    return Err(e);
                },
            };
            let ghost log1 = self.log();
            data[i] = word;
            i = i + 1;
            proof {
                assert forall|new: Seq<Event>| #[trigger]
                    crate::dtm::extends(new, self.log()) implies old(self).run().read_words_64(
                    new,
                    address,
                    old(data)@,
                    0,
                ) == self.run().read_words_64(new, address, data@, i as int) by {
                    broadcast use group_memory;
                    assert(crate::dtm::extends(new, log0));
                    assert(before.read_word_64(new, place) == before.read_word_64(log1, place));
                }
            }
        }
        assert(crate::dtm::extends(self.log(), self.log()));
        Ok(())
    }

    /// Writes the 64-bit words of `data`, each as two 32-bit words.
    #[verifier::loop_isolation(false)]
    fn write_words_64(&mut self, address: u32, data: &[u64]) -> (r: Result<(), Error>)
        requires
            address + 8 * data@.len() <= 0x1_0000_0000,
        ensures
            final(self).went_neutral(
                old(self),
                old(self).run().write_words_64(final(self).log(), address, data@, 0),
                r,
            ),
    {
        broadcast use group_memory;
        let n = data.len();
        let mut i: usize = 0;
        assert(crate::dtm::extends(self.log(), self.log()));
        while i < n
            invariant
                i <= n,
                crate::dtm::extends(self.log(), old(self).log()),
                forall|new: Seq<Event>| #[trigger]
                    crate::dtm::extends(new, self.log()) ==> old(self).run().write_words_64(
                        new,
                        address,
                        data@,
                        0,
                    ) == self.run().write_words_64(new, address, data@, i as int),
            decreases n - i,
        {
            broadcast use group_memory;
            let ghost before = self.run();
            let ghost log0 = self.log();
            assert(crate::dtm::extends(log0, log0));
            let place: u32 = address + 8 * (i as u32);
            match self.write_two_words(place, data[i]) {
                Ok(_) => {},
                Err(e) => {
                    assert(crate::dtm::extends(self.log(), log0));
                    let ghost failed = before.write_word_64(self.log(), place, data@[i as int]);
                    assert(failed.write_words_64(self.log(), address, data@, i + 1) == failed);
                    return Err(e);
                },
            }
            let ghost log1 = self.log();
            i = i + 1;
            proof {
                assert forall|new: Seq<Event>| #[trigger]
                    crate::dtm::extends(new, self.log()) implies old(self).run().write_words_64(
                    new,
                    address,
                    data@,
                    0,
                ) == self.run().write_words_64(new, address, data@, i as int) by {
                    broadcast use group_memory;
                    assert(crate::dtm::extends(new, log0));
                    assert(before.write_word_64(new, place, data@[i - 1]) == before.write_word_64(
                        log1,
                        place,
                        data@[i - 1],
                    ));
                }
            }
        }
        assert(crate::dtm::extends(self.log(), self.log()));
        Ok(())
    }
}

impl<D: Dtm> MemoryInterface for RiscvCommunicationInterface<D> {
    /// 64-bit accesses are made of two 32-bit accesses.
    fn supports_native_64bit_access(&mut self) -> (r: bool)
        ensures
            !r,
            final(self).untouched(old(self)),
    {
        false
    }

    /// Reads a 64-bit word, as the low 32-bit word at the address and the
    /// high one four bytes on. Fails with `AddressOutOfRange` before any access
    /// where the eight bytes do not lie within the 32 bits of addresses.
    fn read_word_64(&mut self, address: u64) -> (r: Result<u64, Error>)
        ensures
            fits_32(address, 8) ==> final(self).did_neutral(
                old(self),
                old(self).run().read_word_64(final(self).log(), address as u32),
                r,
            ),
            !fits_32(address, 8) ==> final(self).untouched(old(self)) && r == Err::<u64, Error>(
                Error::AddressOutOfRange(address),
            ),
    {
        let address = valid_32_range(address, 2, 4)?;
        self.read_two_words(address)
    }

    /// Reads a 32-bit word. Fails with `AddressOutOfRange` before any access
    /// where the address has more than 32 bits.
    fn read_word_32(&mut self, address: u64) -> (r: Result<u32, Error>)
        ensures
            address <= 0xffff_ffff ==> final(self).did_neutral(
                old(self),
                old(self).run().read_word::<u32>(final(self).log(), address as u32),
                r,
            ),
            address > 0xffff_ffff ==> final(self).untouched(old(self)) && r == Err::<u32, Error>(
                Error::AddressOutOfRange(address),
            ),
    {
        let address = valid_32_address(address)?;
        self.read_word(address)
    }

    /// Reads a byte. Fails with `AddressOutOfRange` before any access where
    /// the address has more than 32 bits.
    fn read_word_8(&mut self, address: u64) -> (r: Result<u8, Error>)
        ensures
            address <= 0xffff_ffff ==> final(self).did_neutral(
                old(self),
                old(self).run().read_word::<u8>(final(self).log(), address as u32),
                r,
            ),
            address > 0xffff_ffff ==> final(self).untouched(old(self)) && r == Err::<u8, Error>(
                Error::AddressOutOfRange(address),
            ),
    {
        let address = valid_32_address(address)?;
        self.read_word(address)
    }

    /// Reads 64-bit words into all of `data`, each as two 32-bit words, from
    /// addresses eight bytes apart. Fails with `AddressOutOfRange` before any
    /// access where the words do not lie within the 32 bits of addresses.
    fn read_64(&mut self, address: u64, data: &mut [u64]) -> (r: Result<(), Error>)
        ensures
            fits_32(address, 8 * old(data)@.len() as int) ==> final(self).went_neutral(
                old(self),
                old(self).run().read_words_64(
                    final(self).log(),
                    address as u32,
                    old(data)@,
                    0,
                ).run,
                r,
            ) && final(data)@ == old(self).run().read_words_64(
                final(self).log(),
                address as u32,
                old(data)@,
                0,
            ).value,
            !fits_32(address, 8 * old(data)@.len() as int) ==> final(self).untouched(old(self))
                && final(data)@ == old(data)@ && r == Err::<(), Error>(Error::AddressOutOfRange(address)),
    {
        let address = valid_32_range(address, data.len(), 8)?;
        self.read_words_64(address, data)
    }

    /// Reads 32-bit words from consecutive addresses into all of `data`. Fails
    /// with `AddressOutOfRange` before any access where the address has more
    /// than 32 bits.
    fn read_32(&mut self, address: u64, data: &mut [u32]) -> (r: Result<(), Error>)
        ensures
            address <= 0xffff_ffff ==> final(self).went_neutral(
                old(self),
                old(self).run().read_multiple::<u32>(
                    final(self).log(),
                    address as u32,
                    old(data)@,
                ).run,
                r,
            ) && final(data)@ == old(self).run().read_multiple::<u32>(
                final(self).log(),
                address as u32,
                old(data)@,
            ).value,
            address > 0xffff_ffff ==> final(self).untouched(old(self))
                && final(data)@ == old(data)@ && r == Err::<(), Error>(Error::AddressOutOfRange(address)),
    {
        let address = valid_32_address(address)?;
        self.read_multiple(address, data)
    }

    /// Reads bytes from consecutive addresses into all of `data`. Fails with
    /// `AddressOutOfRange` before any access where the address has more than
    /// 32 bits.
    fn read_8(&mut self, address: u64, data: &mut [u8]) -> (r: Result<(), Error>)
        ensures
            address <= 0xffff_ffff ==> final(self).went_neutral(
                old(self),
                old(self).run().read_multiple::<u8>(
                    final(self).log(),
                    address as u32,
                    old(data)@,
                ).run,
                r,
            ) && final(data)@ == old(self).run().read_multiple::<u8>(
                final(self).log(),
                address as u32,
                old(data)@,
            ).value,
            address > 0xffff_ffff ==> final(self).untouched(old(self))
                && final(data)@ == old(data)@ && r == Err::<(), Error>(Error::AddressOutOfRange(address)),
    {
        let address = valid_32_address(address)?;
        self.read_multiple(address, data)
    }

    /// Writes a 64-bit word, as the low 32-bit word at the address and the
    /// high one four bytes on. Fails with `AddressOutOfRange` before any access
    /// where the eight bytes do not lie within the 32 bits of addresses.
    fn write_word_64(&mut self, address: u64, data: u64) -> (r: Result<(), Error>)
        ensures
            fits_32(address, 8) ==> final(self).went_neutral(
                old(self),
                old(self).run().write_word_64(final(self).log(), address as u32, data),
                r,
            ),
            !fits_32(address, 8) ==> final(self).untouched(old(self)) && r == Err::<(), Error>(
                Error::AddressOutOfRange(address),
            ),
    {
        let address = valid_32_range(address, 2, 4)?;
        self.write_two_words(address, data)
    }

    /// Writes a 32-bit word. Fails with `AddressOutOfRange` before any access
    /// where the address has more than 32 bits.
    fn write_word_32(&mut self, address: u64, data: u32) -> (r: Result<(), Error>)
        ensures
            address <= 0xffff_ffff ==> final(self).went_neutral(
                old(self),
                old(self).run().write_word(final(self).log(), address as u32, data),
                r,
            ),
            address > 0xffff_ffff ==> final(self).untouched(old(self)) && r == Err::<(), Error>(
                Error::AddressOutOfRange(address),
            ),
    {
        let address = valid_32_address(address)?;
        self.write_word(address, data)
    }

    /// Writes a byte. Fails with `AddressOutOfRange` before any access where
    /// the address has more than 32 bits.
    fn write_word_8(&mut self, address: u64, data: u8) -> (r: Result<(), Error>)
        ensures
            address <= 0xffff_ffff ==> final(self).went_neutral(
                old(self),
                old(self).run().write_word(final(self).log(), address as u32, data),
                r,
            ),
            address > 0xffff_ffff ==> final(self).untouched(old(self)) && r == Err::<(), Error>(
                Error::AddressOutOfRange(address),
            ),
    {
        let address = valid_32_address(address)?;
        self.write_word(address, data)
    }

    /// Writes 64-bit words, each as two 32-bit words, to addresses eight
    /// bytes apart. Fails with `AddressOutOfRange` before any access where the
    /// words do not lie within the 32 bits of addresses.
    fn write_64(&mut self, address: u64, data: &[u64]) -> (r: Result<(), Error>)
        ensures
            fits_32(address, 8 * data@.len() as int) ==> final(self).went_neutral(
                old(self),
                old(self).run().write_words_64(final(self).log(), address as u32, data@, 0),
                r,
            ),
            !fits_32(address, 8 * data@.len() as int) ==> final(self).untouched(old(self)) && r == Err::<
                (),
                Error,
            >(Error::AddressOutOfRange(address)),
    {
        let address = valid_32_range(address, data.len(), 8)?;
        self.write_words_64(address, data)
    }

    /// Writes 32-bit words to consecutive addresses. Fails with
    /// `AddressOutOfRange` before any access where the address has more than
    /// 32 bits.
    fn write_32(&mut self, address: u64, data: &[u32]) -> (r: Result<(), Error>)
        ensures
            address <= 0xffff_ffff ==> final(self).went_neutral(
                old(self),
                old(self).run().write_multiple(final(self).log(), address as u32, data@),
                r,
            ),
            address > 0xffff_ffff ==> final(self).untouched(old(self)) && r == Err::<(), Error>(
                Error::AddressOutOfRange(address),
            ),
    {
        let address = valid_32_address(address)?;
        self.write_multiple(address, data)
    }

    /// Writes bytes to consecutive addresses. Fails with `AddressOutOfRange`
    /// before any access where the address has more than 32 bits.
    fn write_8(&mut self, address: u64, data: &[u8]) -> (r: Result<(), Error>)
        ensures
            address <= 0xffff_ffff ==> final(self).went_neutral(
                old(self),
                old(self).run().write_multiple(final(self).log(), address as u32, data@),
                r,
            ),
            address > 0xffff_ffff ==> final(self).untouched(old(self)) && r == Err::<(), Error>(
                Error::AddressOutOfRange(address),
            ),
    {
        let address = valid_32_address(address)?;
        self.write_multiple(address, data)
    }

    /// Nothing is held back at this layer, so there is nothing to flush.
    fn flush(&mut self) -> (r: Result<(), Error>)
        ensures
            r is Ok,
            final(self).untouched(old(self)),
    {
        Ok(())
    }
}

} // verus!
