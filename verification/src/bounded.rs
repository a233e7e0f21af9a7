//! A byte sink with a size limit.
use vstd::prelude::*;

use crate::text::{decimal, decimal_text, join};

verus! {

/// `std::io::Error`, which the `std::io::Write` impl hands out.
#[verifier::external_type_specification]
#[verifier::external_body]
pub struct ExIoError(std::io::Error);

/// Why a write was refused.
#[derive(Clone, Copy, Debug, PartialEq, Eq)]
pub enum WriteFault {
    /// The length would not fit a `usize`.
    Overflow,
    /// The length would be over this limit.
    Limit(usize),
}

/// The text of a refused write.
pub open spec fn write_fault_text(fault: WriteFault) -> Seq<char> {
    match fault {
        WriteFault::Overflow => "Arrow IPC payload length overflow"@,
        WriteFault::Limit(limit) => "Arrow IPC payload exceeds the "@ + decimal(limit as nat)
            + "-byte limit"@,
    }
}

impl WriteFault {
    /// The fault in words.
    pub fn message(self) -> (text: String)
        ensures
            text@ == write_fault_text(self),
    {
        match self {
            WriteFault::Overflow => "Arrow IPC payload length overflow".to_string(),
            WriteFault::Limit(limit) => join(
                "Arrow IPC payload exceeds the ",
                decimal_text(limit).as_str(),
                "-byte limit",
            ),
        }
    }
}

/// What writing `buf` makes of the bytes that a writer holds, or why it is refused.
pub open spec fn write_onto(held: Seq<u8>, limit: usize, buf: Seq<u8>) -> Result<
    Seq<u8>,
    WriteFault,
> {
    if held.len() + buf.len() > usize::MAX {
        Err(WriteFault::Overflow)
    } else if held.len() + buf.len() > limit {
        Err(WriteFault::Limit(limit))
    } else {
        Ok(held + buf)
    }
}

/// Collects bytes, up to a limit.
#[derive(Debug)]
pub struct BoundedWriter {
    bytes: Vec<u8>,
    limit: usize,
}

impl View for BoundedWriter {
    type V = Seq<u8>;

    closed spec fn view(&self) -> Seq<u8> {
        self.bytes@
    }
}

impl BoundedWriter {
    /// The largest number of bytes that the writer takes.
    pub closed spec fn limit(&self) -> usize {
        self.limit
    }

    /// The writer holds no more than its limit.
    pub open spec fn within_limit(&self) -> bool {
        self@.len() <= self.limit()
    }

    /// An empty writer with the given limit.
    pub fn new(limit: usize) -> (writer: Self)
        ensures
            writer@ == Seq::<u8>::empty(),
            writer.limit() == limit,
            writer.within_limit(),
    {
        BoundedWriter { bytes: Vec::with_capacity(1024), limit }
    }

    /// The bytes that were written.
    pub fn into_inner(self) -> (bytes: Vec<u8>)
        ensures
            bytes@ == self@,
    {
        self.bytes
    }

    /// Appends all of `buf`, or nothing where that would pass the limit.
    pub fn append(&mut self, buf: &[u8]) -> (written: Result<usize, WriteFault>)
        ensures
            final(self).limit() == old(self).limit(),
            old(self).within_limit() ==> final(self).within_limit(),
            match written {
                Ok(count) => {
                    &&& count == buf@.len()
                    &&& write_onto(old(self)@, old(self).limit(), buf@) == Ok::<
                        Seq<u8>,
                        WriteFault,
                    >(final(self)@)
                },
                Err(fault) => {
                    &&& write_onto(old(self)@, old(self).limit(), buf@) == Err::<
                        Seq<u8>,
                        WriteFault,
                    >(fault)
                    &&& final(self)@ == old(self)@
                },
            },
    {
        let total = match self.bytes.len().checked_add(buf.len()) {
            Some(total) => total,
            None => return Err(WriteFault::Overflow),
        };
        if total > self.limit {
            return Err(WriteFault::Limit(self.limit));
        }
        self.bytes.extend_from_slice(buf);
        proof {
            assert(self.bytes@ =~= old(self)@ + buf@);
        }
        Ok(buf.len())
    }
}

/// The text that a `std::io::Error` is displayed as.
pub uninterp spec fn io_error_text(error: std::io::Error) -> Seq<char>;

/// `std::io::Error::other`, applied to the given text: an error of kind `Other` that is
/// displayed as that text.
#[verifier::external_body]
fn other_error(text: String) -> (error: std::io::Error)
    ensures
        io_error_text(error) == text@,
{
    std::io::Error::other(text)
}

impl std::io::Write for BoundedWriter {
    fn write(&mut self, buf: &[u8]) -> (written: Result<usize, std::io::Error>)
        ensures
            final(self).limit() == old(self).limit(),
            old(self).within_limit() ==> final(self).within_limit(),
            written is Ok <==> old(self)@.len() + buf@.len() <= old(self).limit(),
            written is Ok ==> final(self)@ == old(self)@ + buf@,
            match write_onto(old(self)@, old(self).limit(), buf@) {
                Ok(held) => {
                    &&& written matches Ok(count)
                    &&& count == buf@.len()
                    &&& final(self)@ == held
                },
                Err(fault) => {
                    &&& written matches Err(error)
                    &&& io_error_text(error) == write_fault_text(fault)
                    &&& final(self)@ == old(self)@
                },
            },
    {
        match self.append(buf) {
            Ok(count) => Ok(count),
            Err(fault) => Err(other_error(fault.message())),
        }
    }

    fn flush(&mut self) -> (flushed: Result<(), std::io::Error>)
        ensures
            flushed is Ok,
            *final(self) == *old(self),
    {
        Ok(())
    }
}

/// A call on a writer.
pub ghost enum WriterCall {
    /// A write of the given buffer.
    Write(Seq<u8>),
    /// A flush.
    Flush,
}

/// What a writer that started empty holds after the given calls.
pub open spec fn held_after(limit: usize, calls: Seq<WriterCall>) -> Seq<u8>
    decreases calls.len(),
{
    if calls.len() == 0 {
        Seq::empty()
    } else {
        let held = held_after(limit, calls.drop_last());
        match calls.last() {
            WriterCall::Write(buf) => match write_onto(held, limit, buf) {
                Ok(more) => more,
                Err(_) => held,
            },
            WriterCall::Flush => held,
        }
    }
}

/// The buffers among the given calls whose write succeeds, in the order of the calls.
pub open spec fn accepted_buffers(limit: usize, calls: Seq<WriterCall>) -> Seq<Seq<u8>>
    decreases calls.len(),
{
    if calls.len() == 0 {
        Seq::empty()
    } else {
        let before = calls.drop_last();
        match calls.last() {
            WriterCall::Write(buf) => if write_onto(held_after(limit, before), limit, buf) is Ok {
                accepted_buffers(limit, before).push(buf)
            } else {
                accepted_buffers(limit, before)
            },
            WriterCall::Flush => accepted_buffers(limit, before),
        }
    }
}

/// After any writes and flushes, a writer holds exactly the buffers whose write succeeded, one
/// after the other, and no more than its limit.
pub proof fn law_accepted_buffers(limit: usize, calls: Seq<WriterCall>)
    ensures
        held_after(limit, calls) == accepted_buffers(limit, calls).flatten(),
        held_after(limit, calls).len() <= limit,
    decreases calls.len(),
{
    if calls.len() > 0 {
        let before = calls.drop_last();
        law_accepted_buffers(limit, before);
        if let WriterCall::Write(buf) = calls.last() {
            accepted_buffers(limit, before).lemma_flatten_push(buf);
        }
    }
}

/// A new writer is empty and has the given limit, and what is taken out of a writer is what it
/// holds.
pub proof fn law_new_writer(limit: usize, writer: BoundedWriter, bytes: Vec<u8>)
    ensures
        call_ensures(BoundedWriter::new, (limit,), writer) ==> writer@.len() == 0 && writer.limit()
            == limit,
        call_ensures(BoundedWriter::into_inner, (writer,), bytes) ==> bytes@ == writer@,
{
}

/// A buffer is appended exactly if what is held then keeps the limit. It comes behind what was
/// held, all of it. Otherwise what was held stays as it was.
pub proof fn law_append()
    ensures
        forall|writer: &mut BoundedWriter, buf: &[u8], written: Result<usize, WriteFault>|
            #[trigger] call_ensures(BoundedWriter::append, (writer, buf), written) ==> {
                let total = writer@.len() + buf@.len();
                &&& final(writer).limit() == writer.limit()
                &&& written is Ok <==> total <= writer.limit()
                &&& match written {
                    Ok(count) => {
                        &&& count == buf@.len()
                        &&& final(writer)@.len() == total
                        &&& final(writer)@.take(writer@.len() as int) == writer@
                        &&& final(writer)@.skip(writer@.len() as int) == buf@
                    },
                    Err(fault) => {
                        &&& final(writer)@ == writer@
                        &&& fault == if total > usize::MAX {
                            WriteFault::Overflow
                        } else {
                            WriteFault::Limit(writer.limit())
                        }
                    },
                }
            },
{
    assert forall|writer: &mut BoundedWriter, buf: &[u8], written: Result<usize, WriteFault>|
        #[trigger] call_ensures(BoundedWriter::append, (writer, buf), written) implies {
        let total = writer@.len() + buf@.len();
        &&& final(writer).limit() == writer.limit()
        &&& written is Ok <==> total <= writer.limit()
        &&& match written {
            Ok(count) => {
                &&& count == buf@.len()
                &&& final(writer)@.len() == total
                &&& final(writer)@.take(writer@.len() as int) == writer@
                &&& final(writer)@.skip(writer@.len() as int) == buf@
            },
            Err(fault) => {
                &&& final(writer)@ == writer@
                &&& fault == if total > usize::MAX {
                    WriteFault::Overflow
                } else {
                    WriteFault::Limit(writer.limit())
                }
            },
        }
    } by {
        law_write(writer@, writer.limit(), buf@);
    }
}

/// A write is accepted exactly if what is held and what is written keep the limit together, and
/// then all of it comes behind what was held.
pub proof fn law_write(held: Seq<u8>, limit: usize, buf: Seq<u8>)
    ensures
        match write_onto(held, limit, buf) {
            Ok(more) => {
                &&& more.len() == held.len() + buf.len()
                &&& more.len() <= limit
                &&& more.take(held.len() as int) == held
                &&& more.skip(held.len() as int) == buf
            },
            Err(fault) => {
                &&& held.len() + buf.len() > limit
                &&& fault == if held.len() + buf.len() > usize::MAX {
                    WriteFault::Overflow
                } else {
                    WriteFault::Limit(limit)
                }
            },
        },
{
    if let Ok(more) = write_onto(held, limit, buf) {
        assert(more.take(held.len() as int) =~= held);
        assert(more.skip(held.len() as int) =~= buf);
    }
}

/// Two writes that succeed come to the same as one write of both buffers in a row, and one write of
/// both succeeds exactly if they do.
pub proof fn law_split_write(held: Seq<u8>, limit: usize, one: Seq<u8>, other: Seq<u8>)
    ensures
        match write_onto(held, limit, one + other) {
            Ok(all) => write_onto(held, limit, one) matches Ok(more) && write_onto(
                more,
                limit,
                other,
            ) == Ok::<Seq<u8>, WriteFault>(all),
            Err(_) => write_onto(held, limit, one) matches Ok(more) ==> write_onto(
                more,
                limit,
                other,
            ) is Err,
        },
{
    assert(held + (one + other) =~= held + one + other);
}

} // verus!
