//! Reading records piece by piece.
//!
//! A reader may return fewer bytes than it was asked for, may be
//! interrupted, and may fail. `EntryReader` holds the bytes of the record
//! that is being put together and says, for each thing a reader returns,
//! what follows: read again, an item of the stream, or its end. It does
//! not read: whoever owns the reader asks it for `wanted()` bytes and
//! hands over what came back.

use core::marker::PhantomData;
use vstd::prelude::*;
use crate::parse::{
    after_first, decode, decode_record, first_item, item_view, stream_items, ItemView, ParseError,
    ParseErrorView,
};
use crate::entry::UtmpEntry;
use crate::raw::{utmp, RawRecord};

verus! {

/// What follows from one read.
#[derive(Debug)]
pub enum ReadStep {
    /// The record is not complete: read again.
    Again,
    /// The stream yields this item.
    Item(Result<UtmpEntry, ParseError>),
    /// The stream ended on a record boundary: it yields no more.
    End,
}

/// A `ReadStep` with its item as plain values.
pub enum StepView {
    Again,
    Item(ItemView),
    End,
}

impl View for ReadStep {
    type V = StepView;

    open spec fn view(&self) -> StepView {
        match *self {
            ReadStep::Again => StepView::Again,
            ReadStep::Item(item) => StepView::Item(item_view(item)),
            ReadStep::End => StepView::End,
        }
    }
}

/// The bytes held and the step taken after a read returned `read`, while
/// `held` was held: no byte is the end of the stream, clean only if none
/// is held; a record that becomes complete is decoded, and nothing is held
/// after it.
pub open spec fn after_read<T: RawRecord>(held: Seq<u8>, read: Seq<u8>) -> (Seq<u8>, StepView) {
    if read.len() == 0 {
        if held.len() == 0 {
            (held, StepView::End)
        } else {
            (Seq::empty(), StepView::Item(Err(ParseErrorView::Truncated)))
        }
    } else if held.len() + read.len() < T::record_size() {
        (held + read, StepView::Again)
    } else {
        (Seq::empty(), StepView::Item(decode_record::<T>(held + read)))
    }
}

/// The bytes held and the step taken after a read failed with `error`: an
/// interrupted read changes nothing and is tried again, any other failure
/// is yielded and what was held is dropped.
pub open spec fn after_failure(held: Seq<u8>, error: std::io::Error, interrupted: bool) -> (
    Seq<u8>,
    StepView,
) {
    if interrupted {
        (held, StepView::Again)
    } else {
        (Seq::empty(), StepView::Item(Err(ParseErrorView::Io(error))))
    }
}

/// Puts records together from the pieces that a reader returns.
pub struct EntryReader<T: RawRecord = utmp> {
    held: Vec<u8>,
    layout: PhantomData<T>,
}

impl<T: RawRecord> View for EntryReader<T> {
    type V = Seq<u8>;

    /// The bytes read so far of the record that is not yet complete.
    closed spec fn view(&self) -> Seq<u8> {
        self.held@
    }
}

/// Whether `std::io::Error::kind` calls `error` an interrupted read.
pub uninterp spec fn interrupted(error: std::io::Error) -> bool;

/// `std::io::Error::kind`, asked whether it is `ErrorKind::Interrupted`.
/// The kind is the error's own: the same error always gets the same
/// answer. Which errors are interrupted ones is not said here.
#[verifier::external_body]
fn is_interrupted(error: &std::io::Error) -> (r: bool)
    ensures
        r == interrupted(*error),
{
    error.kind() == std::io::ErrorKind::Interrupted
}

impl<T: RawRecord> EntryReader<T> {
    #[verifier::type_invariant]
    spec fn holds_less_than_a_record(self) -> bool {
        self.held@.len() < T::record_size()
    }

    /// A reader at the start of a record.
    pub fn new() -> (r: Self)
        ensures
            r@ == Seq::<u8>::empty(),
    {
        proof {
            T::lemma_record_size_positive();
        }
        EntryReader { held: Vec::new(), layout: PhantomData }
    }

    /// The number of bytes that the record still lacks: how many to ask
    /// the reader for. It is never zero.
    pub fn wanted(&self) -> (n: usize)
        ensures
            n == T::record_size() - self@.len(),
            n > 0,
    {
        proof {
            use_type_invariant(self);
        }
        T::size() - self.held.len()
    }

    /// Takes what a read returned: `read` holds the bytes, none at the
    /// end of the stream.
    pub fn read_entry(&mut self, read: &[u8]) -> (step: ReadStep)
        requires
            read@.len() <= T::record_size() - old(self)@.len(),
        ensures
            (final(self)@, step@) == after_read::<T>(old(self)@, read@),
    {
        proof {
            use_type_invariant(&*self);
        }
        let size: usize = T::size();
        let n: usize = read.len();
        let mut held: Vec<u8> = Vec::new();
        core::mem::swap(&mut self.held, &mut held);
        if n == 0 {
            if held.len() == 0 {
                ReadStep::End
            } else {
                ReadStep::Item(Err(ParseError::Truncated))
            }
        } else {
            let ghost before = held@;
            let mut i: usize = 0;
            while i < n
                invariant
                    i <= n,
                    n == read@.len(),
                    before.len() + n <= size,
                    held@ == before + read@.take(i as int),
                decreases n - i,
            {
                held.push(read[i]);
                i = i + 1;
                assert(held@ =~= before + read@.take(i as int));
            }
            assert(read@.take(n as int) =~= read@);
            if held.len() < size {
                core::mem::swap(&mut self.held, &mut held);
                ReadStep::Again
            } else {
                ReadStep::Item(decode::<T>(held.as_slice()))
            }
        }
    }

    /// Takes the failure of a read, told whether the read was interrupted.
    pub fn read_failed_as(&mut self, error: std::io::Error, interrupted: bool) -> (step: ReadStep)
        ensures
            (final(self)@, step@) == after_failure(old(self)@, error, interrupted),
    {
        if interrupted {
            ReadStep::Again
        } else {
            proof {
                T::lemma_record_size_positive();
            }
            let mut dropped: Vec<u8> = Vec::new();
            core::mem::swap(&mut self.held, &mut dropped);
            ReadStep::Item(Err(ParseError::Io(error)))
        }
    }

    /// Takes the failure of a read. An interrupted read is tried again
    /// with nothing changed; any other failure is yielded, and what was
    /// held of the record is dropped.
    pub fn read_failed(&mut self, error: std::io::Error) -> (step: ReadStep)
        ensures
            (final(self)@, step@) == after_failure(old(self)@, error, interrupted(error)),
    {
        let interrupted = is_interrupted(&error);
        self.read_failed_as(error, interrupted)
    }
}

/// The items that come out while the reads `reads` are handed over in
/// turn, starting with `held` held, up to the end of the stream.
pub open spec fn items_read<T: RawRecord>(held: Seq<u8>, reads: Seq<Seq<u8>>) -> Seq<ItemView>
    decreases reads.len(),
{
    if reads.len() == 0 {
        Seq::empty()
    } else {
        let (next, step) = after_read::<T>(held, reads[0]);
        match step {
            StepView::End => Seq::empty(),
            StepView::Again => items_read::<T>(next, reads.drop_first()),
            StepView::Item(item) => seq![item] + items_read::<T>(next, reads.drop_first()),
        }
    }
}

/// Each of `reads` returned at least one byte, and no more than the
/// record then lacked.
pub open spec fn reads_fit<T: RawRecord>(held: Seq<u8>, reads: Seq<Seq<u8>>) -> bool
    decreases reads.len(),
{
    reads.len() == 0 || {
        &&& 0 < reads[0].len() <= T::record_size() - held.len()
        &&& reads_fit::<T>(after_read::<T>(held, reads[0]).0, reads.drop_first())
    }
}

/// However a reader cuts a stream into reads, the items are those of the
/// stream: `reads` followed by the read of no byte that marks the end
/// yields what the bytes of `reads`, put end to end, yield.
pub proof fn lemma_read_size_independent<T: RawRecord>(held: Seq<u8>, reads: Seq<Seq<u8>>)
    requires
        held.len() < T::record_size(),
        reads_fit::<T>(held, reads),
    ensures
        items_read::<T>(held, reads.push(Seq::empty())) == stream_items::<T>(
            held + reads.flatten(),
        ),
    decreases reads.len(),
{
    let end = Seq::<u8>::empty();
    let all = reads.push(end);
    if reads.len() == 0 {
        assert(reads.flatten() =~= Seq::<u8>::empty());
        assert(held + reads.flatten() =~= held);
        assert(all[0] == end);
        assert(all.drop_first() =~= Seq::<Seq<u8>>::empty());
        assert(items_read::<T>(Seq::empty(), all.drop_first()) =~= Seq::<ItemView>::empty());
        assert(stream_items::<T>(Seq::<u8>::empty()) =~= Seq::<ItemView>::empty());
        if held.len() > 0 {
            assert(after_first::<T>(held) == Seq::<u8>::empty());
            assert(stream_items::<T>(held) =~= seq![
                Err::<crate::entry::EntryView, ParseErrorView>(ParseErrorView::Truncated),
            ]);
            assert(items_read::<T>(held, all) =~= seq![
                Err::<crate::entry::EntryView, ParseErrorView>(ParseErrorView::Truncated),
            ]);
        }
    } else {
        let read = reads[0];
        let rest = reads.drop_first();
        let (next, step) = after_read::<T>(held, read);
        assert(all[0] == read);
        assert(all.drop_first() =~= rest.push(end));
        assert(reads.flatten() == read + rest.flatten());
        assert(held + reads.flatten() =~= (held + read) + rest.flatten());
        lemma_read_size_independent::<T>(next, rest);
        if held.len() + read.len() < T::record_size() {
        } else {
            let n = T::record_size() as int;
            let stream = held + reads.flatten();
            assert(stream.take(n) =~= held + read);
            assert(stream.skip(n) =~= rest.flatten());
            assert(next + rest.flatten() =~= rest.flatten());
        }
    }
}

/// Two readers that cut the same stream differently, one byte at a time
/// or all at once, yield the same items.
pub proof fn lemma_reads_agree<T: RawRecord>(one: Seq<Seq<u8>>, other: Seq<Seq<u8>>)
    requires
        reads_fit::<T>(Seq::empty(), one),
        reads_fit::<T>(Seq::empty(), other),
        one.flatten() == other.flatten(),
    ensures
        items_read::<T>(Seq::empty(), one.push(Seq::empty())) == items_read::<T>(
            Seq::empty(),
            other.push(Seq::empty()),
        ),
{
    T::lemma_record_size_positive();
    lemma_read_size_independent::<T>(Seq::empty(), one);
    lemma_read_size_independent::<T>(Seq::empty(), other);
}

} // verus!
