//! Streams of records: a file is a run of records with nothing between
//! them, and ends either on a record boundary or in the middle of one.

use core::marker::PhantomData;
use vstd::prelude::*;
use vstd::slice::slice_subrange;
use vstd::std_specs::convert::FromSpecImpl;
use crate::entry::{classify, outcome, EntryView, ErrorView, UtmpEntry, UtmpError};
use crate::raw::x64::utmp as utmp64;
use crate::raw::utmp as utmp32;
use crate::raw::{utmp, RawRecord};

verus! {

/// `std::io::Error`: held and handed on as it is, never looked into.
#[verifier::external_type_specification]
#[verifier::external_body]
pub struct ExIoError(std::io::Error);

/// Why a stream gave no entry where one was due.
#[derive(Debug)]
#[non_exhaustive]
pub enum ParseError {
    /// A whole record was read, and it has no entry.
    Utmp(UtmpError),
    /// The stream ended in the middle of a record.
    Truncated,
    /// The reader failed.
    Io(std::io::Error),
}

/// A `ParseError` with the record's error as plain values.
pub enum ParseErrorView {
    Utmp(ErrorView),
    Truncated,
    Io(std::io::Error),
}

impl View for ParseError {
    type V = ParseErrorView;

    open spec fn view(&self) -> ParseErrorView {
        match *self {
            ParseError::Utmp(e) => ParseErrorView::Utmp(e@),
            ParseError::Truncated => ParseErrorView::Truncated,
            ParseError::Io(e) => ParseErrorView::Io(e),
        }
    }
}

impl From<UtmpError> for ParseError {
    fn from(e: UtmpError) -> (r: ParseError) {
        ParseError::Utmp(e)
    }
}

impl FromSpecImpl<UtmpError> for ParseError {
    open spec fn obeys_from_spec() -> bool {
        true
    }

    open spec fn from_spec(e: UtmpError) -> ParseError {
        ParseError::Utmp(e)
    }
}

impl From<std::io::Error> for ParseError {
    fn from(e: std::io::Error) -> (r: ParseError) {
        ParseError::Io(e)
    }
}

impl FromSpecImpl<std::io::Error> for ParseError {
    open spec fn obeys_from_spec() -> bool {
        true
    }

    open spec fn from_spec(e: std::io::Error) -> ParseError {
        ParseError::Io(e)
    }
}

/// What a stream yields in one step: an entry, or the reason there is none.
pub type ItemView = Result<EntryView, ParseErrorView>;

/// The view of one yielded item.
pub open spec fn item_view(r: Result<UtmpEntry, ParseError>) -> ItemView {
    match r {
        Ok(entry) => Ok(entry@),
        Err(error) => Err(error@),
    }
}

/// The item that one whole record's bytes give, in layout `T`.
pub open spec fn decode_record<T: RawRecord>(bytes: Seq<u8>) -> ItemView {
    match classify(T::layout(bytes)) {
        Ok(entry) => Ok(entry),
        Err(error) => Err(ParseErrorView::Utmp(error)),
    }
}

/// The first item of a stream: none where the stream is empty, the
/// truncation error where it is shorter than a record, else what its first
/// record gives.
pub open spec fn first_item<T: RawRecord>(bytes: Seq<u8>) -> Option<ItemView> {
    if bytes.len() == 0 {
        None
    } else if bytes.len() < T::record_size() {
        Some(Err(ParseErrorView::Truncated))
    } else {
        Some(decode_record::<T>(bytes.take(T::record_size() as int)))
    }
}

/// What is left of a stream once its first item has been taken.
pub open spec fn after_first<T: RawRecord>(bytes: Seq<u8>) -> Seq<u8> {
    if bytes.len() < T::record_size() {
        Seq::empty()
    } else {
        bytes.skip(T::record_size() as int)
    }
}

/// Every item of a stream, in order: one for each whole record, and the
/// truncation error last where bytes are left over.
pub open spec fn stream_items<T: RawRecord>(bytes: Seq<u8>) -> Seq<ItemView>
    decreases bytes.len(),
    via stream_items_decreases::<T>
{
    match first_item::<T>(bytes) {
        None => Seq::empty(),
        Some(item) => seq![item] + stream_items::<T>(after_first::<T>(bytes)),
    }
}

#[via_fn]
proof fn stream_items_decreases<T: RawRecord>(bytes: Seq<u8>) {
    T::lemma_record_size_positive();
}

/// The entries before the first error of a run of items, or that error.
pub open spec fn collected(items: Seq<ItemView>) -> Result<Seq<EntryView>, ParseErrorView>
    decreases items.len(),
{
    if items.len() == 0 {
        Ok(Seq::empty())
    } else {
        match items[0] {
            Err(error) => Err(error),
            Ok(entry) => match collected(items.drop_first()) {
                Ok(rest) => Ok(seq![entry] + rest),
                Err(error) => Err(error),
            },
        }
    }
}

/// What decoding a whole stream at once gives: every entry in file order,
/// or the first error and nothing else.
pub open spec fn decode_all<T: RawRecord>(bytes: Seq<u8>) -> Result<Seq<EntryView>, ParseErrorView>
    decreases bytes.len(),
    via decode_all_decreases::<T>
{
    if bytes.len() == 0 {
        Ok(Seq::empty())
    } else if bytes.len() < T::record_size() {
        Err(ParseErrorView::Truncated)
    } else {
        match classify(T::layout(bytes.take(T::record_size() as int))) {
            Err(error) => Err(ParseErrorView::Utmp(error)),
            Ok(entry) => match decode_all::<T>(bytes.skip(T::record_size() as int)) {
                Ok(rest) => Ok(seq![entry] + rest),
                Err(error) => Err(error),
            },
        }
    }
}

#[via_fn]
proof fn decode_all_decreases<T: RawRecord>(bytes: Seq<u8>) {
    T::lemma_record_size_positive();
}

/// The views of a vector of entries.
pub open spec fn entries_view(entries: Seq<UtmpEntry>) -> Seq<EntryView> {
    entries.map_values(|e: UtmpEntry| e@)
}

/// The view of what decoding a whole stream returned.
pub open spec fn all_view(r: Result<Vec<UtmpEntry>, ParseError>) -> Result<
    Seq<EntryView>,
    ParseErrorView,
> {
    match r {
        Ok(entries) => Ok(entries_view(entries@)),
        Err(error) => Err(error@),
    }
}

/// Parser to parse a utmp file held in memory. It yields one item per call
/// of `next`, from the front of the bytes it was given.
pub struct UtmpParser<'a, T = utmp> {
    reader: &'a [u8],
    layout: PhantomData<T>,
}

/// Parser of the narrow layout.
pub type Utmp32Parser<'a> = UtmpParser<'a, utmp32>;

/// Parser of the wide layout.
pub type Utmp64Parser<'a> = UtmpParser<'a, utmp64>;

impl<'a, T: RawRecord> View for UtmpParser<'a, T> {
    type V = Seq<u8>;

    /// The bytes not yet read.
    closed spec fn view(&self) -> Seq<u8> {
        self.reader@
    }
}

/// Decodes one whole record.
pub fn decode<T: RawRecord>(record: &[u8]) -> (r: Result<UtmpEntry, ParseError>)
    requires
        record@.len() == T::record_size(),
    ensures
        item_view(r) == decode_record::<T>(record@),
{
    let raw = T::from_bytes(record);
    let wide = raw.widen();
    match UtmpEntry::try_from(&wide) {
        Ok(entry) => Ok(entry),
        Err(error) => Err(ParseError::Utmp(error)),
    }
}

impl<'a, T: RawRecord> UtmpParser<'a, T> {
    /// A parser that reads the records of `reader`, from its first byte.
    pub fn from_reader(reader: &'a [u8]) -> (parser: Self)
        ensures
            parser@ == reader@,
    {
        UtmpParser { reader, layout: PhantomData }
    }

    /// Gives back the reader: the bytes that were not read.
    pub fn into_inner(self) -> (reader: &'a [u8])
        ensures
            reader@ == self@,
    {
        self.reader
    }

    /// Reads the next item. At the end of the bytes there is none; bytes
    /// that do not fill a record are consumed and give the truncation error.
    pub fn next(&mut self) -> (r: Option<Result<UtmpEntry, ParseError>>)
        ensures
            match r {
                Some(item) => first_item::<T>(old(self)@) == Some(item_view(item)),
                None => first_item::<T>(old(self)@).is_none(),
            },
            final(self)@ == after_first::<T>(old(self)@),
    {
        let size: usize = T::size();
        let len: usize = self.reader.len();
        if len == 0 {
            assert(self.reader@ =~= Seq::empty());
            None
        } else if len < size {
            self.reader = slice_subrange(self.reader, len, len);
            assert(self.reader@ =~= Seq::empty());
            Some(Err(ParseError::Truncated))
        } else {
            let record = slice_subrange(self.reader, 0, size);
            self.reader = slice_subrange(self.reader, size, len);
            Some(decode::<T>(record))
        }
    }

    /// Reads every item that is left, up to the first error.
    pub fn collect(self) -> (r: Result<Vec<UtmpEntry>, ParseError>)
        ensures
            all_view(r) == decode_all::<T>(self@),
            r matches Ok(entries) ==> entries@.len() == decode_all::<T>(self@)->Ok_0.len(),
    {
        let mut parser = self;
        let mut entries: Vec<UtmpEntry> = Vec::new();
        proof {
            T::lemma_record_size_positive();
            assert(entries_view(entries@) =~= Seq::empty());
            lemma_decode_all_after::<T>(Seq::empty(), self@);
        }
        loop
            invariant
                T::record_size() > 0,
                decode_all::<T>(self@) == decode_all_after::<T>(entries_view(entries@), parser@),
            decreases parser@.len(),
        {
            let ghost before = parser@;
            let ghost done = entries_view(entries@);
            match parser.next() {
                None => {
                    return Ok(entries);
                },
                Some(Err(error)) => {
                    return Err(error);
                },
                Some(Ok(entry)) => {
                    entries.push(entry);
                    proof {
                        assert(entries_view(entries@) =~= done.push(entry@));
                        lemma_decode_all_step::<T>(done, before, entry@);
                    }
                },
            }
        }
    }
}

/// What decoding ends with when the entries `done` have been read and
/// `rest` is still to be read.
pub open spec fn decode_all_after<T: RawRecord>(done: Seq<EntryView>, rest: Seq<u8>) -> Result<
    Seq<EntryView>,
    ParseErrorView,
> {
    match decode_all::<T>(rest) {
        Ok(more) => Ok(done + more),
        Err(error) => Err(error),
    }
}

proof fn lemma_decode_all_after<T: RawRecord>(done: Seq<EntryView>, rest: Seq<u8>)
    requires
        done.len() == 0,
    ensures
        decode_all_after::<T>(done, rest) == decode_all::<T>(rest),
{
    match decode_all::<T>(rest) {
        Ok(more) => {
            assert(done + more =~= more);
        },
        Err(_) => {},
    }
}

proof fn lemma_decode_all_step<T: RawRecord>(done: Seq<EntryView>, rest: Seq<u8>, entry: EntryView)
    requires
        first_item::<T>(rest) == Some::<ItemView>(Ok(entry)),
    ensures
        decode_all_after::<T>(done, rest) == decode_all_after::<T>(
            done.push(entry),
            after_first::<T>(rest),
        ),
{
    T::lemma_record_size_positive();
    match decode_all::<T>(after_first::<T>(rest)) {
        Ok(more) => {
            assert(done + (seq![entry] + more) =~= done.push(entry) + more);
        },
        Err(_) => {},
    }
}

/// Parse utmp entries from the given bytes.
///
/// It parses them in the narrow layout, the one that `utmp` names.
pub fn parse_from_reader(reader: &[u8]) -> (r: Result<Vec<UtmpEntry>, ParseError>)
    ensures
        all_view(r) == decode_all::<utmp>(reader@),
        r matches Ok(entries) ==> entries@.len() == decode_all::<utmp>(reader@)->Ok_0.len(),
{
    UtmpParser::<utmp>::from_reader(reader).collect()
}

/// Decoding a stream at once gives what collecting its lazy sequence
/// gives: the entries before the first error, or that error.
pub proof fn lemma_decode_all_is_collected_stream<T: RawRecord>(bytes: Seq<u8>)
    ensures
        decode_all::<T>(bytes) == collected(stream_items::<T>(bytes)),
    decreases bytes.len(),
{
    T::lemma_record_size_positive();
    let items = stream_items::<T>(bytes);
    if bytes.len() == 0 {
    } else if bytes.len() < T::record_size() {
        assert(items[0] == Err::<EntryView, ParseErrorView>(ParseErrorView::Truncated));
    } else {
        let rest = bytes.skip(T::record_size() as int);
        lemma_decode_all_is_collected_stream::<T>(rest);
        assert(items.drop_first() =~= stream_items::<T>(rest));
        assert(items[0] == decode_record::<T>(bytes.take(T::record_size() as int)));
    }
}

/// An empty stream yields no item, and decoding it gives no entry and no
/// error.
pub proof fn lemma_empty_stream<T: RawRecord>()
    ensures
        stream_items::<T>(Seq::empty()) == Seq::<ItemView>::empty(),
        decode_all::<T>(Seq::empty()) == Ok::<Seq<EntryView>, ParseErrorView>(Seq::empty()),
{
}

/// The `i`-th item of a stream that holds at least `i + 1` whole records
/// is what its `i`-th record gives.
pub proof fn lemma_stream_item<T: RawRecord>(bytes: Seq<u8>, i: int)
    requires
        0 <= i,
        (i + 1) * T::record_size() <= bytes.len(),
    ensures
        i < stream_items::<T>(bytes).len(),
        stream_items::<T>(bytes)[i] == decode_record::<T>(
            bytes.subrange(i * T::record_size(), (i + 1) * T::record_size()),
        ),
    decreases i,
{
    T::lemma_record_size_positive();
    let n = T::record_size() as int;
    let rest = bytes.skip(n);
    assert((i + 1) * n == i * n + n) by (nonlinear_arith);
    assert(0 <= i * n) by (nonlinear_arith)
        requires
            0 <= i,
            0 < n,
    ;
    assert(stream_items::<T>(bytes) == seq![first_item::<T>(bytes).unwrap()] + stream_items::<T>(
        rest,
    ));
    if i == 0 {
        assert(bytes.take(n) =~= bytes.subrange(i * n, (i + 1) * n));
    } else {
        assert((i - 1 + 1) * n == i * n);
        assert((i - 1) * n == i * n - n) by (nonlinear_arith);
        lemma_stream_item::<T>(rest, i - 1);
        assert(rest.subrange((i - 1) * n, i * n) =~= bytes.subrange(i * n, (i + 1) * n));
    }
}

/// A stream of exactly `k` whole records yields `k` items, and none of
/// them is the truncation error.
pub proof fn lemma_whole_stream<T: RawRecord>(bytes: Seq<u8>, k: int)
    requires
        0 <= k,
        bytes.len() == k * T::record_size(),
    ensures
        stream_items::<T>(bytes).len() == k,
        forall|i: int|
            0 <= i < k ==> #[trigger] stream_items::<T>(bytes)[i] == decode_record::<T>(
                bytes.subrange(i * T::record_size(), (i + 1) * T::record_size()),
            ),
    decreases k,
{
    T::lemma_record_size_positive();
    let n = T::record_size() as int;
    if k == 0 {
        assert(k * n == 0) by (nonlinear_arith)
            requires
                k == 0,
        ;
    } else {
        assert((k - 1) * n == k * n - n) by (nonlinear_arith);
        assert(0 <= (k - 1) * n) by (nonlinear_arith)
            requires
                1 <= k,
                0 < n,
        ;
        let rest = bytes.skip(n);
        lemma_whole_stream::<T>(rest, k - 1);
        assert forall|i: int| 0 <= i < k implies #[trigger] stream_items::<T>(bytes)[i]
            == decode_record::<T>(
            bytes.subrange(i * T::record_size(), (i + 1) * T::record_size()),
        ) by {
            assert((i + 1) * n <= k * n) by (nonlinear_arith)
                requires
                    i + 1 <= k,
                    0 < n,
            ;
            lemma_stream_item::<T>(bytes, i);
        }
    }
}

/// A stream that ends in the middle of a record, after `k` whole ones,
/// yields what its whole records yield and then the truncation error,
/// which is its last item.
pub proof fn lemma_truncated_stream<T: RawRecord>(bytes: Seq<u8>, k: int)
    requires
        0 <= k,
        k * T::record_size() < bytes.len() < (k + 1) * T::record_size(),
    ensures
        stream_items::<T>(bytes) == stream_items::<T>(bytes.take(k * T::record_size())).push(
            Err(ParseErrorView::Truncated),
        ),
        stream_items::<T>(bytes).len() == k + 1,
        forall|i: int|
            0 <= i < k ==> #[trigger] stream_items::<T>(bytes)[i] == decode_record::<T>(
                bytes.subrange(i * T::record_size(), (i + 1) * T::record_size()),
            ),
    decreases k,
{
    T::lemma_record_size_positive();
    let n = T::record_size() as int;
    assert((k + 1) * n == k * n + n) by (nonlinear_arith);
    let whole = bytes.take(k * n);
    if k == 0 {
        assert(k * n == 0) by (nonlinear_arith)
            requires
                k == 0,
        ;
        assert(whole =~= Seq::empty());
        assert(after_first::<T>(bytes) == Seq::<u8>::empty());
        assert(stream_items::<T>(Seq::<u8>::empty()) =~= Seq::<ItemView>::empty());
        assert(stream_items::<T>(whole) =~= Seq::<ItemView>::empty());
        assert(stream_items::<T>(bytes) =~= Seq::<ItemView>::empty().push(
            Err(ParseErrorView::Truncated),
        ));
    } else {
        assert((k - 1) * n == k * n - n) by (nonlinear_arith);
        assert(0 <= (k - 1) * n) by (nonlinear_arith)
            requires
                1 <= k,
                0 < n,
        ;
        let rest = bytes.skip(n);
        lemma_truncated_stream::<T>(rest, k - 1);
        assert(rest.take((k - 1) * n) =~= whole.skip(n));
        assert(whole.take(n) =~= bytes.take(n));
        assert(stream_items::<T>(whole) == seq![decode_record::<T>(bytes.take(n))]
            + stream_items::<T>(whole.skip(n)));
        assert(stream_items::<T>(bytes) =~= stream_items::<T>(whole).push(
            Err(ParseErrorView::Truncated),
        ));
        lemma_whole_stream::<T>(whole, k);
        assert forall|i: int| 0 <= i < k implies #[trigger] stream_items::<T>(bytes)[i]
            == decode_record::<T>(
            bytes.subrange(i * T::record_size(), (i + 1) * T::record_size()),
        ) by {
            assert((i + 1) * n <= k * n) by (nonlinear_arith)
                requires
                    i + 1 <= k,
                    0 < n,
            ;
            lemma_stream_item::<T>(bytes, i);
        }
    }
}

} // verus!
