use vstd::prelude::*;

use crate::date::Date;
use crate::instrument::InstrumentSource;
use crate::record::{record_prices_valid, BhavRawRecord, BhavRecord};
use crate::record_set::{accepted_records, collect_bhav_records, collect_records, record_set, sorted_strictly};

verus! {

/// The bhavcopy of one day: where it is stored, and its set of records. The records are in
/// strictly increasing order, so no two are equal: that is the type's invariant, `bhav_wf`.
#[derive(Debug)]
pub struct Bhav {
    pub(crate) key: String,
    pub(crate) date: Date,
    pub(crate) source: InstrumentSource,
    pub(crate) prices: Vec<BhavRecord>,
}

/// What a bhavcopy holds, as values.
pub struct BhavView {
    pub key: Seq<char>,
    pub date: Date,
    pub source: InstrumentSource,
    pub prices: Seq<BhavRecord>,
}

impl View for Bhav {
    type V = BhavView;

    closed spec fn view(&self) -> BhavView {
        BhavView { key: self.key@, date: self.date, source: self.source, prices: self.prices@ }
    }
}

/// The records of a bhavcopy are sorted strictly, and none holds a NaN price.
#[verifier::type_invariant]
pub open spec fn bhav_wf(b: Bhav) -> bool {
    &&& sorted_strictly(b@.prices)
    &&& forall|i: int| 0 <= i < b@.prices.len() ==> record_prices_valid(#[trigger] b@.prices[i])
}

/// The view of a bhavcopy holds its fields.
pub(crate) proof fn lemma_bhav_view(b: Bhav)
    ensures
        b@ == (BhavView { key: b.key@, date: b.date, source: b.source, prices: b.prices@ }),
{
}

impl Bhav {
    /// The bhavcopy stored under `key` for `date` and `source`, whose rows are `rows`. Its
    /// records are those of the National Stock Exchange, whatever `source` is.
    pub fn from_rows(key: String, date: Date, source: InstrumentSource, rows: Vec<Option<BhavRawRecord>>) -> (bhav: Bhav)
        ensures
            bhav@.key == key@,
            bhav@.date == date,
            bhav@.source == source,
            bhav@.prices == record_set(accepted_records(rows@, InstrumentSource::NSE)),
    {
        let prices = collect_bhav_records(rows, InstrumentSource::NSE);
        Bhav { key, date, source, prices }
    }

    /// The bhavcopy stored under `key` for `date` and `source` that holds the set of `records`:
    /// of equal records the last stays.
    pub fn from_records(key: String, date: Date, source: InstrumentSource, records: Vec<BhavRecord>) -> (bhav: Bhav)
        ensures
            bhav@.key == key@,
            bhav@.date == date,
            bhav@.source == source,
            bhav@.prices == record_set(records@),
    {
        let prices = collect_records(records);
        Bhav { key, date, source, prices }
    }

    /// Where the bhavcopy is stored.
    pub fn key(&self) -> (k: &String)
        ensures
            k@ == self@.key,
    {
        &self.key
    }

    /// The day of the bhavcopy.
    pub fn date(&self) -> (d: Date)
        ensures
            d == self@.date,
    {
        self.date
    }

    /// The exchange of the bhavcopy.
    pub fn source(&self) -> (s: InstrumentSource)
        ensures
            s == self@.source,
    {
        self.source
    }

    /// The records of the bhavcopy: sorted strictly, and none with a NaN price.
    pub fn prices(&self) -> (p: &Vec<BhavRecord>)
        ensures
            p@ == self@.prices,
            sorted_strictly(p@),
            forall|i: int| 0 <= i < p@.len() ==> record_prices_valid(#[trigger] p@[i]),
    {
        proof {
            use_type_invariant(self);
        }
        &self.prices
    }
}

/// What the service has just learnt while it looks for the bhavcopy of a day.
#[derive(Clone, Copy, Debug, PartialEq, Eq, Structural)]
pub enum BhavEvent {
    /// The request has come in.
    Requested,
    /// The store has been asked for the file; `found` tells whether it had it.
    StoredFileRead { found: bool },
    /// The exchange has been asked for the file; `found` tells whether it had one.
    DownloadFinished { found: bool },
    /// The downloaded file has been stored.
    DownloadSaved,
}

/// What the service does next.
#[derive(Clone, Copy, Debug, PartialEq, Eq, Structural)]
pub enum BhavAction {
    /// Read the file of the day from the store.
    ReadStoredFile,
    /// Answer with the records of the stored file.
    AnswerFromStoredFile,
    /// Download the file of the day from the exchange.
    DownloadFile,
    /// Store the downloaded file.
    SaveDownload,
    /// Record the records of the downloaded file in the database, and answer with them.
    PersistAndAnswer,
    /// Answer that there is no bhavcopy for the day.
    AnswerNothing,
}

/// The next step of looking for a bhavcopy: the store first, then the exchange; a download is
/// stored, and recorded in the database, before it is answered.
pub open spec fn bhav_step(event: BhavEvent) -> BhavAction {
    match event {
        BhavEvent::Requested => BhavAction::ReadStoredFile,
        BhavEvent::StoredFileRead { found } => if found {
            BhavAction::AnswerFromStoredFile
        } else {
            BhavAction::DownloadFile
        },
        BhavEvent::DownloadFinished { found } => if found {
            BhavAction::SaveDownload
        } else {
            BhavAction::AnswerNothing
        },
        BhavEvent::DownloadSaved => BhavAction::PersistAndAnswer,
    }
}

/// The next step of looking for a bhavcopy, given what has just been learnt.
pub fn next_bhav_action(event: BhavEvent) -> (action: BhavAction)
    ensures
        action == bhav_step(event),
{
    match event {
        BhavEvent::Requested => BhavAction::ReadStoredFile,
        BhavEvent::StoredFileRead { found } => if found {
            BhavAction::AnswerFromStoredFile
        } else {
            BhavAction::DownloadFile
        },
        BhavEvent::DownloadFinished { found } => if found {
            BhavAction::SaveDownload
        } else {
            BhavAction::AnswerNothing
        },
        BhavEvent::DownloadSaved => BhavAction::PersistAndAnswer,
    }
}

/// The events of one request, given whether the store has the file of the day and, where it
/// has not, whether the exchange has one.
pub open spec fn bhav_events(stored: bool, published: bool) -> Seq<BhavEvent> {
    if stored {
        seq![BhavEvent::Requested, BhavEvent::StoredFileRead { found: true }]
    } else if published {
        seq![
            BhavEvent::Requested,
            BhavEvent::StoredFileRead { found: false },
            BhavEvent::DownloadFinished { found: true },
            BhavEvent::DownloadSaved,
        ]
    } else {
        seq![
            BhavEvent::Requested,
            BhavEvent::StoredFileRead { found: false },
            BhavEvent::DownloadFinished { found: false },
        ]
    }
}

/// A request whose file is in the store is answered from the store: nothing is downloaded,
/// stored or recorded in the database. A request whose file is not stored and that the
/// exchange publishes stores the download before it answers, so that a later request for the
/// same day finds it in the store.
pub proof fn lemma_stored_file_is_answered_from_store(published: bool)
    ensures
        bhav_events(true, published).map_values(|e: BhavEvent| bhav_step(e))
            == seq![BhavAction::ReadStoredFile, BhavAction::AnswerFromStoredFile],
        bhav_events(false, true).map_values(|e: BhavEvent| bhav_step(e))
            == seq![
                BhavAction::ReadStoredFile,
                BhavAction::DownloadFile,
                BhavAction::SaveDownload,
                BhavAction::PersistAndAnswer,
            ],
        bhav_events(false, false).map_values(|e: BhavEvent| bhav_step(e))
            == seq![BhavAction::ReadStoredFile, BhavAction::DownloadFile, BhavAction::AnswerNothing],
{
    assert(bhav_events(true, published).map_values(|e: BhavEvent| bhav_step(e))
        =~= seq![BhavAction::ReadStoredFile, BhavAction::AnswerFromStoredFile]);
    assert(bhav_events(false, true).map_values(|e: BhavEvent| bhav_step(e)) =~= seq![
        BhavAction::ReadStoredFile,
        BhavAction::DownloadFile,
        BhavAction::SaveDownload,
        BhavAction::PersistAndAnswer,
    ]);
    assert(bhav_events(false, false).map_values(|e: BhavEvent| bhav_step(e))
        =~= seq![BhavAction::ReadStoredFile, BhavAction::DownloadFile, BhavAction::AnswerNothing]);
}

/// Bhavcopies made from the same stored rows, under the same key, date and source, are the
/// same.
pub proof fn lemma_same_rows_same_bhav(a: Bhav, b: Bhav, key: Seq<char>, date: Date, source: InstrumentSource, rows: Seq<Option<BhavRawRecord>>)
    requires
        a@.key == key && a@.date == date && a@.source == source,
        a@.prices == record_set(accepted_records(rows, InstrumentSource::NSE)),
        b@.key == key && b@.date == date && b@.source == source,
        b@.prices == record_set(accepted_records(rows, InstrumentSource::NSE)),
    ensures
        a@ == b@,
{
}

} // verus!
