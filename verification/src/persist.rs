//! The stored form of a market: its fields, in order, in Binary Canonical Serialization.

use vstd::prelude::*;
use crate::error::{CascadeProtocolError, ErrorView};
use crate::msg::MarketCategory;
use crate::state::{
    Market, MarketStatus, MarketView, Outcome, OutcomeView, clone_text, outcomes_view, text_of,
};

verus! {

/// The fields of a market in the order in which they are stored. Status and category
/// stand as the number of their variant.
pub type MarketRecord = (
    String,
    String,
    Vec<(String, String, u64)>,
    u64,
    u8,
    u64,
    Option<String>,
    Option<String>,
    u8,
);

/// The model of a [`MarketRecord`].
pub type RecordModel = (
    Seq<char>,
    Seq<char>,
    Seq<(Seq<char>, Seq<char>, u64)>,
    u64,
    u8,
    u64,
    Option<Seq<char>>,
    Option<Seq<char>>,
    u8,
);

/// The model of the outcomes of a record.
pub open spec fn outcome_fields(outcomes: Seq<(String, String, u64)>) -> Seq<
    (Seq<char>, Seq<char>, u64),
> {
    Seq::new(outcomes.len(), |i: int| (outcomes[i].0@, outcomes[i].1@, outcomes[i].2))
}

/// The model of a record.
pub open spec fn record_model(r: MarketRecord) -> RecordModel {
    (r.0@, r.1@, outcome_fields(r.2@), r.3, r.4, r.5, text_of(r.6), text_of(r.7), r.8)
}

/// The longest sequence that the format can hold.
pub open spec fn max_sequence_length() -> nat {
    0x7fff_ffff
}

/// The text takes no more bytes in UTF-8 than a sequence may have.
pub open spec fn text_fits(text: Seq<char>) -> bool {
    vstd::utf8::encode_utf8(text).len() <= max_sequence_length()
}

/// The optional text, where there is one, fits.
pub open spec fn optional_text_fits(text: Option<Seq<char>>) -> bool {
    match text {
        Some(t) => text_fits(t),
        None => true,
    }
}

/// Every text of the record and the number of its outcomes are within what the format
/// can hold.
pub open spec fn record_fits(r: RecordModel) -> bool {
    &&& text_fits(r.0)
    &&& text_fits(r.1)
    &&& r.2.len() <= max_sequence_length()
    &&& forall|i: int| 0 <= i < r.2.len() ==> text_fits(#[trigger] r.2[i].0)
    &&& forall|i: int| 0 <= i < r.2.len() ==> text_fits(#[trigger] r.2[i].1)
    &&& optional_text_fits(r.6)
    &&& optional_text_fits(r.7)
}

/// The bytes that `bcs::to_bytes` gives for a record.
pub uninterp spec fn bcs_encoding(record: RecordModel) -> Seq<u8>;

/// The record that `bcs::from_bytes` reads from bytes; `None` where it refuses them.
pub uninterp spec fn bcs_decoding(bytes: Seq<u8>) -> Option<RecordModel>;

/// `bcs::to_bytes` on a record.
///
/// Believed of it: it fails exactly where a text or the list of outcomes is longer than
/// the format's longest sequence; what it returns depends on the record alone; and
/// `bcs::from_bytes` reads the record back from what it returns.
#[verifier::external_body]
fn bcs_to_bytes(record: &MarketRecord) -> (result: Result<Vec<u8>, bcs::Error>)
    ensures
        result is Ok <==> record_fits(record_model(*record)),
        result matches Ok(bytes) ==> bytes@ == bcs_encoding(record_model(*record)),
        result matches Ok(bytes) ==> bcs_decoding(bytes@) == Some(record_model(*record)),
{
    bcs::to_bytes(record)
}

/// `bcs::from_bytes` for a record.
///
/// Believed of it: whether it accepts the bytes, and the record it then returns, depend
/// on the bytes alone.
#[verifier::external_body]
fn bcs_from_bytes(bytes: &[u8]) -> (result: Result<MarketRecord, bcs::Error>)
    ensures
        match result {
            Ok(record) => bcs_decoding(bytes@) == Some(record_model(record)),
            Err(_) => bcs_decoding(bytes@) is None,
        },
{
    bcs::from_bytes(bytes)
}

/// The error `bcs::Error::Custom` with the given message. Nothing is believed of it.
#[verifier::external_body]
fn bcs_custom_error(message: String) -> bcs::Error {
    bcs::Error::Custom(message)
}

/// The number under which a status is stored.
pub open spec fn status_number(status: MarketStatus) -> u8 {
    match status {
        MarketStatus::Active => 0,
        MarketStatus::Resolved => 1,
        MarketStatus::Expired => 2,
    }
}

/// The status stored under a number.
pub open spec fn status_of_number(n: u8) -> Option<MarketStatus> {
    if n == 0 {
        Some(MarketStatus::Active)
    } else if n == 1 {
        Some(MarketStatus::Resolved)
    } else if n == 2 {
        Some(MarketStatus::Expired)
    } else {
        None
    }
}

/// The number under which a category is stored.
pub open spec fn category_number(category: MarketCategory) -> u8 {
    match category {
        MarketCategory::Crypto => 0,
        MarketCategory::Politics => 1,
        MarketCategory::Economics => 2,
        MarketCategory::Tech => 3,
        MarketCategory::Sports => 4,
        MarketCategory::Other => 5,
    }
}

/// The category stored under a number.
pub open spec fn category_of_number(n: u8) -> Option<MarketCategory> {
    if n == 0 {
        Some(MarketCategory::Crypto)
    } else if n == 1 {
        Some(MarketCategory::Politics)
    } else if n == 2 {
        Some(MarketCategory::Economics)
    } else if n == 3 {
        Some(MarketCategory::Tech)
    } else if n == 4 {
        Some(MarketCategory::Sports)
    } else if n == 5 {
        Some(MarketCategory::Other)
    } else {
        None
    }
}

/// The fields of a run of outcomes.
pub open spec fn fields_of_outcomes(outcomes: Seq<OutcomeView>) -> Seq<(Seq<char>, Seq<char>, u64)> {
    Seq::new(outcomes.len(), |i: int| (outcomes[i].id, outcomes[i].name, outcomes[i].total_staked))
}

/// The outcomes that a run of fields stands for.
pub open spec fn outcomes_of_fields(fields: Seq<(Seq<char>, Seq<char>, u64)>) -> Seq<OutcomeView> {
    Seq::new(
        fields.len(),
        |i: int| OutcomeView { id: fields[i].0, name: fields[i].1, total_staked: fields[i].2 },
    )
}

/// The record of a market.
pub open spec fn market_record(m: MarketView) -> RecordModel {
    (
        m.id,
        m.question,
        fields_of_outcomes(m.outcomes),
        m.total_staked,
        status_number(m.status),
        m.expiry_time,
        m.winning_outcome_id,
        m.parent_id,
        category_number(m.category),
    )
}

/// The market that a record stands for; none where the number of its status or of its
/// category is the number of no variant.
pub open spec fn market_of_record(r: RecordModel) -> Option<MarketView> {
    match (status_of_number(r.4), category_of_number(r.8)) {
        (Some(status), Some(category)) => Some(
            MarketView {
                id: r.0,
                question: r.1,
                outcomes: outcomes_of_fields(r.2),
                total_staked: r.3,
                status,
                expiry_time: r.5,
                winning_outcome_id: r.6,
                parent_id: r.7,
                category,
            },
        ),
        _ => None,
    }
}

/// The record of a market stands for that market.
pub proof fn lemma_record_of_market(m: MarketView)
    ensures
        market_of_record(market_record(m)) == Some(m),
{
    assert(outcomes_of_fields(fields_of_outcomes(m.outcomes)) =~= m.outcomes);
}

impl MarketView {
    /// The stored form of the market.
    pub open spec fn encoding(self) -> Seq<u8> {
        bcs_encoding(market_record(self))
    }

    /// The market can be stored: its texts and the number of its outcomes are within
    /// what the format can hold.
    pub open spec fn fits(self) -> bool {
        record_fits(market_record(self))
    }

    /// The market of which `bytes` is the stored form, if there is one.
    pub open spec fn decoding(bytes: Seq<u8>) -> Option<MarketView> {
        match bcs_decoding(bytes) {
            Some(r) => market_of_record(r),
            None => None,
        }
    }
}

impl MarketStatus {
    /// The number under which the status is stored.
    pub fn number(self) -> (n: u8)
        ensures
            n == status_number(self),
    {
        match self {
            MarketStatus::Active => 0,
            MarketStatus::Resolved => 1,
            MarketStatus::Expired => 2,
        }
    }

    /// The status stored under `n`.
    pub fn of_number(n: u8) -> (status: Option<MarketStatus>)
        ensures
            status == status_of_number(n),
    {
        if n == 0 {
            Some(MarketStatus::Active)
        } else if n == 1 {
            Some(MarketStatus::Resolved)
        } else if n == 2 {
            Some(MarketStatus::Expired)
        } else {
            None
        }
    }
}

impl MarketCategory {
    /// The number under which the category is stored.
    pub fn number(self) -> (n: u8)
        ensures
            n == category_number(self),
    {
        match self {
            MarketCategory::Crypto => 0,
            MarketCategory::Politics => 1,
            MarketCategory::Economics => 2,
            MarketCategory::Tech => 3,
            MarketCategory::Sports => 4,
            MarketCategory::Other => 5,
        }
    }

    /// The category stored under `n`.
    pub fn of_number(n: u8) -> (category: Option<MarketCategory>)
        ensures
            category == category_of_number(n),
    {
        if n == 0 {
            Some(MarketCategory::Crypto)
        } else if n == 1 {
            Some(MarketCategory::Politics)
        } else if n == 2 {
            Some(MarketCategory::Economics)
        } else if n == 3 {
            Some(MarketCategory::Tech)
        } else if n == 4 {
            Some(MarketCategory::Sports)
        } else if n == 5 {
            Some(MarketCategory::Other)
        } else {
            None
        }
    }
}

impl Market {
    /// The fields of the market, in the order in which they are stored.
    pub fn to_record(&self) -> (record: MarketRecord)
        ensures
            record_model(record) == market_record(self@),
    {
        let mut outcomes: Vec<(String, String, u64)> = Vec::new();
        let mut i: usize = 0;
        while i < self.outcomes.len()
            invariant
                i <= self.outcomes.len(),
                outcomes.len() == i,
                forall|k: int|
                    0 <= k < i ==> (#[trigger] outcomes[k]).0@ == self.outcomes[k].id@
                        && outcomes[k].1@ == self.outcomes[k].name@ && outcomes[k].2
                        == self.outcomes[k].total_staked,
            decreases self.outcomes.len() - i,
        {
            let outcome = &self.outcomes[i];
            outcomes.push((outcome.id.clone(), outcome.name.clone(), outcome.total_staked));
            i += 1;
        }
        assert(outcome_fields(outcomes@) =~= fields_of_outcomes(self@.outcomes));
        (
            self.id.clone(),
            self.question.clone(),
            outcomes,
            self.total_staked,
            self.status.number(),
            self.expiry_time,
            clone_text(&self.winning_outcome_id),
            clone_text(&self.parent_id),
            self.category.number(),
        )
    }

    /// The market that a record stands for.
    pub fn from_record(record: MarketRecord) -> (market: Option<Market>)
        ensures
            match market {
                Some(m) => market_of_record(record_model(record)) == Some(m@),
                None => market_of_record(record_model(record)) is None,
            },
    {
        let (id, question, fields, total_staked, status, expiry_time, winner, parent, category) =
            record;
        let status = match MarketStatus::of_number(status) {
            Some(status) => status,
            None => {
                return None;
            },
        };
        let category = match MarketCategory::of_number(category) {
            Some(category) => category,
            None => {
                return None;
            },
        };
        let mut outcomes: Vec<Outcome> = Vec::new();
        let mut i: usize = 0;
        while i < fields.len()
            invariant
                i <= fields.len(),
                outcomes.len() == i,
                forall|k: int|
                    0 <= k < i ==> (#[trigger] outcomes[k])@ == outcomes_of_fields(
                        outcome_fields(fields@),
                    )[k],
            decreases fields.len() - i,
        {
            let field = &fields[i];
            outcomes.push(Outcome { id: field.0.clone(), name: field.1.clone(), total_staked: field.2 });
            i += 1;
        }
        assert(outcomes_view(outcomes@) =~= outcomes_of_fields(outcome_fields(fields@)));
        Some(
            Market {
                id,
                question,
                outcomes,
                total_staked,
                status,
                expiry_time,
                winning_outcome_id: winner,
                parent_id: parent,
                category,
            },
        )
    }

    /// The stored form of the market.
    ///
    /// Fails exactly where the market does not fit the format. Reading the bytes back
    /// gives the market.
    pub fn to_bytes(&self) -> (result: Result<Vec<u8>, CascadeProtocolError>)
        ensures
            result is Ok <==> self@.fits(),
            match result {
                Ok(bytes) => bytes@ == self@.encoding() && MarketView::decoding(bytes@) == Some(
                    self@,
                ),
                Err(e) => e@ == ErrorView::BcsError,
            },
    {
        let record = self.to_record();
        proof {
            lemma_record_of_market(self@);
        }
        match bcs_to_bytes(&record) {
            Ok(bytes) => Ok(bytes),
            Err(e) => Err(CascadeProtocolError::BcsError(e)),
        }
    }

    /// Reads a market from its stored form.
    pub fn from_bytes(bytes: &[u8]) -> (result: Result<Market, CascadeProtocolError>)
        ensures
            match result {
                Ok(market) => MarketView::decoding(bytes@) == Some(market@),
                Err(e) => MarketView::decoding(bytes@) is None && e@ == ErrorView::BcsError,
            },
    {
        match bcs_from_bytes(bytes) {
            Ok(record) => match Market::from_record(record) {
                Some(market) => Ok(market),
                None => Err(
                    CascadeProtocolError::BcsError(
                        bcs_custom_error("unknown variant of a status or a category".to_owned()),
                    ),
                ),
            },
            Err(e) => Err(CascadeProtocolError::BcsError(e)),
        }
    }
}

} // verus!
