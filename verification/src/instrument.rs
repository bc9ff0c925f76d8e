use vstd::prelude::*;

verus! {

/// Whether two texts are equal, character by character.
pub fn text_equals(a: &str, b: &str) -> (res: bool)
    ensures
        res == (a@ == b@),
{
    let n = a.unicode_len();
    if n != b.unicode_len() {
        return false;
    }
    let mut i: usize = 0;
    while i < n
        invariant
            n == a@.len(),
            n == b@.len(),
            i <= n,
            forall|k: int| 0 <= k < i ==> a@[k] == b@[k],
        decreases n - i,
    {
        if a.get_char(i) != b.get_char(i) {
            return false;
        }
        i = i + 1;
    }
    assert(a@ =~= b@);
    true
}

/// The kind of a traded instrument, with the code a bhavcopy uses for it.
#[derive(Clone, Copy, Debug, PartialEq, Eq, Structural)]
pub enum InstrumentType {
    /// `CUR`: currency
    Currency,
    /// `CDF`: currency futures
    CurrencyFutures,
    /// `CDO`: currency options
    CurrencyOptions,
    /// `IRF`: interest rate futures on MIBOR and G-Sec
    InterestRateFuturesMiborGsec,
    /// `IRT`: interest rate futures on T-bills
    InterestRateFuturesTbill,
    /// `IRO`: interest rate options
    InterestRateOptions,
    /// `STK`: stock
    Stock,
    /// `COM`: commodity
    Commodity,
    /// `COF`: commodity futures
    CommodityFutures,
    /// `COO`: commodity options
    CommodityOptions,
    /// `FUO`: options on futures
    OptionsOnFutures,
    /// `STF`: stock futures
    StockFutures,
    /// `STO`: stock options
    StockOptions,
    /// `IDF`: index futures
    IndexFutures,
    /// `IDO`: index options
    IndexOptions,
}

/// The code of an instrument type in a bhavcopy and in the database.
pub open spec fn instrument_type_code(x: InstrumentType) -> Seq<char> {
    match x {
        InstrumentType::Currency => seq!['C', 'U', 'R'],
        InstrumentType::CurrencyFutures => seq!['C', 'D', 'F'],
        InstrumentType::CurrencyOptions => seq!['C', 'D', 'O'],
        InstrumentType::InterestRateFuturesMiborGsec => seq!['I', 'R', 'F'],
        InstrumentType::InterestRateFuturesTbill => seq!['I', 'R', 'T'],
        InstrumentType::InterestRateOptions => seq!['I', 'R', 'O'],
        InstrumentType::Stock => seq!['S', 'T', 'K'],
        InstrumentType::Commodity => seq!['C', 'O', 'M'],
        InstrumentType::CommodityFutures => seq!['C', 'O', 'F'],
        InstrumentType::CommodityOptions => seq!['C', 'O', 'O'],
        InstrumentType::OptionsOnFutures => seq!['F', 'U', 'O'],
        InstrumentType::StockFutures => seq!['S', 'T', 'F'],
        InstrumentType::StockOptions => seq!['S', 'T', 'O'],
        InstrumentType::IndexFutures => seq!['I', 'D', 'F'],
        InstrumentType::IndexOptions => seq!['I', 'D', 'O'],
    }
}

/// The position of a variant in declaration order, by which values of the type are ordered.
pub open spec fn instrument_type_rank(x: InstrumentType) -> int {
    match x {
        InstrumentType::Currency => 0,
        InstrumentType::CurrencyFutures => 1,
        InstrumentType::CurrencyOptions => 2,
        InstrumentType::InterestRateFuturesMiborGsec => 3,
        InstrumentType::InterestRateFuturesTbill => 4,
        InstrumentType::InterestRateOptions => 5,
        InstrumentType::Stock => 6,
        InstrumentType::Commodity => 7,
        InstrumentType::CommodityFutures => 8,
        InstrumentType::CommodityOptions => 9,
        InstrumentType::OptionsOnFutures => 10,
        InstrumentType::StockFutures => 11,
        InstrumentType::StockOptions => 12,
        InstrumentType::IndexFutures => 13,
        InstrumentType::IndexOptions => 14,
    }
}

/// The variant whose code is `s`, if any.
pub open spec fn instrument_type_from_code(s: Seq<char>) -> Option<InstrumentType> {
    if s == seq!['C', 'U', 'R'] {
        Some(InstrumentType::Currency)
    } else if s == seq!['C', 'D', 'F'] {
        Some(InstrumentType::CurrencyFutures)
    } else if s == seq!['C', 'D', 'O'] {
        Some(InstrumentType::CurrencyOptions)
    } else if s == seq!['I', 'R', 'F'] {
        Some(InstrumentType::InterestRateFuturesMiborGsec)
    } else if s == seq!['I', 'R', 'T'] {
        Some(InstrumentType::InterestRateFuturesTbill)
    } else if s == seq!['I', 'R', 'O'] {
        Some(InstrumentType::InterestRateOptions)
    } else if s == seq!['S', 'T', 'K'] {
        Some(InstrumentType::Stock)
    } else if s == seq!['C', 'O', 'M'] {
        Some(InstrumentType::Commodity)
    } else if s == seq!['C', 'O', 'F'] {
        Some(InstrumentType::CommodityFutures)
    } else if s == seq!['C', 'O', 'O'] {
        Some(InstrumentType::CommodityOptions)
    } else if s == seq!['F', 'U', 'O'] {
        Some(InstrumentType::OptionsOnFutures)
    } else if s == seq!['S', 'T', 'F'] {
        Some(InstrumentType::StockFutures)
    } else if s == seq!['S', 'T', 'O'] {
        Some(InstrumentType::StockOptions)
    } else if s == seq!['I', 'D', 'F'] {
        Some(InstrumentType::IndexFutures)
    } else if s == seq!['I', 'D', 'O'] {
        Some(InstrumentType::IndexOptions)
    } else {
        None
    }
}

impl InstrumentType {
    /// The code of the variant.
    pub fn code(&self) -> (s: &'static str)
        ensures
            s@ == instrument_type_code(*self),
    {
        match self {
            InstrumentType::Currency => {
                proof { reveal_strlit("CUR"); }
                "CUR"
            }
            InstrumentType::CurrencyFutures => {
                proof { reveal_strlit("CDF"); }
                "CDF"
            }
            InstrumentType::CurrencyOptions => {
                proof { reveal_strlit("CDO"); }
                "CDO"
            }
            InstrumentType::InterestRateFuturesMiborGsec => {
                proof { reveal_strlit("IRF"); }
                "IRF"
            }
            InstrumentType::InterestRateFuturesTbill => {
                proof { reveal_strlit("IRT"); }
                "IRT"
            }
            InstrumentType::InterestRateOptions => {
                proof { reveal_strlit("IRO"); }
                "IRO"
            }
            InstrumentType::Stock => {
                proof { reveal_strlit("STK"); }
                "STK"
            }
            InstrumentType::Commodity => {
                proof { reveal_strlit("COM"); }
                "COM"
            }
            InstrumentType::CommodityFutures => {
                proof { reveal_strlit("COF"); }
                "COF"
            }
            InstrumentType::CommodityOptions => {
                proof { reveal_strlit("COO"); }
                "COO"
            }
            InstrumentType::OptionsOnFutures => {
                proof { reveal_strlit("FUO"); }
                "FUO"
            }
            InstrumentType::StockFutures => {
                proof { reveal_strlit("STF"); }
                "STF"
            }
            InstrumentType::StockOptions => {
                proof { reveal_strlit("STO"); }
                "STO"
            }
            InstrumentType::IndexFutures => {
                proof { reveal_strlit("IDF"); }
                "IDF"
            }
            InstrumentType::IndexOptions => {
                proof { reveal_strlit("IDO"); }
                "IDO"
            }
        }
    }

    /// The variant whose code is `s`.
    pub fn from_code(s: &str) -> (res: Option<InstrumentType>)
        ensures
            res == instrument_type_from_code(s@),
    {
        proof {
            reveal_strlit("CUR");
            assert("CUR"@ =~= seq!['C', 'U', 'R']);
            reveal_strlit("CDF");
            assert("CDF"@ =~= seq!['C', 'D', 'F']);
            reveal_strlit("CDO");
            assert("CDO"@ =~= seq!['C', 'D', 'O']);
            reveal_strlit("IRF");
            assert("IRF"@ =~= seq!['I', 'R', 'F']);
            reveal_strlit("IRT");
            assert("IRT"@ =~= seq!['I', 'R', 'T']);
            reveal_strlit("IRO");
            assert("IRO"@ =~= seq!['I', 'R', 'O']);
            reveal_strlit("STK");
            assert("STK"@ =~= seq!['S', 'T', 'K']);
            reveal_strlit("COM");
            assert("COM"@ =~= seq!['C', 'O', 'M']);
            reveal_strlit("COF");
            assert("COF"@ =~= seq!['C', 'O', 'F']);
            reveal_strlit("COO");
            assert("COO"@ =~= seq!['C', 'O', 'O']);
            reveal_strlit("FUO");
            assert("FUO"@ =~= seq!['F', 'U', 'O']);
            reveal_strlit("STF");
            assert("STF"@ =~= seq!['S', 'T', 'F']);
            reveal_strlit("STO");
            assert("STO"@ =~= seq!['S', 'T', 'O']);
            reveal_strlit("IDF");
            assert("IDF"@ =~= seq!['I', 'D', 'F']);
            reveal_strlit("IDO");
            assert("IDO"@ =~= seq!['I', 'D', 'O']);
        }
        if text_equals(s, "CUR") {
            Some(InstrumentType::Currency)
        } else if text_equals(s, "CDF") {
            Some(InstrumentType::CurrencyFutures)
        } else if text_equals(s, "CDO") {
            Some(InstrumentType::CurrencyOptions)
        } else if text_equals(s, "IRF") {
            Some(InstrumentType::InterestRateFuturesMiborGsec)
        } else if text_equals(s, "IRT") {
            Some(InstrumentType::InterestRateFuturesTbill)
        } else if text_equals(s, "IRO") {
            Some(InstrumentType::InterestRateOptions)
        } else if text_equals(s, "STK") {
            Some(InstrumentType::Stock)
        } else if text_equals(s, "COM") {
            Some(InstrumentType::Commodity)
        } else if text_equals(s, "COF") {
            Some(InstrumentType::CommodityFutures)
        } else if text_equals(s, "COO") {
            Some(InstrumentType::CommodityOptions)
        } else if text_equals(s, "FUO") {
            Some(InstrumentType::OptionsOnFutures)
        } else if text_equals(s, "STF") {
            Some(InstrumentType::StockFutures)
        } else if text_equals(s, "STO") {
            Some(InstrumentType::StockOptions)
        } else if text_equals(s, "IDF") {
            Some(InstrumentType::IndexFutures)
        } else if text_equals(s, "IDO") {
            Some(InstrumentType::IndexOptions)
        } else {
            None
        }
    }

    /// The position of the variant in declaration order.
    pub fn rank(&self) -> (r: i64)
        ensures
            r == instrument_type_rank(*self),
    {
        match self {
            InstrumentType::Currency => 0,
            InstrumentType::CurrencyFutures => 1,
            InstrumentType::CurrencyOptions => 2,
            InstrumentType::InterestRateFuturesMiborGsec => 3,
            InstrumentType::InterestRateFuturesTbill => 4,
            InstrumentType::InterestRateOptions => 5,
            InstrumentType::Stock => 6,
            InstrumentType::Commodity => 7,
            InstrumentType::CommodityFutures => 8,
            InstrumentType::CommodityOptions => 9,
            InstrumentType::OptionsOnFutures => 10,
            InstrumentType::StockFutures => 11,
            InstrumentType::StockOptions => 12,
            InstrumentType::IndexFutures => 13,
            InstrumentType::IndexOptions => 14,
        }
    }
}

/// Reading the code of a variant gives the variant back.
pub proof fn lemma_instrument_type_code_round_trip(x: InstrumentType)
    ensures
        instrument_type_from_code(instrument_type_code(x)) == Some(x),
{
    match x {
        InstrumentType::Currency => {}
        InstrumentType::CurrencyFutures => {}
        InstrumentType::CurrencyOptions => {}
        InstrumentType::InterestRateFuturesMiborGsec => {}
        InstrumentType::InterestRateFuturesTbill => {}
        InstrumentType::InterestRateOptions => {}
        InstrumentType::Stock => {}
        InstrumentType::Commodity => {}
        InstrumentType::CommodityFutures => {}
        InstrumentType::CommodityOptions => {}
        InstrumentType::OptionsOnFutures => {}
        InstrumentType::StockFutures => {}
        InstrumentType::StockOptions => {}
        InstrumentType::IndexFutures => {}
        InstrumentType::IndexOptions => {}
    }
}

/// A text read as a variant is that variant's code.
pub proof fn lemma_instrument_type_code_unique(s: Seq<char>)
    ensures
        instrument_type_from_code(s) matches Some(x) ==> instrument_type_code(x) == s,
{
}

/// The market segment of an instrument, with the code a bhavcopy uses for it.
#[derive(Clone, Copy, Debug, PartialEq, Eq, Structural)]
pub enum InstrumentSegment {
    /// `CM`: capital markets
    CaptialMarkets,
    /// `FO`: futures and options
    FuturesAndOptions,
    /// `CD`: currency derivatives
    CurrencyDerivatives,
    /// `COM`: commodities derivatives
    CommoditiesDerivatives,
}

/// The code of a segment in a bhavcopy and in the database.
pub open spec fn instrument_segment_code(x: InstrumentSegment) -> Seq<char> {
    match x {
        InstrumentSegment::CaptialMarkets => seq!['C', 'M'],
        InstrumentSegment::FuturesAndOptions => seq!['F', 'O'],
        InstrumentSegment::CurrencyDerivatives => seq!['C', 'D'],
        InstrumentSegment::CommoditiesDerivatives => seq!['C', 'O', 'M'],
    }
}

/// The position of a variant in declaration order, by which values of the type are ordered.
pub open spec fn instrument_segment_rank(x: InstrumentSegment) -> int {
    match x {
        InstrumentSegment::CaptialMarkets => 0,
        InstrumentSegment::FuturesAndOptions => 1,
        InstrumentSegment::CurrencyDerivatives => 2,
        InstrumentSegment::CommoditiesDerivatives => 3,
    }
}

/// The variant whose code is `s`, if any.
pub open spec fn instrument_segment_from_code(s: Seq<char>) -> Option<InstrumentSegment> {
    if s == seq!['C', 'M'] {
        Some(InstrumentSegment::CaptialMarkets)
    } else if s == seq!['F', 'O'] {
        Some(InstrumentSegment::FuturesAndOptions)
    } else if s == seq!['C', 'D'] {
        Some(InstrumentSegment::CurrencyDerivatives)
    } else if s == seq!['C', 'O', 'M'] {
        Some(InstrumentSegment::CommoditiesDerivatives)
    } else {
        None
    }
}

impl InstrumentSegment {
    /// The code of the variant.
    pub fn code(&self) -> (s: &'static str)
        ensures
            s@ == instrument_segment_code(*self),
    {
        match self {
            InstrumentSegment::CaptialMarkets => {
                proof { reveal_strlit("CM"); }
                "CM"
            }
            InstrumentSegment::FuturesAndOptions => {
                proof { reveal_strlit("FO"); }
                "FO"
            }
            InstrumentSegment::CurrencyDerivatives => {
                proof { reveal_strlit("CD"); }
                "CD"
            }
            InstrumentSegment::CommoditiesDerivatives => {
                proof { reveal_strlit("COM"); }
                "COM"
            }
        }
    }

    /// The variant whose code is `s`.
    pub fn from_code(s: &str) -> (res: Option<InstrumentSegment>)
        ensures
            res == instrument_segment_from_code(s@),
    {
        proof {
            reveal_strlit("CM");
            assert("CM"@ =~= seq!['C', 'M']);
            reveal_strlit("FO");
            assert("FO"@ =~= seq!['F', 'O']);
            reveal_strlit("CD");
            assert("CD"@ =~= seq!['C', 'D']);
            reveal_strlit("COM");
            assert("COM"@ =~= seq!['C', 'O', 'M']);
        }
        if text_equals(s, "CM") {
            Some(InstrumentSegment::CaptialMarkets)
        } else if text_equals(s, "FO") {
            Some(InstrumentSegment::FuturesAndOptions)
        } else if text_equals(s, "CD") {
            Some(InstrumentSegment::CurrencyDerivatives)
        } else if text_equals(s, "COM") {
            Some(InstrumentSegment::CommoditiesDerivatives)
        } else {
            None
        }
    }

    /// The position of the variant in declaration order.
    pub fn rank(&self) -> (r: i64)
        ensures
            r == instrument_segment_rank(*self),
    {
        match self {
            InstrumentSegment::CaptialMarkets => 0,
            InstrumentSegment::FuturesAndOptions => 1,
            InstrumentSegment::CurrencyDerivatives => 2,
            InstrumentSegment::CommoditiesDerivatives => 3,
        }
    }
}

/// Reading the code of a variant gives the variant back.
pub proof fn lemma_instrument_segment_code_round_trip(x: InstrumentSegment)
    ensures
        instrument_segment_from_code(instrument_segment_code(x)) == Some(x),
{
    match x {
        InstrumentSegment::CaptialMarkets => {}
        InstrumentSegment::FuturesAndOptions => {}
        InstrumentSegment::CurrencyDerivatives => {}
        InstrumentSegment::CommoditiesDerivatives => {}
    }
}

/// A text read as a variant is that variant's code.
pub proof fn lemma_instrument_segment_code_unique(s: Seq<char>)
    ensures
        instrument_segment_from_code(s) matches Some(x) ==> instrument_segment_code(x) == s,
{
}

/// The exchange that publishes a bhavcopy.
#[derive(Clone, Copy, Debug, PartialEq, Eq, Structural)]
pub enum InstrumentSource {
    /// `NSE`: the National Stock Exchange of India
    NSE,
}

/// The name of a source, as it is shown and serialized.
pub open spec fn instrument_source_code(x: InstrumentSource) -> Seq<char> {
    match x {
        InstrumentSource::NSE => seq!['N', 'S', 'E'],
    }
}

/// The position of a variant in declaration order, by which values of the type are ordered.
pub open spec fn instrument_source_rank(x: InstrumentSource) -> int {
    match x {
        InstrumentSource::NSE => 0,
    }
}

/// The variant whose code is `s`, if any.
pub open spec fn instrument_source_from_code(s: Seq<char>) -> Option<InstrumentSource> {
    if s == seq!['N', 'S', 'E'] {
        Some(InstrumentSource::NSE)
    } else {
        None
    }
}

impl InstrumentSource {
    /// The code of the variant.
    pub fn code(&self) -> (s: &'static str)
        ensures
            s@ == instrument_source_code(*self),
    {
        match self {
            InstrumentSource::NSE => {
                proof { reveal_strlit("NSE"); }
                "NSE"
            }
        }
    }

    /// The variant whose code is `s`.
    pub fn from_code(s: &str) -> (res: Option<InstrumentSource>)
        ensures
            res == instrument_source_from_code(s@),
    {
        proof {
            reveal_strlit("NSE");
            assert("NSE"@ =~= seq!['N', 'S', 'E']);
        }
        if text_equals(s, "NSE") {
            Some(InstrumentSource::NSE)
        } else {
            None
        }
    }

    /// The position of the variant in declaration order.
    pub fn rank(&self) -> (r: i64)
        ensures
            r == instrument_source_rank(*self),
    {
        match self {
            InstrumentSource::NSE => 0,
        }
    }
}

/// Reading the code of a variant gives the variant back.
pub proof fn lemma_instrument_source_code_round_trip(x: InstrumentSource)
    ensures
        instrument_source_from_code(instrument_source_code(x)) == Some(x),
{
    match x {
        InstrumentSource::NSE => {}
    }
}

/// A text read as a variant is that variant's code.
pub proof fn lemma_instrument_source_code_unique(s: Seq<char>)
    ensures
        instrument_source_from_code(s) matches Some(x) ==> instrument_source_code(x) == s,
{
}

/// The name under which a source is stored in the database (lower case).
pub open spec fn source_db_name(x: InstrumentSource) -> Seq<char> {
    match x {
        InstrumentSource::NSE => seq!['n', 's', 'e'],
    }
}

impl InstrumentSource {
    /// The lower-case name of the source in the database.
    pub fn db_name(&self) -> (s: &'static str)
        ensures
            s@ == source_db_name(*self),
    {
        match self {
            InstrumentSource::NSE => {
                proof { reveal_strlit("nse"); }
                "nse"
            }
        }
    }
}

/// The kind of a stored source file.
#[derive(Clone, Copy, Debug, PartialEq, Eq, Structural)]
pub enum AppFileKind {
    NSE,
}

/// The name of a file kind as it displays (lower case).
pub open spec fn app_file_kind_name(x: AppFileKind) -> Seq<char> {
    match x {
        AppFileKind::NSE => seq!['n', 's', 'e'],
    }
}

impl AppFileKind {
    /// The lower-case name of the kind.
    pub fn name(&self) -> (s: &'static str)
        ensures
            s@ == app_file_kind_name(*self),
    {
        match self {
            AppFileKind::NSE => {
                proof { reveal_strlit("nse"); }
                "nse"
            }
        }
    }
}

} // verus!
