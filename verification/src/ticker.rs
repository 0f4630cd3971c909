//! The table of tickers that the quote service knows, and lookups in it.
use vstd::prelude::*;

verus! {

/// Number of tickers in the table.
pub const TICKER_COUNT: usize = 110;

/// The name of the ticker at position `i` of the table (empty past its end).
pub open spec fn ticker_name(i: usize) -> Seq<char> {
    match i {
        0 => "AAPL"@,
        1 => "MSFT"@,
        2 => "GOOGL"@,
        3 => "AMZN"@,
        4 => "NVDA"@,
        5 => "META"@,
        6 => "TSLA"@,
        7 => "JPM"@,
        8 => "JNJ"@,
        9 => "V"@,
        10 => "PG"@,
        11 => "UNH"@,
        12 => "HD"@,
        13 => "DIS"@,
        14 => "PYPL"@,
        15 => "NFLX"@,
        16 => "ADBE"@,
        17 => "CRM"@,
        18 => "INTC"@,
        19 => "CSCO"@,
        20 => "PFE"@,
        21 => "ABT"@,
        22 => "TMO"@,
        23 => "ABBV"@,
        24 => "LLY"@,
        25 => "PEP"@,
        26 => "COST"@,
        27 => "TXN"@,
        28 => "AVGO"@,
        29 => "ACN"@,
        30 => "QCOM"@,
        31 => "DHR"@,
        32 => "MDT"@,
        33 => "NKE"@,
        34 => "UPS"@,
        35 => "RTX"@,
        36 => "HON"@,
        37 => "ORCL"@,
        38 => "LIN"@,
        39 => "AMGN"@,
        40 => "LOW"@,
        41 => "SBUX"@,
        42 => "SPGI"@,
        43 => "INTU"@,
        44 => "ISRG"@,
        45 => "T"@,
        46 => "BMY"@,
        47 => "DE"@,
        48 => "PLD"@,
        49 => "CI"@,
        50 => "CAT"@,
        51 => "GS"@,
        52 => "UNP"@,
        53 => "AMT"@,
        54 => "AXP"@,
        55 => "MS"@,
        56 => "BLK"@,
        57 => "GE"@,
        58 => "SYK"@,
        59 => "GILD"@,
        60 => "MMM"@,
        61 => "MO"@,
        62 => "LMT"@,
        63 => "FISV"@,
        64 => "ADI"@,
        65 => "BKNG"@,
        66 => "C"@,
        67 => "SO"@,
        68 => "NEE"@,
        69 => "ZTS"@,
        70 => "TGT"@,
        71 => "DUK"@,
        72 => "ICE"@,
        73 => "BDX"@,
        74 => "PNC"@,
        75 => "CMCSA"@,
        76 => "SCHW"@,
        77 => "MDLZ"@,
        78 => "TJX"@,
        79 => "USB"@,
        80 => "CL"@,
        81 => "EMR"@,
        82 => "APD"@,
        83 => "COF"@,
        84 => "FDX"@,
        85 => "AON"@,
        86 => "WM"@,
        87 => "ECL"@,
        88 => "ITW"@,
        89 => "VRTX"@,
        90 => "D"@,
        91 => "NSC"@,
        92 => "PGR"@,
        93 => "ETN"@,
        94 => "FIS"@,
        95 => "PSA"@,
        96 => "KLAC"@,
        97 => "MCD"@,
        98 => "ADP"@,
        99 => "APTV"@,
        100 => "AEP"@,
        101 => "MCO"@,
        102 => "SHW"@,
        103 => "DD"@,
        104 => "ROP"@,
        105 => "SLB"@,
        106 => "HUM"@,
        107 => "BSX"@,
        108 => "NOC"@,
        109 => "EW"@,
        _ => Seq::empty(),
    }
}

/// `s` names a ticker of the table.
pub open spec fn valid_ticker(s: Seq<char>) -> bool {
    exists|i: usize| i < TICKER_COUNT && #[trigger] ticker_name(i) == s
}

/// The ticker list of the quote service, name by name, in its order.
pub open spec fn ticker_list() -> Seq<Seq<char>> {
    seq![
        "AAPL"@, "MSFT"@, "GOOGL"@, "AMZN"@, "NVDA"@, "META"@, "TSLA"@, "JPM"@,
        "JNJ"@, "V"@, "PG"@, "UNH"@, "HD"@, "DIS"@, "PYPL"@, "NFLX"@,
        "ADBE"@, "CRM"@, "INTC"@, "CSCO"@, "PFE"@, "ABT"@, "TMO"@, "ABBV"@,
        "LLY"@, "PEP"@, "COST"@, "TXN"@, "AVGO"@, "ACN"@, "QCOM"@, "DHR"@,
        "MDT"@, "NKE"@, "UPS"@, "RTX"@, "HON"@, "ORCL"@, "LIN"@, "AMGN"@,
        "LOW"@, "SBUX"@, "SPGI"@, "INTU"@, "ISRG"@, "T"@, "BMY"@, "DE"@,
        "PLD"@, "CI"@, "CAT"@, "GS"@, "UNP"@, "AMT"@, "AXP"@, "MS"@,
        "BLK"@, "GE"@, "SYK"@, "GILD"@, "MMM"@, "MO"@, "LMT"@, "FISV"@,
        "ADI"@, "BKNG"@, "C"@, "SO"@, "NEE"@, "ZTS"@, "TGT"@, "DUK"@,
        "ICE"@, "BDX"@, "PNC"@, "CMCSA"@, "SCHW"@, "MDLZ"@, "TJX"@, "USB"@,
        "CL"@, "EMR"@, "APD"@, "COF"@, "FDX"@, "AON"@, "WM"@, "ECL"@,
        "ITW"@, "VRTX"@, "D"@, "NSC"@, "PGR"@, "ETN"@, "FIS"@, "PSA"@,
        "KLAC"@, "MCD"@, "ADP"@, "APTV"@, "AEP"@, "MCO"@, "SHW"@, "DD"@,
        "ROP"@, "SLB"@, "HUM"@, "BSX"@, "NOC"@, "EW"@,
    ]
}

/// The table is exactly the ticker list: it has the list's names at the
/// list's positions, and a name is a ticker of the table exactly when the
/// list holds it.
pub proof fn lemma_table_is_ticker_list()
    ensures
        ticker_list().len() == TICKER_COUNT,
        forall|i: usize| i < TICKER_COUNT ==> #[trigger] ticker_name(i) == ticker_list()[i as int],
        forall|t: Seq<char>| valid_ticker(t) <==> #[trigger] ticker_list().contains(t),
{
    let list = ticker_list();
    assert(list.len() == TICKER_COUNT);
    assert forall|i: usize| i < TICKER_COUNT implies #[trigger] ticker_name(i) == list[i as int] by {

    }
    assert forall|t: Seq<char>| valid_ticker(t) <==> #[trigger] list.contains(t) by {
        if valid_ticker(t) {
            let i = choose|i: usize| i < TICKER_COUNT && #[trigger] ticker_name(i) == t;
            assert(list[i as int] == t);
        }
        if list.contains(t) {
            let k = choose|k: int| 0 <= k < list.len() && list[k] == t;
            assert(ticker_name(k as usize) == t);
        }
    }
}

/// A ticker name is a non-empty run of capital ASCII letters.
pub open spec fn is_symbol(s: Seq<char>) -> bool {
    &&& s.len() > 0
    &&& forall|k: int| 0 <= k < s.len() ==> 'A' <= #[trigger] s[k] <= 'Z'
}

/// The ticker at position `i` of the table.
pub fn ticker_at(i: usize) -> (t: &'static str)
    requires
        i < TICKER_COUNT,
    ensures
        t@ == ticker_name(i),
{
    match i {
        0 => "AAPL",
        1 => "MSFT",
        2 => "GOOGL",
        3 => "AMZN",
        4 => "NVDA",
        5 => "META",
        6 => "TSLA",
        7 => "JPM",
        8 => "JNJ",
        9 => "V",
        10 => "PG",
        11 => "UNH",
        12 => "HD",
        13 => "DIS",
        14 => "PYPL",
        15 => "NFLX",
        16 => "ADBE",
        17 => "CRM",
        18 => "INTC",
        19 => "CSCO",
        20 => "PFE",
        21 => "ABT",
        22 => "TMO",
        23 => "ABBV",
        24 => "LLY",
        25 => "PEP",
        26 => "COST",
        27 => "TXN",
        28 => "AVGO",
        29 => "ACN",
        30 => "QCOM",
        31 => "DHR",
        32 => "MDT",
        33 => "NKE",
        34 => "UPS",
        35 => "RTX",
        36 => "HON",
        37 => "ORCL",
        38 => "LIN",
        39 => "AMGN",
        40 => "LOW",
        41 => "SBUX",
        42 => "SPGI",
        43 => "INTU",
        44 => "ISRG",
        45 => "T",
        46 => "BMY",
        47 => "DE",
        48 => "PLD",
        49 => "CI",
        50 => "CAT",
        51 => "GS",
        52 => "UNP",
        53 => "AMT",
        54 => "AXP",
        55 => "MS",
        56 => "BLK",
        57 => "GE",
        58 => "SYK",
        59 => "GILD",
        60 => "MMM",
        61 => "MO",
        62 => "LMT",
        63 => "FISV",
        64 => "ADI",
        65 => "BKNG",
        66 => "C",
        67 => "SO",
        68 => "NEE",
        69 => "ZTS",
        70 => "TGT",
        71 => "DUK",
        72 => "ICE",
        73 => "BDX",
        74 => "PNC",
        75 => "CMCSA",
        76 => "SCHW",
        77 => "MDLZ",
        78 => "TJX",
        79 => "USB",
        80 => "CL",
        81 => "EMR",
        82 => "APD",
        83 => "COF",
        84 => "FDX",
        85 => "AON",
        86 => "WM",
        87 => "ECL",
        88 => "ITW",
        89 => "VRTX",
        90 => "D",
        91 => "NSC",
        92 => "PGR",
        93 => "ETN",
        94 => "FIS",
        95 => "PSA",
        96 => "KLAC",
        97 => "MCD",
        98 => "ADP",
        99 => "APTV",
        100 => "AEP",
        101 => "MCO",
        102 => "SHW",
        103 => "DD",
        104 => "ROP",
        105 => "SLB",
        106 => "HUM",
        107 => "BSX",
        108 => "NOC",
        109 => "EW",
        _ => "",
    }
}

/// Every name in the table is a run of capital letters.
pub proof fn lemma_ticker_names_are_symbols()
    ensures
        forall|i: usize| i < TICKER_COUNT ==> is_symbol(#[trigger] ticker_name(i)),
{
    reveal_strlit("AAPL");
    reveal_strlit("MSFT");
    reveal_strlit("GOOGL");
    reveal_strlit("AMZN");
    reveal_strlit("NVDA");
    reveal_strlit("META");
    reveal_strlit("TSLA");
    reveal_strlit("JPM");
    reveal_strlit("JNJ");
    reveal_strlit("V");
    reveal_strlit("PG");
    reveal_strlit("UNH");
    reveal_strlit("HD");
    reveal_strlit("DIS");
    reveal_strlit("PYPL");
    reveal_strlit("NFLX");
    reveal_strlit("ADBE");
    reveal_strlit("CRM");
    reveal_strlit("INTC");
    reveal_strlit("CSCO");
    reveal_strlit("PFE");
    reveal_strlit("ABT");
    reveal_strlit("TMO");
    reveal_strlit("ABBV");
    reveal_strlit("LLY");
    reveal_strlit("PEP");
    reveal_strlit("COST");
    reveal_strlit("TXN");
    reveal_strlit("AVGO");
    reveal_strlit("ACN");
    reveal_strlit("QCOM");
    reveal_strlit("DHR");
    reveal_strlit("MDT");
    reveal_strlit("NKE");
    reveal_strlit("UPS");
    reveal_strlit("RTX");
    reveal_strlit("HON");
    reveal_strlit("ORCL");
    reveal_strlit("LIN");
    reveal_strlit("AMGN");
    reveal_strlit("LOW");
    reveal_strlit("SBUX");
    reveal_strlit("SPGI");
    reveal_strlit("INTU");
    reveal_strlit("ISRG");
    reveal_strlit("T");
    reveal_strlit("BMY");
    reveal_strlit("DE");
    reveal_strlit("PLD");
    reveal_strlit("CI");
    reveal_strlit("CAT");
    reveal_strlit("GS");
    reveal_strlit("UNP");
    reveal_strlit("AMT");
    reveal_strlit("AXP");
    reveal_strlit("MS");
    reveal_strlit("BLK");
    reveal_strlit("GE");
    reveal_strlit("SYK");
    reveal_strlit("GILD");
    reveal_strlit("MMM");
    reveal_strlit("MO");
    reveal_strlit("LMT");
    reveal_strlit("FISV");
    reveal_strlit("ADI");
    reveal_strlit("BKNG");
    reveal_strlit("C");
    reveal_strlit("SO");
    reveal_strlit("NEE");
    reveal_strlit("ZTS");
    reveal_strlit("TGT");
    reveal_strlit("DUK");
    reveal_strlit("ICE");
    reveal_strlit("BDX");
    reveal_strlit("PNC");
    reveal_strlit("CMCSA");
    reveal_strlit("SCHW");
    reveal_strlit("MDLZ");
    reveal_strlit("TJX");
    reveal_strlit("USB");
    reveal_strlit("CL");
    reveal_strlit("EMR");
    reveal_strlit("APD");
    reveal_strlit("COF");
    reveal_strlit("FDX");
    reveal_strlit("AON");
    reveal_strlit("WM");
    reveal_strlit("ECL");
    reveal_strlit("ITW");
    reveal_strlit("VRTX");
    reveal_strlit("D");
    reveal_strlit("NSC");
    reveal_strlit("PGR");
    reveal_strlit("ETN");
    reveal_strlit("FIS");
    reveal_strlit("PSA");
    reveal_strlit("KLAC");
    reveal_strlit("MCD");
    reveal_strlit("ADP");
    reveal_strlit("APTV");
    reveal_strlit("AEP");
    reveal_strlit("MCO");
    reveal_strlit("SHW");
    reveal_strlit("DD");
    reveal_strlit("ROP");
    reveal_strlit("SLB");
    reveal_strlit("HUM");
    reveal_strlit("BSX");
    reveal_strlit("NOC");
    reveal_strlit("EW");
}

/// Every name the table accepts is a run of capital letters.
pub proof fn lemma_valid_ticker_is_symbol(s: Seq<char>)
    requires
        valid_ticker(s),
    ensures
        is_symbol(s),
{
    lemma_ticker_names_are_symbols();
    let i = choose|i: usize| i < TICKER_COUNT && #[trigger] ticker_name(i) == s;
    assert(is_symbol(ticker_name(i)));
}

/// The table's own ticker named `name`, if the table has one.
pub fn lookup_ticker(name: &str) -> (t: Option<&'static str>)
    ensures
        match t {
            Some(t) => valid_ticker(name@) && t@ == name@,
            None => !valid_ticker(name@),
        },
{
    let mut i: usize = 0;
    while i < TICKER_COUNT
        invariant
            i <= TICKER_COUNT,
            forall|j: usize| j < i ==> #[trigger] ticker_name(j) != name@,
        decreases TICKER_COUNT - i,
    {
        let t = ticker_at(i);
        if crate::text::str_equal(t, name) {
            assert(ticker_name(i) == name@);
            return Some(t);
        }
        i = i + 1;
    }
    assert(!valid_ticker(name@)) by {
        if valid_ticker(name@) {
            let k = choose|k: usize| k < TICKER_COUNT && #[trigger] ticker_name(k) == name@;
            assert(ticker_name(k) != name@);
        }
    }
    None
}

/// The first position at or after `i` whose name is `t`.
pub open spec fn index_from(t: Seq<char>, i: usize) -> Option<usize>
    decreases TICKER_COUNT - i,
{
    if i >= TICKER_COUNT {
        None
    } else if ticker_name(i) == t {
        Some(i)
    } else {
        index_from(t, (i + 1) as usize)
    }
}

/// The first position of the table whose name is `t`.
pub open spec fn table_index(t: Seq<char>) -> Option<usize> {
    index_from(t, 0)
}

/// A position found from `i` on holds the name, and no name before it does.
pub proof fn lemma_index_from(t: Seq<char>, i: usize)
    ensures
        match index_from(t, i) {
            Some(k) => i <= k < TICKER_COUNT && ticker_name(k) == t,
            None => forall|k: usize| i <= k < TICKER_COUNT ==> #[trigger] ticker_name(k) != t,
        },
    decreases TICKER_COUNT - i,
{
    if i < TICKER_COUNT && ticker_name(i) != t {
        lemma_index_from(t, (i + 1) as usize);
        if index_from(t, (i + 1) as usize) is None {
            assert forall|k: usize| i <= k < TICKER_COUNT implies #[trigger] ticker_name(k) != t by {
                if k == i {
                } else {
                    assert((i + 1) as usize <= k);
                }
            }
        }
    }
}

/// The first position of the table is found for exactly the table's names,
/// and holds the name.
pub proof fn lemma_table_index(t: Seq<char>)
    ensures
        match table_index(t) {
            Some(k) => k < TICKER_COUNT && ticker_name(k) == t && valid_ticker(t),
            None => !valid_ticker(t),
        },
{
    lemma_index_from(t, 0);
    if table_index(t) is None && valid_ticker(t) {
        let k = choose|k: usize| k < TICKER_COUNT && #[trigger] ticker_name(k) == t;
        assert(ticker_name(k) != t);
    }
}

/// The first position of the table whose name is `name`.
pub fn ticker_index(name: &str) -> (r: Option<usize>)
    ensures
        r == table_index(name@),
{
    let mut i: usize = 0;
    while i < TICKER_COUNT
        invariant
            i <= TICKER_COUNT,
            table_index(name@) == index_from(name@, i),
        decreases TICKER_COUNT - i,
    {
        if crate::text::str_equal(ticker_at(i), name) {
            return Some(i);
        }
        i = i + 1;
    }
    None
}

} // verus!
