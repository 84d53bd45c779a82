use vstd::prelude::*;

use crate::lexical::str_equals;

verus! {

/// A bidding zone of the European electricity market: an area with one
/// clearing price, known by its Energy Identification Code (EIC).
#[derive(Debug, Clone, Copy, PartialEq, Eq, Hash, Structural)]
pub enum BiddingZone {
    DE,
    AT,
    BE,
    DK1,
    DK2,
    FI,
    FR,
    ITNorth,
    NL,
    NO1,
    NO2,
    NO3,
    NO4,
    NO5,
    PL,
    ES,
    SE1,
    SE2,
    SE3,
    SE4,
    CH,
    GB,
}

/// What `str::to_uppercase` makes of the text.
pub uninterp spec fn upper_of(s: Seq<char>) -> Seq<char>;

/// Relies on str::to_uppercase: the text in upper case, which depends on
/// the characters alone.
#[verifier::external_body]
fn uppercase(s: &str) -> (r: String)
    ensures
        r@ == upper_of(s@),
{
    s.to_uppercase()
}

/// The EIC of a zone.
pub open spec fn eic_of(z: BiddingZone) -> Seq<char> {
    match z {
        BiddingZone::DE => "10Y1001A1001A82H"@,
        BiddingZone::AT => "10YAT-APG------L"@,
        BiddingZone::BE => "10YBE----------2"@,
        BiddingZone::DK1 => "10YDK-1--------W"@,
        BiddingZone::DK2 => "10YDK-2--------M"@,
        BiddingZone::FI => "10YFI-1--------U"@,
        BiddingZone::FR => "10YFR-RTE------C"@,
        BiddingZone::ITNorth => "10Y1001A1001A73I"@,
        BiddingZone::NL => "10YNL----------L"@,
        BiddingZone::NO1 => "10YNO-1--------2"@,
        BiddingZone::NO2 => "10YNO-2--------T"@,
        BiddingZone::NO3 => "10YNO-3--------J"@,
        BiddingZone::NO4 => "10YNO-4--------9"@,
        BiddingZone::NO5 => "10Y1001A1001A48H"@,
        BiddingZone::PL => "10YPL-AREA-----S"@,
        BiddingZone::ES => "10YES-REE------0"@,
        BiddingZone::SE1 => "10Y1001A1001A44P"@,
        BiddingZone::SE2 => "10Y1001A1001A45N"@,
        BiddingZone::SE3 => "10Y1001A1001A46L"@,
        BiddingZone::SE4 => "10Y1001A1001A47J"@,
        BiddingZone::CH => "10YCH-SWISSGRIDZ"@,
        BiddingZone::GB => "10YGB----------A"@,
    }
}

/// The short code of a zone.
pub open spec fn code_of(z: BiddingZone) -> Seq<char> {
    match z {
        BiddingZone::DE => "DE"@,
        BiddingZone::AT => "AT"@,
        BiddingZone::BE => "BE"@,
        BiddingZone::DK1 => "DK1"@,
        BiddingZone::DK2 => "DK2"@,
        BiddingZone::FI => "FI"@,
        BiddingZone::FR => "FR"@,
        BiddingZone::ITNorth => "IT-North"@,
        BiddingZone::NL => "NL"@,
        BiddingZone::NO1 => "NO1"@,
        BiddingZone::NO2 => "NO2"@,
        BiddingZone::NO3 => "NO3"@,
        BiddingZone::NO4 => "NO4"@,
        BiddingZone::NO5 => "NO5"@,
        BiddingZone::PL => "PL"@,
        BiddingZone::ES => "ES"@,
        BiddingZone::SE1 => "SE1"@,
        BiddingZone::SE2 => "SE2"@,
        BiddingZone::SE3 => "SE3"@,
        BiddingZone::SE4 => "SE4"@,
        BiddingZone::CH => "CH"@,
        BiddingZone::GB => "GB"@,
    }
}

/// The zone that an upper-case code names, if any.
pub open spec fn zone_of_upper(s: Seq<char>) -> Option<BiddingZone> {
    if s == "DE"@ {
        Some(BiddingZone::DE)
    } else if s == "AT"@ {
        Some(BiddingZone::AT)
    } else if s == "BE"@ {
        Some(BiddingZone::BE)
    } else if s == "DK1"@ {
        Some(BiddingZone::DK1)
    } else if s == "DK2"@ {
        Some(BiddingZone::DK2)
    } else if s == "FI"@ {
        Some(BiddingZone::FI)
    } else if s == "FR"@ {
        Some(BiddingZone::FR)
    } else if s == "IT-NORTH"@ || s == "ITNORTH"@ {
        Some(BiddingZone::ITNorth)
    } else if s == "NL"@ {
        Some(BiddingZone::NL)
    } else if s == "NO1"@ {
        Some(BiddingZone::NO1)
    } else if s == "NO2"@ {
        Some(BiddingZone::NO2)
    } else if s == "NO3"@ {
        Some(BiddingZone::NO3)
    } else if s == "NO4"@ {
        Some(BiddingZone::NO4)
    } else if s == "NO5"@ {
        Some(BiddingZone::NO5)
    } else if s == "PL"@ {
        Some(BiddingZone::PL)
    } else if s == "ES"@ {
        Some(BiddingZone::ES)
    } else if s == "SE1"@ {
        Some(BiddingZone::SE1)
    } else if s == "SE2"@ {
        Some(BiddingZone::SE2)
    } else if s == "SE3"@ {
        Some(BiddingZone::SE3)
    } else if s == "SE4"@ {
        Some(BiddingZone::SE4)
    } else if s == "CH"@ {
        Some(BiddingZone::CH)
    } else if s == "GB"@ {
        Some(BiddingZone::GB)
    } else {
        None
    }
}

impl BiddingZone {
    /// The Energy Identification Code of this zone.
    pub fn eic_code(&self) -> (r: &'static str)
        ensures
            r@ == eic_of(*self),
    {
        match self {
            BiddingZone::DE => "10Y1001A1001A82H",
            BiddingZone::AT => "10YAT-APG------L",
            BiddingZone::BE => "10YBE----------2",
            BiddingZone::DK1 => "10YDK-1--------W",
            BiddingZone::DK2 => "10YDK-2--------M",
            BiddingZone::FI => "10YFI-1--------U",
            BiddingZone::FR => "10YFR-RTE------C",
            BiddingZone::ITNorth => "10Y1001A1001A73I",
            BiddingZone::NL => "10YNL----------L",
            BiddingZone::NO1 => "10YNO-1--------2",
            BiddingZone::NO2 => "10YNO-2--------T",
            BiddingZone::NO3 => "10YNO-3--------J",
            BiddingZone::NO4 => "10YNO-4--------9",
            BiddingZone::NO5 => "10Y1001A1001A48H",
            BiddingZone::PL => "10YPL-AREA-----S",
            BiddingZone::ES => "10YES-REE------0",
            BiddingZone::SE1 => "10Y1001A1001A44P",
            BiddingZone::SE2 => "10Y1001A1001A45N",
            BiddingZone::SE3 => "10Y1001A1001A46L",
            BiddingZone::SE4 => "10Y1001A1001A47J",
            BiddingZone::CH => "10YCH-SWISSGRIDZ",
            BiddingZone::GB => "10YGB----------A",
        }
    }

    /// The zone that an upper-case code names (`IT-NORTH` or `ITNORTH` for
    /// northern Italy).
    pub fn from_upper_code(code: &str) -> (r: Option<BiddingZone>)
        ensures
            r == zone_of_upper(code@),
    {
        if str_equals(code, "DE") {
            Some(BiddingZone::DE)
        } else if str_equals(code, "AT") {
            Some(BiddingZone::AT)
        } else if str_equals(code, "BE") {
            Some(BiddingZone::BE)
        } else if str_equals(code, "DK1") {
            Some(BiddingZone::DK1)
        } else if str_equals(code, "DK2") {
            Some(BiddingZone::DK2)
        } else if str_equals(code, "FI") {
            Some(BiddingZone::FI)
        } else if str_equals(code, "FR") {
            Some(BiddingZone::FR)
        } else if str_equals(code, "IT-NORTH") || str_equals(code, "ITNORTH") {
            Some(BiddingZone::ITNorth)
        } else if str_equals(code, "NL") {
            Some(BiddingZone::NL)
        } else if str_equals(code, "NO1") {
            Some(BiddingZone::NO1)
        } else if str_equals(code, "NO2") {
            Some(BiddingZone::NO2)
        } else if str_equals(code, "NO3") {
            Some(BiddingZone::NO3)
        } else if str_equals(code, "NO4") {
            Some(BiddingZone::NO4)
        } else if str_equals(code, "NO5") {
            Some(BiddingZone::NO5)
        } else if str_equals(code, "PL") {
            Some(BiddingZone::PL)
        } else if str_equals(code, "ES") {
            Some(BiddingZone::ES)
        } else if str_equals(code, "SE1") {
            Some(BiddingZone::SE1)
        } else if str_equals(code, "SE2") {
            Some(BiddingZone::SE2)
        } else if str_equals(code, "SE3") {
            Some(BiddingZone::SE3)
        } else if str_equals(code, "SE4") {
            Some(BiddingZone::SE4)
        } else if str_equals(code, "CH") {
            Some(BiddingZone::CH)
        } else if str_equals(code, "GB") {
            Some(BiddingZone::GB)
        } else {
            None
        }
    }

    /// The zone that a code names, in upper or lower case.
    pub fn from_code(code: &str) -> (r: Option<BiddingZone>)
        ensures
            r == zone_of_upper(upper_of(code@)),
    {
        let upper = uppercase(code);
        BiddingZone::from_upper_code(upper.as_str())
    }

    /// The short code of this zone.
    pub fn code(&self) -> (r: &'static str)
        ensures
            r@ == code_of(*self),
    {
        match self {
            BiddingZone::DE => "DE",
            BiddingZone::AT => "AT",
            BiddingZone::BE => "BE",
            BiddingZone::DK1 => "DK1",
            BiddingZone::DK2 => "DK2",
            BiddingZone::FI => "FI",
            BiddingZone::FR => "FR",
            BiddingZone::ITNorth => "IT-North",
            BiddingZone::NL => "NL",
            BiddingZone::NO1 => "NO1",
            BiddingZone::NO2 => "NO2",
            BiddingZone::NO3 => "NO3",
            BiddingZone::NO4 => "NO4",
            BiddingZone::NO5 => "NO5",
            BiddingZone::PL => "PL",
            BiddingZone::ES => "ES",
            BiddingZone::SE1 => "SE1",
            BiddingZone::SE2 => "SE2",
            BiddingZone::SE3 => "SE3",
            BiddingZone::SE4 => "SE4",
            BiddingZone::CH => "CH",
            BiddingZone::GB => "GB",
        }
    }

    /// The short code of this zone, owned.
    pub fn to_string(&self) -> (r: String)
        ensures
            r@ == code_of(*self),
    {
        self.code().to_owned()
    }

    /// Every zone, in declaration order.
    pub fn all_zones() -> (r: Vec<BiddingZone>)
        ensures
            r@.len() == 22,
            forall|z: BiddingZone| r@.contains(z),
    {
        let r = vec![
            BiddingZone::DE,
            BiddingZone::AT,
            BiddingZone::BE,
            BiddingZone::DK1,
            BiddingZone::DK2,
            BiddingZone::FI,
            BiddingZone::FR,
            BiddingZone::ITNorth,
            BiddingZone::NL,
            BiddingZone::NO1,
            BiddingZone::NO2,
            BiddingZone::NO3,
            BiddingZone::NO4,
            BiddingZone::NO5,
            BiddingZone::PL,
            BiddingZone::ES,
            BiddingZone::SE1,
            BiddingZone::SE2,
            BiddingZone::SE3,
            BiddingZone::SE4,
            BiddingZone::CH,
            BiddingZone::GB,
        ];
        assert forall|z: BiddingZone| r@.contains(z) by {
            match z {
                BiddingZone::DE => assert(r@[0] == z),
                BiddingZone::AT => assert(r@[1] == z),
                BiddingZone::BE => assert(r@[2] == z),
                BiddingZone::DK1 => assert(r@[3] == z),
                BiddingZone::DK2 => assert(r@[4] == z),
                BiddingZone::FI => assert(r@[5] == z),
                BiddingZone::FR => assert(r@[6] == z),
                BiddingZone::ITNorth => assert(r@[7] == z),
                BiddingZone::NL => assert(r@[8] == z),
                BiddingZone::NO1 => assert(r@[9] == z),
                BiddingZone::NO2 => assert(r@[10] == z),
                BiddingZone::NO3 => assert(r@[11] == z),
                BiddingZone::NO4 => assert(r@[12] == z),
                BiddingZone::NO5 => assert(r@[13] == z),
                BiddingZone::PL => assert(r@[14] == z),
                BiddingZone::ES => assert(r@[15] == z),
                BiddingZone::SE1 => assert(r@[16] == z),
                BiddingZone::SE2 => assert(r@[17] == z),
                BiddingZone::SE3 => assert(r@[18] == z),
                BiddingZone::SE4 => assert(r@[19] == z),
                BiddingZone::CH => assert(r@[20] == z),
                BiddingZone::GB => assert(r@[21] == z),
            }
        }
        r
    }
}

} // verus!
