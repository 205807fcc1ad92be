//! Data rates and the digits that the module uses for them.

use crate::text::{is_token, text};
use vstd::prelude::*;
use vstd::std_specs::convert::{FromSpecImpl, TryFromSpecImpl};

verus! {

/// The data rates valid in Europe and China.
///
/// Frequencies:
///
/// - EU 863–870 MHz (LoRaWAN Specification (2015), Page 35, Table 14)
/// - CN 779–787 MHz (LoRaWAN Specification (2015), Page 44, Table 25)
/// - EU 433 MHz (LoRaWAN Specification (2015), Page 48, Table 31)
#[derive(Debug, PartialEq, Eq, Copy, Clone)]
pub enum DataRateEuCn {
    /// Data Rate 0: SF 12 BW 125 (250 bit/s)
    Sf12Bw125,
    /// Data Rate 1: SF 11 BW 125 (440 bit/s)
    Sf11Bw125,
    /// Data Rate 2: SF 10 BW 125 (980 bit/s)
    Sf10Bw125,
    /// Data Rate 3: SF 9 BW 125 (1760 bit/s)
    Sf9Bw125,
    /// Data Rate 4: SF 8 BW 125 (3125 bit/s)
    Sf8Bw125,
    /// Data Rate 5: SF 7 BW 125 (5470 bit/s)
    Sf7Bw125,
    /// Data Rate 6: SF 7 BW 250 (11000 bit/s)
    Sf7Bw250,
}

/// The text that the module uses for a data rate of Europe and China.
pub open spec fn eu_cn_text(dr: DataRateEuCn) -> &'static str {
    match dr {
        DataRateEuCn::Sf12Bw125 => "0",
        DataRateEuCn::Sf11Bw125 => "1",
        DataRateEuCn::Sf10Bw125 => "2",
        DataRateEuCn::Sf9Bw125 => "3",
        DataRateEuCn::Sf8Bw125 => "4",
        DataRateEuCn::Sf7Bw125 => "5",
        DataRateEuCn::Sf7Bw250 => "6",
    }
}

impl From<DataRateEuCn> for &str {
    fn from(dr: DataRateEuCn) -> (r: Self) {
        match dr {
            DataRateEuCn::Sf12Bw125 => "0",
            DataRateEuCn::Sf11Bw125 => "1",
            DataRateEuCn::Sf10Bw125 => "2",
            DataRateEuCn::Sf9Bw125 => "3",
            DataRateEuCn::Sf8Bw125 => "4",
            DataRateEuCn::Sf7Bw125 => "5",
            DataRateEuCn::Sf7Bw250 => "6",
        }
    }
}

impl FromSpecImpl<DataRateEuCn> for &str {
    open spec fn obeys_from_spec() -> bool {
        true
    }

    open spec fn from_spec(dr: DataRateEuCn) -> Self {
        eu_cn_text(dr)
    }
}

/// The data rate of Europe and China that a text stands for, if any.
pub open spec fn eu_cn_of(val: Seq<u8>) -> Result<DataRateEuCn, ()> {
    if val == text("0") {
        Ok(DataRateEuCn::Sf12Bw125)
    } else if val == text("1") {
        Ok(DataRateEuCn::Sf11Bw125)
    } else if val == text("2") {
        Ok(DataRateEuCn::Sf10Bw125)
    } else if val == text("3") {
        Ok(DataRateEuCn::Sf9Bw125)
    } else if val == text("4") {
        Ok(DataRateEuCn::Sf8Bw125)
    } else if val == text("5") {
        Ok(DataRateEuCn::Sf7Bw125)
    } else if val == text("6") {
        Ok(DataRateEuCn::Sf7Bw250)
    } else {
        Err(())
    }
}

impl TryFrom<&str> for DataRateEuCn {
    type Error = ();

    fn try_from(val: &str) -> (r: Result<Self, Self::Error>) {
        let bytes = val.as_bytes();
        if is_token(bytes, "0") {
            Ok(DataRateEuCn::Sf12Bw125)
        } else if is_token(bytes, "1") {
            Ok(DataRateEuCn::Sf11Bw125)
        } else if is_token(bytes, "2") {
            Ok(DataRateEuCn::Sf10Bw125)
        } else if is_token(bytes, "3") {
            Ok(DataRateEuCn::Sf9Bw125)
        } else if is_token(bytes, "4") {
            Ok(DataRateEuCn::Sf8Bw125)
        } else if is_token(bytes, "5") {
            Ok(DataRateEuCn::Sf7Bw125)
        } else if is_token(bytes, "6") {
            Ok(DataRateEuCn::Sf7Bw250)
        } else {
            Err(())
        }
    }
}

impl TryFromSpecImpl<&str> for DataRateEuCn {
    open spec fn obeys_try_from_spec() -> bool {
        true
    }

    open spec fn try_from_spec(val: &str) -> Result<Self, Self::Error> {
        eu_cn_of(text(val))
    }
}

/// The data rates valid in the USA.
///
/// Frequencies:
///
/// - US 902–928 MHz (LoRaWAN Specification (2015), Page 40, Table 18)
#[derive(Debug, PartialEq, Eq, Copy, Clone)]
pub enum DataRateUs {
    /// Data Rate 0: SF 10 BW 125 (980 bit/s)
    Sf10Bw125,
    /// Data Rate 1: SF 9 BW 125 (1760 bit/s)
    Sf9Bw125,
    /// Data Rate 2: SF 8 BW 125 (3125 bit/s)
    Sf8Bw125,
    /// Data Rate 3: SF 7 BW 125 (5470 bit/s)
    Sf7Bw125,
    /// Data Rate 4: SF 8 BW 500 (12500 bit/s)
    Sf8Bw500,
}

/// The text that the module uses for a data rate of the USA.
pub open spec fn us_text(dr: DataRateUs) -> &'static str {
    match dr {
        DataRateUs::Sf10Bw125 => "0",
        DataRateUs::Sf9Bw125 => "1",
        DataRateUs::Sf8Bw125 => "2",
        DataRateUs::Sf7Bw125 => "3",
        DataRateUs::Sf8Bw500 => "4",
    }
}

impl From<DataRateUs> for &str {
    fn from(dr: DataRateUs) -> (r: Self) {
        match dr {
            DataRateUs::Sf10Bw125 => "0",
            DataRateUs::Sf9Bw125 => "1",
            DataRateUs::Sf8Bw125 => "2",
            DataRateUs::Sf7Bw125 => "3",
            DataRateUs::Sf8Bw500 => "4",
        }
    }
}

impl FromSpecImpl<DataRateUs> for &str {
    open spec fn obeys_from_spec() -> bool {
        true
    }

    open spec fn from_spec(dr: DataRateUs) -> Self {
        us_text(dr)
    }
}

/// The data rate of the USA that a text stands for, if any.
pub open spec fn us_of(val: Seq<u8>) -> Result<DataRateUs, ()> {
    if val == text("0") {
        Ok(DataRateUs::Sf10Bw125)
    } else if val == text("1") {
        Ok(DataRateUs::Sf9Bw125)
    } else if val == text("2") {
        Ok(DataRateUs::Sf8Bw125)
    } else if val == text("3") {
        Ok(DataRateUs::Sf7Bw125)
    } else if val == text("4") {
        Ok(DataRateUs::Sf8Bw500)
    } else {
        Err(())
    }
}

impl TryFrom<&str> for DataRateUs {
    type Error = ();

    fn try_from(val: &str) -> (r: Result<Self, Self::Error>) {
        let bytes = val.as_bytes();
        if is_token(bytes, "0") {
            Ok(DataRateUs::Sf10Bw125)
        } else if is_token(bytes, "1") {
            Ok(DataRateUs::Sf9Bw125)
        } else if is_token(bytes, "2") {
            Ok(DataRateUs::Sf8Bw125)
        } else if is_token(bytes, "3") {
            Ok(DataRateUs::Sf7Bw125)
        } else if is_token(bytes, "4") {
            Ok(DataRateUs::Sf8Bw500)
        } else {
            Err(())
        }
    }
}

impl TryFromSpecImpl<&str> for DataRateUs {
    open spec fn obeys_try_from_spec() -> bool {
        true
    }

    open spec fn try_from_spec(val: &str) -> Result<Self, Self::Error> {
        us_of(text(val))
    }
}

} // verus!
