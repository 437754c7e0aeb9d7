//! Text rendering of samples for the listing operation.
//!
//! Each sample renders as one line: its dimension and chunk coordinates,
//! then a variant-specific description.  The decimal rendering of the
//! integer fields is specified and verified down to the digits.

use vstd::prelude::*;

use crate::sample::{ImmersiveSampleData, ImmersiveSampleDataV, Sample, SampleData, SampleDataV,
    SampleV};

verus! {

/// The ASCII digit character for a value below ten.
pub open spec fn spec_digit(d: nat) -> char
    recommends
        d < 10,
{
    if d == 0 {
        '0'
    } else if d == 1 {
        '1'
    } else if d == 2 {
        '2'
    } else if d == 3 {
        '3'
    } else if d == 4 {
        '4'
    } else if d == 5 {
        '5'
    } else if d == 6 {
        '6'
    } else if d == 7 {
        '7'
    } else if d == 8 {
        '8'
    } else {
        '9'
    }
}

/// The decimal digits of an unsigned value, most significant first.
pub open spec fn spec_dec_nat(n: nat) -> Seq<char>
    decreases n,
{
    if n < 10 {
        seq![spec_digit(n)]
    } else {
        spec_dec_nat(n / 10).push(spec_digit(n % 10))
    }
}

/// The decimal rendering of a signed value: a minus sign, if negative, then
/// the digits of the magnitude.
pub open spec fn spec_dec_int(n: int) -> Seq<char> {
    if n < 0 {
        seq!['-'] + spec_dec_nat((-n) as nat)
    } else {
        spec_dec_nat(n as nat)
    }
}

/// The rendered description of an Immersive payload.
pub open spec fn spec_render_immersive(d: ImmersiveSampleDataV) -> Seq<char> {
    d.mineral + ", "@ + d.liquid + ", timestamp "@ + spec_dec_nat(d.timestamp as nat)
}

/// The rendered description of a payload: its mod label, then its fields.
pub open spec fn spec_render_data(d: SampleDataV) -> Seq<char> {
    match d {
        SampleDataV::Immersive(i) => "Immersive "@ + spec_render_immersive(i),
        SampleDataV::TerraFirmaCraft(o) => "TFC "@ + o,
        SampleDataV::Geolosys(o) => "Geolosys "@ + o,
    }
}

/// The rendered line for a sample: its key, then its payload description.
pub open spec fn spec_render_sample(s: SampleV) -> Seq<char> {
    "Dimension "@ + spec_dec_int(s.dimension as int) + ", X="@ + spec_dec_int(s.x as int) + ", Z="@
        + spec_dec_int(s.z as int) + ": "@ + spec_render_data(s.data)
}

/// The one-character string for a decimal digit.
fn digit_str(d: u64) -> (r: &'static str)
    requires
        d < 10,
    ensures
        r@ == seq![spec_digit(d as nat)],
{
    if d == 0 {
        proof {
            reveal_strlit("0");
            assert("0"@ =~= seq!['0']);
        }
        "0"
    } else if d == 1 {
        proof {
            reveal_strlit("1");
            assert("1"@ =~= seq!['1']);
        }
        "1"
    } else if d == 2 {
        proof {
            reveal_strlit("2");
            assert("2"@ =~= seq!['2']);
        }
        "2"
    } else if d == 3 {
        proof {
            reveal_strlit("3");
            assert("3"@ =~= seq!['3']);
        }
        "3"
    } else if d == 4 {
        proof {
            reveal_strlit("4");
            assert("4"@ =~= seq!['4']);
        }
        "4"
    } else if d == 5 {
        proof {
            reveal_strlit("5");
            assert("5"@ =~= seq!['5']);
        }
        "5"
    } else if d == 6 {
        proof {
            reveal_strlit("6");
            assert("6"@ =~= seq!['6']);
        }
        "6"
    } else if d == 7 {
        proof {
            reveal_strlit("7");
            assert("7"@ =~= seq!['7']);
        }
        "7"
    } else if d == 8 {
        proof {
            reveal_strlit("8");
            assert("8"@ =~= seq!['8']);
        }
        "8"
    } else {
        proof {
            reveal_strlit("9");
            assert("9"@ =~= seq!['9']);
        }
        "9"
    }
}

/// Renders an unsigned value in decimal.
pub fn u64_to_string(n: u64) -> (r: String)
    ensures
        r@ == spec_dec_nat(n as nat),
    decreases n,
{
    if n < 10 {
        digit_str(n).to_owned()
    } else {
        proof {
            assert(n / 10 < n) by (nonlinear_arith)
                requires
                    n >= 10,
            ;
        }
        let mut s = u64_to_string(n / 10);
        s.append(digit_str(n % 10));
        proof {
            assert(spec_dec_nat((n / 10) as nat).push(spec_digit((n % 10) as nat)) =~= spec_dec_nat(
                (n / 10) as nat,
            ) + seq![spec_digit((n % 10) as nat)]);
        }
        s
    }
}

/// Renders a signed value in decimal.
pub fn i32_to_string(n: i32) -> (r: String)
    ensures
        r@ == spec_dec_int(n as int),
{
    if n < 0 {
        let mag = -(n as i64);
        let mut s = "-".to_owned();
        s.append(u64_to_string(mag as u64).as_str());
        proof {
            reveal_strlit("-");
            assert("-"@ =~= seq!['-']);
        }
        s
    } else {
        u64_to_string(n as u64)
    }
}

impl ImmersiveSampleData {
    /// Renders the payload as its mineral, liquid and timestamp.
    pub fn render(&self) -> (r: String)
        ensures
            r@ == spec_render_immersive(self@),
    {
        let mut s = self.mineral.clone();
        s.append(", ");
        s.append(self.liquid.as_str());
        s.append(", timestamp ");
        s.append(u64_to_string(self.timestamp).as_str());
        s
    }
}

impl SampleData {
    /// Renders the payload with its mod label.
    pub fn render(&self) -> (r: String)
        ensures
            r@ == spec_render_data(self@),
    {
        match self {
            SampleData::Immersive(d) => {
                let mut s = "Immersive ".to_owned();
                s.append(d.render().as_str());
                s
            },
            SampleData::TerraFirmaCraft(o) => {
                let mut s = "TFC ".to_owned();
                s.append(o.as_str());
                s
            },
            SampleData::Geolosys(o) => {
                let mut s = "Geolosys ".to_owned();
                s.append(o.as_str());
                s
            },
        }
    }
}

impl Sample {
    /// Renders the sample as one line: its key, then its payload.
    pub fn render(&self) -> (r: String)
        ensures
            r@ == spec_render_sample(self@),
    {
        let mut s = "Dimension ".to_owned();
        s.append(i32_to_string(self.dimension).as_str());
        s.append(", X=");
        s.append(i32_to_string(self.x).as_str());
        s.append(", Z=");
        s.append(i32_to_string(self.z).as_str());
        s.append(": ");
        s.append(self.data.render().as_str());
        s
    }
}

} // verus!
