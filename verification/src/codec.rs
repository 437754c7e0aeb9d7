//! Byte-exact encoding and decoding of sample lists.
//!
//! The wire format, big-endian throughout:
//!
//! ```text
//! File    := count:u32 Record[count]
//! Record  := discriminant:u32 dimension:i32 x:i32 z:i32 Payload(discriminant)
//! Payload(0) := mineral:LString liquid:LString timestamp:u64   (Immersive)
//! Payload(1) := ore:LString                                    (TerraFirmaCraft)
//! Payload(2) := ore:LString                                    (Geolosys)
//! LString := length:u16 bytes:u8[length]                       (UTF-8)
//! ```
//!
//! Every operation is specified against the `spec_read_*` / `spec_write_*`
//! functions below, and the round-trip law `lemma_read_write_list` shows that
//! decoding an encoded list gives the list back.

use vstd::prelude::*;
use vstd::utf8::{decode_utf8, encode_utf8, encode_utf8_decode_utf8, encode_utf8_valid_utf8,
    valid_utf8};

use crate::sample::{ImmersiveSampleData, ImmersiveSampleDataV, Sample, SampleData, SampleDataV,
    SampleV};
use crate::wire::{lemma_i32_bits_roundtrip, lemma_u16_be_roundtrip, lemma_u32_be_roundtrip,
    lemma_u64_be_roundtrip, read_i32_be, read_u16_be, read_u32_be, read_u64_be, spec_be16,
    spec_be32, spec_be64, spec_i32_bits, spec_i32_from_bits, spec_u16_be_bytes, spec_u32_be_bytes,
    spec_u64_be_bytes, write_i32_be, write_u16_be, write_u32_be, write_u64_be};

verus! {

/// A malformed byte stream or an unencodable in-memory value.
#[derive(Clone, Copy, Debug, PartialEq, Eq, Structural)]
pub enum FormatError {
    /// The stream ended before the declared contents were read.
    Truncated,
    /// A record's discriminant is not 0, 1 or 2.
    InvalidDiscriminant,
    /// A string's bytes are not valid UTF-8.
    InvalidUtf8,
    /// A string's UTF-8 byte length does not fit the 16-bit length prefix.
    StringTooLong,
    /// The list length does not fit the 32-bit count field.
    TooManySamples,
}

/// Whether a string's UTF-8 byte length fits the 16-bit length prefix.
pub open spec fn string_fits(s: Seq<char>) -> bool {
    encode_utf8(s).len() <= 0xFFFF
}

/// The encoding of a length-prefixed string.
pub open spec fn spec_write_string(s: Seq<char>) -> Seq<u8> {
    spec_u16_be_bytes(encode_utf8(s).len() as u16) + encode_utf8(s)
}

/// Whether both strings of an Immersive payload fit their length prefixes.
pub open spec fn immersive_fits(d: ImmersiveSampleDataV) -> bool {
    string_fits(d.mineral) && string_fits(d.liquid)
}

/// The encoding of an Immersive payload.
pub open spec fn spec_write_immersive(d: ImmersiveSampleDataV) -> Seq<u8> {
    spec_write_string(d.mineral) + spec_write_string(d.liquid) + spec_u64_be_bytes(d.timestamp)
}

/// The discriminant stored for each payload variant.
pub open spec fn spec_discriminant(d: SampleDataV) -> u32 {
    match d {
        SampleDataV::Immersive(_) => 0,
        SampleDataV::TerraFirmaCraft(_) => 1,
        SampleDataV::Geolosys(_) => 2,
    }
}

/// Whether every string of a sample fits its length prefix.
pub open spec fn sample_fits(s: SampleV) -> bool {
    match s.data {
        SampleDataV::Immersive(d) => immersive_fits(d),
        SampleDataV::TerraFirmaCraft(ore) => string_fits(ore),
        SampleDataV::Geolosys(ore) => string_fits(ore),
    }
}

/// The encoding of one record: discriminant, dimension, x, z, payload.
pub open spec fn spec_write_sample(s: SampleV) -> Seq<u8> {
    spec_u32_be_bytes(spec_discriminant(s.data)) + spec_u32_be_bytes(spec_i32_bits(s.dimension))
        + spec_u32_be_bytes(spec_i32_bits(s.x)) + spec_u32_be_bytes(spec_i32_bits(s.z)) + match s
        .data {
        SampleDataV::Immersive(d) => spec_write_immersive(d),
        SampleDataV::TerraFirmaCraft(ore) => spec_write_string(ore),
        SampleDataV::Geolosys(ore) => spec_write_string(ore),
    }
}

/// The concatenated encodings of a sequence of records.
pub open spec fn spec_write_samples(l: Seq<SampleV>) -> Seq<u8>
    decreases l.len(),
{
    if l.len() == 0 {
        Seq::empty()
    } else {
        spec_write_sample(l[0]) + spec_write_samples(l.drop_first())
    }
}

/// Whether a list is encodable: its length fits the count field and every
/// sample's strings fit their length prefixes.
pub open spec fn list_fits(l: Seq<SampleV>) -> bool {
    &&& l.len() <= 0xFFFF_FFFF
    &&& forall|i: int| 0 <= i < l.len() ==> sample_fits(#[trigger] l[i])
}

/// The encoding of a whole list: the count, then each record in order.
pub open spec fn spec_write_list(l: Seq<SampleV>) -> Seq<u8> {
    spec_u32_be_bytes(l.len() as u32) + spec_write_samples(l)
}

/// The result of reading a length-prefixed string at `pos`: the characters
/// and the position after them, or the error the stream deserves.
pub open spec fn spec_read_string(b: Seq<u8>, pos: int) -> Result<(Seq<char>, int), FormatError> {
    if pos + 2 > b.len() {
        Err(FormatError::Truncated)
    } else {
        let n = spec_be16(b.subrange(pos, pos + 2)) as int;
        if pos + 2 + n > b.len() {
            Err(FormatError::Truncated)
        } else {
            let sb = b.subrange(pos + 2, pos + 2 + n);
            if valid_utf8(sb) {
                Ok((decode_utf8(sb), pos + 2 + n))
            } else {
                Err(FormatError::InvalidUtf8)
            }
        }
    }
}

/// The result of reading an Immersive payload at `pos`.
pub open spec fn spec_read_immersive(b: Seq<u8>, pos: int) -> Result<
    (ImmersiveSampleDataV, int),
    FormatError,
> {
    match spec_read_string(b, pos) {
        Err(e) => Err(e),
        Ok((mineral, p1)) => match spec_read_string(b, p1) {
            Err(e) => Err(e),
            Ok((liquid, p2)) => if p2 + 8 > b.len() {
                Err(FormatError::Truncated)
            } else {
                Ok(
                    (
                        ImmersiveSampleDataV {
                            mineral,
                            liquid,
                            timestamp: spec_be64(b.subrange(p2, p2 + 8)),
                        },
                        p2 + 8,
                    ),
                )
            },
        },
    }
}

/// The result of reading one record at `pos`.
pub open spec fn spec_read_sample(b: Seq<u8>, pos: int) -> Result<(SampleV, int), FormatError> {
    if pos + 4 > b.len() {
        Err(FormatError::Truncated)
    } else {
        let disc = spec_be32(b.subrange(pos, pos + 4));
        if disc > 2 {
            Err(FormatError::InvalidDiscriminant)
        } else if pos + 16 > b.len() {
            Err(FormatError::Truncated)
        } else {
            let dimension = spec_i32_from_bits(spec_be32(b.subrange(pos + 4, pos + 8)));
            let x = spec_i32_from_bits(spec_be32(b.subrange(pos + 8, pos + 12)));
            let z = spec_i32_from_bits(spec_be32(b.subrange(pos + 12, pos + 16)));
            if disc == 0 {
                match spec_read_immersive(b, pos + 16) {
                    Err(e) => Err(e),
                    Ok((d, p)) => Ok(
                        (SampleV { dimension, x, z, data: SampleDataV::Immersive(d) }, p),
                    ),
                }
            } else {
                match spec_read_string(b, pos + 16) {
                    Err(e) => Err(e),
                    Ok((ore, p)) => Ok(
                        (
                            SampleV {
                                dimension,
                                x,
                                z,
                                data: if disc == 1 {
                                    SampleDataV::TerraFirmaCraft(ore)
                                } else {
                                    SampleDataV::Geolosys(ore)
                                },
                            },
                            p,
                        ),
                    ),
                }
            }
        }
    }
}

/// The result of reading `n` consecutive records starting at `pos`.
pub open spec fn spec_read_samples(b: Seq<u8>, pos: int, n: nat) -> Result<
    (Seq<SampleV>, int),
    FormatError,
>
    decreases n,
{
    if n == 0 {
        Ok((Seq::empty(), pos))
    } else {
        match spec_read_sample(b, pos) {
            Err(e) => Err(e),
            Ok((s, p)) => match spec_read_samples(b, p, (n - 1) as nat) {
                Err(e) => Err(e),
                Ok((rest, q)) => Ok((seq![s] + rest, q)),
            },
        }
    }
}

/// The result of decoding a whole stream: the count, then that many records.
/// Trailing bytes after the last record are deliberately ignored.
pub open spec fn spec_read_list(b: Seq<u8>) -> Result<Seq<SampleV>, FormatError> {
    if b.len() < 4 {
        Err(FormatError::Truncated)
    } else {
        match spec_read_samples(b, 4, spec_be32(b.subrange(0, 4)) as nat) {
            Err(e) => Err(e),
            Ok((l, _)) => Ok(l),
        }
    }
}

/// Relies on `String::from_utf8`: it returns `Ok` exactly when the bytes are
/// valid UTF-8, and the returned string's characters are their decoding.
#[verifier::external_body]
fn string_from_utf8(v: Vec<u8>) -> (r: Option<String>)
    ensures
        match r {
            Some(s) => valid_utf8(v@) && s@ == decode_utf8(v@),
            None => !valid_utf8(v@),
        },
{
    String::from_utf8(v).ok()
}

/// Reads a two-byte length-prefixed UTF-8 string at `pos`.
pub fn read_string(bytes: &[u8], pos: usize) -> (r: Result<(String, usize), FormatError>)
    ensures
        match r {
            Ok((s, end)) => {
                &&& spec_read_string(bytes@, pos as int) == Ok::<_, FormatError>((s@, end as int))
                &&& pos + 2 <= end <= bytes@.len()
            },
            Err(e) => spec_read_string(bytes@, pos as int) == Err::<(Seq<char>, int), _>(e),
        },
{
    let len = bytes.len();
    if pos > len || len - pos < 2 {
        return Err(FormatError::Truncated);
    }
    let n = read_u16_be(bytes, pos) as usize;
    if len - (pos + 2) < n {
        return Err(FormatError::Truncated);
    }
    let mut sb: Vec<u8> = Vec::new();
    let mut j: usize = 0;
    while j < n
        invariant
            j <= n,
            pos + 2 + n <= bytes@.len(),
            bytes@.len() <= usize::MAX,
            sb@ =~= bytes@.subrange(pos + 2, pos + 2 + j),
        decreases n - j,
    {
        sb.push(bytes[pos + 2 + j]);
        j += 1;
        proof {
            assert(sb@ =~= bytes@.subrange(pos + 2, pos + 2 + j));
        }
    }
    match string_from_utf8(sb) {
        Some(s) => Ok((s, pos + 2 + n)),
        None => Err(FormatError::InvalidUtf8),
    }
}

/// Writes a two-byte length-prefixed UTF-8 string, or reports that the
/// string's byte length does not fit the prefix and appends nothing.
pub fn write_string(out: &mut Vec<u8>, s: &str) -> (r: Result<(), FormatError>)
    ensures
        r == if string_fits(s@) {
            Ok::<(), FormatError>(())
        } else {
            Err::<(), FormatError>(FormatError::StringTooLong)
        },
        string_fits(s@) ==> final(out)@ == old(out)@ + spec_write_string(s@),
        !string_fits(s@) ==> final(out)@ == old(out)@,
{
    let ghost out0 = out@;
    let n = s.as_bytes().len();
    if n > 0xFFFF {
        return Err(FormatError::StringTooLong);
    }
    write_u16_be(out, n as u16);
    let mut sb = s.as_bytes_vec();
    out.append(&mut sb);
    proof {
        lemma_u16_be_roundtrip(n as u16);
        assert(out@ =~= out0 + spec_write_string(s@));
    }
    Ok(())
}

impl ImmersiveSampleData {
    /// Whether both strings fit their two-byte length prefixes.
    pub fn encodable(&self) -> (b: bool)
        ensures
            b == immersive_fits(self@),
    {
        self.mineral.as_str().as_bytes().len() <= 0xFFFF && self.liquid.as_str().as_bytes().len()
            <= 0xFFFF
    }

    /// Reads the Immersive-specific portion of a sample at `pos`.
    pub fn read_from(bytes: &[u8], pos: usize) -> (r: Result<(Self, usize), FormatError>)
        ensures
            match r {
                Ok((d, end)) => {
                    &&& spec_read_immersive(bytes@, pos as int) == Ok::<_, FormatError>(
                        (d@, end as int),
                    )
                    &&& pos <= end <= bytes@.len()
                },
                Err(e) => spec_read_immersive(bytes@, pos as int) == Err::<
                    (ImmersiveSampleDataV, int),
                    _,
                >(e),
            },
    {
        let len = bytes.len();
        let (mineral, p1) = match read_string(bytes, pos) {
            Ok(v) => v,
            Err(e) => {
                return Err(e);
            },
        };
        let (liquid, p2) = match read_string(bytes, p1) {
            Ok(v) => v,
            Err(e) => {
                return Err(e);
            },
        };
        if len - p2 < 8 {
            return Err(FormatError::Truncated);
        }
        let timestamp = read_u64_be(bytes, p2);
        Ok((ImmersiveSampleData { mineral, liquid, timestamp }, p2 + 8))
    }

    /// Writes the Immersive-specific portion of a sample, or reports the
    /// string that does not fit and appends nothing.
    pub fn write_to(&self, out: &mut Vec<u8>) -> (r: Result<(), FormatError>)
        ensures
            r == if immersive_fits(self@) {
                Ok::<(), FormatError>(())
            } else {
                Err::<(), FormatError>(FormatError::StringTooLong)
            },
            immersive_fits(self@) ==> final(out)@ == old(out)@ + spec_write_immersive(self@),
            !immersive_fits(self@) ==> final(out)@ == old(out)@,
    {
        let ghost out0 = out@;
        if !self.encodable() {
            return Err(FormatError::StringTooLong);
        }
        let _ = write_string(out, self.mineral.as_str());
        let _ = write_string(out, self.liquid.as_str());
        write_u64_be(out, self.timestamp);
        proof {
            assert(out@ =~= out0 + spec_write_immersive(self@));
        }
        Ok(())
    }
}

impl Sample {
    /// Whether every string of this sample fits its two-byte length prefix.
    pub fn encodable(&self) -> (b: bool)
        ensures
            b == sample_fits(self@),
    {
        match &self.data {
            SampleData::Immersive(d) => d.encodable(),
            SampleData::TerraFirmaCraft(ore) => ore.as_str().as_bytes().len() <= 0xFFFF,
            SampleData::Geolosys(ore) => ore.as_str().as_bytes().len() <= 0xFFFF,
        }
    }

    /// Reads one record at `pos`: discriminant, dimension, x, z, payload.
    pub fn read_from(bytes: &[u8], pos: usize) -> (r: Result<(Self, usize), FormatError>)
        ensures
            match r {
                Ok((s, end)) => {
                    &&& spec_read_sample(bytes@, pos as int) == Ok::<_, FormatError>(
                        (s@, end as int),
                    )
                    &&& pos <= end <= bytes@.len()
                },
                Err(e) => spec_read_sample(bytes@, pos as int) == Err::<(SampleV, int), _>(e),
            },
    {
        let len = bytes.len();
        if pos > len || len - pos < 4 {
            return Err(FormatError::Truncated);
        }
        let disc = read_u32_be(bytes, pos);
        if disc > 2 {
            return Err(FormatError::InvalidDiscriminant);
        }
        if len - pos < 16 {
            return Err(FormatError::Truncated);
        }
        let dimension = read_i32_be(bytes, pos + 4);
        let x = read_i32_be(bytes, pos + 8);
        let z = read_i32_be(bytes, pos + 12);
        if disc == 0 {
            let (d, p) = match ImmersiveSampleData::read_from(bytes, pos + 16) {
                Ok(v) => v,
                Err(e) => {
                    return Err(e);
                },
            };
            Ok((Sample { dimension, x, z, data: SampleData::Immersive(d) }, p))
        } else {
            let (ore, p) = match read_string(bytes, pos + 16) {
                Ok(v) => v,
                Err(e) => {
                    return Err(e);
                },
            };
            let data = if disc == 1 {
                SampleData::TerraFirmaCraft(ore)
            } else {
                SampleData::Geolosys(ore)
            };
            Ok((Sample { dimension, x, z, data }, p))
        }
    }

    /// Writes one record, or reports the string that does not fit and
    /// appends nothing.
    pub fn write_to(&self, out: &mut Vec<u8>) -> (r: Result<(), FormatError>)
        ensures
            r == if sample_fits(self@) {
                Ok::<(), FormatError>(())
            } else {
                Err::<(), FormatError>(FormatError::StringTooLong)
            },
            sample_fits(self@) ==> final(out)@ == old(out)@ + spec_write_sample(self@),
            !sample_fits(self@) ==> final(out)@ == old(out)@,
    {
        let ghost out0 = out@;
        if !self.encodable() {
            return Err(FormatError::StringTooLong);
        }
        let disc: u32 = match &self.data {
            SampleData::Immersive(_) => 0,
            SampleData::TerraFirmaCraft(_) => 1,
            SampleData::Geolosys(_) => 2,
        };
        write_u32_be(out, disc);
        write_i32_be(out, self.dimension);
        write_i32_be(out, self.x);
        write_i32_be(out, self.z);
        match &self.data {
            SampleData::Immersive(d) => {
                let _ = d.write_to(out);
            },
            SampleData::TerraFirmaCraft(ore) => {
                let _ = write_string(out, ore.as_str());
            },
            SampleData::Geolosys(ore) => {
                let _ = write_string(out, ore.as_str());
            },
        }
        proof {
            assert(out@ =~= out0 + spec_write_sample(self@));
        }
        Ok(())
    }

    /// Decodes a counted list of samples from the front of a byte stream.
    /// Trailing bytes after the last record are ignored.
    pub fn read_list_from(bytes: &[u8]) -> (r: Result<Vec<Self>, FormatError>)
        ensures
            match r {
                Ok(v) => spec_read_list(bytes@) == Ok::<_, FormatError>(v.deep_view()),
                Err(e) => spec_read_list(bytes@) == Err::<Seq<SampleV>, _>(e),
            },
    {
        let len = bytes.len();
        if len < 4 {
            return Err(FormatError::Truncated);
        }
        let ghost count_n = spec_be32(bytes@.subrange(0, 4)) as nat;
        let count = read_u32_be(bytes, 0) as usize;
        let mut ret: Vec<Sample> = Vec::new();
        let mut pos: usize = 4;
        let mut i: usize = 0;
        while i < count
        invariant
            i <= count,
            count_n == count,
            4 <= pos <= bytes@.len(),
            bytes@.len() >= 4,
            spec_read_list(bytes@) == match spec_read_samples(
                bytes@,
                pos as int,
                (count - i) as nat,
            ) {
                Ok((rest, _)) => Ok::<Seq<SampleV>, FormatError>(ret.deep_view() + rest),
                Err(e) => Err::<Seq<SampleV>, FormatError>(e),
            },
        decreases count - i,
        {
            match Sample::read_from(bytes, pos) {
                Err(e) => {
                    return Err(e);
                },
                Ok((s, p)) => {
                    let ghost r0 = ret.deep_view();
                    proof {
                        assert(spec_read_samples(bytes@, pos as int, (count - i) as nat)
                            == match spec_read_samples(bytes@, p as int, (count - i - 1) as nat) {
                            Err(e) => Err::<(Seq<SampleV>, int), FormatError>(e),
                            Ok((rest, q)) => Ok((seq![s@] + rest, q)),
                        });
                    }
                    ret.push(s);
                    proof {
                        assert(ret.deep_view() =~= r0.push(s@));
                        let tail = spec_read_samples(bytes@, p as int, (count - i - 1) as nat);
                        match tail {
                            Ok((rest, _)) => {
                                assert(r0.push(s@) + rest =~= r0 + (seq![s@] + rest));
                            },
                            Err(_) => {},
                        }
                    }
                    pos = p;
                    i += 1;
                },
            }
        }
        proof {
            assert(ret.deep_view() + Seq::<SampleV>::empty() =~= ret.deep_view());
        }
        Ok(ret)
    }

    /// Encodes a list of samples: the count, then each record in order.  On
    /// error — a list too long for the count field, or a string too long for
    /// its length prefix — nothing is appended.
    pub fn write_list_to(out: &mut Vec<u8>, data: &[Self]) -> (r: Result<(), FormatError>)
        ensures
            list_fits(data.deep_view()) ==> {
                &&& r == Ok::<(), FormatError>(())
                &&& final(out)@ == old(out)@ + spec_write_list(data.deep_view())
            },
            !list_fits(data.deep_view()) ==> {
                &&& r is Err
                &&& final(out)@ == old(out)@
            },
            r == if data.deep_view().len() > 0xFFFF_FFFF {
                Err::<(), FormatError>(FormatError::TooManySamples)
            } else if !list_fits(data.deep_view()) {
                Err::<(), FormatError>(FormatError::StringTooLong)
            } else {
                Ok::<(), FormatError>(())
            },
    {
        let ghost out0 = out@;
        let n = data.len();
        if n as u64 > 0xFFFF_FFFFu64 {
            return Err(FormatError::TooManySamples);
        }
        let mut i: usize = 0;
        while i < n
            invariant
                i <= n,
                n == data.deep_view().len(),
                n <= 0xFFFF_FFFF,
                forall|k: int| 0 <= k < i ==> sample_fits(#[trigger] data.deep_view()[k]),
            decreases n - i,
        {
            if !data[i].encodable() {
                proof {
                    assert(data.deep_view()[i as int] == data@[i as int].deep_view());
                    assert(!sample_fits(data.deep_view()[i as int]));
                }
                return Err(FormatError::StringTooLong);
            }
            i += 1;
        }
        write_u32_be(out, n as u32);
        let mut i: usize = 0;
        while i < n
            invariant
                i <= n,
                n == data.deep_view().len(),
                n <= 0xFFFF_FFFF,
                list_fits(data.deep_view()),
                out@ =~= out0 + spec_u32_be_bytes(n as u32) + spec_write_samples(
                    data.deep_view().take(i as int),
                ),
            decreases n - i,
        {
            let _ = data[i].write_to(out);
            proof {
                lemma_write_samples_push(data.deep_view().take(i as int), data.deep_view()[i as int]);
                assert(data.deep_view().take(i as int).push(data.deep_view()[i as int])
                    =~= data.deep_view().take(i + 1));
            }
            i += 1;
        }
        proof {
            assert(data.deep_view().take(n as int) =~= data.deep_view());
            assert(out@ =~= out0 + spec_write_list(data.deep_view()));
        }
        Ok(())
    }
}

/// A concatenation written at `pos` splits into its two parts.
proof fn lemma_subrange_cat(b: Seq<u8>, pos: int, s1: Seq<u8>, s2: Seq<u8>)
    requires
        0 <= pos,
        pos + s1.len() + s2.len() <= b.len(),
        b.subrange(pos, pos + s1.len() + s2.len()) == s1 + s2,
    ensures
        b.subrange(pos, pos + s1.len()) == s1,
        b.subrange(pos + s1.len(), pos + s1.len() + s2.len()) == s2,
{
    assert forall|i: int| 0 <= i < s1.len() implies b.subrange(pos, pos + s1.len())[i] == s1[i] by {
        assert(b.subrange(pos, pos + s1.len() + s2.len())[i] == (s1 + s2)[i]);
    };
    assert(b.subrange(pos, pos + s1.len()) =~= s1);
    assert forall|i: int|
        0 <= i < s2.len() implies b.subrange(pos + s1.len(), pos + s1.len() + s2.len())[i] == s2[i]
    by {
        let j = s1.len() + i;
        assert(b.subrange(pos, pos + s1.len() + s2.len())[j] == (s1 + s2)[j]);
        assert((s1 + s2)[j] == s2[i]);
        assert(b.subrange(pos, pos + s1.len() + s2.len())[j] == b[pos + j]);
        assert(b.subrange(pos + s1.len(), pos + s1.len() + s2.len())[i] == b[pos + s1.len() + i]);
    };
    assert(b.subrange(pos + s1.len(), pos + s1.len() + s2.len()) =~= s2);
}

/// Reading back a string image embedded in a longer stream gives the string
/// and lands just past it.
pub proof fn lemma_read_write_string(b: Seq<u8>, pos: int, s: Seq<char>)
    requires
        string_fits(s),
        0 <= pos,
        pos + spec_write_string(s).len() <= b.len(),
        b.subrange(pos, pos + spec_write_string(s).len()) == spec_write_string(s),
    ensures
        spec_read_string(b, pos) == Ok::<_, FormatError>((s, pos + spec_write_string(s).len())),
{
    let e = encode_utf8(s);
    let n = e.len() as int;
    let pre = spec_u16_be_bytes(e.len() as u16);
    lemma_u16_be_roundtrip(e.len() as u16);
    lemma_subrange_cat(b, pos, pre, e);
    assert(spec_be16(b.subrange(pos, pos + 2)) == e.len() as u16);
    assert(b.subrange(pos + 2, pos + 2 + n) == e);
    encode_utf8_valid_utf8(s);
    encode_utf8_decode_utf8(s);
}

/// The length boundary: a string of up to 65535 UTF-8 bytes — and no longer
/// one — encodes, and its image reads back as the same string.
pub proof fn lemma_string_length_boundary(s: Seq<char>)
    ensures
        string_fits(s) <==> encode_utf8(s).len() <= 65535,
        string_fits(s) ==> spec_read_string(spec_write_string(s), 0) == Ok::<_, FormatError>(
            (s, spec_write_string(s).len() as int),
        ),
{
    if string_fits(s) {
        let b = spec_write_string(s);
        assert(b.subrange(0, b.len() as int) =~= b);
        lemma_read_write_string(b, 0, s);
    }
}

/// Reading back an Immersive payload image embedded in a longer stream gives
/// the payload and lands just past it.
pub proof fn lemma_read_write_immersive(b: Seq<u8>, pos: int, d: ImmersiveSampleDataV)
    requires
        immersive_fits(d),
        0 <= pos,
        pos + spec_write_immersive(d).len() <= b.len(),
        b.subrange(pos, pos + spec_write_immersive(d).len()) == spec_write_immersive(d),
    ensures
        spec_read_immersive(b, pos) == Ok::<_, FormatError>(
            (d, pos + spec_write_immersive(d).len()),
        ),
{
    let m = spec_write_string(d.mineral);
    let l = spec_write_string(d.liquid);
    let t = spec_u64_be_bytes(d.timestamp);
    lemma_u64_be_roundtrip(d.timestamp);
    assert(spec_write_immersive(d) =~= (m + l) + t);
    lemma_subrange_cat(b, pos, m + l, t);
    lemma_subrange_cat(b, pos, m, l);
    lemma_read_write_string(b, pos, d.mineral);
    lemma_read_write_string(b, pos + m.len(), d.liquid);
    let p2 = pos + m.len() + l.len();
    assert(b.subrange(p2, p2 + 8) == t);
    assert(spec_be64(b.subrange(p2, p2 + 8)) == d.timestamp);
}

/// Reading back a record image embedded in a longer stream gives the record
/// and lands just past it.
pub proof fn lemma_read_write_sample(b: Seq<u8>, pos: int, s: SampleV)
    requires
        sample_fits(s),
        0 <= pos,
        pos + spec_write_sample(s).len() <= b.len(),
        b.subrange(pos, pos + spec_write_sample(s).len()) == spec_write_sample(s),
    ensures
        spec_read_sample(b, pos) == Ok::<_, FormatError>((s, pos + spec_write_sample(s).len())),
{
    let h1 = spec_u32_be_bytes(spec_discriminant(s.data));
    let h2 = spec_u32_be_bytes(spec_i32_bits(s.dimension));
    let h3 = spec_u32_be_bytes(spec_i32_bits(s.x));
    let h4 = spec_u32_be_bytes(spec_i32_bits(s.z));
    let p = match s.data {
        SampleDataV::Immersive(d) => spec_write_immersive(d),
        SampleDataV::TerraFirmaCraft(ore) => spec_write_string(ore),
        SampleDataV::Geolosys(ore) => spec_write_string(ore),
    };
    lemma_u32_be_roundtrip(spec_discriminant(s.data));
    lemma_u32_be_roundtrip(spec_i32_bits(s.dimension));
    lemma_u32_be_roundtrip(spec_i32_bits(s.x));
    lemma_u32_be_roundtrip(spec_i32_bits(s.z));
    lemma_i32_bits_roundtrip(s.dimension);
    lemma_i32_bits_roundtrip(s.x);
    lemma_i32_bits_roundtrip(s.z);
    assert(spec_write_sample(s) =~= (h1 + h2 + h3 + h4) + p);
    lemma_subrange_cat(b, pos, h1 + h2 + h3 + h4, p);
    assert(h1 + h2 + h3 + h4 =~= (h1 + h2 + h3) + h4);
    lemma_subrange_cat(b, pos, h1 + h2 + h3, h4);
    assert(h1 + h2 + h3 =~= (h1 + h2) + h3);
    lemma_subrange_cat(b, pos, h1 + h2, h3);
    lemma_subrange_cat(b, pos, h1, h2);
    assert(spec_be32(b.subrange(pos, pos + 4)) == spec_discriminant(s.data));
    assert(spec_be32(b.subrange(pos + 4, pos + 8)) == spec_i32_bits(s.dimension));
    assert(spec_be32(b.subrange(pos + 8, pos + 12)) == spec_i32_bits(s.x));
    assert(spec_be32(b.subrange(pos + 12, pos + 16)) == spec_i32_bits(s.z));
    match s.data {
        SampleDataV::Immersive(d) => {
            lemma_read_write_immersive(b, pos + 16, d);
        },
        SampleDataV::TerraFirmaCraft(ore) => {
            lemma_read_write_string(b, pos + 16, ore);
        },
        SampleDataV::Geolosys(ore) => {
            lemma_read_write_string(b, pos + 16, ore);
        },
    }
}

/// Reading back the images of `l.len()` consecutive records gives them all.
pub proof fn lemma_read_write_samples(b: Seq<u8>, pos: int, l: Seq<SampleV>)
    requires
        forall|i: int| 0 <= i < l.len() ==> sample_fits(#[trigger] l[i]),
        0 <= pos,
        pos + spec_write_samples(l).len() <= b.len(),
        b.subrange(pos, pos + spec_write_samples(l).len()) == spec_write_samples(l),
    ensures
        spec_read_samples(b, pos, l.len()) == Ok::<_, FormatError>(
            (l, pos + spec_write_samples(l).len()),
        ),
    decreases l.len(),
{
    if l.len() == 0 {
        assert(spec_read_samples(b, pos, 0) == Ok::<_, FormatError>((Seq::<SampleV>::empty(), pos)));
        assert(l =~= Seq::<SampleV>::empty());
    } else {
        let h = spec_write_sample(l[0]);
        let rest = spec_write_samples(l.drop_first());
        assert(spec_write_samples(l) == h + rest);
        lemma_subrange_cat(b, pos, h, rest);
        lemma_read_write_sample(b, pos, l[0]);
        assert(forall|i: int| 0 <= i < l.drop_first().len() ==> sample_fits(
            #[trigger] l.drop_first()[i],
        ));
        lemma_read_write_samples(b, pos + h.len(), l.drop_first());
        assert(seq![l[0]] + l.drop_first() =~= l);
    }
}

/// Round trip: decoding an encoded list gives the list back, record for
/// record, field for field, in order.
pub proof fn lemma_read_write_list(l: Seq<SampleV>)
    requires
        list_fits(l),
    ensures
        spec_read_list(spec_write_list(l)) == Ok::<Seq<SampleV>, FormatError>(l),
{
    let b = spec_write_list(l);
    let c = spec_u32_be_bytes(l.len() as u32);
    lemma_u32_be_roundtrip(l.len() as u32);
    assert(b.subrange(0, b.len() as int) =~= b);
    lemma_subrange_cat(b, 0, c, spec_write_samples(l));
    assert(spec_be32(b.subrange(0, 4)) == l.len() as u32);
    assert((l.len() as u32) as nat == l.len());
    lemma_read_write_samples(b, 4, l);
}

/// A subrange lying inside the kept prefix is unchanged by `take`.
proof fn lemma_take_subrange(b: Seq<u8>, n: int, lo: int, hi: int)
    requires
        0 <= lo <= hi <= n <= b.len(),
    ensures
        b.take(n).subrange(lo, hi) == b.subrange(lo, hi),
{
    assert(b.take(n).subrange(lo, hi) =~= b.subrange(lo, hi));
}

/// Reading a string from a truncated stream gives the same result when the
/// string lies inside the kept prefix, and fails when it does not.
proof fn lemma_read_string_prefix(b: Seq<u8>, n: int, pos: int)
    requires
        0 <= pos,
        0 <= n <= b.len(),
    ensures
        match spec_read_string(b, pos) {
            Ok((s, end)) => if end <= n {
                spec_read_string(b.take(n), pos) == Ok::<_, FormatError>((s, end))
            } else {
                spec_read_string(b.take(n), pos) is Err
            },
            Err(e) => spec_read_string(b.take(n), pos) is Err,
        },
{
    let t = b.take(n);
    assert(t.len() == n);
    if pos + 2 > n {
    } else {
        lemma_take_subrange(b, n, pos, pos + 2);
        let len = spec_be16(b.subrange(pos, pos + 2)) as int;
        if pos + 2 + len > n {
        } else {
            lemma_take_subrange(b, n, pos + 2, pos + 2 + len);
        }
    }
}

/// Reading an Immersive payload from a truncated stream gives the same
/// result when the payload lies inside the kept prefix, and fails when it
/// does not.
proof fn lemma_read_immersive_prefix(b: Seq<u8>, n: int, pos: int)
    requires
        0 <= pos,
        0 <= n <= b.len(),
    ensures
        match spec_read_immersive(b, pos) {
            Ok((d, end)) => if end <= n {
                spec_read_immersive(b.take(n), pos) == Ok::<_, FormatError>((d, end))
            } else {
                spec_read_immersive(b.take(n), pos) is Err
            },
            Err(e) => spec_read_immersive(b.take(n), pos) is Err,
        },
{
    lemma_read_string_prefix(b, n, pos);
    match spec_read_string(b, pos) {
        Err(_) => {},
        Ok((m, p1)) => {
            lemma_read_string_prefix(b, n, p1);
            match spec_read_string(b, p1) {
                Err(_) => {},
                Ok((l, p2)) => {
                    if p2 + 8 <= n {
                        lemma_take_subrange(b, n, p2, p2 + 8);
                    }
                },
            }
        },
    }
}

/// Reading a record from a truncated stream gives the same result when the
/// record lies inside the kept prefix, and fails when it does not.
proof fn lemma_read_sample_prefix(b: Seq<u8>, n: int, pos: int)
    requires
        0 <= pos,
        0 <= n <= b.len(),
    ensures
        match spec_read_sample(b, pos) {
            Ok((s, end)) => if end <= n {
                spec_read_sample(b.take(n), pos) == Ok::<_, FormatError>((s, end))
            } else {
                spec_read_sample(b.take(n), pos) is Err
            },
            Err(e) => spec_read_sample(b.take(n), pos) is Err,
        },
{
    let t = b.take(n);
    if pos + 4 > n {
    } else {
        lemma_take_subrange(b, n, pos, pos + 4);
        let disc = spec_be32(b.subrange(pos, pos + 4));
        if disc > 2 {
        } else if pos + 16 > n {
        } else {
            lemma_take_subrange(b, n, pos + 4, pos + 8);
            lemma_take_subrange(b, n, pos + 8, pos + 12);
            lemma_take_subrange(b, n, pos + 12, pos + 16);
            if disc == 0 {
                lemma_read_immersive_prefix(b, n, pos + 16);
            } else {
                lemma_read_string_prefix(b, n, pos + 16);
            }
        }
    }
}

/// Reading a run of records from a truncated stream gives the same result
/// when the run lies inside the kept prefix, and fails when it does not.
proof fn lemma_read_samples_prefix(b: Seq<u8>, n: int, pos: int, count: nat)
    requires
        0 <= pos <= n <= b.len(),
    ensures
        match spec_read_samples(b, pos, count) {
            Ok((l, end)) => if end <= n {
                spec_read_samples(b.take(n), pos, count) == Ok::<_, FormatError>((l, end))
            } else {
                spec_read_samples(b.take(n), pos, count) is Err
            },
            Err(e) => spec_read_samples(b.take(n), pos, count) is Err,
        },
    decreases count,
{
    if count == 0 {
    } else {
        lemma_read_sample_prefix(b, n, pos);
        match spec_read_sample(b, pos) {
            Err(_) => {},
            Ok((s, p)) => {
                lemma_read_sample_bounds(b, pos);
                lemma_read_samples_bounds(b, p, (count - 1) as nat);
                if p <= n {
                    lemma_read_samples_prefix(b, n, p, (count - 1) as nat);
                }
            },
        }
    }
}

/// Each reader only moves forward and never past the end of the stream.
proof fn lemma_read_sample_bounds(b: Seq<u8>, pos: int)
    requires
        0 <= pos,
    ensures
        spec_read_sample(b, pos) matches Ok((s, end)) ==> pos < end <= b.len(),
{
}

/// Reading a run of records only moves forward and never past the end of
/// the stream.
proof fn lemma_read_samples_bounds(b: Seq<u8>, pos: int, count: nat)
    requires
        0 <= pos <= b.len(),
    ensures
        spec_read_samples(b, pos, count) matches Ok((l, end)) ==> pos <= end <= b.len(),
    decreases count,
{
    if count == 0 {
    } else {
        match spec_read_sample(b, pos) {
            Err(_) => {},
            Ok((s, p)) => {
                lemma_read_sample_bounds(b, pos);
                lemma_read_samples_bounds(b, p, (count - 1) as nat);
            },
        }
    }
}

/// Truncation is rejected: decoding a strict prefix of an encoded list
/// always fails.
pub proof fn lemma_truncated_rejected(l: Seq<SampleV>, n: int)
    requires
        list_fits(l),
        0 <= n < spec_write_list(l).len(),
    ensures
        spec_read_list(spec_write_list(l).take(n)) is Err,
{
    let b = spec_write_list(l);
    lemma_u32_be_roundtrip(l.len() as u32);
    assert(b.subrange(0, b.len() as int) =~= b);
    lemma_subrange_cat(b, 0, spec_u32_be_bytes(l.len() as u32), spec_write_samples(l));
    lemma_read_write_samples(b, 4, l);
    if n < 4 {
    } else {
        lemma_take_subrange(b, n, 0, 4);
        assert(spec_be32(b.take(n).subrange(0, 4)) == l.len() as u32);
        assert((l.len() as u32) as nat == l.len());
        lemma_read_samples_prefix(b, n, 4, l.len());
        assert(spec_read_samples(b, 4, l.len()) == Ok::<_, FormatError>((l, b.len() as int)));
        assert(b.len() > n);
    }
}

/// A stream that declares at least one record and stores a discriminant
/// other than 0, 1 or 2 for its first record is rejected.
pub proof fn lemma_bad_discriminant_rejected(b: Seq<u8>)
    requires
        b.len() >= 8,
        spec_be32(b.subrange(0, 4)) >= 1,
        spec_be32(b.subrange(4, 8)) > 2,
    ensures
        spec_read_list(b) == Err::<Seq<SampleV>, FormatError>(FormatError::InvalidDiscriminant),
{
    let n = spec_be32(b.subrange(0, 4)) as nat;
    assert(spec_read_sample(b, 4) == Err::<(SampleV, int), FormatError>(
        FormatError::InvalidDiscriminant,
    ));
    assert(spec_read_samples(b, 4, n) == Err::<(Seq<SampleV>, int), FormatError>(
        FormatError::InvalidDiscriminant,
    ));
}

/// Appending one sample to a sequence appends its record image.
proof fn lemma_write_samples_push(l: Seq<SampleV>, s: SampleV)
    ensures
        spec_write_samples(l.push(s)) == spec_write_samples(l) + spec_write_sample(s),
    decreases l.len(),
{
    assert(l.push(s).len() == l.len() + 1);
    if l.len() == 0 {
        assert(l.push(s)[0] == s);
        assert(l.push(s).drop_first() =~= Seq::<SampleV>::empty());
        assert(spec_write_samples(l.push(s)) == spec_write_sample(s) + spec_write_samples(
            l.push(s).drop_first(),
        ));
        assert(spec_write_samples(l.push(s).drop_first()) == Seq::<u8>::empty());
        assert(spec_write_samples(l) == Seq::<u8>::empty());
        assert(spec_write_samples(l.push(s)) =~= spec_write_samples(l) + spec_write_sample(s));
    } else {
        assert(l.push(s).drop_first() =~= l.drop_first().push(s));
        assert(l.push(s)[0] == l[0]);
        assert(spec_write_samples(l.push(s)) == spec_write_sample(l[0]) + spec_write_samples(
            l.drop_first().push(s),
        ));
        lemma_write_samples_push(l.drop_first(), s);
        assert(spec_write_samples(l) == spec_write_sample(l[0]) + spec_write_samples(
            l.drop_first(),
        ));
        assert(spec_write_samples(l.push(s)) =~= spec_write_samples(l) + spec_write_sample(s));
    }
}

} // verus!

