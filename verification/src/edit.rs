//! In-place editing of a loaded sample list.
//!
//! An edit names a `(dimension, x, z)` key and supplies either new Immersive
//! text (mineral and/or liquid) or a new ore name for the TerraFirmaCraft /
//! Geolosys variants.  Every record at the key whose variant accepts the
//! supplied fields is rewritten; records of the other variant, and records at
//! other keys, are left untouched.

use vstd::prelude::*;

use crate::sample::{ImmersiveSampleData, ImmersiveSampleDataV, Sample, SampleData, SampleDataV,
    SampleV};

verus! {

/// Whether a sample sits at the target key.  The variant is not part of the
/// key.
pub open spec fn key_matches(s: SampleV, dimension: i32, x: i32, z: i32) -> bool {
    s.dimension == dimension && s.x == x && s.z == z
}

/// The characters of an optionally supplied piece of replacement text.
pub open spec fn opt_text(o: Option<&str>) -> Option<Seq<char>> {
    match o {
        Some(s) => Some(s@),
        None => None,
    }
}

/// The sample after the edit is applied to it: a record at the key takes the
/// supplied fields its variant accepts; every other record is unchanged.
pub open spec fn spec_edit_sample(
    s: SampleV,
    dimension: i32,
    x: i32,
    z: i32,
    mineral: Option<Seq<char>>,
    liquid: Option<Seq<char>>,
    ore: Option<Seq<char>>,
) -> SampleV {
    if !key_matches(s, dimension, x, z) {
        s
    } else {
        match s.data {
            SampleDataV::Immersive(d) => SampleV {
                dimension: s.dimension,
                x: s.x,
                z: s.z,
                data: SampleDataV::Immersive(
                    ImmersiveSampleDataV {
                        mineral: match mineral {
                            Some(m) => m,
                            None => d.mineral,
                        },
                        liquid: match liquid {
                            Some(l) => l,
                            None => d.liquid,
                        },
                        timestamp: d.timestamp,
                    },
                ),
            },
            SampleDataV::TerraFirmaCraft(o) => SampleV {
                dimension: s.dimension,
                x: s.x,
                z: s.z,
                data: SampleDataV::TerraFirmaCraft(
                    match ore {
                        Some(t) => t,
                        None => o,
                    },
                ),
            },
            SampleDataV::Geolosys(o) => SampleV {
                dimension: s.dimension,
                x: s.x,
                z: s.z,
                data: SampleDataV::Geolosys(
                    match ore {
                        Some(t) => t,
                        None => o,
                    },
                ),
            },
        }
    }
}

/// Whether the edit modifies the sample: the key matches and the variant
/// accepts at least one supplied field.
pub open spec fn spec_sample_touched(
    s: SampleV,
    dimension: i32,
    x: i32,
    z: i32,
    mineral: Option<Seq<char>>,
    liquid: Option<Seq<char>>,
    ore: Option<Seq<char>>,
) -> bool {
    key_matches(s, dimension, x, z) && match s.data {
        SampleDataV::Immersive(_) => mineral is Some || liquid is Some,
        SampleDataV::TerraFirmaCraft(_) => ore is Some,
        SampleDataV::Geolosys(_) => ore is Some,
    }
}

/// A record the edit does not touch — wrong key, or a variant that accepts
/// none of the supplied fields — comes out of the edit unchanged.  With the
/// editor's contract this gives the miss case: when no record is touched the
/// list, and so its encoding, is left exactly as it was.
pub proof fn lemma_untouched_unchanged(
    s: SampleV,
    dimension: i32,
    x: i32,
    z: i32,
    mineral: Option<Seq<char>>,
    liquid: Option<Seq<char>>,
    ore: Option<Seq<char>>,
)
    requires
        !spec_sample_touched(s, dimension, x, z, mineral, liquid, ore),
    ensures
        spec_edit_sample(s, dimension, x, z, mineral, liquid, ore) == s,
{
}

/// Applies the edit to every matching record in place and reports whether
/// any record was modified.  The caller supplies either Immersive text
/// (mineral and/or liquid) or an ore name, never both kinds at once.
pub fn edit_samples(
    samples: &mut Vec<Sample>,
    dimension: i32,
    x: i32,
    z: i32,
    mineral: Option<&str>,
    liquid: Option<&str>,
    ore: Option<&str>,
) -> (found: bool)
    requires
        ore is Some ==> mineral is None && liquid is None,
        mineral is Some || liquid is Some || ore is Some,
    ensures
        final(samples)@.len() == old(samples)@.len(),
        forall|i: int|
            0 <= i < old(samples)@.len() ==> #[trigger] final(samples)@[i]@ == spec_edit_sample(
                old(samples)@[i]@,
                dimension,
                x,
                z,
                opt_text(mineral),
                opt_text(liquid),
                opt_text(ore),
            ),
        found == exists|i: int|
            0 <= i < old(samples)@.len() && #[trigger] spec_sample_touched(
                old(samples)@[i]@,
                dimension,
                x,
                z,
                opt_text(mineral),
                opt_text(liquid),
                opt_text(ore),
            ),
{
    let ghost m0 = opt_text(mineral);
    let ghost l0 = opt_text(liquid);
    let ghost o0 = opt_text(ore);
    let n = samples.len();
    let mut found = false;
    let mut i: usize = 0;
    while i < n
        invariant
            i <= n,
            n == samples@.len(),
            samples@.len() == old(samples)@.len(),
            m0 == opt_text(mineral),
            l0 == opt_text(liquid),
            o0 == opt_text(ore),
            forall|k: int| i <= k < n ==> #[trigger] samples@[k] == old(samples)@[k],
            forall|k: int|
                0 <= k < i ==> #[trigger] samples@[k]@ == spec_edit_sample(
                    old(samples)@[k]@,
                    dimension,
                    x,
                    z,
                    m0,
                    l0,
                    o0,
                ),
            found == exists|k: int|
                0 <= k < i && #[trigger] spec_sample_touched(
                    old(samples)@[k]@,
                    dimension,
                    x,
                    z,
                    m0,
                    l0,
                    o0,
                ),
        decreases n - i,
    {
        let mut replacement: Option<Sample> = None;
        {
            let s = &samples[i];
            if s.dimension == dimension && s.x == x && s.z == z {
                match &s.data {
                    SampleData::Immersive(d) => {
                        if mineral.is_some() || liquid.is_some() {
                            let new_mineral = match mineral {
                                Some(m) => m.to_owned(),
                                None => d.mineral.clone(),
                            };
                            let new_liquid = match liquid {
                                Some(l) => l.to_owned(),
                                None => d.liquid.clone(),
                            };
                            replacement = Some(
                                Sample {
                                    dimension: s.dimension,
                                    x: s.x,
                                    z: s.z,
                                    data: SampleData::Immersive(
                                        ImmersiveSampleData {
                                            mineral: new_mineral,
                                            liquid: new_liquid,
                                            timestamp: d.timestamp,
                                        },
                                    ),
                                },
                            );
                        }
                    },
                    SampleData::TerraFirmaCraft(_) => {
                        if let Some(o) = ore {
                            replacement = Some(
                                Sample {
                                    dimension: s.dimension,
                                    x: s.x,
                                    z: s.z,
                                    data: SampleData::TerraFirmaCraft(o.to_owned()),
                                },
                            );
                        }
                    },
                    SampleData::Geolosys(_) => {
                        if let Some(o) = ore {
                            replacement = Some(
                                Sample {
                                    dimension: s.dimension,
                                    x: s.x,
                                    z: s.z,
                                    data: SampleData::Geolosys(o.to_owned()),
                                },
                            );
                        }
                    },
                }
            }
        }
        match replacement {
            Some(new_s) => {
                proof {
                    assert(spec_sample_touched(old(samples)@[i as int]@, dimension, x, z, m0, l0,
                        o0));
                    assert(new_s@ == spec_edit_sample(old(samples)@[i as int]@, dimension, x, z,
                        m0, l0, o0));
                }
                samples[i] = new_s;
                found = true;
            },
            None => {
                proof {
                    assert(!spec_sample_touched(old(samples)@[i as int]@, dimension, x, z, m0, l0,
                        o0));
                    assert(samples@[i as int]@ == spec_edit_sample(old(samples)@[i as int]@,
                        dimension, x, z, m0, l0, o0));
                }
            },
        }
        i += 1;
    }
    found
}

} // verus!
