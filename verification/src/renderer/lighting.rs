//! Shadow arming and wind-edit detection.
use vstd::prelude::*;
use vstd::arithmetic::div_mod::{lemma_mod_multiples_vanish, lemma_mul_mod_noop_left, lemma_small_mod};
use super::{PointShadow, Renderer, SpotShadow};

verus! {

/// The offset basis of the 64-bit FNV digest.
pub const DIGEST_BASIS: u64 = 0xcbf2_9ce4_8422_2325;

/// The prime of the 64-bit FNV digest.
pub const DIGEST_PRIME: u64 = 0x0000_0100_0000_01b3;

/// Most local wind sources a frame carries.
pub const MAX_WIND_SOURCES: usize = 64;

/// Folds words into a digest in order: each word is xored in, then the digest is multiplied
/// by the prime, wrapping.
pub open spec fn spec_digest(values: Seq<u64>) -> u64
    decreases values.len(),
{
    if values.len() == 0 {
        DIGEST_BASIS
    } else {
        vstd::wrapping::u64_specs::wrapping_mul(spec_digest(values.drop_last()) ^ values.last(), DIGEST_PRIME)
    }
}

/// Folds words into a digest in order.
pub fn digest(values: &[u64]) -> (r: u64)
    ensures
        r == spec_digest(values@),
{
    let mut d: u64 = DIGEST_BASIS;
    let mut i: usize = 0;
    while i < values.len()
        invariant
            i <= values@.len(),
            d == spec_digest(values@.take(i as int)),
        decreases values.len() - i,
    {
        assert(values@.take(i as int + 1).drop_last() =~= values@.take(i as int));
        d = (d ^ values[i]).wrapping_mul(DIGEST_PRIME);
        i = i + 1;
    }
    assert(values@.take(values@.len() as int) =~= values@);
    d
}

/// The authored global wind field, as the bit patterns of its values: everything an author
/// edits, and not the clock, which advances every frame.
#[derive(Clone, Copy, Debug, PartialEq, Eq, Structural)]
pub struct WindAuthored {
    /// Orientation (degrees), bits.
    pub orientation_bits: u32,
    /// Speed, bits.
    pub speed_bits: u32,
    /// Gust strength, bits.
    pub gust_bits: u32,
    /// Turbulence octave count.
    pub turbulence_octaves: u32,
    /// Turbulence roughness, bits.
    pub turbulence_roughness_bits: u32,
    /// Gust frequency, bits.
    pub gust_frequency_bits: u32,
    /// Reference height, bits.
    pub reference_height_bits: u32,
    /// Height exponent, bits.
    pub height_exponent_bits: u32,
    /// Noise seed.
    pub seed: u32,
}

/// One local wind source's authored state, as the bit patterns of its values.
#[derive(Clone, Copy, Debug, PartialEq, Eq, Structural)]
pub struct WindSourceAuthored {
    /// Position x (single precision), bits.
    pub position_x_bits: u32,
    /// Position y (single precision), bits.
    pub position_y_bits: u32,
    /// Position z (single precision), bits.
    pub position_z_bits: u32,
    /// Direction x, bits.
    pub direction_x_bits: u32,
    /// Direction y, bits.
    pub direction_y_bits: u32,
    /// Direction z, bits.
    pub direction_z_bits: u32,
    /// Strength, bits.
    pub strength_bits: u32,
    /// Radius, bits.
    pub radius_bits: u32,
    /// Falloff, bits.
    pub falloff_bits: u32,
    /// The source kind's ordinal.
    pub kind: u64,
}

/// The words a wind field's digest folds, in order.
pub open spec fn spec_wind_words(w: WindAuthored) -> Seq<u64> {
    seq![
        w.orientation_bits as u64,
        w.speed_bits as u64,
        w.gust_bits as u64,
        w.turbulence_octaves as u64,
        w.turbulence_roughness_bits as u64,
        w.gust_frequency_bits as u64,
        w.reference_height_bits as u64,
        w.height_exponent_bits as u64,
        w.seed as u64,
    ]
}

/// The words a wind source's digest folds, in order.
pub open spec fn spec_source_words(s: WindSourceAuthored) -> Seq<u64> {
    seq![
        s.position_x_bits as u64,
        s.position_y_bits as u64,
        s.position_z_bits as u64,
        s.direction_x_bits as u64,
        s.direction_y_bits as u64,
        s.direction_z_bits as u64,
        s.strength_bits as u64,
        s.radius_bits as u64,
        s.falloff_bits as u64,
        s.kind,
    ]
}

/// A digest of the authored global wind field.
pub fn wind_authored_digest(wind: &WindAuthored) -> (r: u64)
    ensures
        r == spec_digest(spec_wind_words(*wind)),
{
    let words: [u64; 9] = [
        wind.orientation_bits as u64,
        wind.speed_bits as u64,
        wind.gust_bits as u64,
        wind.turbulence_octaves as u64,
        wind.turbulence_roughness_bits as u64,
        wind.gust_frequency_bits as u64,
        wind.reference_height_bits as u64,
        wind.height_exponent_bits as u64,
        wind.seed as u64,
    ];
    assert(words@ =~= spec_wind_words(*wind));
    digest(&words)
}

/// A digest of one local wind source's authored state.
pub fn wind_source_digest(source: &WindSourceAuthored) -> (r: u64)
    ensures
        r == spec_digest(spec_source_words(*source)),
{
    let words: [u64; 10] = [
        source.position_x_bits as u64,
        source.position_y_bits as u64,
        source.position_z_bits as u64,
        source.direction_x_bits as u64,
        source.direction_y_bits as u64,
        source.direction_z_bits as u64,
        source.strength_bits as u64,
        source.radius_bits as u64,
        source.falloff_bits as u64,
        source.kind,
    ];
    assert(words@ =~= spec_source_words(*source));
    digest(&words)
}

/// The digests of the first [`MAX_WIND_SOURCES`] sources.
pub open spec fn spec_source_digests(sources: Seq<WindSourceAuthored>) -> Seq<u64> {
    let n = if sources.len() < MAX_WIND_SOURCES { sources.len() as int } else { MAX_WIND_SOURCES as int };
    Seq::new(n as nat, |i: int| spec_digest(spec_source_words(sources[i])))
}

/// Whether a frame's wind differs from what the renderer last saw: the authored field's
/// digest changed, the number of sources changed, or one of the first sources' digests
/// differs from the one stored for its place.
pub open spec fn spec_wind_edited(r: Renderer, wind: WindAuthored, sources: Seq<WindSourceAuthored>) -> bool {
    let now = spec_source_digests(sources);
    ||| spec_digest(spec_wind_words(wind)) != r.wind_authored_digest
    ||| r.wind_source_count != sources.len()
    ||| exists|i: int| 0 <= i < now.len() && i < r.wind_source_digest@.len() && #[trigger] now[i] != r.wind_source_digest@[i]
}

impl Renderer {
    /// Takes a frame's wind: raises the discontinuity flag when the authored field or the
    /// source set was edited (never for the clock advancing), and remembers this frame's
    /// digests for the next comparison.
    pub fn observe_wind(&mut self, wind: &WindAuthored, sources: &[WindSourceAuthored])
        ensures
            final(self).wind_discontinuity == (old(self).wind_discontinuity || spec_wind_edited(*old(self), *wind, sources@)),
            final(self).wind_authored_digest == spec_digest(spec_wind_words(*wind)),
            final(self).wind_source_count == sources@.len(),
            final(self).wind_source_digest@ == spec_source_digests(sources@),
            final(self).directional_shadow_casting == old(self).directional_shadow_casting,
            *final(self) == (Renderer { wind_discontinuity: final(self).wind_discontinuity, wind_authored_digest: final(self).wind_authored_digest, wind_source_count: final(self).wind_source_count, wind_source_digest: final(self).wind_source_digest, ..*old(self) }),
    {
        let authored = wind_authored_digest(wind);
        let n = if sources.len() < MAX_WIND_SOURCES { sources.len() } else { MAX_WIND_SOURCES };
        let ghost now = spec_source_digests(sources@);
        let mut digests: Vec<u64> = Vec::new();
        let mut differs = false;
        let mut i: usize = 0;
        while i < n
            invariant
                i <= n,
                n <= sources@.len(),
                n == now.len(),
                now == spec_source_digests(sources@),
                digests@ == now.take(i as int),
                differs == exists|k: int| 0 <= k < i && k < self.wind_source_digest@.len() && #[trigger] now[k] != self.wind_source_digest@[k],
            decreases n - i,
        {
            let d = wind_source_digest(&sources[i]);
            assert(d == now[i as int]);
            if i < self.wind_source_digest.len() && d != self.wind_source_digest[i] {
                differs = true;
            }
            digests.push(d);
            assert(digests@ =~= now.take(i as int + 1));
            i = i + 1;
        }
        assert(now.take(n as int) =~= now);
        let sources_changed = self.wind_source_count != sources.len() || differs;
        if authored != self.wind_authored_digest || sources_changed {
            self.wind_discontinuity = true;
        }
        self.wind_authored_digest = authored;
        self.wind_source_count = sources.len();
        self.wind_source_digest = digests;
    }

    /// Whether a wind edit landed since the last frame, clearing the flag.
    pub fn take_wind_discontinuity(&mut self) -> (r: bool)
        ensures
            r == old(self).wind_discontinuity,
            !final(self).wind_discontinuity,
            final(self).wind_authored_digest == old(self).wind_authored_digest,
            final(self).wind_source_count == old(self).wind_source_count,
            final(self).wind_source_digest@ == old(self).wind_source_digest@,
            *final(self) == (Renderer { wind_discontinuity: final(self).wind_discontinuity, ..*old(self) }),
    {
        let r = self.wind_discontinuity;
        self.wind_discontinuity = false;
        r
    }

    /// Arms the directional virtual-shadow sampling; `casting` drives whether the sun shadows
    /// this frame.
    pub fn set_directional_shadow(&mut self, casting: bool)
        ensures
            final(self).directional_shadow_casting == casting,
            final(self).wind_discontinuity == old(self).wind_discontinuity,
            *final(self) == (Renderer { directional_shadow_casting: final(self).directional_shadow_casting, ..*old(self) }),
    {
        self.directional_shadow_casting = casting;
    }

    /// Arms the spot light's virtual-shadow space with its perspective transform (column-major
    /// `f32` bits) and its index in the frame's light list.
    pub fn set_spot_shadow(&mut self, light_view_proj_bits: [u32; 16], light_index: u32, casting: bool)
        ensures
            final(self).spot_shadow == (SpotShadow { view_proj_bits: light_view_proj_bits, light_index, casting }),
            final(self).point_shadow == old(self).point_shadow,
            final(self).directional_shadow_casting == old(self).directional_shadow_casting,
            *final(self) == (Renderer { spot_shadow: final(self).spot_shadow, ..*old(self) }),
    {
        self.spot_shadow = SpotShadow { view_proj_bits: light_view_proj_bits, light_index, casting };
    }

    /// Arms the point light's six virtual face spaces with its world position and far plane
    /// (`f32` bits) and its index in the frame's light list.
    pub fn set_point_shadow(&mut self, light_pos_bits: [u32; 3], far_plane_bits: u32, light_index: u32, casting: bool)
        ensures
            final(self).point_shadow == (PointShadow { position_bits: light_pos_bits, far_plane_bits, light_index, casting }),
            final(self).spot_shadow == old(self).spot_shadow,
            final(self).directional_shadow_casting == old(self).directional_shadow_casting,
            *final(self) == (Renderer { point_shadow: final(self).point_shadow, ..*old(self) }),
    {
        self.point_shadow = PointShadow { position_bits: light_pos_bits, far_plane_bits, light_index, casting };
    }
}

/// Once a frame's wind has been observed, observing the same wind again is no edit.
pub proof fn lemma_same_wind_is_no_edit(r: Renderer, wind: WindAuthored, sources: Seq<WindSourceAuthored>)
    requires
        r.wind_authored_digest == spec_digest(spec_wind_words(wind)),
        r.wind_source_count == sources.len(),
        r.wind_source_digest@ == spec_source_digests(sources),
    ensures
        !spec_wind_edited(r, wind, sources),
{
}


/// Multiplying by the digest prime, wrapping, loses nothing: the prime is odd, so it has an
/// inverse modulo 2^64 (`0xce96_5057_aff6_957b`), and distinct words stay distinct.
proof fn lemma_prime_step_injective(x: u64, y: u64)
    ensures
        vstd::wrapping::u64_specs::wrapping_mul(x, DIGEST_PRIME) == vstd::wrapping::u64_specs::wrapping_mul(y, DIGEST_PRIME)
            ==> x == y,
{
    let m: int = 0x1_0000_0000_0000_0000;
    let p: int = DIGEST_PRIME as int;
    let q: int = 0xce96_5057_aff6_957b;
    let k: int = 887285111055;
    assert(p * q == m * k + 1) by (nonlinear_arith)
        requires
            p == 0x100_0000_01b3,
            q == 0xce96_5057_aff6_957b,
            m == 0x1_0000_0000_0000_0000,
            k == 887285111055,
    ;
    assert forall|z: u64| #![trigger vstd::wrapping::u64_specs::wrapping_mul(z, DIGEST_PRIME)]
        (vstd::wrapping::u64_specs::wrapping_mul(z, DIGEST_PRIME) as int) * q % m == z as int by {
        let zi = z as int;
        assert(vstd::wrapping::u64_specs::wrapping_mul(z, DIGEST_PRIME) as int == (zi * p) % m);
        lemma_mul_mod_noop_left(zi * p, q, m);
        assert(zi * p * q == m * (zi * k) + zi) by (nonlinear_arith)
            requires
                p * q == m * k + 1,
        ;
        lemma_mod_multiples_vanish(zi * k, zi, m);
        lemma_small_mod(z as nat, m as nat);
    }
}

/// Folding two word sequences of one length that differ in exactly one place gives different
/// digests: each step xors a word in and multiplies by an odd prime, and both undo.
pub proof fn lemma_digest_sees_one_changed_word(a: Seq<u64>, b: Seq<u64>, k: int)
    requires
        a.len() == b.len(),
        0 <= k < a.len(),
        a[k] != b[k],
        forall|j: int| 0 <= j < a.len() && j != k ==> a[j] == b[j],
    ensures
        spec_digest(a) != spec_digest(b),
    decreases a.len(),
{
    let n = a.len() - 1;
    let x = a.last();
    let y = b.last();
    if k == n {
        assert(a.drop_last() =~= b.drop_last());
        let d = spec_digest(a.drop_last());
        assert(d ^ x != d ^ y) by (bit_vector)
            requires
                x != y,
        ;
        lemma_prime_step_injective(d ^ x, d ^ y);
    } else {
        lemma_digest_sees_one_changed_word(a.drop_last(), b.drop_last(), k);
        let d1 = spec_digest(a.drop_last());
        let d2 = spec_digest(b.drop_last());
        assert(x == y);
        assert(d1 ^ x != d2 ^ x) by (bit_vector)
            requires
                d1 != d2,
        ;
        lemma_prime_step_injective(d1 ^ x, d2 ^ x);
    }
}

/// How many authored wind fields differ between `a` and `b`.
pub open spec fn spec_wind_fields_changed(a: WindAuthored, b: WindAuthored) -> int {
    (if a.orientation_bits != b.orientation_bits { 1int } else { 0int })
        + (if a.speed_bits != b.speed_bits { 1int } else { 0int })
        + (if a.gust_bits != b.gust_bits { 1int } else { 0int })
        + (if a.turbulence_octaves != b.turbulence_octaves { 1int } else { 0int })
        + (if a.turbulence_roughness_bits != b.turbulence_roughness_bits { 1int } else { 0int })
        + (if a.gust_frequency_bits != b.gust_frequency_bits { 1int } else { 0int })
        + (if a.reference_height_bits != b.reference_height_bits { 1int } else { 0int })
        + (if a.height_exponent_bits != b.height_exponent_bits { 1int } else { 0int })
        + (if a.seed != b.seed { 1int } else { 0int })
}

/// Editing any one authored wind field (its orientation, speed, gust, turbulence octaves or
/// roughness, gust frequency, reference height, height exponent or seed) changes the field's
/// digest, so a renderer that last observed the old field sees the new one as an edit.
pub proof fn lemma_any_one_wind_field_edit_is_seen(
    before: WindAuthored,
    after: WindAuthored,
    r: Renderer,
    sources: Seq<WindSourceAuthored>,
)
    requires
        spec_wind_fields_changed(before, after) == 1,
    ensures
        spec_digest(spec_wind_words(before)) != spec_digest(spec_wind_words(after)),
        r.wind_authored_digest == spec_digest(spec_wind_words(before)) ==> spec_wind_edited(r, after, sources),
{
    let a = spec_wind_words(before);
    let b = spec_wind_words(after);
    let k: int = if before.orientation_bits != after.orientation_bits {
        0
    } else if before.speed_bits != after.speed_bits {
        1
    } else if before.gust_bits != after.gust_bits {
        2
    } else if before.turbulence_octaves != after.turbulence_octaves {
        3
    } else if before.turbulence_roughness_bits != after.turbulence_roughness_bits {
        4
    } else if before.gust_frequency_bits != after.gust_frequency_bits {
        5
    } else if before.reference_height_bits != after.reference_height_bits {
        6
    } else if before.height_exponent_bits != after.height_exponent_bits {
        7
    } else {
        8
    };
    assert(a.len() == 9 && b.len() == 9);
    assert(a[k] != b[k]);
    assert forall|j: int| 0 <= j < a.len() && j != k implies a[j] == b[j] by {}
    lemma_digest_sees_one_changed_word(a, b, k);
}


/// How many authored fields differ between wind sources `a` and `b`.
pub open spec fn spec_source_fields_changed(a: WindSourceAuthored, b: WindSourceAuthored) -> int {
    (if a.position_x_bits != b.position_x_bits { 1int } else { 0int })
        + (if a.position_y_bits != b.position_y_bits { 1int } else { 0int })
        + (if a.position_z_bits != b.position_z_bits { 1int } else { 0int })
        + (if a.direction_x_bits != b.direction_x_bits { 1int } else { 0int })
        + (if a.direction_y_bits != b.direction_y_bits { 1int } else { 0int })
        + (if a.direction_z_bits != b.direction_z_bits { 1int } else { 0int })
        + (if a.strength_bits != b.strength_bits { 1int } else { 0int })
        + (if a.radius_bits != b.radius_bits { 1int } else { 0int })
        + (if a.falloff_bits != b.falloff_bits { 1int } else { 0int })
        + (if a.kind != b.kind { 1int } else { 0int })
}

/// Editing any one authored field of one of the first local wind sources (its position,
/// direction, strength, radius, falloff or kind) is seen as an edit by a renderer that last
/// observed the sources before the edit; so is adding or removing a source.
pub proof fn lemma_any_one_source_field_edit_is_seen(
    r: Renderer,
    wind: WindAuthored,
    before: Seq<WindSourceAuthored>,
    after: Seq<WindSourceAuthored>,
    i: int,
)
    requires
        r.wind_source_count == before.len(),
        r.wind_source_digest@ == spec_source_digests(before),
        0 <= i < before.len(),
        i < MAX_WIND_SOURCES,
        after == before.update(i, after[i]),
        spec_source_fields_changed(before[i], after[i]) == 1,
    ensures
        spec_wind_edited(r, wind, after),
        forall|more: Seq<WindSourceAuthored>| more.len() != before.len() ==> spec_wind_edited(r, wind, more),
{
    let a = spec_source_words(before[i]);
    let b = spec_source_words(after[i]);
    let x = before[i];
    let y = after[i];
    let k: int = if x.position_x_bits != y.position_x_bits {
        0
    } else if x.position_y_bits != y.position_y_bits {
        1
    } else if x.position_z_bits != y.position_z_bits {
        2
    } else if x.direction_x_bits != y.direction_x_bits {
        3
    } else if x.direction_y_bits != y.direction_y_bits {
        4
    } else if x.direction_z_bits != y.direction_z_bits {
        5
    } else if x.strength_bits != y.strength_bits {
        6
    } else if x.radius_bits != y.radius_bits {
        7
    } else if x.falloff_bits != y.falloff_bits {
        8
    } else {
        9
    };
    assert(a.len() == 10 && b.len() == 10);
    assert(a[k] != b[k]);
    assert forall|j: int| 0 <= j < a.len() && j != k implies a[j] == b[j] by {}
    lemma_digest_sees_one_changed_word(a, b, k);
    let now = spec_source_digests(after);
    assert(now[i] != r.wind_source_digest@[i]);
}

} // verus!
