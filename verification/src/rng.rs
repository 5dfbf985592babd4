use vstd::prelude::*;

use rand::RngCore;
use rand::SeedableRng;

verus! {

// Deterministic randomness.  The generator wraps a ChaCha8 stream; every
// draw of the engine consumes exactly one 64-bit word of that stream, so a
// draw's outcome is a pure function of the seed and of how many draws came
// before it.  The word stream itself is named by `stream_u64` and axiomatized
// only through the contract of `SeededRng::next_word`.

/// The `index`-th 64-bit output of the ChaCha8 stream whose state was built
/// by `seed_from_u64(seed)`.  rand_chacha documents this stream as a pure,
/// platform-independent function of the seed.
pub uninterp spec fn stream_u64(seed: u64, index: u64) -> u64;

#[verifier::external_type_specification]
#[verifier::external_body]
pub struct ExChaCha8Rng(rand_chacha::ChaCha8Rng);

/// A seeded random number generator.  `calls` counts the draws made so far,
/// which is exactly the position reached in the seed's word stream.
pub struct SeededRng {
    rng: rand_chacha::ChaCha8Rng,
    seed: u64,
    calls: u64,
}

impl SeededRng {
    /// The seed this generator was built from.
    pub closed spec fn spec_seed(&self) -> u64 {
        self.seed
    }

    /// How many draws were made so far; also the position in the stream.
    pub closed spec fn spec_calls(&self) -> u64 {
        self.calls
    }

    /// Create a generator positioned at the start of the seed's stream.
    ///
    /// Relies on `rand_chacha::ChaCha8Rng::seed_from_u64` (through
    /// `rand_core::SeedableRng`): the generator state is a pure function of
    /// the 64-bit seed, identical on every platform.
    #[verifier::external_body]
    pub fn new(seed: u64) -> (r: SeededRng)
        ensures
            r.spec_seed() == seed,
            r.spec_calls() == 0,
    {
        SeededRng { rng: rand_chacha::ChaCha8Rng::seed_from_u64(seed), seed, calls: 0 }
    }

    /// Draw the next raw 64-bit word of the stream.
    ///
    /// Relies on `rand_core::RngCore::next_u64` for `ChaCha8Rng`: the words
    /// it yields are a pure, platform-independent function of the seed and
    /// of the position in the stream.  The counter update below is part of
    /// this trusted claim: it names the position the inner generator reaches.
    #[verifier::external_body]
    fn next_word(&mut self) -> (r: u64)
        requires
            old(self).spec_calls() < u64::MAX,
        ensures
            r == stream_u64(old(self).spec_seed(), old(self).spec_calls()),
            final(self).spec_seed() == old(self).spec_seed(),
            final(self).spec_calls() == old(self).spec_calls() + 1,
    {
        self.calls = self.calls.wrapping_add(1);
        self.rng.next_u64()
    }

    /// The per-tick seed: the base seed shifted by the tick times an odd
    /// mixing constant, with wrapping arithmetic.
    pub open spec fn spec_tick_seed(base_seed: u64, tick: u64) -> u64 {
        base_seed.wrapping_add(tick.wrapping_mul(2654435761u64))
    }

    /// Create the generator that drives the given tick.
    pub fn from_tick(base_seed: u64, tick: u64) -> (r: SeededRng)
        ensures
            r.spec_seed() == SeededRng::spec_tick_seed(base_seed, tick),
            r.spec_calls() == 0,
    {
        SeededRng::new(base_seed.wrapping_add(tick.wrapping_mul(2654435761u64)))
    }

    /// The original seed.
    pub fn seed(&self) -> (r: u64)
        ensures
            r == self.spec_seed(),
    {
        self.seed
    }

    /// The number of draws made.
    pub fn calls(&self) -> (r: u64)
        ensures
            r == self.spec_calls(),
    {
        self.calls
    }

    /// The outcome of a probability draw at stream position `index`: the
    /// word's fraction must fall below `probability` (fixed-point, clamped
    /// to [0, AMOUNT_SCALE]).
    pub open spec fn spec_chance(seed: u64, index: u64, probability: i64) -> bool {
        let p = if probability < 0 {
            0
        } else if probability > 10000 {
            10000
        } else {
            probability as int
        };
        stream_u64(seed, index) % 10000 < p
    }

    /// Draw a boolean that is true with the given fixed-point probability
    /// (clamped to [0, AMOUNT_SCALE]).
    pub fn chance(&mut self, probability: i64) -> (r: bool)
        requires
            old(self).spec_calls() < u64::MAX,
        ensures
            r == SeededRng::spec_chance(old(self).spec_seed(), old(self).spec_calls(), probability),
            final(self).spec_seed() == old(self).spec_seed(),
            final(self).spec_calls() == old(self).spec_calls() + 1,
    {
        let w = self.next_word();
        let frac = w % 10000;
        let p = if probability < 0 {
            0
        } else if probability > 10000 {
            10000
        } else {
            probability
        };
        (frac as i64) < p
    }

    /// The uniform fixed-point fraction drawn at stream position `index`.
    pub open spec fn spec_random(seed: u64, index: u64) -> i64 {
        (stream_u64(seed, index) % 10000) as i64
    }

    /// Draw a uniform fixed-point fraction in [0, AMOUNT_SCALE), that is,
    /// in [0.0, 1.0).
    pub fn random(&mut self) -> (r: i64)
        requires
            old(self).spec_calls() < u64::MAX,
        ensures
            r == SeededRng::spec_random(old(self).spec_seed(), old(self).spec_calls()),
            0 <= r < 10000,
            final(self).spec_seed() == old(self).spec_seed(),
            final(self).spec_calls() == old(self).spec_calls() + 1,
    {
        let w = self.next_word();
        (w % 10000) as i64
    }

    /// The uniform draw from the inclusive range [min, max] at stream
    /// position `index`.
    pub open spec fn spec_range(seed: u64, index: u64, min: u64, max: u64) -> u64 {
        (min as int + stream_u64(seed, index) as int % (max as int - min as int + 1)) as u64
    }

    /// Draw a uniform integer in the inclusive range [min, max].
    pub fn range(&mut self, min: u64, max: u64) -> (r: u64)
        requires
            old(self).spec_calls() < u64::MAX,
            min <= max,
            max - min < u64::MAX,
        ensures
            r == SeededRng::spec_range(old(self).spec_seed(), old(self).spec_calls(), min, max),
            min <= r <= max,
            final(self).spec_seed() == old(self).spec_seed(),
            final(self).spec_calls() == old(self).spec_calls() + 1,
    {
        let w = self.next_word();
        let span = max - min + 1;
        min + w % span
    }

    /// Draw a uniform index below `len`; nothing is drawn for length zero.
    pub fn choose_index(&mut self, len: usize) -> (r: Option<usize>)
        requires
            old(self).spec_calls() < u64::MAX,
        ensures
            len == 0 ==> r is None && *final(self) == *old(self),
            len > 0 ==> (r matches Some(i) && i < len && i == stream_u64(
                old(self).spec_seed(),
                old(self).spec_calls(),
            ) as int % len as int && final(self).spec_seed() == old(self).spec_seed()
                && final(self).spec_calls() == old(self).spec_calls() + 1),
    {
        if len == 0 {
            return None;
        }
        let w = self.next_word();
        Some((w % (len as u64)) as usize)
    }
}

/// The hexadecimal digit character for a value below sixteen.
pub open spec fn hex_digit_char(d: int) -> char {
    if d == 0 {
        '0'
    } else if d == 1 {
        '1'
    } else if d == 2 {
        '2'
    } else if d == 3 {
        '3'
    } else if d == 4 {
        '4'
    } else if d == 5 {
        '5'
    } else if d == 6 {
        '6'
    } else if d == 7 {
        '7'
    } else if d == 8 {
        '8'
    } else if d == 9 {
        '9'
    } else if d == 10 {
        'a'
    } else if d == 11 {
        'b'
    } else if d == 12 {
        'c'
    } else if d == 13 {
        'd'
    } else if d == 14 {
        'e'
    } else {
        'f'
    }
}

/// The fixed-width lowercase hexadecimal rendering of `v`, `digits` wide,
/// most significant digit first.
pub open spec fn spec_hex(v: u64, digits: nat) -> Seq<char>
    decreases digits,
{
    if digits == 0 {
        Seq::empty()
    } else {
        spec_hex(v / 16, (digits - 1) as nat) + seq![hex_digit_char((v % 16) as int)]
    }
}

/// One lowercase hexadecimal digit as a string slice.
fn hex_digit_str(d: u64) -> (r: &'static str)
    requires
        d < 16,
    ensures
        r@ == seq![hex_digit_char(d as int)],
{
    proof {
        reveal_strlit("0");
        reveal_strlit("1");
        reveal_strlit("2");
        reveal_strlit("3");
        reveal_strlit("4");
        reveal_strlit("5");
        reveal_strlit("6");
        reveal_strlit("7");
        reveal_strlit("8");
        reveal_strlit("9");
        reveal_strlit("a");
        reveal_strlit("b");
        reveal_strlit("c");
        reveal_strlit("d");
        reveal_strlit("e");
        reveal_strlit("f");
    }
    if d == 0 {
        "0"
    } else if d == 1 {
        "1"
    } else if d == 2 {
        "2"
    } else if d == 3 {
        "3"
    } else if d == 4 {
        "4"
    } else if d == 5 {
        "5"
    } else if d == 6 {
        "6"
    } else if d == 7 {
        "7"
    } else if d == 8 {
        "8"
    } else if d == 9 {
        "9"
    } else if d == 10 {
        "a"
    } else if d == 11 {
        "b"
    } else if d == 12 {
        "c"
    } else if d == 13 {
        "d"
    } else if d == 14 {
        "e"
    } else {
        "f"
    }
}

/// Append the fixed-width lowercase hexadecimal rendering of `v`.
fn push_hex(s: &mut String, v: u64, digits: u8)
    ensures
        final(s)@ == old(s)@ + spec_hex(v, digits as nat),
    decreases digits,
{
    if digits == 0 {
        proof {
            assert(old(s)@ + spec_hex(v, 0) =~= old(s)@);
        }
        return ;
    }
    push_hex(s, v / 16, digits - 1);
    let d = hex_digit_str(v % 16);
    s.append(d);
    proof {
        assert(old(s)@ + (spec_hex(v / 16, (digits - 1) as nat) + seq![
            hex_digit_char((v % 16) as int),
        ]) =~= (old(s)@ + spec_hex(v / 16, (digits - 1) as nat)) + seq![
            hex_digit_char((v % 16) as int),
        ]);
    }
}

impl SeededRng {
    /// The entity identifier drawn at stream position `index`: eight hex
    /// digits of the word's low 32 bits.
    pub open spec fn spec_entity_id(seed: u64, index: u64) -> Seq<char> {
        spec_hex(stream_u64(seed, index) % 0x100000000, 8)
    }

    /// Draw a fresh entity identifier: eight lowercase hex digits.
    pub fn entity_id(&mut self) -> (r: String)
        requires
            old(self).spec_calls() < u64::MAX,
        ensures
            r@ == SeededRng::spec_entity_id(old(self).spec_seed(), old(self).spec_calls()),
            final(self).spec_seed() == old(self).spec_seed(),
            final(self).spec_calls() == old(self).spec_calls() + 1,
    {
        let w = self.next_word();
        let mut s = String::new();
        push_hex(&mut s, w % 0x100000000, 8);
        proof {
            assert(Seq::<char>::empty() + spec_hex(w % 0x100000000, 8) =~= spec_hex(
                w % 0x100000000,
                8,
            ));
        }
        s
    }

    /// The visitor identifier drawn at stream position `index`: a `v_`
    /// prefix and six hex digits of the word's low 24 bits.
    pub open spec fn spec_visitor_id(seed: u64, index: u64) -> Seq<char> {
        "v_"@ + spec_hex(stream_u64(seed, index) % 0x1000000, 6)
    }

    /// Draw a fresh visitor identifier: `v_` and six lowercase hex digits.
    pub fn visitor_id(&mut self) -> (r: String)
        requires
            old(self).spec_calls() < u64::MAX,
        ensures
            r@ == SeededRng::spec_visitor_id(old(self).spec_seed(), old(self).spec_calls()),
            final(self).spec_seed() == old(self).spec_seed(),
            final(self).spec_calls() == old(self).spec_calls() + 1,
    {
        let w = self.next_word();
        let mut s: String = "v_".to_owned();
        push_hex(&mut s, w % 0x1000000, 6);
        s
    }
}

/// The part of a generator that can be stored to restore its position.
#[derive(Clone, Copy, PartialEq, Eq, Structural, Debug)]
pub struct RngState {
    pub seed: u64,
    pub calls: u64,
}

impl RngState {
    /// Capture the position of a generator.
    pub fn from_rng(rng: &SeededRng) -> (r: RngState)
        ensures
            r.seed == rng.spec_seed(),
            r.calls == rng.spec_calls(),
    {
        RngState { seed: rng.seed(), calls: rng.calls() }
    }
}

} // verus!
