//! The hotkey engine: compiles key bindings into bit masks once, then answers
//! per-tick queries from two keyboard snapshots and two held-duration counters.
//!
//! Every key used by any binding is assigned one bit of a 32-bit mask, in
//! first-seen order over the bindings processed in a fixed sequence. A chord's
//! mask is the OR of its keys' bits; a snapshot is the OR of the pressed keys'
//! bits; a chord is active when the snapshot contains all of its bits. Keys
//! that no binding uses keep mask zero and are invisible to the engine.

use vstd::prelude::*;

use crate::keycode::{Keycode, KEYCODE_COUNT, lemma_ordinal_injective};
use crate::platform::KeycodeType;

verus! {

// ---------------------------------------------------------------------------
// Bindings
// ---------------------------------------------------------------------------

/// The user-facing configuration: one chord (a list of keys that must all be
/// held) per action.
pub struct KeyBindings {
    pub up: Vec<Keycode>,
    pub down: Vec<Keycode>,
    pub left: Vec<Keycode>,
    pub right: Vec<Keycode>,
    pub cycle_monitor: Vec<Keycode>,
    pub scale_increase: Vec<Keycode>,
    pub scale_decrease: Vec<Keycode>,
    pub toggle_hidden: Vec<Keycode>,
    pub toggle_adjust: Vec<Keycode>,
    pub toggle_color_picker: Vec<Keycode>,
}

impl KeyBindings {
    /// All binding keys concatenated in the fixed order in which the bit
    /// compiler processes them.
    pub open spec fn all_keys(self) -> Seq<Keycode> {
        self.up@ + self.down@ + self.left@ + self.right@ + self.cycle_monitor@
            + self.scale_increase@ + self.scale_decrease@ + self.toggle_hidden@
            + self.toggle_adjust@ + self.toggle_color_picker@
    }
}

// ---------------------------------------------------------------------------
// The bit-assignment model
// ---------------------------------------------------------------------------

/// How many distinct keys occur in `keys`.
pub open spec fn distinct_count(keys: Seq<Keycode>) -> nat
    decreases keys.len(),
{
    if keys.len() == 0 {
        0
    } else if keys.drop_last().contains(keys.last()) {
        distinct_count(keys.drop_last())
    } else {
        distinct_count(keys.drop_last()) + 1
    }
}

/// Position of `k` in first-seen order: how many distinct keys occur strictly
/// before the first occurrence of `k`. Meaningful only when `keys` contains `k`.
pub open spec fn first_seen_rank(keys: Seq<Keycode>, k: Keycode) -> nat
    decreases keys.len(),
{
    if keys.len() == 0 {
        0
    } else if keys.drop_last().contains(k) || keys.last() != k {
        first_seen_rank(keys.drop_last(), k)
    } else {
        distinct_count(keys.drop_last())
    }
}

/// The single-bit mask assigned to `k` by compiling `keys`: bit number
/// `first_seen_rank`, or zero when `k` is unused or the assignment would not
/// fit in 32 bits.
pub open spec fn key_mask(keys: Seq<Keycode>, k: Keycode) -> u32 {
    if keys.contains(k) && first_seen_rank(keys, k) < 32 {
        1u32 << (first_seen_rank(keys, k) as u32)
    } else {
        0u32
    }
}

/// The bit the compiler hands to the next newly seen key: bit number
/// `distinct_count`, or zero once all 32 bits are taken.
pub open spec fn next_bit(keys: Seq<Keycode>) -> u32 {
    if distinct_count(keys) < 32 {
        1u32 << (distinct_count(keys) as u32)
    } else {
        0u32
    }
}

/// The OR of the masks of all keys in `chord`, under the assignment compiled
/// from `keys`. This is both an action's chord mask and, applied to a
/// pressed-key list, a snapshot.
pub open spec fn chord_mask(keys: Seq<Keycode>, chord: Seq<Keycode>) -> u32
    decreases chord.len(),
{
    if chord.len() == 0 {
        0u32
    } else {
        chord_mask(keys, chord.drop_last()) | key_mask(keys, chord.last())
    }
}

/// A chord is active when the snapshot holds every one of its bits. Unrelated
/// pressed keys never prevent activation, and an empty chord (mask zero) is
/// always active.
pub open spec fn chord_active(snapshot: u32, mask: u32) -> bool {
    snapshot & mask == mask
}

/// A category is active when the snapshot holds any one of its bits.
pub open spec fn category_active(snapshot: u32, mask: u32) -> bool {
    snapshot & mask != 0u32
}

/// An edge-triggered action fires on the tick its chord goes from inactive to
/// active.
pub open spec fn just_pressed(prev: u32, cur: u32, mask: u32) -> bool {
    !chord_active(prev, mask) && chord_active(cur, mask)
}

/// The hold-to-accelerate table: a single tap gives an immediate nudge of 1,
/// a deliberate pause of 0 follows, then acceleration resumes in steps. The
/// dip is intentional ("tap for one step, hold to accelerate").
pub open spec fn ramp(frames: u32) -> u32 {
    if frames < 2 {
        1u32
    } else if frames < 10 {
        0u32
    } else if frames < 25 {
        1u32
    } else if frames < 35 {
        4u32
    } else if frames < 55 {
        16u32
    } else if frames < 75 {
        32u32
    } else {
        64u32
    }
}

/// How a held-duration counter advances on one tick: up by one while its
/// category stays active (sticking at the top of its range), reset to zero
/// the instant the category goes inactive.
pub open spec fn next_counter(active: bool, frames: u32) -> u32 {
    if active {
        if frames == u32::MAX {
            frames
        } else {
            (frames + 1) as u32
        }
    } else {
        0u32
    }
}

// ---------------------------------------------------------------------------
// Bit-level facts
// ---------------------------------------------------------------------------

proof fn lemma_bv_single_bit_nonzero(n: u32)
    by (bit_vector)
    requires
        n < 32,
    ensures
        (1u32 << n) != 0,
{
}

proof fn lemma_bv_shift_step(n: u32)
    by (bit_vector)
    requires
        n < 31,
    ensures
        ((1u32 << n) << 1) == (1u32 << (n + 1)),
{
}

proof fn lemma_bv_shift_top()
    by (bit_vector)
    ensures
        ((1u32 << 31) << 1) == 0,
{
}

proof fn lemma_bv_single_bits_disjoint(m: u32, n: u32)
    by (bit_vector)
    requires
        m < 32,
        n < 32,
        m != n,
    ensures
        ((1u32 << m) & (1u32 << n)) == 0,
{
}

proof fn lemma_bv_or_zero(x: u32)
    by (bit_vector)
    ensures
        (x | 0) == x,
        (x & 0) == 0,
        (0 & x) == 0,
{
}

proof fn lemma_bv_or_keeps_bits(m: u32, y: u32, v: u32)
    by (bit_vector)
    requires
        (m & v) == v,
    ensures
        ((m | y) & v) == v,
{
}

proof fn lemma_bv_or_misses_bits(m: u32, y: u32, v: u32)
    by (bit_vector)
    requires
        (m & v) == 0,
        (y & v) == 0,
    ensures
        ((m | y) & v) == 0,
{
}

proof fn lemma_bv_missing_bit_refutes(s: u32, m: u32, v: u32)
    by (bit_vector)
    requires
        (s & v) == 0,
        (m & v) == v,
        v != 0,
    ensures
        (s & m) != m,
{
}

// ---------------------------------------------------------------------------
// Facts about the assignment model
// ---------------------------------------------------------------------------

/// Appending keys never loses distinct keys.
proof fn lemma_distinct_count_grows(s: Seq<Keycode>, t: Seq<Keycode>)
    ensures
        distinct_count(s) <= distinct_count(s + t),
    decreases t.len(),
{
    if t.len() == 0 {
        assert(s + t =~= s);
    } else {
        lemma_distinct_count_grows(s, t.drop_last());
        assert((s + t).drop_last() =~= s + t.drop_last());
    }
}

/// The rank of a key that occurs in `s` lies below the distinct count.
proof fn lemma_rank_below_distinct(s: Seq<Keycode>, k: Keycode)
    requires
        s.contains(k),
    ensures
        first_seen_rank(s, k) < distinct_count(s),
    decreases s.len(),
{
    let p = s.drop_last();
    if p.contains(k) || s.last() != k {
        assert(p.contains(k)) by {
            if !p.contains(k) {
                let i = choose|i: int| 0 <= i < s.len() && s[i] == k;
                assert(s[i] == k);
                assert(i < s.len() - 1 || s.last() == k);
                assert(p[i] == k);
            }
        }
        lemma_rank_below_distinct(p, k);
    }
}

/// Two distinct keys occurring in `s` get distinct ranks.
proof fn lemma_rank_injective(s: Seq<Keycode>, k1: Keycode, k2: Keycode)
    requires
        s.contains(k1),
        s.contains(k2),
        k1 != k2,
    ensures
        first_seen_rank(s, k1) != first_seen_rank(s, k2),
    decreases s.len(),
{
    let p = s.drop_last();
    let in_p_1 = p.contains(k1) || s.last() != k1;
    let in_p_2 = p.contains(k2) || s.last() != k2;
    if in_p_1 && in_p_2 {
        assert(p.contains(k1)) by {
            lemma_contained_in_prefix(s, k1);
        }
        assert(p.contains(k2)) by {
            lemma_contained_in_prefix(s, k2);
        }
        lemma_rank_injective(p, k1, k2);
    } else if !in_p_1 {
        // k1 first occurs at the last position, so k2 occurs in the prefix.
        assert(p.contains(k2)) by {
            lemma_contained_in_prefix(s, k2);
        }
        lemma_rank_below_distinct(p, k2);
    } else {
        assert(p.contains(k1)) by {
            lemma_contained_in_prefix(s, k1);
        }
        lemma_rank_below_distinct(p, k1);
    }
}

/// A key of `s` whose first occurrence is not the last position occurs in the
/// prefix before the last position.
proof fn lemma_contained_in_prefix(s: Seq<Keycode>, k: Keycode)
    requires
        s.len() > 0,
        s.contains(k),
        s.drop_last().contains(k) || s.last() != k,
    ensures
        s.drop_last().contains(k),
{
    if !s.drop_last().contains(k) {
        let i = choose|i: int| 0 <= i < s.len() && s[i] == k;
        assert(i < s.len() - 1 ==> s.drop_last()[i] == k);
    }
}

/// Under a feasible assignment, a key's mask is zero exactly when no binding
/// uses it.
proof fn lemma_key_mask_zero(s: Seq<Keycode>, k: Keycode)
    requires
        distinct_count(s) <= 32,
    ensures
        key_mask(s, k) == 0 <==> !s.contains(k),
{
    if s.contains(k) {
        lemma_rank_below_distinct(s, k);
        lemma_bv_single_bit_nonzero(first_seen_rank(s, k) as u32);
    }
}

/// Under a feasible assignment, distinct keys get disjoint masks.
proof fn lemma_key_masks_disjoint(s: Seq<Keycode>, k1: Keycode, k2: Keycode)
    requires
        distinct_count(s) <= 32,
        k1 != k2,
    ensures
        (key_mask(s, k1) & key_mask(s, k2)) == 0,
{
    if !s.contains(k1) || first_seen_rank(s, k1) >= 32 {
        lemma_bv_or_zero(key_mask(s, k2));
    } else if !s.contains(k2) || first_seen_rank(s, k2) >= 32 {
        lemma_bv_or_zero(key_mask(s, k1));
    } else {
        lemma_rank_injective(s, k1, k2);
        lemma_bv_single_bits_disjoint(
            first_seen_rank(s, k1) as u32,
            first_seen_rank(s, k2) as u32,
        );
    }
}

/// Appending a key that is already assigned changes no key's mask.
proof fn lemma_key_mask_push_seen(s: Seq<Keycode>, k: Keycode)
    requires
        s.contains(k),
    ensures
        forall|k2: Keycode| key_mask(s.push(k), k2) == key_mask(s, k2),
        distinct_count(s.push(k)) == distinct_count(s),
{
    assert(s.push(k).drop_last() =~= s);
    assert forall|k2: Keycode| key_mask(s.push(k), k2) == key_mask(s, k2) by {
        assert(s.push(k).contains(k2) <==> s.contains(k2)) by {
            if s.push(k).contains(k2) && !s.contains(k2) {
                let i = choose|i: int| 0 <= i < s.push(k).len() && s.push(k)[i] == k2;
                assert(i < s.len() ==> s[i] == k2);
            }
            if s.contains(k2) {
                let i = choose|i: int| 0 <= i < s.len() && s[i] == k2;
                assert(s.push(k)[i] == k2);
            }
        }
    }
}

/// Appending a newly seen key gives it the next bit and changes no other
/// key's mask.
proof fn lemma_key_mask_push_new(s: Seq<Keycode>, k: Keycode)
    requires
        !s.contains(k),
        distinct_count(s) < 32,
    ensures
        key_mask(s.push(k), k) == next_bit(s),
        forall|k2: Keycode| k2 != k ==> key_mask(s.push(k), k2) == key_mask(s, k2),
        distinct_count(s.push(k)) == distinct_count(s) + 1,
{
    assert(s.push(k).drop_last() =~= s);
    assert(s.push(k).contains(k)) by {
        assert(s.push(k)[s.len() as int] == k);
    }
    assert(first_seen_rank(s.push(k), k) == distinct_count(s));
    assert forall|k2: Keycode| k2 != k implies key_mask(s.push(k), k2) == key_mask(s, k2) by {
        assert(s.push(k).contains(k2) <==> s.contains(k2)) by {
            if s.push(k).contains(k2) && !s.contains(k2) {
                let i = choose|i: int| 0 <= i < s.push(k).len() && s.push(k)[i] == k2;
                assert(i < s.len() ==> s[i] == k2);
            }
            if s.contains(k2) {
                let i = choose|i: int| 0 <= i < s.len() && s[i] == k2;
                assert(s.push(k)[i] == k2);
            }
        }
    }
}

/// A chord's mask contains the mask of each of its keys.
proof fn lemma_chord_mask_covers_key(keys: Seq<Keycode>, chord: Seq<Keycode>, j: int)
    requires
        0 <= j < chord.len(),
    ensures
        (chord_mask(keys, chord) & key_mask(keys, chord[j])) == key_mask(keys, chord[j]),
    decreases chord.len(),
{
    let v = key_mask(keys, chord[j]);
    let prefix = chord.drop_last();
    if j == chord.len() - 1 {
        assert(chord[j] == chord.last());
        let m = chord_mask(keys, prefix);
        assert(((m | v) & v) == v) by (bit_vector);
    } else {
        lemma_chord_mask_covers_key(keys, prefix, j);
        lemma_bv_or_keeps_bits(chord_mask(keys, prefix), key_mask(keys, chord.last()), v);
    }
}

/// A chord over keys all distinct from `k` never holds `k`'s bit.
proof fn lemma_chord_mask_misses_key(keys: Seq<Keycode>, chord: Seq<Keycode>, k: Keycode)
    requires
        distinct_count(keys) <= 32,
        forall|i: int| 0 <= i < chord.len() ==> #[trigger] chord[i] != k,
    ensures
        (chord_mask(keys, chord) & key_mask(keys, k)) == 0,
    decreases chord.len(),
{
    let v = key_mask(keys, k);
    if chord.len() == 0 {
        lemma_bv_or_zero(v);
    } else {
        lemma_chord_mask_misses_key(keys, chord.drop_last(), k);
        lemma_key_masks_disjoint(keys, chord.last(), k);
        lemma_bv_or_misses_bits(
            chord_mask(keys, chord.drop_last()),
            key_mask(keys, chord.last()),
            v,
        );
    }
}

proof fn lemma_bv_shift_zero()
    by (bit_vector)
    ensures
        (1u32 << 0u32) == 1,
{
}

// ---------------------------------------------------------------------------
// The compiled table
// ---------------------------------------------------------------------------

/// OR together the table entries of every key in `chord`. This computes an
/// action's chord mask, and, applied to the pressed-key list of one tick, a
/// snapshot. Cost is linear in `chord`, independent of how many bindings are
/// configured.
fn combined_mask(
    chord: &[Keycode],
    lookup_table: &Vec<u32>,
    Ghost(keys): Ghost<Seq<Keycode>>,
) -> (mask: u32)
    requires
        lookup_table@.len() == KEYCODE_COUNT,
        forall|k: Keycode| #[trigger] lookup_table@[k.ordinal()] == key_mask(keys, k),
    ensures
        mask == chord_mask(keys, chord@),
{
    let mut mask: u32 = 0;
    let mut i: usize = 0;
    while i < chord.len()
        invariant
            i <= chord@.len(),
            lookup_table@.len() == KEYCODE_COUNT,
            forall|k: Keycode| #[trigger] lookup_table@[k.ordinal()] == key_mask(keys, k),
            mask == chord_mask(keys, chord@.subrange(0, i as int)),
        decreases chord@.len() - i,
    {
        let k = chord[i];
        let idx = k.index();
        proof {
            crate::keycode::lemma_ordinal_bounds(k);
            assert(lookup_table@[k.ordinal()] == key_mask(keys, k));
        }
        let entry = lookup_table[idx];
        mask = mask | entry;
        proof {
            assert(chord@.subrange(0, i as int + 1) =~= chord@.subrange(0, i as int).push(
                chord@[i as int],
            ));
            assert(chord@.subrange(0, i as int + 1).drop_last() =~= chord@.subrange(0, i as int));
        }
        i = i + 1;
    }
    proof {
        assert(chord@.subrange(0, chord@.len() as int) =~= chord@);
    }
    mask
}

/// The bit-assignment table and the per-action masks, compiled once from a
/// `KeyBindings` value and immutable afterwards.
struct KeyBuffer {
    lookup_table: Vec<u32>,
    up_mask: u32,
    down_mask: u32,
    left_mask: u32,
    right_mask: u32,
    cycle_monitor_mask: u32,
    scale_increase_mask: u32,
    scale_decrease_mask: u32,
    toggle_hidden_mask: u32,
    toggle_adjust_mask: u32,
    toggle_color_picker_mask: u32,
    any_movement_mask: u32,
    any_scale_mask: u32,
    keys: Ghost<Seq<Keycode>>,
}

impl KeyBuffer {
    /// The lookup table realizes the first-seen bit assignment of the
    /// compiled key sequence.
    spec fn wf(self) -> bool {
        &&& self.lookup_table@.len() == KEYCODE_COUNT
        &&& distinct_count(self.keys@) <= 32
        &&& forall|k: Keycode| #[trigger] self.lookup_table@[k.ordinal()] == key_mask(
            self.keys@,
            k,
        )
    }

    /// Every mask is the chord mask of its binding under `kb`'s assignment.
    spec fn models(self, kb: KeyBindings) -> bool {
        &&& self.keys@ == kb.all_keys()
        &&& self.up_mask == chord_mask(kb.all_keys(), kb.up@)
        &&& self.down_mask == chord_mask(kb.all_keys(), kb.down@)
        &&& self.left_mask == chord_mask(kb.all_keys(), kb.left@)
        &&& self.right_mask == chord_mask(kb.all_keys(), kb.right@)
        &&& self.cycle_monitor_mask == chord_mask(kb.all_keys(), kb.cycle_monitor@)
        &&& self.scale_increase_mask == chord_mask(kb.all_keys(), kb.scale_increase@)
        &&& self.scale_decrease_mask == chord_mask(kb.all_keys(), kb.scale_decrease@)
        &&& self.toggle_hidden_mask == chord_mask(kb.all_keys(), kb.toggle_hidden@)
        &&& self.toggle_adjust_mask == chord_mask(kb.all_keys(), kb.toggle_adjust@)
        &&& self.toggle_color_picker_mask == chord_mask(kb.all_keys(), kb.toggle_color_picker@)
        &&& self.any_movement_mask == (self.up_mask | self.down_mask | self.left_mask
            | self.right_mask)
        &&& self.any_scale_mask == (self.scale_increase_mask | self.scale_decrease_mask)
    }
}

/// Walk one binding and assign the next free bit to each key not seen before.
/// Fails exactly when a 33rd distinct key would need a bit.
fn assign_binding_bits(
    binding: &Vec<Keycode>,
    bit: &mut u32,
    lookup_table: &mut Vec<u32>,
    Ghost(prior): Ghost<Seq<Keycode>>,
) -> (r: Result<(), &'static str>)
    requires
        old(lookup_table)@.len() == KEYCODE_COUNT,
        distinct_count(prior) <= 32,
        *old(bit) == next_bit(prior),
        forall|k: Keycode| #[trigger] old(lookup_table)@[k.ordinal()] == key_mask(prior, k),
    ensures
        final(lookup_table)@.len() == KEYCODE_COUNT,
        r is Ok <==> distinct_count(prior + binding@) <= 32,
        r is Ok ==> *final(bit) == next_bit(prior + binding@),
        r is Ok ==> forall|k: Keycode| #[trigger] final(lookup_table)@[k.ordinal()] == key_mask(
            prior + binding@,
            k,
        ),
{
    let ghost mut processed: Seq<Keycode> = prior;
    let mut i: usize = 0;
    while i < binding.len()
        invariant
            i <= binding@.len(),
            lookup_table@.len() == KEYCODE_COUNT,
            processed == prior + binding@.subrange(0, i as int),
            distinct_count(processed) <= 32,
            *bit == next_bit(processed),
            forall|k: Keycode| #[trigger] lookup_table@[k.ordinal()] == key_mask(processed, k),
        decreases binding@.len() - i,
    {
        let k = binding[i];
        let idx = k.index();
        proof {
            crate::keycode::lemma_ordinal_bounds(k);
            assert(lookup_table@[k.ordinal()] == key_mask(processed, k));
            lemma_key_mask_zero(processed, k);
        }
        let entry = lookup_table[idx];
        if entry == 0 {
            // `k` has no bit yet; a zero `bit` means the previous assignment
            // took the last of the 32 bits.
            if *bit == 0 {
                proof {
                    if distinct_count(processed) < 32 {
                        lemma_bv_single_bit_nonzero(distinct_count(processed) as u32);
                    }
                    assert(processed.push(k).drop_last() =~= processed);
                    assert(distinct_count(processed.push(k)) == 33);
                    let suffix = binding@.subrange(i as int + 1, binding@.len() as int);
                    assert(prior + binding@ =~= processed.push(k) + suffix);
                    lemma_distinct_count_grows(processed.push(k), suffix);
                }
                return Err("Only 32 distinct keys may be used for hotkeys at this time.");
            }
            let ghost pre_table = lookup_table@;
            let b = *bit;
            lookup_table[idx] = b;
            *bit = b << 1;
            proof {
                let d = distinct_count(processed);
                lemma_key_mask_push_new(processed, k);
                assert forall|k2: Keycode| #[trigger] lookup_table@[k2.ordinal()] == key_mask(
                    processed.push(k),
                    k2,
                ) by {
                    crate::keycode::lemma_ordinal_bounds(k2);
                    if k2.ordinal() == k.ordinal() {
                        lemma_ordinal_injective(k2, k);
                    } else {
                        assert(pre_table[k2.ordinal()] == key_mask(processed, k2));
                    }
                }
                if d < 31 {
                    lemma_bv_shift_step(d as u32);
                } else {
                    lemma_bv_shift_top();
                }
                processed = processed.push(k);
            }
        } else {
            proof {
                lemma_key_mask_push_seen(processed, k);
                processed = processed.push(k);
            }
        }
        proof {
            assert(binding@.subrange(0, i as int + 1) =~= binding@.subrange(0, i as int).push(
                binding@[i as int],
            ));
            assert(processed =~= prior + binding@.subrange(0, i as int + 1));
        }
        i = i + 1;
    }
    proof {
        assert(binding@.subrange(0, binding@.len() as int) =~= binding@);
    }
    Ok(())
}

impl KeyBuffer {
    /// Compile `key_bindings`: assign a bit to each distinct key in the fixed
    /// action order, then read each action's chord mask off the finished
    /// table. Fails exactly when the bindings use more than 32 distinct keys.
    fn new(key_bindings: &KeyBindings) -> (r: Result<KeyBuffer, &'static str>)
        ensures
            r is Ok <==> distinct_count(key_bindings.all_keys()) <= 32,
            r is Ok ==> (r->Ok_0).wf() && (r->Ok_0).models(*key_bindings),
    {
        let ghost all = key_bindings.all_keys();
        let mut bit: u32 = 1;
        let mut lookup_table: Vec<u32> = vec![0u32; KEYCODE_COUNT];
        let ghost mut processed: Seq<Keycode> = Seq::empty();
        proof {
            lemma_bv_shift_zero();
            assert forall|k: Keycode| #[trigger] lookup_table@[k.ordinal()] == key_mask(
                processed,
                k,
            ) by {
                crate::keycode::lemma_ordinal_bounds(k);
            }
        }
        match assign_binding_bits(&key_bindings.up, &mut bit, &mut lookup_table, Ghost(processed)) {
            Ok(()) => {},
            Err(e) => {
                proof {
                    let done = processed + key_bindings.up@;
                    let rest = key_bindings.down@ + key_bindings.left@ + key_bindings.right@
                        + key_bindings.cycle_monitor@ + key_bindings.scale_increase@
                        + key_bindings.scale_decrease@ + key_bindings.toggle_hidden@
                        + key_bindings.toggle_adjust@ + key_bindings.toggle_color_picker@;
                    assert(all =~= done + rest);
                    lemma_distinct_count_grows(done, rest);
                }
                return Err(e);
            },
        }
        proof {
            processed = processed + key_bindings.up@;
        }
        match assign_binding_bits(
            &key_bindings.down,
            &mut bit,
            &mut lookup_table,
            Ghost(processed),
        ) {
            Ok(()) => {},
            Err(e) => {
                proof {
                    let done = processed + key_bindings.down@;
                    let rest = key_bindings.left@ + key_bindings.right@ + key_bindings.cycle_monitor@
                        + key_bindings.scale_increase@ + key_bindings.scale_decrease@
                        + key_bindings.toggle_hidden@ + key_bindings.toggle_adjust@
                        + key_bindings.toggle_color_picker@;
                    assert(all =~= done + rest);
                    lemma_distinct_count_grows(done, rest);
                }
                return Err(e);
            },
        }
        proof {
            processed = processed + key_bindings.down@;
        }
        match assign_binding_bits(
            &key_bindings.left,
            &mut bit,
            &mut lookup_table,
            Ghost(processed),
        ) {
            Ok(()) => {},
            Err(e) => {
                proof {
                    let done = processed + key_bindings.left@;
                    let rest = key_bindings.right@ + key_bindings.cycle_monitor@
                        + key_bindings.scale_increase@ + key_bindings.scale_decrease@
                        + key_bindings.toggle_hidden@ + key_bindings.toggle_adjust@
                        + key_bindings.toggle_color_picker@;
                    assert(all =~= done + rest);
                    lemma_distinct_count_grows(done, rest);
                }
                return Err(e);
            },
        }
        proof {
            processed = processed + key_bindings.left@;
        }
        match assign_binding_bits(
            &key_bindings.right,
            &mut bit,
            &mut lookup_table,
            Ghost(processed),
        ) {
            Ok(()) => {},
            Err(e) => {
                proof {
                    let done = processed + key_bindings.right@;
                    let rest = key_bindings.cycle_monitor@ + key_bindings.scale_increase@
                        + key_bindings.scale_decrease@ + key_bindings.toggle_hidden@
                        + key_bindings.toggle_adjust@ + key_bindings.toggle_color_picker@;
                    assert(all =~= done + rest);
                    lemma_distinct_count_grows(done, rest);
                }
                return Err(e);
            },
        }
        proof {
            processed = processed + key_bindings.right@;
        }
        match assign_binding_bits(
            &key_bindings.cycle_monitor,
            &mut bit,
            &mut lookup_table,
            Ghost(processed),
        ) {
            Ok(()) => {},
            Err(e) => {
                proof {
                    let done = processed + key_bindings.cycle_monitor@;
                    let rest = key_bindings.scale_increase@ + key_bindings.scale_decrease@
                        + key_bindings.toggle_hidden@ + key_bindings.toggle_adjust@
                        + key_bindings.toggle_color_picker@;
                    assert(all =~= done + rest);
                    lemma_distinct_count_grows(done, rest);
                }
                return Err(e);
            },
        }
        proof {
            processed = processed + key_bindings.cycle_monitor@;
        }
        match assign_binding_bits(
            &key_bindings.scale_increase,
            &mut bit,
            &mut lookup_table,
            Ghost(processed),
        ) {
            Ok(()) => {},
            Err(e) => {
                proof {
                    let done = processed + key_bindings.scale_increase@;
                    let rest = key_bindings.scale_decrease@ + key_bindings.toggle_hidden@
                        + key_bindings.toggle_adjust@ + key_bindings.toggle_color_picker@;
                    assert(all =~= done + rest);
                    lemma_distinct_count_grows(done, rest);
                }
                return Err(e);
            },
        }
        proof {
            processed = processed + key_bindings.scale_increase@;
        }
        match assign_binding_bits(
            &key_bindings.scale_decrease,
            &mut bit,
            &mut lookup_table,
            Ghost(processed),
        ) {
            Ok(()) => {},
            Err(e) => {
                proof {
                    let done = processed + key_bindings.scale_decrease@;
                    let rest = key_bindings.toggle_hidden@ + key_bindings.toggle_adjust@
                        + key_bindings.toggle_color_picker@;
                    assert(all =~= done + rest);
                    lemma_distinct_count_grows(done, rest);
                }
                return Err(e);
            },
        }
        proof {
            processed = processed + key_bindings.scale_decrease@;
        }
        match assign_binding_bits(
            &key_bindings.toggle_hidden,
            &mut bit,
            &mut lookup_table,
            Ghost(processed),
        ) {
            Ok(()) => {},
            Err(e) => {
                proof {
                    let done = processed + key_bindings.toggle_hidden@;
                    let rest = key_bindings.toggle_adjust@ + key_bindings.toggle_color_picker@;
                    assert(all =~= done + rest);
                    lemma_distinct_count_grows(done, rest);
                }
                return Err(e);
            },
        }
        proof {
            processed = processed + key_bindings.toggle_hidden@;
        }
        match assign_binding_bits(
            &key_bindings.toggle_adjust,
            &mut bit,
            &mut lookup_table,
            Ghost(processed),
        ) {
            Ok(()) => {},
            Err(e) => {
                proof {
                    let done = processed + key_bindings.toggle_adjust@;
                    let rest = key_bindings.toggle_color_picker@;
                    assert(all =~= done + rest);
                    lemma_distinct_count_grows(done, rest);
                }
                return Err(e);
            },
        }
        proof {
            processed = processed + key_bindings.toggle_adjust@;
        }
        match assign_binding_bits(
            &key_bindings.toggle_color_picker,
            &mut bit,
            &mut lookup_table,
            Ghost(processed),
        ) {
            Ok(()) => {},
            Err(e) => {
                proof {
                    let done = processed + key_bindings.toggle_color_picker@;
                    let rest = Seq::<Keycode>::empty();
                    assert(all =~= done + rest);
                    lemma_distinct_count_grows(done, rest);
                }
                return Err(e);
            },
        }
        proof {
            processed = processed + key_bindings.toggle_color_picker@;
            assert(processed =~= all);
        }
        let up_mask = combined_mask(key_bindings.up.as_slice(), &lookup_table, Ghost(processed));
        let down_mask = combined_mask(
            key_bindings.down.as_slice(),
            &lookup_table,
            Ghost(processed),
        );
        let left_mask = combined_mask(
            key_bindings.left.as_slice(),
            &lookup_table,
            Ghost(processed),
        );
        let right_mask = combined_mask(
            key_bindings.right.as_slice(),
            &lookup_table,
            Ghost(processed),
        );
        let cycle_monitor_mask = combined_mask(
            key_bindings.cycle_monitor.as_slice(),
            &lookup_table,
            Ghost(processed),
        );
        let scale_increase_mask = combined_mask(
            key_bindings.scale_increase.as_slice(),
            &lookup_table,
            Ghost(processed),
        );
        let scale_decrease_mask = combined_mask(
            key_bindings.scale_decrease.as_slice(),
            &lookup_table,
            Ghost(processed),
        );
        let toggle_hidden_mask = combined_mask(
            key_bindings.toggle_hidden.as_slice(),
            &lookup_table,
            Ghost(processed),
        );
        let toggle_adjust_mask = combined_mask(
            key_bindings.toggle_adjust.as_slice(),
            &lookup_table,
            Ghost(processed),
        );
        let toggle_color_picker_mask = combined_mask(
            key_bindings.toggle_color_picker.as_slice(),
            &lookup_table,
            Ghost(processed),
        );
        let any_movement_mask = up_mask | down_mask | left_mask | right_mask;
        let any_scale_mask = scale_increase_mask | scale_decrease_mask;
        Ok(
            KeyBuffer {
                lookup_table,
                up_mask,
                down_mask,
                left_mask,
                right_mask,
                cycle_monitor_mask,
                scale_increase_mask,
                scale_decrease_mask,
                toggle_hidden_mask,
                toggle_adjust_mask,
                toggle_color_picker_mask,
                any_movement_mask,
                any_scale_mask,
                keys: Ghost(processed),
            },
        )
    }

    /// Does the snapshot contain the whole "move up" chord?
    fn up(&self, buf: u32) -> (r: bool)
        ensures
            r == chord_active(buf, self.up_mask),
    {
        buf & self.up_mask == self.up_mask
    }

    /// Does the snapshot contain the whole "move down" chord?
    fn down(&self, buf: u32) -> (r: bool)
        ensures
            r == chord_active(buf, self.down_mask),
    {
        buf & self.down_mask == self.down_mask
    }

    /// Does the snapshot contain the whole "move left" chord?
    fn left(&self, buf: u32) -> (r: bool)
        ensures
            r == chord_active(buf, self.left_mask),
    {
        buf & self.left_mask == self.left_mask
    }

    /// Does the snapshot contain the whole "move right" chord?
    fn right(&self, buf: u32) -> (r: bool)
        ensures
            r == chord_active(buf, self.right_mask),
    {
        buf & self.right_mask == self.right_mask
    }

    /// Does the snapshot contain the whole "cycle monitor" chord?
    fn cycle_monitor(&self, buf: u32) -> (r: bool)
        ensures
            r == chord_active(buf, self.cycle_monitor_mask),
    {
        buf & self.cycle_monitor_mask == self.cycle_monitor_mask
    }

    /// Does the snapshot contain the whole "scale increase" chord?
    fn scale_increase(&self, buf: u32) -> (r: bool)
        ensures
            r == chord_active(buf, self.scale_increase_mask),
    {
        buf & self.scale_increase_mask == self.scale_increase_mask
    }

    /// Does the snapshot contain the whole "scale decrease" chord?
    fn scale_decrease(&self, buf: u32) -> (r: bool)
        ensures
            r == chord_active(buf, self.scale_decrease_mask),
    {
        buf & self.scale_decrease_mask == self.scale_decrease_mask
    }

    /// Does the snapshot contain the whole "toggle hidden" chord?
    fn toggle_hidden(&self, buf: u32) -> (r: bool)
        ensures
            r == chord_active(buf, self.toggle_hidden_mask),
    {
        buf & self.toggle_hidden_mask == self.toggle_hidden_mask
    }

    /// Does the snapshot contain the whole "toggle adjust" chord?
    fn toggle_adjust(&self, buf: u32) -> (r: bool)
        ensures
            r == chord_active(buf, self.toggle_adjust_mask),
    {
        buf & self.toggle_adjust_mask == self.toggle_adjust_mask
    }

    /// Does the snapshot contain the whole "toggle color picker" chord?
    fn toggle_color_picker(&self, buf: u32) -> (r: bool)
        ensures
            r == chord_active(buf, self.toggle_color_picker_mask),
    {
        buf & self.toggle_color_picker_mask == self.toggle_color_picker_mask
    }

    /// Is any movement-relevant bit down? An OR test, deliberately looser
    /// than exact chord matching: a partial press of a multi-key movement
    /// chord counts as movement activity.
    fn any_movement(&self, buf: u32) -> (r: bool)
        ensures
            r == category_active(buf, self.any_movement_mask),
    {
        buf & self.any_movement_mask != 0
    }

    /// Is any scaling-relevant bit down? The same OR test as `any_movement`.
    fn any_scale(&self, buf: u32) -> (r: bool)
        ensures
            r == category_active(buf, self.any_scale_mask),
    {
        buf & self.any_scale_mask != 0
    }
}

// ---------------------------------------------------------------------------
// The manager
// ---------------------------------------------------------------------------

/// Owns the compiled table plus the per-tick state: the two retained
/// snapshots and the two held-duration counters. The application feeds it the
/// polled key list once per tick via `process_keys` and then reads the query
/// methods.
pub struct HotkeyManager {
    previous_state: u32,
    current_state: u32,
    movement_key_held_frames: u32,
    scale_key_held_frames: u32,
    key_buffer: KeyBuffer,
}

impl HotkeyManager {
    /// The lookup table is consistent with the compiled key sequence.
    pub closed spec fn wf(self) -> bool {
        self.key_buffer.wf()
    }

    /// The concatenated binding keys this manager was compiled from.
    pub closed spec fn compiled_keys(self) -> Seq<Keycode> {
        self.key_buffer.keys@
    }

    pub closed spec fn up_mask(self) -> u32 {
        self.key_buffer.up_mask
    }

    pub closed spec fn down_mask(self) -> u32 {
        self.key_buffer.down_mask
    }

    pub closed spec fn left_mask(self) -> u32 {
        self.key_buffer.left_mask
    }

    pub closed spec fn right_mask(self) -> u32 {
        self.key_buffer.right_mask
    }

    pub closed spec fn cycle_monitor_mask(self) -> u32 {
        self.key_buffer.cycle_monitor_mask
    }

    pub closed spec fn scale_increase_mask(self) -> u32 {
        self.key_buffer.scale_increase_mask
    }

    pub closed spec fn scale_decrease_mask(self) -> u32 {
        self.key_buffer.scale_decrease_mask
    }

    pub closed spec fn toggle_hidden_mask(self) -> u32 {
        self.key_buffer.toggle_hidden_mask
    }

    pub closed spec fn toggle_adjust_mask(self) -> u32 {
        self.key_buffer.toggle_adjust_mask
    }

    pub closed spec fn toggle_color_picker_mask(self) -> u32 {
        self.key_buffer.toggle_color_picker_mask
    }

    pub closed spec fn any_movement_mask(self) -> u32 {
        self.key_buffer.any_movement_mask
    }

    pub closed spec fn any_scale_mask(self) -> u32 {
        self.key_buffer.any_scale_mask
    }

    /// The snapshot left by the tick before the most recent one.
    pub closed spec fn previous_snapshot(self) -> u32 {
        self.previous_state
    }

    /// The snapshot of the most recent tick.
    pub closed spec fn current_snapshot(self) -> u32 {
        self.current_state
    }

    /// Consecutive ticks the movement category has been active.
    pub closed spec fn movement_frames(self) -> u32 {
        self.movement_key_held_frames
    }

    /// Consecutive ticks the scale category has been active.
    pub closed spec fn scale_frames(self) -> u32 {
        self.scale_key_held_frames
    }

    /// The manager's masks are exactly what compiling `kb` gives: each
    /// action's mask is its chord mask under the first-seen bit assignment of
    /// `kb`'s keys, and the category masks are the ORs of their actions'
    /// masks.
    pub open spec fn models(self, kb: KeyBindings) -> bool {
        &&& self.wf()
        &&& self.compiled_keys() == kb.all_keys()
        &&& self.up_mask() == chord_mask(kb.all_keys(), kb.up@)
        &&& self.down_mask() == chord_mask(kb.all_keys(), kb.down@)
        &&& self.left_mask() == chord_mask(kb.all_keys(), kb.left@)
        &&& self.right_mask() == chord_mask(kb.all_keys(), kb.right@)
        &&& self.cycle_monitor_mask() == chord_mask(kb.all_keys(), kb.cycle_monitor@)
        &&& self.scale_increase_mask() == chord_mask(kb.all_keys(), kb.scale_increase@)
        &&& self.scale_decrease_mask() == chord_mask(kb.all_keys(), kb.scale_decrease@)
        &&& self.toggle_hidden_mask() == chord_mask(kb.all_keys(), kb.toggle_hidden@)
        &&& self.toggle_adjust_mask() == chord_mask(kb.all_keys(), kb.toggle_adjust@)
        &&& self.toggle_color_picker_mask() == chord_mask(kb.all_keys(), kb.toggle_color_picker@)
        &&& self.any_movement_mask() == (self.up_mask() | self.down_mask() | self.left_mask()
            | self.right_mask())
        &&& self.any_scale_mask() == (self.scale_increase_mask() | self.scale_decrease_mask())
    }

    /// Nothing but the snapshots and counters differs between `a` and `b`.
    pub open spec fn same_configuration(a: HotkeyManager, b: HotkeyManager) -> bool {
        &&& a.compiled_keys() == b.compiled_keys()
        &&& a.up_mask() == b.up_mask()
        &&& a.down_mask() == b.down_mask()
        &&& a.left_mask() == b.left_mask()
        &&& a.right_mask() == b.right_mask()
        &&& a.cycle_monitor_mask() == b.cycle_monitor_mask()
        &&& a.scale_increase_mask() == b.scale_increase_mask()
        &&& a.scale_decrease_mask() == b.scale_decrease_mask()
        &&& a.toggle_hidden_mask() == b.toggle_hidden_mask()
        &&& a.toggle_adjust_mask() == b.toggle_adjust_mask()
        &&& a.toggle_color_picker_mask() == b.toggle_color_picker_mask()
        &&& a.any_movement_mask() == b.any_movement_mask()
        &&& a.any_scale_mask() == b.any_scale_mask()
    }

    /// Compile `key_bindings` into a manager with zeroed snapshots and
    /// counters. Succeeds exactly when the bindings use at most 32 distinct
    /// keys; on failure the configuration error is returned for the caller to
    /// handle (typically by falling back to default bindings).
    pub fn new(key_bindings: &KeyBindings) -> (r: Result<HotkeyManager, &'static str>)
        ensures
            r is Ok <==> distinct_count(key_bindings.all_keys()) <= 32,
            r is Ok ==> (r->Ok_0).models(*key_bindings),
            r is Ok ==> (r->Ok_0).previous_snapshot() == 0 && (r->Ok_0).current_snapshot() == 0
                && (r->Ok_0).movement_frames() == 0 && (r->Ok_0).scale_frames() == 0,
    {
        let key_buffer = match KeyBuffer::new(key_bindings) {
            Ok(key_buffer) => key_buffer,
            Err(e) => {
                return Err(e);
            },
        };
        Ok(
            HotkeyManager {
                previous_state: 0,
                current_state: 0,
                movement_key_held_frames: 0,
                scale_key_held_frames: 0,
                key_buffer,
            },
        )
    }

    /// Advance one tick with the freshly polled key list: retire the current
    /// snapshot to `previous`, recompute `current` from the pressed keys, and
    /// step each held-duration counter (up by one while its category is
    /// active against the new snapshot, reset to zero otherwise).
    pub fn process_keys(&mut self, keys: &[Keycode])
        requires
            old(self).wf(),
        ensures
            final(self).wf(),
            Self::same_configuration(*old(self), *final(self)),
            final(self).previous_snapshot() == old(self).current_snapshot(),
            final(self).current_snapshot() == chord_mask(old(self).compiled_keys(), keys@),
            final(self).movement_frames() == next_counter(
                category_active(final(self).current_snapshot(), old(self).any_movement_mask()),
                old(self).movement_frames(),
            ),
            final(self).scale_frames() == next_counter(
                category_active(final(self).current_snapshot(), old(self).any_scale_mask()),
                old(self).scale_frames(),
            ),
    {
        self.previous_state = self.current_state;
        let snapshot = combined_mask(keys, &self.key_buffer.lookup_table, Ghost(self.key_buffer.keys@));
        self.current_state = snapshot;

        self.movement_key_held_frames = if self.key_buffer.any_movement(snapshot) {
            if self.movement_key_held_frames == u32::MAX {
                self.movement_key_held_frames
            } else {
                self.movement_key_held_frames + 1
            }
        } else {
            0
        };

        self.scale_key_held_frames = if self.key_buffer.any_scale(snapshot) {
            if self.scale_key_held_frames == u32::MAX {
                self.scale_key_held_frames
            } else {
                self.scale_key_held_frames + 1
            }
        } else {
            0
        };
    }

    /// Did the "toggle hidden" chord just go from inactive to active?
    pub fn toggle_hidden(&self) -> (r: bool)
        ensures
            r == just_pressed(
                self.previous_snapshot(),
                self.current_snapshot(),
                self.toggle_hidden_mask(),
            ),
    {
        let key_buffer = &self.key_buffer;
        !key_buffer.toggle_hidden(self.previous_state) && key_buffer.toggle_hidden(
            self.current_state,
        )
    }

    /// Did the "toggle adjust" chord just go from inactive to active?
    pub fn toggle_adjust(&self) -> (r: bool)
        ensures
            r == just_pressed(
                self.previous_snapshot(),
                self.current_snapshot(),
                self.toggle_adjust_mask(),
            ),
    {
        let key_buffer = &self.key_buffer;
        !key_buffer.toggle_adjust(self.previous_state) && key_buffer.toggle_adjust(
            self.current_state,
        )
    }

    /// Did the "toggle color picker" chord just go from inactive to active?
    pub fn toggle_color_picker(&self) -> (r: bool)
        ensures
            r == just_pressed(
                self.previous_snapshot(),
                self.current_snapshot(),
                self.toggle_color_picker_mask(),
            ),
    {
        let key_buffer = &self.key_buffer;
        !key_buffer.toggle_color_picker(self.previous_state) && key_buffer.toggle_color_picker(
            self.current_state,
        )
    }

    /// Did the "cycle monitor" chord just go from inactive to active?
    pub fn cycle_monitor(&self) -> (r: bool)
        ensures
            r == just_pressed(
                self.previous_snapshot(),
                self.current_snapshot(),
                self.cycle_monitor_mask(),
            ),
    {
        let key_buffer = &self.key_buffer;
        !key_buffer.cycle_monitor(self.previous_state) && key_buffer.cycle_monitor(
            self.current_state,
        )
    }

    /// Move-up magnitude for this tick: the ramp of the movement counter
    /// while the chord is active, zero otherwise.
    pub fn move_up(&self) -> (r: u32)
        ensures
            r == (if chord_active(self.current_snapshot(), self.up_mask()) {
                ramp(self.movement_frames())
            } else {
                0u32
            }),
    {
        if self.key_buffer.up(self.current_state) {
            move_ramp(self.movement_key_held_frames)
        } else {
            0
        }
    }

    /// Move-down magnitude for this tick.
    pub fn move_down(&self) -> (r: u32)
        ensures
            r == (if chord_active(self.current_snapshot(), self.down_mask()) {
                ramp(self.movement_frames())
            } else {
                0u32
            }),
    {
        if self.key_buffer.down(self.current_state) {
            move_ramp(self.movement_key_held_frames)
        } else {
            0
        }
    }

    /// Move-left magnitude for this tick.
    pub fn move_left(&self) -> (r: u32)
        ensures
            r == (if chord_active(self.current_snapshot(), self.left_mask()) {
                ramp(self.movement_frames())
            } else {
                0u32
            }),
    {
        if self.key_buffer.left(self.current_state) {
            move_ramp(self.movement_key_held_frames)
        } else {
            0
        }
    }

    /// Move-right magnitude for this tick.
    pub fn move_right(&self) -> (r: u32)
        ensures
            r == (if chord_active(self.current_snapshot(), self.right_mask()) {
                ramp(self.movement_frames())
            } else {
                0u32
            }),
    {
        if self.key_buffer.right(self.current_state) {
            move_ramp(self.movement_key_held_frames)
        } else {
            0
        }
    }

    /// Scale-increase magnitude for this tick, from the scale counter.
    pub fn scale_increase(&self) -> (r: u32)
        ensures
            r == (if chord_active(self.current_snapshot(), self.scale_increase_mask()) {
                ramp(self.scale_frames())
            } else {
                0u32
            }),
    {
        if self.key_buffer.scale_increase(self.current_state) {
            scale_ramp(self.scale_key_held_frames)
        } else {
            0
        }
    }

    /// Scale-decrease magnitude for this tick, from the scale counter.
    pub fn scale_decrease(&self) -> (r: u32)
        ensures
            r == (if chord_active(self.current_snapshot(), self.scale_decrease_mask()) {
                ramp(self.scale_frames())
            } else {
                0u32
            }),
    {
        if self.key_buffer.scale_decrease(self.current_state) {
            scale_ramp(self.scale_key_held_frames)
        } else {
            0
        }
    }
}

/// The movement acceleration table; see [`ramp`] for the intended shape.
pub fn move_ramp(frames: u32) -> (r: u32)
    ensures
        r == ramp(frames),
{
    if frames < 2 {
        1
    } else if frames < 10 {
        0
    } else if frames < 25 {
        1
    } else if frames < 35 {
        4
    } else if frames < 55 {
        16
    } else if frames < 75 {
        32
    } else {
        64
    }
}

/// The scale acceleration table, identical to the movement table.
pub fn scale_ramp(frames: u32) -> (r: u32)
    ensures
        r == ramp(frames),
{
    if frames < 2 {
        1
    } else if frames < 10 {
        0
    } else if frames < 25 {
        1
    } else if frames < 35 {
        4
    } else if frames < 55 {
        16
    } else if frames < 75 {
        32
    } else {
        64
    }
}

impl Default for KeyBindings {
    /// The documented default bindings.
    fn default() -> (r: Self)
        ensures
            r.up@ == seq![Keycode::Up],
            r.down@ == seq![Keycode::Down],
            r.left@ == seq![Keycode::Left],
            r.right@ == seq![Keycode::Right],
            r.cycle_monitor@ == seq![Keycode::LControl, Keycode::M],
            r.scale_increase@ == seq![Keycode::PageUp],
            r.scale_decrease@ == seq![Keycode::PageDown],
            r.toggle_hidden@ == seq![Keycode::LControl, Keycode::H],
            r.toggle_adjust@ == seq![Keycode::LControl, Keycode::J],
            r.toggle_color_picker@ == seq![Keycode::LControl, Keycode::K],
    {
        let mut up: Vec<Keycode> = Vec::new();
        up.push(Keycode::Up);
        let mut down: Vec<Keycode> = Vec::new();
        down.push(Keycode::Down);
        let mut left: Vec<Keycode> = Vec::new();
        left.push(Keycode::Left);
        let mut right: Vec<Keycode> = Vec::new();
        right.push(Keycode::Right);
        let mut cycle_monitor: Vec<Keycode> = Vec::new();
        cycle_monitor.push(Keycode::LControl);
        cycle_monitor.push(Keycode::M);
        let mut scale_increase: Vec<Keycode> = Vec::new();
        scale_increase.push(Keycode::PageUp);
        let mut scale_decrease: Vec<Keycode> = Vec::new();
        scale_decrease.push(Keycode::PageDown);
        let mut toggle_hidden: Vec<Keycode> = Vec::new();
        toggle_hidden.push(Keycode::LControl);
        toggle_hidden.push(Keycode::H);
        let mut toggle_adjust: Vec<Keycode> = Vec::new();
        toggle_adjust.push(Keycode::LControl);
        toggle_adjust.push(Keycode::J);
        let mut toggle_color_picker: Vec<Keycode> = Vec::new();
        toggle_color_picker.push(Keycode::LControl);
        toggle_color_picker.push(Keycode::K);
        KeyBindings {
            up,
            down,
            left,
            right,
            cycle_monitor,
            scale_increase,
            scale_decrease,
            toggle_hidden,
            toggle_adjust,
            toggle_color_picker,
        }
    }
}

// ---------------------------------------------------------------------------
// Laws
// ---------------------------------------------------------------------------

/// Bit independence: when two bindings compiled together share no key, a
/// snapshot of exactly the first binding's keys never activates the second
/// (nonempty) binding's chord. Since every query method is a function of the
/// snapshots and masks alone, activating one such action can never trigger
/// the other.
pub proof fn lemma_bit_independence(keys: Seq<Keycode>, a: Seq<Keycode>, b: Seq<Keycode>)
    requires
        distinct_count(keys) <= 32,
        forall|j: int| 0 <= j < b.len() ==> keys.contains(#[trigger] b[j]),
        forall|i: int, j: int|
            0 <= i < a.len() && 0 <= j < b.len() ==> #[trigger] a[i] != #[trigger] b[j],
        b.len() > 0,
    ensures
        !chord_active(chord_mask(keys, a), chord_mask(keys, b)),
{
    let k0 = b[0];
    lemma_rank_below_distinct(keys, k0);
    lemma_bv_single_bit_nonzero(first_seen_rank(keys, k0) as u32);
    lemma_chord_mask_covers_key(keys, b, 0);
    assert forall|i: int| 0 <= i < a.len() implies #[trigger] a[i] != k0 by {
        assert(a[i] != b[0]);
    }
    lemma_chord_mask_misses_key(keys, a, k0);
    lemma_bv_missing_bit_refutes(chord_mask(keys, a), chord_mask(keys, b), key_mask(keys, k0));
}

/// Irrelevant-key invariance: a key that no binding uses keeps mask zero, so
/// pressing it changes no snapshot; and since every query method is a
/// function of the snapshots and masks alone, it changes no query result.
pub proof fn lemma_irrelevant_key(keys: Seq<Keycode>, pressed: Seq<Keycode>, k: Keycode)
    requires
        !keys.contains(k),
    ensures
        key_mask(keys, k) == 0,
        chord_mask(keys, pressed.push(k)) == chord_mask(keys, pressed),
{
    assert(pressed.push(k).drop_last() =~= pressed);
    lemma_bv_or_zero(chord_mask(keys, pressed));
}

} // verus!
