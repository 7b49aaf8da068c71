use rustc_hash::FxBuildHasher;
use std::hash::BuildHasher;
use vstd::prelude::*;
use vstd::set_lib::{lemma_int_range, lemma_len_subset, set_int_range};

verus! {

/// Hashes a string with `FxBuildHasher::hash_one`. Nothing is stated of the result: the hash
/// depends on the machine's word size.
#[verifier::external_body]
fn fx_hash_one(s: &String) -> (r: u64) {
    FxBuildHasher.hash_one(s)
}

/// The colour code of a hash: its low 32 bits.
pub fn colour_of_hash(hash: u64) -> (r: u32)
    ensures
        r == hash % 0x1_0000_0000,
{
    (hash % 0x1_0000_0000) as u32
}

/// How many colours there are: a code shows as the red, green and blue of its low 24 bits.
pub const COLOUR_COUNT: u32 = 0x100_0000;

/// The colour that a code shows: its low 24 bits.
pub open spec fn rgb(code: u32) -> int {
    code as int % COLOUR_COUNT as int
}

/// The colours of a sequence of identifiers and their codes.
pub open spec fn colours_of(s: Seq<(String, u32)>) -> Seq<int> {
    Seq::new(s.len(), |i: int| rgb(s[i].1))
}

/// Among the colours `0..=k`, one is not among `k` given colours.
proof fn lemma_free_colour(used: Seq<int>)
    ensures
        exists|c: int| 0 <= c <= used.len() && !used.contains(c),
{
    let k = used.len() as int;
    if forall|c: int| 0 <= c <= k ==> used.contains(c) {
        used.lemma_cardinality_of_set();
        vstd::seq_lib::seq_to_set_is_finite(used);
        lemma_int_range(0, k + 1);
        assert forall|x: int| set_int_range(0, k + 1).contains(x) implies used.to_set().contains(
            x,
        ) by {
            assert(used.contains(x));
        }
        lemma_len_subset(set_int_range(0, k + 1), used.to_set());
    }
}

/// Whether some pair of `out` already has the colour of `code`.
fn colour_used(out: &Vec<(String, u32)>, code: u32) -> (r: bool)
    ensures
        r == colours_of(out@).contains(rgb(code)),
{
    let n = out.len();
    for j in 0..n
        invariant
            n == out@.len(),
            forall|m: int| 0 <= m < j ==> colours_of(out@)[m] != rgb(code),
    {
        if out[j].1 % COLOUR_COUNT == code % COLOUR_COUNT {
            assert(colours_of(out@)[j as int] == rgb(code));
            return true;
        }
    }
    false
}

/// The smallest colour, from 0 up, that is not among `used`.
pub open spec fn smallest_free(used: Seq<int>) -> int {
    choose|c: int| 0 <= c && !used.contains(c) && forall|d: int| 0 <= d < c ==> used.contains(d)
}

/// The codes of a sequence of identifiers and their codes.
pub open spec fn codes_of(s: Seq<(String, u32)>) -> Seq<u32> {
    Seq::new(s.len(), |i: int| s[i].1)
}

/// The colour codes for identifiers with hashes `hashes`, in order: the low 32 bits of each
/// hash, unless an earlier code already shows that colour; then the smallest colour that none
/// shows.
pub open spec fn assigned_codes(hashes: Seq<u64>) -> Seq<u32>
    decreases hashes.len(),
{
    if hashes.len() == 0 {
        seq![]
    } else {
        let prev = assigned_codes(hashes.drop_last());
        let used = Seq::new(prev.len(), |i: int| rgb(prev[i]));
        let h = (hashes.last() % 0x1_0000_0000) as u32;
        prev.push(
            if !used.contains(rgb(h)) {
                h
            } else {
                smallest_free(used) as u32
            },
        )
    }
}

/// The smallest colour that no pair of `out` has.
fn free_colour(out: &Vec<(String, u32)>) -> (r: u32)
    requires
        out@.len() < COLOUR_COUNT,
    ensures
        r < COLOUR_COUNT,
        r as int == smallest_free(colours_of(out@)),
        !colours_of(out@).contains(rgb(r)),
{
    let ghost used = colours_of(out@);
    proof {
        lemma_free_colour(used);
    }
    let ghost w = choose|c: int| 0 <= c <= used.len() && !used.contains(c);
    let mut c: u32 = 0;
    loop
        invariant
            used == colours_of(out@),
            out@.len() < COLOUR_COUNT,
            0 <= w <= used.len(),
            !used.contains(w),
            c <= w,
            forall|d: int| 0 <= d < c ==> used.contains(d),
        decreases w - c,
    {
        if !colour_used(out, c) {
            proof {
                let m = smallest_free(used);
                assert(0 <= c && !used.contains(c as int) && forall|d: int|
                    0 <= d < c ==> used.contains(d));
                if m < c {
                    assert(used.contains(m));
                } else if m > c {
                    assert(used.contains(c as int));
                }
            }
            return c;
        }
        assert(c != w);
        c = c + 1;
    }
}

/// Gives each identifier, in order, the colour code for its hash `hashes[k]` (see
/// [`assigned_codes`]); no two identifiers show the same colour.
pub fn assign_colours(identifiers: &[String], hashes: &[u64]) -> (r: Vec<(String, u32)>)
    requires
        identifiers@.len() == hashes@.len(),
        identifiers@.len() <= COLOUR_COUNT,
    ensures
        r@.len() == identifiers@.len(),
        forall|i: int| 0 <= i < r@.len() ==> (#[trigger] r@[i]).0@ == identifiers@[i]@,
        codes_of(r@) == assigned_codes(hashes@),
        colours_of(r@).no_duplicates(),
{
    let mut out: Vec<(String, u32)> = Vec::new();
    let n = identifiers.len();
    proof {
        assert(codes_of(out@) =~= assigned_codes(hashes@.take(0)));
    }
    for i in 0..n
        invariant
            n == identifiers@.len(),
            n == hashes@.len(),
            n <= COLOUR_COUNT,
            out@.len() == i,
            forall|k: int| 0 <= k < i ==> (#[trigger] out@[k]).0@ == identifiers@[k]@,
            colours_of(out@).no_duplicates(),
            codes_of(out@) == assigned_codes(hashes@.take(i as int)),
    {
        let id = &identifiers[i];
        let hashed = colour_of_hash(hashes[i]);
        let ghost prev = codes_of(out@);
        let ghost t = hashes@.take(i + 1);
        proof {
            assert(t.drop_last() =~= hashes@.take(i as int));
            assert(t.last() == hashes@[i as int]);
            assert(Seq::new(prev.len(), |j: int| rgb(prev[j])) =~= colours_of(out@));
        }
        let code = if colour_used(&out, hashed) {
            free_colour(&out)
        } else {
            hashed
        };
        let ghost before = colours_of(out@);
        out.push((id.clone(), code));
        proof {
            assert(colours_of(out@) =~= before.push(rgb(code)));
            assert(codes_of(out@) =~= prev.push(code));
            assert(codes_of(out@) == assigned_codes(t));
        }
    }
    proof {
        assert(hashes@.take(n as int) =~= hashes@);
    }
    out
}

/// Generate unique colours for each parser: each identifier, in order, with the colour code for
/// its hash (see [`assigned_codes`]). No two identifiers show the same colour (the low 24 bits of
/// their codes).
pub fn generate_colours(identifiers: &[String]) -> (r: Vec<(String, u32)>)
    requires
        identifiers@.len() <= COLOUR_COUNT,
    ensures
        r@.len() == identifiers@.len(),
        forall|i: int| 0 <= i < r@.len() ==> (#[trigger] r@[i]).0@ == identifiers@[i]@,
        exists|hashes: Seq<u64>|
            hashes.len() == identifiers@.len() && codes_of(r@) == #[trigger] assigned_codes(hashes),
        colours_of(r@).no_duplicates(),
        (forall|a: int, b: int|
            0 <= a < b < identifiers@.len() ==> identifiers@[a]@ != identifiers@[b]@) ==> (forall|
            a: int,
            b: int,
        | 0 <= a < b < r@.len() ==> r@[a].0@ != r@[b].0@),
{
    let mut hashes: Vec<u64> = Vec::new();
    let n = identifiers.len();
    for i in 0..n
        invariant
            n == identifiers@.len(),
            hashes@.len() == i,
    {
        hashes.push(fx_hash_one(&identifiers[i]));
    }
    assign_colours(identifiers, hashes.as_slice())
}

} // verus!
