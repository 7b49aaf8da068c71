use super::combinator::length_repeat::LengthRepeat;
use super::combinator::map::{MapParser, TryMap};
use super::combinator::Checkpoint;
use super::num::{U16LE, U32LE};
use super::{advanced, outcome_of, taken, Parser, Result};
use vstd::prelude::*;

pub use super::helpers::fold;

verus! {

/// Reads a little-endian `u32`.
pub fn le_u32(input: &mut &[u8]) -> (res: Result<u32>)
    ensures
        advanced(old(input)@, final(input)@),
        outcome_of(res, taken(old(input)@, final(input)@)) == U32LE.spec_parse(old(input)@),
{
    U32LE.parse(input)
}

/// Reads a little-endian `u16`.
pub fn le_u16(input: &mut &[u8]) -> (res: Result<u16>)
    ensures
        advanced(old(input)@, final(input)@),
        outcome_of(res, taken(old(input)@, final(input)@)) == U16LE.spec_parse(old(input)@),
{
    U16LE.parse(input)
}

/// Wrapper which resets the input stream on failure
pub fn checkpoint<P>(inner: P) -> (r: Checkpoint<P>)
    ensures
        r.0 == inner,
{
    Checkpoint(inner)
}

/// A length, then that many values; the input is reset on failure.
pub fn length_repeat<L, V>(length_parser: L, value_parser: V) -> (r: Checkpoint<LengthRepeat<L, V>>)
    ensures
        r.0.length == length_parser,
        r.0.value == value_parser,
{
    checkpoint(LengthRepeat { length: length_parser, value: value_parser })
}

/// For infallible functions: the parser named `name` that applies `map_fn` to what `inner`
/// parsed.
pub fn map<I, F>(name: &str, inner: I, map_fn: F) -> (r: MapParser<I, F>)
    ensures
        r.inner == inner,
        r.func == map_fn,
        r.func_name@ == name@,
        r.label@ == name@,
{
    MapParser { inner, func: map_fn, func_name: name.to_owned(), label: name.to_owned() }
}

/// For fallible functions: the parser named `name` that applies `map_fn` to what `inner` parsed.
pub fn try_map<I, F>(name: &str, inner: I, map_fn: F) -> (r: TryMap<I, F>)
    ensures
        r.inner == inner,
        r.func == map_fn,
        r.func_name@ == name@,
        r.label@ == name@,
{
    TryMap { inner, func: map_fn, func_name: name.to_owned(), label: name.to_owned() }
}

} // verus!
