use super::data::{TDTFileData, TDTFileDataView};
use crate::annotation::{views, AnnoView, Annotation, AnnotationResult, ResultView};
use crate::parser::combinator::conditional::{Check, Cond, Given};
use crate::parser::combinator::delayed::cell_text;
use crate::parser::helpers::{
    adopted, all_within, child_prefix, failed_parent, fold, in_sequence, lemma_step_in_sequence,
    lemma_within_mono, lemma_within_updated, parse_child, shows, span_end, spec_step, step_of,
    Step,
};
use crate::parser::spec::{
    all_ids_among, ids_among, lemma_adopted_ids, lemma_identifiers_root, spec_identifiers,
};
use crate::parser::{
    advanced, lemma_advanced_refl, lemma_advanced_trans, outcome_of, result_anno, taken,
};
use crate::render::Render;
use crate::text::push_str;
use crate::parser::combinator::delayed::DelayedVal;
use crate::parser::combinator::length_repeat::LengthRepeat;
use crate::parser::combinator::map::{applied, MapFn, TryMapFn};
use crate::parser::combinator::{Checkpoint, Delayed, MapParser, TryMap};
use crate::parser::num::{U16LE, U32LE, U8};
use crate::parser::spec::{ParserSpec, SpecView};
use crate::parser::specific::Utf16ToString;
use crate::parser::{Outcome, Parser, Result};
use vstd::prelude::*;
use vstd::string::{StrSliceExecFns, StringSliceAdditionalSpecFns};
use vstd::utf8::{decode_utf8, encode_utf8, encode_utf8_decode_utf8, is_char_boundary};

verus! {

/// The index of the first NUL character of `s` at `k` or after it, if there is one.
pub open spec fn nul_from(s: Seq<char>, k: int) -> Option<int>
    decreases s.len() - k,
{
    if k < 0 || k >= s.len() {
        None
    } else if s[k] == '\0' {
        Some(k)
    } else {
        nul_from(s, k + 1)
    }
}

/// The characters of `strings` that start at byte `i` of its UTF-8 encoding.
pub open spec fn chars_from_byte(strings: Seq<char>, i: int) -> Seq<char> {
    let bytes = encode_utf8(strings);
    decode_utf8(bytes.subrange(i, bytes.len() as int))
}

/// The string of the string table `strings` that starts at byte `i`: it runs up to the next NUL
/// character. Index `u32::MAX` and an empty string stand for no string.
pub open spec fn spec_index_string(strings: Seq<char>, i: u32) -> std::result::Result<
    Option<Seq<char>>,
    Seq<char>,
> {
    if i == u32::MAX {
        Ok(None)
    } else if i >= encode_utf8(strings).len() {
        Err("String index out of bounds"@)
    } else {
        let tail = chars_from_byte(strings, i as int);
        match nul_from(tail, 0) {
            None => Err("Did not find null terminator"@),
            Some(k) => if k == 0 {
                Ok(None)
            } else {
                Ok(Some(tail.take(k)))
            },
        }
    }
}

/// A NUL character found at `j` or after it lies in `s`, at or after `j`.
proof fn lemma_nul_from_bounds(s: Seq<char>, j: int)
    requires
        0 <= j,
    ensures
        nul_from(s, j) matches Some(k) ==> j <= k < s.len() && s[k] == '\0',
    decreases s.len() - j,
{
    if j < s.len() && s[j] != '\0' {
        lemma_nul_from_bounds(s, j + 1);
    }
}

/// The index of the first NUL character of `s`.
fn find_nul(s: &str) -> (r: Option<usize>)
    ensures
        match r {
            Some(k) => nul_from(s@, 0) == Some(k as int),
            None => nul_from(s@, 0) is None,
        },
{
    let n = s.unicode_len();
    let mut k: usize = 0;
    while k < n
        invariant
            k <= n,
            n == s@.len(),
            nul_from(s@, 0) == nul_from(s@, k as int),
        decreases n - k,
    {
        if s.get_char(k) == '\0' {
            return Some(k);
        }
        k = k + 1;
    }
    None
}

/// The string of the string table `strings` that starts at byte `i` (see
/// [`spec_index_string`]).
pub fn index_string(strings: &str, i: u32) -> (r: std::result::Result<Option<String>, String>)
    requires
        i == u32::MAX || i >= encode_utf8(strings@).len() || is_char_boundary(
            encode_utf8(strings@),
            i as int,
        ),
    ensures
        applied(r) == spec_index_string(strings@, i),
{
    if i == u32::MAX {
        return Ok(None);
    }
    let idx = i as usize;
    if idx >= strings.as_bytes().len() {
        return Err("String index out of bounds".to_owned());
    }
    let (_, tail) = strings.split_at(idx);
    proof {
        encode_utf8_decode_utf8(tail@);
        assert(tail@ == chars_from_byte(strings@, i as int));
    }
    match find_nul(tail) {
        None => Err("Did not find null terminator".to_owned()),
        Some(k) => {
            proof {
                lemma_nul_from_bounds(tail@, 0);
            }
            if k == 0 {
                Ok(None)
            } else {
                let found = tail.substring_char(0, k);
                Ok(Some(found.to_owned()))
            }
        },
    }
}

/// Why an index cannot be looked up before the string table has been read.
pub open spec fn table_missing_reason() -> Seq<char> {
    "String table has not been initialised yet"@
}

/// Why an index that falls inside a character cannot be looked up.
pub open spec fn not_boundary_reason() -> Seq<char> {
    "String index is not at a character boundary"@
}

/// The result of looking up index `i` in the string table `table`, or where no table has been
/// read (`None`): an index inside a character is refused, any other is looked up as
/// [`spec_index_string`] says.
pub open spec fn spec_index_in(table: Option<Seq<char>>, i: u32) -> std::result::Result<
    Option<Seq<char>>,
    Seq<char>,
> {
    match table {
        None => Err(table_missing_reason()),
        Some(t) => if i != u32::MAX && i < encode_utf8(t).len() && !is_char_boundary(
            encode_utf8(t),
            i as int,
        ) {
            Err(not_boundary_reason())
        } else {
            spec_index_string(t, i)
        },
    }
}

/// The lookup of index `i` in the string table `table`, or where none has been read (`None`):
/// see [`spec_index_in`].
pub fn index_in(table: &Option<String>, i: u32) -> (r: std::result::Result<Option<String>, String>)
    ensures
        applied(r) == spec_index_in(table.deep_view(), i),
{
    let strings = match table {
        Some(strings) => strings,
        None => {
            return Err("String table has not been initialised yet".to_owned());
        },
    };
    let table = strings.as_str();
    proof {
        assert(table.spec_bytes() == encode_utf8(table@));
    }
    if i != u32::MAX && (i as usize) < table.as_bytes().len() && !table.is_char_boundary(
        i as usize,
    ) {
        return Err("String index is not at a character boundary".to_owned());
    }
    index_string(table, i)
}

/// Looks up a string index in a string table that is handed over with it (none where the string
/// section has not been read).
pub struct IndexIn {
    pub table: Option<String>,
}

impl TryMapFn<u32> for IndexIn {
    type Out = Option<String>;

    open spec fn is_pure(&self) -> bool {
        true
    }

    open spec fn spec_apply(&self, i: u32) -> std::result::Result<Option<Seq<char>>, Seq<char>> {
        spec_index_in(self.table.deep_view(), i)
    }

    fn apply(&mut self, i: u32) -> (r: std::result::Result<Option<String>, String>) {
        index_in(&self.table, i)
    }
}

/// Looks up a string index in the shared string table.
pub struct IndexString {
    pub strings: DelayedVal<String>,
}

impl TryMapFn<u32> for IndexString {
    type Out = Option<String>;

    /// The result depends on what the shared string table holds.
    open spec fn is_pure(&self) -> bool {
        false
    }

    open spec fn spec_apply(&self, x: u32) -> std::result::Result<Option<Seq<char>>, Seq<char>> {
        arbitrary()
    }

    /// The result is the lookup of `i` in what the shared table holds when it is read.
    fn apply(&mut self, i: u32) -> (r: std::result::Result<Option<String>, String>)
        ensures
            exists|table: Option<Seq<char>>| applied(r) == #[trigger] spec_index_in(table, i),
    {
        let table = self.strings.get();
        let r = index_in(&table, i);
        proof {
            assert(applied(r) == spec_index_in(table.deep_view(), i));
        }
        r
    }
}

/// The parser of the string section, whose output later parsers read.
pub type StringsSection = Delayed<TryMap<Checkpoint<LengthRepeat<U32LE, U16LE>>, Utf16ToString>>;

/// The parser of an index into the string table.
pub type IndexedString = TryMap<U32LE, IndexString>;

/// The string section: a count, then that many UTF-16 code units, decoded; later parsers can read
/// what it parsed.
pub fn strings_section() -> (r: StringsSection)
    ensures
        r.inner.inner.0.length == U32LE,
        r.inner.inner.0.value == U16LE,
        r.inner.func == Utf16ToString,
        r.inner.label@ == "try_map(utf16_to_string)"@,
{
    proof {
        reveal_strlit("try_map(");
        reveal_strlit("utf16_to_string");
        reveal_strlit(")");
        reveal_strlit("try_map(utf16_to_string)");
    }
    Delayed::new(TryMap::new(LengthRepeat::new(U32LE, U16LE), Utf16ToString, "utf16_to_string"))
}

/// An index into the string table `strings`, resolved to the string it points at.
pub fn indexed_string(strings: DelayedVal<String>) -> (r: IndexedString)
    ensures
        r.inner == U32LE,
        r.func.strings == strings,
        r.label@ == "try_map(index_string)"@,
{
    proof {
        reveal_strlit("try_map(");
        reveal_strlit("index_string");
        reveal_strlit(")");
        reveal_strlit("try_map(index_string)");
    }
    TryMap::new(U32LE, IndexString { strings }, "index_string")
}

/// The condition that a value is present.
pub struct IsSome;

impl<T: DeepView> Check<Option<T>> for IsSome {
    open spec fn spec_check(&self, v: Option<T::V>) -> bool {
        v is Some
    }

    fn check(&self, v: &Option<T>) -> (r: bool) {
        v.is_some()
    }
}

/// The condition that flags are present and one of `flags`, or are absent where `when_absent`
/// holds.
pub struct FlagIn {
    pub flags: Vec<u8>,
    pub when_absent: bool,
}

impl Check<Option<u8>> for FlagIn {
    open spec fn spec_check(&self, v: Option<u8>) -> bool {
        match v {
            Some(f) => self.flags@.contains(f),
            None => self.when_absent,
        }
    }

    /// The flags pass exactly where they are one of the list's entries, whatever the list's
    /// order; absent flags pass where `when_absent` holds.
    fn check(&self, v: &Option<u8>) -> (r: bool)
        ensures
            v matches Some(f) ==> (r <==> exists|i: int|
                0 <= i < self.flags@.len() && #[trigger] self.flags@[i] == f),
            *v is None ==> r == self.when_absent,
    {
        match *v {
            None => self.when_absent,
            Some(f) => {
                let n = self.flags.len();
                for i in 0..n
                    invariant
                        n == self.flags@.len(),
                        *v == Some(f),
                        forall|j: int| 0 <= j < i ==> self.flags@[j] != f,
                {
                    if self.flags[i] == f {
                        assert(self.flags@[i as int] == f);
                        assert(self.flags@.contains(f));

                        return true;
                    }
                }
                false
            },
        }
    }
}

/// Whether flags pass a [`FlagIn`] condition depends only on which flags its list holds, not on
/// their order or repetition: present flags pass exactly where the list has them.
pub proof fn lemma_flag_in_any_order(a: FlagIn, b: FlagIn, v: Option<u8>)
    requires
        a.when_absent == b.when_absent,
        forall|x: u8| a.flags@.contains(x) <==> b.flags@.contains(x),
    ensures
        a.spec_check(v) == b.spec_check(v),
        v matches Some(f) ==> (a.spec_check(v) <==> exists|i: int|
            0 <= i < a.flags@.len() && #[trigger] a.flags@[i] == f),
{
}

/// The parser of the fields of a TDT file, in order.
pub type TdtFields = (
    U32LE,
    StringsSection,
    Delayed<IndexedString>,
    Delayed<Cond<Option<String>, IsSome, U8>>,
    Cond<Option<u8>, FlagIn, U16LE>,
    Cond<Option<u8>, FlagIn, IndexedString>,
    Cond<Option<u8>, FlagIn, IndexedString>,
);

/// What the fields of a TDT file parse to.
pub type TdtFieldValues = (
    u32,
    DelayedVal<String>,
    DelayedVal<Option<String>>,
    DelayedVal<Option<u8>>,
    Option<u16>,
    Option<Option<String>>,
    Option<Option<String>>,
);

/// Gathers the fields of a TDT file into a [`TDTFileData`]: the shared values are taken out
/// (a value that was never parsed stands as empty), and the conditional strings are flattened.
pub struct AssembleTdt;

impl MapFn<TdtFieldValues> for AssembleTdt {
    type Out = TDTFileData;

    /// The result depends on the shared values.
    open spec fn is_pure(&self) -> bool {
        false
    }

    open spec fn spec_apply(&self, x: <TdtFieldValues as DeepView>::V) -> <TDTFileData as DeepView>::V {
        arbitrary()
    }

    /// The version and the number pass through, and the conditional strings are flattened; the
    /// string table, file name and flags are what the shared values hold (empty where unset).
    fn apply(&mut self, x: TdtFieldValues) -> (r: TDTFileData)
        ensures
            r.version == x.0,
            r.num == x.4,
            r.tgt_file == (match x.5 {
                Some(t) => t,
                None => None,
            }),
            r.tag == (match x.6 {
                Some(t) => t,
                None => None,
            }),
    {
        let (version, strings, tdt_file, flags, num, tgt_file, tag) = x;
        // Unwrap all delayed values
        let strings = match strings.take() {
            Some(s) => s,
            None => String::new(),
        };
        let tdt_file = match tdt_file.take() {
            Some(t) => t,
            None => None,
        };
        let flags = match flags.take() {
            Some(f) => f,
            None => None,
        };
        // Flatten conditionals
        let tgt_file = match tgt_file {
            Some(t) => t,
            None => None,
        };
        let tag = match tag {
            Some(t) => t,
            None => None,
        };
        TDTFileData { version, strings, tdt_file, flags, num, tgt_file, tag }
    }
}

/// A description with no children.
pub open spec fn leaf(name: Seq<char>) -> SpecView {
    SpecView { name, inner: seq![], friendly_name: None }
}

/// A description with children.
pub open spec fn node(name: Seq<char>, inner: Seq<SpecView>) -> SpecView {
    SpecView { name, inner, friendly_name: None }
}

/// The description of the TDT parser.
pub open spec fn tdt_spec_tree() -> SpecView {
    let strings = node(
        "try_map(utf16_to_string)"@,
        seq![node("length_repeat"@, seq![leaf("le_u32"@), leaf("le_u16"@)])],
    );
    let indexed = node("try_map(index_string)"@, seq![leaf("le_u32"@)]);
    node(
        "map"@,
        seq![
            node(
                "tuple"@,
                seq![
                    leaf("le_u32"@),
                    strings,
                    indexed,
                    node("cond"@, seq![leaf("u8"@)]),
                    node("cond"@, seq![leaf("le_u16"@)]),
                    node("cond"@, seq![indexed]),
                    node("cond"@, seq![indexed]),
                ],
            ),
            leaf("tdt_file"@),
        ],
    )
}

/// The parser of a TDT file.
pub struct TDTParser {
    pub inner: MapParser<TdtFields, AssembleTdt>,
}

impl TDTParser {
    /// The fields are wired as the format has them: the strings that the file and target
    /// indices point into are the string section's; the flags are read only where a file name
    /// was found; the number where the flags are 1 or 2; the target file where there are no
    /// flags or they are 1, 2 or 9; the tag where there are no flags or they are one of 8, 9,
    /// 0xa, 0x1a, 0x18, 0x2a, 0x1c, 0x1e.
    pub open spec fn wired(&self) -> bool {
        let f = self.inner.inner;
        &&& f.2.inner.func.strings == f.1.value
        &&& f.5.inner.func.strings == f.1.value
        &&& f.6.inner.func.strings == f.1.value
        &&& f.3.inner.value == f.2.value
        &&& f.4.value == f.3.value
        &&& f.5.value == f.3.value
        &&& f.6.value == f.3.value
        &&& f.4.cond.flags@ == seq![1u8, 2u8] && !f.4.cond.when_absent
        &&& f.5.cond.flags@ == seq![1u8, 2u8, 9u8] && f.5.cond.when_absent
        &&& f.6.cond.flags@ == seq![8u8, 9u8, 0xau8, 0x1au8, 0x18u8, 0x2au8, 0x1cu8, 0x1eu8]
            && f.6.cond.when_absent
    }

    pub fn new() -> (r: Checkpoint<Self>)
        ensures
            r.spec_tree() == tdt_spec_tree(),
            r.0.wired(),
    {
        let strings = strings_section();
        let tdt_file = Delayed::new(indexed_string(strings.output()));
        let flags = Delayed::new(Cond::new(tdt_file.output(), IsSome, U8));
        let num = Cond::new(flags.output(), FlagIn { flags: vec![1, 2], when_absent: false }, U16LE);
        let tgt_file = Cond::new(
            flags.output(),
            FlagIn { flags: vec![1, 2, 9], when_absent: true },
            indexed_string(strings.output()),
        );
        let tag = Cond::new(
            flags.output(),
            FlagIn { flags: vec![8, 9, 0xa, 0x1a, 0x18, 0x2a, 0x1c, 0x1e], when_absent: true },
            indexed_string(strings.output()),
        );
        let parser = (U32LE, strings, tdt_file, flags, num, tgt_file, tag);
        let parser = MapParser::new(parser, AssembleTdt, "tdt_file");
        let r = Checkpoint(Self { inner: parser });
        proof {
            let f = r.0.inner.inner;
            assert(f.1.spec_tree() == node(
                "try_map(utf16_to_string)"@,
                seq![node("length_repeat"@, seq![leaf("le_u32"@), leaf("le_u16"@)])],
            ));
            assert(f.2.spec_tree() == node("try_map(index_string)"@, seq![leaf("le_u32"@)]));
            assert(f.5.inner.spec_tree() == node("try_map(index_string)"@, seq![leaf("le_u32"@)]));
            assert(f.6.inner.spec_tree() == node("try_map(index_string)"@, seq![leaf("le_u32"@)]));
        }
        r
    }
}

/// The outcome of reading a `u32` string index, in a parser named `label`, and looking it up in
/// `table` (see [`spec_index_in`]).
pub open spec fn index_outcome(label: Seq<char>, table: Option<Seq<char>>, input: Seq<u8>) -> Outcome<
    Option<Seq<char>>,
> {
    match U32LE.spec_parse(input) {
        Outcome::Failed { consumed, anno } => Outcome::Failed {
            consumed,
            anno: failed_parent(label, seq![adopted(anno, 0, label, 0)]),
        },
        Outcome::Parsed { consumed, value, anno } => {
            let child = adopted(anno, 0, label, 0);
            match spec_index_in(table, value) {
                Ok(out) => Outcome::Parsed {
                    consumed,
                    value: out,
                    anno: AnnoView {
                        id: label,
                        children: seq![child],
                        result: ResultView::Success {
                            start: 0,
                            end: span_end(child.result),
                            value: <Option<String> as Render>::spec_render(out),
                        },
                    },
                },
                Err(reason) => Outcome::Failed {
                    consumed,
                    anno: AnnoView {
                        id: label,
                        children: seq![child],
                        result: ResultView::Invalid { start: 0, end: span_end(child.result), reason },
                    },
                },
            }
        },
    }
}

/// The outcome of a conditional string index whose condition `passes` or not, the index and its
/// lookup having outcome `inner`.
pub open spec fn cond_index_outcome(passes: bool, inner: Outcome<Option<Seq<char>>>) -> Outcome<
    Option<Option<Seq<char>>>,
> {
    if passes {
        match inner {
            Outcome::Failed { consumed, anno } => Outcome::Failed {
                consumed,
                anno: failed_parent("cond"@, seq![adopted(anno, 0, "cond"@, 0)]),
            },
            Outcome::Parsed { consumed, value, anno } => {
                let child = adopted(anno, 0, "cond"@, 0);
                Outcome::Parsed {
                    consumed,
                    value: Some(value),
                    anno: AnnoView {
                        id: "cond"@,
                        children: seq![child],
                        result: ResultView::Success {
                            start: 0,
                            end: span_end(child.result),
                            value: <Option<Option<String>> as Render>::spec_render(Some(value)),
                        },
                    },
                }
            },
        }
    } else {
        Outcome::Parsed {
            consumed: 0,
            value: None,
            anno: AnnoView {
                id: "cond"@,
                children: seq![],
                result: ResultView::Success { start: 0, end: 0, value: "None"@ },
            },
        }
    }
}

/// The value inside a present value, if any.
pub open spec fn flatten<A>(o: Option<Option<A>>) -> Option<A> {
    match o {
        Some(x) => x,
        None => None,
    }
}

/// The text of the fields of a TDT file as they are parsed: the shared values show as the cells
/// that hold them.
pub open spec fn fields_text(
    version: u32,
    strings: Seq<char>,
    tdt_file: Option<Seq<char>>,
    flags: Option<u8>,
    num: Option<u16>,
    tgt_file: Option<Option<Seq<char>>>,
    tag: Option<Option<Seq<char>>>,
) -> Seq<char> {
    "("@ + <u32 as Render>::spec_render(version) + ", "@ + cell_text(
        <Option<String> as Render>::spec_render(Some(strings)),
    ) + ", "@ + cell_text(<Option<Option<String>> as Render>::spec_render(Some(tdt_file))) + ", "@
        + cell_text(<Option<Option<u8>> as Render>::spec_render(Some(flags))) + ", "@ + <Option<
        u16,
    > as Render>::spec_render(num) + ", "@ + <Option<Option<String>> as Render>::spec_render(
        tgt_file,
    ) + ", "@ + <Option<Option<String>> as Render>::spec_render(tag) + ")"@
}

impl TDTParser {
    /// The outcome of parsing the fields of a TDT file, in order: a `u32` version; the string
    /// section (a `u32` count, that many UTF-16 code units, decoded); a `u32` index of the file
    /// name, looked up in that table; flags, read where a file name was found; a number, where
    /// the flags pass their condition; then the target file and the tag, string indices looked
    /// up in the table, where the flags pass theirs. The conditions and names are those of the
    /// parser's fields (see [`TDTParser::wired`]).
    pub open spec fn spec_fields(&self, input: Seq<u8>) -> Outcome<TDTFileDataView> {
        let f = self.inner.inner;
        match spec_step(U32LE.spec_parse(input), 0, 0, seq![], "tuple"@, 0) {
            Step::Stop { consumed, anno } => Outcome::Failed { consumed, anno },
            Step::Next { consumed: c0, offset: o0, value: v0, children: ch0 } =>
            match spec_step(f.1.inner.spec_parse(input.skip(c0)), c0, o0, ch0, "tuple"@, 1) {
                Step::Stop { consumed, anno } => Outcome::Failed { consumed, anno },
                Step::Next { consumed: c1, offset: o1, value: v1, children: ch1 } =>
                match spec_step(
                    index_outcome(f.2.inner.label@, Some(v1), input.skip(c1)),
                    c1,
                    o1,
                    ch1,
                    "tuple"@,
                    2,
                ) {
                    Step::Stop { consumed, anno } => Outcome::Failed { consumed, anno },
                    Step::Next { consumed: c2, offset: o2, value: v2, children: ch2 } =>
                    match spec_step(
                        f.3.inner.spec_parse_with(Some(v2), input.skip(c2)),
                        c2,
                        o2,
                        ch2,
                        "tuple"@,
                        3,
                    ) {
                        Step::Stop { consumed, anno } => Outcome::Failed { consumed, anno },
                        Step::Next { consumed: c3, offset: o3, value: v3, children: ch3 } =>
                        match spec_step(
                            f.4.spec_parse_with(Some(v3), input.skip(c3)),
                            c3,
                            o3,
                            ch3,
                            "tuple"@,
                            4,
                        ) {
                            Step::Stop { consumed, anno } => Outcome::Failed { consumed, anno },
                            Step::Next { consumed: c4, offset: o4, value: v4, children: ch4 } =>
                            match spec_step(
                                cond_index_outcome(
                                    f.5.cond.spec_check(v3),
                                    index_outcome(f.5.inner.label@, Some(v1), input.skip(c4)),
                                ),
                                c4,
                                o4,
                                ch4,
                                "tuple"@,
                                5,
                            ) {
                                Step::Stop { consumed, anno } => Outcome::Failed { consumed, anno },
                                Step::Next { consumed: c5, offset: o5, value: v5, children: ch5 } =>
                                match spec_step(
                                    cond_index_outcome(
                                        f.6.cond.spec_check(v3),
                                        index_outcome(f.6.inner.label@, Some(v1), input.skip(c5)),
                                    ),
                                    c5,
                                    o5,
                                    ch5,
                                    "tuple"@,
                                    6,
                                ) {
                                    Step::Stop { consumed, anno } => Outcome::Failed {
                                        consumed,
                                        anno,
                                    },
                                    Step::Next {
                                        consumed: c6,
                                        offset: o6,
                                        value: v6,
                                        children: ch6,
                                    } => Outcome::Parsed {
                                        consumed: c6,
                                        value: TDTFileDataView {
                                            version: v0,
                                            strings: v1,
                                            tdt_file: v2,
                                            flags: v3,
                                            num: v4,
                                            tgt_file: flatten(v5),
                                            tag: flatten(v6),
                                        },
                                        anno: AnnoView {
                                            id: "tuple"@,
                                            children: ch6,
                                            result: ResultView::Success {
                                                start: 0,
                                                end: o6,
                                                value: fields_text(v0, v1, v2, v3, v4, v5, v6),
                                            },
                                        },
                                    },
                                },
                            },
                        },
                    },
                },
            },
        }
    }

    /// The outcome of parsing a TDT file: its fields (see [`TDTParser::spec_fields`]) under the
    /// parser's name, gathered into a [`TDTFileData`].
    pub open spec fn spec_tdt(&self, input: Seq<u8>) -> Outcome<TDTFileDataView> {
        let label = self.inner.label@;
        match self.spec_fields(input) {
            Outcome::Failed { consumed, anno } => Outcome::Failed {
                consumed,
                anno: failed_parent(label, seq![adopted(anno, 0, label, 0)]),
            },
            Outcome::Parsed { consumed, value, anno } => {
                let child = adopted(anno, 0, label, 0);
                Outcome::Parsed {
                    consumed,
                    value,
                    anno: AnnoView {
                        id: label,
                        children: seq![child],
                        result: ResultView::Success {
                            start: 0,
                            end: span_end(child.result),
                            value: TDTFileData::spec_render(value),
                        },
                    },
                }
            },
        }
    }
}

/// The fields of a TDT file are read in file order, each right after the one before: the
/// fields' annotation has seven children, child `k` being field `k` (version, string table,
/// file name, flags, number, target file, tag) adopted as `tuple[k]/`, the first starting at 0
/// and each other where the one before it ended; and each child shows the value that the file
/// data takes from it, so the target file is the lookup of the index read after the number,
/// and the tag that of the index read after the target file.
pub proof fn lemma_tdt_fields_in_order(p: TDTParser, input: Seq<u8>)
    ensures
        p.spec_fields(input) matches Outcome::Parsed { value: d, anno: t, .. } ==> {
            &&& t.children.len() == 7
            &&& in_sequence(t.children, "tuple"@)
            &&& span_end(t.result) == span_end(t.children[6].result)
            &&& shows::<u32>(t.children[0], d.version)
            &&& shows::<String>(t.children[1], d.strings)
            &&& shows::<Option<String>>(t.children[2], d.tdt_file)
            &&& shows::<Option<u8>>(t.children[3], d.flags)
            &&& shows::<Option<u16>>(t.children[4], d.num)
            &&& exists|w: Option<Option<Seq<char>>>|
                #![trigger flatten(w)]
                flatten(w) == d.tgt_file && shows::<Option<Option<String>>>(t.children[5], w)
            &&& exists|w: Option<Option<Seq<char>>>|
                #![trigger flatten(w)]
                flatten(w) == d.tag && shows::<Option<Option<String>>>(t.children[6], w)
        },
{
    let f = p.inner.inner;
    let tup = "tuple"@;
    let e = Seq::<AnnoView>::empty();
    assert(in_sequence(e, tup));
    let o0 = U32LE.spec_parse(input);
    lemma_step_in_sequence(o0, 0, 0, e, tup, 0, |v: u32| <u32 as Render>::spec_render(v));
    if let Step::Next { consumed: c0, offset: f0, value: v0, children: ch0 } = spec_step(
        o0,
        0,
        0,
        e,
        tup,
        0,
    ) {
        let o1 = f.1.inner.spec_parse(input.skip(c0));
        lemma_step_in_sequence(o1, c0, f0, ch0, tup, 1, |v: Seq<char>| <String as Render>::spec_render(v));
        if let Step::Next { consumed: c1, offset: f1, value: v1, children: ch1 } = spec_step(
            o1,
            c0,
            f0,
            ch0,
            tup,
            1,
        ) {
            let o2 = index_outcome(f.2.inner.label@, Some(v1), input.skip(c1));
            lemma_step_in_sequence(
                o2,
                c1,
                f1,
                ch1,
                tup,
                2,
                |v: Option<Seq<char>>| <Option<String> as Render>::spec_render(v),
            );
            if let Step::Next { consumed: c2, offset: f2, value: v2, children: ch2 } = spec_step(
                o2,
                c1,
                f1,
                ch1,
                tup,
                2,
            ) {
                let o3 = f.3.inner.spec_parse_with(Some(v2), input.skip(c2));
                lemma_step_in_sequence(
                    o3,
                    c2,
                    f2,
                    ch2,
                    tup,
                    3,
                    |v: Option<u8>| <Option<u8> as Render>::spec_render(v),
                );
                if let Step::Next { consumed: c3, offset: f3, value: v3, children: ch3 } = spec_step(
                    o3,
                    c2,
                    f2,
                    ch2,
                    tup,
                    3,
                ) {
                    let o4 = f.4.spec_parse_with(Some(v3), input.skip(c3));
                    lemma_step_in_sequence(
                        o4,
                        c3,
                        f3,
                        ch3,
                        tup,
                        4,
                        |v: Option<u16>| <Option<u16> as Render>::spec_render(v),
                    );
                    if let Step::Next { consumed: c4, offset: f4, value: v4, children: ch4 } =
                        spec_step(o4, c3, f3, ch3, tup, 4) {
                        let o5 = cond_index_outcome(
                            f.5.cond.spec_check(v3),
                            index_outcome(f.5.inner.label@, Some(v1), input.skip(c4)),
                        );
                        lemma_step_in_sequence(
                            o5,
                            c4,
                            f4,
                            ch4,
                            tup,
                            5,
                            |v: Option<Option<Seq<char>>>| <Option<Option<String>> as Render>::spec_render(v),
                        );
                        if let Step::Next { consumed: c5, offset: f5, value: v5, children: ch5 } =
                            spec_step(o5, c4, f4, ch4, tup, 5) {
                            let o6 = cond_index_outcome(
                                f.6.cond.spec_check(v3),
                                index_outcome(f.6.inner.label@, Some(v1), input.skip(c5)),
                            );
                            lemma_step_in_sequence(
                                o6,
                                c5,
                                f5,
                                ch5,
                                tup,
                                6,
                                |v: Option<Option<Seq<char>>>| <Option<Option<String>> as Render>::spec_render(v),
                            );
                            if let Step::Next { consumed: c6, offset: f6, value: v6, children: ch6 } =
                                spec_step(o6, c5, f5, ch5, tup, 6) {
                                assert(ch6[6] == ch6.last());
                                assert(ch6[5] == ch5.last());
                                assert(ch6[4] == ch4.last());
                                assert(ch6[3] == ch3.last());
                                assert(ch6[2] == ch2.last());
                                assert(ch6[1] == ch1.last());
                                assert(ch6[0] == ch0.last());
                                assert(flatten(v5) == flatten(v5));
                                assert(flatten(v6) == flatten(v6));
                            }
                        }
                    }
                }
            }
        }
    }
}

/// A copy of an optional string.
fn copy_name(o: &Option<String>) -> (r: Option<String>)
    ensures
        r == *o,
{
    match o {
        Some(s) => Some(s.clone()),
        None => None,
    }
}

/// The text of a shared value that holds `v`.
fn cell_render<T: Render>(v: &Option<T>) -> (r: String)
    ensures
        T::render_exact() ==> r@ == cell_text(<Option<T> as Render>::spec_render(v.deep_view())),
{
    let mut s = "RefCell { value: ".to_owned();
    let inner = v.render();
    push_str(&mut s, inner.as_str());
    push_str(&mut s, " }");
    s
}

impl TDTParser {
    /// Parses the fields of a TDT file (see [`TDTParser::spec_fields`]), each shared value being
    /// filled as it is parsed and handed on to the fields that depend on it.
    #[verifier::rlimit(100)]
    #[verifier::spinoff_prover]
    fn parse_fields(&mut self, input: &mut &[u8]) -> (res: Result<TDTFileData>)
        ensures
            *final(self) == *old(self),
            advanced(old(input)@, final(input)@),
            outcome_of(res, taken(old(input)@, final(input)@)).well_shaped(
                old(input)@.len() as int,
                "tuple"@,
            ),
            ids_among(result_anno(res), spec_identifiers(old(self).inner.inner.spec_tree())),
            outcome_of(res, taken(old(input)@, final(input)@)) == old(self).spec_fields(
                old(input)@,
            ),
    {
        let ghost input0 = old(input)@;
        let ghost ttree = self.inner.inner.spec_tree();
        let total = input.len();
        proof {
            assert(views(Seq::<Annotation>::empty()) =~= Seq::<AnnoView>::empty());
            lemma_advanced_refl(input0);
            lemma_identifiers_root(ttree);
        }
        let children: Vec<Annotation> = Vec::new();
        let offset: usize = 0;
        // The version
        let mut version_parser = U32LE;
        let ghost before_0 = input@;
        let r0 = parse_child(
            &mut version_parser,
            input,
            children,
            offset,
            "tuple",
            0,
            Ghost(input0.len() as int),
            Ghost(ttree),
        );
        proof {
            lemma_advanced_trans(input0, before_0, input@);
        }
        let (version, offset, children) = match r0 {
            Ok(t) => t,
            Err(a) => {
                return Err(a);
            },
        };
        // The string table
        let ghost before_1 = input@;
        let r1 = parse_child(
            &mut self.inner.inner.1.inner,
            input,
            children,
            offset,
            "tuple",
            1,
            Ghost(input0.len() as int),
            Ghost(ttree),
        );
        proof {
            lemma_advanced_trans(input0, before_1, input@);
        }
        let (strings, offset, children) = match r1 {
            Ok(t) => t,
            Err(a) => {
                return Err(a);
            },
        };
        self.inner.inner.1.value.set(Some(strings.clone()));
        // The file name, looked up in the table
        let ghost f2 = self.inner.inner.2.inner;
        let mut slot2 = TryMap {
            inner: U32LE,
            func: IndexString { strings: DelayedVal::empty() },
            func_name: String::new(),
            label: String::new(),
        };
        std::mem::swap(&mut slot2, &mut self.inner.inner.2.inner);
        let TryMap { inner: u2, func: IndexString { strings: cell2 }, func_name: n2, label: l2 } =
            slot2;
        let mut p2 = TryMap {
            inner: u2,
            func: IndexIn { table: Some(strings.clone()) },
            func_name: n2,
            label: l2,
        };
        let ghost before_2 = input@;
        proof {
            assert(p2.spec_parse(before_2) == index_outcome(f2.label@, Some(strings@), before_2));
        }
        let r2 = parse_child(
            &mut p2,
            input,
            children,
            offset,
            "tuple",
            2,
            Ghost(input0.len() as int),
            Ghost(ttree),
        );
        proof {
            lemma_advanced_trans(input0, before_2, input@);
        }
        let TryMap { inner: u2, func: _, func_name: n2, label: l2 } = p2;
        let mut back2 = TryMap {
            inner: u2,
            func: IndexString { strings: cell2 },
            func_name: n2,
            label: l2,
        };
        std::mem::swap(&mut back2, &mut self.inner.inner.2.inner);
        let (tdt_file, offset, children) = match r2 {
            Ok(t) => t,
            Err(a) => {
                return Err(a);
            },
        };
        self.inner.inner.2.value.set(Some(copy_name(&tdt_file)));
        // The flags, where a file name was found
        let mut slot3 = Cond::new(DelayedVal::empty(), IsSome, U8);
        std::mem::swap(&mut slot3, &mut self.inner.inner.3.inner);
        let mut g3 = Given { cond: slot3, value: Some(copy_name(&tdt_file)) };
        let ghost before_3 = input@;
        let r3 = parse_child(
            &mut g3,
            input,
            children,
            offset,
            "tuple",
            3,
            Ghost(input0.len() as int),
            Ghost(ttree),
        );
        proof {
            lemma_advanced_trans(input0, before_3, input@);
        }
        let Given { cond: mut back3, value: _ } = g3;
        std::mem::swap(&mut back3, &mut self.inner.inner.3.inner);
        let (flags, offset, children) = match r3 {
            Ok(t) => t,
            Err(a) => {
                return Err(a);
            },
        };
        self.inner.inner.3.value.set(Some(flags));
        // The number
        let mut slot4 = Cond::new(
            DelayedVal::empty(),
            FlagIn { flags: Vec::new(), when_absent: false },
            U16LE,
        );
        std::mem::swap(&mut slot4, &mut self.inner.inner.4);
        let mut g4 = Given { cond: slot4, value: Some(flags) };
        let ghost before_4 = input@;
        let r4 = parse_child(
            &mut g4,
            input,
            children,
            offset,
            "tuple",
            4,
            Ghost(input0.len() as int),
            Ghost(ttree),
        );
        proof {
            lemma_advanced_trans(input0, before_4, input@);
        }
        let Given { cond: mut back4, value: _ } = g4;
        std::mem::swap(&mut back4, &mut self.inner.inner.4);
        let (num, offset, children) = match r4 {
            Ok(t) => t,
            Err(a) => {
                return Err(a);
            },
        };
        // The target file
        let ghost f5 = self.inner.inner.5;
        let ghost before_5 = input@;
        let r5 = Self::parse_indexed_cond(
            &mut self.inner.inner.5,
            &strings,
            flags,
            input,
            children,
            offset,
            5,
            Ghost(input0.len() as int),
            Ghost(ttree),
        );
        proof {
            lemma_advanced_trans(input0, before_5, input@);
        }
        let (tgt_file, offset, children) = match r5 {
            Ok(t) => t,
            Err(a) => {
                return Err(a);
            },
        };
        // The tag
        let ghost before_6 = input@;
        let r6 = Self::parse_indexed_cond(
            &mut self.inner.inner.6,
            &strings,
            flags,
            input,
            children,
            offset,
            6,
            Ghost(input0.len() as int),
            Ghost(ttree),
        );
        proof {
            lemma_advanced_trans(input0, before_6, input@);
        }
        let (tag, offset, children) = match r6 {
            Ok(t) => t,
            Err(a) => {
                return Err(a);
            },
        };
        // The fields' text, the shared values showing as the cells that now hold them
        let mut text = "(".to_owned();
        let t = version.render();
        push_str(&mut text, t.as_str());
        push_str(&mut text, ", ");
        let t = cell_render(&Some(strings.clone()));
        push_str(&mut text, t.as_str());
        push_str(&mut text, ", ");
        let t = cell_render(&Some(copy_name(&tdt_file)));
        push_str(&mut text, t.as_str());
        push_str(&mut text, ", ");
        let t = cell_render(&Some(flags));
        push_str(&mut text, t.as_str());
        push_str(&mut text, ", ");
        let t = num.render();
        push_str(&mut text, t.as_str());
        push_str(&mut text, ", ");
        let t = tgt_file.render();
        push_str(&mut text, t.as_str());
        push_str(&mut text, ", ");
        let t = tag.render();
        push_str(&mut text, t.as_str());
        push_str(&mut text, ")");
        let annotation = Annotation {
            parser_id: "tuple".to_owned(),
            children,
            result: AnnotationResult::Success { span: 0..offset, value: text },
        };
        proof {
            assert(annotation.view().children =~= views(children@));
            assert(text@ == fields_text(
                version,
                strings@,
                tdt_file.deep_view(),
                flags,
                num,
                tgt_file.deep_view(),
                tag.deep_view(),
            ));
        }
        let tgt_file = match tgt_file {
            Some(t) => t,
            None => None,
        };
        let tag = match tag {
            Some(t) => t,
            None => None,
        };
        let data = TDTFileData { version, strings, tdt_file, flags, num, tgt_file, tag };
        Ok((data, annotation))
    }

    /// Parses a conditional string index `field` as child `index` of the fields, with the flags
    /// and the string table handed over in place of the shared values it would read.
    fn parse_indexed_cond(
        field: &mut Cond<Option<u8>, FlagIn, IndexedString>,
        strings: &String,
        flags: Option<u8>,
        input: &mut &[u8],
        children: Vec<Annotation>,
        offset: usize,
        index: usize,
        Ghost(bound): Ghost<int>,
        Ghost(tree): Ghost<SpecView>,
    ) -> (r: std::result::Result<(Option<Option<String>>, usize, Vec<Annotation>), Annotation>)
        requires
            offset + old(input)@.len() <= bound <= usize::MAX,
            all_within(views(children@), bound),
            tree.name == "tuple"@,
            index < tree.inner.len(),
            tree.inner[index as int] == old(field).spec_tree(),
            all_ids_among(views(children@), spec_identifiers(tree)),
        ensures
            *final(field) == *old(field),
            advanced(old(input)@, final(input)@),
            match r {
                Ok((_, next, ch)) => {
                    &&& next + final(input)@.len() <= bound
                    &&& all_within(views(ch@), bound)
                    &&& all_ids_among(views(ch@), spec_identifiers(tree))
                },
                Err(a) => {
                    &&& a.view().id == "tuple"@
                    &&& a.view().result is Child
                    &&& a.view().within(bound)
                    &&& ids_among(a.view(), spec_identifiers(tree))
                },
            },
            step_of(r, taken(old(input)@, final(input)@)) == spec_step(
                cond_index_outcome(
                    old(field).cond.spec_check(flags),
                    index_outcome(old(field).inner.label@, Some(strings@), old(input)@),
                ),
                0,
                offset as int,
                views(children@),
                "tuple"@,
                index as nat,
            ),
    {
        let mut slot = Cond::new(
            DelayedVal::empty(),
            FlagIn { flags: Vec::new(), when_absent: false },
            TryMap {
                inner: U32LE,
                func: IndexString { strings: DelayedVal::empty() },
                func_name: String::new(),
                label: String::new(),
            },
        );
        std::mem::swap(&mut slot, field);
        let Cond {
            value: shared,
            cond: check,
            inner: TryMap { inner: u, func: IndexString { strings: cell }, func_name, label },
        } = slot;
        let mut given = Given {
            cond: Cond {
                value: shared,
                cond: check,
                inner: TryMap {
                    inner: u,
                    func: IndexIn { table: Some(strings.clone()) },
                    func_name,
                    label,
                },
            },
            value: Some(flags),
        };
        proof {
            assert(given.cond.inner.spec_parse(old(input)@) == index_outcome(
                old(field).inner.label@,
                Some(strings@),
                old(input)@,
            ));
            assert(given.spec_parse(old(input)@) == cond_index_outcome(
                old(field).cond.spec_check(flags),
                index_outcome(old(field).inner.label@, Some(strings@), old(input)@),
            ));
        }
        let r = parse_child(&mut given, input, children, offset, "tuple", index, Ghost(bound), Ghost(tree));
        let Given {
            cond: Cond {
                value: shared,
                cond: check,
                inner: TryMap { inner: u, func: _, func_name, label },
            },
            value: _,
        } = given;
        let mut back = Cond {
            value: shared,
            cond: check,
            inner: TryMap { inner: u, func: IndexString { strings: cell }, func_name, label },
        };
        std::mem::swap(&mut back, field);
        r
    }
}

impl Parser for TDTParser {
    type Output = TDTFileData;

    open spec fn spec_name(&self) -> Seq<char> {
        self.inner.spec_name()
    }

    open spec fn spec_tree(&self) -> SpecView {
        self.inner.spec_tree()
    }

    /// The shared values are filled and handed on within one parse, so the outcome is
    /// determined by the input.
    open spec fn is_pure(&self) -> bool {
        true
    }

    open spec fn spec_parse(&self, input: Seq<u8>) -> Outcome<<TDTFileData as DeepView>::V> {
        self.spec_tdt(input)
    }

    fn name(&self) -> (r: String) {
        self.inner.name()
    }

    fn spec(&self) -> (r: ParserSpec) {
        self.inner.spec()
    }

    /// Parses the fields in order, each shared value being filled as its field is parsed and
    /// handed on to the fields that read it, and gathers them under the parser's name (see
    /// [`TDTParser::spec_tdt`]).
    fn parse(&mut self, input: &mut &[u8]) -> (res: Result<TDTFileData>) {
        let ghost input0 = old(input)@;
        let ghost tree = self.spec_tree();
        let total = input.len();
        let label = self.inner.label.clone();
        let r = self.parse_fields(input);
        let ghost anno = result_anno(r);
        proof {
            lemma_within_mono(anno, input0.len() as int, usize::MAX as int);
            lemma_within_updated(anno, input0.len() as int, 0, child_prefix(label@, 0));
            lemma_adopted_ids(anno, tree, 0, 0);
            lemma_identifiers_root(tree);
            assert(views(Seq::<Annotation>::empty()) =~= Seq::<AnnoView>::empty());
        }
        match fold(r, Vec::new(), 0, label.as_str(), 0) {
            Ok((data, span, children)) => {
                let annotation = Annotation::success(label.as_str(), 0..span.end, &data, children);
                proof {
                    assert(annotation.view().children == views(children@));
                }
                Ok((data, annotation))
            },
            Err(a) => Err(a),
        }
    }
}

} // verus!
