//! The overlap parser: streams tab-delimited overlap lines, resolves read
//! names through the registry, rejects self-overlaps, deduplicates by
//! ordered read-id pair, validates each candidate and materializes the
//! accepted ones as `Overlap` records.
//!
//! Per line the first nine tab-separated fields are, in order: query-name,
//! query-length, query-start, query-end, strand (`+`/`-`), target-name,
//! target-length, target-start, target-end; any further fields are ignored.
//! Exactly one trailing byte (the line terminator as delivered by a line
//! reader) is stripped before splitting.

use vstd::prelude::*;

use crate::overlap::Overlap;
use crate::overlap::Strand;
use crate::pairs::empty_pairs;
use crate::pairs::pair_set_contents;
use crate::pairs::PairSet;
use crate::registry::registry_map;
use crate::registry::Registry;
use crate::validate::is_valid_overlap;
use crate::validate::spec_is_valid_overlap;

verus! {

/// A fatal format error: the whole parse aborts, no partial output is
/// usable.
#[derive(Clone, Copy, Debug, PartialEq, Eq, Structural)]
pub enum ParseError {
    /// A line ends before all nine positional fields were seen.
    MissingField,
    /// A numeric field is not an unsigned decimal integer in range.
    InvalidInteger,
    /// A strand field is neither `+` nor `-`.
    InvalidStrand,
    /// A coordinate pair is inverted or leaves its read: not
    /// `start <= end <= len`.
    InvalidCoordinates,
}

pub const TAB: u8 = 9;

pub const PLUS: u8 = 43;

pub const MINUS: u8 = 45;

/// Index of the first tab in `s`, or `s.len()` if there is none.
pub open spec fn first_tab(s: Seq<u8>) -> int
    decreases s.len(),
{
    if s.len() == 0 {
        0
    } else if s[0] == TAB {
        0
    } else {
        1 + first_tab(s.drop_first())
    }
}

pub proof fn lemma_first_tab(s: Seq<u8>)
    ensures
        0 <= first_tab(s) <= s.len(),
        forall|j: int| 0 <= j < first_tab(s) ==> s[j] != TAB,
        first_tab(s) < s.len() ==> s[first_tab(s)] == TAB,
    decreases s.len(),
{
    if s.len() > 0 && s[0] != TAB {
        lemma_first_tab(s.drop_first());
        assert forall|j: int| 0 <= j < first_tab(s) implies s[j] != TAB by {
            if j > 0 {
                assert(s.drop_first()[j - 1] != TAB);
            }
        }
    }
}

/// Where the first tab is known from a scan, `first_tab` agrees with it.
pub proof fn lemma_first_tab_is(s: Seq<u8>, i: int)
    requires
        0 <= i <= s.len(),
        forall|j: int| 0 <= j < i ==> s[j] != TAB,
        i < s.len() ==> s[i] == TAB,
    ensures
        first_tab(s) == i,
    decreases i,
{
    if i > 0 {
        lemma_first_tab_is(s.drop_first(), i - 1);
    }
}

#[via_fn]
proof fn split_tabs_decreases(s: Seq<u8>)
{
    lemma_first_tab(s);
}

/// The fields of a line: `s` split at every tab. Splitting never yields an
/// empty sequence — a line with no tab is one field.
pub open spec fn split_tabs(s: Seq<u8>) -> Seq<Seq<u8>>
    decreases s.len(),
    via split_tabs_decreases
{
    let i = first_tab(s);
    if i == s.len() {
        seq![s]
    } else {
        seq![s.take(i)] + split_tabs(s.skip(i + 1))
    }
}

/// Split a raw line into its tab-separated fields, stripping exactly one
/// trailing byte (the terminator as delivered by a line reader).
pub fn split_line_fields(line: &[u8]) -> (fields: Vec<Vec<u8>>)
    requires
        line@.len() >= 1,
    ensures
        fields@.len() == split_tabs(line@.drop_last()).len(),
        forall|k: int|
            0 <= k < fields@.len() ==> #[trigger] fields@[k]@ == split_tabs(line@.drop_last())[k],
        fields@.len() >= 1,
{
    let ghost s = line@.drop_last();
    let end = line.len() - 1;
    let mut fields: Vec<Vec<u8>> = Vec::new();
    let mut cur: Vec<u8> = Vec::new();
    let ghost mut start: int = 0;
    proof {
        assert(s.skip(start) =~= s);
        assert(seqs_of(fields@) + split_tabs(s.skip(start)) =~= split_tabs(s));
        assert(cur@ =~= s.subrange(0, 0));
    }
    for i in 0..end
        invariant
            end == line@.len() - 1,
            s == line@.drop_last(),
            0 <= start <= i <= end,
            cur@ == s.subrange(start, i as int),
            forall|j: int| start <= j < i ==> s[j] != TAB,
            split_tabs(s) == seqs_of(fields@) + split_tabs(s.skip(start)),
    {
        let b = line[i];
        assert(s[i as int] == b);
        if b == TAB {
            proof {
                lemma_first_tab_is(s.skip(start), i - start);
                assert(s.skip(start).take(i - start) =~= s.subrange(start, i as int));
                assert(s.skip(start).skip(i - start + 1) =~= s.skip(i + 1));
            }
            let ghost old_fields = fields@;
            fields.push(cur);
            cur = Vec::new();
            proof {
                assert(seqs_of(fields@) =~= seqs_of(old_fields).push(s.subrange(start, i as int)));
                assert(seqs_of(fields@) + split_tabs(s.skip(i + 1)) =~= seqs_of(old_fields)
                    + split_tabs(s.skip(start)));
                start = i + 1;
            }
        } else {
            cur.push(b);
            assert(cur@ =~= s.subrange(start, i + 1));
        }
    }
    proof {
        assert(cur@ =~= s.skip(start));
        lemma_first_tab_is(s.skip(start), s.len() - start);
    }
    let ghost old_fields = fields@;
    fields.push(cur);
    proof {
        assert(seqs_of(fields@) =~= seqs_of(old_fields).push(s.skip(start)));
        assert(seqs_of(fields@) =~= split_tabs(s));
    }
    fields
}

/// The views of a sequence of byte vectors.
pub open spec fn seqs_of(fields: Seq<Vec<u8>>) -> Seq<Seq<u8>> {
    Seq::new(fields.len(), |k: int| fields[k]@)
}

pub open spec fn is_decimal_digit(b: u8) -> bool {
    48 <= b <= 57
}

pub open spec fn all_decimal_digits(s: Seq<u8>) -> bool {
    forall|i: int| 0 <= i < s.len() ==> is_decimal_digit(#[trigger] s[i])
}

/// The value of a string of decimal digits, most significant first.
pub open spec fn decimal_value(s: Seq<u8>) -> int
    decreases s.len(),
{
    if s.len() == 0 {
        0
    } else {
        10 * decimal_value(s.drop_last()) + (s.last() - 48)
    }
}

/// The digits of a numeral: everything after an optional leading `+` sign.
pub open spec fn numeral_digits(s: Seq<u8>) -> Seq<u8> {
    if s.len() > 0 && s[0] == PLUS {
        s.drop_first()
    } else {
        s
    }
}

/// What parsing a decimal `u32` field yields: the value of the digits after
/// an optional leading `+`, provided there is at least one digit, nothing
/// else, and the value fits in 32 bits.
pub open spec fn parse_u32_spec(s: Seq<u8>) -> Option<u32> {
    let digits = numeral_digits(s);
    if digits.len() > 0 && all_decimal_digits(digits) && decimal_value(digits) <= u32::MAX {
        Some(decimal_value(digits) as u32)
    } else {
        None
    }
}

proof fn lemma_decimal_value_nonneg(s: Seq<u8>)
    requires
        all_decimal_digits(s),
    ensures
        decimal_value(s) >= 0,
    decreases s.len(),
{
    if s.len() > 0 {
        assert(all_decimal_digits(s.drop_last()));
        lemma_decimal_value_nonneg(s.drop_last());
    }
}

/// A prefix of a digit string never has a larger value than the whole.
proof fn lemma_decimal_value_prefix(s: Seq<u8>, k: int)
    requires
        all_decimal_digits(s),
        0 <= k <= s.len(),
    ensures
        decimal_value(s.take(k)) <= decimal_value(s),
    decreases s.len(),
{
    if k == s.len() {
        assert(s.take(k) =~= s);
    } else {
        assert(all_decimal_digits(s.drop_last()));
        assert(s.take(k) =~= s.drop_last().take(k));
        lemma_decimal_value_prefix(s.drop_last(), k);
        lemma_decimal_value_nonneg(s.drop_last());
    }
}

/// Parse an unsigned decimal field: an optional leading `+`, then one or
/// more digits, the value fitting in a `u32`.
pub fn parse_u32(field: &[u8]) -> (r: Option<u32>)
    ensures
        r == parse_u32_spec(field@),
{
    let n = field.len();
    let offset: usize = if n > 0 && field[0] == PLUS {
        1
    } else {
        0
    };
    let ghost digits = numeral_digits(field@);
    proof {
        assert(digits =~= field@.skip(offset as int));
    }
    if n == offset {
        return None;
    }
    let mut val: u64 = 0;
    let mut i: usize = offset;
    while i < n
        invariant
            offset <= i <= n == field@.len(),
            digits == numeral_digits(field@),
            digits == field@.skip(offset as int),
            all_decimal_digits(digits.take(i - offset)),
            val == decimal_value(digits.take(i - offset)),
            val <= u32::MAX,
        decreases n - i,
    {
        let b = field[i];
        assert(digits[i - offset] == b);
        if b < 48 || b > 57 {
            assert(!all_decimal_digits(digits));
            return None;
        }
        proof {
            assert(digits.take(i + 1 - offset).drop_last() =~= digits.take(i - offset));
            assert(digits.take(i + 1 - offset).last() == b);
        }
        val = val * 10 + ((b - 48) as u64);
        if val > u32::MAX as u64 {
            proof {
                if all_decimal_digits(digits) {
                    lemma_decimal_value_prefix(digits, i + 1 - offset);
                }
            }
            return None;
        }
        i = i + 1;
    }
    proof {
        assert(digits.take(n - offset) =~= digits);
    }
    Some(val as u32)
}

/// What parsing a strand field yields: exactly `+` or exactly `-`.
pub open spec fn parse_strand_spec(s: Seq<u8>) -> Option<Strand> {
    if s.len() == 1 && s[0] == PLUS {
        Some(Strand::Forward)
    } else if s.len() == 1 && s[0] == MINUS {
        Some(Strand::Reverse)
    } else {
        None
    }
}

/// Parse a strand field.
pub fn parse_strand(field: &[u8]) -> (r: Option<Strand>)
    ensures
        r == parse_strand_spec(field@),
{
    if field.len() == 1 {
        let b = field[0];
        if b == PLUS {
            Some(Strand::Forward)
        } else if b == MINUS {
            Some(Strand::Reverse)
        } else {
            None
        }
    } else {
        None
    }
}

/// What one line does to the parser: abort, leave no trace, record its pair
/// without a record, or record its pair and produce a record.
pub enum LineOutcome {
    /// A fatal format error: the whole parse aborts.
    Fatal(ParseError),
    /// The line is dropped and leaves no trace: an unregistered name, a
    /// self-overlap or a repeated ordered pair.
    Skip,
    /// The candidate fails geometric validation: its ordered pair is
    /// recorded, no record is produced.
    Reject(u32, u32),
    /// The candidate is accepted: its ordered pair is recorded and the
    /// record is appended.
    Accept(Overlap),
}

/// The numeric field at position `k`, or the fatal error trying to read it
/// raises: a missing field if the line is too short, a malformed integer if
/// it does not parse.
pub open spec fn field_u32(fields: Seq<Seq<u8>>, k: int) -> Result<u32, ParseError> {
    if fields.len() <= k {
        Err(ParseError::MissingField)
    } else {
        match parse_u32_spec(fields[k]) {
            Some(v) => Ok(v),
            None => Err(ParseError::InvalidInteger),
        }
    }
}

/// The decision stages a fully parsed candidate goes through: self-overlap
/// rejection, ordered-pair deduplication, coordinate sanity, geometric
/// validation.
pub open spec fn classify_candidate(
    qid: u32,
    qlen: u32,
    qstart: u32,
    qend: u32,
    strand: Strand,
    tid: u32,
    tlen: u32,
    tstart: u32,
    tend: u32,
    seen: Set<(u32, u32)>,
) -> LineOutcome {
    if tid == qid {
        LineOutcome::Skip
    } else if seen.contains((qid, tid)) {
        LineOutcome::Skip
    } else if !(qstart <= qend <= qlen && tstart <= tend <= tlen) {
        LineOutcome::Fatal(ParseError::InvalidCoordinates)
    } else if spec_is_valid_overlap(
        qlen as int,
        qstart as int,
        qend as int,
        strand,
        tlen as int,
        tstart as int,
        tend as int,
    ) {
        LineOutcome::Accept(
            Overlap::spec_new(qid, qlen, qstart, qend, strand, tid, tlen, tstart, tend),
        )
    } else {
        LineOutcome::Reject(qid, tid)
    }
}

/// What one raw line yields, given the registry contents and the set of
/// ordered pairs already seen. The stages run in the order the fields stand
/// on the line: query name, query numbers, strand, target name, target
/// numbers, then the candidate decision.
pub open spec fn line_outcome(
    line: Seq<u8>,
    names: Map<Seq<u8>, u32>,
    seen: Set<(u32, u32)>,
) -> LineOutcome {
    let fields = split_tabs(line.drop_last());
    if !names.dom().contains(fields[0]) {
        LineOutcome::Skip
    } else {
        let qid = names[fields[0]];
        match field_u32(fields, 1) {
            Err(e) => LineOutcome::Fatal(e),
            Ok(qlen) => match field_u32(fields, 2) {
                Err(e) => LineOutcome::Fatal(e),
                Ok(qstart) => match field_u32(fields, 3) {
                    Err(e) => LineOutcome::Fatal(e),
                    Ok(qend) => if fields.len() <= 4 {
                        LineOutcome::Fatal(ParseError::MissingField)
                    } else {
                        match parse_strand_spec(fields[4]) {
                            None => LineOutcome::Fatal(ParseError::InvalidStrand),
                            Some(strand) => if fields.len() <= 5 {
                                LineOutcome::Fatal(ParseError::MissingField)
                            } else if !names.dom().contains(fields[5]) {
                                LineOutcome::Skip
                            } else {
                                let tid = names[fields[5]];
                                match field_u32(fields, 6) {
                                    Err(e) => LineOutcome::Fatal(e),
                                    Ok(tlen) => match field_u32(fields, 7) {
                                        Err(e) => LineOutcome::Fatal(e),
                                        Ok(tstart) => match field_u32(fields, 8) {
                                            Err(e) => LineOutcome::Fatal(e),
                                            Ok(tend) => classify_candidate(
                                                qid,
                                                qlen,
                                                qstart,
                                                qend,
                                                strand,
                                                tid,
                                                tlen,
                                                tstart,
                                                tend,
                                                seen,
                                            ),
                                        },
                                    },
                                }
                            },
                        }
                    },
                },
            },
        }
    }
}

/// The streaming overlap parser: the ordered pairs already encountered and
/// the records accepted so far.
pub struct OverlapParser {
    processed: PairSet,
    overlaps: Vec<Overlap>,
}

impl OverlapParser {
    /// The ordered read-id pairs this parser has recorded.
    pub closed spec fn seen(self) -> Set<(u32, u32)> {
        pair_set_contents(self.processed)
    }

    /// The records accepted so far, in input order.
    pub closed spec fn records(self) -> Seq<Overlap> {
        self.overlaps@
    }

    pub fn new() -> (p: OverlapParser)
        ensures
            p.seen() == empty_pairs(),
            p.records() == Seq::<Overlap>::empty(),
    {
        OverlapParser { processed: PairSet::new(), overlaps: Vec::new() }
    }

    /// Number of records accepted so far: the final diagnostic count.
    pub fn accepted_count(&self) -> (n: usize)
        ensures
            n == self.records().len(),
    {
        self.overlaps.len()
    }

    /// Process one raw line, terminator included. Returns whether a record
    /// was accepted, or the fatal error on which the whole parse must abort;
    /// on an error the parser state is unchanged.
    pub fn process_line(&mut self, line: &[u8], registry: &Registry) -> (r: Result<
        bool,
        ParseError,
    >)
        requires
            line@.len() >= 1,
        ensures
            ({
                let outcome = line_outcome(line@, registry_map(*registry), old(self).seen());
                match outcome {
                    LineOutcome::Fatal(e) => {
                        &&& r == Err::<bool, ParseError>(e)
                        &&& *final(self) == *old(self)
                    },
                    LineOutcome::Skip => {
                        &&& r == Ok::<bool, ParseError>(false)
                        &&& *final(self) == *old(self)
                    },
                    LineOutcome::Reject(q, t) => {
                        &&& r == Ok::<bool, ParseError>(false)
                        &&& final(self).seen() == old(self).seen().insert((q, t))
                        &&& final(self).records() == old(self).records()
                    },
                    LineOutcome::Accept(o) => {
                        &&& r == Ok::<bool, ParseError>(true)
                        &&& final(self).seen() == old(self).seen().insert((o.qid, o.tid))
                        &&& final(self).records() == old(self).records().push(o)
                    },
                }
            }),
    {
        let fields = split_line_fields(line);
        let qid = match registry.get(fields[0].as_slice()) {
            Some(q) => q,
            None => {
                return Ok(false);
            },
        };
        if fields.len() <= 1 {
            return Err(ParseError::MissingField);
        }
        let qlen = match parse_u32(fields[1].as_slice()) {
            Some(v) => v,
            None => {
                return Err(ParseError::InvalidInteger);
            },
        };
        if fields.len() <= 2 {
            return Err(ParseError::MissingField);
        }
        let qstart = match parse_u32(fields[2].as_slice()) {
            Some(v) => v,
            None => {
                return Err(ParseError::InvalidInteger);
            },
        };
        if fields.len() <= 3 {
            return Err(ParseError::MissingField);
        }
        let qend = match parse_u32(fields[3].as_slice()) {
            Some(v) => v,
            None => {
                return Err(ParseError::InvalidInteger);
            },
        };
        if fields.len() <= 4 {
            return Err(ParseError::MissingField);
        }
        let strand = match parse_strand(fields[4].as_slice()) {
            Some(v) => v,
            None => {
                return Err(ParseError::InvalidStrand);
            },
        };
        if fields.len() <= 5 {
            return Err(ParseError::MissingField);
        }
        let tid = match registry.get(fields[5].as_slice()) {
            Some(t) => t,
            None => {
                return Ok(false);
            },
        };
        if fields.len() <= 6 {
            return Err(ParseError::MissingField);
        }
        let tlen = match parse_u32(fields[6].as_slice()) {
            Some(v) => v,
            None => {
                return Err(ParseError::InvalidInteger);
            },
        };
        if fields.len() <= 7 {
            return Err(ParseError::MissingField);
        }
        let tstart = match parse_u32(fields[7].as_slice()) {
            Some(v) => v,
            None => {
                return Err(ParseError::InvalidInteger);
            },
        };
        if fields.len() <= 8 {
            return Err(ParseError::MissingField);
        }
        let tend = match parse_u32(fields[8].as_slice()) {
            Some(v) => v,
            None => {
                return Err(ParseError::InvalidInteger);
            },
        };
        if tid == qid {
            // Cannot have self-overlaps
            return Ok(false);
        }
        if self.processed.contains(qid, tid) {
            // The first overlap between two reads is assumed to be the best
            return Ok(false);
        }
        if !(qstart <= qend && qend <= qlen && tstart <= tend && tend <= tlen) {
            return Err(ParseError::InvalidCoordinates);
        }
        self.processed.insert(qid, tid);
        if is_valid_overlap(qlen, qstart, qend, strand, tlen, tstart, tend) {
            let overlap = Overlap::new(qid, qlen, qstart, qend, strand, tid, tlen, tstart, tend);
            self.overlaps.push(overlap);
            Ok(true)
        } else {
            Ok(false)
        }
    }

    /// Hand out the accepted records, compacted to their final size.
    pub fn finish(self) -> (r: Vec<Overlap>)
        ensures
            r@ == self.records(),
    {
        let OverlapParser { processed: _, overlaps: mut v } = self;
        compact_overlaps(&mut v);
        v
    }
}

/// Relies on std's `Vec::shrink_to_fit`: it only drops excess capacity and
/// keeps the contents.
#[verifier::external_body]
fn compact_overlaps(v: &mut Vec<Overlap>)
    ensures
        final(v)@ == old(v)@,
{
    v.shrink_to_fit();
}

/// What a whole run of the parser yields over a sequence of raw lines,
/// threading the seen-pair set and the accepted records from line to line:
/// the records in input order, or the first fatal error.
pub open spec fn run_parser(
    lines: Seq<Seq<u8>>,
    names: Map<Seq<u8>, u32>,
    seen: Set<(u32, u32)>,
    acc: Seq<Overlap>,
) -> Result<Seq<Overlap>, ParseError>
    decreases lines.len(),
{
    if lines.len() == 0 {
        Ok(acc)
    } else {
        match line_outcome(lines[0], names, seen) {
            LineOutcome::Fatal(e) => Err(e),
            LineOutcome::Skip => run_parser(lines.drop_first(), names, seen, acc),
            LineOutcome::Reject(q, t) => run_parser(
                lines.drop_first(),
                names,
                seen.insert((q, t)),
                acc,
            ),
            LineOutcome::Accept(o) => run_parser(
                lines.drop_first(),
                names,
                seen.insert((o.qid, o.tid)),
                acc.push(o),
            ),
        }
    }
}

/// Parse a whole overlap file, given as its raw lines (each with its
/// terminator), against a read-name registry: the accepted records in input
/// order, or the first fatal format error.
#[verifier::rlimit(100)]
pub fn parse_paf(lines: &Vec<Vec<u8>>, registry: &Registry) -> (r: Result<Vec<Overlap>, ParseError>)
    requires
        forall|i: int| 0 <= i < lines@.len() ==> (#[trigger] lines@[i])@.len() >= 1,
    ensures
        ({
            let outcome = run_parser(
                lines.deep_view(),
                registry_map(*registry),
                empty_pairs(),
                Seq::empty(),
            );
            match r {
                Ok(v) => outcome == Ok::<Seq<Overlap>, ParseError>(v@),
                Err(e) => outcome == Err::<Seq<Overlap>, ParseError>(e),
            }
        }),
{
    let ghost all = lines.deep_view();
    let ghost names = registry_map(*registry);
    let mut parser = OverlapParser::new();
    let n = lines.len();
    proof {
        assert(all.skip(0) =~= all);
    }
    for i in 0..n
        invariant
            n == lines@.len(),
            all == lines.deep_view(),
            names == registry_map(*registry),
            forall|j: int| 0 <= j < lines@.len() ==> (#[trigger] lines@[j])@.len() >= 1,
            run_parser(all, names, empty_pairs(), Seq::empty()) == run_parser(
                all.skip(i as int),
                names,
                parser.seen(),
                parser.records(),
            ),
    {
        proof {
            assert(all[i as int] == lines@[i as int].deep_view());
            assert(lines@[i as int].deep_view() =~= lines@[i as int]@);
            assert(all.skip(i as int)[0] == all[i as int]);
            assert(all.skip(i as int).drop_first() =~= all.skip(i + 1));
        }
        let res = parser.process_line(lines[i].as_slice(), registry);
        if let Err(e) = res {
            return Err(e);
        }
    }
    proof {
        assert(all.skip(n as int) =~= Seq::<Seq<u8>>::empty());
    }
    Ok(parser.finish())
}

/// An accepted record never relates a read to itself: whatever the line,
/// the registry and the seen pairs, a self-overlap produces no record.
pub proof fn lemma_self_overlap_never_accepted(
    line: Seq<u8>,
    names: Map<Seq<u8>, u32>,
    seen: Set<(u32, u32)>,
)
    ensures
        match line_outcome(line, names, seen) {
            LineOutcome::Accept(o) => o.qid != o.tid,
            _ => true,
        },
{
}

/// A line whose query name is not registered is skipped: it is no error and
/// leaves no trace, whatever the rest of the line holds.
pub proof fn lemma_unknown_query_name_skipped(
    line: Seq<u8>,
    names: Map<Seq<u8>, u32>,
    seen: Set<(u32, u32)>,
)
    requires
        !names.dom().contains(split_tabs(line.drop_last())[0]),
    ensures
        line_outcome(line, names, seen) == LineOutcome::Skip,
{
}

/// A line whose target name is not registered is skipped, provided the
/// stages before the target name (query name, query numbers, strand) went
/// through.
pub proof fn lemma_unknown_target_name_skipped(
    line: Seq<u8>,
    names: Map<Seq<u8>, u32>,
    seen: Set<(u32, u32)>,
)
    requires
        names.dom().contains(split_tabs(line.drop_last())[0]),
        field_u32(split_tabs(line.drop_last()), 1) is Ok,
        field_u32(split_tabs(line.drop_last()), 2) is Ok,
        field_u32(split_tabs(line.drop_last()), 3) is Ok,
        split_tabs(line.drop_last()).len() > 5,
        parse_strand_spec(split_tabs(line.drop_last())[4]) is Some,
        !names.dom().contains(split_tabs(line.drop_last())[5]),
    ensures
        line_outcome(line, names, seen) == LineOutcome::Skip,
{
}

/// Deduplication is by the ordered pair as encountered: a record is only
/// accepted, and a candidate only recorded, when its ordered `(qid, tid)`
/// pair is not in the seen set. Nothing is said of the swapped pair
/// `(tid, qid)`: it is tracked independently.
pub proof fn lemma_seen_pair_never_accepted(
    line: Seq<u8>,
    names: Map<Seq<u8>, u32>,
    seen: Set<(u32, u32)>,
)
    ensures
        match line_outcome(line, names, seen) {
            LineOutcome::Accept(o) => !seen.contains((o.qid, o.tid)),
            LineOutcome::Reject(q, t) => !seen.contains((q, t)),
            _ => true,
        },
{
}

/// Over a whole run, deduplication works: provided the records accepted so
/// far have pairwise distinct ordered `(qid, tid)` pairs, all recorded in
/// the seen set, the records that come out of the rest of the run still
/// have pairwise distinct ordered pairs. In particular, of two lines
/// resolving to the same ordered pair only the first can produce a record.
pub proof fn lemma_run_parser_distinct_pairs(
    lines: Seq<Seq<u8>>,
    names: Map<Seq<u8>, u32>,
    seen: Set<(u32, u32)>,
    acc: Seq<Overlap>,
)
    requires
        forall|i: int, j: int|
            0 <= i < j < acc.len() ==> (acc[i].qid, acc[i].tid) != (acc[j].qid, acc[j].tid),
        forall|i: int| 0 <= i < acc.len() ==> seen.contains((#[trigger] acc[i].qid, acc[i].tid)),
    ensures
        match run_parser(lines, names, seen, acc) {
            Ok(recs) => forall|i: int, j: int|
                0 <= i < j < recs.len() ==> (recs[i].qid, recs[i].tid) != (
                    recs[j].qid,
                    recs[j].tid,
                ),
            Err(_) => true,
        },
    decreases lines.len(),
{
    if lines.len() > 0 {
        match line_outcome(lines[0], names, seen) {
            LineOutcome::Fatal(_) => {},
            LineOutcome::Skip => {
                lemma_run_parser_distinct_pairs(lines.drop_first(), names, seen, acc);
            },
            LineOutcome::Reject(q, t) => {
                lemma_run_parser_distinct_pairs(
                    lines.drop_first(),
                    names,
                    seen.insert((q, t)),
                    acc,
                );
            },
            LineOutcome::Accept(o) => {
                lemma_seen_pair_never_accepted(lines[0], names, seen);
                lemma_run_parser_distinct_pairs(
                    lines.drop_first(),
                    names,
                    seen.insert((o.qid, o.tid)),
                    acc.push(o),
                );
            },
        }
    }
}

/// Every record a line produces is well formed, geometrically valid and
/// carries no CIGAR payload.
pub proof fn lemma_accepted_record_valid(
    line: Seq<u8>,
    names: Map<Seq<u8>, u32>,
    seen: Set<(u32, u32)>,
)
    ensures
        match line_outcome(line, names, seen) {
            LineOutcome::Accept(o) => o.well_formed() && spec_is_valid_overlap(
                o.qlen as int,
                o.qstart as int,
                o.qend as int,
                o.strand,
                o.tlen as int,
                o.tstart as int,
                o.tend as int,
            ) && o.cigar is None,
            _ => true,
        },
{
}

} // verus!
