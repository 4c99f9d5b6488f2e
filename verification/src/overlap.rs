//! Data model: the `Strand` orientation tag, the opaque CIGAR payload and the
//! `Overlap` record describing one pairwise alignment between two reads.

use vstd::prelude::*;

verus! {

/// Orientation of the target read relative to the query read: `Forward` when
/// both run in the same direction, `Reverse` when the target is
/// reverse-complemented. Canonical textual form is `+` / `-`.
#[derive(Clone, Copy, Debug, PartialEq, Eq, Structural)]
pub enum Strand {
    Forward,
    Reverse,
}

impl Strand {
    /// The canonical one-character form of this strand tag.
    pub open spec fn spec_char(self) -> char {
        match self {
            Strand::Forward => '+',
            Strand::Reverse => '-',
        }
    }

    /// Serialize the strand to its canonical character.
    pub fn to_char(self) -> (c: char)
        ensures
            c == self.spec_char(),
    {
        match self {
            Strand::Forward => '+',
            Strand::Reverse => '-',
        }
    }
}

/// One alignment operation of an externally computed CIGAR string. This core
/// never produces or consumes these; a record merely carries them through.
#[derive(Clone, Copy, Debug, PartialEq, Eq, Structural)]
pub enum CigarOp {
    Match(u32),
    Mismatch(u32),
    Insertion(u32),
    Deletion(u32),
}

/// One pairwise overlap between two reads. Coordinates are half-open bounds
/// on each read in that read's own forward orientation; only the four
/// coordinate fields are ever mutated after creation (by the extender).
#[derive(Debug)]
pub struct Overlap {
    pub qid: u32,
    pub qlen: u32,
    pub qstart: u32,
    pub qend: u32,
    pub strand: Strand,
    pub tid: u32,
    pub tlen: u32,
    pub tstart: u32,
    pub tend: u32,
    pub cigar: Option<Vec<CigarOp>>,
}

impl Overlap {
    /// Both aligned spans lie inside their reads: `start <= end <= len` on
    /// each side.
    pub open spec fn coords_ok(self) -> bool {
        self.qstart <= self.qend <= self.qlen && self.tstart <= self.tend <= self.tlen
    }

    /// A fully well-formed record: in-bounds coordinates and no self-overlap.
    pub open spec fn well_formed(self) -> bool {
        self.coords_ok() && self.qid != self.tid
    }

    /// Length of the aligned span on the target read.
    pub open spec fn spec_target_overlap_length(self) -> int {
        self.tend - self.tstart
    }

    /// The record a freshly parsed candidate materializes into: the nine
    /// scalar fields as given, no CIGAR payload.
    pub open spec fn spec_new(
        qid: u32,
        qlen: u32,
        qstart: u32,
        qend: u32,
        strand: Strand,
        tid: u32,
        tlen: u32,
        tstart: u32,
        tend: u32,
    ) -> Overlap {
        Overlap {
            qid,
            qlen,
            qstart,
            qend,
            strand,
            tid,
            tlen,
            tstart,
            tend,
            cigar: None,
        }
    }

    /// Structural equality over the aligned-span fields alone: identifiers,
    /// coordinates and strand. Lengths and the CIGAR payload are deliberately
    /// excluded — two records describing the same aligned span are equal
    /// regardless of payload.
    pub open spec fn span_eq(self, other: Overlap) -> bool {
        self.qid == other.qid && self.qstart == other.qstart && self.qend == other.qend
            && self.strand == other.strand && self.tid == other.tid
            && self.tstart == other.tstart && self.tend == other.tend
    }

    pub fn new(
        qid: u32,
        qlen: u32,
        qstart: u32,
        qend: u32,
        strand: Strand,
        tid: u32,
        tlen: u32,
        tstart: u32,
        tend: u32,
    ) -> (r: Overlap)
        ensures
            r == Overlap::spec_new(qid, qlen, qstart, qend, strand, tid, tlen, tstart, tend),
    {
        Overlap {
            qid,
            qlen,
            qstart,
            qend,
            strand,
            tid,
            tlen,
            tstart,
            tend,
            cigar: None,
        }
    }

    /// Length of the aligned span on the target read.
    pub fn target_overlap_length(&self) -> (r: u32)
        requires
            self.tstart <= self.tend,
        ensures
            r == self.spec_target_overlap_length(),
    {
        self.tend - self.tstart
    }

    /// Given one of the two read identifiers, return the other one.
    pub fn return_other_id(&self, id: u32) -> (r: u32)
        ensures
            r == if self.qid == id {
                self.tid
            } else {
                self.qid
            },
    {
        if self.qid == id {
            self.tid
        } else {
            self.qid
        }
    }
}

impl PartialEq for Overlap {
    fn eq(&self, other: &Overlap) -> (r: bool) {
        self.qid == other.qid && self.qstart == other.qstart && self.qend == other.qend
            && self.strand == other.strand && self.tid == other.tid
            && self.tstart == other.tstart && self.tend == other.tend
    }
}

impl Eq for Overlap {

}

impl vstd::std_specs::cmp::PartialEqSpecImpl for Overlap {
    open spec fn obeys_eq_spec() -> bool {
        true
    }

    open spec fn eq_spec(&self, other: &Overlap) -> bool {
        self.span_eq(*other)
    }
}

} // verus!
