//! Loading AArch64 ELF images into the guest address space.
//!
//! This is deliberately a loader, not a Linux process launcher yet: it maps
//! PT_LOAD contents, zero-fills BSS, and exposes the ELF entry point. Dynamic
//! linking, argv/envp, auxiliary vectors, and syscalls come later.

use vstd::prelude::*;

use object::{Object, ObjectSegment};

use crate::runtime::GuestMemory;

verus! {

pub const PAGE_SIZE: usize = 4096usize;
pub const DEFAULT_STACK_SIZE: usize = 8388608usize;
pub const ADDRESS_SPACE_SLACK: usize = 16777216usize;

#[derive(Debug, Clone, Copy, PartialEq, Eq, Structural)]
pub struct LoadSegment {
    pub address: u64,
    pub size: u64,
}

#[derive(Debug)]
pub struct LoadedElf {
    pub entry: u64,
    pub memory: GuestMemory,
    pub segments: Vec<LoadSegment>,
}

#[derive(Debug, Clone, PartialEq, Eq)]
pub enum ElfLoadError {
    /// The object parser rejected the file or a segment's data; the parser's
    /// message.
    Parse(String),
    /// The file is not AArch64; the name of its architecture.
    UnsupportedArchitecture(String),
    InvalidSegment { address: u64, size: u64 },
}

// ---------------------------------------------------------------------------
// The file as the object crate reads it.

/// One segment of an object file.
#[derive(Debug)]
pub struct ParsedSegment {
    pub address: u64,
    pub size: u64,
    /// The file bytes of the segment, or the parser's message.
    pub data: Result<Vec<u8>, String>,
}

/// What the loader reads of an object file.
#[derive(Debug)]
pub struct ParsedElf {
    pub is_aarch64: bool,
    /// The name of the file's architecture.
    pub architecture: String,
    pub entry: u64,
    pub segments: Vec<ParsedSegment>,
}

/// What the object crate reads of the file `bytes`, or its error message.
pub uninterp spec fn elf_parse(bytes: Seq<u8>) -> Result<ParsedElf, String>;

/// Parses `bytes` with `object::File::parse` of the object crate and reads,
/// through its `Object` and `ObjectSegment` traits, the architecture, entry
/// point and each segment's address, size and data. The contract claims only
/// that the result is a function of the bytes, named `elf_parse`.
#[verifier::external_body]
fn parse_object(bytes: &[u8]) -> (r: Result<ParsedElf, String>)
    ensures
        r == elf_parse(bytes@),
{
    let file = object::File::parse(bytes).map_err(|e| format!("{e}"))?;
    let segments = file.segments().map(|s| ParsedSegment {
        address: s.address(),
        size: s.size(),
        data: s.data().map(|d| d.to_vec()).map_err(|e| format!("{e}")),
    }).collect();
    let arch = file.architecture();
    Ok(ParsedElf { is_aarch64: arch == object::Architecture::Aarch64, architecture: format!("{arch:?}"), entry: file.entry(), segments })
}

/// Parses an ELF image.
pub fn parse_image(bytes: &[u8]) -> (r: Result<ParsedElf, ElfLoadError>)
    ensures
        r == (match elf_parse(bytes@) {
            Ok(p) => Ok(p),
            Err(msg) => Err(ElfLoadError::Parse(msg)),
        }),
{
    match parse_object(bytes) {
        Ok(p) => Ok(p),
        Err(msg) => Err(ElfLoadError::Parse(msg)),
    }
}

// ---------------------------------------------------------------------------
// The layout of the guest address space.

/// `value` rounded up to a multiple of `alignment` (a power of two), if the
/// sum does not overflow.
pub open spec fn align_up_spec(value: usize, alignment: usize) -> Option<usize> {
    if value + (alignment - 1) > usize::MAX {
        None
    } else {
        Some(((value + (alignment - 1)) as usize) & !((alignment - 1) as usize))
    }
}

/// The segments with a non-zero size among the first `n`, and the highest
/// end address among them; the first such segment whose end does not fit is
/// an error.
pub open spec fn scan_segments(segs: Seq<ParsedSegment>, n: nat) -> Result<(Seq<LoadSegment>, usize), ElfLoadError>
    decreases n,
{
    if n == 0 {
        Ok((Seq::empty(), 0usize))
    } else {
        match scan_segments(segs, (n - 1) as nat) {
            Err(e) => Err(e),
            Ok((kept, max_end)) => {
                let s = segs[n - 1];
                if s.size == 0 {
                    Ok((kept, max_end))
                } else if s.address + s.size > u64::MAX || s.address + s.size > usize::MAX {
                    Err(ElfLoadError::InvalidSegment { address: s.address, size: s.size })
                } else {
                    let end = (s.address + s.size) as usize;
                    Ok((kept.push(LoadSegment { address: s.address, size: s.size }), if end > max_end { end } else { max_end }))
                }
            },
        }
    }
}

proof fn lemma_scan_error_stays(segs: Seq<ParsedSegment>, n: nat, m: nat)
    requires
        n <= m,
        scan_segments(segs, n) is Err,
    ensures
        scan_segments(segs, m) == scan_segments(segs, n),
    decreases m - n,
{
    if n < m {
        lemma_scan_error_stays(segs, n, (m - 1) as nat);
    }
}

/// The guest layout of an image: its entry point, its loaded segments and
/// the size of the guest address space.
#[derive(Debug)]
pub struct ElfLayout {
    pub entry: u64,
    pub segments: Vec<LoadSegment>,
    pub memory_size: usize,
}

/// The layout of a parsed image: the loaded segments and the address space
/// that holds them, page-aligned, plus stack and slack.
pub open spec fn layout_of(p: ParsedElf) -> Result<(Seq<LoadSegment>, usize), ElfLoadError> {
    if !p.is_aarch64 {
        Err(ElfLoadError::UnsupportedArchitecture(p.architecture))
    } else {
        match scan_segments(p.segments@, p.segments@.len()) {
            Err(e) => Err(e),
            Ok((kept, max_end)) => if kept.len() == 0 {
                Err(ElfLoadError::InvalidSegment { address: 0, size: 0 })
            } else {
                match align_up_spec(max_end, PAGE_SIZE) {
                    None => Err(ElfLoadError::InvalidSegment { address: 0, size: max_end as u64 }),
                    Some(image_end) => if image_end + DEFAULT_STACK_SIZE + ADDRESS_SPACE_SLACK > usize::MAX {
                        Err(ElfLoadError::InvalidSegment { address: 0, size: max_end as u64 })
                    } else {
                        Ok((kept, (image_end + DEFAULT_STACK_SIZE + ADDRESS_SPACE_SLACK) as usize))
                    },
                }
            },
        }
    }
}

/// The data a segment writes into guest memory at guest address `address`.
#[derive(Debug)]
pub struct SegmentWrite {
    pub address: usize,
    pub data: Vec<u8>,
}

/// The writes of the first `n` segments, or the first segment that cannot
/// be written: one whose address does not fit, whose data the parser
/// rejects, or whose file data exceed its size.
pub open spec fn writes_of(segs: Seq<ParsedSegment>, n: nat) -> Result<Seq<(usize, Seq<u8>)>, ElfLoadError>
    decreases n,
{
    if n == 0 {
        Ok(Seq::empty())
    } else {
        match writes_of(segs, (n - 1) as nat) {
            Err(e) => Err(e),
            Ok(ws) => {
                let s = segs[n - 1];
                if s.address > usize::MAX {
                    Err(ElfLoadError::InvalidSegment { address: s.address, size: s.size })
                } else {
                    match s.data {
                        Err(msg) => Err(ElfLoadError::Parse(msg)),
                        Ok(data) => if data@.len() > (if s.size > usize::MAX { usize::MAX as u64 } else { s.size }) {
                            Err(ElfLoadError::InvalidSegment { address: s.address, size: s.size })
                        } else {
                            Ok(ws.push((s.address as usize, data@)))
                        },
                    }
                }
            },
        }
    }
}

/// Rounding up to a power of two gives the least multiple of it that is at
/// least the value: a multiple of `alignment`, not below `value`, and less
/// than `alignment` above it.
pub proof fn lemma_align_up(value: usize, alignment: usize)
    requires
        alignment > 0,
        alignment & (alignment - 1) as usize == 0,
        align_up_spec(value, alignment) is Some,
    ensures
        align_up_spec(value, alignment).unwrap() & (alignment - 1) as usize == 0,
        value <= align_up_spec(value, alignment).unwrap(),
        align_up_spec(value, alignment).unwrap() < value + alignment,
{
    let a = alignment;
    let v = value;
    let s = (v + (a - 1)) as usize;
    let m = (a - 1) as usize;
    let r = s & !m;
    assert(r & m == 0 && v <= r && r < v + a) by (bit_vector)
        requires
            a > 0,
            m == a - 1,
            a & m == 0,
            s == v + m,
            r == s & !m;
}

proof fn lemma_scan_ends(segs: Seq<ParsedSegment>, n: nat)
    ensures
        scan_segments(segs, n) matches Ok((kept, max_end)) ==> forall|j: int| 0 <= j < kept.len()
            ==> #[trigger] kept[j].address + kept[j].size <= max_end,
    decreases n,
{
    if n > 0 {
        lemma_scan_ends(segs, (n - 1) as nat);
    }
}

/// Every loaded segment of a laid-out image lies inside its guest address
/// space.
pub proof fn lemma_layout_covers_segments(p: ParsedElf)
    requires
        layout_of(p) is Ok,
    ensures
        forall|j: int| 0 <= j < layout_of(p).unwrap().0.len() ==> #[trigger] layout_of(p).unwrap().0[j].address
            + layout_of(p).unwrap().0[j].size <= layout_of(p).unwrap().1,
{
    lemma_scan_ends(p.segments@, p.segments@.len());
    let max_end = scan_segments(p.segments@, p.segments@.len()).unwrap().1;
    assert(4096usize & (4096usize - 1) as usize == 0) by (bit_vector);
    lemma_align_up(max_end, PAGE_SIZE);
}

fn align_up(value: usize, alignment: usize) -> (r: Option<usize>)
    requires
        alignment > 0,
    ensures
        r == align_up_spec(value, alignment),
{
    match value.checked_add(alignment - 1) {
        Some(v) => Some(v & !(alignment - 1)),
        None => None,
    }
}

/// Checks the architecture and segments of a parsed image and lays out its
/// guest address space.
pub fn plan_layout(parsed: &ParsedElf) -> (r: Result<ElfLayout, ElfLoadError>)
    ensures
        match layout_of(*parsed) {
            Ok((segments, memory_size)) => r matches Ok(l) && l.entry == parsed.entry && l.segments@ == segments && l.memory_size == memory_size,
            Err(e) => r == Err::<ElfLayout, ElfLoadError>(e),
        },
{
    if !parsed.is_aarch64 {
        return Err(ElfLoadError::UnsupportedArchitecture(parsed.architecture.clone()));
    }
    let mut max_end: usize = 0;
    let mut segments: Vec<LoadSegment> = Vec::new();
    let n = parsed.segments.len();
    let mut i: usize = 0;
    while i < n
        invariant
            n == parsed.segments@.len(),
            parsed.is_aarch64,
            i <= n,
            scan_segments(parsed.segments@, i as nat) == Ok::<(Seq<LoadSegment>, usize), ElfLoadError>((segments@, max_end)),
        decreases n - i,
    {
        let address = parsed.segments[i].address;
        let size = parsed.segments[i].size;
        if size != 0 {
            let end = match address.checked_add(size) {
                Some(end) => end,
                None => {
                    proof {
                        lemma_scan_error_stays(parsed.segments@, (i + 1) as nat, n as nat);
                    }
                    return Err(ElfLoadError::InvalidSegment { address, size });
                },
            };
            if end > usize::MAX as u64 {
                proof {
                    lemma_scan_error_stays(parsed.segments@, (i + 1) as nat, n as nat);
                }
                return Err(ElfLoadError::InvalidSegment { address, size });
            }
            let end = end as usize;
            if end > max_end {
                max_end = end;
            }
            segments.push(LoadSegment { address, size });
        }
        i = i + 1;
    }
    if segments.len() == 0 {
        return Err(ElfLoadError::InvalidSegment { address: 0, size: 0 });
    }
    let image_end = match align_up(max_end, PAGE_SIZE) {
        Some(v) => v,
        None => return Err(ElfLoadError::InvalidSegment { address: 0, size: max_end as u64 }),
    };
    let memory_size = match image_end.checked_add(DEFAULT_STACK_SIZE) {
        Some(v) => match v.checked_add(ADDRESS_SPACE_SLACK) {
            Some(w) => w,
            None => return Err(ElfLoadError::InvalidSegment { address: 0, size: max_end as u64 }),
        },
        None => return Err(ElfLoadError::InvalidSegment { address: 0, size: max_end as u64 }),
    };
    Ok(ElfLayout { entry: parsed.entry, segments, memory_size })
}

proof fn lemma_writes_error_stays(segs: Seq<ParsedSegment>, n: nat, m: nat)
    requires
        n <= m,
        writes_of(segs, n) is Err,
    ensures
        writes_of(segs, m) == writes_of(segs, n),
    decreases m - n,
{
    if n < m {
        lemma_writes_error_stays(segs, n, (m - 1) as nat);
    }
}

/// Whether segment `s` can be loaded: its address fits the host, its file
/// data were read, and they are no longer than the segment.
pub open spec fn segment_loadable(s: ParsedSegment) -> bool {
    &&& s.address <= usize::MAX
    &&& s.data matches Ok(d) && d@.len() <= s.size
}

proof fn lemma_writes_of_loadable(segs: Seq<ParsedSegment>, n: nat)
    requires
        n <= segs.len(),
        forall|j: int| 0 <= j < segs.len() ==> segment_loadable(#[trigger] segs[j]),
    ensures
        writes_of(segs, n) matches Ok(ws) && ws.len() == n
            && forall|j: int| 0 <= j < n ==> ((#[trigger] ws[j]).0 == segs[j].address && (segs[j].data matches Ok(d) && ws[j].1 == d@)),
    decreases n,
{
    if n > 0 {
        lemma_writes_of_loadable(segs, (n - 1) as nat);
        let s = segs[n - 1];
        assert(segment_loadable(s));
        if let Ok(d) = s.data {
            assert(d.len() == d@.len());
        }
    }
}

/// Every segment whose address fits, whose data were read and are no
/// longer than the segment is loaded: when all segments are so, the plan
/// has one write per segment, in order, at the segment's address, of
/// exactly its file data.
pub proof fn lemma_loadable_segments_are_written(segs: Seq<ParsedSegment>)
    requires
        forall|j: int| 0 <= j < segs.len() ==> segment_loadable(#[trigger] segs[j]),
    ensures
        writes_of(segs, segs.len()) matches Ok(ws) && ws.len() == segs.len()
            && forall|j: int| 0 <= j < segs.len() ==> ((#[trigger] ws[j]).0 == segs[j].address && (segs[j].data matches Ok(d) && ws[j].1 == d@)),
{
    lemma_writes_of_loadable(segs, segs.len());
}

/// `writes` holds the planned writes `planned`, in order.
pub open spec fn writes_match(writes: Seq<SegmentWrite>, planned: Seq<(usize, Seq<u8>)>) -> bool {
    &&& writes.len() == planned.len()
    &&& forall|j: int| 0 <= j < planned.len() ==> #[trigger] writes[j].address == planned[j].0 && writes[j].data@ == planned[j].1
}

/// The writes that load the file data of every segment of a parsed image
/// into guest memory; the bytes of a segment beyond its file data stay zero.
pub fn plan_writes(parsed: &ParsedElf) -> (r: Result<Vec<SegmentWrite>, ElfLoadError>)
    ensures
        match writes_of(parsed.segments@, parsed.segments@.len()) {
            Ok(planned) => r matches Ok(w) && writes_match(w@, planned),
            Err(e) => r == Err::<Vec<SegmentWrite>, ElfLoadError>(e),
        },
{
    let mut writes: Vec<SegmentWrite> = Vec::new();
    let n = parsed.segments.len();
    let mut i: usize = 0;
    while i < n
        invariant
            n == parsed.segments@.len(),
            i <= n,
            writes_of(parsed.segments@, i as nat) matches Ok(planned) && writes_match(writes@, planned),
        decreases n - i,
    {
        let segment = &parsed.segments[i];
        if segment.address > usize::MAX as u64 {
            proof {
                lemma_writes_error_stays(parsed.segments@, (i + 1) as nat, n as nat);
            }
            return Err(ElfLoadError::InvalidSegment { address: segment.address, size: segment.size });
        }
        let data = match &segment.data {
            Ok(d) => d,
            Err(msg) => {
                proof {
                    lemma_writes_error_stays(parsed.segments@, (i + 1) as nat, n as nat);
                }
                return Err(ElfLoadError::Parse(msg.clone()));
            },
        };
        let limit: u64 = if segment.size > usize::MAX as u64 { usize::MAX as u64 } else { segment.size };
        if data.len() as u64 > limit {
            proof {
                lemma_writes_error_stays(parsed.segments@, (i + 1) as nat, n as nat);
            }
            return Err(ElfLoadError::InvalidSegment { address: segment.address, size: segment.size });
        }
        let copy = data.clone();
        assert(copy@ =~= data@);
        writes.push(SegmentWrite { address: segment.address as usize, data: copy });
        i = i + 1;
    }
    Ok(writes)
}

} // verus!
