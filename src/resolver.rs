//! Guest memory descriptors and their validation against guest memory.
use vstd::prelude::*;

verus! {

/// Size in bytes of one guest page.
pub const PAGE_SIZE: u64 = 4096;

/// Number of pages spanned by `len` bytes that start `offset` bytes into the
/// first page, or `None` where the computation overflows.
pub open spec fn spec_page_add(offset: u64, len: u64) -> Option<u64> {
    if offset + len + PAGE_SIZE <= u64::MAX {
        Some(((offset + len + PAGE_SIZE - 1) / PAGE_SIZE as int) as u64)
    } else {
        None
    }
}

/// Number of pages touched by a range of `len` bytes beginning at byte
/// `offset` of its first page; `None` on arithmetic overflow.
pub fn page_add(offset: u64, len: u64) -> (r: Option<u64>)
    ensures
        r == spec_page_add(offset, len),
{
    let end = offset.checked_add(len)?;
    let end = end.checked_add(PAGE_SIZE)?;
    let end = end.checked_sub(1)?;
    end.checked_div(PAGE_SIZE)
}


/// Direction of the access that a resolved range grants.
#[derive(Clone, Copy, Debug, PartialEq, Eq, Structural)]
pub enum Access {
    /// The disk reads guest memory (the guest writes to the disk).
    Read,
    /// The disk fills guest memory (the guest reads from the disk).
    Write,
}

/// A guest-supplied buffer: a list of guest page numbers, the byte offset of
/// the data within the first page and the total byte length.
#[derive(Clone, Debug)]
pub struct MemoryDescriptor {
    pub offset: u32,
    pub len: u32,
    pub gpns: Vec<u64>,
}

/// Mathematical value of a memory descriptor.
pub ghost struct DescriptorModel {
    pub offset: u32,
    pub len: u32,
    pub gpns: Seq<u64>,
}

impl View for MemoryDescriptor {
    type V = DescriptorModel;

    open spec fn view(&self) -> DescriptorModel {
        DescriptorModel { offset: self.offset, len: self.len, gpns: self.gpns@ }
    }
}

/// Guest memory as the engine sees it: the pages numbered below
/// `page_count` are mapped, all others are not.
#[derive(Clone, Copy, Debug, PartialEq, Eq, Structural)]
pub struct GuestMemory {
    pub page_count: u64,
}

/// Why a descriptor was refused.
#[derive(Clone, Copy, Debug, PartialEq, Eq, Structural)]
pub enum RangeError {
    /// The starting offset does not lie within the first page.
    OffsetOutOfPage,
    /// `offset + len` runs past the end of the listed pages.
    LengthExceedsPages,
    /// The page at this position of the list is not mapped guest memory.
    PageNotMapped(usize),
}

/// A validated range of guest memory, usable for exactly one request.
#[derive(Clone, Debug)]
pub struct ByteRange {
    pub access: Access,
    pub offset: u32,
    pub len: u32,
    pub gpns: Vec<u64>,
}

/// Every page of the list is mapped in `mem`.
pub open spec fn all_mapped(gpns: Seq<u64>, mem: GuestMemory) -> bool {
    forall|k: int| 0 <= k < gpns.len() ==> #[trigger] gpns[k] < mem.page_count
}

/// The descriptor lies within its own page list.
pub open spec fn within_pages(d: DescriptorModel) -> bool {
    d.offset + d.len <= d.gpns.len() * PAGE_SIZE
}

/// Index of the first unmapped page of the list (meaningful when one exists).
pub open spec fn first_unmapped(gpns: Seq<u64>, mem: GuestMemory) -> int
    decreases gpns.len(),
{
    if gpns.len() == 0 {
        0
    } else if gpns[0] >= mem.page_count {
        0
    } else {
        1 + first_unmapped(gpns.drop_first(), mem)
    }
}

/// What resolving `d` against `mem` yields.
pub open spec fn resolve_result(d: DescriptorModel, mem: GuestMemory) -> Result<(), RangeError> {
    if d.offset >= PAGE_SIZE {
        Err(RangeError::OffsetOutOfPage)
    } else if !within_pages(d) {
        Err(RangeError::LengthExceedsPages)
    } else if !all_mapped(d.gpns, mem) {
        Err(RangeError::PageNotMapped(first_unmapped(d.gpns, mem) as usize))
    } else {
        Ok(())
    }
}

/// Guest physical address of byte `i` of the range.
pub open spec fn byte_address(offset: u32, gpns: Seq<u64>, i: int) -> int {
    gpns[(offset + i) / PAGE_SIZE as int] * PAGE_SIZE + (offset + i) % PAGE_SIZE as int
}

proof fn lemma_pages_needed(t: int, n: int)
    requires
        0 <= t,
        0 <= n,
    ensures
        (t + PAGE_SIZE - 1) / PAGE_SIZE as int <= n <==> t <= n * PAGE_SIZE,
{
    let q = (t + 4095) / 4096;
    let r = (t + 4095) % 4096;
    assert(t + 4095 == q * 4096 + r && 0 <= r < 4096);
    if q <= n {
        assert(q * 4096 <= n * 4096) by (nonlinear_arith)
            requires q <= n;
    } else {
        assert((n + 1) * 4096 <= q * 4096) by (nonlinear_arith)
            requires n + 1 <= q;
    }
}

proof fn lemma_first_unmapped(gpns: Seq<u64>, mem: GuestMemory, i: int)
    requires
        0 <= i < gpns.len(),
        gpns[i] >= mem.page_count,
        forall|k: int| 0 <= k < i ==> #[trigger] gpns[k] < mem.page_count,
    ensures
        first_unmapped(gpns, mem) == i,
    decreases i,
{
    if i > 0 {
        let rest = gpns.drop_first();
        assert forall|k: int| 0 <= k < i - 1 implies #[trigger] rest[k] < mem.page_count by {
            assert(rest[k] == gpns[k + 1]);
        }
        lemma_first_unmapped(rest, mem, i - 1);
    }
}

/// Validates `d` against `mem` and, when it is sound, grants `access` to
/// exactly the `d.len` bytes that it describes.
pub fn resolve(d: &MemoryDescriptor, mem: GuestMemory, access: Access) -> (r: Result<
    ByteRange,
    RangeError,
>)
    ensures
        match r {
            Ok(range) => resolve_result(d@, mem) is Ok && range.access == access
                && range.offset == d.offset && range.len == d.len && range.gpns@ == d.gpns@,
            Err(e) => resolve_result(d@, mem) == Err::<(), RangeError>(e),
        },
        resolve_result(d@, mem) is Ok ==> r is Ok,
{
    if d.offset as u64 >= PAGE_SIZE {
        return Err(RangeError::OffsetOutOfPage);
    }
    let needed = page_add(d.offset as u64, d.len as u64);
    proof {
        lemma_pages_needed(d.offset + d.len, d.gpns.len() as int);
    }
    match needed {
        Some(n) => {
            if n > d.gpns.len() as u64 {
                return Err(RangeError::LengthExceedsPages);
            }
        },
        None => {
            return Err(RangeError::LengthExceedsPages);
        },
    }
    let mut i: usize = 0;
    while i < d.gpns.len()
        invariant
            0 <= i <= d.gpns.len(),
            d.offset < PAGE_SIZE,
            within_pages(d@),
            forall|k: int| 0 <= k < i ==> #[trigger] d.gpns@[k] < mem.page_count,
        decreases d.gpns.len() - i,
    {
        if d.gpns[i] >= mem.page_count {
            proof {
                lemma_first_unmapped(d.gpns@, mem, i as int);
                assert(!all_mapped(d.gpns@, mem));
            }
            return Err(RangeError::PageNotMapped(i));
        }
        i = i + 1;
    }
    Ok(ByteRange { access, offset: d.offset, len: d.len, gpns: d.gpns.clone() })
}


/// The descriptor of `len` bytes of guest memory that start at guest
/// physical address `gpa` and run over consecutive pages.
pub fn contiguous(gpa: u64, len: u32) -> (d: MemoryDescriptor)
    ensures
        d.offset == gpa % PAGE_SIZE,
        d.len == len,
        d@.gpns.len() == spec_page_add((gpa % PAGE_SIZE) as u64, len as u64).unwrap(),
        forall|k: int| 0 <= k < d@.gpns.len() ==> #[trigger] d@.gpns[k] == gpa / PAGE_SIZE + k,
        d.offset < PAGE_SIZE,
        within_pages(d@),
{
    let offset = gpa % PAGE_SIZE;
    let start = gpa / PAGE_SIZE;
    let n = page_add(offset, len as u64).unwrap();
    proof {
        lemma_pages_needed(offset + len, n as int);
    }
    let mut gpns: Vec<u64> = Vec::new();
    let mut k: u64 = 0;
    while k < n
        invariant
            k <= n,
            start + n <= u64::MAX,
            gpns@.len() == k,
            forall|j: int| 0 <= j < k ==> #[trigger] gpns@[j] == start + j,
        decreases n - k,
    {
        gpns.push(start + k);
        k = k + 1;
    }
    MemoryDescriptor { offset: offset as u32, len, gpns }
}

} // verus!
