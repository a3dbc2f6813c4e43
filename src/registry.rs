//! The controller's map from logical unit numbers to attached disks.
use vstd::prelude::*;

verus! {

/// Number of addressable logical units.
pub const LUN_COUNT: usize = 256;

/// What the engine knows of an attached backing disk.
#[derive(Clone, Copy, Debug, PartialEq, Eq, Structural)]
pub struct DiskInfo {
    /// Capacity in logical blocks.
    pub sector_count: u64,
    /// Size of one logical block in bytes.
    pub sector_size: u32,
    /// Whether writes are refused.
    pub read_only: bool,
}

/// Why an attach failed.
#[derive(Clone, Copy, Debug, PartialEq, Eq, Structural)]
pub enum AttachError {
    /// A disk is already attached at this address.
    Occupied,
}

/// The disks of one controller, by logical unit number. Populated at
/// configuration time and only read while sessions run.
pub struct ScsiController {
    disks: Vec<Option<DiskInfo>>,
}

impl View for ScsiController {
    type V = Seq<Option<DiskInfo>>;

    closed spec fn view(&self) -> Seq<Option<DiskInfo>> {
        self.disks@
    }
}

impl ScsiController {
    /// The controller's invariant: one slot per logical unit.
    pub open spec fn wf(&self) -> bool {
        self@.len() == LUN_COUNT
    }

    /// The disk attached at `lun`, if any.
    pub open spec fn disk(&self, lun: u8) -> Option<DiskInfo> {
        self@[lun as int]
    }

    /// A controller with no disk attached.
    pub fn new() -> (r: Self)
        ensures
            r.wf(),
            forall|lun: u8| #[trigger] r.disk(lun) is None,
    {
        let mut disks: Vec<Option<DiskInfo>> = Vec::new();
        while disks.len() < LUN_COUNT
            invariant
                disks@.len() <= LUN_COUNT,
                forall|k: int| 0 <= k < disks@.len() ==> #[trigger] disks@[k] is None,
            decreases LUN_COUNT - disks@.len(),
        {
            disks.push(None);
        }
        ScsiController { disks }
    }

    /// Attaches `disk` at `lun`; fails where that address is taken.
    pub fn attach(&mut self, lun: u8, disk: DiskInfo) -> (r: Result<(), AttachError>)
        requires
            old(self).wf(),
        ensures
            final(self).wf(),
            old(self).disk(lun) is Some ==> r == Err::<(), AttachError>(AttachError::Occupied)
                && final(self)@ == old(self)@,
            old(self).disk(lun) is None ==> r is Ok && final(self)@ == old(self)@.update(
                lun as int,
                Some(disk),
            ),
    {
        if self.disks[lun as usize].is_some() {
            return Err(AttachError::Occupied);
        }
        self.disks.set(lun as usize, Some(disk));
        Ok(())
    }

    /// The disk attached at `lun`, if any.
    pub fn lookup(&self, lun: u8) -> (r: Option<DiskInfo>)
        requires
            self.wf(),
        ensures
            r == self.disk(lun),
    {
        self.disks[lun as usize]
    }

    /// The addresses that have a disk attached, in increasing order.
    pub fn attached_luns(&self) -> (r: Vec<u8>)
        requires
            self.wf(),
        ensures
            forall|lun: u8| r@.contains(lun) <==> self.disk(lun) is Some,
            forall|i: int, j: int| 0 <= i < j < r@.len() ==> r@[i] < r@[j],
    {
        let mut r: Vec<u8> = Vec::new();
        let mut i: usize = 0;
        while i < LUN_COUNT
            invariant
                i <= LUN_COUNT,
                self.wf(),
                forall|lun: u8| lun < i ==> (r@.contains(lun) <==> self.disk(lun) is Some),
                forall|k: int| 0 <= k < r@.len() ==> r@[k] < i,
                forall|a: int, b: int| 0 <= a < b < r@.len() ==> r@[a] < r@[b],
            decreases LUN_COUNT - i,
        {
            let ghost before = r@;
            if self.disks[i].is_some() {
                r.push(i as u8);
                assert(r@[r@.len() - 1] == i as u8);
            }
            proof {
                assert forall|lun: u8| lun < i + 1 implies (r@.contains(lun) <==> self.disk(lun) is Some) by {
                    if lun < i {
                        if r@.contains(lun) {
                            let k = choose|k: int| 0 <= k < r@.len() && r@[k] == lun;
                            if k < before.len() {
                                assert(before[k] == lun);
                            }
                        }
                        if before.contains(lun) {
                            let k = choose|k: int| 0 <= k < before.len() && before[k] == lun;
                            assert(r@[k] == lun);
                        }
                    } else if r@.contains(lun) {
                        let k = choose|k: int| 0 <= k < r@.len() && r@[k] == lun;
                        if k < before.len() {
                            assert(before[k] < i);
                        }
                    }
                }
            }
            i = i + 1;
        }
        r
    }
}

} // verus!
