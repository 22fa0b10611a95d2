//! Turning the records of the system's process table into the processes that
//! a scan looks at.

use vstd::prelude::*;
use vstd::array::array_as_slice;
use vstd::slice::slice_subrange;
use crate::utils::text::{from_utf16_lossy, utf16_lossy};
use crate::utils::ServiceError;

verus! {

/// The number of UTF-16 code units in the name field of a process record.
pub const EXE_FILE_UNITS: usize = 260;

/// A running process as one scan sees it.
#[derive(Debug, Clone)]
pub struct ProcessInfo {
    pub pid: u32,
    pub name: String,
    pub parent_pid: u32,
}

/// A process as a mathematical value.
pub ghost struct ProcessView {
    pub pid: u32,
    pub name: Seq<char>,
    pub parent_pid: u32,
}

impl View for ProcessInfo {
    type V = ProcessView;

    open spec fn view(&self) -> ProcessView {
        ProcessView { pid: self.pid, name: self.name@, parent_pid: self.parent_pid }
    }
}

/// The processes of a list as mathematical values, in order.
pub open spec fn process_views(list: Seq<ProcessInfo>) -> Seq<ProcessView> {
    list.map_values(|p: ProcessInfo| p@)
}

/// One record of the process table, as the system fills it in.
#[derive(Debug, Clone, Copy)]
pub struct RawProcessEntry {
    pub process_id: u32,
    pub parent_process_id: u32,
    /// The executable's name in UTF-16, ended by a zero unit unless it fills
    /// the field.
    pub exe_file: [u16; 260],
}

/// What came of reading the process table.
#[derive(Debug, Clone)]
pub enum SnapshotRead {
    /// No snapshot of the table could be taken.
    SnapshotFailed,
    /// The snapshot was taken but its first record could not be read.
    FirstFailed,
    /// The records that were read, in the order of the table.
    Entries(Vec<RawProcessEntry>),
}

/// The number of units before the first zero unit; all of them when there is
/// none.
pub open spec fn name_length(units: Seq<u16>) -> nat
    decreases units.len(),
{
    if units.len() == 0 || units.first() == 0 {
        0
    } else {
        1 + name_length(units.drop_first())
    }
}

/// The name that a record's name field holds.
pub open spec fn name_of(units: Seq<u16>) -> Seq<char> {
    utf16_lossy(units.take(name_length(units) as int))
}

/// The process that a record stands for; none for the idle pseudo-process,
/// whose identifier is zero.
pub open spec fn parsed(entry: RawProcessEntry) -> Option<ProcessView> {
    if entry.process_id == 0 {
        None
    } else {
        Some(
            ProcessView {
                pid: entry.process_id,
                name: name_of(entry.exe_file@),
                parent_pid: entry.parent_process_id,
            },
        )
    }
}

/// The processes that a run of records stands for, in order.
pub open spec fn parsed_all(entries: Seq<RawProcessEntry>) -> Seq<ProcessView>
    decreases entries.len(),
{
    if entries.len() == 0 {
        Seq::empty()
    } else {
        match parsed(entries.last()) {
            Some(process) => parsed_all(entries.drop_last()).push(process),
            None => parsed_all(entries.drop_last()),
        }
    }
}

/// The outcome of a scan's enumeration for each way the reading can end.
pub open spec fn enumerated(read: SnapshotRead) -> Result<Seq<ProcessView>, Seq<char>> {
    match read {
        SnapshotRead::SnapshotFailed => Err("Failed to create process snapshot"@),
        SnapshotRead::FirstFailed => Err("Failed to get first process"@),
        SnapshotRead::Entries(entries) => Ok(parsed_all(entries@)),
    }
}

/// `name_length` is the one position that has only non-zero units before it
/// and is either the end or a zero unit.
pub proof fn lemma_name_length(units: Seq<u16>, n: int)
    requires
        0 <= n <= units.len(),
        forall|j: int| 0 <= j < n ==> units[j] != 0,
        n == units.len() || units[n] == 0,
    ensures
        name_length(units) == n,
    decreases n,
{
    if n > 0 {
        let rest = units.drop_first();
        assert(units.first() == units[0]);
        assert forall|j: int| 0 <= j < n - 1 implies rest[j] != 0 by {
            assert(rest[j] == units[j + 1]);
        }
        if n < units.len() {
            assert(rest[n - 1] == units[n]);
        }
        lemma_name_length(rest, n - 1);
    }
}

/// Every process of an enumeration has a non-zero identifier.
pub proof fn lemma_parsed_all_nonzero(entries: Seq<RawProcessEntry>)
    ensures
        forall|i: int| 0 <= i < parsed_all(entries).len() ==> #[trigger] parsed_all(entries)[i].pid != 0,
    decreases entries.len(),
{
    if entries.len() > 0 {
        let rest = parsed_all(entries.drop_last());
        lemma_parsed_all_nonzero(entries.drop_last());
        assert forall|i: int| 0 <= i < parsed_all(entries).len() implies #[trigger] parsed_all(
            entries,
        )[i].pid != 0 by {
            if i < rest.len() {
                assert(parsed_all(entries)[i] == rest[i]);
            }
        }
    }
}

/// Reads the system's process table.
pub struct ProcessMonitor;

impl ProcessMonitor {
    /// The processes of one reading of the process table, or the error that
    /// the reading ended with.
    pub fn get_all_processes(read: SnapshotRead) -> (result: Result<Vec<ProcessInfo>, ServiceError>)
        ensures
            match enumerated(read) {
                Ok(processes) => result is Ok && process_views(result->Ok_0@) == processes,
                Err(detail) => result is Err && result->Err_0 is ProcessMonitoring
                    && result->Err_0.detail() == detail,
            },
    {
        match read {
            SnapshotRead::SnapshotFailed => Err(
                ServiceError::ProcessMonitoring("Failed to create process snapshot".to_string()),
            ),
            SnapshotRead::FirstFailed => Err(
                ServiceError::ProcessMonitoring("Failed to get first process".to_string()),
            ),
            SnapshotRead::Entries(entries) => Ok(Self::enumerate_processes(&entries)),
        }
    }

    /// The processes that the records stand for, in the order of the records.
    pub fn enumerate_processes(entries: &Vec<RawProcessEntry>) -> (processes: Vec<ProcessInfo>)
        ensures
            process_views(processes@) == parsed_all(entries@),
    {
        let mut processes: Vec<ProcessInfo> = Vec::new();
        let mut i: usize = 0;
        while i < entries.len()
            invariant
                i <= entries.len(),
                process_views(processes@) == parsed_all(entries@.take(i as int)),
            decreases entries.len() - i,
        {
            let ghost earlier = processes@;
            proof {
                assert(entries@.take(i + 1).drop_last() == entries@.take(i as int));
            }
            match Self::parse_process_entry(&entries[i]) {
                Some(info) => {
                    processes.push(info);
                    assert(process_views(processes@) =~= process_views(earlier).push(info@));
                },
                None => {},
            }
            i += 1;
        }
        assert(entries@.take(i as int) == entries@);
        processes
    }

    /// The process that a record stands for, unless it is the idle
    /// pseudo-process.
    pub fn parse_process_entry(entry: &RawProcessEntry) -> (info: Option<ProcessInfo>)
        ensures
            match parsed(*entry) {
                Some(process) => info is Some && info->0@ == process,
                None => info is None,
            },
    {
        let pid = entry.process_id;
        if pid == 0 {
            return None;
        }
        let name = Self::extract_process_name(&entry.exe_file);
        Some(ProcessInfo { pid, name, parent_pid: entry.parent_process_id })
    }

    /// The name in a record's name field: the units before the first zero,
    /// decoded from UTF-16.
    pub fn extract_process_name(sz_exe_file: &[u16; 260]) -> (name: String)
        ensures
            name@ == name_of(sz_exe_file@),
    {
        let mut len: usize = 0;
        while len < 260 && sz_exe_file[len] != 0
            invariant
                len <= 260,
                sz_exe_file@.len() == 260,
                forall|j: int| 0 <= j < len ==> sz_exe_file@[j] != 0,
            decreases 260 - len,
        {
            len += 1;
        }
        proof {
            lemma_name_length(sz_exe_file@, len as int);
        }
        let units = slice_subrange(array_as_slice(sz_exe_file), 0, len);
        from_utf16_lossy(units)
    }
}

} // verus!
