//! A report as people read it.
use vstd::prelude::*;

use crate::domain::types::ByteCount;
use crate::ipc::protocol::{CleanReport, MemoryReport, OptimizationReport, StorageReport};
use crate::numerals;
use crate::text;

verus! {

/// A line with a number of bytes, where it is not zero.
pub open spec fn bytes_line(head: Seq<char>, bytes: u64) -> Seq<Seq<char>> {
    if bytes > 0 {
        seq![head + ByteCount(bytes).human()]
    } else {
        Seq::empty()
    }
}

/// The lines on what was deleted.
pub open spec fn storage_lines(s: StorageReport) -> Seq<Seq<char>> {
    let apps = if s.frozen_apps_cleaned > 0 || s.active_apps_cleaned > 0 {
        seq![
            "    Frozen Apps    : "@ + (numerals::decimal(s.frozen_apps_cleaned as nat)
                + " cleaned"@),
            "    Active Apps    : "@ + (numerals::decimal(s.active_apps_cleaned as nat)
                + " cleaned"@),
        ]
    } else {
        Seq::empty()
    };
    let skipped = if s.skipped_files_count > 0 {
        seq![
            "    Skipped Files  : "@ + (numerals::decimal(s.skipped_files_count as nat)
                + " (Protected / Age / Inaccessible)"@),
        ]
    } else {
        Seq::empty()
    };
    let errors = if s.errors_count > 0 {
        seq!["    Errors/Denied  : "@ + numerals::decimal(s.errors_count as nat)]
    } else {
        Seq::empty()
    };
    seq![
        "  [Storage Deletion]"@,
        "    Total Freed    : "@ + ByteCount(s.total_freed_bytes).human(),
        "    Files Deleted  : "@ + numerals::decimal(s.deleted_files_count as nat),
        "    App Cache      : "@ + ByteCount(s.app_cache_bytes).human(),
    ] + bytes_line("    OEM Logs       : "@, s.oem_logs_bytes) + bytes_line(
        "    Crash Dumps    : "@,
        s.crash_dumps_bytes,
    ) + bytes_line("    Temp APKs      : "@, s.temp_apks_bytes) + apps + skipped + errors
}

/// The lines on the memory.
pub open spec fn memory_lines(m: MemoryReport) -> Seq<Seq<char>> {
    seq![
        "  [Memory Optimization]"@,
        "    ZRAM Compacted : "@ + text::bool_shown(m.zram_compacted),
        "    RAM Compacted  : "@ + text::bool_shown(m.memory_compacted),
        "    Cgroup Reclaim : "@ + (text::bool_shown(m.cgroup_memory_reclaimed) + " ("@
            + numerals::decimal(m.reclaimed_mb as nat) + " MB)"@),
    ]
}

/// The lines on the maintenance of the storage.
pub open spec fn maintenance_lines(
    trimmed: bool,
    mounts: Seq<Seq<char>>,
    o: OptimizationReport,
    duration_ms: u64,
) -> Seq<Seq<char>> {
    let mounts_line = if mounts.len() > 0 {
        seq!["    Mounts Trimmed : "@ + text::joined_by(mounts, ", "@)]
    } else {
        Seq::empty()
    };
    seq![
        "  [Storage Maintenance]"@,
        "    FITRIM Status  : "@ + text::bool_shown(trimmed),
    ] + mounts_line + seq![
        "    F2FS GC Urgent : "@ + text::bool_shown(o.f2fs_gc_activated),
        "    Job Duration   : "@ + (numerals::decimal(duration_ms as nat) + " ms"@),
    ]
}

/// The lines of a report.
pub open spec fn report_lines(report: CleanReport) -> Seq<Seq<char>> {
    storage_lines(report.storage) + memory_lines(report.memory) + maintenance_lines(
        report.trim.fstrim_completed,
        text::texts(report.trim.trimmed_mounts@),
        report.optimization,
        report.duration_ms,
    )
}

fn push_bytes(lines: &mut Vec<String>, head: &str, bytes: u64)
    ensures
        text::texts(final(lines)@) == text::texts(old(lines)@) + bytes_line(head@, bytes),
{
    let ghost before = text::texts(lines@);
    if bytes > 0 {
        text::push_line(lines, head, ByteCount(bytes).format_human().as_str());
        assert(text::texts(lines@) =~= before + bytes_line(head@, bytes));
    } else {
        assert(text::texts(lines@) =~= before + bytes_line(head@, bytes));
    }
}

fn push_number(lines: &mut Vec<String>, head: &str, n: u64, tail: &str)
    ensures
        text::texts(final(lines)@) == text::texts(old(lines)@).push(
            head@ + (numerals::decimal(n as nat) + tail@),
        ),
{
    let mut number = numerals::decimal_text(n);
    number.append(tail);
    text::push_line(lines, head, number.as_str());
}

fn push_storage(lines: &mut Vec<String>, s: &StorageReport)
    ensures
        text::texts(final(lines)@) == text::texts(old(lines)@) + storage_lines(*s),
{
    let ghost before = text::texts(lines@);
    text::push_text(lines, "  [Storage Deletion]");
    text::push_line(
        lines,
        "    Total Freed    : ",
        ByteCount(s.total_freed_bytes).format_human().as_str(),
    );
    text::push_line(
        lines,
        "    Files Deleted  : ",
        numerals::decimal_text(s.deleted_files_count as u64).as_str(),
    );
    text::push_line(
        lines,
        "    App Cache      : ",
        ByteCount(s.app_cache_bytes).format_human().as_str(),
    );
    let ghost first = seq![
        "  [Storage Deletion]"@,
        "    Total Freed    : "@ + ByteCount(s.total_freed_bytes).human(),
        "    Files Deleted  : "@ + numerals::decimal(s.deleted_files_count as nat),
        "    App Cache      : "@ + ByteCount(s.app_cache_bytes).human(),
    ];
    assert(text::texts(lines@) =~= before + first);
    push_bytes(lines, "    OEM Logs       : ", s.oem_logs_bytes);
    push_bytes(lines, "    Crash Dumps    : ", s.crash_dumps_bytes);
    push_bytes(lines, "    Temp APKs      : ", s.temp_apks_bytes);
    let ghost bytes = first + bytes_line("    OEM Logs       : "@, s.oem_logs_bytes) + bytes_line(
        "    Crash Dumps    : "@,
        s.crash_dumps_bytes,
    ) + bytes_line("    Temp APKs      : "@, s.temp_apks_bytes);
    assert(text::texts(lines@) =~= before + bytes);
    if s.frozen_apps_cleaned > 0 || s.active_apps_cleaned > 0 {
        push_number(lines, "    Frozen Apps    : ", s.frozen_apps_cleaned as u64, " cleaned");
        push_number(lines, "    Active Apps    : ", s.active_apps_cleaned as u64, " cleaned");
    }
    if s.skipped_files_count > 0 {
        push_number(
            lines,
            "    Skipped Files  : ",
            s.skipped_files_count as u64,
            " (Protected / Age / Inaccessible)",
        );
    }
    if s.errors_count > 0 {
        text::push_line(
            lines,
            "    Errors/Denied  : ",
            numerals::decimal_text(s.errors_count as u64).as_str(),
        );
    }
    assert(text::texts(lines@) =~= before + storage_lines(*s));
}

fn push_memory(lines: &mut Vec<String>, m: &MemoryReport)
    ensures
        text::texts(final(lines)@) == text::texts(old(lines)@) + memory_lines(*m),
{
    let ghost before = text::texts(lines@);
    text::push_text(lines, "  [Memory Optimization]");
    text::push_line(lines, "    ZRAM Compacted : ", text::bool_text(m.zram_compacted));
    text::push_line(lines, "    RAM Compacted  : ", text::bool_text(m.memory_compacted));
    let mut reclaim = text::bool_text(m.cgroup_memory_reclaimed).to_owned();
    reclaim.append(" (");
    reclaim.append(numerals::decimal_text(m.reclaimed_mb).as_str());
    reclaim.append(" MB)");
    text::push_line(lines, "    Cgroup Reclaim : ", reclaim.as_str());
    assert(text::texts(lines@) =~= before + memory_lines(*m));
}

/// The lines of a report.
pub fn print_clean_report(report: &CleanReport) -> (r: Vec<String>)
    ensures
        text::texts(r@) == report_lines(*report),
{
    let mut lines: Vec<String> = Vec::new();
    assert(text::texts(lines@) =~= Seq::empty());
    push_storage(&mut lines, &report.storage);
    push_memory(&mut lines, &report.memory);
    let ghost before = text::texts(lines@);
    let mounts = &report.trim.trimmed_mounts;
    assert(text::texts(mounts@).len() == mounts@.len());
    text::push_text(&mut lines, "  [Storage Maintenance]");
    text::push_line(
        &mut lines,
        "    FITRIM Status  : ",
        text::bool_text(report.trim.fstrim_completed),
    );
    if !mounts.is_empty() {
        text::push_line(
            &mut lines,
            "    Mounts Trimmed : ",
            text::join_texts(mounts, ", ").as_str(),
        );
    }
    text::push_line(
        &mut lines,
        "    F2FS GC Urgent : ",
        text::bool_text(report.optimization.f2fs_gc_activated),
    );
    push_number(&mut lines, "    Job Duration   : ", report.duration_ms, " ms");
    assert(text::texts(lines@) =~= before + maintenance_lines(
        report.trim.fstrim_completed,
        text::texts(mounts@),
        report.optimization,
        report.duration_ms,
    ));
    assert(text::texts(lines@) =~= report_lines(*report));
    lines
}

/// The report tells of what was deleted first; of logs, dumps, packages, applications,
/// skipped files and errors it tells only where there were any.
pub proof fn law_report_tells_what_was_deleted(report: &CleanReport, r: Vec<String>)
    requires
        call_ensures(print_clean_report, (report,), r),
    ensures
        ({
            let s = report.storage;
            let one = |b: bool|
                if b {
                    1int
                } else {
                    0int
                };
            let oem = one(s.oem_logs_bytes > 0);
            let dumps = oem + one(s.crash_dumps_bytes > 0);
            let apks = dumps + one(s.temp_apks_bytes > 0);
            let with_apps = s.frozen_apps_cleaned > 0 || s.active_apps_cleaned > 0;
            let apps = apks + 2 * one(with_apps);
            let skipped = apps + one(s.skipped_files_count > 0);
            let all = skipped + one(s.errors_count > 0);
            &&& r@.len() == 12 + all + one(report.trim.trimmed_mounts@.len() > 0)
            &&& r@[0]@ == "  [Storage Deletion]"@
            &&& r@[1]@ == "    Total Freed    : "@ + ByteCount(s.total_freed_bytes).human()
            &&& r@[2]@ == "    Files Deleted  : "@ + numerals::decimal(s.deleted_files_count as nat)
            &&& r@[3]@ == "    App Cache      : "@ + ByteCount(s.app_cache_bytes).human()
            &&& s.oem_logs_bytes > 0 ==> r@[4]@ == "    OEM Logs       : "@ + ByteCount(
                s.oem_logs_bytes,
            ).human()
            &&& s.crash_dumps_bytes > 0 ==> r@[4 + oem]@ == "    Crash Dumps    : "@ + ByteCount(
                s.crash_dumps_bytes,
            ).human()
            &&& s.temp_apks_bytes > 0 ==> r@[4 + dumps]@ == "    Temp APKs      : "@ + ByteCount(
                s.temp_apks_bytes,
            ).human()
            &&& with_apps ==> r@[4 + apks]@ == "    Frozen Apps    : "@ + (numerals::decimal(
                s.frozen_apps_cleaned as nat,
            ) + " cleaned"@) && r@[5 + apks]@ == "    Active Apps    : "@ + (numerals::decimal(
                s.active_apps_cleaned as nat,
            ) + " cleaned"@)
            &&& s.skipped_files_count > 0 ==> r@[4 + apps]@ == "    Skipped Files  : "@ + (
            numerals::decimal(s.skipped_files_count as nat) + " (Protected / Age / Inaccessible)"@)
            &&& s.errors_count > 0 ==> r@[4 + skipped]@ == "    Errors/Denied  : "@
                + numerals::decimal(s.errors_count as nat)
        }),
{
    let lines = text::texts(r@);
    let s = report.storage;
    let part = storage_lines(s);
    let rest = memory_lines(report.memory) + maintenance_lines(
        report.trim.fstrim_completed,
        text::texts(report.trim.trimmed_mounts@),
        report.optimization,
        report.duration_ms,
    );
    assert(lines =~= part + rest);
    assert(lines.len() == r@.len());
    assert(text::texts(report.trim.trimmed_mounts@).len() == report.trim.trimmed_mounts@.len());
    assert(rest.len() == 8 + if report.trim.trimmed_mounts@.len() > 0 {
        1int
    } else {
        0int
    });
    lemma_storage_lines(s);
    assert forall|i: int| 0 <= i < part.len() implies (#[trigger] r@[i])@ == part[i] by {
        assert(lines[i] == part[i]);
    }
}

proof fn lemma_storage_lines(s: StorageReport)
    ensures
        ({
            let part = storage_lines(s);
            let one = |b: bool|
                if b {
                    1int
                } else {
                    0int
                };
            let oem = one(s.oem_logs_bytes > 0);
            let dumps = oem + one(s.crash_dumps_bytes > 0);
            let apks = dumps + one(s.temp_apks_bytes > 0);
            let with_apps = s.frozen_apps_cleaned > 0 || s.active_apps_cleaned > 0;
            let apps = apks + 2 * one(with_apps);
            let skipped = apps + one(s.skipped_files_count > 0);
            let all = skipped + one(s.errors_count > 0);
            &&& part.len() == 4 + all
            &&& part[0] == "  [Storage Deletion]"@
            &&& part[1] == "    Total Freed    : "@ + ByteCount(s.total_freed_bytes).human()
            &&& part[2] == "    Files Deleted  : "@ + numerals::decimal(s.deleted_files_count as nat)
            &&& part[3] == "    App Cache      : "@ + ByteCount(s.app_cache_bytes).human()
            &&& s.oem_logs_bytes > 0 ==> part[4] == "    OEM Logs       : "@ + ByteCount(
                s.oem_logs_bytes,
            ).human()
            &&& s.crash_dumps_bytes > 0 ==> part[4 + oem] == "    Crash Dumps    : "@ + ByteCount(
                s.crash_dumps_bytes,
            ).human()
            &&& s.temp_apks_bytes > 0 ==> part[4 + dumps] == "    Temp APKs      : "@ + ByteCount(
                s.temp_apks_bytes,
            ).human()
            &&& with_apps ==> part[4 + apks] == "    Frozen Apps    : "@ + (numerals::decimal(
                s.frozen_apps_cleaned as nat,
            ) + " cleaned"@) && part[5 + apks] == "    Active Apps    : "@ + (numerals::decimal(
                s.active_apps_cleaned as nat,
            ) + " cleaned"@)
            &&& s.skipped_files_count > 0 ==> part[4 + apps] == "    Skipped Files  : "@ + (
            numerals::decimal(s.skipped_files_count as nat) + " (Protected / Age / Inaccessible)"@)
            &&& s.errors_count > 0 ==> part[4 + skipped] == "    Errors/Denied  : "@
                + numerals::decimal(s.errors_count as nat)
        }),
{
}

/// The report ends with the memory, the maintenance and how long it took; the mounts are
/// named where any was trimmed.
pub proof fn law_report_ends_with_maintenance(report: &CleanReport, r: Vec<String>)
    requires
        call_ensures(print_clean_report, (report,), r),
    ensures
        ({
            let m = report.memory;
            let mounts = text::texts(report.trim.trimmed_mounts@);
            let n = r@.len() as int;
            let k = n - if mounts.len() > 0 {
                1int
            } else {
                0int
            };
            &&& n >= 12
            &&& r@[n - 1]@ == "    Job Duration   : "@ + (numerals::decimal(
                report.duration_ms as nat,
            ) + " ms"@)
            &&& r@[n - 2]@ == "    F2FS GC Urgent : "@ + text::bool_shown(
                report.optimization.f2fs_gc_activated,
            )
            &&& mounts.len() > 0 ==> r@[n - 3]@ == "    Mounts Trimmed : "@ + text::joined_by(
                mounts,
                ", "@,
            )
            &&& r@[k - 3]@ == "    FITRIM Status  : "@ + text::bool_shown(
                report.trim.fstrim_completed,
            )
            &&& r@[k - 4]@ == "  [Storage Maintenance]"@
            &&& r@[k - 5]@ == "    Cgroup Reclaim : "@ + (text::bool_shown(
                m.cgroup_memory_reclaimed,
            ) + " ("@ + numerals::decimal(m.reclaimed_mb as nat) + " MB)"@)
            &&& r@[k - 6]@ == "    RAM Compacted  : "@ + text::bool_shown(m.memory_compacted)
            &&& r@[k - 7]@ == "    ZRAM Compacted : "@ + text::bool_shown(m.zram_compacted)
            &&& r@[k - 8]@ == "  [Memory Optimization]"@
        }),
{
    let lines = text::texts(r@);
    assert(lines.len() == r@.len());
    assert forall|i: int| 0 <= i < r@.len() implies (#[trigger] r@[i])@ == lines[i] by {}
}

} // verus!
