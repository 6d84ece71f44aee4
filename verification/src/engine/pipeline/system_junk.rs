//! Cleans logs, crash dumps and temporary packages of the system.
use vstd::prelude::*;

use crate::engine::pipeline::CleanStage;
use crate::engine::rules;
use crate::engine::rules::JunkCategory;
use crate::text;

verus! {

pub struct SystemJunkStage;

impl CleanStage for SystemJunkStage {
    open spec fn stage_name(&self) -> Seq<char> {
        "SystemJunkAndLogs"@
    }

    fn name(&self) -> (r: &'static str) {
        "SystemJunkAndLogs"
    }
}

/// The directory holds crash dumps, of which the newest are kept.
pub open spec fn keeps_newest(target: Seq<char>) -> bool {
    ||| text::has_part(target, "tombstones"@)
    ||| text::has_part(target, "anr"@)
    ||| text::has_part(target, "dropbox"@)
}

/// How a directory of the system is cleaned.
#[derive(Debug, Clone, Copy, PartialEq, Eq, Structural)]
pub enum JunkOrder {
    /// All but this many of the newest files go.
    KeepNewest(usize),
    /// The rules decide.
    ByRules,
}

impl SystemJunkStage {
    /// How a directory of the system is cleaned.
    pub fn order(target: &str, keep_recent_crash_files: usize) -> (r: JunkOrder)
        ensures
            r == if keeps_newest(target@) {
                JunkOrder::KeepNewest(keep_recent_crash_files)
            } else {
                JunkOrder::ByRules
            },
    {
        if text::contains_text(target, "tombstones") || text::contains_text(target, "anr")
            || text::contains_text(target, "dropbox") {
            JunkOrder::KeepNewest(keep_recent_crash_files)
        } else {
            JunkOrder::ByRules
        }
    }

    /// The category under which a directory of the system is reported, where it is
    /// one that may be cleaned.
    pub fn category(target: &str) -> (r: Option<JunkCategory>)
        ensures
            r == rules::target_category(target@),
    {
        rules::category_of_target(target)
    }
}

/// Of a directory that names crash dumps the newest files are kept, as many as asked
/// for; every other goes by the rules. A directory is reported under the category that
/// the rules give it.
pub proof fn law_crash_dumps_keep_their_newest(
    target: &str,
    keep: usize,
    r: JunkOrder,
    category: Option<JunkCategory>,
    by_rules: Option<JunkCategory>,
)
    requires
        call_ensures(SystemJunkStage::order, (target, keep), r),
        call_ensures(SystemJunkStage::category, (target,), category),
        call_ensures(rules::category_of_target, (target,), by_rules),
    ensures
        r == JunkOrder::KeepNewest(keep) <==> text::holds_one(
            target@,
            seq!["tombstones"@, "anr"@, "dropbox"@],
        ),
        r == JunkOrder::ByRules <==> !text::holds_one(
            target@,
            seq!["tombstones"@, "anr"@, "dropbox"@],
        ),
        category == by_rules,
{
    let list = seq!["tombstones"@, "anr"@, "dropbox"@];
    text::lemma_holds_one(target@, list);
    assert(text::has_part_of(target@, list) <==> keeps_newest(target@)) by {
        assert(list[0] == "tombstones"@ && list[1] == "anr"@ && list[2] == "dropbox"@);
    }
}

} // verus!
