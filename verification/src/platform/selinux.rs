//! How strictly SELinux is enforced.
use vstd::prelude::*;

use crate::text;

verus! {

#[derive(Debug, Clone, Copy, PartialEq, Eq, Structural)]
pub enum SelinuxMode {
    Enforcing,
    Permissive,
    Disabled,
    Unknown,
}

/// The mode that the kernel's file tells.
pub open spec fn mode_by_file(content: Seq<char>) -> Option<SelinuxMode> {
    if text::trimmed(content) == "1"@ {
        Some(SelinuxMode::Enforcing)
    } else if text::trimmed(content) == "0"@ {
        Some(SelinuxMode::Permissive)
    } else {
        None
    }
}

/// The mode that the answer of `getenforce`, in small letters, tells.
pub open spec fn mode_by_answer(lower: Seq<char>) -> SelinuxMode {
    if text::has_part(lower, "enforcing"@) {
        SelinuxMode::Enforcing
    } else if text::has_part(lower, "permissive"@) {
        SelinuxMode::Permissive
    } else if text::has_part(lower, "disabled"@) {
        SelinuxMode::Disabled
    } else {
        SelinuxMode::Unknown
    }
}

/// The mode that the answer of `getenforce`, in small letters, tells.
pub fn mode_of_answer(lower: &str) -> (r: SelinuxMode)
    ensures
        r == mode_by_answer(lower@),
{
    if text::contains_text(lower, "enforcing") {
        SelinuxMode::Enforcing
    } else if text::contains_text(lower, "permissive") {
        SelinuxMode::Permissive
    } else if text::contains_text(lower, "disabled") {
        SelinuxMode::Disabled
    } else {
        SelinuxMode::Unknown
    }
}

/// The mode of SELinux, by the contents of the kernel's file or else by the answer of
/// `getenforce`, where either is there.
pub fn get_selinux_mode(file: Option<&str>, answer: Option<&str>) -> (r: SelinuxMode)
    ensures
        r == if file is Some && mode_by_file(file->0@) is Some {
            mode_by_file(file->0@)->0
        } else if answer is Some {
            mode_by_answer(text::lowercase(answer->0@))
        } else {
            SelinuxMode::Unknown
        },
{
    match file {
        Some(content) => {
            let t = text::trim_text(content);
            if text::same_text(t, "1") {
                return SelinuxMode::Enforcing;
            }
            if text::same_text(t, "0") {
                return SelinuxMode::Permissive;
            }
        },
        None => {},
    }
    match answer {
        Some(answer) => mode_of_answer(text::lower_text(answer).as_str()),
        None => SelinuxMode::Unknown,
    }
}

/// The kernel's file decides where it says one or zero, space aside; else the answer of
/// `getenforce` does, by the first of three words that stands in it. Nothing is known
/// without either.
pub proof fn law_mode_is_told_by_file_or_answer(
    file: Option<&str>,
    answer: Option<&str>,
    r: SelinuxMode,
)
    requires
        call_ensures(get_selinux_mode, (file, answer), r),
    ensures
        ({
            let by_file = file is Some && (text::trimmed(file->0@) == "1"@ || text::trimmed(
                file->0@,
            ) == "0"@);
            let lower = text::lowercase(answer->0@);
            &&& file is Some && text::trimmed(file->0@) == "1"@ ==> r == SelinuxMode::Enforcing
            &&& by_file && text::trimmed(file->0@) != "1"@ ==> r == SelinuxMode::Permissive
            &&& !by_file && answer is None ==> r == SelinuxMode::Unknown
            &&& !by_file && answer is Some ==> {
                let e = text::has_part(lower, "enforcing"@);
                let p = text::has_part(lower, "permissive"@);
                let d = text::has_part(lower, "disabled"@);
                &&& r == SelinuxMode::Enforcing <==> e
                &&& r == SelinuxMode::Permissive <==> p && !e
                &&& r == SelinuxMode::Disabled <==> d && !e && !p
                &&& r == SelinuxMode::Unknown <==> !e && !p && !d
            }
        }),
{
}

/// The answer tells the mode whose name it holds, the strictest first.
pub proof fn law_answers_tell_the_strictest_mode(lower: &str, r: SelinuxMode)
    requires
        call_ensures(mode_of_answer, (lower,), r),
    ensures
        r == SelinuxMode::Enforcing <==> text::has_part(lower@, "enforcing"@),
        r == SelinuxMode::Permissive <==> text::has_part(lower@, "permissive"@) && !text::has_part(
            lower@,
            "enforcing"@,
        ),
        r == SelinuxMode::Disabled <==> text::has_part(lower@, "disabled"@) && !text::has_part(
            lower@,
            "enforcing"@,
        ) && !text::has_part(lower@, "permissive"@),
{
}

} // verus!
