//! Properties of the Android system.
use vstd::prelude::*;

use crate::numerals;
use crate::text;

verus! {

/// The level of the interface that is assumed where the system does not tell it.
pub const FALLBACK_API_LEVEL: u32 = 28;

/// What the system tells of itself.
#[derive(Debug, Clone)]
pub struct AndroidSystemInfo {
    pub api_level: u32,
    pub release_version: String,
    pub manufacturer: String,
    pub brand: String,
    pub model: String,
    pub is_encrypted: bool,
}

/// Where a property may be found: with the system itself, in files of properties, and
/// in the answer of `getprop`.
#[derive(Debug, Clone)]
pub struct PropertySources {
    pub native: Option<String>,
    pub files: Vec<String>,
    pub answer: Option<String>,
}

/// The value that a line `key=value` of a file of properties gives to a key. Empty
/// lines and lines that begin with `#` give none.
pub open spec fn value_in_line(line: Seq<char>, key: Seq<char>) -> Option<Seq<char>> {
    let t = text::trimmed(line);
    if t.len() == 0 || t[0] == '#' {
        None
    } else {
        match text::cut(t, '=') {
            Some((k, v)) => if text::trimmed(k) == key {
                Some(text::trimmed(v))
            } else {
                None
            },
            None => None,
        }
    }
}

/// The value in the first line that gives one.
pub open spec fn value_in_lines(lines: Seq<Seq<char>>, key: Seq<char>) -> Option<Seq<char>>
    decreases lines.len(),
{
    if lines.len() == 0 {
        None
    } else if value_in_line(lines[0], key) is Some {
        value_in_line(lines[0], key)
    } else {
        value_in_lines(lines.drop_first(), key)
    }
}

/// The value in the first file that gives one.
pub open spec fn value_in_files(files: Seq<Seq<char>>, key: Seq<char>) -> Option<Seq<char>>
    decreases files.len(),
{
    if files.len() == 0 {
        None
    } else if value_in_lines(text::lines_of(files[0]), key) is Some {
        value_in_lines(text::lines_of(files[0]), key)
    } else {
        value_in_files(files.drop_first(), key)
    }
}

impl PropertySources {
    /// The value of a property, by the first source that gives one. An empty answer
    /// of `getprop` is none.
    pub open spec fn value(self, key: Seq<char>) -> Option<Seq<char>> {
        if self.native is Some {
            Some(text::trimmed(self.native->0@))
        } else if value_in_files(text::texts(self.files@), key) is Some {
            value_in_files(text::texts(self.files@), key)
        } else if self.answer is Some && text::trimmed(self.answer->0@).len() > 0 {
            Some(text::trimmed(self.answer->0@))
        } else {
            None
        }
    }
}

fn find_in_line(line: &str, key: &str) -> (r: Option<String>)
    ensures
        r is Some <==> value_in_line(line@, key@) is Some,
        r is Some ==> r->0@ == value_in_line(line@, key@)->0,
{
    let t = text::trim_text(line);
    if t.is_empty() || t.get_char(0) == '#' {
        return None;
    }
    match text::cut_text(t, '=') {
        Some((k, v)) => {
            if text::same_text(text::trim_text(k), key) {
                Some(text::trim_text(v).to_owned())
            } else {
                None
            }
        },
        None => None,
    }
}

fn find_in_file(content: &str, key: &str) -> (r: Option<String>)
    ensures
        r is Some <==> value_in_lines(text::lines_of(content@), key@) is Some,
        r is Some ==> r->0@ == value_in_lines(text::lines_of(content@), key@)->0,
{
    let lines = text::lines_text(content);
    let ghost all = text::texts(lines@);
    let mut i: usize = 0;
    assert(all.skip(0) =~= all);
    while i < lines.len()
        invariant
            i <= lines.len(),
            all == text::texts(lines@),
            all == text::lines_of(content@),
            value_in_lines(all, key@) == value_in_lines(all.skip(i as int), key@),
        decreases lines.len() - i,
    {
        assert(all.skip(i as int).drop_first() =~= all.skip(i + 1));
        assert(all.skip(i as int)[0] == lines@[i as int]@);
        let found = find_in_line(lines[i].as_str(), key);
        if found.is_some() {
            return found;
        }
        i = i + 1;
    }
    None
}

/// The value of a property, by the first source that gives one.
pub fn get_property(key: &str, sources: &PropertySources) -> (r: Option<String>)
    ensures
        r is Some <==> sources.value(key@) is Some,
        r is Some ==> r->0@ == sources.value(key@)->0,
{
    match &sources.native {
        Some(value) => {
            return Some(text::trim_text(value.as_str()).to_owned());
        },
        None => {},
    }
    let ghost all = text::texts(sources.files@);
    let mut i: usize = 0;
    assert(all.skip(0) =~= all);
    while i < sources.files.len()
        invariant
            i <= sources.files.len(),
            sources.native is None,
            all == text::texts(sources.files@),
            value_in_files(all, key@) == value_in_files(all.skip(i as int), key@),
        decreases sources.files.len() - i,
    {
        assert(all.skip(i as int).drop_first() =~= all.skip(i + 1));
        assert(all.skip(i as int)[0] == sources.files@[i as int]@);
        let found = find_in_file(sources.files[i].as_str(), key);
        if found.is_some() {
            return found;
        }
        i = i + 1;
    }
    match &sources.answer {
        Some(answer) => {
            let t = text::trim_text(answer.as_str());
            if t.is_empty() {
                None
            } else {
                Some(t.to_owned())
            }
        },
        None => None,
    }
}

/// The properties that tell of the system, where they have a value.
#[derive(Debug, Clone)]
pub struct SystemProperties {
    pub sdk: Option<String>,
    pub release: Option<String>,
    pub manufacturer: Option<String>,
    pub brand: Option<String>,
    pub model: Option<String>,
    pub crypto_state: Option<String>,
}

/// The value, or what stands for it where there is none.
pub open spec fn value_or(value: Option<String>, otherwise: Seq<char>) -> Seq<char> {
    match value {
        Some(v) => v@,
        None => otherwise,
    }
}

fn value_or_else(value: &Option<String>, otherwise: &str) -> (r: String)
    ensures
        r@ == value_or(*value, otherwise@),
{
    match value {
        Some(v) => v.clone(),
        None => otherwise.to_owned(),
    }
}

impl AndroidSystemInfo {
    /// The level of the interface that a property tells.
    pub open spec fn level(sdk: Option<String>) -> int {
        match sdk {
            Some(v) => match numerals::read_unsigned(v@, u32::MAX as int) {
                Some(n) => n,
                None => FALLBACK_API_LEVEL as int,
            },
            None => FALLBACK_API_LEVEL as int,
        }
    }

    /// What the properties tell of the system.
    pub fn detect(properties: &SystemProperties) -> (r: Self)
        ensures
            r.api_level == AndroidSystemInfo::level(properties.sdk),
            r.release_version@ == value_or(properties.release, "9.0"@),
            r.manufacturer@ == text::lowercase(value_or(properties.manufacturer, "unknown"@)),
            r.brand@ == text::lowercase(value_or(properties.brand, "unknown"@)),
            r.model@ == value_or(properties.model, "Generic Android"@),
            r.is_encrypted == (value_or(properties.crypto_state, "unencrypted"@) == "encrypted"@),
    {
        let api_level: u32 = match &properties.sdk {
            Some(v) => match numerals::parse_unsigned(v.as_str(), u32::MAX as u64) {
                Some(n) => n as u32,
                None => FALLBACK_API_LEVEL,
            },
            None => FALLBACK_API_LEVEL,
        };
        let manufacturer = value_or_else(&properties.manufacturer, "unknown");
        let brand = value_or_else(&properties.brand, "unknown");
        let crypto_state = value_or_else(&properties.crypto_state, "unencrypted");
        AndroidSystemInfo {
            api_level,
            release_version: value_or_else(&properties.release, "9.0"),
            manufacturer: text::lower_text(manufacturer.as_str()),
            brand: text::lower_text(brand.as_str()),
            model: value_or_else(&properties.model, "Generic Android"),
            is_encrypted: text::same_text(crypto_state.as_str(), "encrypted"),
        }
    }
}

/// Of two lines that give a value to one key, the first counts.
pub proof fn law_first_line_counts(
    lines: Seq<Seq<char>>,
    more: Seq<Seq<char>>,
    key: Seq<char>,
)
    requires
        value_in_lines(lines, key) is Some,
    ensures
        value_in_lines(lines + more, key) == value_in_lines(lines, key),
    decreases lines.len(),
{
    assert((lines + more)[0] == lines[0]);
    if value_in_line(lines[0], key) is None {
        law_first_line_counts(lines.drop_first(), more, key);
        assert((lines + more).drop_first() =~= lines.drop_first() + more);
    }
}

/// The line gives this value to the key: it is no comment, and reads `key=value` with
/// space around either aside.
pub open spec fn gives(line: Seq<char>, key: Seq<char>, value: Seq<char>) -> bool {
    let t = text::trimmed(line);
    &&& t.len() > 0 && t[0] != '#'
    &&& exists|before: Seq<char>, after: Seq<char>|
        #![trigger before.push('=') + after]
        t == before.push('=') + after && !before.contains('=') && text::trimmed(before) == key
            && text::trimmed(after) == value
}

proof fn lemma_gives(line: Seq<char>, key: Seq<char>, value: Seq<char>)
    ensures
        gives(line, key, value) <==> value_in_line(line, key) == Some(value),
{
    let t = text::trimmed(line);
    if gives(line, key, value) {
        let (before, after) = choose|before: Seq<char>, after: Seq<char>|
            #![trigger before.push('=') + after]
            t == before.push('=') + after && !before.contains('=') && text::trimmed(before) == key
                && text::trimmed(after) == value;
        text::lemma_cut_after(before, '=', after);
    }
    if value_in_line(line, key) == Some(value) {
        text::lemma_cut_parts(t, '=');
        let (before, after) = text::cut(t, '=')->0;
        assert(t == before.push('=') + after);
    }
}

proof fn lemma_lines_give(lines: Seq<Seq<char>>, key: Seq<char>)
    ensures
        value_in_lines(lines, key) is None <==> forall|i: int, v: Seq<char>|
            #![trigger gives(lines[i], key, v)]
            0 <= i < lines.len() ==> !gives(lines[i], key, v),
        value_in_lines(lines, key) matches Some(v) ==> exists|i: int|
            0 <= i < lines.len() && #[trigger] gives(lines[i], key, v),
    decreases lines.len(),
{
    if lines.len() > 0 {
        let rest = lines.drop_first();
        lemma_lines_give(rest, key);
        let first = value_in_line(lines[0], key);
        if first is Some {
            lemma_gives(lines[0], key, first->0);
            assert(gives(lines[0], key, first->0));
        } else {
            assert forall|v: Seq<char>| !#[trigger] gives(lines[0], key, v) by {
                lemma_gives(lines[0], key, v);
            }
            if value_in_lines(rest, key) is Some {
                let v = value_in_lines(rest, key)->0;
                let i = choose|i: int| 0 <= i < rest.len() && #[trigger] gives(rest[i], key, v);
                assert(gives(lines[i + 1], key, v));
            } else {
                assert forall|i: int, v: Seq<char>|
                    #![trigger gives(lines[i], key, v)]
                    0 <= i < lines.len() implies !gives(lines[i], key, v) by {
                    if i > 0 {
                        assert(!gives(rest[i - 1], key, v));
                    }
                }
            }
        }
    }
}

proof fn lemma_files_give(files: Seq<Seq<char>>, key: Seq<char>)
    ensures
        value_in_files(files, key) is None <==> forall|f: int|
            0 <= f < files.len() ==> value_in_lines(text::lines_of(#[trigger] files[f]), key) is None,
        value_in_files(files, key) matches Some(v) ==> exists|f: int|
            0 <= f < files.len() && value_in_lines(text::lines_of(#[trigger] files[f]), key)
                == Some(v),
    decreases files.len(),
{
    if files.len() > 0 {
        let rest = files.drop_first();
        lemma_files_give(rest, key);
        if value_in_lines(text::lines_of(files[0]), key) is None {
            if value_in_files(rest, key) is Some {
                let v = value_in_files(rest, key)->0;
                let f = choose|f: int|
                    0 <= f < rest.len() && value_in_lines(text::lines_of(#[trigger] rest[f]), key)
                        == Some(v);
                assert(files[f + 1] == rest[f]);
            } else {
                assert forall|f: int| 0 <= f < files.len() implies value_in_lines(
                    text::lines_of(#[trigger] files[f]),
                    key,
                ) is None by {
                    if f > 0 {
                        assert(files[f] == rest[f - 1]);
                    }
                }
            }
        }
    }
}

/// One of the files has a line that gives this value to the key.
pub open spec fn is_filed(files: Seq<Seq<char>>, key: Seq<char>, value: Seq<char>) -> bool {
    exists|f: int, i: int|
        #![trigger text::lines_of(files[f])[i]]
        0 <= f < files.len() && 0 <= i < text::lines_of(files[f]).len() && gives(
            text::lines_of(files[f])[i],
            key,
            value,
        )
}

/// A property is told by the system itself, or else by a line of a file, or else by a
/// answer of `getprop` that is not blank; where none of them tells it, it has no value.
pub proof fn law_properties_are_told_by_their_sources(
    key: &str,
    sources: &PropertySources,
    r: Option<String>,
)
    requires
        call_ensures(get_property, (key, sources), r),
    ensures
        ({
            let files = text::texts(sources.files@);
            let answered = sources.answer is Some && text::trimmed(sources.answer->0@).len() > 0;
            let filed = exists|v: Seq<char>| #[trigger] is_filed(files, key@, v);
            &&& sources.native is Some ==> (r matches Some(v) && v@ == text::trimmed(
                sources.native->0@,
            ))
            &&& sources.native is None && filed ==> (r matches Some(v) && is_filed(
                files,
                key@,
                v@,
            ))
            &&& sources.native is None && !filed && answered ==> (r matches Some(v) && v@
                == text::trimmed(sources.answer->0@))
            &&& sources.native is None && !filed && !answered ==> r is None
        }),
{
    let files = text::texts(sources.files@);
    lemma_files_give(files, key@);
    if value_in_files(files, key@) is Some {
        let v = value_in_files(files, key@)->0;
        let f = choose|f: int|
            0 <= f < files.len() && value_in_lines(text::lines_of(#[trigger] files[f]), key@)
                == Some(v);
        lemma_lines_give(text::lines_of(files[f]), key@);
        let i = choose|i: int|
            0 <= i < text::lines_of(files[f]).len() && #[trigger] gives(
                text::lines_of(files[f])[i],
                key@,
                v,
            );
        assert(is_filed(files, key@, v));
    } else {
        assert forall|v: Seq<char>| !#[trigger] is_filed(files, key@, v) by {
            if is_filed(files, key@, v) {
                let (f, i) = choose|f: int, i: int|
                    #![trigger text::lines_of(files[f])[i]]
                    0 <= f < files.len() && 0 <= i < text::lines_of(files[f]).len() && gives(
                        text::lines_of(files[f])[i],
                        key@,
                        v,
                    );
                lemma_lines_give(text::lines_of(files[f]), key@);
                assert(value_in_lines(text::lines_of(files[f]), key@) is None);
                assert(gives(text::lines_of(files[f])[i], key@, v));
            }
        }
    }
}

/// What the properties tell of the system: the level where it is a number, and the texts
/// as they are but for the case of maker and brand; each has a default. The device is
/// encrypted where its state says so in that very word.
pub proof fn law_system_is_what_the_properties_tell(
    properties: &SystemProperties,
    r: AndroidSystemInfo,
)
    requires
        call_ensures(AndroidSystemInfo::detect, (properties,), r),
    ensures
        ({
            let read = numerals::read_unsigned(properties.sdk->0@, u32::MAX as int);
            r.api_level == if properties.sdk is Some && read is Some {
                read->0
            } else {
                28
            }
        }),
        properties.release is Some ==> r.release_version@ == properties.release->0@,
        properties.release is None ==> r.release_version@ == "9.0"@,
        properties.manufacturer is Some ==> r.manufacturer@ == text::lowercase(
            properties.manufacturer->0@,
        ),
        properties.brand is Some ==> r.brand@ == text::lowercase(properties.brand->0@),
        properties.model is Some ==> r.model@ == properties.model->0@,
        properties.model is None ==> r.model@ == "Generic Android"@,
        properties.crypto_state is Some ==> (r.is_encrypted <==> properties.crypto_state->0@
            == "encrypted"@),
{
}

/// A property that is missing counts as unknown, and a device that tells nothing of its
/// encryption as not encrypted.
pub proof fn law_missing_properties_are_unknown(p: &SystemProperties, r: AndroidSystemInfo)
    requires
        call_ensures(AndroidSystemInfo::detect, (p,), r),
    ensures
        p.manufacturer is None ==> r.manufacturer@ == text::lowercase("unknown"@),
        p.brand is None ==> r.brand@ == text::lowercase("unknown"@),
        p.model is None ==> r.model@ == "Generic Android"@,
        p.release is None ==> r.release_version@ == "9.0"@,
        p.crypto_state is None ==> !r.is_encrypted,
        p.crypto_state is Some ==> (r.is_encrypted <==> p.crypto_state->0@ == "encrypted"@),
{
    reveal_strlit("unencrypted");
    reveal_strlit("encrypted");
    assert("unencrypted"@.len() == 11 && "encrypted"@.len() == 9);
}

} // verus!
