//! Annotations that any mapping may carry: comments and lint suppressions.
use vstd::prelude::*;
use crate::text::{concat_three, owned, same_text};
use crate::yaml::model::{YamlEntry, YamlValue};
use crate::yaml::read::{as_mapping, as_sequence, as_text, get, place_of};
use crate::yaml::view::{self, YamlEntryView, YamlValueView};

verus! {

/// The annotations that carry no meaning for a program.
pub const COMMENT_ANNOTATION: &'static str = "=comment";

pub const LINT_ANNOTATION: &'static str = "=lint";

/// The one lint that can be suppressed.
pub const SUPPRESSIBLE_LINT_CODE: &'static str = "W-STYLE-001";

pub open spec fn is_annotation(key: YamlValueView) -> bool {
    match crate::yaml::read::text_of(key) {
        Some(text) => text == COMMENT_ANNOTATION@ || text == LINT_ANNOTATION@,
        None => false,
    }
}

pub open spec fn some_annotation(entries: Seq<YamlEntryView>) -> bool {
    exists|i: int| 0 <= i < entries.len() && is_annotation(#[trigger] entries[i].key)
}

pub open spec fn some_subject(entries: Seq<YamlEntryView>) -> bool {
    exists|i: int| 0 <= i < entries.len() && !is_annotation(#[trigger] entries[i].key)
}

/// Whether a text names a lint that can be suppressed.
pub open spec fn is_suppressible(code: Seq<char>) -> bool {
    code == "all"@ || code == SUPPRESSIBLE_LINT_CODE@
}

/// The first complaint about a list of lint codes.
pub open spec fn codes_error(codes: Seq<YamlValueView>, from: int) -> Option<Seq<char>>
    decreases codes.len() - from,
{
    if from < 0 || from >= codes.len() {
        None
    } else {
        match crate::yaml::read::text_of(codes[from]) {
            None => Some("E-LINT-001: lint codes must be strings"@),
            Some(code) => if !is_suppressible(code) {
                Some("E-LINT-001: unknown or unsuppressible lint code `"@ + code + "`"@)
            } else {
                codes_error(codes, from + 1)
            },
        }
    }
}

/// The complaint about a `=lint` annotation.
pub open spec fn lint_error(value: YamlValueView) -> Option<Seq<char>> {
    match crate::yaml::read::mapping_of(value) {
        None => Some("E-LINT-001: `=lint` must be a mapping"@),
        Some(entries) => match crate::yaml::read::lookup(entries, "disable"@) {
            None => Some("E-LINT-001: `=lint` accepts exactly one `disable` key"@),
            Some(disable) => if entries.len() != 1 {
                Some("E-LINT-001: `=lint` accepts exactly one `disable` key"@)
            } else {
                match crate::yaml::read::sequence_of(disable) {
                    None => Some("E-LINT-001: `=lint.disable` must be an array"@),
                    Some(codes) => if codes.len() == 0 {
                        Some("E-LINT-001: `=lint.disable` must not be empty"@)
                    } else {
                        codes_error(codes, 0)
                    },
                }
            },
        },
    }
}

/// The complaint about the annotations that a mapping itself carries.
pub open spec fn own_error(entries: Seq<YamlEntryView>) -> Option<Seq<char>> {
    if some_annotation(entries) && !some_subject(entries) {
        Some("E-ANNO-003: annotations must share a mapping with the syntax they describe"@)
    } else {
        let comment = crate::yaml::read::lookup(entries, COMMENT_ANNOTATION@);
        if comment is Some && crate::yaml::read::text_of(comment->Some_0) is None {
            Some("E-COMMENT-001: `=comment` must be a string scalar"@)
        } else {
            match crate::yaml::read::lookup(entries, LINT_ANNOTATION@) {
                Some(lint) => lint_error(lint),
                None => None,
            }
        }
    }
}

/// The first complaint about the annotations of a value.
pub open spec fn annotation_error(value: YamlValueView) -> Option<Seq<char>>
    decreases value, 0int,
{
    match value {
        YamlValueView::Mapping(entries) => match own_error(entries) {
            Some(message) => Some(message),
            None => entries_error(entries, 0),
        },
        YamlValueView::Sequence(items) => items_error(items, 0),
        _ => None,
    }
}

pub open spec fn entries_error(entries: Seq<YamlEntryView>, from: int) -> Option<Seq<char>>
    decreases entries, entries.len() - from,
{
    if from < 0 || from >= entries.len() {
        None
    } else if is_annotation(entries[from].key) {
        entries_error(entries, from + 1)
    } else {
        match annotation_error(entries[from].value) {
            Some(message) => Some(message),
            None => entries_error(entries, from + 1),
        }
    }
}

pub open spec fn items_error(items: Seq<YamlValueView>, from: int) -> Option<Seq<char>>
    decreases items, items.len() - from,
{
    if from < 0 || from >= items.len() {
        None
    } else {
        match annotation_error(items[from]) {
            Some(message) => Some(message),
            None => items_error(items, from + 1),
        }
    }
}

/// An entry removed, with the last one put in its place.
pub open spec fn swap_removed(entries: Seq<YamlEntryView>, key: Seq<char>) -> Seq<YamlEntryView> {
    match crate::yaml::read::key_place(entries, 0, key) {
        Some(place) => entries.update(place, entries.last()).drop_last(),
        None => entries,
    }
}

pub open spec fn without_annotations(entries: Seq<YamlEntryView>) -> Seq<YamlEntryView> {
    swap_removed(swap_removed(entries, COMMENT_ANNOTATION@), LINT_ANNOTATION@)
}

/// A value without its annotations.
pub open spec fn stripped(value: YamlValueView) -> YamlValueView
    decreases value, 0int, 0int,
{
    match value {
        YamlValueView::Mapping(entries) => YamlValueView::Mapping(kept_entries(entries, entries.len() as int)),
        YamlValueView::Sequence(items) => YamlValueView::Sequence(
            Seq::new(items.len(), |i: int| if 0 <= i < items.len() {
                    stripped(items[i])
                } else {
                    arbitrary()
            }),
        ),
        _ => value,
    }
}

/// The entries of a mapping with their values stripped, then the annotations
/// removed.
pub open spec fn kept_entries(entries: Seq<YamlEntryView>, count: int) -> Seq<YamlEntryView>
    decreases entries, 1int, count,
{
    without_annotations(stripped_entries(entries))
}

pub open spec fn stripped_entries(entries: Seq<YamlEntryView>) -> Seq<YamlEntryView>
    decreases entries, 0int, 0int,
{
    Seq::new(entries.len(), |i: int| if 0 <= i < entries.len() {
            YamlEntryView { key: entries[i].key, value: stripped(entries[i].value) }
        } else {
            arbitrary()
    })
}

pub open spec fn complaint(result: Result<(), String>) -> Option<Seq<char>> {
    match result {
        Ok(_) => None,
        Err(message) => Some(message@),
    }
}

fn is_ignored_annotation(key: &YamlValue) -> (result: bool)
    ensures
        result == is_annotation(view::yaml_value(*key)),
{
    match as_text(key) {
        Some(text) => same_text(text.as_str(), COMMENT_ANNOTATION) || same_text(text.as_str(), LINT_ANNOTATION),
        None => false,
    }
}

fn has_entry(entries: &Vec<YamlEntry>, annotation: bool) -> (result: bool)
    ensures
        result == exists|i: int|
        0 <= i < entries@.len() && is_annotation(#[trigger] view::yaml_entries(entries@)[i].key) == annotation,
{
    let ghost all = view::yaml_entries(entries@);
    assert(all.len() == entries@.len());
    let mut i: usize = 0;
    while i < entries.len()
        invariant
            i <= entries.len(),
            all == view::yaml_entries(entries@),
            all.len() == entries@.len(),
            forall|j: int| 0 <= j < i ==> is_annotation(#[trigger] all[j].key) != annotation,
        decreases entries.len() - i,
    {
        assert(all[i as int] == view::yaml_entry(entries@[i as int]));
        if is_ignored_annotation(&entries[i].key) == annotation {
            assert(is_annotation(view::yaml_entries(entries@)[i as int].key) == annotation);
            return true;
        }
        i += 1;
    }
    false
}

fn validate_lint(value: &YamlValue) -> (result: Result<(), String>)
    ensures
        complaint(result) == lint_error(view::yaml_value(*value)),
{
    let entries = match as_mapping(value) {
        Some(entries) => entries,
        None => return Err(owned("E-LINT-001: `=lint` must be a mapping")),
    };
    assert(view::yaml_entries(entries@).len() == entries@.len());
    let disable = match get(entries, "disable") {
        Some(disable) => disable,
        None => return Err(owned("E-LINT-001: `=lint` accepts exactly one `disable` key")),
    };
    if entries.len() != 1 {
        return Err(owned("E-LINT-001: `=lint` accepts exactly one `disable` key"));
    }
    let codes = match as_sequence(disable) {
        Some(codes) => codes,
        None => return Err(owned("E-LINT-001: `=lint.disable` must be an array")),
    };
    let ghost all = view::yaml_values(codes@);
    assert(all.len() == codes@.len());
    if codes.len() == 0 {
        return Err(owned("E-LINT-001: `=lint.disable` must not be empty"));
    }
    let mut i: usize = 0;
    while i < codes.len()
        invariant
            i <= codes.len(),
            all == view::yaml_values(codes@),
            codes_error(all, 0) == codes_error(all, i as int),
            lint_error(view::yaml_value(*value)) == codes_error(all, 0),
        decreases codes.len() - i,
    {
        assert(all[i as int] == view::yaml_value(codes@[i as int]));
        match as_text(&codes[i]) {
            None => return Err(owned("E-LINT-001: lint codes must be strings")),
            Some(code) => if !same_text(code.as_str(), "all") && !same_text(code.as_str(), SUPPRESSIBLE_LINT_CODE) {
                return Err(
                    concat_three("E-LINT-001: unknown or unsuppressible lint code `", code.as_str(), "`"),
                );
            },
        }
        i += 1;
    }
    Ok(())
}

fn validate_own(entries: &Vec<YamlEntry>) -> (result: Result<(), String>)
    ensures
        complaint(result) == own_error(view::yaml_entries(entries@)),
{
    assert(view::yaml_entries(entries@).len() == entries@.len());
    if has_entry(entries, true) && !has_entry(entries, false) {
        return Err(owned("E-ANNO-003: annotations must share a mapping with the syntax they describe"));
    }
    match get(entries, COMMENT_ANNOTATION) {
        Some(comment) => if as_text(comment).is_none() {
            return Err(owned("E-COMMENT-001: `=comment` must be a string scalar"));
        },
        None => {}
    }
    match get(entries, LINT_ANNOTATION) {
        Some(lint) => validate_lint(lint),
        None => Ok(()),
    }
}

fn validate_entries(entries: &Vec<YamlEntry>) -> (result: Result<(), String>)
    ensures
        complaint(result) == entries_error(view::yaml_entries(entries@), 0),
    decreases entries,
{
    let ghost all = view::yaml_entries(entries@);
    let mut i: usize = 0;
    while i < entries.len()
        invariant
            i <= entries.len(),
            all == view::yaml_entries(entries@),
            entries_error(all, 0) == entries_error(all, i as int),
        decreases entries.len() - i,
    {
        assert(all[i as int] == view::yaml_entry(entries@[i as int]));
        if !is_ignored_annotation(&entries[i].key) {
            match validate(&entries[i].value) {
                Ok(_) => {}
                Err(error) => return Err(error),
            }
        }
        i += 1;
    }
    Ok(())
}

fn validate_items(items: &Vec<YamlValue>) -> (result: Result<(), String>)
    ensures
        complaint(result) == items_error(view::yaml_values(items@), 0),
    decreases items,
{
    let ghost all = view::yaml_values(items@);
    let mut i: usize = 0;
    while i < items.len()
        invariant
            i <= items.len(),
            all == view::yaml_values(items@),
            items_error(all, 0) == items_error(all, i as int),
        decreases items.len() - i,
    {
        assert(all[i as int] == view::yaml_value(items@[i as int]));
        match validate(&items[i]) {
            Ok(_) => {}
            Err(error) => return Err(error),
        }
        i += 1;
    }
    Ok(())
}

/// Checks the annotations of a value and of everything in it.
pub fn validate(value: &YamlValue) -> (result: Result<(), String>)
    ensures
        complaint(result) == annotation_error(view::yaml_value(*value)),
    decreases value,
{
    match value {
        YamlValue::Mapping(entries) => {
            match validate_own(entries) {
                Ok(_) => {}
                Err(error) => return Err(error),
            }
            validate_entries(entries)
        }
        YamlValue::Sequence(items) => validate_items(items),
        _ => Ok(()),
    }
}

fn swap_remove(entries: &mut Vec<YamlEntry>, key: &str)
    ensures
        view::yaml_entries(final(entries)@) == swap_removed(view::yaml_entries(old(entries)@), key@),
{
    let ghost before = entries@;
    match place_of(entries, key) {
        Some(place) => {
            entries.swap_remove(place);
            proof {
                let expected = swap_removed(view::yaml_entries(before), key@);
                let found = view::yaml_entries(entries@);
                assert(entries@ =~= before.update(place as int, before.last()).drop_last());
                assert forall|i: int| 0 <= i < found.len() implies found[i] == expected[i] by {
                    assert(found[i] == view::yaml_entry(entries@[i]));
                    assert(view::yaml_entries(before)[i] == view::yaml_entry(before[i]));
                    assert(view::yaml_entries(before).last() == view::yaml_entry(before.last()));
                }
                assert(found =~= expected);
            }
        }
        None => {}
    }
}

fn strip_items(items: &Vec<YamlValue>) -> (result: Vec<YamlValue>)
    ensures
        YamlValueView::Sequence(view::yaml_values(result@)) == stripped(
            YamlValueView::Sequence(view::yaml_values(items@)),
        ),
    decreases items,
{
    let ghost all = view::yaml_values(items@);
    let mut done: Vec<YamlValue> = Vec::new();
    let mut i: usize = 0;
    while i < items.len()
        invariant
            i <= items.len(),
            done.len() == i,
            all == view::yaml_values(items@),
            forall|j: int| 0 <= j < i ==> view::yaml_values(done@)[j] == stripped(#[trigger] all[j]),
        decreases items.len() - i,
    {
        assert(all[i as int] == view::yaml_value(items@[i as int]));
        let ghost before = done@;
        let item = strip_copy(&items[i]);
        done.push(item);
        proof {
            view::lemma_yaml_values_push(before, done@.last());
        }
        i += 1;
    }
    proof {
        let expected = stripped(YamlValueView::Sequence(all));
        assert(expected is Sequence);
        assert(view::yaml_values(done@) =~= expected->Sequence_0);
    }
    done
}

fn strip_entries(entries: &Vec<YamlEntry>) -> (result: Vec<YamlEntry>)
    ensures
        view::yaml_entries(result@) == stripped_entries(view::yaml_entries(entries@)),
    decreases entries,
{
    let ghost all = view::yaml_entries(entries@);
    let mut done: Vec<YamlEntry> = Vec::new();
    let mut i: usize = 0;
    while i < entries.len()
        invariant
            i <= entries.len(),
            done.len() == i,
            all == view::yaml_entries(entries@),
            forall|j: int|
            0 <= j < i ==> view::yaml_entries(done@)[j] == (YamlEntryView {
                    key: (#[trigger] all[j]).key,
                    value: stripped(all[j].value),
            }),
        decreases entries.len() - i,
    {
        assert(all[i as int] == view::yaml_entry(entries@[i as int]));
        let ghost before = done@;
        let value = strip_copy(&entries[i].value);
        done.push(YamlEntry { key: crate::yaml::copy::yaml_value(&entries[i].key), value });
        proof {
            view::lemma_yaml_entries_push(before, done@.last());
        }
        i += 1;
    }
    assert(view::yaml_entries(done@) =~= stripped_entries(all));
    done
}

fn strip_copy(value: &YamlValue) -> (result: YamlValue)
    ensures
        view::yaml_value(result) == stripped(view::yaml_value(*value)),
    decreases value,
{
    match value {
        YamlValue::Mapping(entries) => {
            let mut kept = strip_entries(entries);
            swap_remove(&mut kept, COMMENT_ANNOTATION);
            swap_remove(&mut kept, LINT_ANNOTATION);
            proof {
                let all = view::yaml_entries(entries@);
                assert(kept_entries(all, all.len() as int) == without_annotations(stripped_entries(all)));
            }
            YamlValue::Mapping(kept)
        }
        YamlValue::Sequence(items) => YamlValue::Sequence(strip_items(items)),
        _ => crate::yaml::copy::yaml_value(value),
    }
}

/// Removes the annotations of a value and of everything in it.
pub fn strip(value: &mut YamlValue)
    ensures
        view::yaml_value(*final(value)) == stripped(view::yaml_value(*old(value))),
{
    let result = strip_copy(value);
    *value = result;
}

/// The texts of a list of codes.
pub open spec fn code_texts(codes: Seq<YamlValueView>, from: int, done: Seq<Seq<char>>) -> Seq<Seq<char>>
    decreases codes.len() - from,
{
    if from < 0 || from >= codes.len() {
        done
    } else {
        match crate::yaml::read::text_of(codes[from]) {
            Some(code) => code_texts(codes, from + 1, done.push(code)),
            None => code_texts(codes, from + 1, done),
        }
    }
}

/// The lint codes that a `=lint` annotation suppresses.
pub open spec fn suppressed(value: YamlValueView) -> Result<Seq<Seq<char>>, Seq<char>> {
    match lint_error(value) {
        Some(message) => Err(message),
        None => match crate::yaml::read::mapping_of(value) {
            Some(entries) => match crate::yaml::read::lookup(entries, "disable"@) {
                Some(disable) => match crate::yaml::read::sequence_of(disable) {
                    Some(codes) => Ok(code_texts(codes, 0, Seq::empty())),
                    None => Ok(Seq::empty()),
                },
                None => Ok(Seq::empty()),
            },
            None => Ok(Seq::empty()),
        },
    }
}

/// The codes that a `=lint` annotation suppresses.
pub fn lint_codes(value: &YamlValue) -> (result: Result<Vec<String>, String>)
    ensures
        suppressed(view::yaml_value(*value)) == (match result {
                Ok(codes) => Ok(crate::lowered::view::texts(codes@)),
                Err(message) => Err(message@),
        }),
{
    let mut done: Vec<String> = Vec::new();
    assert(crate::lowered::view::texts(done@) =~= Seq::<Seq<char>>::empty());
    match validate_lint(value) {
        Ok(_) => {}
        Err(error) => return Err(error),
    }
    let entries = match as_mapping(value) {
        Some(entries) => entries,
        None => return Ok(done),
    };
    let disable = match get(entries, "disable") {
        Some(disable) => disable,
        None => return Ok(done),
    };
    let codes = match as_sequence(disable) {
        Some(codes) => codes,
        None => return Ok(done),
    };
    let ghost all = view::yaml_values(codes@);
    let mut i: usize = 0;
    while i < codes.len()
        invariant
            i <= codes.len(),
            all == view::yaml_values(codes@),
            code_texts(all, 0, Seq::empty()) == code_texts(all, i as int, crate::lowered::view::texts(done@)),
            suppressed(view::yaml_value(*value)) == Ok::<Seq<Seq<char>>, Seq<char>>(code_texts(all, 0, Seq::empty())),
        decreases codes.len() - i,
    {
        assert(all[i as int] == view::yaml_value(codes@[i as int]));
        match as_text(&codes[i]) {
            Some(code) => {
                let ghost before = done@;
                done.push(code.clone());
                proof {
                    crate::lowered::view::lemma_texts_push(before, done@.last());
                }
            }
            None => {}
        }
        i += 1;
    }
    Ok(done)
}

// Laws.

/// Whether no key of a mapping occurs twice.
pub open spec fn keys_differ(entries: Seq<YamlEntryView>) -> bool {
    forall|i: int, j: int| 0 <= i < j < entries.len() ==> (#[trigger] entries[i]).key != (#[trigger] entries[j]).key
}

proof fn lemma_swap_removed(entries: Seq<YamlEntryView>, key: Seq<char>)
    requires
        keys_differ(entries),
    ensures
        keys_differ(swap_removed(entries, key)),
        forall|i: int|
        0 <= i < swap_removed(entries, key).len() ==> (#[trigger] swap_removed(entries, key)[i]).key
        != YamlValueView::Text(key) && entries.contains(swap_removed(entries, key)[i]),
{
    crate::yaml::read::lemma_key_place(entries, 0, key);
    match crate::yaml::read::key_place(entries, 0, key) {
        Some(place) => {
            let kept = swap_removed(entries, key);
            assert forall|i: int| 0 <= i < kept.len() implies (#[trigger] kept[i]).key != YamlValueView::Text(key)
            && entries.contains(kept[i]) by {
                if i == place {
                    assert(kept[i] == entries[entries.len() - 1]);
                    assert(entries[place].key != entries[entries.len() - 1].key);
                } else {
                    assert(kept[i] == entries[i]);
                    assert(entries[i].key != entries[place].key);
                }
            }
        }
        None => {
            lemma_absent(entries, 0, key);
        }
    }
}

proof fn lemma_absent(entries: Seq<YamlEntryView>, from: int, key: Seq<char>)
    requires
        0 <= from,
        crate::yaml::read::key_place(entries, from, key) is None,
    ensures
        forall|i: int| from <= i < entries.len() ==> (#[trigger] entries[i]).key != YamlValueView::Text(key),
    decreases entries.len() - from,
{
    if from < entries.len() {
        lemma_absent(entries, from + 1, key);
    }
}

/// Stripping a mapping leaves none of its annotations and adds no entry.
pub proof fn law_stripping_leaves_no_annotation(entries: Seq<YamlEntryView>)
    requires
        keys_differ(entries),
    ensures
        forall|i: int|
        0 <= i < without_annotations(entries).len() ==> ({
                let entry = #[trigger] without_annotations(entries)[i];
                &&& entry.key != YamlValueView::Text(COMMENT_ANNOTATION@)
                &&& entry.key != YamlValueView::Text(LINT_ANNOTATION@)
                &&& entries.contains(entry)
        }),
{
    let once = swap_removed(entries, COMMENT_ANNOTATION@);
    lemma_swap_removed(entries, COMMENT_ANNOTATION@);
    lemma_swap_removed(once, LINT_ANNOTATION@);
    assert forall|i: int| 0 <= i < without_annotations(entries).len() implies ({
            let entry = #[trigger] without_annotations(entries)[i];
            &&& entry.key != YamlValueView::Text(COMMENT_ANNOTATION@)
            &&& entry.key != YamlValueView::Text(LINT_ANNOTATION@)
            &&& entries.contains(entry)
    }) by {
        let entry = without_annotations(entries)[i];
        let j = choose|j: int| 0 <= j < once.len() && once[j] == entry;
        assert(once[j] == entry);
    }
}

} // verus!
