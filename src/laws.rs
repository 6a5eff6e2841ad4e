use crate::chain::next_index_spec;
use crate::config::{
    config_entries, config_malformed_lines, entries_of, is_blank_or_comment, is_malformed,
    line_entry, malformed_lines, EntryView,
};
use crate::mode::{mode_of_link, path_extension};
use crate::page::{html_name, pages_of};
use crate::text::{split_lines, trim};
use vstd::arithmetic::div_mod::{lemma_mod_self_0, lemma_small_mod};
use vstd::prelude::*;

verus! {

/// A config text with `n` entries gives exactly `n` pages, named `0.html`
/// up to `{n - 1}.html`, one for each entry in order.
pub proof fn law_one_page_per_entry(text: Seq<char>)
    ensures
        pages_of(config_entries(text)).len() == config_entries(text).len(),
        forall|i: int|
            0 <= i < config_entries(text).len() ==> (#[trigger] pages_of(config_entries(text))[i]).file_name
                == html_name(i as nat) && pages_of(config_entries(text))[i].current_content
                == config_entries(text)[i].link,
{
}

/// Each page links on to the page of the entry that follows, and the last one
/// back to the first; a single entry links to itself.
pub proof fn law_circular_chaining(entries: Seq<EntryView>, i: int)
    requires
        0 <= i < entries.len(),
    ensures
        pages_of(entries)[i].next_url == html_name(((i + 1) % (entries.len() as int)) as nat),
        pages_of(entries)[i].next_file == entries[(i + 1) % (entries.len() as int)].link,
        i + 1 < entries.len() ==> pages_of(entries)[i].next_url == html_name((i + 1) as nat),
        i + 1 == entries.len() ==> pages_of(entries)[i].next_url == html_name(0),
        entries.len() == 1 ==> pages_of(entries)[i].next_url == pages_of(entries)[i].file_name,
{
    let n = entries.len() as int;
    if i + 1 < n {
        lemma_small_mod((i + 1) as nat, n as nat);
    } else {
        lemma_mod_self_0(n);
    }
    assert(next_index_spec(i, n) == (i + 1) % n);
}

/// The mode of an entry depends on its link alone: the same link gets the same
/// mode at any position of any playlist.
pub proof fn law_mode_depends_on_link_alone(
    a: Seq<EntryView>,
    i: int,
    b: Seq<EntryView>,
    j: int,
)
    requires
        0 <= i < a.len(),
        0 <= j < b.len(),
        a[i].link == b[j].link,
    ensures
        pages_of(a)[i].mode == pages_of(b)[j].mode,
{
}

/// Links with the same extension get the same mode, whatever their scheme,
/// host or directory.
pub proof fn law_mode_depends_on_extension_alone(a: Seq<char>, b: Seq<char>)
    requires
        path_extension(a) == path_extension(b),
    ensures
        mode_of_link(a) == mode_of_link(b),
{
}

/// Generating twice from the same config text hands the same pages to the
/// templates: the same file names, modes and variables.
pub proof fn law_generation_repeats(first: Seq<char>, second: Seq<char>)
    requires
        first == second,
    ensures
        config_entries(first) == config_entries(second),
        pages_of(config_entries(first)) == pages_of(config_entries(second)),
{
}

proof fn lemma_only_skipped_lines(lines: Seq<Seq<char>>)
    requires
        forall|k: int| 0 <= k < lines.len() ==> is_blank_or_comment(trim(#[trigger] lines[k])),
    ensures
        entries_of(lines).len() == 0,
        malformed_lines(lines).len() == 0,
    decreases lines.len(),
{
    if lines.len() > 0 {
        let prev = lines.drop_last();
        assert forall|k: int| 0 <= k < prev.len() implies is_blank_or_comment(
            trim(#[trigger] prev[k]),
        ) by {
            assert(prev[k] == lines[k]);
        }
        lemma_only_skipped_lines(prev);
        assert(is_blank_or_comment(trim(lines[lines.len() - 1])));
        assert(line_entry(lines.last()) is None);
    }
}

/// A config text of blank lines and comments only has no entries, no
/// malformed lines, and so gives no pages.
pub proof fn law_comments_only(text: Seq<char>)
    requires
        forall|k: int|
            0 <= k < split_lines(text).len() ==> is_blank_or_comment(
                trim(#[trigger] split_lines(text)[k]),
            ),
    ensures
        config_entries(text).len() == 0,
        config_malformed_lines(text).len() == 0,
        pages_of(config_entries(text)).len() == 0,
{
    lemma_only_skipped_lines(split_lines(text));
}

proof fn lemma_remove_malformed(lines: Seq<Seq<char>>, k: int)
    requires
        0 <= k < lines.len(),
        is_malformed(lines[k]),
    ensures
        entries_of(lines) == entries_of(lines.remove(k)),
        malformed_lines(lines).contains(k + 1),
    decreases lines.len(),
{
    let prev = lines.drop_last();
    if k == lines.len() - 1 {
        assert(lines.remove(k) =~= prev);
        assert(line_entry(lines.last()) is None);
        assert(malformed_lines(lines).last() == k + 1);
    } else {
        lemma_remove_malformed(prev, k);
        assert(lines.remove(k).drop_last() =~= prev.remove(k));
        assert(lines.remove(k).last() == lines.last());
        let j = choose|j: int| 0 <= j < malformed_lines(prev).len() && malformed_lines(prev)[j] == k + 1;
        assert(malformed_lines(lines)[j] == k + 1);
    }
}

/// A malformed line adds no entry: the entries are those of the text without
/// that line. Its number is among those reported.
pub proof fn law_malformed_line_is_skipped(text: Seq<char>, k: int)
    requires
        0 <= k < split_lines(text).len(),
        is_malformed(split_lines(text)[k]),
    ensures
        config_entries(text) == entries_of(split_lines(text).remove(k)),
        config_malformed_lines(text).contains(k + 1),
{
    lemma_remove_malformed(split_lines(text), k);
}

} // verus!
