use crate::text::{chars_of, split_lines, string_of, trim, trim_bounds};
use vstd::prelude::*;

verus! {

/// One slide: how long it stays up, and what it shows.
///
/// The display time is kept as the decimal numeral it was written as, in seconds.
pub struct Content {
    display_time: String,
    link: String,
}

/// What a `Content` holds: the numeral of its display time and its link.
pub struct EntryView {
    pub display_time: Seq<char>,
    pub link: Seq<char>,
}

impl View for Content {
    type V = EntryView;

    closed spec fn view(&self) -> EntryView {
        EntryView { display_time: self.display_time@, link: self.link@ }
    }
}

pub open spec fn is_digit(c: char) -> bool {
    '0' <= c && c <= '9'
}

/// A positive display time: digits with at most one decimal point, ending in
/// a digit, and with some digit other than zero (`5`, `5.5`, `.5`; not `0.0`).
pub open spec fn is_duration(s: Seq<char>) -> bool {
    &&& s.len() > 0
    &&& is_digit(s.last())
    &&& exists|i: int| 0 <= i < s.len() && is_digit(#[trigger] s[i]) && s[i] != '0'
    &&& forall|i: int| 0 <= i < s.len() ==> is_digit(#[trigger] s[i]) || s[i] == '.'
    &&& forall|i: int, j: int|
        0 <= i < s.len() && 0 <= j < s.len() && #[trigger] s[i] == '.' && #[trigger] s[j] == '.'
            ==> i == j
}

impl EntryView {
    /// A well-formed entry: a display time numeral and a non-empty link.
    pub open spec fn wf(self) -> bool {
        is_duration(self.display_time) && self.link.len() > 0
    }
}

impl Content {
    pub open spec fn wf(&self) -> bool {
        self@.wf()
    }

    /// The display time in seconds, as the decimal numeral of the config line.
    pub fn display_time(&self) -> (r: &String)
        ensures
            r@ == self@.display_time,
    {
        &self.display_time
    }

    /// The link: a URI or a path on the local file system.
    pub fn link(&self) -> (r: &String)
        ensures
            r@ == self@.link,
    {
        &self.link
    }
}

/// An entry line split at `sp`: a display time, one space, and a non-empty link.
pub open spec fn splits_at(line: Seq<char>, sp: int) -> bool {
    &&& 0 <= sp
    &&& sp + 1 < line.len()
    &&& line[sp] == ' '
    &&& is_duration(line.take(sp))
}

/// A trimmed line that carries no entry: empty, or a comment starting with `#`.
pub open spec fn is_blank_or_comment(line: Seq<char>) -> bool {
    line.len() == 0 || line[0] == '#'
}

/// The (display time, link) pair that a raw config line holds, if it holds one.
pub open spec fn line_entry(raw: Seq<char>) -> Option<(Seq<char>, Seq<char>)> {
    let t = trim(raw);
    if !is_blank_or_comment(t) && exists|sp: int| splits_at(t, sp) {
        let sp = choose|sp: int| splits_at(t, sp);
        Some((t.take(sp), t.skip(sp + 1)))
    } else {
        None
    }
}

/// A raw config line that is neither blank, nor a comment, nor an entry.
pub open spec fn is_malformed(raw: Seq<char>) -> bool {
    let t = trim(raw);
    !is_blank_or_comment(t) && !exists|sp: int| splits_at(t, sp)
}

/// A display time never holds a space, so an entry line splits at its first space.
proof fn lemma_split_unique(t: Seq<char>, sp: int, other: int)
    requires
        0 <= sp < t.len(),
        t[sp] == ' ',
        forall|k: int| 0 <= k < sp ==> t[k] != ' ',
        splits_at(t, other),
    ensures
        other == sp,
{
    let d = t.take(other);
    if sp < other {
        assert(d[sp] == ' ');
        assert(is_digit(d[sp]) || d[sp] == '.');
    }
}

fn is_digit_char(c: char) -> (r: bool)
    ensures
        r == is_digit(c),
{
    '0' <= c && c <= '9'
}

/// Whether `v[a..b]` is a display time numeral.
fn check_duration(v: &Vec<char>, a: usize, b: usize) -> (r: bool)
    requires
        a <= b <= v@.len(),
    ensures
        r == is_duration(v@.subrange(a as int, b as int)),
{
    let ghost s = v@.subrange(a as int, b as int);
    if a == b {
        return false;
    }
    if !is_digit_char(v[b - 1]) {
        assert(s.last() == v@[b - 1]);
        return false;
    }
    assert(s.last() == v@[b - 1]);
    let mut i: usize = a;
    let mut seen_dot = false;
    let mut seen_nonzero = false;
    while i < b
        invariant
            a <= i <= b <= v@.len(),
            s == v@.subrange(a as int, b as int),
            seen_nonzero <==> exists|k: int|
                0 <= k < i - a && is_digit(#[trigger] s[k]) && s[k] != '0',
            forall|k: int| 0 <= k < i - a ==> is_digit(#[trigger] s[k]) || s[k] == '.',
            seen_dot <==> exists|k: int| 0 <= k < i - a && #[trigger] s[k] == '.',
            forall|k: int, m: int|
                0 <= k < i - a && 0 <= m < i - a && #[trigger] s[k] == '.' && #[trigger] s[m]
                    == '.' ==> k == m,
        decreases b - i,
    {
        let c = v[i];
        assert(s[i - a] == c);
        if c == '.' {
            if seen_dot {
                let ghost k = choose|k: int| 0 <= k < i - a && #[trigger] s[k] == '.';
                assert(s[k] == '.' && s[i - a] == '.');
                return false;
            }
            seen_dot = true;
        } else if !is_digit_char(c) {
            return false;
        } else if c != '0' {
            seen_nonzero = true;
        }
        i = i + 1;
    }
    seen_nonzero
}

/// The entry that the trimmed, non-blank, non-comment line `v[a..b]` holds, if any.
fn parse_entry(v: &Vec<char>, a: usize, b: usize) -> (r: Option<Content>)
    requires
        a <= b <= v@.len(),
        !is_blank_or_comment(v@.subrange(a as int, b as int)),
    ensures
        match r {
            Some(c) => exists|sp: int|
                splits_at(v@.subrange(a as int, b as int), sp) && c@.display_time == v@.subrange(
                    a as int,
                    b as int,
                ).take(sp) && c@.link == v@.subrange(a as int, b as int).skip(sp + 1),
            None => !exists|sp: int| splits_at(v@.subrange(a as int, b as int), sp),
        },
{
    let ghost t = v@.subrange(a as int, b as int);
    let mut sp: usize = a;
    while sp < b && v[sp] != ' '
        invariant
            a <= sp <= b <= v@.len(),
            t == v@.subrange(a as int, b as int),
            forall|k: int| 0 <= k < sp - a ==> t[k] != ' ',
        decreases b - sp,
    {
        assert(t[sp - a] == v@[sp as int]);
        sp = sp + 1;
    }
    if sp == b {
        assert forall|other: int| !splits_at(t, other) by {
            if splits_at(t, other) {
                assert(t[other] == ' ');
            }
        }
        return None;
    }
    assert(t[sp - a] == ' ');
    assert forall|other: int| splits_at(t, other) implies other == sp - a by {
        lemma_split_unique(t, sp - a, other);
    }
    assert(t.take(sp - a) =~= v@.subrange(a as int, sp as int));
    if sp + 1 < b && check_duration(v, a, sp) {
        assert(t.skip(sp - a + 1) =~= v@.subrange(sp + 1, b as int));
        let c = Content { display_time: string_of(v, a, sp), link: string_of(v, sp + 1, b) };
        assert(splits_at(t, sp - a));
        Some(c)
    } else {
        None
    }
}

proof fn lemma_splits_at_unique(t: Seq<char>, s1: int, s2: int)
    requires
        splits_at(t, s1),
        splits_at(t, s2),
    ensures
        s1 == s2,
{
    assert forall|k: int| 0 <= k < s1 implies t[k] != ' ' by {
        let d = t.take(s1);
        assert(d[k] == t[k]);
        assert(is_digit(d[k]) || d[k] == '.');
    }
    lemma_split_unique(t, s1, s2);
}

/// The entries of a sequence of raw config lines, in line order.
pub open spec fn entries_of(lines: Seq<Seq<char>>) -> Seq<EntryView>
    decreases lines.len(),
{
    if lines.len() == 0 {
        Seq::empty()
    } else {
        let prev = entries_of(lines.drop_last());
        match line_entry(lines.last()) {
            Some(e) => prev.push(EntryView { display_time: e.0, link: e.1 }),
            None => prev,
        }
    }
}

/// The numbers, counted from 1, of the malformed lines among `lines`.
pub open spec fn malformed_lines(lines: Seq<Seq<char>>) -> Seq<int>
    decreases lines.len(),
{
    if lines.len() == 0 {
        Seq::empty()
    } else {
        let prev = malformed_lines(lines.drop_last());
        if is_malformed(lines.last()) {
            prev.push(lines.len() as int)
        } else {
            prev
        }
    }
}

/// The entries of a config text: one for each line that holds one, in order.
pub open spec fn config_entries(text: Seq<char>) -> Seq<EntryView> {
    entries_of(split_lines(text))
}

/// The numbers of the lines of a config text that are skipped as malformed.
pub open spec fn config_malformed_lines(text: Seq<char>) -> Seq<int> {
    malformed_lines(split_lines(text))
}

pub open spec fn views(s: Seq<Content>) -> Seq<EntryView> {
    s.map_values(|c: Content| c@)
}

pub open spec fn numbers(s: Seq<usize>) -> Seq<int> {
    s.map_values(|n: usize| n as int)
}

/// The playlist: the slides in the order in which they are shown.
pub struct Config {
    content: Vec<Content>,
}

impl View for Config {
    type V = Seq<EntryView>;

    closed spec fn view(&self) -> Seq<EntryView> {
        views(self.content@)
    }
}

enum LineOutcome {
    Skip,
    Entry(Content),
    Malformed,
}

/// What the raw line `v[start..end]` holds.
fn classify_line(v: &Vec<char>, start: usize, end: usize) -> (r: LineOutcome)
    requires
        start <= end <= v@.len(),
    ensures
        ({
            let raw = v@.subrange(start as int, end as int);
            match r {
                LineOutcome::Entry(c) => line_entry(raw) == Some((c@.display_time, c@.link))
                    && c@.wf(),
                LineOutcome::Skip => line_entry(raw) is None && !is_malformed(raw),
                LineOutcome::Malformed => line_entry(raw) is None && is_malformed(raw),
            }
        }),
{
    let (a, b) = trim_bounds(v, start, end);
    let ghost t = v@.subrange(a as int, b as int);
    if a == b {
        return LineOutcome::Skip;
    }
    assert(t[0] == v@[a as int]);
    if v[a] == '#' {
        return LineOutcome::Skip;
    }
    match parse_entry(v, a, b) {
        Some(c) => {
            proof {
                let sp = choose|sp: int|
                    splits_at(t, sp) && c@.display_time == t.take(sp) && c@.link == t.skip(sp + 1);
                let chosen = choose|sp: int| splits_at(t, sp);
                lemma_splits_at_unique(t, sp, chosen);
            }
            LineOutcome::Entry(c)
        },
        None => LineOutcome::Malformed,
    }
}

/// Adds what the raw line `v[start..end]`, numbered `line_idx + 1`, holds.
fn take_line(
    v: &Vec<char>,
    start: usize,
    end: usize,
    line_idx: usize,
    content: &mut Vec<Content>,
    rejected: &mut Vec<usize>,
)
    requires
        start <= end <= v@.len(),
        line_idx < v@.len() + 1,
        line_idx < usize::MAX,
    ensures
        ({
            let raw = v@.subrange(start as int, end as int);
            &&& views(final(content)@) == match line_entry(raw) {
                Some(e) => views(old(content)@).push(EntryView { display_time: e.0, link: e.1 }),
                None => views(old(content)@),
            }
            &&& numbers(final(rejected)@) == if is_malformed(raw) {
                numbers(old(rejected)@).push(line_idx + 1)
            } else {
                numbers(old(rejected)@)
            }
            &&& (forall|k: int|
                0 <= k < old(content)@.len() ==> #[trigger] final(content)@[k] == old(content)@[k])
            &&& final(content)@.len() >= old(content)@.len()
            &&& (forall|k: int|
                old(content)@.len() <= k < final(content)@.len() ==> (
                #[trigger] final(content)@[k])@.wf())
        }),
{
    match classify_line(v, start, end) {
        LineOutcome::Entry(c) => {
            content.push(c);
            assert(views(content@) =~= views(old(content)@).push(c@));
        },
        LineOutcome::Skip => {},
        LineOutcome::Malformed => {
            rejected.push(line_idx + 1);
            assert(numbers(rejected@) =~= numbers(old(rejected)@).push(line_idx + 1));
        },
    }
}

impl Config {
    /// Every entry has a display time numeral and a non-empty link.
    pub open spec fn wf(&self) -> bool {
        forall|i: int| 0 <= i < self@.len() ==> (#[trigger] self@[i]).wf()
    }

    /// Reads a config text. Each line is trimmed; blank lines and lines starting
    /// with `#` are skipped. Any other line must read `<display time> <link>`,
    /// with exactly one space after the number: it becomes an entry, in line order.
    /// A line that does not read so is skipped too, and its number (counted
    /// from 1) is returned beside the config.
    pub fn parse_from(text: &str) -> (r: (Config, Vec<usize>))
        ensures
            r.0.wf(),
            r.0@ == config_entries(text@),
            numbers(r.1@) == config_malformed_lines(text@),
    {
        let v = chars_of(text);
        let mut content: Vec<Content> = Vec::new();
        let mut rejected: Vec<usize> = Vec::new();
        let ghost mut done: Seq<Seq<char>> = Seq::empty();
        let mut start: usize = 0;
        let mut line_idx: usize = 0;
        let mut i: usize = 0;
        assert(v@.take(0) =~= Seq::<char>::empty());
        assert(v@.subrange(0, 0) =~= Seq::<char>::empty());
        assert(split_lines(Seq::<char>::empty()) =~= done.push(Seq::<char>::empty()));
        while i < v.len()
            invariant
                start <= i <= v@.len(),
                line_idx == done.len(),
                line_idx <= i,
                split_lines(v@.take(i as int)) == done.push(v@.subrange(start as int, i as int)),
                views(content@) == entries_of(done),
                numbers(rejected@) == malformed_lines(done),
                forall|k: int| 0 <= k < content@.len() ==> (#[trigger] content@[k])@.wf(),
            decreases v@.len() - i,
        {
            let ghost cur = v@.subrange(start as int, i as int);
            assert(v@.take(i + 1).drop_last() =~= v@.take(i as int));
            assert(v@.take(i + 1).last() == v@[i as int]);
            if v[i] == '\n' {
                take_line(&v, start, i, line_idx, &mut content, &mut rejected);
                proof {
                    assert(done.push(cur).drop_last() =~= done);
                    done = done.push(cur);
                    assert(v@.subrange(i + 1, i + 1) =~= Seq::<char>::empty());
                }
                start = i + 1;
                line_idx = line_idx + 1;
            } else {
                assert(v@.subrange(start as int, i + 1) =~= cur.push(v@[i as int]));
                assert(done.push(cur).update(done.len() as int, cur.push(v@[i as int]))
                    =~= done.push(cur.push(v@[i as int])));
            }
            i = i + 1;
        }
        let ghost last = v@.subrange(start as int, i as int);
        take_line(&v, start, i, line_idx, &mut content, &mut rejected);
        proof {
            assert(v@.take(i as int) =~= v@);
            assert(done.push(last).drop_last() =~= done);
        }
        (Config { content }, rejected)
    }

    /// Number of entries.
    pub fn len(&self) -> (r: usize)
        ensures
            r == self@.len(),
    {
        self.content.len()
    }

    /// The entry at `i`.
    pub fn content(&self, i: usize) -> (r: &Content)
        requires
            i < self@.len(),
        ensures
            r@ == self@[i as int],
    {
        &self.content[i]
    }
}

} // verus!
