use crate::chain::{next_index, next_index_spec};
use crate::config::{Config, Content, EntryView};
use crate::duration::{millis_of, millis_text};
use crate::mode::{classify, mode_of_link, RenderMode};
use crate::text::{chars_of, string_of};
use vstd::prelude::*;
use vstd::string::*;

verus! {

pub open spec fn digit_char(d: nat) -> char {
    seq!['0', '1', '2', '3', '4', '5', '6', '7', '8', '9'][d as int]
}

/// The decimal numeral of `n`, without leading zeros.
pub open spec fn decimal(n: nat) -> Seq<char>
    decreases n,
{
    if n < 10 {
        seq![digit_char(n)]
    } else {
        decimal(n / 10).push(digit_char(n % 10))
    }
}

/// Name of the page file of entry `n`: `{n}.html`.
pub open spec fn html_name(n: nat) -> Seq<char> {
    decimal(n) + seq!['.', 'h', 't', 'm', 'l']
}

fn digit(d: usize) -> (r: char)
    requires
        d < 10,
    ensures
        r == digit_char(d as nat),
{
    let digits: Vec<char> = vec!['0', '1', '2', '3', '4', '5', '6', '7', '8', '9'];
    assert(digits@ =~= seq!['0', '1', '2', '3', '4', '5', '6', '7', '8', '9']);
    digits[d]
}

/// Appends the decimal numeral of `n` to `out`.
fn push_decimal(n: usize, out: &mut Vec<char>)
    ensures
        final(out)@ == old(out)@ + decimal(n as nat),
    decreases n,
{
    if n >= 10 {
        push_decimal(n / 10, out);
    }
    let ghost mid = out@;
    out.push(digit(n % 10));
    proof {
        if n >= 10 {
            assert(old(out)@ + decimal(n as nat) =~= mid.push(digit_char((n % 10) as nat)));
        } else {
            assert(old(out)@ + decimal(n as nat) =~= old(out)@.push(digit_char(n as nat)));
        }
    }
}

/// The name of the page file of entry `n`.
pub fn html_file_name(n: usize) -> (r: String)
    ensures
        r@ == html_name(n as nat),
{
    let mut v: Vec<char> = Vec::new();
    push_decimal(n, &mut v);
    v.push('.');
    v.push('h');
    v.push('t');
    v.push('m');
    v.push('l');
    assert(v@ =~= html_name(n as nat));
    string_of(&v, 0, v.len())
}

/// A link names a URI when it holds `://`; otherwise it is a local path.
pub open spec fn is_uri(link: Seq<char>) -> bool {
    exists|k: int| 0 <= k && k + 3 <= link.len() && #[trigger] link.subrange(k, k + 3) == seq![':', '/', '/']
}

fn has_scheme(s: &String) -> (r: bool)
    ensures
        r == is_uri(s@),
{
    let v = chars_of(s.as_str());
    let mut i: usize = 0;
    while i < v.len() && v.len() - i >= 3
        invariant
            v@ == s@,
            forall|k: int| 0 <= k < i && k + 3 <= v@.len() ==> #[trigger] v@.subrange(k, k + 3) != seq![':', '/', '/'],
        decreases v@.len() - i,
    {
        if v[i] == ':' && v[i + 1] == '/' && v[i + 2] == '/' {
            assert(v@.subrange(i as int, i + 3) =~= seq![':', '/', '/']);
            return true;
        }
        assert(v@.subrange(i as int, i + 3)[0] == v@[i as int]);
        assert(v@.subrange(i as int, i + 3)[1] == v@[i + 1]);
        assert(v@.subrange(i as int, i + 3)[2] == v@[i + 2]);
        i = i + 1;
    }
    false
}

/// Everything one page file is made from.
pub struct Page {
    /// Name of the file, `{index}.html`.
    pub file_name: String,
    /// Which template shows the entry.
    pub mode: RenderMode,
    /// The entry's link, unescaped.
    pub current_content: String,
    /// The entry's display time in milliseconds.
    pub display_time: String,
    /// Name of the page that follows, `{next index}.html`.
    pub next_url: String,
    /// The link of the entry that follows, unescaped.
    pub next_file: String,
    /// Whether the link names a local path rather than a URI.
    pub local_file: bool,
}

pub struct PageView {
    pub file_name: Seq<char>,
    pub mode: RenderMode,
    pub current_content: Seq<char>,
    pub display_time: Seq<char>,
    pub next_url: Seq<char>,
    pub next_file: Seq<char>,
    pub local_file: bool,
}

impl View for Page {
    type V = PageView;

    open spec fn view(&self) -> PageView {
        PageView {
            file_name: self.file_name@,
            mode: self.mode,
            current_content: self.current_content@,
            display_time: self.display_time@,
            next_url: self.next_url@,
            next_file: self.next_file@,
            local_file: self.local_file,
        }
    }
}

/// The page of entry `c` at index `num`, followed by entry `next` at index `next_num`.
pub open spec fn page_of(c: EntryView, num: nat, next: EntryView, next_num: nat) -> PageView {
    PageView {
        file_name: html_name(num),
        mode: mode_of_link(c.link),
        current_content: c.link,
        display_time: millis_text(c.display_time),
        next_url: html_name(next_num),
        next_file: next.link,
        local_file: !is_uri(c.link),
    }
}

/// The pages of a playlist: entry `i` links on to entry `(i + 1) mod n`.
pub open spec fn pages_of(entries: Seq<EntryView>) -> Seq<PageView> {
    Seq::new(
        entries.len(),
        |i: int|
            page_of(
                entries[i],
                i as nat,
                entries[next_index_spec(i, entries.len() as int)],
                next_index_spec(i, entries.len() as int) as nat,
            ),
    )
}

/// What the template engine is asked to render for one page: the template of
/// the page's mode and the page's variables. The result goes to the file
/// `page.file_name`.
pub struct RenderRequest {
    pub page: Page,
    pub template: String,
    pub variables: Vec<(String, String)>,
}

/// The variables a page's template is rendered with, as (name, value) pairs:
/// the link, the display time in milliseconds, the next page and the next link.
pub open spec fn variables_of(p: PageView) -> Seq<(Seq<char>, Seq<char>)> {
    seq![
        (seq!['c', 'u', 'r', 'r', 'e', 'n', 't', '_', 'c', 'o', 'n', 't', 'e', 'n', 't'], p.current_content),
        (seq!['d', 'i', 's', 'p', 'l', 'a', 'y', '_', 't', 'i', 'm', 'e'], p.display_time),
        (seq!['n', 'e', 'x', 't', '_', 'u', 'r', 'l'], p.next_url),
        (seq!['n', 'e', 'x', 't', '_', 'f', 'i', 'l', 'e'], p.next_file),
    ]
}

pub open spec fn pair_views(v: Seq<(String, String)>) -> Seq<(Seq<char>, Seq<char>)> {
    v.map_values(|e: (String, String)| (e.0@, e.1@))
}

/// The variables that `page`'s template is rendered with, in order.
pub fn variables(page: &Page) -> (r: Vec<(String, String)>)
    ensures
        pair_views(r@) == variables_of(page@),
{
    proof {
        reveal_strlit("current_content");
        reveal_strlit("display_time");
        reveal_strlit("next_url");
        reveal_strlit("next_file");
        let v = variables_of(page@);
        assert("current_content"@ =~= v[0].0);
        assert("display_time"@ =~= v[1].0);
        assert("next_url"@ =~= v[2].0);
        assert("next_file"@ =~= v[3].0);
    }
    let r = vec![
        (String::from_str("current_content"), page.current_content.clone()),
        (String::from_str("display_time"), page.display_time.clone()),
        (String::from_str("next_url"), page.next_url.clone()),
        (String::from_str("next_file"), page.next_file.clone()),
    ];
    assert(pair_views(r@)[0] == variables_of(page@)[0]);
    assert(pair_views(r@)[1] == variables_of(page@)[1]);
    assert(pair_views(r@)[2] == variables_of(page@)[2]);
    assert(pair_views(r@)[3] == variables_of(page@)[3]);
    assert(pair_views(r@) =~= variables_of(page@));
    r
}

/// `r` asks for page `p`: it holds `p`, the template of `p`'s mode and `p`'s variables.
pub open spec fn requests_page(r: RenderRequest, p: PageView) -> bool {
    &&& r.page@ == p
    &&& r.template@ == p.mode.template_spec()
    &&& pair_views(r.variables@) == variables_of(p)
}

impl Content {
    /// The display time in milliseconds, in decimal notation.
    pub fn display_time_ms(&self) -> (r: String)
        requires
            self.wf(),
        ensures
            r@ == millis_text(self@.display_time),
    {
        let v = chars_of(self.display_time().as_str());
        millis_of(&v)
    }

    /// The page of this entry at index `num`, followed by `next_content` at `next_num`.
    pub fn page(&self, num: usize, next_content: &Content, next_num: usize) -> (r: Page)
        requires
            self.wf(),
        ensures
            r@ == page_of(self@, num as nat, next_content@, next_num as nat),
    {
        Page {
            file_name: html_file_name(num),
            mode: classify(self.link().as_str()),
            current_content: self.link().clone(),
            display_time: self.display_time_ms(),
            next_url: html_file_name(next_num),
            next_file: next_content.link().clone(),
            local_file: !has_scheme(self.link()),
        }
    }

    /// What to render for this entry at index `num`, followed by `next_content`
    /// at `next_num`: its page, the template of its mode and its variables.
    pub fn create_html(&self, num: usize, next_content: &Content, next_num: usize) -> (r:
        RenderRequest)
        requires
            self.wf(),
        ensures
            requests_page(r, page_of(self@, num as nat, next_content@, next_num as nat)),
    {
        let page = self.page(num, next_content, next_num);
        let template = String::from_str(page.mode.template());
        let variables = variables(&page);
        RenderRequest { page, template, variables }
    }
}

impl Config {
    /// One page for each entry, in order; each links on to the next, the last to the first.
    pub fn pages(&self) -> (r: Vec<Page>)
        requires
            self.wf(),
        ensures
            r@.map_values(|p: Page| p@) == pages_of(self@),
    {
        let n = self.len();
        let mut pages: Vec<Page> = Vec::new();
        let mut i: usize = 0;
        while i < n
            invariant
                n == self@.len(),
                self.wf(),
                i <= n,
                pages@.map_values(|p: Page| p@) == pages_of(self@).take(i as int),
            decreases n - i,
        {
            let next = next_index(i, n);
            let page = self.content(i).page(i, self.content(next), next);
            assert(page@ == pages_of(self@)[i as int]);
            let ghost before = pages@;
            pages.push(page);
            assert(pages@.map_values(|p: Page| p@) =~= before.map_values(|p: Page| p@).push(
                page@,
            ));
            assert(pages@.map_values(|p: Page| p@) =~= pages_of(self@).take(i + 1));
            i = i + 1;
        }
        assert(pages_of(self@).take(n as int) =~= pages_of(self@));
        pages
    }

    /// What to render for every entry, in order. Entry `i` goes to `{i}.html`
    /// and links on to entry `(i + 1) mod n`.
    pub fn create_html(&self) -> (r: Vec<RenderRequest>)
        requires
            self.wf(),
        ensures
            r@.len() == self@.len(),
            forall|i: int| 0 <= i < r@.len() ==> requests_page(#[trigger] r@[i], pages_of(self@)[i]),
    {
        let n = self.len();
        let mut out: Vec<RenderRequest> = Vec::new();
        let mut i: usize = 0;
        while i < n
            invariant
                n == self@.len(),
                self.wf(),
                i <= n,
                out@.len() == i,
                forall|k: int| 0 <= k < i ==> requests_page(#[trigger] out@[k], pages_of(self@)[k]),
            decreases n - i,
        {
            let next = next_index(i, n);
            out.push(self.content(i).create_html(i, self.content(next), next));
            i = i + 1;
        }
        out
    }
}

} // verus!
