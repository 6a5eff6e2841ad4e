use vstd::prelude::*;
use vstd::string::*;

verus! {

/// How a slide is shown; each mode has a template of its own.
#[derive(Clone, Copy, Debug, PartialEq, Eq, Structural)]
pub enum RenderMode {
    Website,
    Video,
    Image,
}

/// The pieces of a path between slashes, in order.
pub open spec fn segments(s: Seq<char>) -> Seq<Seq<char>>
    decreases s.len(),
{
    if s.len() == 0 {
        seq![Seq::<char>::empty()]
    } else {
        let prev = segments(s.drop_last());
        if s.last() == '/' {
            prev.push(Seq::<char>::empty())
        } else {
            prev.update(prev.len() - 1, prev.last().push(s.last()))
        }
    }
}

/// A piece of a path that names something: neither empty nor `.`.
pub open spec fn is_named_segment(seg: Seq<char>) -> bool {
    seg.len() > 0 && seg != seq!['.']
}

/// The file name of a path, as `Path::file_name` gives it on Unix: its last
/// component, unless there is none or it is `..`.
pub open spec fn file_name_of(path: Seq<char>) -> Option<Seq<char>> {
    let named = segments(path).filter(|seg: Seq<char>| is_named_segment(seg));
    if named.len() == 0 || named.last() == seq!['.', '.'] {
        None
    } else {
        Some(named.last())
    }
}

/// The extension of a file name, as `Path::extension` documents it: the part
/// after the last `.`, unless there is no `.` or the only one starts the name.
pub open spec fn extension_of(name: Seq<char>) -> Option<Seq<char>> {
    if exists|k: int| 0 < k < name.len() && name[k] == '.' {
        let k = choose|k: int|
            0 <= k < name.len() && name[k] == '.' && forall|j: int|
                k < j < name.len() ==> name[j] != '.';
        Some(name.skip(k + 1))
    } else {
        None
    }
}

/// The extension of the file that a path or URI names.
pub open spec fn path_extension(path: Seq<char>) -> Option<Seq<char>> {
    match file_name_of(path) {
        Some(name) => extension_of(name),
        None => None,
    }
}

/// The first media type that mime_guess lists for the extension `ext`, as
/// (top-level type, subtype), or `None` where it lists none.
pub uninterp spec fn media_type_of_extension(ext: Seq<char>) -> Option<(Seq<char>, Seq<char>)>;

/// The media type guessed for a link from its extension alone.
pub open spec fn guessed_media_type(link: Seq<char>) -> Option<(Seq<char>, Seq<char>)> {
    match path_extension(link) {
        Some(ext) => media_type_of_extension(ext),
        None => None,
    }
}

/// Relies on `mime_guess::from_path` and `MimeGuess::first`: `from_path` takes
/// the extension of `link` by `Path::extension` (Unix path rules) and looks it
/// up in a static table; a link without extension gets no guess. The first
/// media type listed is split into its type and subtype. No file is touched.
#[verifier::external_body]
fn guess_media_type(link: &str) -> (r: Option<(String, String)>)
    ensures
        match path_extension(link@) {
            Some(ext) => match r {
                Some(m) => media_type_of_extension(ext) == Some((m.0@, m.1@)),
                None => media_type_of_extension(ext) is None,
            },
            None => r is None,
        },
{
    match mime_guess::from_path(link).first() {
        Some(m) => Some((m.type_().as_str().to_string(), m.subtype().as_str().to_string())),
        None => None,
    }
}

/// The mode for a guessed media type: `text/html` and anything unknown or
/// unlisted is a website; `video/*` a video; `image/*` an image.
pub open spec fn mode_of_media_type(guess: Option<(Seq<char>, Seq<char>)>) -> RenderMode {
    match guess {
        None => RenderMode::Website,
        Some(m) => if m.0 == seq!['t', 'e', 'x', 't'] && m.1 == seq!['h', 't', 'm', 'l'] {
            RenderMode::Website
        } else if m.0 == seq!['v', 'i', 'd', 'e', 'o'] {
            RenderMode::Video
        } else if m.0 == seq!['i', 'm', 'a', 'g', 'e'] {
            RenderMode::Image
        } else {
            RenderMode::Website
        },
    }
}

/// The mode of a link: a function of the link alone.
pub open spec fn mode_of_link(link: Seq<char>) -> RenderMode {
    mode_of_media_type(guessed_media_type(link))
}

fn equals_text(s: &String, lit: &str) -> (r: bool)
    ensures
        r == (s@ == lit@),
{
    let n = lit.unicode_len();
    if s.as_str().unicode_len() != n {
        return false;
    }
    let mut i: usize = 0;
    while i < n
        invariant
            n == lit@.len() == s@.len(),
            i <= n,
            forall|k: int| 0 <= k < i ==> s@[k] == lit@[k],
        decreases n - i,
    {
        if s.as_str().get_char(i) != lit.get_char(i) {
            return false;
        }
        i = i + 1;
    }
    assert(s@ =~= lit@);
    true
}

/// The mode for a guessed media type given as (type, subtype).
pub fn mode_for_media_type(guess: &Option<(String, String)>) -> (r: RenderMode)
    ensures
        r == mode_of_media_type(
            match guess {
                Some(m) => Some((m.0@, m.1@)),
                None => None,
            },
        ),
{
    proof {
        reveal_strlit("text");
        reveal_strlit("html");
        reveal_strlit("video");
        reveal_strlit("image");
        assert("text"@ =~= seq!['t', 'e', 'x', 't']);
        assert("html"@ =~= seq!['h', 't', 'm', 'l']);
        assert("video"@ =~= seq!['v', 'i', 'd', 'e', 'o']);
        assert("image"@ =~= seq!['i', 'm', 'a', 'g', 'e']);
    }
    match guess {
        None => RenderMode::Website,
        Some(m) => {
            if equals_text(&m.0, "text") && equals_text(&m.1, "html") {
                RenderMode::Website
            } else if equals_text(&m.0, "video") {
                RenderMode::Video
            } else if equals_text(&m.0, "image") {
                RenderMode::Image
            } else {
                RenderMode::Website
            }
        },
    }
}

/// The mode of `link`, from the media type guessed from its extension.
pub fn classify(link: &str) -> (r: RenderMode)
    ensures
        r == mode_of_link(link@),
{
    let guess = guess_media_type(link);
    mode_for_media_type(&guess)
}

impl RenderMode {
    /// Name of the template that shows this mode.
    pub open spec fn template_spec(self) -> Seq<char> {
        match self {
            RenderMode::Website => seq!['w', 'e', 'b', 's', 'i', 't', 'e', '.', 'h', 't', 'm', 'l'],
            RenderMode::Video => seq!['v', 'i', 'd', 'e', 'o', '.', 'h', 't', 'm', 'l'],
            RenderMode::Image => seq!['i', 'm', 'a', 'g', 'e', '.', 'h', 't', 'm', 'l'],
        }
    }

    /// Name of the template that shows this mode.
    pub fn template(&self) -> (r: &'static str)
        ensures
            r@ == self.template_spec(),
    {
        proof {
            reveal_strlit("website.html");
            reveal_strlit("video.html");
            reveal_strlit("image.html");
            assert("website.html"@ =~= RenderMode::Website.template_spec());
            assert("video.html"@ =~= RenderMode::Video.template_spec());
            assert("image.html"@ =~= RenderMode::Image.template_spec());
        }
        match self {
            RenderMode::Website => "website.html",
            RenderMode::Video => "video.html",
            RenderMode::Image => "image.html",
        }
    }
}

} // verus!
