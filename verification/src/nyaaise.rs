//! Torrent sources, and the rewriting of tracker links into download links.

use vstd::prelude::*;
use crate::text::{chars_of, extend_chars, has_prefix, has_suffix, matches_at_exec, slice_chars, string_of};

verus! {

/// Where a torrent comes from.
#[derive(Debug)]
pub enum TorrentType {
    Magnet(String),
    Link(String),
}

/// The mathematical value of a `TorrentType`.
pub enum TorrentView {
    Magnet(Seq<char>),
    Link(Seq<char>),
}

impl View for TorrentType {
    type V = TorrentView;

    open spec fn view(&self) -> TorrentView {
        match self {
            TorrentType::Magnet(a) => TorrentView::Magnet(a@),
            TorrentType::Link(a) => TorrentView::Link(a@),
        }
    }
}

impl Clone for TorrentType {
    fn clone(&self) -> (out: Self)
        ensures
            out@ == self@,
    {
        match self {
            TorrentType::Magnet(a) => TorrentType::Magnet(a.clone()),
            TorrentType::Link(a) => TorrentType::Link(a.clone()),
        }
    }
}

impl TorrentType {
    /// The address, whichever kind it is.
    pub open spec fn address(self) -> Seq<char> {
        match self {
            TorrentType::Magnet(a) => a@,
            TorrentType::Link(a) => a@,
        }
    }

    /// The address.
    pub fn get(&self) -> (r: String)
        ensures
            r@ == self.address(),
    {
        match self {
            TorrentType::Link(a) => a.clone(),
            TorrentType::Magnet(a) => a.clone(),
        }
    }

    /// The name of the switch that tells the torrent helper which kind of
    /// source it is given.
    pub fn get_arg(&self) -> (r: String)
        ensures
            r@ == if self is Magnet {
                "magnet"@
            } else {
                "nomagnet"@
            },
    {
        match self {
            TorrentType::Magnet(_) => string_of(&chars_of("magnet")),
            _ => string_of(&chars_of("nomagnet")),
        }
    }

    /// The text shown for the source: a link as it is, a magnet address
    /// withheld.
    pub fn display(&self) -> (r: String)
        ensures
            r@ == match self {
                TorrentType::Link(a) => a@,
                TorrentType::Magnet(_) => "Magnet linki gösterilmiyor."@,
            },
    {
        match self {
            TorrentType::Link(a) => a.clone(),
            TorrentType::Magnet(_) => string_of(&chars_of("Magnet linki gösterilmiyor.")),
        }
    }
}

/// What a pattern does with a link that it matches.
#[derive(Clone, Copy, Debug, PartialEq, Eq, Structural)]
pub enum Method {
    /// Cuts the prefix and the suffix off and builds a download link from what
    /// is left.
    Eliminate,
    /// Keeps the link as it is.
    DoNothing,
}

/// A form of tracker link: what it starts with, what it ends with, and what
/// to do with it.
#[derive(Clone, Copy)]
pub struct Pattern {
    startswith: Option<&'static str>,
    endswith: Option<&'static str>,
    method: Method,
}

/// The start of every download link.
pub open spec fn download_prefix() -> Seq<char> {
    "https://nyaa.si/download/"@
}

/// The end of every download link.
pub open spec fn download_suffix() -> Seq<char> {
    ".torrent"@
}

/// The link that a pattern makes of `s`, or `None` where `s` does not start and
/// end as the pattern asks, or is too short to do both.
pub open spec fn rewritten(
    prefix: Option<Seq<char>>,
    suffix: Option<Seq<char>>,
    method: Method,
    s: Seq<char>,
) -> Option<Seq<char>> {
    let head: nat = match prefix {
        Some(p) => p.len(),
        None => 0,
    };
    let tail: nat = match suffix {
        Some(p) => p.len(),
        None => 0,
    };
    if prefix is Some && !has_prefix(s, prefix->0) {
        None
    } else if suffix is Some && !has_suffix(s, suffix->0) {
        None
    } else if method == Method::DoNothing {
        Some(s)
    } else if head + tail > s.len() {
        None
    } else {
        Some(download_prefix() + s.subrange(head as int, s.len() - tail) + download_suffix())
    }
}

impl Pattern {
    /// What a link must start with.
    pub closed spec fn prefix(self) -> Option<Seq<char>> {
        match self.startswith {
            Some(p) => Some(p@),
            None => None,
        }
    }

    /// What a link must end with.
    pub closed spec fn suffix(self) -> Option<Seq<char>> {
        match self.endswith {
            Some(p) => Some(p@),
            None => None,
        }
    }

    /// What is done with a link of this form.
    pub closed spec fn action(self) -> Method {
        self.method
    }

    /// The known forms of tracker link, in the order in which they are tried.
    pub open spec fn known_spec(i: int) -> (Option<Seq<char>>, Option<Seq<char>>, Method) {
        if i == 0 {
            (Some("https://nyaa.si/download/"@), Some(".torrent"@), Method::DoNothing)
        } else if i == 1 {
            (Some("https://nyaa.si/view/"@), Some("/torrent"@), Method::Eliminate)
        } else if i == 2 {
            (Some("https://nyaa.si/download/"@), None, Method::Eliminate)
        } else {
            (Some("https://nyaa.si/view/"@), None, Method::Eliminate)
        }
    }

    /// The `i`-th known form of tracker link; there are four.
    pub fn known(i: usize) -> (r: Option<Pattern>)
        ensures
            i >= 4 ==> r is None,
            i < 4 ==> r is Some && (r->0.prefix(), r->0.suffix(), r->0.action())
                == Pattern::known_spec(i as int),
    {
        if i == 0 {
            Some(
                Pattern {
                    startswith: Some("https://nyaa.si/download/"),
                    endswith: Some(".torrent"),
                    method: Method::DoNothing,
                },
            )
        } else if i == 1 {
            Some(
                Pattern {
                    startswith: Some("https://nyaa.si/view/"),
                    endswith: Some("/torrent"),
                    method: Method::Eliminate,
                },
            )
        } else if i == 2 {
            Some(
                Pattern {
                    startswith: Some("https://nyaa.si/download/"),
                    endswith: None,
                    method: Method::Eliminate,
                },
            )
        } else if i == 3 {
            Some(
                Pattern {
                    startswith: Some("https://nyaa.si/view/"),
                    endswith: None,
                    method: Method::Eliminate,
                },
            )
        } else {
            None
        }
    }

    /// Applies the pattern to a link. A link that does not start and end as the
    /// pattern asks is refused, and so is one in which the two overlap.
    pub fn is_match(&self, string: &str) -> (r: Result<String, ()>)
        ensures
            match rewritten(self.prefix(), self.suffix(), self.action(), string@) {
                Some(link) => r matches Ok(s) && s@ == link,
                None => r is Err,
            },
    {
        let chars = chars_of(string);
        let mut head: usize = 0;
        let mut tail: usize = 0;
        if let Some(a) = self.startswith {
            let prefix = chars_of(a);
            if !matches_at_exec(&chars, 0, &prefix) {
                return Err(());
            }
            head = prefix.len();
        }
        if let Some(a) = self.endswith {
            let suffix = chars_of(a);
            if suffix.len() > chars.len() {
                return Err(());
            }
            if !matches_at_exec(&chars, chars.len() - suffix.len(), &suffix) {
                return Err(());
            }
            tail = suffix.len();
        }
        match self.method {
            Method::DoNothing => Ok(string_of(&chars)),
            Method::Eliminate => {
                if head > chars.len() - tail {
                    return Err(());
                }
                let middle = slice_chars(&chars, head, chars.len() - tail);
                let mut out = chars_of("https://nyaa.si/download/");
                extend_chars(&mut out, &middle);
                extend_chars(&mut out, &chars_of(".torrent"));
                Ok(string_of(&out))
            },
        }
    }
}

/// The download link for `s` by the first known pattern that accepts it, from
/// the `i`-th on.
pub open spec fn canonical_from(s: Seq<char>, i: int) -> Option<Seq<char>>
    decreases 4 - i,
{
    if i >= 4 || i < 0 {
        None
    } else {
        let p = Pattern::known_spec(i);
        match rewritten(p.0, p.1, p.2, s) {
            Some(link) => Some(link),
            None => canonical_from(s, i + 1),
        }
    }
}

/// The torrent source that `s` names: the download link by the first known
/// pattern that accepts it; else `s` itself as a magnet address where it starts
/// with `magnet:`; else the empty link.
pub open spec fn nyaaised(s: Seq<char>) -> TorrentView {
    match canonical_from(s, 0) {
        Some(link) => TorrentView::Link(link),
        None => if has_prefix(s, "magnet:"@) {
            TorrentView::Magnet(s)
        } else {
            TorrentView::Link(Seq::empty())
        },
    }
}

/// Reads what a user gave as torrent source. The second part of the result is
/// `None` where a known pattern accepted the link, and the empty string
/// otherwise.
pub fn nyaaise(str: &str) -> (r: (TorrentType, Option<String>))
    ensures
        r.0@ == nyaaised(str@),
        canonical_from(str@, 0) is Some ==> r.1 is None,
        canonical_from(str@, 0) is None ==> (r.1 matches Some(note) && note@.len() == 0),
{
    let mut i: usize = 0;
    while i < 4
        invariant
            i <= 4,
            canonical_from(str@, 0) == canonical_from(str@, i as int),
        decreases 4 - i,
    {
        match Pattern::known(i) {
            Some(patt) => match patt.is_match(str) {
                Ok(a) => {
                    return (TorrentType::Link(a), None);
                },
                Err(_) => {},
            },
            None => {},
        }
        i += 1;
    }
    let magnet = chars_of("magnet:");
    let chars = chars_of(str);
    if matches_at_exec(&chars, 0, &magnet) {
        return (TorrentType::Magnet(string_of(&chars)), Some(String::new()));
    }
    (TorrentType::Link(String::new()), Some(String::new()))
}

} // verus!
