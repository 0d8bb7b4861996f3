//! The environment file and the permission lists: text files read line by line.

use vstd::prelude::*;
use crate::number::{decimal, decimal_chars};
use crate::text::{chars_of, find_char, first_index, same_text, slice_chars, string_of};

verus! {

/// Line of the environment file that holds the client id.
pub const CLIENT_ID: usize = 0;

/// Line that holds the client secret.
pub const CLIENT_SECRET: usize = 1;

/// Line that holds the refresh token.
pub const REFRESH_TOKEN: usize = 2;

/// Line that holds the address that hands out access tokens.
pub const TOKEN_URL: usize = 3;

/// Line that holds the bot's token.
pub const TOKEN: usize = 4;

/// Line that holds the address to upload to.
pub const UPLOAD_URL: usize = 5;

/// Line that holds the path of the fetch and upload helper.
pub const PNCURL: usize = 6;

/// Line that holds the path of the encoder.
pub const PNMPEG: usize = 7;

/// Line that holds the path of the torrent helper.
pub const PNP2P: usize = 8;

/// The number of lines that an environment file must have.
pub const ENV_LINES: usize = 10;

/// `s` without one carriage return at its end.
pub open spec fn without_return(s: Seq<char>) -> Seq<char> {
    if s.len() > 0 && s.last() == '\r' {
        s.drop_last()
    } else {
        s
    }
}

/// The lines of a text. A line ends with a line feed, or with a carriage return
/// and a line feed; the last line need not end at all. What follows the last
/// line feed is a line only if it is not empty.
pub open spec fn lines_of(s: Seq<char>) -> Seq<Seq<char>>
    decreases s.len(),
{
    let i = first_index(s, '\n');
    if s.len() == 0 {
        Seq::empty()
    } else if 0 <= i < s.len() {
        seq![without_return(s.take(i))] + lines_of(s.skip(i + 1))
    } else {
        seq![s]
    }
}

/// The views of a vector of strings.
pub open spec fn line_views(v: Seq<String>) -> Seq<Seq<char>> {
    Seq::new(v.len(), |i: int| v[i]@)
}

/// Splits a text into its lines.
pub fn lines(content: &str) -> (out: Vec<String>)
    ensures
        line_views(out@) == lines_of(content@),
{
    let s = chars_of(content);
    let mut out: Vec<String> = Vec::new();
    let mut start: usize = 0;
    proof {
        assert(s@.skip(0) =~= s@);
        assert(line_views(out@) =~= Seq::<Seq<char>>::empty());
        assert(line_views(out@) + lines_of(s@.skip(0)) =~= lines_of(s@));
    }
    while start < s.len()
        invariant
            start <= s.len(),
            line_views(out@) + lines_of(s@.skip(start as int)) == lines_of(s@),
        decreases s.len() - start,
    {
        let rest = slice_chars(&s, start, s.len());
        proof {
            assert(rest@ =~= s@.skip(start as int));
        }
        let i = find_char(&rest, '\n');
        let ghost before = line_views(out@);
        if i < rest.len() {
            let end: usize = if i > 0 && rest[i - 1] == '\r' {
                i - 1
            } else {
                i
            };
            let line = string_of(&slice_chars(&rest, 0, end));
            proof {
                assert(rest@.take(i as int) =~= rest@.subrange(0, i as int));
                assert(line@ =~= without_return(rest@.take(i as int)));
                assert(rest@.skip(i + 1) =~= s@.skip(start + i + 1));
            }
            out.push(line);
            proof {
                assert(line_views(out@) =~= before.push(line@));
                assert(before.push(line@) + lines_of(s@.skip(start + i + 1)) =~= before + (seq![
                    line@,
                ] + lines_of(rest@.skip(i + 1))));
            }
            start = start + i + 1;
        } else {
            let line = string_of(&rest);
            out.push(line);
            proof {
                assert(line_views(out@) =~= before.push(rest@));
                assert(s@.skip(s@.len() as int) =~= Seq::<char>::empty());
                assert(before.push(rest@) + lines_of(s@.skip(s@.len() as int)) =~= before + seq![
                    rest@,
                ]);
            }
            start = s.len();
        }
    }
    proof {
        assert(s@.skip(s@.len() as int) =~= Seq::<char>::empty());
        assert(line_views(out@) + Seq::<Seq<char>>::empty() =~= line_views(out@));
    }
    out
}

/// The lines of an environment file, or nothing where the file has fewer lines
/// than it must.
pub fn get_env(content: &str) -> (out: Vec<String>)
    ensures
        line_views(out@) == if lines_of(content@).len() < ENV_LINES {
            Seq::<Seq<char>>::empty()
        } else {
            lines_of(content@)
        },
{
    let all = lines(content);
    if all.len() < ENV_LINES {
        let none: Vec<String> = Vec::new();
        proof {
            assert(line_views(none@) =~= Seq::<Seq<char>>::empty());
        }
        return none;
    }
    all
}

/// The lines of a permission list.
pub fn get_perm(content: &str) -> (out: Vec<String>)
    ensures
        line_views(out@) == lines_of(content@),
{
    lines(content)
}

/// The text that is appended to a permission list to add `entry`.
pub fn add_env(entry: &str) -> (out: String)
    ensures
        out@ == entry@.push('\n'),
{
    let mut chars = chars_of(entry);
    chars.push('\n');
    string_of(&chars)
}

/// The classes of permission.
#[derive(Copy, Clone, Debug, PartialEq, Eq, Structural)]
pub enum PermissionClass {
    /// May ask for jobs.
    Authorized,
    /// May grant the permission to ask for jobs.
    Admin,
}

/// The class of permission that a command asks for, or `None` for what is no
/// command.
pub open spec fn class_of(command: Seq<char>) -> Option<PermissionClass> {
    if command == "!enc"@ || command == "/encode"@ {
        Some(PermissionClass::Authorized)
    } else if command == "!authorize"@ || command == "!auth"@ {
        Some(PermissionClass::Admin)
    } else {
        None
    }
}

/// The class of permission that a command asks for.
pub fn permission_class(command: &str) -> (r: Option<PermissionClass>)
    ensures
        r == class_of(command@),
{
    let c = chars_of(command);
    if same_text(&c, "!enc") || same_text(&c, "/encode") {
        Some(PermissionClass::Authorized)
    } else if same_text(&c, "!authorize") || same_text(&c, "!auth") {
        Some(PermissionClass::Admin)
    } else {
        None
    }
}

/// The file that lists the members of a class.
pub fn permission_file(class: PermissionClass) -> (r: &'static str)
    ensures
        r@ == match class {
            PermissionClass::Authorized => "authorize.pandora"@,
            PermissionClass::Admin => "admin.pandora"@,
        },
{
    match class {
        PermissionClass::Authorized => "authorize.pandora",
        PermissionClass::Admin => "admin.pandora",
    }
}

/// Whether the principal `id` may give `command`, where `members` are the lines
/// of the list of the class that the command asks for: the command must be one,
/// and the numeral of `id` must be one of the lines.
pub fn is_authorized(command: &str, id: u64, members: &Vec<String>) -> (r: bool)
    ensures
        r == (class_of(command@) is Some && line_views(members@).contains(decimal(id as nat))),
{
    if permission_class(command).is_none() {
        return false;
    }
    let numeral = decimal_chars(id);
    let mut i: usize = 0;
    while i < members.len()
        invariant
            i <= members.len(),
            numeral@ == decimal(id as nat),
            class_of(command@) is Some,
            forall|k: int| 0 <= k < i ==> line_views(members@)[k] != numeral@,
        decreases members.len() - i,
    {
        proof {
            assert(line_views(members@)[i as int] == members@[i as int]@);
        }
        if same_text(&numeral, members[i].as_str()) {
            proof {
                assert(line_views(members@).contains(numeral@));
            }
            return true;
        }
        i += 1;
    }
    false
}

} // verus!
