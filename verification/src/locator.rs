//! Finding the owner and the name of a repository in the address that a user gave.

use vstd::prelude::*;
use crate::text::to_chars;

verus! {

/// Why an address names no repository.
#[derive(Debug, Clone, Copy, PartialEq, Eq, Structural)]
pub enum ParseError {
    /// The address has fewer than two segments.
    MalformedUrl,
}

/// `url` without one trailing `/`, if it has one.
pub open spec fn trimmed(url: Seq<char>) -> Seq<char> {
    if url.len() > 0 && url.last() == '/' {
        url.drop_last()
    } else {
        url
    }
}

/// The position of the last `/` of `s`, and -1 where `s` has none.
pub open spec fn last_slash(s: Seq<char>) -> int
    decreases s.len(),
{
    if s.len() == 0 {
        -1
    } else if s.last() == '/' {
        s.len() - 1
    } else {
        last_slash(s.drop_last())
    }
}

/// The owner and the name of the repository that `url` names: the last two of the
/// segments that the `/` of the trimmed address part. The name is what follows the last
/// `/`, the owner what stands between that one and the one before it (or the start).
/// An address without a `/` after trimming has one segment only and names none.
pub open spec fn repository_of(url: Seq<char>) -> Option<(Seq<char>, Seq<char>)> {
    let address = trimmed(url);
    let cut = last_slash(address);
    if cut < 0 {
        None
    } else {
        let head = address.take(cut);
        Some((head.skip(last_slash(head) + 1), address.skip(cut + 1)))
    }
}

/// What `last_slash` finds: a position that holds a `/` with none after it, or -1 where
/// there is no `/` at all.
pub proof fn lemma_last_slash(s: Seq<char>)
    ensures
        -1 <= last_slash(s) < s.len(),
        last_slash(s) >= 0 ==> s[last_slash(s)] == '/',
        forall|k: int| last_slash(s) < k < s.len() ==> s[k] != '/',
        last_slash(s) < 0 <==> !s.contains('/'),
    decreases s.len(),
{
    if s.len() > 0 && s.last() != '/' {
        lemma_last_slash(s.drop_last());
        assert forall|k: int| last_slash(s) < k < s.len() implies s[k] != '/' by {
            if k < s.len() - 1 {
                assert(s.drop_last()[k] == s[k]);
            }
        }
        if last_slash(s) >= 0 {
            assert(s.drop_last()[last_slash(s)] == s[last_slash(s)]);
        }
    }
    if last_slash(s) >= 0 {
        assert(s.contains('/'));
    }
}

/// A `/` with none after it is the last one.
pub proof fn lemma_last_slash_at(s: Seq<char>, at: int)
    requires
        -1 <= at < s.len(),
        at >= 0 ==> s[at] == '/',
        forall|k: int| at < k < s.len() ==> s[k] != '/',
    ensures
        last_slash(s) == at,
{
    lemma_last_slash(s);
}

/// The segments into which the `/` of `s` part it, in order. A text without a `/` is one
/// segment; every `/` adds one, which may be empty.
pub open spec fn segments(s: Seq<char>) -> Seq<Seq<char>>
    decreases s.len(),
{
    let cut = last_slash(s);
    if 0 <= cut < s.len() {
        segments(s.take(cut)).push(s.skip(cut + 1))
    } else {
        seq![s]
    }
}

/// The repository that an address names is given by the last two of its segments, one
/// trailing `/` set aside: the owner is the last but one, the name is the last. An
/// address of fewer than two segments, that is, one without a `/`, names none.
pub proof fn lemma_names_last_two_of_the_segments(url: Seq<char>)
    ensures
        segments(trimmed(url)).len() >= 1,
        segments(trimmed(url)).len() < 2 <==> !trimmed(url).contains('/'),
        repository_of(url) == if segments(trimmed(url)).len() >= 2 {
            let parts = segments(trimmed(url));
            Some((parts[parts.len() - 2], parts[parts.len() - 1]))
        } else {
            None
        },
{
    let address = trimmed(url);
    lemma_last_slash(address);
    let cut = last_slash(address);
    if cut >= 0 {
        let head = address.take(cut);
        lemma_last_slash(head);
        lemma_segments_len(head);
        let before = last_slash(head);
        if before >= 0 {
            lemma_segments_len(head.take(before));
        } else {
            assert(head.skip(0) == head);
        }
    }
}

/// Every text has at least one segment.
proof fn lemma_segments_len(s: Seq<char>)
    ensures
        segments(s).len() >= 1,
    decreases s.len(),
{
    lemma_last_slash(s);
    let cut = last_slash(s);
    if cut >= 0 {
        lemma_segments_len(s.take(cut));
    }
}

/// An address that ends in `/owner/name`, with or without one more `/` behind it, names
/// the repository `name` of `owner`, whatever stands before: the scheme and the host of
/// an address such as `scheme://host/owner/name`.
pub proof fn lemma_names_last_two_segments(base: Seq<char>, owner: Seq<char>, name: Seq<char>)
    requires
        owner.len() > 0,
        name.len() > 0,
        !owner.contains('/'),
        !name.contains('/'),
    ensures
        repository_of(base + seq!['/'] + owner + seq!['/'] + name) == Some((owner, name)),
        repository_of(base + seq!['/'] + owner + seq!['/'] + name + seq!['/']) == Some((owner, name)),
{
    let url = base + seq!['/'] + owner + seq!['/'] + name;
    let cut = base.len() + 1 + owner.len();
    let head = base + seq!['/'] + owner;
    assert(name.last() != '/') by {
        assert(name[name.len() - 1] == name.last());
    }
    assert(url.last() == name.last());
    assert(trimmed(url) == url);
    assert((url + seq!['/']).drop_last() == url);
    assert(trimmed(url + seq!['/']) == url);
    assert forall|k: int| cut < k < url.len() implies url[k] != '/' by {
        assert(url[k] == name[k - cut - 1]);
    }
    lemma_last_slash_at(url, cut as int);
    assert(url.take(cut as int) == head);
    assert forall|k: int| base.len() < k < head.len() implies head[k] != '/' by {
        assert(head[k] == owner[k - base.len() - 1]);
    }
    lemma_last_slash_at(head, base.len() as int);
    assert(head.skip(base.len() as int + 1) == owner);
    assert(url.skip(cut as int + 1) == name);
}

/// The position of the last `/` among the first `end` of `chars`.
fn find_last_slash(chars: &Vec<char>, end: usize) -> (at: Option<usize>)
    requires
        end <= chars.len(),
    ensures
        match at {
            Some(i) => i < end && i == last_slash(chars@.take(end as int)),
            None => last_slash(chars@.take(end as int)) == -1,
        },
{
    let ghost s = chars@.take(end as int);
    let mut i: usize = end;
    while i > 0
        invariant
            i <= end <= chars.len(),
            s == chars@.take(end as int),
            forall|k: int| i <= k < end ==> s[k] != '/',
        decreases i,
    {
        if chars[i - 1] == '/' {
            proof {
                lemma_last_slash_at(s, i - 1);
            }
            return Some(i - 1);
        }
        i -= 1;
    }
    proof {
        lemma_last_slash_at(s, -1);
    }
    None
}

/// The owner and the name of the repository that `url` names: the last two segments of
/// the address, one trailing `/` set aside. An address of fewer than two segments is
/// refused.
pub fn extract_owner_repo(url: &str) -> (found: Result<(String, String), ParseError>)
    ensures
        match found {
            Ok((owner, name)) => repository_of(url@) == Some((owner@, name@)),
            Err(e) => e == ParseError::MalformedUrl && repository_of(url@) is None,
        },
{
    let chars = to_chars(url);
    let length = chars.len();
    let end = if length > 0 && chars[length - 1] == '/' {
        length - 1
    } else {
        length
    };
    assert(chars@.take(end as int) == trimmed(url@));
    match find_last_slash(&chars, end) {
        None => Err(ParseError::MalformedUrl),
        Some(cut) => {
            proof {
                lemma_last_slash(trimmed(url@));
                assert(chars@.take(cut as int) == trimmed(url@).take(cut as int));
            }
            let start = match find_last_slash(&chars, cut) {
                Some(before) => before + 1,
                None => 0,
            };
            proof {
                lemma_last_slash(trimmed(url@).take(cut as int));
            }
            let owner = url.substring_char(start, cut).to_owned();
            let name = url.substring_char(cut + 1, end).to_owned();
            proof {
                let address = trimmed(url@);
                assert(address.take(cut as int).skip(start as int) == url@.subrange(
                    start as int,
                    cut as int,
                ));
                assert(address.skip(cut + 1) == url@.subrange(cut + 1, end as int));
            }
            Ok((owner, name))
        },
    }
}

} // verus!
