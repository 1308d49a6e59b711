//! Header values as plain data: the request headers the library decides to
//! attach, and lookup in the response headers the shell hands back.

use crate::strutil::string_to_chars;
use vstd::prelude::*;

verus! {

/// One request header to attach: name, value, and whether the value must
/// be redacted in logs and traces.
pub struct HeaderSpec {
    pub name: String,
    pub value: String,
    pub sensitive: bool,
}

/// The (name, value) views of a header list.
pub open spec fn header_pairs(hs: Seq<HeaderSpec>) -> Seq<(Seq<char>, Seq<char>)> {
    hs.map_values(|h: HeaderSpec| (h.name@, h.value@))
}

/// The (name, value) views of a response-header list.
pub open spec fn pairs_view(hs: Seq<(String, String)>) -> Seq<(Seq<char>, Seq<char>)> {
    hs.map_values(|p: (String, String)| (p.0@, p.1@))
}

/// The value of the first header with the given name, if any.
pub open spec fn find_header_spec(hs: Seq<(Seq<char>, Seq<char>)>, name: Seq<char>) -> Option<
    Seq<char>,
>
    decreases hs.len(),
{
    if hs.len() == 0 {
        None
    } else if hs[0].0 == name {
        Some(hs[0].1)
    } else {
        find_header_spec(hs.drop_first(), name)
    }
}

/// Whether two strings hold the same characters.
pub fn str_eq(a: &str, b: &str) -> (r: bool)
    ensures
        r == (a@ == b@),
{
    let ca = string_to_chars(a);
    let cb = string_to_chars(b);
    if ca.len() != cb.len() {
        return false;
    }
    let mut i: usize = 0;
    while i < ca.len()
        invariant
            i <= ca.len(),
            ca.len() == cb.len(),
            ca@ == a@,
            cb@ == b@,
            forall|j: int| 0 <= j < i ==> ca@[j] == cb@[j],
        decreases ca.len() - i,
    {
        if ca[i] != cb[i] {
            return false;
        }
        i = i + 1;
    }
    proof {
        assert(a@ =~= b@);
    }
    true
}

/// Looks up the value of the first response header with the given
/// (already lower-cased) name.
pub fn find_header(hs: &Vec<(String, String)>, name: &str) -> (r: Option<String>)
    ensures
        (match r {
            Some(v) => find_header_spec(pairs_view(hs@), name@) == Some(v@),
            None => find_header_spec(pairs_view(hs@), name@) is None,
        }),
{
    let mut i: usize = 0;
    proof {
        assert(pairs_view(hs@).skip(0) =~= pairs_view(hs@));
    }
    while i < hs.len()
        invariant
            i <= hs.len(),
            find_header_spec(pairs_view(hs@), name@) == find_header_spec(
                pairs_view(hs@).skip(i as int),
                name@,
            ),
        decreases hs.len() - i,
    {
        proof {
            assert(pairs_view(hs@)[i as int] == (hs@[i as int].0@, hs@[i as int].1@));
            assert(pairs_view(hs@).skip(i as int)[0] == pairs_view(hs@)[i as int]);
        }
        if str_eq(hs[i].0.as_str(), name) {
            return Some(hs[i].1.clone());
        }
        proof {
            assert(pairs_view(hs@).skip(i as int).drop_first() =~= pairs_view(hs@).skip(
                i as int + 1,
            ));
        }
        i = i + 1;
    }
    proof {
        assert(pairs_view(hs@).skip(hs@.len() as int) =~= Seq::<(Seq<char>, Seq<char>)>::empty());
    }
    None
}

} // verus!
