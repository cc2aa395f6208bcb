//! `Link`-header pagination shared by the catalog and tag listings.
//!
//! A page response may carry a `Link: <url>; rel="next"` header whose
//! URL holds the opaque cursor in its `next_page` query parameter.
//! The stream of items ends when a response carries no such cursor.

use vstd::prelude::*;

use crate::errors::Error;
use crate::strutil::ends_with_str;
use crate::strutil::find_char;
use crate::strutil::find_substr;
use crate::strutil::spec_dec_digits;
use crate::strutil::spec_ends_with;
use crate::strutil::spec_find;
use crate::strutil::spec_find_sub;
use crate::strutil::substr_to_string;
use crate::strutil::u32_to_dec_string;

verus! {

/// The value with every trailing `>; rel="next"` literal removed.
pub open spec fn spec_trim_next(s: Seq<char>) -> Seq<char>
    decreases s.len(),
{
    if spec_ends_with(s, ">; rel=\"next\""@) && s.len() >= 1 {
        proof {
            reveal_strlit(">; rel=\"next\"");
        }
        spec_trim_next(s.take(s.len() - ">; rel=\"next\""@.len()))
    } else {
        s
    }
}

/// The pagination cursor of a `Link` header value: the text after the
/// first `next_page=`, up to the next `&` or the end, in the value
/// trimmed of its `>; rel="next"` suffix. An absent or empty cursor
/// is no cursor.
pub open spec fn spec_link_cursor(s: Seq<char>) -> Option<Seq<char>> {
    let t = spec_trim_next(s);
    match spec_find_sub(t, "next_page="@) {
        None => None,
        Some(i) => {
            let params = t.skip(i + "next_page="@.len());
            if params.len() == 0 {
                None
            } else {
                let cut = match spec_find(params, '&') {
                    Some(j) => params.take(j),
                    None => params,
                };
                if cut.len() == 0 {
                    None
                } else {
                    Some(cut)
                }
            }
        },
    }
}

/// Extract the pagination cursor from an optional `Link` header.
pub fn parse_link(hdr: Option<&str>) -> (r: Option<String>)
    ensures
        match hdr {
            None => r is None,
            Some(h) => match spec_link_cursor(h@) {
                None => r is None,
                Some(c) => r matches Some(cs) && cs@ == c,
            },
        },
{
    let h = match hdr {
        Some(h) => h,
        None => {
            return None;
        },
    };
    proof {
        reveal_strlit(">; rel=\"next\"");
    }
    let n = h.unicode_len();
    let mut end = n;
    proof {
        assert(h@.take(n as int) =~= h@);
    }
    while end >= 13 && ends_with_str(h.substring_char(0, end), ">; rel=\"next\"")
        invariant
            n == h@.len(),
            0 <= end <= n,
            spec_trim_next(h@) == spec_trim_next(h@.take(end as int)),
        decreases end,
    {
        proof {
            reveal_strlit(">; rel=\"next\"");
            let cur = h@.take(end as int);
            assert(cur.take(cur.len() - 13) =~= h@.take(end - 13));
        }
        end = end - 13;
    }
    proof {
        reveal_strlit(">; rel=\"next\"");
        let cur = h@.take(end as int);
        if spec_ends_with(cur, ">; rel=\"next\""@) {
            assert(cur.len() >= 13);
            assert(end >= 13);
        }
        assert(spec_trim_next(cur) == cur);
    }
    let t = h.substring_char(0, end);
    proof {
        assert(t@ == h@.take(end as int));
    }
    let tn = end;
    let i = match find_substr(t, "next_page=") {
        Some(i) => i,
        None => {
            return None;
        },
    };
    proof {
        reveal_strlit("next_page=");
    }
    let params = t.substring_char(i + 10, tn);
    proof {
        assert(params@ =~= t@.skip(i + "next_page="@.len()));
    }
    if params.unicode_len() == 0 {
        return None;
    }
    let cut = match find_char(params, '&') {
        Some(j) => {
            let c = substr_to_string(params, 0, j);
            proof {
                assert(c@ =~= params@.take(j as int));
            }
            c
        },
        None => String::from_str(params),
    };
    if cut.as_str().unicode_len() == 0 {
        return None;
    }
    Some(cut)
}

/// The URL of one listing page: the endpoint, a `n` page-size
/// parameter when one was requested, and the `next_page` cursor when
/// one is being followed.
pub fn list_page_url(base_ep: &str, paginate: Option<u32>, cursor: Option<&String>) -> (r:
    String)
    ensures
        r@ == (match (paginate, cursor) {
            (Some(p), None) => base_ep@ + "?n="@ + spec_dec_digits(p as nat),
            (None, Some(l)) => base_ep@ + "?next_page="@ + l@,
            (Some(p), Some(l)) => base_ep@ + "?n="@ + spec_dec_digits(p as nat)
                + "&next_page="@ + l@,
            (None, None) => base_ep@,
        }),
{
    let mut r = String::from_str(base_ep);
    match (paginate, cursor) {
        (Some(p), None) => {
            r.append("?n=");
            let d = u32_to_dec_string(p);
            r.append(d.as_str());
        },
        (None, Some(l)) => {
            r.append("?next_page=");
            r.append(l.as_str());
        },
        (Some(p), Some(l)) => {
            r.append("?n=");
            let d = u32_to_dec_string(p);
            r.append(d.as_str());
            r.append("&next_page=");
            r.append(l.as_str());
        },
        (None, None) => {},
    }
    r
}

/// Where a listing stream stands: about to fetch a page (the first
/// when no cursor is held), or finished.
#[derive(Debug, Clone)]
pub enum ListState {
    /// Fetch the next page, following the held cursor if any.
    Fetch(Option<String>),
    /// The stream has ended.
    Done,
}

/// The state a fresh listing starts in: fetch the first page.
pub fn list_start() -> (r: ListState)
    ensures
        r matches ListState::Fetch(c) && c is None,
{
    ListState::Fetch(None)
}

/// Advance the stream after a page arrived: follow the `Link` cursor
/// when the response carries one, end the stream otherwise.
pub fn next_list_state(link_header: Option<&str>) -> (r: ListState)
    ensures
        match link_header {
            None => r is Done,
            Some(h) => match spec_link_cursor(h@) {
                None => r is Done,
                Some(c) => r matches ListState::Fetch(cur) && cur matches Some(cs) && cs@
                    == c,
            },
        },
{
    match parse_link(link_header) {
        Some(c) => ListState::Fetch(Some(c)),
        None => ListState::Done,
    }
}

/// A listing page may only be consumed when the server answered with
/// a success status.
pub fn interpret_page_status(status: u16) -> (r: Result<(), Error>)
    ensures
        200 <= status < 300 ==> r is Ok,
        !(200 <= status < 300) ==> r == Err::<(), Error>(Error::UnexpectedHttpStatus(status)),
{
    if 200 <= status && status < 300 {
        Ok(())
    } else {
        Err(Error::UnexpectedHttpStatus(status))
    }
}

/// The views of a sequence of item pages.
pub open spec fn spec_pages_view(pages: Seq<Vec<String>>) -> Seq<Seq<String>> {
    pages.map_values(|p: Vec<String>| p@)
}

/// A listing stream delivers, in order, exactly the concatenation of
/// the items of its pages: nothing reordered, nothing dropped,
/// nothing added.
pub fn collect_list_pages(pages: &Vec<Vec<String>>) -> (r: Vec<String>)
    ensures
        r@ == spec_pages_view(pages@).flatten(),
{
    let mut out: Vec<String> = Vec::new();
    let n = pages.len();
    let mut i: usize = 0;
    proof {
        assert(spec_pages_view(pages@.take(0)).flatten() =~= Seq::<String>::empty());
    }
    while i < n
        invariant
            n == pages@.len(),
            0 <= i <= n,
            out@ == spec_pages_view(pages@.take(i as int)).flatten(),
        decreases n - i,
    {
        let page = &pages[i];
        let m = page.len();
        let mut j: usize = 0;
        while j < m
            invariant
                n == pages@.len(),
                0 <= i < n,
                m == pages@[i as int]@.len(),
                page == &pages@[i as int],
                0 <= j <= m,
                out@ == spec_pages_view(pages@.take(i as int)).flatten()
                    + pages@[i as int]@.take(j as int),
            decreases m - j,
        {
            out.push(page[j].clone());
            proof {
                assert(pages@[i as int]@.take(j + 1) =~= pages@[i as int]@.take(
                    j as int,
                ).push(pages@[i as int]@[j as int]));
            }
            j += 1;
        }
        proof {
            spec_pages_view(pages@.take(i as int)).lemma_flatten_push(pages@[i as int]@);
            assert(pages@.take(i + 1) =~= pages@.take(i as int).push(pages@[i as int]));
            assert(spec_pages_view(pages@.take(i + 1)) =~= spec_pages_view(
                pages@.take(i as int),
            ).push(pages@[i as int]@));
            assert(pages@[i as int]@.take(m as int) =~= pages@[i as int]@);
        }
        i += 1;
    }
    proof {
        assert(pages@.take(n as int) =~= pages@);
    }
    out
}

} // verus!
