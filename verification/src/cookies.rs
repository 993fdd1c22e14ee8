//! The `Cookie` header of a request, written out from the cookies that
//! a cookie jar holds for its URL.
use crate::request_items::pairs_view;
use vstd::prelude::*;
use vstd::string::StringExecFns;

verus! {

/// The cookies as `name=value`, with `; ` between each two.
pub open spec fn cookie_line(cookies: Seq<(Seq<char>, Seq<char>)>) -> Seq<char>
    decreases cookies.len(),
{
    if cookies.len() == 0 {
        Seq::empty()
    } else {
        let last = cookies.last().0 + "="@ + cookies.last().1;
        if cookies.len() == 1 {
            last
        } else {
            cookie_line(cookies.drop_last()) + "; "@ + last
        }
    }
}

/// The value of the `Cookie` header for the given cookies, each with
/// its name and value; `None` where there are no cookies.
pub fn cookie_header(cookies: &Vec<(String, String)>) -> (header: Option<String>)
    ensures
        match header {
            Some(line) => cookies@.len() > 0 && line@ == cookie_line(pairs_view(cookies@)),
            None => cookies@.len() == 0,
        },
{
    if cookies.len() == 0 {
        return None;
    }
    let ghost pairs = pairs_view(cookies@);
    let mut line = String::from_str(cookies[0].0.as_str());
    line.append("=");
    line.append(cookies[0].1.as_str());
    let mut i: usize = 1;
    while i < cookies.len()
        invariant
            1 <= i <= cookies.len(),
            pairs == pairs_view(cookies@),
            line@ == cookie_line(pairs.take(i as int)),
        decreases cookies.len() - i,
    {
        assert(pairs.take(i + 1).drop_last() =~= pairs.take(i as int));
        line.append("; ");
        line.append(cookies[i].0.as_str());
        line.append("=");
        line.append(cookies[i].1.as_str());
        i += 1;
    }
    assert(pairs.take(i as int) =~= pairs);
    Some(line)
}

} // verus!
