use vstd::prelude::*;

verus! {

/// Index of the last '/' in `p`, or -1 when none occurs.
pub open spec fn last_slash(p: Seq<char>) -> int
    decreases p.len(),
{
    if p.len() == 0 {
        -1
    } else if p.last() == '/' {
        p.len() - 1
    } else {
        last_slash(p.drop_last())
    }
}

/// The parent of a canonical absolute path: the text before its last '/',
/// or the root for a direct child of the root. The root itself, and any
/// path without a '/', has none.
pub open spec fn parent_seq(p: Seq<char>) -> Option<Seq<char>> {
    if p.len() <= 1 || last_slash(p) < 0 {
        None
    } else if last_slash(p) == 0 {
        Some(p.take(1))
    } else {
        Some(p.take(last_slash(p)))
    }
}

/// The parent directory of `p`, as `parent_seq` describes it.
pub fn parent_of(p: &str) -> (r: Option<String>)
    ensures
        parent_seq(p@) is None ==> r is None,
        parent_seq(p@) matches Some(v) ==> (r matches Some(s) && s@ == v),
{
    let n = p.unicode_len();
    if n <= 1 {
        return None;
    }
    let mut j: usize = n;
    proof {
        assert(p@.take(n as int) =~= p@);
    }
    while j > 0 && p.get_char(j - 1) != '/'
        invariant
            j <= n,
            n == p@.len(),
            last_slash(p@) == last_slash(p@.take(j as int)),
        decreases j,
    {
        proof {
            assert(p@.take(j as int).last() == p@[j as int - 1]);
            assert(p@.take(j as int).drop_last() =~= p@.take(j as int - 1));
        }
        j = j - 1;
    }
    if j == 0 {
        proof {
            assert(p@.take(0) =~= Seq::<char>::empty());
        }
        None
    } else {
        proof {
            assert(p@.take(j as int).last() == p@[j as int - 1]);
            assert(last_slash(p@) == j - 1);
        }
        if j == 1 {
            let r = String::from_str(p.substring_char(0, 1));
            proof {
                assert(r@ =~= p@.take(1));
            }
            Some(r)
        } else {
            let r = String::from_str(p.substring_char(0, j - 1));
            proof {
                assert(r@ =~= p@.take(j - 1));
            }
            Some(r)
        }
    }
}

/// The path stored in the synthetic parent entry: the directory, "/", "..".
pub fn join_dotdot(dir: &str) -> (r: String)
    ensures
        r@ == dir@ + "/.."@,
{
    String::from_str(dir).concat("/..")
}

} // verus!
