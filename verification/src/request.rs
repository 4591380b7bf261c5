//! Parsing of the "source:destination" pair that selects the two copy
//! endpoints: well-formed exactly when the string holds a single colon.

use vstd::prelude::*;
use vstd::string::StrSliceExecFns;
use vstd::string::StringExecFns;

verus! {

/// Whether position `i` holds the only colon in `s`.
pub open spec fn only_colon_at(s: Seq<char>, i: int) -> bool {
    0 <= i < s.len() && s[i] == ':' && (forall|j: int|
        0 <= j < s.len() && j != i ==> s[j] != ':')
}

/// Split a "source:destination" specification into its two location
/// names. The split succeeds exactly when the string holds one single
/// colon; anything else — no colon, or several — is ill-formed and
/// yields nothing, so that endpoint resolution fails downstream.
pub fn parse_spec(s: &String) -> (r: Option<(String, String)>)
    ensures
        match r {
            Some(pair) => (exists|i: int| only_colon_at(s@, i)) && (forall|i: int|
                only_colon_at(s@, i) ==> pair.0@ == s@.take(i) && pair.1@ == s@.skip(i + 1)),
            None => !(exists|i: int| only_colon_at(s@, i)),
        },
{
    let st = s.as_str();
    let n = st.unicode_len();
    let mut count: usize = 0;
    let mut first: usize = 0;
    let mut second: usize = 0;
    let mut i: usize = 0;
    while i < n
        invariant
            st@ == s@,
            n == s@.len(),
            0 <= i <= n,
            count <= i,
            count == 0 ==> (forall|j: int| 0 <= j < i ==> s@[j] != ':'),
            count == 1 ==> first < i && s@[first as int] == ':' && (forall|j: int|
                0 <= j < i && j != first ==> s@[j] != ':'),
            count >= 2 ==> first < second < i && s@[first as int] == ':' && s@[second as int]
                == ':',
        decreases n - i,
    {
        if st.get_char(i) == ':' {
            if count == 0 {
                first = i;
            } else if count == 1 {
                second = i;
            }
            count = count + 1;
        }
        i += 1;
    }
    if count == 1 {
        let a = st.substring_char(0, first);
        let b = st.substring_char(first + 1, n);
        let pair = (String::from_str(a), String::from_str(b));
        proof {
            assert(only_colon_at(s@, first as int));
            assert(pair.0@ =~= s@.take(first as int));
            assert(pair.1@ =~= s@.skip(first as int + 1));
            assert forall|k: int| only_colon_at(s@, k) implies pair.0@ == s@.take(k) && pair.1@
                == s@.skip(k + 1) by {
                if k != first {
                    assert(s@[first as int] != ':');
                }
            }
        }
        Some(pair)
    } else if count == 0 {
        proof {
            assert forall|k: int| !only_colon_at(s@, k) by {
                if 0 <= k < s@.len() {
                    assert(s@[k] != ':');
                }
            }
        }
        None
    } else {
        proof {
            assert forall|k: int| !only_colon_at(s@, k) by {
                if only_colon_at(s@, k) {
                    if k != first {
                        assert(s@[first as int] != ':');
                    } else {
                        assert(s@[second as int] != ':');
                    }
                }
            }
        }
        None
    }
}

} // verus!
