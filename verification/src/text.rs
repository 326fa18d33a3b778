//! Plain character-sequence helpers: conversion of a string slice to a
//! character vector, and verified substring search.
use vstd::prelude::*;
use vstd::string::StrSliceExecFns;

verus! {

/// `sub` occurs in `s` starting exactly at index `i`.
pub open spec fn contains_at(s: Seq<char>, sub: Seq<char>, i: int) -> bool {
    &&& 0 <= i
    &&& i + sub.len() <= s.len()
    &&& s.subrange(i, i + sub.len() as int) == sub
}

/// `sub` occurs somewhere in `s`.
pub open spec fn contains_sub(s: Seq<char>, sub: Seq<char>) -> bool {
    exists|i: int| contains_at(s, sub, i)
}

/// The characters of a string slice, as a vector.
pub fn chars_of(s: &str) -> (r: Vec<char>)
    ensures
        r@ == s@,
{
    let n = s.unicode_len();
    let mut r: Vec<char> = Vec::new();
    let mut i: usize = 0;
    while i < n
        invariant
            n == s@.len(),
            i <= n,
            r@ == s@.subrange(0, i as int),
        decreases n - i,
    {
        r.push(s.get_char(i));
        i = i + 1;
        proof {
            assert(r@ =~= s@.subrange(0, i as int));
        }
    }
    proof {
        assert(r@ =~= s@);
    }
    r
}

/// Whether `pat` occurs in `hay` starting exactly at `i`.
pub fn match_at(hay: &Vec<char>, i: usize, pat: &Vec<char>) -> (r: bool)
    requires
        i <= hay@.len(),
    ensures
        r == contains_at(hay@, pat@, i as int),
{
    if pat.len() > hay.len() - i {
        proof {
            assert(!contains_at(hay@, pat@, i as int));
        }
        return false;
    }
    let n = hay.len();
    let mut j: usize = 0;
    while j < pat.len()
        invariant
            n == hay@.len(),
            i + pat@.len() <= hay@.len(),
            j <= pat@.len(),
            forall|k: int| 0 <= k < j ==> hay@[i + k] == pat@[k],
        decreases pat@.len() - j,
    {
        proof {
            assert(i + j < hay@.len());
        }
        let k = i + j;
        if hay[k] != pat[j] {
            proof {
                assert(hay@.subrange(i as int, i + pat@.len() as int)[j as int] == hay@[i + j]);
                assert(!contains_at(hay@, pat@, i as int));
            }
            return false;
        }
        j = j + 1;
    }
    proof {
        assert(hay@.subrange(i as int, i + pat@.len() as int) =~= pat@);
    }
    true
}

/// Search for the first occurrence of `pat` in `hay`.
pub fn find_sub(hay: &Vec<char>, pat: &Vec<char>) -> (r: Option<usize>)
    ensures
        r matches Some(i) ==> contains_at(hay@, pat@, i as int) && forall|k: int|
            0 <= k < i ==> !contains_at(hay@, pat@, k),
        r is None ==> !contains_sub(hay@, pat@),
{
    if pat.len() > hay.len() {
        proof {
            assert(forall|k: int| !contains_at(hay@, pat@, k));
        }
        return None;
    }
    let end = hay.len() - pat.len();
    let mut i: usize = 0;
    loop
        invariant
            pat@.len() <= hay@.len(),
            end == hay@.len() - pat@.len(),
            i <= end,
            forall|k: int| 0 <= k < i ==> !contains_at(hay@, pat@, k),
        decreases end - i,
    {
        if match_at(hay, i, pat) {
            return Some(i);
        }
        if i == end {
            proof {
                assert forall|k: int| !contains_at(hay@, pat@, k) by {
                    if 0 <= k <= end {
                    } else {
                        assert(!contains_at(hay@, pat@, k));
                    }
                }
            }
            return None;
        }
        i = i + 1;
    }
}

} // verus!
