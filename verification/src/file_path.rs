//! Which file names a local object store accepts.
//!
//! A file name that ends in `#` followed only by digits is refused: such suffixes are reserved
//! for multipart uploads in progress.

use vstd::prelude::*;
use vstd::string::StringSliceAdditionalSpecFns;

verus! {

/// All bytes are ASCII digits.
pub open spec fn all_ascii_digits(s: Seq<u8>) -> bool {
    forall|i: int| 0 <= i < s.len() ==> 0x30 <= #[trigger] s[i] <= 0x39
}

/// The index of the first `#` in `s`, if there is one.
pub open spec fn first_hash(s: Seq<u8>) -> Option<int> {
    if exists|i: int| 0 <= i < s.len() && s[i] == 0x23u8 {
        Some(choose|i: int| 0 <= i < s.len() && s[i] == 0x23u8 && forall|j: int| 0 <= j < i ==> s[j] != 0x23u8)
    } else {
        None
    }
}

/// A file name is valid unless the part after its first `#` is non-empty and all digits; a
/// path without a file name is invalid.
pub open spec fn spec_is_valid_file_name(filename: Option<Seq<u8>>) -> bool {
    match filename {
        None => false,
        Some(f) => match first_hash(f) {
            None => true,
            Some(k) => {
                let suffix = f.subrange(k + 1, f.len() as int);
                suffix.len() == 0 || !all_ascii_digits(suffix)
            },
        },
    }
}

/// Returns whether a path with this file name (its last segment, if it has one) may be stored.
pub fn is_valid_file_path(filename: Option<&str>) -> (r: bool)
    ensures
        r == spec_is_valid_file_name(
            match filename {
                Some(f) => Some(f.spec_bytes()),
                None => None,
            },
        ),
{
    let f = match filename {
        None => return false,
        Some(f) => f.as_bytes(),
    };
    let n = f.len();
    let mut k: usize = 0;
    while k < n
        invariant
            n == f@.len(),
            k <= n,
            forall|j: int| 0 <= j < k ==> f@[j] != 0x23u8,
        ensures
            k <= n,
            k < n ==> f@[k as int] == 0x23u8,
            forall|j: int| 0 <= j < k ==> f@[j] != 0x23u8,
        decreases n - k,
    {
        if f[k] == 0x23u8 {
            break;
        }
        k = k + 1;
    }
    if k == n {
        proof {
            assert(!(exists|i: int| 0 <= i < f@.len() && f@[i] == 0x23u8));
        }
        return true;
    }
    proof {
        assert(f@[k as int] == 0x23u8);
        let c = choose|i: int| 0 <= i < f@.len() && f@[i] == 0x23u8 && forall|j: int| 0 <= j < i ==> f@[j] != 0x23u8;
        assert(c == k as int) by {
            if c < k {
                assert(f@[c] != 0x23u8);
            }
            if c > k {
                assert(f@[k as int] != 0x23u8);
            }
        }
        assert(first_hash(f@) == Some(k as int));
    }
    let ghost suffix = f@.subrange(k + 1, n as int);
    if k + 1 == n {
        return true;
    }
    let mut i: usize = k + 1;
    while i < n
        invariant
            n == f@.len(),
            k + 1 <= i <= n,
            suffix == f@.subrange(k + 1, n as int),
            filename is Some && filename.unwrap().spec_bytes() == f@,
            first_hash(f@) == Some(k as int),
            forall|j: int| k + 1 <= j < i ==> 0x30 <= #[trigger] f@[j] <= 0x39,
        decreases n - i,
    {
        if !(0x30u8 <= f[i] && f[i] <= 0x39u8) {
            proof {
                assert(suffix[i - (k + 1)] == f@[i as int]);
                assert(!(0x30 <= suffix[i - (k + 1)] <= 0x39));
            }
            return true;
        }
        i = i + 1;
    }
    proof {
        assert forall|j: int| 0 <= j < suffix.len() implies 0x30 <= #[trigger] suffix[j] <= 0x39 by {
            assert(suffix[j] == f@[j + k + 1]);
        }
    }
    false
}

} // verus!
