//! The CBOR subset that CTAP2 messages use: definite-length unsigned and
//! negative integers, byte and text strings, arrays, maps and booleans.
//! Encoders state the exact bytes they produce; readers state the header
//! grammar they accept and that they always advance.

use vstd::prelude::*;

verus! {

pub const MAJOR_UINT: u8 = 0;
pub const MAJOR_NINT: u8 = 1;
pub const MAJOR_BSTR: u8 = 2;
pub const MAJOR_TSTR: u8 = 3;
pub const MAJOR_ARRAY: u8 = 4;
pub const MAJOR_MAP: u8 = 5;
pub const MAJOR_TAG: u8 = 6;
pub const MAJOR_SIMPLE: u8 = 7;

/// The encoded header for a major type and an argument up to 0xFFFF.
pub open spec fn spec_hdr(major: u8, n: nat) -> Seq<u8>
    recommends
        major < 8,
        n <= 0xFFFF,
{
    if n < 24 {
        seq![(major * 32 + n) as u8]
    } else if n < 256 {
        seq![(major * 32 + 24) as u8, n as u8]
    } else {
        seq![(major * 32 + 25) as u8, (n / 256) as u8, (n % 256) as u8]
    }
}

/// Append the header for (major, n).
pub fn push_hdr(v: &mut Vec<u8>, major: u8, n: usize)
    requires
        major < 8,
        n <= 0xFFFF,
    ensures
        final(v)@ == old(v)@ + spec_hdr(major, n as nat),
{
    if n < 24 {
        v.push(major * 32 + (n as u8));
    } else if n < 256 {
        v.push(major * 32 + 24);
        v.push(n as u8);
    } else {
        v.push(major * 32 + 25);
        v.push((n / 256) as u8);
        v.push((n % 256) as u8);
    }
    proof {
        assert(v@ =~= old(v)@ + spec_hdr(major, n as nat));
    }
}

/// Append a byte string.
pub fn push_bstr(v: &mut Vec<u8>, bytes: &[u8])
    requires
        bytes@.len() <= 0xFFFF,
    ensures
        final(v)@ == old(v)@ + spec_hdr(MAJOR_BSTR, bytes@.len()) + bytes@,
{
    push_hdr(v, MAJOR_BSTR, bytes.len());
    crate::ctaphid::extend_from_range(v, bytes, 0, bytes.len());
    proof {
        assert(bytes@.subrange(0, bytes@.len() as int) =~= bytes@);
    }
}

// ------------------------------------------------------------------
// Reading.
// ------------------------------------------------------------------

/// The header grammar the readers accept: a major type and an argument of
/// at most four additional bytes, definite lengths only.  Yields (major,
/// argument, position of the content).
pub open spec fn spec_read_hdr(s: Seq<u8>, pos: int) -> Option<(u8, nat, int)> {
    if 0 <= pos < s.len() {
        let major = s[pos] / 32;
        let ai = s[pos] % 32;
        if ai < 24 {
            Some((major, ai as nat, pos + 1))
        } else if ai == 24 && pos + 2 <= s.len() {
            Some((major, s[pos + 1] as nat, pos + 2))
        } else if ai == 25 && pos + 3 <= s.len() {
            Some((major, (s[pos + 1] as nat) * 256 + s[pos + 2] as nat, pos + 3))
        } else if ai == 26 && pos + 5 <= s.len() {
            Some(
                (
                    major,
                    ((s[pos + 1] as nat) * 0x1000000) + ((s[pos + 2] as nat) * 0x10000) + ((s[pos
                        + 3] as nat) * 0x100) + s[pos + 4] as nat,
                    pos + 5,
                ),
            )
        } else {
            None
        }
    } else {
        None
    }
}

/// The unsigned-integer item at `pos`, if one stands there.
pub open spec fn spec_uint_at(s: Seq<u8>, pos: int) -> Option<nat> {
    match spec_read_hdr(s, pos) {
        Some((major, n, cp)) => if major == MAJOR_UINT {
            Some(n)
        } else {
            None
        },
        None => None,
    }
}

/// The byte-string item at `pos`, if one stands there whole.
pub open spec fn spec_bstr_at(s: Seq<u8>, pos: int) -> Option<Seq<u8>> {
    match spec_read_hdr(s, pos) {
        Some((major, n, cp)) => if major == MAJOR_BSTR && n <= 0xFFFF && cp + n <= s.len() {
            Some(s.subrange(cp, cp + n))
        } else {
            None
        },
        None => None,
    }
}

/// The text-string item at `pos`, if one stands there whole.
pub open spec fn spec_tstr_at(s: Seq<u8>, pos: int) -> Option<Seq<u8>> {
    match spec_read_hdr(s, pos) {
        Some((major, n, cp)) => if major == MAJOR_TSTR && n <= 0xFFFF && cp + n <= s.len() {
            Some(s.subrange(cp, cp + n))
        } else {
            None
        },
        None => None,
    }
}

/// Where the data item at `pos` ends; `None` when no whole item of the
/// accepted grammar stands there.
pub open spec fn spec_skip(s: Seq<u8>, pos: int) -> Option<int>
    decreases s.len() - pos, 0int,
{
    if pos < 0 || pos >= s.len() {
        None
    } else {
        let major = s[pos] / 32;
        let ai = s[pos] % 32;
        if major == MAJOR_SIMPLE {
            if ai < 24 {
                Some(pos + 1)
            } else if ai == 24 && pos + 2 <= s.len() {
                Some(pos + 2)
            } else if ai == 25 && pos + 3 <= s.len() {
                Some(pos + 3)
            } else if ai == 26 && pos + 5 <= s.len() {
                Some(pos + 5)
            } else if ai == 27 && pos + 9 <= s.len() {
                Some(pos + 9)
            } else {
                None
            }
        } else {
            match spec_read_hdr(s, pos) {
                None => None,
                Some((m, n, cp)) => if major == MAJOR_UINT || major == MAJOR_NINT {
                    Some(cp)
                } else if major == MAJOR_BSTR || major == MAJOR_TSTR {
                    if n <= 0xFFFF && cp + n <= s.len() {
                        Some(cp + n)
                    } else {
                        None
                    }
                } else if major == MAJOR_ARRAY {
                    if n <= 0xFFFF && cp > pos {
                        spec_skip_n(s, cp, n as int)
                    } else {
                        None
                    }
                } else if major == MAJOR_MAP {
                    if n <= 0x7FFF && cp > pos {
                        spec_skip_n(s, cp, 2 * (n as int))
                    } else {
                        None
                    }
                } else {
                    // Tag: one nested item.
                    if cp > pos {
                        spec_skip(s, cp)
                    } else {
                        None
                    }
                },
            }
        }
    }
}

/// Where `n` consecutive data items starting at `pos` end.
pub open spec fn spec_skip_n(s: Seq<u8>, pos: int, n: int) -> Option<int>
    decreases s.len() - pos, n,
{
    if n <= 0 {
        Some(pos)
    } else {
        match spec_skip(s, pos) {
            None => None,
            Some(p2) => if pos < p2 <= s.len() {
                spec_skip_n(s, p2, n - 1)
            } else {
                None
            },
        }
    }
}

/// Scan `count` map entries from `pos` for the unsigned key `key`;
/// yields the position of its value.
pub open spec fn spec_find_entry(s: Seq<u8>, pos: int, count: int, key: nat) -> Option<int>
    decreases s.len() - pos, count,
{
    if count <= 0 {
        None
    } else {
        let is_match = match spec_read_hdr(s, pos) {
            Some((m, v, _)) => m == MAJOR_UINT && v == key,
            None => false,
        };
        match spec_skip(s, pos) {
            None => None,
            Some(after_key) => if !(pos < after_key <= s.len()) {
                None
            } else if is_match {
                if after_key < s.len() {
                    Some(after_key)
                } else {
                    None
                }
            } else {
                match spec_skip(s, after_key) {
                    None => None,
                    Some(after_value) => if !(after_key < after_value <= s.len()) {
                        None
                    } else {
                        spec_find_entry(s, after_value, count - 1, key)
                    },
                }
            },
        }
    }
}

/// The position of the value for the unsigned key `key` in the map at
/// `map_pos`.
pub open spec fn spec_find_uint_key(s: Seq<u8>, map_pos: int, key: nat) -> Option<int> {
    match spec_read_hdr(s, map_pos) {
        Some((major, n, cp)) => if major == MAJOR_MAP && n <= 0xFFFF {
            spec_find_entry(s, cp, n as int, key)
        } else {
            None
        },
        None => None,
    }
}

/// Scan `count` map entries from `pos` for the text key `key`.
pub open spec fn spec_find_text_entry(s: Seq<u8>, pos: int, count: int, key: Seq<u8>) -> Option<
    int,
>
    decreases s.len() - pos, count,
{
    if count <= 0 {
        None
    } else {
        let is_match = match spec_tstr_at(s, pos) {
            Some(t) => t == key,
            None => false,
        };
        match spec_skip(s, pos) {
            None => None,
            Some(after_key) => if !(pos < after_key <= s.len()) {
                None
            } else if is_match {
                if after_key < s.len() {
                    Some(after_key)
                } else {
                    None
                }
            } else {
                match spec_skip(s, after_key) {
                    None => None,
                    Some(after_value) => if !(after_key < after_value <= s.len()) {
                        None
                    } else {
                        spec_find_text_entry(s, after_value, count - 1, key)
                    },
                }
            },
        }
    }
}

/// The position of the value for the text key `key` in the map at
/// `map_pos`.
pub open spec fn spec_find_text_key(s: Seq<u8>, map_pos: int, key: Seq<u8>) -> Option<int> {
    match spec_read_hdr(s, map_pos) {
        Some((major, n, cp)) => if major == MAJOR_MAP && n <= 0xFFFF {
            spec_find_text_entry(s, cp, n as int, key)
        } else {
            None
        },
        None => None,
    }
}

/// The credential ids of `count` allowList entries starting at `pos`:
/// each entry is a map whose "id" value is a byte string; the entry's
/// end is found by skipping the whole map.
pub open spec fn spec_cred_ids(s: Seq<u8>, pos: int, count: int) -> Option<Seq<Seq<u8>>>
    decreases count,
{
    if count <= 0 {
        Some(Seq::empty())
    } else {
        match spec_find_text_key(s, pos, seq![0x69u8, 0x64]) {
            None => None,
            Some(cid_pos) => match spec_bstr_at(s, cid_pos) {
                None => None,
                Some(id) => match spec_skip(s, pos) {
                    None => None,
                    Some(next) => match spec_cred_ids(s, next, count - 1) {
                        Some(rest) => Some(seq![id] + rest),
                        None => None,
                    },
                },
            },
        }
    }
}

/// Read one header.
pub fn read_hdr(s: &[u8], pos: usize) -> (r: Option<(u8, u64, usize)>)
    ensures
        match r {
            Some((major, n, p2)) => spec_read_hdr(s@, pos as int) == Some(
                (major, n as nat, p2 as int),
            ) && pos < p2 <= s@.len() && major < 8,
            None => spec_read_hdr(s@, pos as int) is None,
        },
{
    if pos >= s.len() {
        return None;
    }
    let b = s[pos];
    let major = b / 32;
    let ai = b % 32;
    if ai < 24 {
        Some((major, ai as u64, pos + 1))
    } else if ai == 24 && s.len() - pos >= 2 {
        Some((major, s[pos + 1] as u64, pos + 2))
    } else if ai == 25 && s.len() - pos >= 3 {
        Some((major, (s[pos + 1] as u64) * 256 + (s[pos + 2] as u64), pos + 3))
    } else if ai == 26 && s.len() - pos >= 5 {
        Some(
            (
                major,
                (s[pos + 1] as u64) * 0x1000000 + (s[pos + 2] as u64) * 0x10000 + (s[pos + 3]
                    as u64) * 0x100 + (s[pos + 4] as u64),
                pos + 5,
            ),
        )
    } else {
        None
    }
}

/// Read an unsigned integer item.
pub fn read_uint(s: &[u8], pos: usize) -> (r: Option<(u64, usize)>)
    ensures
        match r {
            Some((n, p2)) => spec_read_hdr(s@, pos as int) == Some(
                (MAJOR_UINT, n as nat, p2 as int),
            ) && spec_uint_at(s@, pos as int) == Some(n as nat) && pos < p2 <= s@.len(),
            None => spec_uint_at(s@, pos as int) is None,
        },
{
    match read_hdr(s, pos) {
        Some((major, n, p2)) => if major == MAJOR_UINT {
            Some((n, p2))
        } else {
            None
        },
        None => None,
    }
}

/// Read a byte-string item and copy its bytes out.
pub fn read_bstr(s: &[u8], pos: usize) -> (r: Option<(Vec<u8>, usize)>)
    ensures
        match r {
            Some((v, p2)) => pos < p2 <= s@.len() && spec_bstr_at(s@, pos as int) == Some(v@)
                && spec_skip(s@, pos as int) == Some(p2 as int),
            None => spec_bstr_at(s@, pos as int) is None,
        },
{
    match read_hdr(s, pos) {
        Some((major, n, cp)) => {
            if major != MAJOR_BSTR {
                return None;
            }
            if n > 0xFFFF || (n as usize) > s.len() - cp {
                return None;
            }
            let end = cp + (n as usize);
            let mut v: Vec<u8> = Vec::new();
            crate::ctaphid::extend_from_range(&mut v, s, cp, end);
            proof {
                let nn = n as nat;
                let cpi = cp as int;
                assert(spec_read_hdr(s@, pos as int) == Some((MAJOR_BSTR, nn, cpi)) && end as int
                    == cpi + nn && v@ == s@.subrange(cpi, cpi + nn));
            }
            Some((v, end))
        },
        None => None,
    }
}

/// Read a text-string item and copy its UTF-8 bytes out.
pub fn read_tstr(s: &[u8], pos: usize) -> (r: Option<(Vec<u8>, usize)>)
    ensures
        match r {
            Some((v, p2)) => pos < p2 <= s@.len() && spec_tstr_at(s@, pos as int) == Some(v@)
                && spec_skip(s@, pos as int) == Some(p2 as int),
            None => spec_tstr_at(s@, pos as int) is None,
        },
{
    match read_hdr(s, pos) {
        Some((major, n, cp)) => {
            if major != MAJOR_TSTR {
                return None;
            }
            if n > 0xFFFF || (n as usize) > s.len() - cp {
                return None;
            }
            let end = cp + (n as usize);
            let mut v: Vec<u8> = Vec::new();
            crate::ctaphid::extend_from_range(&mut v, s, cp, end);
            proof {
                let nn = n as nat;
                let cpi = cp as int;
                assert(spec_read_hdr(s@, pos as int) == Some((MAJOR_TSTR, nn, cpi)) && end as int
                    == cpi + nn && v@ == s@.subrange(cpi, cpi + nn));
            }
            Some((v, end))
        },
        None => None,
    }
}

/// Skip one data item (any major type, definite lengths only).
pub fn skip_value(s: &[u8], pos: usize) -> (r: Option<usize>)
    ensures
        match r {
            Some(p2) => pos < p2 <= s@.len() && spec_skip(s@, pos as int) == Some(p2 as int),
            None => spec_skip(s@, pos as int) is None,
        },
    decreases s@.len() - pos, 0int,
{
    if pos >= s.len() {
        return None;
    }
    let b = s[pos];
    let major = b / 32;
    let ai = b % 32;
    if major == MAJOR_SIMPLE {
        // Simple values and floats: fixed widths.
        if ai < 24 {
            Some(pos + 1)
        } else if ai == 24 && s.len() - pos >= 2 {
            Some(pos + 2)
        } else if ai == 25 && s.len() - pos >= 3 {
            Some(pos + 3)
        } else if ai == 26 && s.len() - pos >= 5 {
            Some(pos + 5)
        } else if ai == 27 && s.len() - pos >= 9 {
            Some(pos + 9)
        } else {
            None
        }
    } else {
        match read_hdr(s, pos) {
            None => None,
            Some((_, n, cp)) => {
                if major == MAJOR_UINT || major == MAJOR_NINT {
                    Some(cp)
                } else if major == MAJOR_BSTR || major == MAJOR_TSTR {
                    if n <= 0xFFFF && (n as usize) <= s.len() - cp {
                        Some(cp + (n as usize))
                    } else {
                        None
                    }
                } else if major == MAJOR_ARRAY {
                    if n <= 0xFFFF {
                        skip_items(s, cp, n as usize)
                    } else {
                        None
                    }
                } else if major == MAJOR_MAP {
                    if n <= 0x7FFF {
                        skip_items(s, cp, 2 * (n as usize))
                    } else {
                        None
                    }
                } else {
                    // Tag: one nested item.
                    skip_value(s, cp)
                }
            },
        }
    }
}

/// Skip `n` consecutive data items starting at `pos`.
pub fn skip_items(s: &[u8], pos: usize, n: usize) -> (r: Option<usize>)
    requires
        pos <= s@.len(),
    ensures
        match r {
            Some(p2) => pos <= p2 <= s@.len() && (n > 0 ==> pos < p2) && spec_skip_n(
                s@,
                pos as int,
                n as int,
            ) == Some(p2 as int),
            None => spec_skip_n(s@, pos as int, n as int) is None,
        },
    decreases s@.len() - pos, n,
{
    if n == 0 {
        return Some(pos);
    }
    match skip_value(s, pos) {
        None => None,
        Some(p2) => skip_items(s, p2, n - 1),
    }
}

/// In the definite-length map starting at `map_pos`, find the position of
/// the value whose key is the unsigned integer `key`.
pub fn find_uint_key(s: &[u8], map_pos: usize, key: u64) -> (r: Option<usize>)
    ensures
        match r {
            Some(vpos) => map_pos < vpos < s@.len() && spec_find_uint_key(
                s@,
                map_pos as int,
                key as nat,
            ) == Some(vpos as int),
            None => spec_find_uint_key(s@, map_pos as int, key as nat) is None,
        },
{
    let (major, n, cp) = match read_hdr(s, map_pos) {
        Some(h) => h,
        None => {
            return None;
        },
    };
    if major != MAJOR_MAP || n > 0xFFFF {
        return None;
    }
    let count = n as usize;
    let mut p: usize = cp;
    let mut i: usize = 0;
    while i < count
        invariant
            map_pos < p <= s@.len(),
            i <= count,
            spec_find_entry(s@, p as int, count - i, key as nat) == spec_find_uint_key(
                s@,
                map_pos as int,
                key as nat,
            ),
        decreases count - i,
    {
        let is_match = match read_uint(s, p) {
            Some((k, _)) => k == key,
            None => false,
        };
        let after_key = match skip_value(s, p) {
            Some(q) => q,
            None => {
                return None;
            },
        };
        if is_match {
            if after_key < s.len() {
                return Some(after_key);
            }
            return None;
        }
        let after_value = match skip_value(s, after_key) {
            Some(q) => q,
            None => {
                return None;
            },
        };
        proof {
            assert(spec_find_entry(s@, p as int, count - i, key as nat) == spec_find_entry(
                s@,
                after_value as int,
                count - i - 1,
                key as nat,
            ));
        }
        p = after_value;
        i = i + 1;
    }
    None
}

/// In the definite-length map starting at `map_pos`, find the position of
/// the value whose key is the text string with UTF-8 bytes `key`.
pub fn find_text_key(s: &[u8], map_pos: usize, key: &[u8]) -> (r: Option<usize>)
    ensures
        match r {
            Some(vpos) => map_pos < vpos < s@.len() && spec_find_text_key(
                s@,
                map_pos as int,
                key@,
            ) == Some(vpos as int),
            None => spec_find_text_key(s@, map_pos as int, key@) is None,
        },
{
    let (major, n, cp) = match read_hdr(s, map_pos) {
        Some(h) => h,
        None => {
            return None;
        },
    };
    if major != MAJOR_MAP || n > 0xFFFF {
        return None;
    }
    let count = n as usize;
    let mut p: usize = cp;
    let mut i: usize = 0;
    while i < count
        invariant
            map_pos < p <= s@.len(),
            i <= count,
            spec_find_text_entry(s@, p as int, count - i, key@) == spec_find_text_key(
                s@,
                map_pos as int,
                key@,
            ),
        decreases count - i,
    {
        let is_match = match read_tstr(s, p) {
            Some((k, _)) => slices_equal(k.as_slice(), key),
            None => false,
        };
        let after_key = match skip_value(s, p) {
            Some(q) => q,
            None => {
                return None;
            },
        };
        if is_match {
            if after_key < s.len() {
                return Some(after_key);
            }
            return None;
        }
        let after_value = match skip_value(s, after_key) {
            Some(q) => q,
            None => {
                return None;
            },
        };
        proof {
            assert(spec_find_text_entry(s@, p as int, count - i, key@) == spec_find_text_entry(
                s@,
                after_value as int,
                count - i - 1,
                key@,
            ));
        }
        p = after_value;
        i = i + 1;
    }
    None
}

/// Byte-for-byte equality of two slices.
pub fn slices_equal(a: &[u8], b: &[u8]) -> (r: bool)
    ensures
        r == (a@ == b@),
{
    if a.len() != b.len() {
        proof {
            assert(a@.len() != b@.len());
        }
        return false;
    }
    let mut i: usize = 0;
    while i < a.len()
        invariant
            i <= a@.len() == b@.len(),
            forall|j: int| 0 <= j < i ==> a@[j] == b@[j],
        decreases a@.len() - i,
    {
        if a[i] != b[i] {
            return false;
        }
        i = i + 1;
    }
    proof {
        assert(a@ =~= b@);
    }
    true
}

} // verus!
