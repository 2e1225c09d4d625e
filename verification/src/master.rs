//! The master record's naming scheme. The master post's single category is
//! named by the post's own identifier between fixed markers; the remote
//! service prefixes category titles with its own fixed bracket marker. To
//! rediscover the master post, the category titles are scanned for
//! prefix + decimal identifier + suffix, exactly.

use crate::numfmt::{
    char_val, dec_digits, dec_str, digits_val, is_digit, lemma_dec_digits_are_digits,
    lemma_dec_digits_len, lemma_digits_val_of_dec, pow10, u32_to_string,
};
use crate::numfmt::i32_to_string;
use vstd::prelude::*;

verus! {

/// The path key under which the master record keeps its own row.
pub fn master_blogs_cfg_key() -> (r: String)
    ensures
        r@ == "MASTER_CNBLOG_BLOGS_INFO_CFG"@,
{
    String::from_str("MASTER_CNBLOG_BLOGS_INFO_CFG")
}

/// The title the master record's post carries.
pub fn master_title() -> (r: String)
    ensures
        r@ == "[CNBLOG]BLOGS_INFO_CFG"@,
{
    String::from_str("[CNBLOG]BLOGS_INFO_CFG")
}

/// The category name owned by the master record: its post identifier in
/// decimal, followed by the fixed marker.
pub fn master_category_name(postid: i32) -> (r: String)
    ensures
        r@ == dec_str(postid as int) + "[CNBLOG]"@,
{
    let mut out = i32_to_string(postid);
    out.append("[CNBLOG]");
    out
}

/// A category title names the master post `id` when it is exactly the
/// service's category prefix, the canonical decimal digits of `id`, and the
/// fixed marker suffix.
pub open spec fn is_master_title(t: Seq<char>, id: int) -> bool {
    0 <= id <= i32::MAX && t == "[随笔分类]"@ + dec_digits(id as nat) + "[CNBLOG]"@
}

/// The digit value of a character, if it is one.
fn char_to_digit(c: char) -> (r: Option<u32>)
    ensures
        match r {
            Some(d) => is_digit(c) && d < 10 && d as nat == char_val(c),
            None => !is_digit(c),
        },
{
    match c {
        '0' => Some(0),
        '1' => Some(1),
        '2' => Some(2),
        '3' => Some(3),
        '4' => Some(4),
        '5' => Some(5),
        '6' => Some(6),
        '7' => Some(7),
        '8' => Some(8),
        '9' => Some(9),
        _ => None,
    }
}

/// What the naming scheme forces on a matching title: its length, its
/// prefix and suffix characters, and that the characters between them are
/// the canonical digits of the identifier.
proof fn lemma_master_structure(t: Seq<char>, id: int)
    requires
        is_master_title(t, id),
    ensures
        15 <= t.len() <= 24,
        t.len() == 14 + dec_digits(id as nat).len(),
        forall|i: int| 0 <= i < 6 ==> t[i] == "[随笔分类]"@[i],
        forall|j: int| 0 <= j < 8 ==> t[t.len() - 8 + j] == "[CNBLOG]"@[j],
        dec_digits(id as nat) == t.subrange(6, t.len() - 8),
        forall|q: int|
            0 <= q < t.len() - 14 ==> is_digit(#[trigger] t.subrange(6, t.len() - 8)[q]),
        digits_val(t.subrange(6, t.len() - 8)) == id,
{
    reveal_strlit("[随笔分类]");
    reveal_strlit("[CNBLOG]");
    lemma_dec_digits_len(id as nat);
    lemma_digits_val_of_dec(id as nat);
    lemma_dec_digits_are_digits(id as nat);
    assert(dec_digits(id as nat) =~= t.subrange(6, t.len() - 8));
}

/// Ten to the `k` is positive.
proof fn lemma_pow10_pos(k: nat)
    ensures
        1 <= pow10(k),
    decreases k,
{
    if k > 0 {
        lemma_pow10_pos((k - 1) as nat);
    }
}

/// Ten to the power is monotone in the exponent.
proof fn lemma_pow10_mono(a: nat, b: nat)
    requires
        a <= b,
    ensures
        pow10(a) <= pow10(b),
    decreases b,
{
    if a < b {
        lemma_pow10_mono(a, (b - 1) as nat);
        lemma_pow10_pos((b - 1) as nat);
        assert(pow10(b) == 10 * pow10((b - 1) as nat));
    }
}

/// Parse one category title against the master naming scheme. Returns the
/// identifier exactly when the title is the scheme's rendering of it.
pub fn master_postid_of_title(title: &str) -> (r: Option<i32>)
    ensures
        match r {
            Some(id) => is_master_title(title@, id as int),
            None => forall|id: int| !is_master_title(title@, id),
        },
{
    proof {
        reveal_strlit("[随笔分类]");
        reveal_strlit("[CNBLOG]");
    }
    let prefix = "[随笔分类]";
    let suffix = "[CNBLOG]";
    let ghost p = prefix@;
    let ghost s = suffix@;
    let n = title.unicode_len();

    if n < 15 || n > 24 {
        proof {
            assert forall|id: int| !is_master_title(title@, id) by {
                if is_master_title(title@, id) {
                    lemma_master_structure(title@, id);
                }
            }
        }
        return None;
    }
    let mid_len = n - 14;

    // The prefix must stand at the start.
    let mut i: usize = 0;
    while i < 6
        invariant
            n == title@.len(),
            15 <= n <= 24,
            p == "[随笔分类]"@,
            p == prefix@,
            p.len() == 6,
            i <= 6,
            forall|k: int| 0 <= k < i ==> title@[k] == p[k],
        decreases 6 - i,
    {
        if title.get_char(i) != prefix.get_char(i) {
            proof {
                assert forall|id: int| !is_master_title(title@, id) by {
                    if is_master_title(title@, id) {
                        lemma_master_structure(title@, id);
                    }
                }
            }
            return None;
        }
        i += 1;
    }

    // The suffix must stand at the end.
    let mut j: usize = 0;
    while j < 8
        invariant
            n == title@.len(),
            15 <= n <= 24,
            s == "[CNBLOG]"@,
            s == suffix@,
            s.len() == 8,
            j <= 8,
            forall|k: int| 0 <= k < j ==> title@[n - 8 + k] == s[k],
        decreases 8 - j,
    {
        if title.get_char(n - 8 + j) != suffix.get_char(j) {
            proof {
                assert forall|id: int| !is_master_title(title@, id) by {
                    if is_master_title(title@, id) {
                        lemma_master_structure(title@, id);
                    }
                }
            }
            return None;
        }
        j += 1;
    }

    // Between them stand only digits; read their value.
    let ghost mid = title@.subrange(6, n - 8);
    let mut value: u64 = 0;
    let mut k: usize = 0;
    while k < mid_len
        invariant
            n == title@.len(),
            15 <= n <= 24,
            mid_len == n - 14,
            mid == title@.subrange(6, n as int - 8),
            k <= mid_len,
            forall|q: int| 0 <= q < k ==> is_digit(#[trigger] mid[q]),
            value as nat == digits_val(mid.take(k as int)),
            value < pow10(k as nat),
        decreases mid_len - k,
    {
        proof {
            lemma_pow10_mono(k as nat, 9);
            assert(pow10(0) == 1);
            assert(pow10(1) == 10);
            assert(pow10(2) == 100);
            assert(pow10(3) == 1000);
            assert(pow10(4) == 10000);
            assert(pow10(5) == 100000);
            assert(pow10(6) == 1000000);
            assert(pow10(7) == 10000000);
            assert(pow10(8) == 100000000);
            assert(pow10(9) == 1000000000);
            assert(pow10((k + 1) as nat) == 10 * pow10(k as nat));
        }
        let c = title.get_char(6 + k);
        proof {
            assert(mid[k as int] == title@[6 + k]);
        }
        match char_to_digit(c) {
            Some(d) => {
                proof {
                    assert(mid.take(k + 1).drop_last() =~= mid.take(k as int));
                    assert(mid.take(k + 1).last() == mid[k as int]);
                }
                value = value * 10 + (d as u64);
            },
            None => {
                proof {
                    assert forall|id: int| !is_master_title(title@, id) by {
                        if is_master_title(title@, id) {
                            lemma_master_structure(title@, id);
                        }
                    }
                }
                return None;
            },
        }
        k += 1;
    }
    proof {
        assert(mid.take(mid_len as int) =~= mid);
    }

    // The value must fit a post identifier, and its canonical rendering must
    // be exactly the digits seen: this rejects leading zeros.
    if value > 0x7fff_ffff {
        proof {
            assert forall|id: int| !is_master_title(title@, id) by {
                if is_master_title(title@, id) {
                    lemma_master_structure(title@, id);
                }
            }
        }
        return None;
    }
    let narrow: u32 = value as u32;
    let rendered = u32_to_string(narrow);
    let rlen = rendered.as_str().unicode_len();
    if rlen != mid_len {
        proof {
            assert forall|id: int| !is_master_title(title@, id) by {
                if is_master_title(title@, id) {
                    lemma_master_structure(title@, id);
                }
            }
        }
        return None;
    }
    let mut q: usize = 0;
    while q < mid_len
        invariant
            n == title@.len(),
            15 <= n <= 24,
            mid_len == n - 14,
            mid == title@.subrange(6, n as int - 8),
            rendered@ == dec_digits(narrow as nat),
            rendered@.len() == mid_len,
            narrow as nat == digits_val(mid),
            narrow <= 0x7fff_ffff,
            q <= mid_len,
            forall|w: int| 0 <= w < q ==> rendered@[w] == mid[w],
        decreases mid_len - q,
    {
        let c1 = rendered.as_str().get_char(q);
        let c2 = title.get_char(6 + q);
        proof {
            assert(mid[q as int] == title@[6 + q]);
        }
        if c1 != c2 {
            proof {
                assert forall|id: int| !is_master_title(title@, id) by {
                    if is_master_title(title@, id) {
                        lemma_master_structure(title@, id);
                        assert(rendered@[q as int] == mid[q as int]);
                    }
                }
            }
            return None;
        }
        q += 1;
    }
    proof {
        reveal_strlit("[随笔分类]");
        reveal_strlit("[CNBLOG]");
        assert(rendered@ =~= mid);
        assert(title@ =~= p + mid + s);
        assert(is_master_title(title@, narrow as int));
    }
    Some(narrow as i32)
}

/// Scan the category titles for the master record's category and return the
/// identifier it names; the first matching title wins.
pub fn try_get_master_postid(titles: &Vec<String>) -> (r: Option<i32>)
    ensures
        match r {
            Some(id) => exists|k: int|
                0 <= k < titles@.len() && is_master_title(#[trigger] titles@[k]@, id as int) && (
                forall|j: int, id2: int|
                    0 <= j < k ==> !(#[trigger] is_master_title(titles@[j]@, id2))),
            None => forall|k: int, id: int|
                0 <= k < titles@.len() ==> !(#[trigger] is_master_title(titles@[k]@, id)),
        },
{
    let mut k: usize = 0;
    while k < titles.len()
        invariant
            k <= titles@.len(),
            forall|j: int, id: int| 0 <= j < k ==> !(#[trigger] is_master_title(titles@[j]@, id)),
        decreases titles@.len() - k,
    {
        match master_postid_of_title(titles[k].as_str()) {
            Some(id) => {
                return Some(id);
            },
            None => {},
        }
        k += 1;
    }
    None
}

} // verus!
