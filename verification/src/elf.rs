//! The elf-counting route: non-overlapping, left-to-right substring counts
//! over the raw bytes of the request body.

use vstd::prelude::*;

verus! {

/// The bytes of `"elf"`.
pub open spec fn elf_pat() -> Seq<u8> {
    seq![101u8, 108u8, 102u8]
}

/// The bytes of `"elf on a shelf"`.
pub open spec fn elf_on_a_shelf_pat() -> Seq<u8> {
    seq![101u8, 108u8, 102u8, 32u8, 111u8, 110u8, 32u8, 97u8, 32u8, 115u8, 104u8, 101u8, 108u8,
        102u8]
}

/// The bytes of `"shelf"`.
pub open spec fn shelf_pat() -> Seq<u8> {
    seq![115u8, 104u8, 101u8, 108u8, 102u8]
}

/// The bytes of `" elf on a "`, the ten bytes that make a `"shelf"` part of
/// an `"elf on a shelf"`.
pub open spec fn elf_on_a_prefix() -> Seq<u8> {
    seq![32u8, 101u8, 108u8, 102u8, 32u8, 111u8, 110u8, 32u8, 97u8, 32u8]
}

/// The pattern occurs in the text at position `i`.
pub open spec fn matches_at(text: Seq<u8>, pat: Seq<u8>, i: int) -> bool {
    0 <= i && i + pat.len() <= text.len() && text.subrange(i, i + pat.len()) == pat
}

/// How many times the pattern occurs at or after position `i`, scanning left
/// to right and skipping past each occurrence found (non-overlapping).
pub open spec fn count_matches_from(text: Seq<u8>, pat: Seq<u8>, i: int) -> nat
    decreases text.len() - i,
    when 0 <= i && pat.len() > 0
{
    if i + pat.len() > text.len() {
        0
    } else if matches_at(text, pat, i) {
        1 + count_matches_from(text, pat, i + pat.len())
    } else {
        count_matches_from(text, pat, i + 1)
    }
}

/// How many times the pattern occurs in the text, counted non-overlapping,
/// left to right.
pub open spec fn count_occurrences(text: Seq<u8>, pat: Seq<u8>) -> nat {
    count_matches_from(text, pat, 0)
}

/// A `"shelf"` occurs at `i` and is not immediately preceded by the exact
/// text `" elf on a "`.
pub open spec fn lonely_shelf_at(text: Seq<u8>, i: int) -> bool {
    matches_at(text, shelf_pat(), i) && !(i >= 10 && text.subrange(i - 10, i)
        == elf_on_a_prefix())
}

/// How many occurrences of `"shelf"` at or after position `i` (scanning as
/// `count_matches_from` does) lack the preceding `" elf on a "`.
pub open spec fn count_lonely_from(text: Seq<u8>, i: int) -> nat
    decreases text.len() - i,
    when 0 <= i
{
    if i + 5 > text.len() {
        0
    } else if matches_at(text, shelf_pat(), i) {
        (if lonely_shelf_at(text, i) {
            1nat
        } else {
            0nat
        }) + count_lonely_from(text, i + 5)
    } else {
        count_lonely_from(text, i + 1)
    }
}

/// How many occurrences of `"shelf"` in the text are not immediately
/// preceded by `" elf on a "`.
pub open spec fn count_lonely_shelves_spec(text: Seq<u8>) -> nat {
    count_lonely_from(text, 0)
}

/// Whether the pattern occurs in the text at position `i`.
fn slice_matches_at(text: &[u8], pat: &[u8], i: usize) -> (b: bool)
    requires
        i <= text@.len(),
    ensures
        b == matches_at(text@, pat@, i as int),
{
    let tlen = text.len();
    if pat.len() > tlen - i {
        return false;
    }
    let mut k: usize = 0;
    while k < pat.len()
        invariant
            tlen == text@.len(),
            i + pat@.len() <= text@.len(),
            k <= pat@.len(),
            forall|m: int| 0 <= m < k ==> text@[i + m] == #[trigger] pat@[m],
        decreases pat@.len() - k,
    {
        proof {
            assert(i + k < text@.len());
        }
        if text[i + k] != pat[k] {
            proof {
                assert(text@.subrange(i as int, i + pat@.len())[k as int] == text@[i + k]);
            }
            return false;
        }
        k += 1;
    }
    proof {
        assert(text@.subrange(i as int, i + pat@.len()) =~= pat@);
    }
    true
}

/// Count the non-overlapping, left-to-right occurrences of the pattern.
fn count_occurrences_in(text: &[u8], pat: &[u8]) -> (n: usize)
    requires
        pat@.len() > 0,
    ensures
        n == count_occurrences(text@, pat@),
{
    let tlen = text.len();
    let mut i: usize = 0;
    let mut n: usize = 0;
    while i < tlen
        invariant
            tlen == text@.len(),
            i <= text@.len(),
            n <= i,
            pat@.len() > 0,
            n + count_matches_from(text@, pat@, i as int) == count_occurrences(text@, pat@),
        decreases text@.len() - i,
    {
        if slice_matches_at(text, pat, i) {
            n += 1;
            i += pat.len();
        } else {
            i += 1;
        }
    }
    n
}

/// Count the occurrences of `"shelf"` that no `" elf on a "` precedes.
fn count_lonely_shelves(text: &[u8]) -> (n: usize)
    ensures
        n == count_lonely_shelves_spec(text@),
{
    let mut shelf: Vec<u8> = Vec::new();
    shelf.push(115);
    shelf.push(104);
    shelf.push(101);
    shelf.push(108);
    shelf.push(102);
    proof {
        assert(shelf@ =~= shelf_pat());
    }
    let mut prefix: Vec<u8> = Vec::new();
    prefix.push(32);
    prefix.push(101);
    prefix.push(108);
    prefix.push(102);
    prefix.push(32);
    prefix.push(111);
    prefix.push(110);
    prefix.push(32);
    prefix.push(97);
    prefix.push(32);
    proof {
        assert(prefix@ =~= elf_on_a_prefix());
    }
    let tlen = text.len();
    let mut i: usize = 0;
    let mut n: usize = 0;
    while i < tlen
        invariant
            tlen == text@.len(),
            i <= text@.len(),
            n <= i,
            shelf@ == shelf_pat(),
            prefix@ == elf_on_a_prefix(),
            n + count_lonely_from(text@, i as int) == count_lonely_shelves_spec(text@),
        decreases text@.len() - i,
    {
        if slice_matches_at(text, &shelf, i) {
            let preceded = if i >= 10 {
                slice_matches_at(text, &prefix, i - 10)
            } else {
                false
            };
            proof {
                assert(preceded == !lonely_shelf_at(text@, i as int));
            }
            if !preceded {
                n += 1;
            }
            i += 5;
        } else {
            i += 1;
        }
    }
    n
}

/// The counts the elf route reports. The two optional counts are omitted
/// from a response when they are absent here.
pub struct ElfCount {
    pub elf: usize,
    pub elf_on_a_shelf: Option<usize>,
    pub shelf_with_no_elf: Option<usize>,
}

/// Count `"elf"` occurrences, `"elf on a shelf"` occurrences, and `"shelf"`
/// occurrences with no `" elf on a "` before them. The second count is
/// reported only when it is nonzero; the third only when the second is zero
/// and it is itself nonzero, so it is omitted whenever the second is present,
/// whatever its own value.
pub fn elf_counter(text: &[u8]) -> (r: ElfCount)
    ensures
        r.elf == count_occurrences(text@, elf_pat()),
        (match r.elf_on_a_shelf {
            Option::Some(c) => count_occurrences(text@, elf_on_a_shelf_pat()) == c && c != 0,
            Option::None => count_occurrences(text@, elf_on_a_shelf_pat()) == 0,
        }),
        (match r.shelf_with_no_elf {
            Option::Some(c) => count_occurrences(text@, elf_on_a_shelf_pat()) == 0
                && count_lonely_shelves_spec(text@) == c && c != 0,
            Option::None => count_occurrences(text@, elf_on_a_shelf_pat()) != 0
                || count_lonely_shelves_spec(text@) == 0,
        }),
{
    let mut elf: Vec<u8> = Vec::new();
    elf.push(101);
    elf.push(108);
    elf.push(102);
    proof {
        assert(elf@ =~= elf_pat());
    }
    let mut eos: Vec<u8> = Vec::new();
    eos.push(101);
    eos.push(108);
    eos.push(102);
    eos.push(32);
    eos.push(111);
    eos.push(110);
    eos.push(32);
    eos.push(97);
    eos.push(32);
    eos.push(115);
    eos.push(104);
    eos.push(101);
    eos.push(108);
    eos.push(102);
    proof {
        assert(eos@ =~= elf_on_a_shelf_pat());
    }
    let elf_count = count_occurrences_in(text, &elf);
    let eos_count = count_occurrences_in(text, &eos);
    let lonely_count = count_lonely_shelves(text);
    let elf_on_a_shelf = if eos_count == 0 {
        Option::None
    } else {
        Option::Some(eos_count)
    };
    let shelf_with_no_elf = if eos_count == 0 && lonely_count != 0 {
        Option::Some(lonely_count)
    } else {
        Option::None
    };
    ElfCount { elf: elf_count, elf_on_a_shelf, shelf_with_no_elf }
}

} // verus!
