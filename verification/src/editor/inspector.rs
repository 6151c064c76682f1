//! The inspector's list of component types that can be added: the registered type names that
//! contain the filter text, compared without regard to case, in alphabetical order.

use vstd::prelude::*;

verus! {

/// The text that `str::to_lowercase` gives for `text`.
pub uninterp spec fn lowercase_text(text: Seq<char>) -> Seq<char>;

/// Lower-cases a text with `str::to_lowercase`.
///
/// Trusted: the result is `lowercase_text` of the text; which characters change, and into
/// what, is the Unicode mapping of the standard library and is not stated here.
#[verifier::external_body]
fn to_lowercase(text: &str) -> (res: String)
    ensures
        res@ == lowercase_text(text@),
{
    text.to_lowercase()
}

/// `needle` occurs in `text` as a run of consecutive characters.
pub open spec fn has_substring(text: Seq<char>, needle: Seq<char>) -> bool {
    exists|i: int| 0 <= i <= text.len() - needle.len() && #[trigger] text.subrange(i, i + needle.len()) == needle
}

/// `a` comes before `b`, or is equal to it, in the order of texts: character by character by
/// code point, a text before every longer text it starts. (The order of `str` compares the
/// UTF-8 bytes, which orders texts the same way.)
pub open spec fn text_le(a: Seq<char>, b: Seq<char>) -> bool
    decreases a.len(),
{
    if a.len() == 0 {
        true
    } else if b.len() == 0 {
        false
    } else if (a[0] as u32) < (b[0] as u32) {
        true
    } else if (a[0] as u32) == (b[0] as u32) {
        text_le(a.drop_first(), b.drop_first())
    } else {
        false
    }
}

/// A type named `name` is listed for the filter `filter`: the lower-cased filter occurs in the
/// lower-cased name (an empty filter lists every type).
pub open spec fn listed_for(name: Seq<char>, filter: Seq<char>) -> bool {
    has_substring(lowercase_text(name), lowercase_text(filter))
}

/// Any two texts are ordered one way or the other.
pub proof fn lemma_text_le_total(a: Seq<char>, b: Seq<char>)
    ensures
        text_le(a, b) || text_le(b, a),
    decreases a.len(),
{
    if a.len() > 0 && b.len() > 0 && (a[0] as u32) == (b[0] as u32) {
        lemma_text_le_total(a.drop_first(), b.drop_first());
    }
}

/// The order of texts is transitive.
pub proof fn lemma_text_le_transitive(a: Seq<char>, b: Seq<char>, c: Seq<char>)
    requires
        text_le(a, b),
        text_le(b, c),
    ensures
        text_le(a, c),
    decreases a.len(),
{
    if a.len() > 0 && b.len() > 0 && c.len() > 0 && (a[0] as u32) == (b[0] as u32) && (b[0] as u32) == (c[0] as u32) {
        lemma_text_le_transitive(a.drop_first(), b.drop_first(), c.drop_first());
    }
}

/// Whether `needle` occurs in `text`.
fn contains_text(text: &str, needle: &str) -> (res: bool)
    ensures
        res == has_substring(text@, needle@),
{
    let n = text.unicode_len();
    let m = needle.unicode_len();
    if m > n {
        return false;
    }
    let mut i: usize = 0;
    while i <= n - m
        invariant
            n == text@.len(),
            m == needle@.len(),
            m <= n,
            i <= n - m + 1,
            forall|k: int| 0 <= k < i ==> #[trigger] text@.subrange(k, k + m) != needle@,
        decreases n - m + 1 - i,
    {
        let mut j: usize = 0;
        let mut same = true;
        while j < m && same
            invariant
                n == text@.len(),
                m == needle@.len(),
                i + m <= n,
                j <= m,
                same ==> forall|l: int| 0 <= l < j ==> text@[i + l] == needle@[l],
                !same ==> j > 0 && text@[i + j - 1] != needle@[j - 1],
            decreases m - j + (if same { 1int } else { 0int }),
        {
            if text.get_char(i + j) != needle.get_char(j) {
                same = false;
            }
            j = j + 1;
        }
        if same {
            assert(text@.subrange(i as int, i + m) =~= needle@);
            return true;
        }
        assert(text@.subrange(i as int, i + m)[j - 1] != needle@[j - 1]);
        i = i + 1;
    }
    proof {
        if has_substring(text@, needle@) {
            let k = choose|k: int| 0 <= k <= text@.len() - needle@.len() && #[trigger] text@.subrange(k, k + needle@.len())
                == needle@;
            assert(text@.subrange(k, k + m) != needle@);
        }
    }
    false
}

/// Whether `a` comes before `b` or equals it in the order of texts.
fn text_le_exec(a: &str, b: &str) -> (res: bool)
    ensures
        res == text_le(a@, b@),
{
    let n = a.unicode_len();
    let m = b.unicode_len();
    let mut i: usize = 0;
    assert(a@.skip(0) =~= a@ && b@.skip(0) =~= b@);
    while i < n && i < m
        invariant
            n == a@.len(),
            m == b@.len(),
            i <= n,
            i <= m,
            text_le(a@, b@) == text_le(a@.skip(i as int), b@.skip(i as int)),
        decreases n - i,
    {
        let x = a.get_char(i);
        let y = b.get_char(i);
        proof {
            assert(a@.skip(i as int)[0] == x);
            assert(b@.skip(i as int)[0] == y);
            assert(a@.skip(i as int).drop_first() =~= a@.skip(i + 1));
            assert(b@.skip(i as int).drop_first() =~= b@.skip(i + 1));
        }
        if (x as u32) < (y as u32) {
            return true;
        }
        if (x as u32) != (y as u32) {
            return false;
        }
        i = i + 1;
    }
    i == n
}

/// The component types to offer for adding: the positions in `type_names` of the names listed
/// for `filter`, each once, in the order of their names. Names that are equal keep the order
/// of `type_names`.
pub fn add_component_choices(type_names: &Vec<String>, filter: &str) -> (res: Vec<usize>)
    ensures
        res@.no_duplicates(),
        forall|k: int| 0 <= k < res@.len() ==> #[trigger] res@[k] < type_names@.len(),
        forall|i: int| 0 <= i < type_names@.len() ==> (#[trigger] res@.contains(i as usize) <==> listed_for(
            type_names@[i]@,
            filter@,
        )),
        forall|a: int, b: int| 0 <= a < b < res@.len() ==> text_le(
            type_names@[res@[a] as int]@,
            type_names@[res@[b] as int]@,
        ),
{
    let lowered_filter = to_lowercase(filter);
    let mut res: Vec<usize> = Vec::new();
    let mut i: usize = 0;
    while i < type_names.len()
        invariant
            i <= type_names@.len(),
            lowered_filter@ == lowercase_text(filter@),
            res@.no_duplicates(),
            forall|k: int| 0 <= k < res@.len() ==> #[trigger] res@[k] < i,
            forall|j: int| 0 <= j < i ==> (#[trigger] res@.contains(j as usize) <==> listed_for(
                type_names@[j]@,
                filter@,
            )),
            forall|a: int, b: int| 0 <= a < b < res@.len() ==> text_le(
                type_names@[res@[a] as int]@,
                type_names@[res@[b] as int]@,
            ),
        decreases type_names@.len() - i,
    {
        let name = type_names[i].as_str();
        let lowered = to_lowercase(name);
        if contains_text(lowered.as_str(), lowered_filter.as_str()) {
            let mut p: usize = 0;
            let mut stop = false;
            while p < res.len() && !stop
                invariant
                    i < type_names@.len(),
                    name@ == type_names@[i as int]@,
                    p <= res@.len(),
                    forall|k: int| 0 <= k < res@.len() ==> #[trigger] res@[k] < i,
                    forall|k: int| 0 <= k < p && !(stop && k == p) ==> text_le(
                        type_names@[#[trigger] res@[k] as int]@,
                        type_names@[i as int]@,
                    ),
                    stop ==> p < res@.len() && !text_le(type_names@[res@[p as int] as int]@, type_names@[i as int]@),
                decreases res@.len() - p + (if stop { 0int } else { 1int }),
            {
                let other = type_names[res[p]].as_str();
                if text_le_exec(other, name) {
                    p = p + 1;
                } else {
                    stop = true;
                }
            }
            let ghost before = res@;
            res.insert(p, i);
            proof {
                let ni = type_names@[i as int]@;
                assert forall|a: int, b: int| 0 <= a < b < res@.len() implies text_le(
                    type_names@[res@[a] as int]@,
                    type_names@[res@[b] as int]@,
                ) by {
                    if a < p && b < p {
                        assert(res@[a] == before[a] && res@[b] == before[b]);
                    } else if a < p && b == p {
                        assert(res@[a] == before[a]);
                    } else if a < p {
                        assert(res@[a] == before[a] && res@[b] == before[b - 1]);
                        assert(text_le(type_names@[before[a] as int]@, ni));
                        if p < before.len() {
                            lemma_text_le_total(type_names@[before[p as int] as int]@, ni);
                            if p as int <= b - 1 {
                                if p as int != b - 1 {
                                    lemma_text_le_transitive(
                                        type_names@[before[a] as int]@,
                                        type_names@[before[p as int] as int]@,
                                        type_names@[before[b - 1] as int]@,
                                    );
                                }
                            }
                        }
                    } else if a == p {
                        assert(res@[b] == before[b - 1]);
                        lemma_text_le_total(type_names@[before[p as int] as int]@, ni);
                        if b - 1 != p {
                            lemma_text_le_transitive(
                                ni,
                                type_names@[before[p as int] as int]@,
                                type_names@[before[b - 1] as int]@,
                            );
                        }
                    } else {
                        assert(res@[a] == before[a - 1] && res@[b] == before[b - 1]);
                    }
                }
                assert forall|k: int| 0 <= k < res@.len() implies #[trigger] res@[k] < i + 1 by {
                    if k < p {
                        assert(res@[k] == before[k]);
                    } else if k > p {
                        assert(res@[k] == before[k - 1]);
                    }
                }
                assert(!before.contains(i)) by {
                    if before.contains(i) {
                        let k = choose|k: int| 0 <= k < before.len() && before[k] == i;
                        assert(before[k] < i);
                    }
                }
                assert forall|x: int, y: int| 0 <= x < res@.len() && 0 <= y < res@.len() && x != y implies res@[x]
                    != res@[y] by {
                    if x != p as int && y != p as int {
                        let bx = if x < p { x } else { x - 1 };
                        let by_ = if y < p { y } else { y - 1 };
                        assert(res@[x] == before[bx] && res@[y] == before[by_]);
                    } else if x == p as int {
                        let by_ = if y < p { y } else { y - 1 };
                        assert(res@[y] == before[by_]);
                        assert(before.contains(before[by_]));
                    } else {
                        let bx = if x < p { x } else { x - 1 };
                        assert(res@[x] == before[bx]);
                        assert(before.contains(before[bx]));
                    }
                }
                assert forall|j: int| 0 <= j < i + 1 implies (#[trigger] res@.contains(j as usize) <==> listed_for(
                    type_names@[j]@,
                    filter@,
                )) by {
                    if j < i {
                        if res@.contains(j as usize) {
                            let k = choose|k: int| 0 <= k < res@.len() && res@[k] == j as usize;
                            assert(k != p);
                            let bk = if k < p { k } else { k - 1 };
                            assert(before[bk] == j as usize);
                        }
                        if before.contains(j as usize) {
                            let k = choose|k: int| 0 <= k < before.len() && before[k] == j as usize;
                            let rk = if k < p { k } else { k + 1 };
                            assert(res@[rk] == j as usize);
                        }
                    } else {
                        assert(res@[p as int] == i);
                    }
                }
            }
        } else {
            proof {
                assert(!res@.contains(i)) by {
                    if res@.contains(i) {
                        let k = choose|k: int| 0 <= k < res@.len() && res@[k] == i;
                        assert(res@[k] < i);
                    }
                }
                assert forall|k: int| 0 <= k < res@.len() implies #[trigger] res@[k] < i + 1 by {
                }
            }
        }
        i = i + 1;
    }
    res
}

} // verus!
