//! Tags: short textual labels that plugins attach to their decisions.
//!
//! Semantically a tag list is a set; combination across plugins is set
//! union.  The combined form is kept deterministic: ascending lexicographic
//! order over the tags' characters, with duplicates collapsed.

use vstd::prelude::*;
use vstd::string::*;

verus! {

/// The outcome of comparing two tags character by character.
#[derive(Clone, Copy, Debug, PartialEq, Eq, Structural)]
pub enum TagOrd {
    /// The first tag sorts strictly before the second.
    Less,
    /// The two tags are the same sequence of characters.
    Equal,
    /// The first tag sorts strictly after the second.
    Greater,
}

/// Lexicographic comparison of two character sequences, by code point, with
/// a shorter prefix sorting first.
pub open spec fn spec_compare(a: Seq<char>, b: Seq<char>) -> TagOrd
    decreases a.len(),
{
    if a.len() == 0 && b.len() == 0 {
        TagOrd::Equal
    } else if a.len() == 0 {
        TagOrd::Less
    } else if b.len() == 0 {
        TagOrd::Greater
    } else if a[0] == b[0] {
        spec_compare(a.skip(1), b.skip(1))
    } else if (a[0] as u32) < (b[0] as u32) {
        TagOrd::Less
    } else {
        TagOrd::Greater
    }
}

/// Strict lexicographic order on tags.
pub open spec fn lex_lt(a: Seq<char>, b: Seq<char>) -> bool {
    spec_compare(a, b) == TagOrd::Less
}

/// Two characters with the same code point are the same character.
proof fn lemma_char_code_injective(c: char, d: char)
    requires
        c as u32 == d as u32,
    ensures
        c == d,
{
}

/// Comparison reports equality exactly on equal sequences.
pub proof fn lemma_compare_eq_iff(a: Seq<char>, b: Seq<char>)
    ensures
        (spec_compare(a, b) == TagOrd::Equal) <==> (a == b),
    decreases a.len(),
{
    if a.len() == 0 && b.len() == 0 {
        assert(a =~= b);
    } else if a.len() == 0 || b.len() == 0 {
    } else if a[0] != b[0] {
        assert(a != b);
    } else {
        lemma_compare_eq_iff(a.skip(1), b.skip(1));
        if spec_compare(a, b) == TagOrd::Equal {
            assert(a.skip(1) == b.skip(1));
            assert(a.len() == b.len());
            assert forall|i: int| 0 <= i < a.len() implies a[i] == b[i] by {
                if i >= 1 {
                    assert(a[i] == a.skip(1)[i - 1]);
                    assert(b[i] == b.skip(1)[i - 1]);
                }
            }
            assert(a =~= b);
        }
        if a == b {
            assert(a.skip(1) == b.skip(1));
        }
    }
}

/// Comparison is antisymmetric: the order of the arguments flips the strict
/// outcomes.
pub proof fn lemma_compare_flip(a: Seq<char>, b: Seq<char>)
    ensures
        (spec_compare(a, b) == TagOrd::Less) <==> (spec_compare(b, a) == TagOrd::Greater),
    decreases a.len(),
{
    if a.len() == 0 && b.len() == 0 {
    } else if a.len() == 0 || b.len() == 0 {
    } else if a[0] == b[0] {
        lemma_compare_flip(a.skip(1), b.skip(1));
    } else {
        // Distinct characters have distinct code points, so exactly one of
        // the two strict outcomes holds in each direction.
        if (a[0] as u32) == (b[0] as u32) {
            lemma_char_code_injective(a[0], b[0]);
        }
    }
}

/// The strict order on tags is transitive.
pub proof fn lemma_lex_trans(a: Seq<char>, b: Seq<char>, c: Seq<char>)
    requires
        lex_lt(a, b),
        lex_lt(b, c),
    ensures
        lex_lt(a, c),
    decreases a.len(),
{
    if a.len() == 0 {
        assert(c.len() > 0);
    } else {
        assert(b.len() > 0);
        assert(c.len() > 0);
        if a[0] == b[0] && b[0] == c[0] {
            lemma_lex_trans(a.skip(1), b.skip(1), c.skip(1));
        } else {
            // At least one head is a strict step; the remaining head pair
            // cannot be equal, or the code points would not be ordered.
            assert((a[0] as u32) <= (b[0] as u32));
            assert((b[0] as u32) <= (c[0] as u32));
            assert((a[0] as u32) < (c[0] as u32));
            assert(a[0] != c[0]);
        }
    }
}

/// A tag list is canonical when every earlier entry sorts strictly before
/// every later one; this covers both ascending order and distinctness.
pub open spec fn strictly_sorted(s: Seq<String>) -> bool {
    forall|i: int, j: int|
        0 <= i < j < s.len() ==> #[trigger] lex_lt(s[i]@, s[j]@)
}

/// The set of character sequences a tag list holds.
pub open spec fn tag_set(s: Seq<String>) -> Set<Seq<char>> {
    Set::new(|v: Seq<char>| exists|i: int| 0 <= i < s.len() && (#[trigger] s[i])@ == v)
}

/// The set of character sequences held anywhere in a group of tag lists.
pub open spec fn combined_tag_set(ls: Seq<Vec<String>>) -> Set<Seq<char>> {
    Set::new(
        |v: Seq<char>|
            exists|i: int, k: int|
                #![trigger ls[i]@[k]]
                0 <= i < ls.len() && 0 <= k < ls[i]@.len() && ls[i]@[k]@ == v,
    )
}

/// Inserting a tag into a list inserts its character sequence into the
/// list's set.
proof fn lemma_tag_set_insert(s: Seq<String>, j: int, t: String)
    requires
        0 <= j <= s.len(),
    ensures
        tag_set(s.insert(j, t)) == tag_set(s).insert(t@),
{
    let bigger = s.insert(j, t);
    assert forall|v: Seq<char>| tag_set(bigger).contains(v) implies tag_set(s).insert(
        t@,
    ).contains(v) by {
        let i = choose|i: int| 0 <= i < bigger.len() && (#[trigger] bigger[i])@ == v;
        if i < j {
            assert(s[i]@ == v);
        } else if i == j {
        } else {
            assert(s[i - 1]@ == v);
        }
    }
    assert forall|v: Seq<char>| tag_set(s).insert(t@).contains(v) implies tag_set(
        bigger,
    ).contains(v) by {
        if v == t@ {
            assert(bigger[j]@ == v);
        } else {
            let i = choose|i: int| 0 <= i < s.len() && (#[trigger] s[i])@ == v;
            if i < j {
                assert(bigger[i]@ == v);
            } else {
                assert(bigger[i + 1]@ == v);
            }
        }
    }
    assert(tag_set(bigger) =~= tag_set(s).insert(t@));
}

/// Compares two tags; the result mirrors [`spec_compare`] on their views.
pub fn compare_tags(a: &str, b: &str) -> (r: TagOrd)
    ensures
        r == spec_compare(a@, b@),
{
    let la = a.unicode_len();
    let lb = b.unicode_len();
    let mut i: usize = 0;
    proof {
        assert(a@.skip(0) =~= a@);
        assert(b@.skip(0) =~= b@);
    }
    while i < la && i < lb
        invariant
            i <= la,
            i <= lb,
            la == a@.len(),
            lb == b@.len(),
            spec_compare(a@, b@) == spec_compare(a@.skip(i as int), b@.skip(i as int)),
        decreases la - i,
    {
        let ca = a.get_char(i);
        let cb = b.get_char(i);
        proof {
            assert(a@.skip(i as int)[0] == a@[i as int]);
            assert(b@.skip(i as int)[0] == b@[i as int]);
        }
        if ca != cb {
            if (ca as u32) < (cb as u32) {
                return TagOrd::Less;
            } else {
                return TagOrd::Greater;
            }
        }
        proof {
            assert(a@.skip(i as int).skip(1) =~= a@.skip(i as int + 1));
            assert(b@.skip(i as int).skip(1) =~= b@.skip(i as int + 1));
        }
        i = i + 1;
    }
    proof {
        assert(a@.skip(i as int).len() == la - i);
        assert(b@.skip(i as int).len() == lb - i);
    }
    if la == lb {
        TagOrd::Equal
    } else if la < lb {
        TagOrd::Less
    } else {
        TagOrd::Greater
    }
}

/// Tests two strings for character-for-character equality.
pub fn str_eq(a: &str, b: &str) -> (r: bool)
    ensures
        r == (a@ == b@),
{
    let ord = compare_tags(a, b);
    proof {
        lemma_compare_eq_iff(a@, b@);
    }
    ord == TagOrd::Equal
}

/// The views of a list of strings.
pub open spec fn string_views(s: Seq<String>) -> Seq<Seq<char>> {
    s.map_values(|t: String| t@)
}

/// Copies a list of strings; the copy reads the same, entry for entry.
pub fn copy_strings(v: &Vec<String>) -> (r: Vec<String>)
    ensures
        string_views(r@) == string_views(v@),
{
    let mut r: Vec<String> = Vec::new();
    let mut i: usize = 0;
    while i < v.len()
        invariant
            0 <= i <= v@.len(),
            r@.len() == i,
            forall|k: int| 0 <= k < i ==> (#[trigger] r@[k])@ == v@[k]@,
        decreases v@.len() - i,
    {
        r.push(String::from_str((&v[i]).as_str()));
        i = i + 1;
    }
    proof {
        assert(string_views(r@) =~= string_views(v@));
    }
    r
}

/// Inserts a tag into a canonical tag list, keeping it canonical; the
/// list's set gains exactly that tag.
pub fn insert_tag(list: &mut Vec<String>, tag: &str)
    requires
        strictly_sorted(old(list)@),
    ensures
        strictly_sorted(final(list)@),
        tag_set(final(list)@) == tag_set(old(list)@).insert(tag@),
{
    let ghost orig = list@;
    let mut j: usize = 0;
    loop
        invariant
            strictly_sorted(list@),
            list@ == orig,
            0 <= j <= list@.len(),
            forall|k: int| 0 <= k < j ==> lex_lt((#[trigger] list@[k])@, tag@),
        ensures
            list@ == orig,
            0 <= j <= orig.len(),
            forall|k: int| 0 <= k < j ==> lex_lt((#[trigger] orig[k])@, tag@),
            j < orig.len() ==> spec_compare(orig[j as int]@, tag@) == TagOrd::Greater,
        decreases list@.len() - j,
    {
        if j >= list.len() {
            break;
        }
        let ord = compare_tags((&list[j]).as_str(), tag);
        if ord == TagOrd::Equal {
            proof {
                lemma_compare_eq_iff(list@[j as int]@, tag@);
                assert(tag_set(orig).contains(tag@));
                assert(tag_set(orig) =~= tag_set(orig).insert(tag@));
            }
            return ;
        }
        if ord == TagOrd::Greater {
            break;
        }
        j = j + 1;
    }
    // Either the scan ran off the end or `tag` sorts strictly before entry j.
    proof {
        if (j as int) < orig.len() {
            lemma_compare_flip(tag@, orig[j as int]@);
            assert(lex_lt(tag@, orig[j as int]@));
        }
    }
    let owned = String::from_str(tag);
    list.insert(j, owned);
    proof {
        lemma_tag_set_insert(orig, j as int, owned);
        let updated = list@;
        assert forall|x: int, y: int| 0 <= x < y < updated.len() implies lex_lt(
            (#[trigger] updated[x])@,
            (#[trigger] updated[y])@,
        ) by {
            if y < j {
                assert(updated[x] == orig[x] && updated[y] == orig[y]);
            } else if x < j && y == j {
                assert(updated[x] == orig[x]);
            } else if x < j && y > j {
                assert(updated[x] == orig[x] && updated[y] == orig[y - 1]);
                if y - 1 == j {
                    assert(lex_lt(updated[x]@, tag@));
                    assert(updated[y]@ == orig[j as int]@);
                    lemma_lex_trans(updated[x]@, tag@, updated[y]@);
                } else {
                    assert(lex_lt(orig[x]@, orig[y - 1]@));
                }
            } else if x == j {
                assert(updated[y] == orig[y - 1] && y - 1 >= j);
                if y - 1 == j {
                } else {
                    assert(lex_lt(orig[j as int]@, orig[y - 1]@));
                    lemma_lex_trans(tag@, orig[j as int]@, orig[y - 1]@);
                }
            } else {
                assert(updated[x] == orig[x - 1] && updated[y] == orig[y - 1]);
                assert(lex_lt(orig[x - 1]@, orig[y - 1]@));
            }
        }
    }
}

/// Folds a group of tag lists into one canonical list: ascending order,
/// duplicates collapsed, holding exactly the union of the inputs' tags.
pub fn combine_tags(lists: &Vec<Vec<String>>) -> (r: Vec<String>)
    ensures
        strictly_sorted(r@),
        tag_set(r@) == combined_tag_set(lists@),
{
    let mut acc: Vec<String> = Vec::new();
    let mut i: usize = 0;
    proof {
        assert(tag_set(acc@) =~= combined_prefix_set(lists@, 0, 0));
    }
    while i < lists.len()
        invariant
            0 <= i <= lists@.len(),
            strictly_sorted(acc@),
            tag_set(acc@) == combined_prefix_set(lists@, i as int, 0),
        decreases lists@.len() - i,
    {
        let mut k: usize = 0;
        proof {
            assert(combined_prefix_set(lists@, i as int, 0) =~= combined_prefix_set(
                lists@,
                i as int,
                0,
            ));
        }
        while k < lists[i].len()
            invariant
                0 <= i < lists@.len(),
                0 <= k <= lists@[i as int]@.len(),
                strictly_sorted(acc@),
                tag_set(acc@) == combined_prefix_set(lists@, i as int, k as int),
            decreases lists@[i as int]@.len() - k,
        {
            insert_tag(&mut acc, (&lists[i][k]).as_str());
            k = k + 1;
            proof {
                assert(combined_prefix_set(lists@, i as int, k as int) =~= combined_prefix_set(
                    lists@,
                    i as int,
                    k as int - 1,
                ).insert(lists@[i as int]@[k as int - 1]@));
            }
        }
        i = i + 1;
        proof {
            assert(combined_prefix_set(lists@, i as int, 0) =~= combined_prefix_set(
                lists@,
                i as int - 1,
                lists@[i as int - 1]@.len() as int,
            ));
        }
    }
    proof {
        assert(combined_tag_set(lists@) =~= combined_prefix_set(lists@, lists@.len() as int, 0));
    }
    acc
}

/// The tags held by the lists before position `li`, together with the first
/// `kj` entries of the list at `li`.
pub open spec fn combined_prefix_set(ls: Seq<Vec<String>>, li: int, kj: int) -> Set<Seq<char>> {
    Set::new(
        |v: Seq<char>|
            exists|i: int, k: int|
                #![trigger ls[i]@[k]]
                0 <= i < ls.len() && 0 <= k < ls[i]@.len() && (i < li || (i == li && k < kj))
                    && ls[i]@[k]@ == v,
    )
}

/// A tag never sorts before itself.
proof fn lemma_lex_irreflexive(a: Seq<char>)
    ensures
        !lex_lt(a, a),
{
    lemma_compare_eq_iff(a, a);
}

/// Dropping the head of a canonical list leaves a canonical list.
proof fn lemma_sorted_skip(s: Seq<String>)
    requires
        s.len() > 0,
        strictly_sorted(s),
    ensures
        strictly_sorted(s.skip(1)),
{
    let t = s.skip(1);
    assert forall|i: int, j: int| 0 <= i < j < t.len() implies lex_lt(
        (#[trigger] t[i])@,
        (#[trigger] t[j])@,
    ) by {
        assert(t[i] == s[i + 1] && t[j] == s[j + 1]);
        assert(lex_lt(s[i + 1]@, s[j + 1]@));
    }
}

/// The head of a canonical list is not among the rest of it.
proof fn lemma_head_not_in_tail(s: Seq<String>)
    requires
        s.len() > 0,
        strictly_sorted(s),
    ensures
        !tag_set(s.skip(1)).contains(s[0]@),
{
    let t = s.skip(1);
    if tag_set(t).contains(s[0]@) {
        let i = choose|i: int| 0 <= i < t.len() && (#[trigger] t[i])@ == s[0]@;
        assert(t[i] == s[i + 1]);
        assert(lex_lt(s[0]@, s[i + 1]@));
        lemma_lex_irreflexive(s[0]@);
    }
}

/// Dropping the head of a canonical list removes exactly its tag from the
/// set.
proof fn lemma_tag_set_skip(s: Seq<String>)
    requires
        s.len() > 0,
        strictly_sorted(s),
    ensures
        tag_set(s.skip(1)) == tag_set(s).remove(s[0]@),
{
    let t = s.skip(1);
    lemma_head_not_in_tail(s);
    assert forall|v: Seq<char>| tag_set(t).contains(v) implies tag_set(s).remove(
        s[0]@,
    ).contains(v) by {
        let i = choose|i: int| 0 <= i < t.len() && (#[trigger] t[i])@ == v;
        assert(s[i + 1]@ == v);
    }
    assert forall|v: Seq<char>| tag_set(s).remove(s[0]@).contains(v) implies tag_set(t).contains(
        v,
    ) by {
        let i = choose|i: int| 0 <= i < s.len() && (#[trigger] s[i])@ == v;
        assert(i != 0);
        assert(t[i - 1]@ == v);
    }
    assert(tag_set(t) =~= tag_set(s).remove(s[0]@));
}

/// Two canonical tag lists holding the same tags read the same, entry for
/// entry: sorting and collapsing duplicates is a canonical form, so tag
/// combination cannot depend on the order its inputs arrive in.
pub proof fn lemma_canonical_form_unique(x: Seq<String>, y: Seq<String>)
    requires
        strictly_sorted(x),
        strictly_sorted(y),
        tag_set(x) == tag_set(y),
    ensures
        string_views(x) == string_views(y),
    decreases x.len(),
{
    if x.len() == 0 {
        if y.len() > 0 {
            assert(tag_set(y).contains(y[0]@));
            assert(tag_set(x).contains(y[0]@));
            let i = choose|i: int| 0 <= i < x.len() && (#[trigger] x[i])@ == y[0]@;
        }
        assert(string_views(x) =~= string_views(y));
    } else {
        assert(tag_set(x).contains(x[0]@));
        assert(tag_set(y).contains(x[0]@));
        let j = choose|j: int| 0 <= j < y.len() && (#[trigger] y[j])@ == x[0]@;
        assert(tag_set(y).contains(y[0]@));
        assert(tag_set(x).contains(y[0]@));
        let i = choose|i: int| 0 <= i < x.len() && (#[trigger] x[i])@ == y[0]@;
        // The two heads name the least tag of the same set, so they are
        // the same tag.
        if j > 0 {
            assert(lex_lt(y[0]@, y[j]@));
            if i > 0 {
                assert(lex_lt(x[0]@, x[i]@));
                lemma_lex_trans(y[0]@, x[0]@, x[i]@);
                lemma_lex_irreflexive(y[0]@);
            } else {
                lemma_lex_irreflexive(y[0]@);
            }
        }
        assert(x[0]@ == y[0]@);
        lemma_sorted_skip(x);
        lemma_sorted_skip(y);
        lemma_tag_set_skip(x);
        lemma_tag_set_skip(y);
        assert(tag_set(x.skip(1)) =~= tag_set(y.skip(1)));
        lemma_canonical_form_unique(x.skip(1), y.skip(1));
        assert(string_views(x.skip(1)).len() == string_views(y.skip(1)).len());
        assert(x.len() == y.len());
        assert forall|k: int| 0 <= k < x.len() implies string_views(x)[k] == string_views(
            y,
        )[k] by {
            if k > 0 {
                assert(string_views(x.skip(1))[k - 1] == string_views(y.skip(1))[k - 1]);
                assert(x.skip(1)[k - 1] == x[k]);
                assert(y.skip(1)[k - 1] == y[k]);
            }
        }
        assert(string_views(x) =~= string_views(y));
    }
}

/// Tag combination is idempotent: a group that lists the same tag list
/// twice holds the same tags as the group that lists it once.
pub proof fn lemma_tag_union_idempotent(l: Vec<String>)
    ensures
        combined_tag_set(seq![l, l]) == combined_tag_set(seq![l]),
{
    let twice = seq![l, l];
    let once = seq![l];
    assert forall|v: Seq<char>| combined_tag_set(twice).contains(v) implies combined_tag_set(
        once,
    ).contains(v) by {
        let (i, k) = choose|i: int, k: int|
            #![trigger twice[i]@[k]]
            0 <= i < twice.len() && 0 <= k < twice[i]@.len() && twice[i]@[k]@ == v;
        assert(once[0]@[k]@ == v);
    }
    assert forall|v: Seq<char>| combined_tag_set(once).contains(v) implies combined_tag_set(
        twice,
    ).contains(v) by {
        let (i, k) = choose|i: int, k: int|
            #![trigger once[i]@[k]]
            0 <= i < once.len() && 0 <= k < once[i]@.len() && once[i]@[k]@ == v;
        assert(twice[0]@[k]@ == v);
    }
    assert(combined_tag_set(twice) =~= combined_tag_set(once));
}

/// Tag combination does not depend on the order of the lists.
pub proof fn lemma_tag_union_commutes(a: Vec<String>, b: Vec<String>)
    ensures
        combined_tag_set(seq![a, b]) == combined_tag_set(seq![b, a]),
{
    let fwd = seq![a, b];
    let rev = seq![b, a];
    assert forall|v: Seq<char>| combined_tag_set(fwd).contains(v) implies combined_tag_set(
        rev,
    ).contains(v) by {
        let (i, k) = choose|i: int, k: int|
            #![trigger fwd[i]@[k]]
            0 <= i < fwd.len() && 0 <= k < fwd[i]@.len() && fwd[i]@[k]@ == v;
        assert(rev[1 - i]@[k]@ == v);
    }
    assert forall|v: Seq<char>| combined_tag_set(rev).contains(v) implies combined_tag_set(
        fwd,
    ).contains(v) by {
        let (i, k) = choose|i: int, k: int|
            #![trigger rev[i]@[k]]
            0 <= i < rev.len() && 0 <= k < rev[i]@.len() && rev[i]@[k]@ == v;
        assert(fwd[1 - i]@[k]@ == v);
    }
    assert(combined_tag_set(fwd) =~= combined_tag_set(rev));
}

} // verus!
