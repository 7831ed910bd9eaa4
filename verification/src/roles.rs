//! Role tags, kept as a strictly sorted list of strings.
//!
//! A profile's roles are a set of tags; the list is kept sorted by code
//! point (and therefore duplicate-free) for deterministic display.  This
//! module defines the order, the pure insertion/removal functions the
//! contracts speak of, and verified operations on `Vec<String>`.

use vstd::prelude::*;
use vstd::string::StrSliceExecFns;

verus! {

/// Strict lexicographic order on character sequences, by code point.
pub open spec fn lex_lt(a: Seq<char>, b: Seq<char>) -> bool
    decreases a.len(),
{
    if b.len() == 0 {
        false
    } else if a.len() == 0 {
        true
    } else if a[0] == b[0] {
        lex_lt(a.skip(1), b.skip(1))
    } else {
        a[0] < b[0]
    }
}

proof fn lemma_lex_lt_irrefl(a: Seq<char>)
    ensures
        !lex_lt(a, a),
    decreases a.len(),
{
    if a.len() > 0 {
        lemma_lex_lt_irrefl(a.skip(1));
    }
}

proof fn lemma_lex_lt_total(a: Seq<char>, b: Seq<char>)
    ensures
        lex_lt(a, b) || lex_lt(b, a) || a == b,
    decreases a.len(),
{
    if a.len() == 0 && b.len() == 0 {
        assert(a =~= b);
    } else if a.len() > 0 && b.len() > 0 && a[0] == b[0] {
        lemma_lex_lt_total(a.skip(1), b.skip(1));
        if !lex_lt(a, b) && !lex_lt(b, a) {
            assert(a.skip(1) == b.skip(1));
            assert forall|i: int| 0 <= i < a.len() implies a[i] == b[i] by {
                if i > 0 {
                    assert(a[i] == a.skip(1)[i - 1]);
                    assert(b[i] == b.skip(1)[i - 1]);
                }
            }
            assert(a =~= b);
        }
    }
}

proof fn lemma_lex_lt_asym(a: Seq<char>, b: Seq<char>)
    ensures
        !(lex_lt(a, b) && lex_lt(b, a)),
    decreases a.len(),
{
    if a.len() > 0 && b.len() > 0 && a[0] == b[0] {
        lemma_lex_lt_asym(a.skip(1), b.skip(1));
    }
}

proof fn lemma_lex_lt_trans(a: Seq<char>, b: Seq<char>, c: Seq<char>)
    requires
        lex_lt(a, b),
        lex_lt(b, c),
    ensures
        lex_lt(a, c),
    decreases a.len(),
{
    if a.len() > 0 && b.len() > 0 && c.len() > 0 && a[0] == b[0] && b[0] == c[0] {
        lemma_lex_lt_trans(a.skip(1), b.skip(1), c.skip(1));
    }
}

/// The views of a role list's entries.
pub open spec fn roles_view(rs: Seq<String>) -> Seq<Seq<char>> {
    rs.map_values(|s: String| s@)
}

/// Strictly sorted: sorted and duplicate-free at once.
pub open spec fn sorted_roles(rs: Seq<Seq<char>>) -> bool {
    forall|i: int, j: int| 0 <= i < j < rs.len() ==> lex_lt(#[trigger] rs[i], #[trigger] rs[j])
}

/// Where insertion keeps the list sorted (callers insert only fresh tags).
pub open spec fn insert_sorted(rs: Seq<Seq<char>>, x: Seq<char>) -> Seq<Seq<char>>
    decreases rs.len(),
{
    if rs.len() == 0 {
        seq![x]
    } else if lex_lt(x, rs[0]) {
        seq![x] + rs
    } else {
        seq![rs[0]] + insert_sorted(rs.skip(1), x)
    }
}

/// Removal of the first occurrence of a tag.
pub open spec fn remove_first(rs: Seq<Seq<char>>, x: Seq<char>) -> Seq<Seq<char>>
    decreases rs.len(),
{
    if rs.len() == 0 {
        rs
    } else if rs[0] == x {
        rs.skip(1)
    } else {
        seq![rs[0]] + remove_first(rs.skip(1), x)
    }
}

/// Inserting at the position found by a linear scan is `insert_sorted`.
proof fn lemma_insert_sorted_split(rs: Seq<Seq<char>>, x: Seq<char>, i: int)
    requires
        0 <= i <= rs.len(),
        forall|j: int| 0 <= j < i ==> lex_lt(#[trigger] rs[j], x),
        i < rs.len() ==> lex_lt(x, rs[i]),
    ensures
        insert_sorted(rs, x) == rs.take(i) + seq![x] + rs.skip(i),
    decreases i,
{
    if i == 0 {
        assert(insert_sorted(rs, x) =~= rs.take(0) + seq![x] + rs.skip(0));
    } else {
        lemma_lex_lt_asym(rs[0], x);
        lemma_insert_sorted_split(rs.skip(1), x, i - 1);
        assert(rs.skip(1).take(i - 1) =~= rs.take(i).skip(1));
        assert(rs.skip(1).skip(i - 1) =~= rs.skip(i));
        assert(insert_sorted(rs, x) =~= rs.take(i) + seq![x] + rs.skip(i));
    }
}

/// The scan position keeps the list sorted.
proof fn lemma_sorted_insert_at(rs: Seq<Seq<char>>, x: Seq<char>, i: int)
    requires
        sorted_roles(rs),
        0 <= i <= rs.len(),
        forall|j: int| 0 <= j < i ==> lex_lt(#[trigger] rs[j], x),
        i < rs.len() ==> lex_lt(x, rs[i]),
    ensures
        sorted_roles(rs.take(i) + seq![x] + rs.skip(i)),
{
    let out = rs.take(i) + seq![x] + rs.skip(i);
    assert forall|p: int, q: int| 0 <= p < q < out.len() implies lex_lt(
        #[trigger] out[p],
        #[trigger] out[q],
    ) by {
        if p < i {
            assert(out[p] == rs[p]);
        } else if p == i {
            assert(out[p] == x);
        } else {
            assert(out[p] == rs[p - 1]);
        }
        if q < i {
            assert(out[q] == rs[q]);
        } else if q == i {
            assert(out[q] == x);
        } else {
            assert(out[q] == rs[q - 1]);
        }
        if p < i && q == i {
            // rs[p] < x directly
        } else if p == i && q > i {
            // x < rs[i] <= rs[q-1]
            if q - 1 > i {
                lemma_lex_lt_trans(x, rs[i as int], rs[q - 1]);
            }
        } else if p < i && q > i {
            if q - 1 == p {
                lemma_lex_lt_asym(rs[p], x);
            } else {
                assert(lex_lt(rs[p], rs[q - 1]));
            }
        }
    }
}

/// Removing at the first matching index is `remove_first`.
proof fn lemma_remove_first_split(rs: Seq<Seq<char>>, x: Seq<char>, i: int)
    requires
        0 <= i < rs.len(),
        forall|j: int| 0 <= j < i ==> #[trigger] rs[j] != x,
        rs[i] == x,
    ensures
        remove_first(rs, x) == rs.take(i) + rs.skip(i + 1),
    decreases i,
{
    if i == 0 {
        assert(remove_first(rs, x) =~= rs.take(0) + rs.skip(1));
    } else {
        lemma_remove_first_split(rs.skip(1), x, i - 1);
        assert(rs.skip(1).take(i - 1) =~= rs.take(i).skip(1));
        assert(rs.skip(1).skip(i) =~= rs.skip(i + 1));
        assert(remove_first(rs, x) =~= rs.take(i) + rs.skip(i + 1));
    }
}

/// Dropping one entry of a sorted list keeps it sorted.
proof fn lemma_sorted_remove_at(rs: Seq<Seq<char>>, i: int)
    requires
        sorted_roles(rs),
        0 <= i < rs.len(),
    ensures
        sorted_roles(rs.take(i) + rs.skip(i + 1)),
{
    let out = rs.take(i) + rs.skip(i + 1);
    assert forall|p: int, q: int| 0 <= p < q < out.len() implies lex_lt(
        #[trigger] out[p],
        #[trigger] out[q],
    ) by {
        if p < i {
            assert(out[p] == rs[p]);
        } else {
            assert(out[p] == rs[p + 1]);
        }
        if q < i {
            assert(out[q] == rs[q]);
        } else {
            assert(out[q] == rs[q + 1]);
        }
    }
}

/// In a strictly sorted list a tag occurs at most once, so removing its
/// first occurrence removes it entirely.
proof fn lemma_sorted_unique(rs: Seq<Seq<char>>, i: int, j: int)
    requires
        sorted_roles(rs),
        0 <= i < rs.len(),
        0 <= j < rs.len(),
        i != j,
    ensures
        rs[i] != rs[j],
{
    if i < j {
        lemma_lex_lt_irrefl(rs[i]);
    } else {
        lemma_lex_lt_irrefl(rs[j]);
    }
}

/// An inserted tag is present afterwards.
pub proof fn lemma_insert_sorted_contains(rs: Seq<Seq<char>>, x: Seq<char>)
    ensures
        insert_sorted(rs, x).contains(x),
    decreases rs.len(),
{
    if rs.len() == 0 {
        assert(insert_sorted(rs, x)[0] == x);
    } else if lex_lt(x, rs[0]) {
        assert(insert_sorted(rs, x)[0] == x);
    } else {
        lemma_insert_sorted_contains(rs.skip(1), x);
        let tail = insert_sorted(rs.skip(1), x);
        let k = choose|k: int| 0 <= k < tail.len() && tail[k] == x;
        assert(insert_sorted(rs, x)[k + 1] == x);
    }
}

/// Adding a fresh tag and then removing it restores the list exactly.
pub proof fn lemma_remove_insert_inverse(rs: Seq<Seq<char>>, x: Seq<char>)
    requires
        sorted_roles(rs),
        !rs.contains(x),
    ensures
        remove_first(insert_sorted(rs, x), x) == rs,
    decreases rs.len(),
{
    if rs.len() == 0 {
        assert(remove_first(insert_sorted(rs, x), x) =~= rs);
    } else if lex_lt(x, rs[0]) {
        let ins = seq![x] + rs;
        assert(ins[0] == x);
        assert(remove_first(ins, x) =~= rs);
    } else {
        assert(rs[0] != x) by {
            assert(rs.contains(rs[0]));
        }
        lemma_lex_lt_total(x, rs[0]);
        let tail = rs.skip(1);
        assert(!tail.contains(x)) by {
            if tail.contains(x) {
                let k = choose|k: int| 0 <= k < tail.len() && tail[k] == x;
                assert(rs[k + 1] == x);
                assert(rs.contains(rs[k + 1]));
            }
        }
        assert(sorted_roles(tail)) by {
            assert forall|p: int, q: int| 0 <= p < q < tail.len() implies lex_lt(
                #[trigger] tail[p],
                #[trigger] tail[q],
            ) by {
                assert(tail[p] == rs[p + 1]);
                assert(tail[q] == rs[q + 1]);
            }
        }
        lemma_remove_insert_inverse(tail, x);
        let ins = seq![rs[0]] + insert_sorted(tail, x);
        assert(insert_sorted(rs, x) == ins);
        assert(ins[0] == rs[0]);
        assert(ins[0] != x);
        assert(ins.skip(1) =~= insert_sorted(tail, x));
        assert(remove_first(ins, x) =~= seq![rs[0]] + remove_first(insert_sorted(tail, x), x));
        assert(seq![rs[0]] + tail =~= rs);
    }
}

/// Exact string equality.
pub fn str_eq(a: &str, b: &str) -> (r: bool)
    ensures
        r == (a@ == b@),
{
    let la = a.unicode_len();
    let lb = b.unicode_len();
    if la != lb {
        proof {
            assert(a@ != b@);
        }
        return false;
    }
    let mut i: usize = 0;
    while i < la
        invariant
            0 <= i <= la,
            la == a@.len(),
            la == b@.len(),
            forall|j: int| 0 <= j < i ==> a@[j] == b@[j],
        decreases la - i,
    {
        let ca = a.get_char(i);
        let cb = b.get_char(i);
        if ca != cb {
            proof {
                assert(a@[i as int] != b@[i as int]);
            }
            return false;
        }
        i = i + 1;
    }
    proof {
        assert(a@ =~= b@);
    }
    true
}

/// Strict lexicographic comparison of strings, by code point.
pub fn str_lt(a: &str, b: &str) -> (r: bool)
    ensures
        r == lex_lt(a@, b@),
{
    let la = a.unicode_len();
    let lb = b.unicode_len();
    let mut i: usize = 0;
    proof {
        assert(a@.skip(0) =~= a@);
        assert(b@.skip(0) =~= b@);
    }
    while i < la
        invariant
            0 <= i <= la,
            i <= lb,
            la == a@.len(),
            lb == b@.len(),
            lex_lt(a@, b@) == lex_lt(a@.skip(i as int), b@.skip(i as int)),
        ensures
            0 <= i <= la,
            i <= lb,
            i == la || i == lb,
            lex_lt(a@, b@) == lex_lt(a@.skip(i as int), b@.skip(i as int)),
        decreases la - i,
    {
        if i >= lb {
            break;
        }
        let ca = a.get_char(i);
        let cb = b.get_char(i);
        if ca != cb {
            proof {
                let sa = a@.skip(i as int);
                let sb = b@.skip(i as int);
                assert(sa[0] == a@[i as int]);
                assert(sb[0] == b@[i as int]);
            }
            return ca < cb;
        }
        proof {
            let sa = a@.skip(i as int);
            let sb = b@.skip(i as int);
            assert(sa[0] == a@[i as int]);
            assert(sb[0] == b@[i as int]);
            assert(sa.skip(1) =~= a@.skip(i as int + 1));
            assert(sb.skip(1) =~= b@.skip(i as int + 1));
        }
        i = i + 1;
    }
    proof {
        let sa = a@.skip(i as int);
        let sb = b@.skip(i as int);
        assert(sa.len() == 0 || sb.len() == 0);
    }
    i == la && i < lb
}

/// Membership of a tag in a role list.
pub fn vec_has_role(roles: &Vec<String>, role: &str) -> (r: bool)
    ensures
        r == roles_view(roles@).contains(role@),
{
    let len = roles.len();
    let mut i: usize = 0;
    while i < len
        invariant
            0 <= i <= len,
            len == roles@.len(),
            forall|j: int| 0 <= j < i ==> roles_view(roles@)[j] != role@,
        decreases len - i,
    {
        if str_eq(roles[i].as_str(), role) {
            proof {
                assert(roles_view(roles@)[i as int] == role@);
            }
            return true;
        }
        i = i + 1;
    }
    false
}

/// Adds a tag, keeping the list sorted; no change when already present.
pub fn vec_add_role(roles: &mut Vec<String>, role: &str) -> (added: bool)
    requires
        sorted_roles(roles_view(old(roles)@)),
    ensures
        added == !roles_view(old(roles)@).contains(role@),
        added ==> roles_view(final(roles)@) == insert_sorted(roles_view(old(roles)@), role@),
        !added ==> final(roles)@ == old(roles)@,
        sorted_roles(roles_view(final(roles)@)),
{
    let ghost rs = roles_view(roles@);
    let len = roles.len();
    let mut i: usize = 0;
    while i < len
        invariant
            0 <= i <= len,
            len == roles@.len(),
            roles@ == old(roles)@,
            rs == roles_view(roles@),
            forall|j: int| 0 <= j < i ==> lex_lt(#[trigger] rs[j], role@),
        ensures
            0 <= i <= len,
            roles@ == old(roles)@,
            forall|j: int| 0 <= j < i ==> lex_lt(#[trigger] rs[j], role@),
            i < len ==> !lex_lt(rs[i as int], role@),
        decreases len - i,
    {
        if !str_lt(roles[i].as_str(), role) {
            break;
        }
        i = i + 1;
    }
    if i < len && str_eq(roles[i].as_str(), role) {
        proof {
            assert(rs[i as int] == role@);
        }
        return false;
    }
    proof {
        if i < len {
            lemma_lex_lt_total(role@, rs[i as int]);
            assert(rs[i as int] != role@);
            assert(lex_lt(role@, rs[i as int]));
        }
        if rs.contains(role@) {
            let k = choose|k: int| 0 <= k < rs.len() && rs[k] == role@;
            if k < i {
                lemma_lex_lt_irrefl(role@);
            } else {
                assert(i < len);
                if k == i {
                    assert(false);
                } else {
                    assert(lex_lt(rs[i as int], rs[k]));
                    assert(false);
                }
            }
        }
        lemma_insert_sorted_split(rs, role@, i as int);
        lemma_sorted_insert_at(rs, role@, i as int);
    }
    roles.insert(i, role.to_owned());
    proof {
        assert(roles_view(roles@) =~= rs.take(i as int) + seq![role@] + rs.skip(i as int));
    }
    true
}

/// Removes a tag; no change when absent.
pub fn vec_remove_role(roles: &mut Vec<String>, role: &str) -> (removed: bool)
    requires
        sorted_roles(roles_view(old(roles)@)),
    ensures
        removed == roles_view(old(roles)@).contains(role@),
        removed ==> roles_view(final(roles)@) == remove_first(roles_view(old(roles)@), role@),
        !removed ==> final(roles)@ == old(roles)@,
        sorted_roles(roles_view(final(roles)@)),
        !roles_view(final(roles)@).contains(role@),
{
    let ghost rs = roles_view(roles@);
    let len = roles.len();
    let mut i: usize = 0;
    while i < len
        invariant
            0 <= i <= len,
            len == roles@.len(),
            roles@ == old(roles)@,
            rs == roles_view(roles@),
            sorted_roles(rs),
            forall|j: int| 0 <= j < i ==> #[trigger] rs[j] != role@,
        decreases len - i,
    {
        if str_eq(roles[i].as_str(), role) {
            proof {
                assert(rs[i as int] == role@);
                assert(rs.contains(role@));
                lemma_remove_first_split(rs, role@, i as int);
                lemma_sorted_remove_at(rs, i as int);
            }
            roles.remove(i);
            proof {
                assert(roles_view(roles@) =~= rs.take(i as int) + rs.skip(i as int + 1));
                let out = rs.take(i as int) + rs.skip(i as int + 1);
                assert forall|j: int| 0 <= j < out.len() implies #[trigger] out[j] != role@ by {
                    if j < i {
                        assert(out[j] == rs[j]);
                    } else {
                        assert(out[j] == rs[j + 1]);
                        lemma_sorted_unique(rs, i as int, j + 1);
                    }
                }
                if roles_view(roles@).contains(role@) {
                    let k = choose|k: int|
                        0 <= k < out.len() && roles_view(roles@)[k] == role@;
                    assert(out[k] != role@);
                }
            }
            return true;
        }
        i = i + 1;
    }
    proof {
        if rs.contains(role@) {
            let k = choose|k: int| 0 <= k < rs.len() && rs[k] == role@;
            assert(rs[k] != role@);
        }
    }
    false
}

} // verus!
