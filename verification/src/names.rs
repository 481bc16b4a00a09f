//! Filename derivation and unique-name allocation.
//!
//! A rotated file is named by appending the formatted rotation bucket to the
//! base filename's final path segment (`<name>.<bucket>`), keeping the
//! directory part. When a name is already taken, the allocator in
//! exclusive-create mode inserts a numeric suffix before the extension
//! (`name_1.ext`, `name_2.ext`, ...) until a free name is found; in append
//! mode the desired name is reused as it stands.

use vstd::prelude::*;
use vstd::pervasive::unreached;
use crate::digits::{dec_digits, lemma_dec_digits_len, lemma_dec_digits_inj, u64_to_dec};

verus! {

/// The largest index at which `c` occurs in `s`, or `-1` if it does not occur.
pub open spec fn last_occurrence(s: Seq<char>, c: char) -> int
    decreases s.len(),
{
    if s.len() == 0 {
        -1
    } else if s[s.len() - 1] == c {
        s.len() - 1
    } else {
        last_occurrence(s.drop_last(), c)
    }
}

pub proof fn lemma_last_occurrence(s: Seq<char>, c: char)
    ensures
        -1 <= last_occurrence(s, c) < s.len(),
        last_occurrence(s, c) >= 0 ==> s[last_occurrence(s, c)] == c,
        forall|j: int| last_occurrence(s, c) < j < s.len() ==> s[j] != c,
    decreases s.len(),
{
    if s.len() != 0 && s[s.len() - 1] != c {
        lemma_last_occurrence(s.drop_last(), c);
        assert(forall|j: int| 0 <= j < s.len() - 1 ==> s.drop_last()[j] == s[j]);
    }
}

/// The directory part of a path, up to and including the last `/` (empty if
/// the path holds no `/`).
pub open spec fn dir_of(p: Seq<char>) -> Seq<char> {
    p.subrange(0, last_occurrence(p, '/') + 1)
}

/// The final path segment: everything after the last `/`.
pub open spec fn seg_of(p: Seq<char>) -> Seq<char> {
    p.subrange(last_occurrence(p, '/') + 1, p.len() as int)
}

/// The path with its trailing `/` characters removed.
pub open spec fn strip_trailing_slashes(p: Seq<char>) -> Seq<char>
    decreases p.len(),
{
    if p.len() > 0 && p[p.len() - 1] == '/' {
        strip_trailing_slashes(p.drop_last())
    } else {
        p
    }
}

pub proof fn lemma_strip_trailing_slashes(p: Seq<char>)
    ensures
        strip_trailing_slashes(p).len() <= p.len(),
        strip_trailing_slashes(p) == p.subrange(0, strip_trailing_slashes(p).len() as int),
        forall|j: int| strip_trailing_slashes(p).len() <= j < p.len() ==> p[j] == '/',
        strip_trailing_slashes(p).len() > 0 ==> p[strip_trailing_slashes(p).len() - 1] != '/',
    decreases p.len(),
{
    if p.len() > 0 && p[p.len() - 1] == '/' {
        lemma_strip_trailing_slashes(p.drop_last());
        assert(forall|j: int| 0 <= j < p.len() - 1 ==> p.drop_last()[j] == p[j]);
        let k = strip_trailing_slashes(p).len() as int;
        assert(p.drop_last().subrange(0, k) =~= p.subrange(0, k));
    } else {
        assert(p.subrange(0, p.len() as int) =~= p);
    }
}

/// Whether a final path component names a file: non-empty and neither `.`
/// nor `..`.
pub open spec fn has_file_name(seg: Seq<char>) -> bool {
    seg.len() > 0 && seg != seq!['.'] && seg != seq!['.', '.']
}

/// The name of the file for one rotation bucket: the base path with its
/// final component (trailing slashes ignored) replaced by
/// `<component>.<bucket>`. A base with no usable final component — empty,
/// a root, or ending in `.` or `..` — keeps its whole path as the
/// directory and gets `log.<bucket>` placed under it. Components are read
/// textually: a `.` or `..` elsewhere in the path is left as it stands.
pub open spec fn derived_name(base: Seq<char>, bucket: Seq<char>) -> Seq<char> {
    let t = strip_trailing_slashes(base);
    let seg = seg_of(t);
    if has_file_name(seg) {
        dir_of(t) + seg + seq!['.'] + bucket
    } else if base.len() == 0 {
        seq!['l', 'o', 'g'] + seq!['.'] + bucket
    } else if base[base.len() - 1] == '/' {
        base + seq!['l', 'o', 'g'] + seq!['.'] + bucket
    } else {
        base + seq!['/'] + seq!['l', 'o', 'g'] + seq!['.'] + bucket
    }
}

/// Finds the last occurrence of `c` in `s`, if any.
pub fn find_last(s: &str, c: char) -> (r: Option<usize>)
    ensures
        match r {
            Some(i) => i == last_occurrence(s@, c),
            None => last_occurrence(s@, c) == -1,
        },
{
    let n = s.unicode_len();
    let mut i: usize = n;
    while i > 0
        invariant
            i <= n,
            n == s@.len(),
            forall|j: int| i <= j < n ==> s@[j] != c,
        decreases i,
    {
        let ch = s.get_char(i - 1);
        if ch == c {
            proof {
                lemma_last_occurrence(s@, c);
                let lo = last_occurrence(s@, c);
                if lo < i - 1 {
                    assert(s@[i - 1] != c);
                }
                if lo > i - 1 {
                    assert(s@[lo] != c);
                }
            }
            return Some(i - 1);
        }
        i = i - 1;
    }
    proof {
        lemma_last_occurrence(s@, c);
        let lo = last_occurrence(s@, c);
        if lo >= 0 {
            assert(s@[lo] != c);
        }
    }
    None
}

/// Derives the on-disk filename for one rotation bucket: the base
/// filename's final component (trailing slashes ignored) gets `.<bucket>`
/// appended and the directory part is kept; a base without a usable final
/// component — empty, a root, or ending in `.` or `..` — gets `log.<bucket>`
/// placed under it.
pub fn get_filename(base: &str, bucket: &str) -> (r: String)
    ensures
        r@ == derived_name(base@, bucket@),
{
    let n = base.unicode_len();
    proof {
        reveal_strlit("log");
        assert("log"@ =~= seq!['l', 'o', 'g']);
        reveal_strlit(".");
        assert("."@ =~= seq!['.']);
        reveal_strlit("/");
        assert("/"@ =~= seq!['/']);
        lemma_strip_trailing_slashes(base@);
    }
    let mut end: usize = n;
    let mut stop: bool = false;
    while !stop && end > 0
        invariant
            end <= n,
            n == base@.len(),
            forall|j: int| end <= j < n ==> base@[j] == '/',
            stop ==> end > 0 && base@[end - 1] != '/',
        decreases end, (if stop { 0int } else { 1int }),
    {
        let c = base.get_char(end - 1);
        if c == '/' {
            end -= 1;
        } else {
            stop = true;
        }
    }
    proof {
        let k = strip_trailing_slashes(base@).len() as int;
        if end < k {
            assert(base@[k - 1] == '/');
        }
        if end > k {
            assert(base@[end - 1] == '/');
        }
        assert(end == k);
    }
    let t = base.substring_char(0, end);
    proof {
        lemma_last_occurrence(t@, '/');
    }
    let cut = match find_last(t, '/') {
        Some(i) => i + 1,
        None => 0,
    };
    let seg = t.substring_char(cut, end);
    let seg_len = end - cut;
    let is_dot = seg_len == 1 && seg.get_char(0) == '.';
    let is_dotdot = seg_len == 2 && seg.get_char(0) == '.' && seg.get_char(1) == '.';
    if seg_len > 0 && !is_dot && !is_dotdot {
        proof {
            assert(seg@ != seq!['.']) by {
                if seg@ == seq!['.'] {
                    assert(seg@.len() == 1);
                    assert(seg@[0] == '.');
                }
            }
            assert(seg@ != seq!['.', '.']) by {
                if seg@ == seq!['.', '.'] {
                    assert(seg@.len() == 2);
                    assert(seg@[0] == '.');
                    assert(seg@[1] == '.');
                }
            }
        }
        let dir = t.substring_char(0, cut);
        let mut r = dir.to_owned();
        r.append(seg);
        r.append(".");
        r.append(bucket);
        proof {
            assert(r@ =~= derived_name(base@, bucket@));
        }
        r
    } else {
        proof {
            if seg_len == 1 && seg@[0] == '.' {
                assert(seg@ =~= seq!['.']);
            }
            if seg_len == 2 && seg@[0] == '.' && seg@[1] == '.' {
                assert(seg@ =~= seq!['.', '.']);
            }
        }
        let mut r = base.to_owned();
        if n > 0 {
            let lastc = base.get_char(n - 1);
            if lastc != '/' {
                r.append("/");
            }
        }
        r.append("log");
        r.append(".");
        r.append(bucket);
        proof {
            assert(r@ =~= derived_name(base@, bucket@));
        }
        r
    }
}

/// The numbered variant of a final segment: `stem_<digits>.ext` when the
/// segment has an extension, `seg_<digits>` otherwise. An extension is what
/// follows the last `.`, provided that dot is not the segment's first
/// character; an empty extension is dropped.
pub open spec fn seg_candidate(seg: Seq<char>, digits: Seq<char>) -> Seq<char> {
    let d = last_occurrence(seg, '.');
    if d > 0 {
        let stem = seg.subrange(0, d);
        let ext = seg.subrange(d + 1, seg.len() as int);
        if ext.len() == 0 {
            stem + seq!['_'] + digits
        } else {
            stem + seq!['_'] + digits + seq!['.'] + ext
        }
    } else {
        seg + seq!['_'] + digits
    }
}

/// The `c`-th name tried by the exclusive-create allocator: the desired name
/// itself for `c == 0`, and the numbered variant `name_<c>[.ext]` afterwards.
pub open spec fn nth_candidate(name: Seq<char>, c: nat) -> Seq<char> {
    if c == 0 {
        name
    } else {
        dir_of(name) + seg_candidate(seg_of(name), dec_digits(c))
    }
}

/// Computes the `counter`-th candidate name for a desired filename.
pub fn candidate_name(filename: &str, counter: u64) -> (r: String)
    ensures
        r@ == nth_candidate(filename@, counter as nat),
{
    if counter == 0 {
        return filename.to_owned();
    }
    let n = filename.unicode_len();
    proof {
        lemma_last_occurrence(filename@, '/');
    }
    let cut = match find_last(filename, '/') {
        Some(i) => i + 1,
        None => 0,
    };
    let dir = filename.substring_char(0, cut);
    let seg = filename.substring_char(cut, n);
    let m = seg.unicode_len();
    let digits = u64_to_dec(counter);
    let mut r = dir.to_owned();
    let dot = find_last(seg, '.');
    let split = match dot {
        Some(d) => d > 0,
        None => false,
    };
    proof {
        reveal_strlit("_");
        assert("_"@ =~= seq!['_']);
        reveal_strlit(".");
        assert("."@ =~= seq!['.']);
        lemma_last_occurrence(seg@, '.');
    }
    if split {
        let d = match dot {
            Some(d) => d,
            None => 0,
        };
        let stem = seg.substring_char(0, d);
        let ext = seg.substring_char(d + 1, m);
        r.append(stem);
        r.append("_");
        r.append(digits.as_str());
        if ext.unicode_len() > 0 {
            r.append(".");
            r.append(ext);
        }
    } else {
        r.append(seg);
        r.append("_");
        r.append(digits.as_str());
    }
    proof {
        assert(r@ =~= nth_candidate(filename@, counter as nat));
    }
    r
}

/// Every numbered candidate is strictly longer than the desired name itself.
pub proof fn lemma_candidate_longer(name: Seq<char>, c: nat)
    requires
        c >= 1,
    ensures
        nth_candidate(name, c).len() > name.len(),
{
    lemma_last_occurrence(name, '/');
    lemma_last_occurrence(seg_of(name), '.');
    lemma_dec_digits_len(c);
    assert(name.len() == dir_of(name).len() + seg_of(name).len());
}

proof fn lemma_concat_middle_inj(x: Seq<char>, a: Seq<char>, b: Seq<char>, y: Seq<char>)
    requires
        x + a + y == x + b + y,
    ensures
        a == b,
{
    assert((x + a + y).len() == x.len() + a.len() + y.len());
    assert((x + b + y).len() == x.len() + b.len() + y.len());
    assert(a.len() == b.len());
    assert forall|i: int| 0 <= i < a.len() implies a[i] == b[i] by {
        assert((x + a + y)[x.len() + i] == a[i]);
        assert((x + b + y)[x.len() + i] == b[i]);
    }
    assert(a =~= b);
}

/// Distinct counters always yield distinct candidate names for the same
/// desired name.
pub proof fn lemma_candidate_inj(name: Seq<char>, c1: nat, c2: nat)
    requires
        nth_candidate(name, c1) == nth_candidate(name, c2),
    ensures
        c1 == c2,
{
    if c1 == 0 && c2 != 0 {
        lemma_candidate_longer(name, c2);
    } else if c1 != 0 && c2 == 0 {
        lemma_candidate_longer(name, c1);
    } else if c1 != 0 && c2 != 0 {
        let dir = dir_of(name);
        let seg = seg_of(name);
        let g1 = dec_digits(c1);
        let g2 = dec_digits(c2);
        let d = last_occurrence(seg, '.');
        lemma_last_occurrence(seg, '.');
        if d > 0 {
            let stem = seg.subrange(0, d);
            let ext = seg.subrange(d + 1, seg.len() as int);
            let x = dir + stem + seq!['_'];
            if ext.len() == 0 {
                let y = Seq::<char>::empty();
                assert(nth_candidate(name, c1) =~= x + g1 + y);
                assert(nth_candidate(name, c2) =~= x + g2 + y);
                lemma_concat_middle_inj(x, g1, g2, y);
            } else {
                let y = seq!['.'] + ext;
                assert(nth_candidate(name, c1) =~= x + g1 + y);
                assert(nth_candidate(name, c2) =~= x + g2 + y);
                lemma_concat_middle_inj(x, g1, g2, y);
            }
        } else {
            let x = dir + seg + seq!['_'];
            let y = Seq::<char>::empty();
            assert(nth_candidate(name, c1) =~= x + g1 + y);
            assert(nth_candidate(name, c2) =~= x + g2 + y);
            lemma_concat_middle_inj(x, g1, g2, y);
        }
        lemma_dec_digits_inj(c1, c2);
    }
}

proof fn lemma_candidates_exceed(name: Seq<char>, s: Set<Seq<char>>, n: nat)
    requires
        s.finite(),
        s.len() <= n,
    ensures
        exists|c: nat| c <= n && !s.contains(nth_candidate(name, c)),
    decreases n,
{
    broadcast use vstd::set::group_set_axioms;

    if !s.contains(nth_candidate(name, n)) {
        assert(n <= n && !s.contains(nth_candidate(name, n)));
    } else {
        assert(s.len() >= 1);
        let s2 = s.remove(nth_candidate(name, n));
        assert(s2.len() == s.len() - 1);
        lemma_candidates_exceed(name, s2, (n - 1) as nat);
        let c = choose|c: nat| c <= n - 1 && !s2.contains(nth_candidate(name, c));
        if nth_candidate(name, c) == nth_candidate(name, n) {
            lemma_candidate_inj(name, c, n);
        }
        assert(!s.contains(nth_candidate(name, c)));
    }
}

fn vec_contains_string(v: &Vec<String>, s: &String) -> (r: bool)
    ensures
        r == exists|i: int| 0 <= i < v@.len() && v@[i]@ == s@,
{
    let mut j: usize = 0;
    while j < v.len()
        invariant
            j <= v@.len(),
            forall|i: int| 0 <= i < j ==> v@[i]@ != s@,
        decreases v@.len() - j,
    {
        if v[j].eq(s) {
            return true;
        }
        j += 1;
    }
    false
}

/// Holds when `r` is the name the exclusive-create allocator returns for
/// `desired` against the directory listing `existing`: the first candidate
/// name that does not already exist.
pub open spec fn is_fresh_allocation(desired: Seq<char>, existing: Seq<Seq<char>>, r: Seq<char>) -> bool {
    &&& forall|i: int| 0 <= i < existing.len() ==> existing[i] != r
    &&& exists|c: nat|
        r == nth_candidate(desired, c) && (forall|k: nat|
            k < c ==> existing.contains(#[trigger] nth_candidate(desired, k)))
}

/// Exclusive-create allocation: returns the first candidate name for
/// `desired` that does not occur in `existing`.
pub fn first_free_name(desired: &String, existing: &Vec<String>) -> (r: String)
    ensures
        is_fresh_allocation(desired@, existing@.map_values(|s: String| s@), r@),
{
    let ghost views = existing@.map_values(|s: String| s@);
    let n = existing.len();
    let mut counter: usize = 0;
    while counter < n
        invariant
            counter <= n,
            n == existing@.len(),
            views == existing@.map_values(|s: String| s@),
            forall|k: nat| k < counter ==> views.contains(nth_candidate(desired@, k)),
        decreases n - counter,
    {
        let cand = candidate_name(desired.as_str(), counter as u64);
        if !vec_contains_string(existing, &cand) {
            proof {
                assert(forall|i: int| 0 <= i < views.len() ==> views[i] == existing@[i]@);
            }
            return cand;
        }
        proof {
            let i = choose|i: int| 0 <= i < existing@.len() && existing@[i]@ == cand@;
            assert(views[i] == cand@);
            assert(views.contains(nth_candidate(desired@, counter as nat)));
        }
        counter += 1;
    }
    let cand = candidate_name(desired.as_str(), n as u64);
    if !vec_contains_string(existing, &cand) {
        proof {
            assert(forall|i: int| 0 <= i < views.len() ==> views[i] == existing@[i]@);
        }
        return cand;
    }
    proof {
        let i = choose|i: int| 0 <= i < existing@.len() && existing@[i]@ == cand@;
        assert(views[i] == cand@);
        assert(views.contains(nth_candidate(desired@, n as nat)));
        views.lemma_cardinality_of_set();
        broadcast use vstd::seq_lib::seq_to_set_is_finite;
        lemma_candidates_exceed(desired@, views.to_set(), n as nat);
        let c = choose|c: nat| c <= n && !views.to_set().contains(nth_candidate(desired@, c));
        assert(views.contains(nth_candidate(desired@, c)));
        assert(views.to_set().contains(nth_candidate(desired@, c)));
        assert(false);
    }
    unreached()
}

/// Append-mode allocation reuses the desired name unchanged, whether or not
/// the path already exists.
pub fn append_mode_name(desired: &String) -> (r: String)
    ensures
        r@ == desired@,
{
    desired.clone()
}

/// Two exclusive-create allocations with the same desired name never return
/// the same path: the second call sees the first call's file in the listing.
pub proof fn lemma_exclusive_create_twice_distinct(
    desired: Seq<char>,
    existing: Seq<Seq<char>>,
    r1: Seq<char>,
    r2: Seq<char>,
)
    requires
        is_fresh_allocation(desired, existing, r1),
        is_fresh_allocation(desired, existing.push(r1), r2),
    ensures
        r1 != r2,
{
    assert(existing.push(r1)[existing.len() as int] == r1);
}

} // verus!
