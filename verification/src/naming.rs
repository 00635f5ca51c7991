//! Collision-free output naming: given the desired file name and the names
//! that already exist in the output directory, pick the desired name if it
//! is free, and otherwise the first name with an incrementing numeric suffix
//! inserted between the stem and the extension.

use vstd::prelude::*;

use crate::text::{dec_digits, lemma_dec_digits_injective, decimal_string};

verus! {

/// The position of the last `.` in a file name, or -1 if there is none.
pub open spec fn last_dot(s: Seq<char>) -> int
    decreases s.len(),
{
    if s.len() == 0 {
        -1
    } else if s[s.len() - 1] == '.' {
        s.len() - 1
    } else {
        last_dot(s.drop_last())
    }
}

/// The stem of a file name: everything before the last `.`, unless the only
/// `.` starts the name, in which case the whole name is the stem.
pub open spec fn stem_of(s: Seq<char>) -> Seq<char> {
    if last_dot(s) > 0 {
        s.subrange(0, last_dot(s))
    } else {
        s
    }
}

/// The extension of a file name, including its leading `.`; empty when the
/// name has no extension.
pub open spec fn ext_of(s: Seq<char>) -> Seq<char> {
    if last_dot(s) > 0 {
        s.subrange(last_dot(s), s.len() as int)
    } else {
        Seq::empty()
    }
}

/// The file name with the numeric suffix `k` inserted before the extension.
pub open spec fn numbered_name(file: Seq<char>, k: nat) -> Seq<char> {
    stem_of(file) + seq!['_'] + dec_digits(k) + ext_of(file)
}

/// Whether one of the given names is exactly `n`.
pub open spec fn name_in(names: Seq<String>, n: Seq<char>) -> bool {
    exists|i: int| 0 <= i < names.len() && names[i]@ == n
}

/// A directory and a file name joined into a path.
pub open spec fn joined_path(dir: Seq<char>, name: Seq<char>) -> Seq<char> {
    dir + seq!['/'] + name
}

/// Distinct suffix numbers give distinct file names.
pub proof fn lemma_numbered_name_injective(file: Seq<char>, i: nat, j: nat)
    requires
        numbered_name(file, i) == numbered_name(file, j),
    ensures
        i == j,
{
    let st = stem_of(file);
    let ex = ext_of(file);
    let a = dec_digits(i);
    let b = dec_digits(j);
    assert(numbered_name(file, i).len() == st.len() + 1 + a.len() + ex.len());
    assert(numbered_name(file, j).len() == st.len() + 1 + b.len() + ex.len());
    assert(a.len() == b.len());
    assert forall|t: int| 0 <= t < a.len() implies a[t] == b[t] by {
        assert(numbered_name(file, i)[st.len() + 1 + t] == a[t]);
        assert(numbered_name(file, j)[st.len() + 1 + t] == b[t]);
    }
    assert(a =~= b);
    lemma_dec_digits_injective(i, j);
}

/// Among the suffix numbers `lo ..= lo + names.len()` at least one yields a
/// name that is not among `names`: there is one more number than there are
/// names, and distinct numbers give distinct names.
proof fn lemma_some_number_free(file: Seq<char>, names: Seq<String>, lo: nat)
    ensures
        exists|k: nat|
            lo <= k <= lo + names.len() && !name_in(names, numbered_name(file, k)),
    decreases names.len(),
{
    if !name_in(names, numbered_name(file, lo)) {
        assert(lo <= lo <= lo + names.len() && !name_in(names, numbered_name(file, lo)));
    } else {
        let i = choose|i: int| 0 <= i < names.len() && names[i]@ == numbered_name(file, lo);
        let rest = names.remove(i);
        names.remove_ensures(i);
        lemma_some_number_free(file, rest, lo + 1);
        let k = choose|k: nat|
            lo + 1 <= k <= lo + 1 + rest.len() && !name_in(rest, numbered_name(file, k));
        assert(!name_in(names, numbered_name(file, k))) by {
            if name_in(names, numbered_name(file, k)) {
                let m = choose|m: int|
                    0 <= m < names.len() && names[m]@ == numbered_name(file, k);
                if m == i {
                    lemma_numbered_name_injective(file, k, lo);
                } else if m < i {
                    assert(rest[m]@ == numbered_name(file, k));
                } else {
                    assert(rest[m - 1]@ == numbered_name(file, k));
                }
            }
        }
        assert(lo <= k <= lo + names.len() && !name_in(names, numbered_name(file, k)));
    }
}

/// If position `p` holds a `.` and nothing after it does, it is the last dot.
proof fn lemma_last_dot_at(s: Seq<char>, p: int)
    requires
        0 <= p < s.len(),
        s[p] == '.',
        forall|j: int| p < j < s.len() ==> s[j] != '.',
    ensures
        last_dot(s) == p,
    decreases s.len(),
{
    if p < s.len() - 1 {
        lemma_last_dot_at(s.drop_last(), p);
    }
}

/// A name without any `.` has no last dot.
proof fn lemma_no_dot(s: Seq<char>)
    requires
        forall|j: int| 0 <= j < s.len() ==> s[j] != '.',
    ensures
        last_dot(s) == -1,
    decreases s.len(),
{
    if s.len() > 0 {
        lemma_no_dot(s.drop_last());
    }
}

/// Whether one of the names equals the given one.
fn contains_name(names: &Vec<String>, n: &String) -> (b: bool)
    ensures
        b == name_in(names@, n@),
{
    let mut i: usize = 0;
    while i < names.len()
        invariant
            0 <= i <= names@.len(),
            forall|j: int| 0 <= j < i ==> (#[trigger] names@[j])@ != n@,
        decreases names@.len() - i,
    {
        if names[i].eq(n) {
            return true;
        }
        i += 1;
    }
    false
}

/// Joins the output directory and a file name with a path separator.
fn join_path(dir: &str, name: &str) -> (r: String)
    ensures
        r@ == joined_path(dir@, name@),
{
    proof {
        reveal_strlit("/");
    }
    let r = String::from_str(dir).concat("/").concat(name);
    proof {
        assert(r@ =~= joined_path(dir@, name@));
    }
    r
}

/// Picks a path under `dir` that does not collide with any name in
/// `existing`: `filename` itself when it is free, and otherwise the first
/// `stem_k.ext` (for k = 1, 2, ...) that is free. `existing` holds the file
/// names already present in the directory.
pub fn get_unique_filename(dir: &str, filename: &str, existing: &Vec<String>) -> (r: String)
    requires
        existing@.len() < usize::MAX,
    ensures
        !name_in(existing@, filename@) ==> r@ == joined_path(dir@, filename@),
        name_in(existing@, filename@) ==> exists|k: nat|
            {
                &&& 1 <= k
                &&& r@ == joined_path(dir@, numbered_name(filename@, k))
                &&& !name_in(existing@, numbered_name(filename@, k))
                &&& forall|j: nat| 1 <= j < k ==> name_in(existing@, numbered_name(filename@, j))
            },
{
    let f = String::from_str(filename);
    if !contains_name(existing, &f) {
        return join_path(dir, filename);
    }
    let n = filename.unicode_len();
    let mut p: usize = 0;
    let mut found = false;
    let mut i: usize = 0;
    while i < n
        invariant
            0 <= i <= n == filename@.len(),
            found ==> p < i && filename@[p as int] == '.' && (forall|j: int|
                p < j < i ==> filename@[j] != '.'),
            !found ==> forall|j: int| 0 <= j < i ==> filename@[j] != '.',
        decreases n - i,
    {
        if filename.get_char(i) == '.' {
            p = i;
            found = true;
        }
        i += 1;
    }
    proof {
        if found {
            lemma_last_dot_at(filename@, p as int);
        } else {
            lemma_no_dot(filename@);
        }
    }
    let split = found && p > 0;
    let sp = if split {
        p
    } else {
        n
    };
    let stem = filename.substring_char(0, sp);
    let ext = filename.substring_char(sp, n);
    proof {
        assert(stem@ =~= stem_of(filename@));
        assert(ext@ =~= ext_of(filename@));
    }
    let mut counter: usize = 1;
    loop
        invariant
            1 <= counter <= existing@.len() + 1,
            existing@.len() < usize::MAX,
            stem@ == stem_of(filename@),
            ext@ == ext_of(filename@),
            name_in(existing@, filename@),
            forall|j: nat| 1 <= j < counter ==> name_in(existing@, numbered_name(filename@, j)),
        decreases existing@.len() + 1 - counter,
    {
        let num = decimal_string(counter);
        let cand = String::from_str(stem).concat("_").concat(num.as_str()).concat(ext);
        proof {
            reveal_strlit("_");
            assert(cand@ =~= numbered_name(filename@, counter as nat));
        }
        if !contains_name(existing, &cand) {
            let r = join_path(dir, cand.as_str());
            proof {
                let k = counter as nat;
                assert(1 <= k && r@ == joined_path(dir@, numbered_name(filename@, k))
                    && !name_in(existing@, numbered_name(filename@, k)) && (forall|j: nat|
                    1 <= j < k ==> name_in(existing@, numbered_name(filename@, j))));
            }
            return r;
        }
        proof {
            if counter as int >= existing@.len() + 1 {
                lemma_some_number_free(filename@, existing@, 1);
                let k = choose|k: nat|
                    1 <= k <= 1 + existing@.len() && !name_in(
                        existing@,
                        numbered_name(filename@, k),
                    );
                assert(name_in(existing@, numbered_name(filename@, k)));
            }
        }
        counter += 1;
    }
}

} // verus!
