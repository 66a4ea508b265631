use vstd::prelude::*;
use vstd::set_lib::{lemma_int_range, lemma_len_subset, set_int_range};

verus! {

/// The character of a decimal digit.
pub open spec fn digit_char(d: nat) -> char
    recommends
        d < 10,
{
    (('0' as u32) + d) as char
}

/// The decimal rendering of `n`, without sign or leading zeros.
pub open spec fn decimal(n: nat) -> Seq<char>
    decreases n,
{
    if n < 10 {
        seq![digit_char(n)]
    } else {
        decimal(n / 10).push(digit_char(n % 10))
    }
}

/// The number that a sequence of decimal digits denotes.
pub open spec fn digits_value(s: Seq<char>) -> int
    decreases s.len(),
{
    if s.len() == 0 {
        0
    } else {
        digits_value(s.drop_last()) * 10 + (s.last() as u32 - '0' as u32)
    }
}

/// Reading back the decimal rendering of `n` gives `n`.
pub proof fn lemma_decimal_value(n: nat)
    ensures
        digits_value(decimal(n)) == n,
    decreases n,
{
    assert(digit_char(n % 10) as u32 == '0' as u32 + n % 10);
    if n >= 10 {
        lemma_decimal_value(n / 10);
        assert(decimal(n).drop_last() == decimal(n / 10));
        assert(n == (n / 10) * 10 + n % 10) by (nonlinear_arith);
        assert(decimal(n).last() == digit_char(n % 10));
        assert(digits_value(decimal(n)) == digits_value(decimal(n / 10)) * 10 + (n % 10));
    } else {
        let d = decimal(n);
        assert(d.drop_last() =~= Seq::<char>::empty());
        assert(d.last() == digit_char(n));
        assert(digits_value(d) == digits_value(d.drop_last()) * 10 + (d.last() as u32 - '0' as u32));
    }
}

/// Distinct numbers have distinct decimal renderings.
pub proof fn lemma_decimal_injective(a: nat, b: nat)
    requires
        decimal(a) == decimal(b),
    ensures
        a == b,
{
    lemma_decimal_value(a);
    lemma_decimal_value(b);
}

/// The name of the log file with index `index` in the group opened under `prefix`.
pub open spec fn file_name(prefix: Seq<char>, index: nat) -> Seq<char> {
    prefix + seq!['_'] + decimal(index) + seq!['.', 'l', 'o', 'g']
}

/// The path of that file inside the directory `dir`.
pub open spec fn log_path(dir: Seq<char>, prefix: Seq<char>, index: nat) -> Seq<char> {
    dir + seq!['/'] + file_name(prefix, index)
}

/// Within one prefix, distinct indices give distinct file names.
pub proof fn lemma_file_name_injective(prefix: Seq<char>, a: nat, b: nat)
    requires
        file_name(prefix, a) == file_name(prefix, b),
    ensures
        a == b,
{
    let fa = file_name(prefix, a);
    let fb = file_name(prefix, b);
    let lo = prefix.len() as int + 1;
    assert(fa.subrange(lo, fa.len() - 4) =~= decimal(a));
    assert(fb.subrange(lo, fb.len() - 4) =~= decimal(b));
    lemma_decimal_injective(a, b);
}

/// The first index, counting from 0, whose file name is not among `names`.
pub open spec fn first_free_index(prefix: Seq<char>, names: Seq<Seq<char>>) -> nat {
    choose|i: nat|
        !names.contains(file_name(prefix, i)) && forall|j: nat|
            j < i ==> names.contains(#[trigger] file_name(prefix, j))
}

/// The views of a list of strings.
pub open spec fn views_of(v: Seq<String>) -> Seq<Seq<char>> {
    v.map_values(|s: String| s@)
}

/// The text of the digit `d`.
pub(crate) fn digit_str(d: usize) -> (r: &'static str)
    requires
        d < 10,
    ensures
        r@ == seq![digit_char(d as nat)],
{
    proof {
        reveal_strlit("0");
        reveal_strlit("1");
        reveal_strlit("2");
        reveal_strlit("3");
        reveal_strlit("4");
        reveal_strlit("5");
        reveal_strlit("6");
        reveal_strlit("7");
        reveal_strlit("8");
        reveal_strlit("9");
    }
    let r = if d == 0 {
        "0"
    } else if d == 1 {
        "1"
    } else if d == 2 {
        "2"
    } else if d == 3 {
        "3"
    } else if d == 4 {
        "4"
    } else if d == 5 {
        "5"
    } else if d == 6 {
        "6"
    } else if d == 7 {
        "7"
    } else if d == 8 {
        "8"
    } else {
        "9"
    };
    assert(r@ =~= seq![digit_char(d as nat)]);
    r
}

/// Appends the decimal rendering of `n` to `s`.
pub fn push_decimal(s: &mut String, n: usize)
    ensures
        final(s)@ == old(s)@ + decimal(n as nat),
    decreases n,
{
    if n >= 10 {
        push_decimal(s, n / 10);
    }
    s.append(digit_str(n % 10));
    assert(s@ =~= old(s)@ + decimal(n as nat));
}

/// The file name for `index` in the group opened under `prefix`: `<prefix>_<index>.log`.
pub fn file_name_of(prefix: &str, index: usize) -> (r: String)
    ensures
        r@ == file_name(prefix@, index as nat),
{
    proof {
        reveal_strlit("_");
        reveal_strlit(".log");
    }
    let mut r = String::from_str(prefix);
    r.append("_");
    push_decimal(&mut r, index);
    r.append(".log");
    assert(r@ =~= file_name(prefix@, index as nat));
    r
}

/// The path of the file for `index`: `<dir>/<prefix>_<index>.log`.
pub fn log_path_of(dir: &str, prefix: &str, index: usize) -> (r: String)
    ensures
        r@ == log_path(dir@, prefix@, index as nat),
{
    proof {
        reveal_strlit("/");
    }
    let mut r = String::from_str(dir);
    r.append("/");
    let name = file_name_of(prefix, index);
    r.append(name.as_str());
    assert(r@ =~= log_path(dir@, prefix@, index as nat));
    r
}

/// The position of `name` in `names`, if it is there.
fn position_of(names: &Vec<String>, name: &String) -> (r: Option<usize>)
    ensures
        r matches Some(k) ==> k < names.len() && names@[k as int]@ == name@,
        r is None ==> !views_of(names@).contains(name@),
{
    let mut k: usize = 0;
    while k < names.len()
        invariant
            k <= names.len(),
            forall|m: int| 0 <= m < k ==> names@[m]@ != name@,
        decreases names.len() - k,
    {
        if names[k] == *name {
            return Some(k);
        }
        k += 1;
    }
    proof {
        if views_of(names@).contains(name@) {
            let m = choose|m: int| 0 <= m < views_of(names@).len() && views_of(names@)[m] == name@;
            assert(names@[m]@ == name@);
        }
    }
    None
}

/// Proves that `i` is the first index whose file name is missing from `names`.
proof fn lemma_first_free(prefix: Seq<char>, names: Seq<Seq<char>>, i: nat)
    requires
        !names.contains(file_name(prefix, i)),
        forall|j: nat| j < i ==> names.contains(#[trigger] file_name(prefix, j)),
    ensures
        first_free_index(prefix, names) == i,
{
    let c = first_free_index(prefix, names);
    assert(!names.contains(file_name(prefix, c)) && forall|j: nat|
        j < c ==> names.contains(#[trigger] file_name(prefix, j)));
    if c < i {
        assert(names.contains(file_name(prefix, c)));
    } else if i < c {
        assert(names.contains(file_name(prefix, i)));
    }
}

/// The index at which a group of log files resumes: the first index, counting
/// from 0, whose file `<prefix>_<index>.log` is not among the names `existing`
/// of the files already in the directory.
pub fn recover_index(prefix: &str, existing: &Vec<String>) -> (r: usize)
    ensures
        r as nat == first_free_index(prefix@, views_of(existing@)),
        r <= existing.len(),
        !views_of(existing@).contains(file_name(prefix@, r as nat)),
        forall|j: nat| j < r ==> views_of(existing@).contains(#[trigger] file_name(prefix@, j)),
{
    let ghost names = views_of(existing@);
    let ghost mut hit: Set<int> = Set::empty();
    let mut i: usize = 0;
    proof {
        lemma_int_range(0, existing.len() as int);
    }
    loop
        invariant
            names == views_of(existing@),
            i <= existing.len(),
            forall|j: nat| j < i ==> names.contains(#[trigger] file_name(prefix@, j)),
            hit.finite(),
            hit.len() == i,
            hit.subset_of(set_int_range(0, existing.len() as int)),
            set_int_range(0, existing.len() as int).finite(),
            set_int_range(0, existing.len() as int).len() == existing.len(),
            forall|k: int|
                #![trigger hit.contains(k)]
                hit.contains(k) ==> exists|j: nat|
                    j < i && names[k] == #[trigger] file_name(prefix@, j),
        decreases existing.len() - i,
    {
        let name = file_name_of(prefix, i);
        match position_of(existing, &name) {
            None => {
                proof {
                    lemma_first_free(prefix@, names, i as nat);
                }
                return i;
            },
            Some(k) => {
                proof {
                    assert(names[k as int] == file_name(prefix@, i as nat));
                    if hit.contains(k as int) {
                        let j = choose|j: nat|
                            j < i && names[k as int] == #[trigger] file_name(prefix@, j);
                        lemma_file_name_injective(prefix@, i as nat, j);
                    }
                    assert(names.contains(file_name(prefix@, i as nat)));
                    let old_hit = hit;
                    hit = hit.insert(k as int);
                    assert forall|m: int| #![trigger hit.contains(m)] hit.contains(m) implies exists|j: nat|
                        j < i + 1 && names[m] == #[trigger] file_name(prefix@, j) by {
                        if m == k as int {
                            assert(names[m] == file_name(prefix@, i as nat));
                        } else {
                            assert(old_hit.contains(m));
                        }
                    }
                    lemma_len_subset(hit, set_int_range(0, existing.len() as int));
                }
                i += 1;
            },
        }
    }
}

} // verus!
