use vstd::prelude::*;

verus! {

/// The character of a decimal digit.
pub open spec fn digit_char(d: nat) -> char {
    if d == 0 {
        '0'
    } else if d == 1 {
        '1'
    } else if d == 2 {
        '2'
    } else if d == 3 {
        '3'
    } else if d == 4 {
        '4'
    } else if d == 5 {
        '5'
    } else if d == 6 {
        '6'
    } else if d == 7 {
        '7'
    } else if d == 8 {
        '8'
    } else {
        '9'
    }
}

/// The decimal digits of a natural number, most significant first, without leading zeros.
pub open spec fn nat_decimal(n: nat) -> Seq<char>
    decreases n,
{
    if n < 10 {
        seq![digit_char(n)]
    } else {
        nat_decimal(n / 10).push(digit_char(n % 10))
    }
}

/// The decimal text of an integer, with a leading `-` when it is negative.
pub open spec fn int_decimal(n: int) -> Seq<char> {
    if n < 0 {
        seq!['-'] + nat_decimal((-n) as nat)
    } else {
        nat_decimal(n as nat)
    }
}

/// Whether `needle` occurs in `hay` at position `i`.
pub open spec fn occurs_at(hay: Seq<char>, needle: Seq<char>, i: int) -> bool {
    0 <= i && i + needle.len() <= hay.len() && hay.subrange(i, i + needle.len()) == needle
}

/// Whether `needle` occurs anywhere in `hay`.
pub open spec fn contains_text(hay: Seq<char>, needle: Seq<char>) -> bool {
    exists|i: int| occurs_at(hay, needle, i)
}

/// Whether two strings hold the same characters.
pub fn str_equals(a: &str, b: &str) -> (r: bool)
    ensures
        r == (a@ == b@),
{
    let n = a.unicode_len();
    if n != b.unicode_len() {
        return false;
    }
    let mut i: usize = 0;
    while i < n
        invariant
            n == a@.len(),
            n == b@.len(),
            i <= n,
            forall|j: int| 0 <= j < i ==> a@[j] == b@[j],
        decreases n - i,
    {
        if a.get_char(i) != b.get_char(i) {
            return false;
        }
        i = i + 1;
    }
    assert(a@ =~= b@);
    true
}

/// Whether `needle` occurs in `hay`.
pub fn str_contains(hay: &str, needle: &str) -> (r: bool)
    ensures
        r == contains_text(hay@, needle@),
{
    let h = hay.unicode_len();
    let n = needle.unicode_len();
    if n > h {
        assert forall|i: int| !occurs_at(hay@, needle@, i) by {}
        return false;
    }
    let mut i: usize = 0;
    while i <= h - n
        invariant
            h == hay@.len(),
            n == needle@.len(),
            n <= h,
            i <= h - n + 1,
            forall|k: int| 0 <= k < i ==> !occurs_at(hay@, needle@, k),
        decreases h - n + 1 - i,
    {
        let mut j: usize = 0;
        let mut same = true;
        while j < n
            invariant
                h == hay@.len(),
                n == needle@.len(),
                i + n <= h,
                j <= n,
                same == (forall|k: int| 0 <= k < j ==> hay@[i + k] == needle@[k]),
            decreases n - j,
        {
            if hay.get_char(i + j) != needle.get_char(j) {
                same = false;
            }
            j = j + 1;
        }
        if same {
            assert(hay@.subrange(i as int, i + n) =~= needle@);
            assert(occurs_at(hay@, needle@, i as int));
            return true;
        }
        assert(!occurs_at(hay@, needle@, i as int)) by {
            if occurs_at(hay@, needle@, i as int) {
                assert forall|k: int| 0 <= k < n implies hay@[i + k] == needle@[k] by {
                    assert(hay@.subrange(i as int, i + n)[k] == hay@[i + k]);
                }
            }
        }
        i = i + 1;
    }
    assert forall|k: int| !occurs_at(hay@, needle@, k) by {
        if 0 <= k && k + n <= h {
            assert(k < i);
        }
    }
    false
}

/// The text of one decimal digit.
fn digit_str(d: u64) -> (r: &'static str)
    requires
        d < 10,
    ensures
        r@ == seq![digit_char(d as nat)],
{
    if d == 0 {
        proof { reveal_strlit("0"); }
        "0"
    } else if d == 1 {
        proof { reveal_strlit("1"); }
        "1"
    } else if d == 2 {
        proof { reveal_strlit("2"); }
        "2"
    } else if d == 3 {
        proof { reveal_strlit("3"); }
        "3"
    } else if d == 4 {
        proof { reveal_strlit("4"); }
        "4"
    } else if d == 5 {
        proof { reveal_strlit("5"); }
        "5"
    } else if d == 6 {
        proof { reveal_strlit("6"); }
        "6"
    } else if d == 7 {
        proof { reveal_strlit("7"); }
        "7"
    } else if d == 8 {
        proof { reveal_strlit("8"); }
        "8"
    } else {
        proof { reveal_strlit("9"); }
        "9"
    }
}

/// The decimal digits of `n`, least significant first.
spec fn digits_rev(n: nat) -> Seq<u64>
    decreases n,
{
    if n < 10 {
        seq![n as u64]
    } else {
        seq![(n % 10) as u64] + digits_rev(n / 10)
    }
}

proof fn lemma_digits_rev(n: nat)
    ensures
        digits_rev(n).len() >= 1,
        digits_rev(n).len() == nat_decimal(n).len(),
        forall|k: int| 0 <= k < digits_rev(n).len() ==> #[trigger] digits_rev(n)[k] < 10,
        forall|k: int|
            0 <= k < digits_rev(n).len() ==> #[trigger] nat_decimal(n)[k] == digit_char(
                digits_rev(n)[digits_rev(n).len() - 1 - k] as nat,
            ),
    decreases n,
{
    if n >= 10 {
        lemma_digits_rev(n / 10);
        let t = digits_rev(n / 10);
        assert forall|k: int| 0 <= k < digits_rev(n).len() implies #[trigger] digits_rev(n)[k]
            < 10 by {
            if k > 0 {
                assert(digits_rev(n)[k] == t[k - 1]);
            }
        }
        assert forall|k: int| 0 <= k < digits_rev(n).len() implies #[trigger] nat_decimal(n)[k]
            == digit_char(digits_rev(n)[digits_rev(n).len() - 1 - k] as nat) by {
            if k < t.len() {
                assert(digits_rev(n)[digits_rev(n).len() - 1 - k] == t[t.len() - 1 - k]);
            }
        }
    }
}

/// The decimal text of a natural number.
pub fn u64_decimal(n: u64) -> (r: String)
    ensures
        r@ == nat_decimal(n as nat),
{
    let mut digits: Vec<u64> = Vec::new();
    let mut m: u64 = n;
    assert(digits_rev(n as nat) =~= digits@ + digits_rev(m as nat));
    while m >= 10
        invariant
            digits_rev(n as nat) == digits@ + digits_rev(m as nat),
        decreases m,
    {
        proof {
            assert(digits_rev(m as nat) == seq![(m % 10) as u64] + digits_rev((m / 10) as nat));
        }
        digits.push(m % 10);
        m = m / 10;
        proof {
            assert(digits_rev(n as nat) =~= digits@ + digits_rev(m as nat));
        }
    }
    digits.push(m);
    assert(digits_rev(n as nat) =~= digits@);
    proof {
        lemma_digits_rev(n as nat);
    }
    let mut r = String::new();
    let len = digits.len();
    let mut i: usize = 0;
    while i < len
        invariant
            len == digits@.len(),
            digits@ == digits_rev(n as nat),
            len == nat_decimal(n as nat).len(),
            i <= len,
            r@ == nat_decimal(n as nat).subrange(0, i as int),
            forall|k: int| 0 <= k < len ==> #[trigger] digits@[k] < 10,
        decreases len - i,
    {
        let d = digits[len - 1 - i];
        assert(digits@[len - 1 - i] < 10);
        r.append(digit_str(d));
        proof {
            lemma_digits_rev(n as nat);
            assert(nat_decimal(n as nat)[i as int] == digit_char(digits_rev(n as nat)[len - 1 - i] as nat));
            assert(r@ =~= nat_decimal(n as nat).subrange(0, i + 1));
        }
        i = i + 1;
    }
    assert(r@ =~= nat_decimal(n as nat));
    r
}

/// The decimal text of an integer.
pub fn i64_decimal(n: i64) -> (r: String)
    ensures
        r@ == int_decimal(n as int),
{
    if n < 0 {
        let mag: u64 = if n == i64::MIN {
            9223372036854775808u64
        } else {
            (-n) as u64
        };
        let mut r = String::new();
        r.append("-");
        let digits = u64_decimal(mag);
        r.append(digits.as_str());
        proof {
            reveal_strlit("-");
        }
        assert(r@ =~= int_decimal(n as int));
        r
    } else {
        u64_decimal(n as u64)
    }
}

} // verus!
