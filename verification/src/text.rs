//! Character-sequence helpers shared by the whole library.
//!
//! Every string is reasoned about through its view, a `Seq<char>`.

use vstd::prelude::*;
use vstd::std_specs::iter::IteratorSpec;

verus! {

broadcast use vstd::string::group_string_axioms;

/// Appends one character to a string (`String::push`).
#[verifier::external_body]
pub(crate) fn push_char(s: &mut String, c: char)
    ensures
        final(s)@ == old(s)@.push(c),
{
    s.push(c);
}

/// Lower-case mapping of a character sequence as `str::to_lowercase` computes it
/// (full Unicode case mapping).
pub uninterp spec fn lowercase_of(s: Seq<char>) -> Seq<char>;

/// `str::to_lowercase`: the full Unicode lower-case mapping of `s`.  Its result is
/// only named here: the mapping tables take pages to state.
#[verifier::external_body]
pub(crate) fn to_lowercase(s: &str) -> (r: String)
    ensures
        r@ == lowercase_of(s@),
{
    s.to_lowercase()
}

/// The characters of `s`, in order.
pub fn chars_of(s: &str) -> (v: Vec<char>)
    ensures
        v@ == s@,
{
    let mut v: Vec<char> = Vec::new();
    let mut it = s.chars();
    loop
        invariant
            v@ + it.remaining() == s@,
            it.decrease() is Some,
        ensures
            v@ == s@,
        decreases it.decrease()->0,
    {
        match it.next() {
            Some(c) => {
                v.push(c);
            },
            None => {
                assert(v@ + it.remaining() =~= v@);
                break;
            },
        }
    }
    v
}

/// A string holding `v[lo..hi]`.
pub fn string_of_range(v: &Vec<char>, lo: usize, hi: usize) -> (r: String)
    requires
        lo <= hi <= v@.len(),
    ensures
        r@ == v@.subrange(lo as int, hi as int),
{
    let mut r = String::new();
    let mut i = lo;
    while i < hi
        invariant
            lo <= i <= hi <= v@.len(),
            r@ == v@.subrange(lo as int, i as int),
        decreases hi - i,
    {
        push_char(&mut r, v[i]);
        assert(v@.subrange(lo as int, i as int).push(v@[i as int]) =~= v@.subrange(
            lo as int,
            i + 1,
        ));
        i = i + 1;
    }
    r
}

/// A string holding exactly the characters of `v`.
pub fn string_of(v: &Vec<char>) -> (r: String)
    ensures
        r@ == v@,
{
    let r = string_of_range(v, 0, v.len());
    assert(v@.subrange(0, v@.len() as int) =~= v@);
    r
}

/// A fresh string with the characters of `s`.
pub fn owned(s: &str) -> (r: String)
    ensures
        r@ == s@,
{
    String::from_str(s)
}

/// Whether two strings have the same characters.
pub fn same_text(a: &str, b: &str) -> (r: bool)
    ensures
        r == (a@ == b@),
{
    let x = String::from_str(a);
    let y = String::from_str(b);
    x == y
}

/// At most the first `n` elements (`iter().take(n)`).
pub open spec fn prefix_upto<A>(s: Seq<A>, n: int) -> Seq<A> {
    if s.len() <= n {
        s
    } else {
        s.take(n)
    }
}

/// Unicode `White_Space`, the set that `char::is_whitespace` and `str::trim` use.
pub open spec fn is_ws(c: char) -> bool {
    let u = c as u32;
    ||| 0x09 <= u <= 0x0D
    ||| u == 0x20
    ||| u == 0x85
    ||| u == 0xA0
    ||| u == 0x1680
    ||| 0x2000 <= u <= 0x200A
    ||| u == 0x2028
    ||| u == 0x2029
    ||| u == 0x202F
    ||| u == 0x205F
    ||| u == 0x3000
}

pub fn is_whitespace(c: char) -> (b: bool)
    ensures
        b == is_ws(c),
{
    let u = c as u32;
    (0x09 <= u && u <= 0x0D) || u == 0x20 || u == 0x85 || u == 0xA0 || u == 0x1680 || (0x2000
        <= u && u <= 0x200A) || u == 0x2028 || u == 0x2029 || u == 0x202F || u == 0x205F || u
        == 0x3000
}

/// Membership in a trimming class: white space when `ws`, else one of `set`.
pub open spec fn in_class(ws: bool, set: Seq<char>, c: char) -> bool {
    if ws {
        is_ws(c)
    } else {
        set.contains(c)
    }
}

fn class_has(ws: bool, set: &[char], c: char) -> (b: bool)
    ensures
        b == in_class(ws, set@, c),
{
    if ws {
        is_whitespace(c)
    } else {
        let mut i: usize = 0;
        while i < set.len()
            invariant
                !ws,
                i <= set@.len(),
                forall|j: int| 0 <= j < i ==> set@[j] != c,
            decreases set@.len() - i,
        {
            if set[i] == c {
                assert(set@[i as int] == c);
                assert(set@.contains(c));
                return true;
            }
            i = i + 1;
        }
        false
    }
}

/// `s` with every trailing character of the class removed.
pub open spec fn drop_end_while(s: Seq<char>, ws: bool, set: Seq<char>) -> Seq<char>
    decreases s.len(),
{
    if s.len() > 0 && in_class(ws, set, s.last()) {
        drop_end_while(s.drop_last(), ws, set)
    } else {
        s
    }
}

/// `s` with every leading character of the class removed.
pub open spec fn drop_start_while(s: Seq<char>, ws: bool, set: Seq<char>) -> Seq<char>
    decreases s.len(),
{
    if s.len() > 0 && in_class(ws, set, s[0]) {
        drop_start_while(s.drop_first(), ws, set)
    } else {
        s
    }
}

/// `str::trim`: leading and trailing white space removed.
pub open spec fn trim_spec(s: Seq<char>) -> Seq<char> {
    drop_end_while(drop_start_while(s, true, seq![]), true, seq![])
}

pub proof fn lemma_drop_end_shape(s: Seq<char>, ws: bool, set: Seq<char>)
    ensures
        drop_end_while(s, ws, set).len() <= s.len(),
        drop_end_while(s, ws, set) == s.subrange(0, drop_end_while(s, ws, set).len() as int),
        drop_end_while(s, ws, set).len() > 0 ==> !in_class(ws, set, drop_end_while(s, ws, set).last()),
        drop_end_while(drop_end_while(s, ws, set), ws, set) == drop_end_while(s, ws, set),
    decreases s.len(),
{
    if s.len() > 0 && in_class(ws, set, s.last()) {
        lemma_drop_end_shape(s.drop_last(), ws, set);
        let r = drop_end_while(s, ws, set);
        assert(s.drop_last().subrange(0, r.len() as int) =~= s.subrange(0, r.len() as int));
    } else {
        assert(s.subrange(0, s.len() as int) =~= s);
    }
}

pub proof fn lemma_drop_start_shape(s: Seq<char>, ws: bool, set: Seq<char>)
    ensures
        drop_start_while(s, ws, set).len() <= s.len(),
        drop_start_while(s, ws, set).len() > 0 ==> !in_class(ws, set, drop_start_while(s, ws, set)[0]),
        drop_start_while(drop_start_while(s, ws, set), ws, set) == drop_start_while(s, ws, set),
    decreases s.len(),
{
    if s.len() > 0 && in_class(ws, set, s[0]) {
        lemma_drop_start_shape(s.drop_first(), ws, set);
    }
}

/// Trimming twice is trimming once.
pub proof fn lemma_trim_idempotent(s: Seq<char>)
    ensures
        trim_spec(trim_spec(s)) == trim_spec(s),
{
    let a = drop_start_while(s, true, seq![]);
    lemma_drop_start_shape(s, true, seq![]);
    let b = drop_end_while(a, true, seq![]);
    lemma_drop_end_shape(a, true, seq![]);
    // b starts like a, so trimming its start changes nothing
    if b.len() > 0 {
        assert(b[0] == a[0]);
    }
    assert(drop_start_while(b, true, seq![]) == b);
}

/// First index at or after `lo` (up to `hi`) whose character is outside the class.
fn first_outside(v: &Vec<char>, lo: usize, hi: usize, ws: bool, set: &[char]) -> (k: usize)
    requires
        lo <= hi <= v@.len(),
    ensures
        lo <= k <= hi,
        drop_start_while(v@.subrange(lo as int, hi as int), ws, set@) == v@.subrange(
            k as int,
            hi as int,
        ),
{
    let mut k = lo;
    while k < hi && class_has(ws, set, v[k])
        invariant
            lo <= k <= hi <= v@.len(),
            drop_start_while(v@.subrange(lo as int, hi as int), ws, set@) == drop_start_while(
                v@.subrange(k as int, hi as int),
                ws,
                set@,
            ),
        decreases hi - k,
    {
        assert(v@.subrange(k as int, hi as int).drop_first() =~= v@.subrange(k + 1, hi as int));
        k = k + 1;
    }
    k
}

/// Last cut point at or before `hi` (down to `lo`) after which every character is in the class.
fn last_outside(v: &Vec<char>, lo: usize, hi: usize, ws: bool, set: &[char]) -> (k: usize)
    requires
        lo <= hi <= v@.len(),
    ensures
        lo <= k <= hi,
        drop_end_while(v@.subrange(lo as int, hi as int), ws, set@) == v@.subrange(
            lo as int,
            k as int,
        ),
{
    let mut k = hi;
    while k > lo && class_has(ws, set, v[k - 1])
        invariant
            lo <= k <= hi <= v@.len(),
            drop_end_while(v@.subrange(lo as int, hi as int), ws, set@) == drop_end_while(
                v@.subrange(lo as int, k as int),
                ws,
                set@,
            ),
        decreases k - lo,
    {
        assert(v@.subrange(lo as int, k as int).drop_last() =~= v@.subrange(lo as int, k - 1));
        k = k - 1;
    }
    k
}

/// `str::trim`.
pub fn trim(s: &str) -> (r: String)
    ensures
        r@ == trim_spec(s@),
{
    let v = chars_of(s);
    let empty: [char; 0] = [];
    let a = first_outside(&v, 0, v.len(), true, &empty);
    assert(v@.subrange(0, v@.len() as int) =~= v@);
    let b = last_outside(&v, a, v.len(), true, &empty);
    assert(empty@ =~= Seq::<char>::empty());
    string_of_range(&v, a, b)
}

/// `str::trim_end_matches` with a set of characters.
pub fn trim_end_set(s: &str, set: &[char]) -> (r: String)
    ensures
        r@ == drop_end_while(s@, false, set@),
{
    let v = chars_of(s);
    let b = last_outside(&v, 0, v.len(), false, set);
    assert(v@.subrange(0, v@.len() as int) =~= v@);
    string_of_range(&v, 0, b)
}

/// `str::trim_start_matches` with a set of characters.
pub fn trim_start_set(s: &str, set: &[char]) -> (r: String)
    ensures
        r@ == drop_start_while(s@, false, set@),
{
    let v = chars_of(s);
    let a = first_outside(&v, 0, v.len(), false, set);
    assert(v@.subrange(0, v@.len() as int) =~= v@);
    string_of_range(&v, a, v.len())
}

/// `t` occurs in `s` at position `i`.
pub open spec fn occurs_at(s: Seq<char>, t: Seq<char>, i: int) -> bool {
    0 <= i && i + t.len() <= s.len() && s.subrange(i, i + t.len()) == t
}

/// `str::contains` with a string pattern.
pub open spec fn has_sub(s: Seq<char>, t: Seq<char>) -> bool {
    exists|i: int| occurs_at(s, t, i)
}

/// `str::starts_with`.
pub open spec fn has_prefix(s: Seq<char>, t: Seq<char>) -> bool {
    occurs_at(s, t, 0)
}

/// `str::ends_with`.
pub open spec fn has_suffix(s: Seq<char>, t: Seq<char>) -> bool {
    occurs_at(s, t, s.len() - t.len())
}

fn occurs_at_exec(s: &Vec<char>, t: &Vec<char>, i: usize) -> (b: bool)
    ensures
        b == occurs_at(s@, t@, i as int),
{
    if i > s.len() || t.len() > s.len() - i {
        return false;
    }
    let mut j: usize = 0;
    while j < t.len()
        invariant
            i + t@.len() <= s@.len(),
            s@.len() == s.len(),
            j <= t@.len(),
            forall|k: int| 0 <= k < j ==> s@[i + k] == t@[k],
        decreases t@.len() - j,
    {
        if s[i + j] != t[j] {
            assert(s@.subrange(i as int, i + t@.len())[j as int] != t@[j as int]);
            return false;
        }
        j = j + 1;
    }
    assert(s@.subrange(i as int, i + t@.len()) =~= t@);
    true
}

/// `s.contains(t)`.
pub fn contains_str(s: &str, t: &str) -> (b: bool)
    ensures
        b == has_sub(s@, t@),
{
    let sv = chars_of(s);
    let tv = chars_of(t);
    if tv.len() > sv.len() {
        assert forall|i: int| !occurs_at(s@, t@, i) by {}
        return false;
    }
    if tv.len() == 0 {
        assert(s@.subrange(0, 0) =~= t@);
        assert(occurs_at(s@, t@, 0));
        return true;
    }
    let mut i: usize = 0;
    while i <= sv.len() - tv.len()
        invariant
            1 <= tv@.len() <= sv@.len(),
            sv@ == s@,
            tv@ == t@,
            i <= sv@.len() - tv@.len() + 1,
            forall|k: int| 0 <= k < i ==> !occurs_at(s@, t@, k),
        decreases sv@.len() - tv@.len() + 1 - i,
    {
        if occurs_at_exec(&sv, &tv, i) {
            return true;
        }
        i = i + 1;
    }
    assert forall|k: int| !occurs_at(s@, t@, k) by {}
    false
}

/// `s.starts_with(t)`.
pub fn starts_with(s: &str, t: &str) -> (b: bool)
    ensures
        b == has_prefix(s@, t@),
{
    let sv = chars_of(s);
    let tv = chars_of(t);
    occurs_at_exec(&sv, &tv, 0)
}

/// `s.ends_with(t)`.
pub fn ends_with(s: &str, t: &str) -> (b: bool)
    ensures
        b == has_suffix(s@, t@),
{
    let sv = chars_of(s);
    let tv = chars_of(t);
    if tv.len() > sv.len() {
        return false;
    }
    occurs_at_exec(&sv, &tv, sv.len() - tv.len())
}

/// `s.contains(c)` for a single character.
pub fn contains_char(s: &str, c: char) -> (b: bool)
    ensures
        b == s@.contains(c),
{
    let v = chars_of(s);
    let mut i: usize = 0;
    while i < v.len()
        invariant
            v@ == s@,
            i <= v@.len(),
            forall|k: int| 0 <= k < i ==> v@[k] != c,
        decreases v@.len() - i,
    {
        if v[i] == c {
            return true;
        }
        i = i + 1;
    }
    false
}

/// Parts joined with a separator between neighbours (`[String]::join`).
pub open spec fn join_spec(parts: Seq<Seq<char>>, sep: Seq<char>) -> Seq<char>
    decreases parts.len(),
{
    if parts.len() == 0 {
        seq![]
    } else if parts.len() == 1 {
        parts[0]
    } else {
        join_spec(parts.drop_last(), sep) + sep + parts.last()
    }
}

/// `parts.join(sep)`.
pub fn join(parts: &Vec<String>, sep: &str) -> (r: String)
    ensures
        r@ == join_spec(parts.deep_view(), sep@),
{
    let mut r = String::new();
    let ghost dv = parts.deep_view();
    let mut i: usize = 0;
    while i < parts.len()
        invariant
            i <= parts@.len(),
            dv == parts.deep_view(),
            dv.len() == parts@.len(),
            r@ == join_spec(dv.take(i as int), sep@),
        decreases parts@.len() - i,
    {
        assert(dv.take(i + 1).drop_last() =~= dv.take(i as int));
        if i != 0 {
            r.append(sep);
        }
        r.append(parts[i].as_str());
        assert(dv.take(i + 1).last() == parts[i as int]@);
        if i == 0 {
            assert(r@ =~= join_spec(dv.take(1), sep@));
        }
        i = i + 1;
    }
    assert(dv.take(parts@.len() as int) =~= dv);
    r
}


/// Decimal digit of `d` (`d < 10`).
pub open spec fn digit(d: nat) -> char {
    seq!['0', '1', '2', '3', '4', '5', '6', '7', '8', '9'][d as int]
}

/// The decimal numeral of `n`, as `Display` prints an unsigned integer.
pub open spec fn decimal(n: nat) -> Seq<char>
    decreases n,
{
    if n < 10 {
        seq![digit(n)]
    } else {
        decimal(n / 10).push(digit(n % 10))
    }
}

fn digit_exec(d: u64) -> (c: char)
    requires
        d < 10,
    ensures
        c == digit(d as nat),
{
    let ds = ['0', '1', '2', '3', '4', '5', '6', '7', '8', '9'];
    assert(ds@ =~= seq!['0', '1', '2', '3', '4', '5', '6', '7', '8', '9']);
    ds[d as usize]
}

/// `n.to_string()` for an unsigned integer.
pub fn decimal_text(n: u64) -> (r: String)
    ensures
        r@ == decimal(n as nat),
    decreases n,
{
    if n < 10 {
        let mut r = String::new();
        push_char(&mut r, digit_exec(n));
        assert(r@ =~= seq![digit(n as nat)]);
        r
    } else {
        let mut r = decimal_text(n / 10);
        push_char(&mut r, digit_exec(n % 10));
        r
    }
}

} // verus!
