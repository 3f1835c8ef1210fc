use vstd::multiset::Multiset;
use vstd::prelude::*;

verus! {

broadcast use vstd::string::group_string_axioms;

/// Relies on `String::push`: appends the given character to the end of the
/// string.
pub assume_specification[ String::push ](s: &mut String, c: char)
    ensures
        final(s)@ == old(s)@.push(c),
;

/// The lower-case form of one character, for the ASCII range; anything else
/// is left alone.
pub open spec fn lower_char(c: char) -> char {
    if 'A' <= c && c <= 'Z' {
        (((c as u8) + 32) as char)
    } else {
        c
    }
}

/// The ASCII lower-case form of a string.
pub open spec fn ascii_lower(s: Seq<char>) -> Seq<char> {
    Seq::new(s.len(), |i: int| lower_char(s[i]))
}

/// Lower-cases the ASCII letters of `s`.
pub fn to_ascii_lowercase(s: &str) -> (r: String)
    ensures
        r@ == ascii_lower(s@),
{
    let n = s.unicode_len();
    let mut out = String::new();
    let mut i: usize = 0;
    while i < n
        invariant
            n == s@.len(),
            i <= n,
            out@ == ascii_lower(s@).subrange(0, i as int),
        decreases n - i,
    {
        let c = s.get_char(i);
        if 'A' <= c && c <= 'Z' {
            out.push(((c as u8) + 32) as char);
        } else {
            out.push(c);
        }
        proof {
            assert(out@ =~= ascii_lower(s@).subrange(0, i + 1));
        }
        i += 1;
    }
    proof {
        assert(out@ =~= ascii_lower(s@));
    }
    out
}

/// Decimal rendering of a natural number, most significant digit first.
pub open spec fn dec_str(n: nat) -> Seq<char>
    decreases n,
{
    if n < 10 {
        seq![digit_char(n)]
    } else {
        dec_str(n / 10) + seq![digit_char(n % 10)]
    }
}

/// The character for one decimal digit.
pub open spec fn digit_char(d: nat) -> char {
    if d == 0 { '0' }
    else if d == 1 { '1' }
    else if d == 2 { '2' }
    else if d == 3 { '3' }
    else if d == 4 { '4' }
    else if d == 5 { '5' }
    else if d == 6 { '6' }
    else if d == 7 { '7' }
    else if d == 8 { '8' }
    else { '9' }
}

fn digit_literal(d: u64) -> (r: &'static str)
    requires
        d < 10,
    ensures
        r@ == seq![digit_char(d as nat)],
{
    proof {
        reveal_strlit("0");
        reveal_strlit("1");
        reveal_strlit("2");
        reveal_strlit("3");
        reveal_strlit("4");
        reveal_strlit("5");
        reveal_strlit("6");
        reveal_strlit("7");
        reveal_strlit("8");
        reveal_strlit("9");
    }
    match d {
        0 => "0",
        1 => "1",
        2 => "2",
        3 => "3",
        4 => "4",
        5 => "5",
        6 => "6",
        7 => "7",
        8 => "8",
        _ => "9",
    }
}

/// Appends the decimal rendering of `n` to `out`.
pub fn push_dec(n: u64, out: &mut String)
    ensures
        final(out)@ == old(out)@ + dec_str(n as nat),
    decreases n,
{
    if n < 10 {
        out.append(digit_literal(n));
    } else {
        push_dec(n / 10, out);
        out.append(digit_literal(n % 10));
    }
}

/// The decimal rendering of `n` as an owned string.
pub fn dec_string(n: u64) -> (r: String)
    ensures
        r@ == dec_str(n as nat),
{
    let mut s = String::new();
    push_dec(n, &mut s);
    proof {
        assert(Seq::<char>::empty() + dec_str(n as nat) =~= dec_str(n as nat));
    }
    s
}

/// The decimal rendering of a signed integer.
pub open spec fn int_text(i: int) -> Seq<char> {
    if i < 0 {
        seq!['-'] + dec_str((-i) as nat)
    } else {
        dec_str(i as nat)
    }
}

/// Appends the decimal rendering of a signed integer to `out`.
pub fn push_int(i: i64, out: &mut String)
    ensures
        final(out)@ == old(out)@ + int_text(i as int),
{
    if i < 0 {
        proof {
            reveal_strlit("-");
        }
        out.append("-");
        let mag: u64 = if i == -0x8000_0000_0000_0000i64 {
            0x8000_0000_0000_0000u64
        } else {
            (-i) as u64
        };
        push_dec(mag, &mut *out);
        proof {
            assert(final(out)@ =~= old(out)@ + (seq!['-'] + dec_str((-(i as int)) as nat)));
        }
    } else {
        push_dec(i as u64, &mut *out);
    }
}

/// The lower-case hexadecimal digit for a value below sixteen.
pub open spec fn hex_char(d: nat) -> char {
    if d < 10 {
        digit_char(d)
    } else if d == 10 {
        'a'
    } else if d == 11 {
        'b'
    } else if d == 12 {
        'c'
    } else if d == 13 {
        'd'
    } else if d == 14 {
        'e'
    } else {
        'f'
    }
}

/// Appends the lower-case hexadecimal digit for `d` to `out`.
pub fn push_hex_digit(d: u32, out: &mut String)
    requires
        d < 16,
    ensures
        final(out)@ == old(out)@.push(hex_char(d as nat)),
{
    if d < 10 {
        out.push(digit_literal(d as u64).get_char(0));
    } else if d == 10 {
        out.push('a');
    } else if d == 11 {
        out.push('b');
    } else if d == 12 {
        out.push('c');
    } else if d == 13 {
        out.push('d');
    } else if d == 14 {
        out.push('e');
    } else {
        out.push('f');
    }
}

/// `needle` occurs in `hay` starting at position `at`.
pub open spec fn occurs_at(hay: Seq<char>, needle: Seq<char>, at: int) -> bool {
    &&& 0 <= at
    &&& at + needle.len() <= hay.len()
    &&& hay.subrange(at, at + needle.len() as int) == needle
}

/// `needle` occurs somewhere in `hay`.
pub open spec fn contains_seq(hay: Seq<char>, needle: Seq<char>) -> bool {
    exists|at: int| occurs_at(hay, needle, at)
}

/// Substring search over character vectors; decides `contains_seq`.
pub fn contains_chars(hay: &Vec<char>, needle: &Vec<char>) -> (r: bool)
    ensures
        r == contains_seq(hay@, needle@),
{
    if needle.len() == 0 {
        proof {
            assert(hay@.subrange(0, 0) =~= needle@);
            assert(occurs_at(hay@, needle@, 0));
        }
        return true;
    }
    if needle.len() > hay.len() {
        proof {
            assert(forall|at: int| !occurs_at(hay@, needle@, at));
        }
        return false;
    }
    let mut at: usize = 0;
    while at <= hay.len() - needle.len()
        invariant
            0 < needle.len() <= hay.len(),
            at <= hay.len() - needle.len() + 1,
            forall|j: int| 0 <= j < at ==> !occurs_at(hay@, needle@, j),
        decreases hay.len() - at,
    {
        let mut i: usize = 0;
        let mut matched = true;
        while i < needle.len()
            invariant
                matched ==> forall|j: int| 0 <= j < i ==> hay@[at + j] == needle@[j],
                at + needle.len() <= hay.len(),
                i <= needle.len(),
                !matched ==> !occurs_at(hay@, needle@, at as int),
            decreases needle.len() - i,
        {
            if hay[at + i] != needle[i] {
                proof {
                    assert(hay@.subrange(at as int, at + needle.len() as int)[i as int]
                        == hay@[at + i]);
                }
                matched = false;
                i = needle.len();
            } else {
                i += 1;
            }
        }
        if matched {
            proof {
                assert(hay@.subrange(at as int, at + needle.len() as int) =~= needle@);
                assert(occurs_at(hay@, needle@, at as int));
            }
            return true;
        }
        at += 1;
    }
    proof {
        assert(forall|j: int| !occurs_at(hay@, needle@, j));
    }
    false
}

/// The characters of `s`, in order.
pub fn chars_vec(s: &str) -> (r: Vec<char>)
    ensures
        r@ == s@,
{
    let n = s.unicode_len();
    let mut out: Vec<char> = Vec::new();
    let mut i: usize = 0;
    while i < n
        invariant
            n == s@.len(),
            i <= n,
            out@ == s@.subrange(0, i as int),
        decreases n - i,
    {
        out.push(s.get_char(i));
        proof {
            assert(out@ =~= s@.subrange(0, i + 1));
        }
        i += 1;
    }
    proof {
        assert(out@ =~= s@);
    }
    out
}

/// Lexicographic order on character sequences, by code point: the order the
/// standard library gives strings.
pub open spec fn seq_le(a: Seq<char>, b: Seq<char>) -> bool
    decreases a.len(),
{
    if a.len() == 0 {
        true
    } else if b.len() == 0 {
        false
    } else if (a[0] as u32) != (b[0] as u32) {
        (a[0] as u32) < (b[0] as u32)
    } else {
        seq_le(a.skip(1), b.skip(1))
    }
}

/// The lexicographic order is reflexive.
pub proof fn lemma_seq_le_refl(a: Seq<char>)
    ensures
        seq_le(a, a),
    decreases a.len(),
{
    if a.len() > 0 {
        lemma_seq_le_refl(a.skip(1));
    }
}

/// The lexicographic order is total.
pub proof fn lemma_seq_le_total(a: Seq<char>, b: Seq<char>)
    ensures
        seq_le(a, b) || seq_le(b, a),
    decreases a.len(),
{
    if a.len() > 0 && b.len() > 0 && (a[0] as u32) == (b[0] as u32) {
        lemma_seq_le_total(a.skip(1), b.skip(1));
    }
}

/// The lexicographic order is transitive.
pub proof fn lemma_seq_le_trans(a: Seq<char>, b: Seq<char>, c: Seq<char>)
    requires
        seq_le(a, b),
        seq_le(b, c),
    ensures
        seq_le(a, c),
    decreases a.len(),
{
    if a.len() > 0 && c.len() > 0 {
        assert(b.len() > 0);
        if (a[0] as u32) == (b[0] as u32) && (b[0] as u32) == (c[0] as u32) {
            lemma_seq_le_trans(a.skip(1), b.skip(1), c.skip(1));
        }
    }
}

/// Decides the lexicographic order on two strings.
pub fn str_le(a: &String, b: &String) -> (r: bool)
    ensures
        r == seq_le(a@, b@),
{
    let na = a.as_str().unicode_len();
    let nb = b.as_str().unicode_len();
    let mut i: usize = 0;
    proof {
        assert(a@.skip(0) =~= a@);
        assert(b@.skip(0) =~= b@);
    }
    while i < na && i < nb
        invariant
            na == a@.len(),
            nb == b@.len(),
            i <= na,
            i <= nb,
            seq_le(a@, b@) == seq_le(a@.skip(i as int), b@.skip(i as int)),
        decreases na - i,
    {
        let ca = a.as_str().get_char(i);
        let cb = b.as_str().get_char(i);
        proof {
            assert(a@.skip(i as int)[0] == a@[i as int]);
            assert(b@.skip(i as int)[0] == b@[i as int]);
            assert(a@.skip(i as int).skip(1) =~= a@.skip(i + 1));
            assert(b@.skip(i as int).skip(1) =~= b@.skip(i + 1));
        }
        if (ca as u32) != (cb as u32) {
            return (ca as u32) < (cb as u32);
        }
        i += 1;
    }
    proof {
        if i == na {
            assert(a@.skip(i as int) =~= Seq::<char>::empty());
        } else {
            assert(b@.skip(i as int) =~= Seq::<char>::empty());
            assert(a@.skip(i as int).len() > 0);
        }
    }
    na <= nb
}

/// The strings of `v`, in ascending lexicographic order: a sorted
/// permutation of the input.
pub fn sort_strings(v: Vec<String>) -> (r: Vec<String>)
    ensures
        r@.to_multiset() == v@.to_multiset(),
        r@.len() == v@.len(),
        forall|i: int, j: int|
            #![trigger r@[i], r@[j]]
            0 <= i <= j < r@.len() ==> seq_le(r@[i]@, r@[j]@),
{
    broadcast use vstd::seq_lib::group_to_multiset_ensures;

    let mut rest = v;
    let mut out: Vec<String> = Vec::new();
    proof {
        assert(out@.to_multiset().add(rest@.to_multiset()) =~= v@.to_multiset());
    }
    while rest.len() > 0
        invariant
            out@.to_multiset().add(rest@.to_multiset()) == v@.to_multiset(),
            out@.len() + rest@.len() == v@.len(),
            forall|i: int, j: int|
                #![trigger out@[i], out@[j]]
                0 <= i <= j < out@.len() ==> seq_le(out@[i]@, out@[j]@),
            forall|i: int, j: int|
                0 <= i < out@.len() && 0 <= j < rest@.len() ==> seq_le(
                    (#[trigger] out@[i])@,
                    (#[trigger] rest@[j])@,
                ),
        decreases rest.len(),
    {
        let mut best: usize = 0;
        let mut j: usize = 1;
        proof {
            lemma_seq_le_refl(rest@[0]@);
        }
        while j < rest.len()
            invariant
                j <= rest@.len(),
                best < rest@.len(),
                forall|k: int| 0 <= k < j ==> seq_le(rest@[best as int]@, (#[trigger] rest@[k])@),
            decreases rest.len() - j,
        {
            if str_le(&rest[j], &rest[best]) {
                proof {
                    assert forall|k: int| 0 <= k < j + 1 implies seq_le(
                        rest@[j as int]@,
                        (#[trigger] rest@[k])@,
                    ) by {
                        if k < j {
                            lemma_seq_le_trans(rest@[j as int]@, rest@[best as int]@, rest@[k]@);
                        } else {
                            lemma_seq_le_refl(rest@[j as int]@);
                        }
                    }
                }
                best = j;
            } else {
                proof {
                    lemma_seq_le_total(rest@[j as int]@, rest@[best as int]@);
                }
            }
            j += 1;
        }
        let ghost rest_before = rest@;
        let picked = rest.remove(best);
        proof {
            assert(picked == rest_before[best as int]);
            rest_before.remove_ensures(best as int);
            assert(rest@ =~= rest_before.remove(best as int));
            assert(out@.push(picked).to_multiset().add(rest@.to_multiset())
                =~= v@.to_multiset()) by {
                rest_before.to_multiset_ensures();
                out@.to_multiset_ensures();
                assert(rest_before.remove(best as int).to_multiset() =~= rest_before.to_multiset()
                    .remove(picked));
                assert(rest@.to_multiset() =~= rest_before.to_multiset().remove(picked));
                assert(out@.push(picked).to_multiset() =~= out@.to_multiset().insert(picked));
                assert(rest_before.to_multiset().count(picked) > 0) by {
                    assert(rest_before.contains(picked)) by {
                        assert(rest_before[best as int] == picked);
                    }
                }
            }
            assert forall|i: int, j2: int|
                0 <= i < out@.push(picked).len() && 0 <= j2 < rest@.len() implies seq_le(
                (#[trigger] out@.push(picked)[i])@,
                (#[trigger] rest@[j2])@,
            ) by {
                let j0 = if j2 < best as int { j2 } else { j2 + 1 };
                assert(rest@[j2] == rest_before[j0]);
                if i < out@.len() {
                    assert(out@.push(picked)[i] == out@[i]);
                } else {
                    assert(out@.push(picked)[i] == picked);
                    assert(seq_le(rest_before[best as int]@, rest_before[j0]@));
                }
            }
            assert forall|i: int, j2: int|
                #![trigger out@.push(picked)[i], out@.push(picked)[j2]]
                0 <= i <= j2 < out@.push(picked).len() implies seq_le(
                out@.push(picked)[i]@,
                out@.push(picked)[j2]@,
            ) by {
                if j2 < out@.len() {
                    assert(out@.push(picked)[i] == out@[i]);
                    assert(out@.push(picked)[j2] == out@[j2]);
                } else {
                    assert(out@.push(picked)[j2] == picked);
                    if i < out@.len() {
                        assert(out@.push(picked)[i] == out@[i]);
                        assert(seq_le(out@[i]@, rest_before[best as int]@));
                    } else {
                        assert(out@.push(picked)[i] == picked);
                        lemma_seq_le_refl(picked@);
                    }
                }
            }
        }
        out.push(picked);
    }
    proof {
        assert(rest@.to_multiset() =~= Multiset::<String>::empty());
        assert(out@.to_multiset().add(Multiset::<String>::empty()) =~= out@.to_multiset());
        assert(out@.to_multiset().len() == v@.to_multiset().len());
    }
    out
}

/// The position of the last colon of `s`, where the port of a remote
/// address begins.
pub open spec fn last_colon(s: Seq<char>) -> Option<int>
    decreases s.len(),
{
    if s.len() == 0 {
        None
    } else if s[s.len() - 1] == ':' {
        Some(s.len() - 1)
    } else {
        last_colon(s.drop_last())
    }
}

/// The host part of a remote address: everything before the last colon, or
/// the whole text when it carries no port.
pub open spec fn host_text(s: Seq<char>) -> Seq<char> {
    match last_colon(s) {
        Some(i) => s.subrange(0, i),
        None => s,
    }
}

/// Splits the host part off a remote address.
pub fn host_of(address: &str) -> (r: String)
    ensures
        r@ == host_text(address@),
{
    let n = address.unicode_len();
    let mut cut: usize = 0;
    let mut found = false;
    let mut i: usize = 0;
    proof {
        assert(address@.subrange(0, 0) =~= Seq::<char>::empty());
    }
    while i < n
        invariant
            n == address@.len(),
            i <= n,
            found ==> cut < i,
            match last_colon(address@.subrange(0, i as int)) {
                Some(k) => found && cut == k,
                None => !found,
            },
        decreases n - i,
    {
        let c = address.get_char(i);
        proof {
            let prefix = address@.subrange(0, i as int);
            let next = address@.subrange(0, i + 1);
            assert(next =~= prefix.push(address@[i as int]));
            assert(next.drop_last() =~= prefix);
            assert(next[next.len() - 1] == address@[i as int]);
        }
        if c == ':' {
            cut = i;
            found = true;
        }
        i += 1;
    }
    proof {
        assert(address@.subrange(0, i as int) =~= address@);
    }
    if found {
        let host = address.substring_char(0, cut);
        String::from_str(host)
    } else {
        String::from_str(address)
    }
}

} // verus!
