use vstd::prelude::*;
use vstd::string::*;

verus! {

/// A header list: (name, value) pairs in order. Names compare without regard to ASCII case.
pub type HeaderList = Vec<(String, String)>;

pub open spec fn lower_char(c: char) -> char {
    if 'A' <= c && c <= 'Z' {
        ((c as u32) + 32) as char
    } else {
        c
    }
}

/// Two texts are equal when compared without regard to ASCII case.
pub open spec fn eq_ignore_case(a: Seq<char>, b: Seq<char>) -> bool {
    a.len() == b.len() && forall|i: int| 0 <= i < a.len() ==> lower_char(a[i]) == lower_char(b[i])
}

/// The view of a header list.
pub open spec fn header_pairs(h: Seq<(String, String)>) -> Seq<(Seq<char>, Seq<char>)> {
    h.map_values(|p: (String, String)| (p.0@, p.1@))
}

/// Whether some header of the list has the given name.
pub open spec fn has_header(h: Seq<(Seq<char>, Seq<char>)>, name: Seq<char>) -> bool {
    exists|i: int| 0 <= i < h.len() && eq_ignore_case(h[i].0, name)
}

/// The list without the headers of the given name.
pub open spec fn without_header(h: Seq<(Seq<char>, Seq<char>)>, name: Seq<char>) -> Seq<(Seq<char>, Seq<char>)> {
    h.filter(|p: (Seq<char>, Seq<char>)| !eq_ignore_case(p.0, name))
}

/// Value of the first header of the given name.
pub open spec fn first_value(h: Seq<(Seq<char>, Seq<char>)>, name: Seq<char>) -> Option<Seq<char>>
    decreases h.len(),
{
    if h.len() == 0 {
        None
    } else if eq_ignore_case(h[0].0, name) {
        Some(h[0].1)
    } else {
        first_value(h.drop_first(), name)
    }
}

fn lower(c: char) -> (r: char)
    ensures
        r == lower_char(c),
{
    if 'A' <= c && c <= 'Z' {
        ((c as u8) + 32) as char
    } else {
        c
    }
}

/// ASCII case-insensitive comparison of two texts.
pub fn eq_ignore_ascii_case(a: &str, b: &str) -> (r: bool)
    ensures
        r == eq_ignore_case(a@, b@),
{
    let n = a.unicode_len();
    if n != b.unicode_len() {
        return false;
    }
    let mut i: usize = 0;
    while i < n
        invariant
            n == a@.len(),
            n == b@.len(),
            i <= n,
            forall|j: int| 0 <= j < i ==> lower_char(a@[j]) == lower_char(b@[j]),
        decreases n - i,
    {
        if lower(a.get_char(i)) != lower(b.get_char(i)) {
            return false;
        }
        i = i + 1;
    }
    true
}

/// Value of the first header named `name`.
pub fn get_header<'a>(headers: &'a HeaderList, name: &str) -> (r: Option<&'a String>)
    ensures
        match r {
            Some(v) => first_value(header_pairs(headers@), name@) == Some(v@),
            None => first_value(header_pairs(headers@), name@) is None,
        },
{
    let ghost hp = header_pairs(headers@);
    assert(hp.subrange(0, hp.len() as int) =~= hp);
    let mut i: usize = 0;
    while i < headers.len()
        invariant
            i <= headers@.len(),
            hp == header_pairs(headers@),
            first_value(hp, name@) == first_value(hp.subrange(i as int, hp.len() as int), name@),
        decreases headers@.len() - i,
    {
        let ghost rest = hp.subrange(i as int, hp.len() as int);
        assert(rest.drop_first() =~= hp.subrange(i + 1, hp.len() as int));
        if eq_ignore_ascii_case(headers[i].0.as_str(), name) {
            return Some(&headers[i].1);
        }
        i = i + 1;
    }
    None
}

/// Whether a header named `name` is present.
pub fn contains_header(headers: &HeaderList, name: &str) -> (r: bool)
    ensures
        r == has_header(header_pairs(headers@), name@),
{
    let ghost hp = header_pairs(headers@);
    let mut i: usize = 0;
    while i < headers.len()
        invariant
            i <= headers@.len(),
            hp == header_pairs(headers@),
            forall|j: int| 0 <= j < i ==> !eq_ignore_case(hp[j].0, name@),
        decreases headers@.len() - i,
    {
        if eq_ignore_ascii_case(headers[i].0.as_str(), name) {
            assert(eq_ignore_case(hp[i as int].0, name@));
            return true;
        }
        i = i + 1;
    }
    false
}

/// Removes every header named `name`, keeping the order of the rest.
pub fn remove_header(headers: &mut HeaderList, name: &str)
    ensures
        header_pairs(final(headers)@) == without_header(header_pairs(old(headers)@), name@),
{
    let ghost hp = header_pairs(old(headers)@);
    let mut kept: HeaderList = Vec::new();
    let mut i: usize = 0;
    let n = headers.len();
    while i < n
        invariant
            n == old(headers)@.len(),
            headers@ == old(headers)@,
            i <= n,
            hp == header_pairs(old(headers)@),
            header_pairs(kept@) == without_header(hp.take(i as int), name@),
        decreases n - i,
    {
        proof {
            assert(hp.take(i as int + 1) =~= hp.take(i as int).push(hp[i as int]));
            hp.take(i as int).lemma_filter_push(hp[i as int], |p: (Seq<char>, Seq<char>)| !eq_ignore_case(p.0, name@));
        }
        let keep = !eq_ignore_ascii_case(headers[i].0.as_str(), name);
        if keep {
            let pair = (headers[i].0.clone(), headers[i].1.clone());
            kept.push(pair);
            assert(header_pairs(kept@) =~= header_pairs(kept@.drop_last()).push(hp[i as int]));
        }
        i = i + 1;
    }
    assert(hp.take(n as int) =~= hp);
    *headers = kept;
}

/// Sets header `name` to `value`, replacing every earlier value of it.
pub fn set_header(headers: &mut HeaderList, name: &str, value: &str)
    ensures
        header_pairs(final(headers)@) == without_header(header_pairs(old(headers)@), name@).push((name@, value@)),
{
    remove_header(headers, name);
    headers.push((String::from_str(name), String::from_str(value)));
    proof {
        assert(header_pairs(headers@) =~= header_pairs(headers@.drop_last()).push((name@, value@)));
    }
}

/// Adds header `name` with `value` unless a header of that name is present.
pub fn add_header_if_absent(headers: &mut HeaderList, name: &str, value: &str)
    ensures
        header_pairs(final(headers)@) == if has_header(header_pairs(old(headers)@), name@) {
            header_pairs(old(headers)@)
        } else {
            header_pairs(old(headers)@).push((name@, value@))
        },
{
    if !contains_header(headers, name) {
        headers.push((String::from_str(name), String::from_str(value)));
        proof {
            assert(header_pairs(headers@) =~= header_pairs(headers@.drop_last()).push((name@, value@)));
        }
    }
}

pub open spec fn digit_char(d: nat) -> char {
    ((d % 10) + 48) as char
}

/// Decimal digits of a natural number, most significant first.
pub open spec fn decimal(n: nat) -> Seq<char>
    decreases n,
{
    if n < 10 {
        seq![digit_char(n)]
    } else {
        decimal(n / 10).push(digit_char(n % 10))
    }
}

/// Decimal text of a signed number.
pub open spec fn signed_decimal(n: int) -> Seq<char> {
    if n < 0 {
        seq!['-'] + decimal((-n) as nat)
    } else {
        decimal(n as nat)
    }
}

fn digit_text(d: u64) -> (r: &'static str)
    requires
        d < 10,
    ensures
        r@ == seq![digit_char(d as nat)],
{
    proof {
        reveal_strlit("0");
        reveal_strlit("1");
        reveal_strlit("2");
        reveal_strlit("3");
        reveal_strlit("4");
        reveal_strlit("5");
        reveal_strlit("6");
        reveal_strlit("7");
        reveal_strlit("8");
        reveal_strlit("9");
    }
    match d {
        0 => "0",
        1 => "1",
        2 => "2",
        3 => "3",
        4 => "4",
        5 => "5",
        6 => "6",
        7 => "7",
        8 => "8",
        _ => "9",
    }
}

/// Decimal text of an unsigned number.
pub fn u64_text(n: u64) -> (r: String)
    ensures
        r@ == decimal(n as nat),
    decreases n,
{
    if n < 10 {
        String::from_str(digit_text(n))
    } else {
        let head = u64_text(n / 10);
        head.concat(digit_text(n % 10))
    }
}

/// Decimal text of a signed number.
pub fn i64_text(n: i64) -> (r: String)
    ensures
        r@ == signed_decimal(n as int),
{
    if n < 0 {
        let m: u64 = if n == i64::MIN { 9223372036854775808u64 } else { (-n) as u64 };
        let digits = u64_text(m);
        proof {
            reveal_strlit("-");
        }
        String::from_str("-").concat(digits.as_str())
    } else {
        u64_text(n as u64)
    }
}

} // verus!
