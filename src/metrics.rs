use vstd::prelude::*;
use vstd::string::*;
use vstd::utf8::encode_utf8;

verus! {

/// Whether a character is numeric in Unicode.
pub uninterp spec fn unicode_numeric(c: char) -> bool;

/// Whether a character is alphabetic in Unicode.
pub uninterp spec fn unicode_alphabetic(c: char) -> bool;

/// Relies on `char::is_numeric`; on ASCII it holds exactly of the digits.
#[verifier::external_body]
fn is_numeric_char(c: char) -> (r: bool)
    ensures
        r == unicode_numeric(c),
        (c as u32) < 128 ==> r == ('0' <= c && c <= '9'),
{
    c.is_numeric()
}

/// Relies on `char::is_alphabetic`; on ASCII it holds exactly of the letters.
#[verifier::external_body]
fn is_alphabetic_char(c: char) -> (r: bool)
    ensures
        r == unicode_alphabetic(c),
        (c as u32) < 128 ==> r == (('a' <= c && c <= 'z') || ('A' <= c && c <= 'Z')),
{
    c.is_alphabetic()
}

pub open spec fn hex_or_dash(c: char) -> bool {
    ('0' <= c && c <= '9') || ('a' <= c && c <= 'f') || ('A' <= c && c <= 'F') || c == '-'
}

pub open spec fn alnum(c: char) -> bool {
    crate::router::unicode_alphanumeric(c)
}

/// Whether a path segment looks like an identifier: all numeric; or, at 32 bytes or
/// more with a dash, only hex digits and dashes; or, over 10 bytes, alphanumeric with
/// both a digit and a letter.
pub open spec fn likely_id(s: Seq<char>, byte_len: nat) -> bool {
    if forall|i: int| 0 <= i < s.len() ==> unicode_numeric(#[trigger] s[i]) {
        true
    } else if byte_len >= 32 && s.contains('-') {
        forall|i: int| 0 <= i < s.len() ==> hex_or_dash(#[trigger] s[i])
    } else if byte_len > 10 && forall|i: int| 0 <= i < s.len() ==> alnum(#[trigger] s[i]) {
        (exists|i: int| 0 <= i < s.len() && unicode_numeric(#[trigger] s[i]))
            && (exists|i: int| 0 <= i < s.len() && unicode_alphabetic(#[trigger] s[i]))
    } else {
        false
    }
}

/// Whether a path segment is likely an identifier (a number, a UUID, a hash).
pub fn is_likely_id(segment: &str) -> (r: bool)
    ensures
        r == likely_id(segment@, encode_utf8(segment@).len()),
{
    let s = segment;
    let n = s.unicode_len();
    let bytes = s.as_bytes();
    let blen = bytes.len();
    let mut all_num = true;
    let mut all_hex = true;
    let mut all_alnum = true;
    let mut has_dash = false;
    let mut has_num = false;
    let mut has_alpha = false;
    let mut i: usize = 0;
    while i < n
        invariant
            n == s@.len(),
            i <= n,
            all_num == forall|j: int| 0 <= j < i ==> unicode_numeric(#[trigger] s@[j]),
            all_hex == forall|j: int| 0 <= j < i ==> hex_or_dash(#[trigger] s@[j]),
            all_alnum == forall|j: int| 0 <= j < i ==> alnum(#[trigger] s@[j]),
            has_dash == exists|j: int| 0 <= j < i && s@[j] == '-',
            has_num == exists|j: int| 0 <= j < i && unicode_numeric(#[trigger] s@[j]),
            has_alpha == exists|j: int| 0 <= j < i && unicode_alphabetic(#[trigger] s@[j]),
        decreases n - i,
    {
        let c = s.get_char(i);
        let num = is_numeric_char(c);
        let alpha = is_alphabetic_char(c);
        let an = crate::router::is_alphanumeric_char(c);
        let hx = ('0' <= c && c <= '9') || ('a' <= c && c <= 'f') || ('A' <= c && c <= 'F') || c == '-';
        all_num = all_num && num;
        all_hex = all_hex && hx;
        all_alnum = all_alnum && an;
        has_dash = has_dash || c == '-';
        has_num = has_num || num;
        has_alpha = has_alpha || alpha;
        i = i + 1;
    }
    proof {
        assert(has_dash == s@.contains('-'));
    }
    if all_num {
        return true;
    }
    if blen >= 32 && has_dash {
        return all_hex;
    }
    if blen > 10 && all_alnum {
        if has_num && has_alpha {
            return true;
        }
    }
    false
}

/// A segment as it appears in a metrics label: identifiers become `:id`.
pub open spec fn label_segment(seg: Seq<char>) -> Seq<char> {
    if seg.len() == 0 {
        seg
    } else if likely_id(seg, encode_utf8(seg).len()) {
        ":id"@
    } else {
        seg
    }
}

/// The label form of `s` scanned from `i`, the current segment starting at `st`.
pub open spec fn label_from(s: Seq<char>, st: int, i: int) -> Seq<char>
    decreases s.len() - i,
{
    if i >= s.len() || i < st || st < 0 {
        label_segment(s.subrange(st, s.len() as int))
    } else if s[i] == '/' {
        label_segment(s.subrange(st, i)) + "/"@ + label_from(s, i + 1, i + 1)
    } else {
        label_from(s, st, i + 1)
    }
}

/// A path as a metrics label: every '/'-separated segment that looks like an identifier
/// is replaced by `:id`.
pub fn sanitize_path(path: &str) -> (r: String)
    ensures
        r@ == label_from(path@, 0, 0),
{
    let n = path.unicode_len();
    let ghost s = path@;
    let mut out = String::new();
    let mut st: usize = 0;
    let mut i: usize = 0;
    while i < n
        invariant
            n == s.len(),
            s == path@,
            st <= i <= n,
            out@ + label_from(s, st as int, i as int) == label_from(s, 0, 0),
        decreases n - i,
    {
        if path.get_char(i) == '/' {
            let seg = path.substring_char(st, i);
            let piece = label_piece(seg);
            let ghost before = out@;
            out.append(piece.as_str());
            proof {
                reveal_strlit("/");
            }
            out.append("/");
            assert(out@ =~= before + label_segment(s.subrange(st as int, i as int)) + "/"@);
            st = i + 1;
        }
        i = i + 1;
    }
    let seg = path.substring_char(st, n);
    let piece = label_piece(seg);
    out.append(piece.as_str());
    out
}

fn label_piece(seg: &str) -> (r: String)
    ensures
        r@ == label_segment(seg@),
{
    if seg.unicode_len() == 0 {
        String::new()
    } else if is_likely_id(seg) {
        proof {
            reveal_strlit(":id");
        }
        String::from_str(":id")
    } else {
        String::from_str(seg)
    }
}

#[verifier::external_type_specification]
#[verifier::external_body]
pub struct ExInstant(std::time::Instant);

/// Relies on `Instant::now`: a reading of the monotonic clock.
pub assume_specification[ std::time::Instant::now ]() -> std::time::Instant;

/// Measures one request for metrics.
pub struct Timer {
    pub start: std::time::Instant,
    pub method: String,
    pub path: String,
    pub backend: Option<String>,
}

impl Timer {
    pub fn new(method: String, path: String) -> (r: Timer)
        ensures
            r.method@ == method@,
            r.path@ == path@,
            r.backend is None,
    {
        Timer { start: std::time::Instant::now(), method, path, backend: None }
    }

    pub fn set_backend(&mut self, backend: String)
        ensures
            final(self).backend matches Some(b) && b@ == backend@,
            final(self).method == old(self).method,
            final(self).path == old(self).path,
            final(self).start == old(self).start,
    {
        self.backend = Some(backend);
    }
}

} // verus!
